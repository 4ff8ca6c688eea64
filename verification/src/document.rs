//! Blocks and documents: the scanners that hold other statements.

use vstd::prelude::*;
use crate::grammar::{
    block_at, block_failure, document_at, entries_from, entry_at, Boundary,
};
use crate::model::{
    entries_of, lemma_block_entry, lemma_entries_push, Entry, JailBlock, JailConf, ScanError,
};
use crate::scan::{
    is_at, scan_bool_param, scan_comment_c, scan_comment_cpp, scan_comment_shell, scan_run,
    scan_value_param, scanned,
};
use crate::text::string_of;

verus! {

/// The statement and the position that were found, as the grammar writes
/// them.
pub open spec fn found(r: Option<(JailConf, usize)>) -> Option<(Entry, int)> {
    match r {
        Some((entry, next)) => Some((entry@, next as int)),
        None => None,
    }
}

/// A list of statements and a position, as the grammar writes them.
pub open spec fn listed(r: (Vec<JailConf>, usize)) -> (Seq<Entry>, int) {
    (entries_of(r.0@), r.1 as int)
}

/// A block: a name that is not empty, spaces, `{`, a document, and `}`.
pub fn scan_block(chars: &Vec<char>, pos: usize) -> (r: Result<(JailBlock, usize), ScanError>)
    ensures
        scanned(r) == block_at(chars@, pos as int),
        r is Err ==> r->Err_0 == block_failure(chars@, pos as int),
        r is Ok ==> pos < (r->Ok_0).1 <= chars.len(),
    decreases chars.len() - pos, 0nat,
{
    let name_end: usize = scan_run(chars, pos, Boundary::BlockName);
    let brace: usize = scan_run(chars, name_end, Boundary::Blank);
    if !(pos < name_end && is_at(chars, brace, '{')) {
        return Err(ScanError::NoMatch);
    }
    let start: usize = scan_run(chars, brace + 1, Boundary::Space);
    let (params, end) = scan_entries(chars, start);
    if !is_at(chars, end, '}') {
        return Err(ScanError::UnmatchedBlockBrace);
    }
    let name = string_of(chars, pos, name_end);
    Ok((JailBlock { name, params }, end + 1))
}

/// The statement that starts at `pos`: the first scanner that matches, in the
/// order block comment, `//` comment, `#` comment, boolean parameter,
/// parameter with a value, block.
pub fn scan_entry(chars: &Vec<char>, pos: usize) -> (r: Option<(JailConf, usize)>)
    ensures
        found(r) == entry_at(chars@, pos as int),
        r is Some ==> pos < (r->0).1 <= chars.len(),
    decreases chars.len() - pos, 1nat,
{
    if let Ok((comment, next)) = scan_comment_c(chars, pos) {
        return Some((JailConf::Comment(comment), next));
    }
    if let Ok((comment, next)) = scan_comment_cpp(chars, pos) {
        return Some((JailConf::Comment(comment), next));
    }
    if let Ok((comment, next)) = scan_comment_shell(chars, pos) {
        return Some((JailConf::Comment(comment), next));
    }
    if let Ok((param, next)) = scan_bool_param(chars, pos) {
        return Some((JailConf::ParamBool(param), next));
    }
    if let Ok((param, next)) = scan_value_param(chars, pos) {
        return Some((JailConf::ParamValue(param), next));
    }
    match scan_block(chars, pos) {
        Ok((block, next)) => {
            let entry = JailConf::Block(block);
            proof {
                lemma_block_entry(&entry);
            }
            Some((entry, next))
        },
        Err(_) => None,
    }
}

/// The statements that follow one another from `pos` on, white space skipped
/// after each, and the position where no statement starts.
pub fn scan_entries(chars: &Vec<char>, pos: usize) -> (r: (Vec<JailConf>, usize))
    ensures
        listed(r) == entries_from(chars@, pos as int),
        pos <= r.1,
        pos <= chars.len() ==> r.1 <= chars.len(),
    decreases chars.len() - pos, 2nat,
{
    let mut entries: Vec<JailConf> = Vec::new();
    let mut cur: usize = pos;
    loop
        invariant
            pos <= cur,
            pos <= chars.len() ==> cur <= chars.len(),
            entries_from(chars@, pos as int) == (
                entries_of(entries@) + entries_from(chars@, cur as int).0,
                entries_from(chars@, cur as int).1,
            ),
        ensures
            pos <= cur,
            pos <= chars.len() ==> cur <= chars.len(),
            entries_from(chars@, pos as int) == (entries_of(entries@), cur as int),
        decreases chars.len() - cur,
    {
        match scan_entry(chars, cur) {
            Some((entry, next)) => {
                let after: usize = scan_run(chars, next, Boundary::Space);
                proof {
                    lemma_entries_push(entries@, entry);
                    let tail = entries_from(chars@, after as int).0;
                    assert(entries_of(entries@) + (seq![entry@] + tail) =~= entries_of(
                        entries@,
                    ).push(entry@) + tail);
                }
                entries.push(entry);
                cur = after;
            },
            None => {
                assert(entries_of(entries@) + Seq::<Entry>::empty() =~= entries_of(entries@));
                break ;
            },
        }
    }
    (entries, cur)
}

/// A document: white space, then statements until none starts.
pub fn scan_document(chars: &Vec<char>, pos: usize) -> (r: (Vec<JailConf>, usize))
    ensures
        listed(r) == document_at(chars@, pos as int),
        pos <= r.1,
        pos <= chars.len() ==> r.1 <= chars.len(),
{
    let start: usize = scan_run(chars, pos, Boundary::Space);
    scan_entries(chars, start)
}

} // verus!
