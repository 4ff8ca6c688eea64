//! The entry points: a whole text, or one statement at the head of a text.

use vstd::prelude::*;
use crate::document::{scan_block, scan_document};
use crate::grammar::{
    block_at, bool_param_at, comment_c_at, comment_cpp_at, comment_shell_at, document_at,
    run_end, value_param_at, Boundary,
};
use crate::model::{
    entries_of, lemma_block_entry, Entry, JailComment, JailConf, JailParamBool, JailParamValue,
    ParseError, ScanError,
};
use crate::scan::{
    scan_bool_param, scan_comment_c, scan_comment_cpp, scan_comment_shell, scan_run,
    scan_value_param, scanned,
};
use crate::text::chars_of;

verus! {

/// What a text parses to: the statements of its document, if the document
/// takes up the whole text.
pub open spec fn parse_spec(s: Seq<char>) -> Option<Seq<Entry>> {
    let (entries, end) = document_at(s, 0);
    if end == s.len() {
        Some(entries)
    } else {
        None
    }
}

/// The position of the first character of `s` that is no white space.
pub open spec fn lead(s: Seq<char>) -> int {
    run_end(s, 0, Boundary::Space)
}

/// A statement found at the head of a text, with the text that is left once
/// the white space after the statement is skipped.
pub open spec fn with_rest(s: Seq<char>, found: Option<(Entry, int)>) -> Option<
    (Seq<char>, Entry),
> {
    match found {
        Some((entry, next)) => Some(
            (s.subrange(run_end(s, next, Boundary::Space), s.len() as int), entry),
        ),
        None => None,
    }
}

/// Whether `r` is what `parse` returns on the text `s`.
pub open spec fn parsed(s: Seq<char>, r: Result<Vec<JailConf>, ParseError>) -> bool {
    match r {
        Ok(entries) => parse_spec(s) == Some(entries_of(entries@)),
        Err(_) => parse_spec(s) is None,
    }
}

/// What a parse of one statement returned, as the grammar writes it.
pub open spec fn stated<T: View<V = Entry>>(r: Result<(&str, T), ParseError>) -> Option<
    (Seq<char>, Entry),
> {
    match r {
        Ok((rest, t)) => Some((rest@, t@)),
        Err(_) => None,
    }
}

/// Skips the white space after a statement and returns the statement with the
/// text that is left.
fn finish<'a, T: View<V = Entry>>(
    input: &'a str,
    chars: &Vec<char>,
    found: Result<(T, usize), ScanError>,
) -> (r: Result<(&'a str, T), ParseError>)
    requires
        chars@ == input@,
        found is Ok ==> (found->Ok_0).1 <= chars.len(),
    ensures
        stated(r) == with_rest(input@, scanned(found)),
{
    match found {
        Ok((t, next)) => {
            let after: usize = scan_run(chars, next, Boundary::Space);
            Ok((input.substring_char(after, chars.len()), t))
        },
        Err(_) => Err(ParseError),
    }
}

/// Parses a whole text.
///
/// Succeeds exactly when the statements of the document, with the white
/// space around them, take up the whole text, and then returns them in
/// source order. Blocks are read by recursion, so the call stack grows with
/// the depth to which blocks are nested.
pub fn parse(input: &str) -> (r: Result<Vec<JailConf>, ParseError>)
    ensures
        parsed(input@, r),
{
    let chars = chars_of(input);
    let (entries, end) = scan_document(&chars, 0);
    if end == chars.len() {
        Ok(entries)
    } else {
        Err(ParseError)
    }
}

/// Parses the document at the head of a text: the statements up to the first
/// position where none starts, and the text from there on. It never fails.
pub fn parse_input<'a>(input: &'a str) -> (r: Result<(&'a str, Vec<JailConf>), ParseError>)
    ensures
        r is Ok,
        entries_of((r->Ok_0).1@) == document_at(input@, 0).0,
        (r->Ok_0).0@ == input@.subrange(document_at(input@, 0).1, input@.len() as int),
{
    let chars = chars_of(input);
    let (entries, end) = scan_document(&chars, 0);
    Ok((input.substring_char(end, chars.len()), entries))
}

/// Parses a `/* ... */` comment at the head of a text, white space around it
/// skipped.
pub fn parse_comment_c_style<'a>(input: &'a str) -> (r: Result<(&'a str, JailComment), ParseError>)
    ensures
        stated(r) == with_rest(input@, comment_c_at(input@, lead(input@))),
{
    let chars = chars_of(input);
    let start: usize = scan_run(&chars, 0, Boundary::Space);
    finish(input, &chars, scan_comment_c(&chars, start))
}

/// Parses a `// ...` comment at the head of a text, white space around it
/// skipped.
pub fn parse_comment_cpp_style<'a>(input: &'a str) -> (r: Result<
    (&'a str, JailComment),
    ParseError,
>)
    ensures
        stated(r) == with_rest(input@, comment_cpp_at(input@, lead(input@))),
{
    let chars = chars_of(input);
    let start: usize = scan_run(&chars, 0, Boundary::Space);
    finish(input, &chars, scan_comment_cpp(&chars, start))
}

/// Parses a `# ...` comment at the head of a text, white space around it
/// skipped.
pub fn parse_comment_shell_style<'a>(input: &'a str) -> (r: Result<
    (&'a str, JailComment),
    ParseError,
>)
    ensures
        stated(r) == with_rest(input@, comment_shell_at(input@, lead(input@))),
{
    let chars = chars_of(input);
    let start: usize = scan_run(&chars, 0, Boundary::Space);
    finish(input, &chars, scan_comment_shell(&chars, start))
}

/// Parses a boolean parameter at the head of a text, white space around it
/// skipped.
pub fn parse_bool_param_no_value<'a>(input: &'a str) -> (r: Result<
    (&'a str, JailParamBool),
    ParseError,
>)
    ensures
        stated(r) == with_rest(input@, bool_param_at(input@, lead(input@))),
{
    let chars = chars_of(input);
    let start: usize = scan_run(&chars, 0, Boundary::Space);
    finish(input, &chars, scan_bool_param(&chars, start))
}

/// Parses a parameter with a value at the head of a text, white space around
/// it skipped.
pub fn parse_param_with_value<'a>(input: &'a str) -> (r: Result<
    (&'a str, JailParamValue),
    ParseError,
>)
    ensures
        stated(r) == with_rest(input@, value_param_at(input@, lead(input@))),
{
    let chars = chars_of(input);
    let start: usize = scan_run(&chars, 0, Boundary::Space);
    finish(input, &chars, scan_value_param(&chars, start))
}

/// Parses a block at the head of a text, white space around it skipped.
pub fn parse_block<'a>(input: &'a str) -> (r: Result<(&'a str, JailConf), ParseError>)
    ensures
        stated(r) == with_rest(input@, block_at(input@, lead(input@))),
{
    let chars = chars_of(input);
    let start: usize = scan_run(&chars, 0, Boundary::Space);
    match scan_block(&chars, start) {
        Ok((block, next)) => {
            let entry = JailConf::Block(block);
            proof {
                lemma_block_entry(&entry);
            }
            finish(input, &chars, Ok((entry, next)))
        },
        Err(_) => Err(ParseError),
    }
}

} // verus!
