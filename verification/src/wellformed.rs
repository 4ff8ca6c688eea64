//! What holds of every statement that the grammar yields.

use vstd::prelude::*;
use crate::grammar::{
    at, bool_param_at, comment_c_at, comment_close, comment_cpp_at, comment_shell_at,
    entries_from, entry_at, lemma_comment_close_bounds, lemma_entry_at_advances,
    lemma_run_end_bounds, run_end, simple_at, valid_block_name, valid_name, Boundary,
};
use crate::model::{CommentStyle, Entry};
use crate::parse::parse_spec;

verus! {

/// A statement as the grammar yields it: a name is not empty and holds no
/// character that ends a name; a value holds no `"`; a block comment holds no
/// `*/` and a line comment no newline; and the statements of a block are of
/// this kind too.
pub open spec fn well_formed(e: Entry) -> bool
    decreases e,
{
    match e {
        Entry::Comment { text, style } => match style {
            CommentStyle::C => forall|i: int|
                0 <= i && i + 1 < text.len() ==> !(text[i] == '*' && #[trigger] text[i + 1] == '/'),
            CommentStyle::CPP => !text.contains('\n'),
            CommentStyle::Shell => !text.contains('\n'),
        },
        Entry::ParamBool { name } => valid_name(name),
        Entry::ParamValue { name, value, append } => valid_name(name) && !value.contains('"'),
        Entry::Block { name, params } => {
            &&& valid_block_name(name)
            &&& forall|i: int| 0 <= i < params.len() ==> well_formed(#[trigger] params[i])
        },
    }
}

/// Every statement in the list is well formed.
pub open spec fn all_well_formed(entries: Seq<Entry>) -> bool {
    forall|i: int| 0 <= i < entries.len() ==> well_formed(#[trigger] entries[i])
}

/// The characters of a run hold none at its boundary.
proof fn lemma_run_is_clear(s: Seq<char>, from: int, b: Boundary)
    requires
        0 <= from <= s.len(),
    ensures
        forall|i: int|
            0 <= i < run_end(s, from, b) - from ==> !b.holds(
                #[trigger] s.subrange(from, run_end(s, from, b))[i],
            ),
        forall|c: char|
            b.holds(c) ==> !(#[trigger] s.subrange(from, run_end(s, from, b)).contains(c)),
{
    lemma_run_end_bounds(s, from, b);
    let run = s.subrange(from, run_end(s, from, b));
    assert forall|c: char| b.holds(c) implies !(#[trigger] run.contains(c)) by {
        if run.contains(c) {
            let i = choose|i: int| 0 <= i < run.len() && run[i] == c;
            assert(run[i] == s[from + i]);
        }
    }
}

/// A statement that holds no other is well formed.
pub proof fn lemma_simple_well_formed(s: Seq<char>, pos: int)
    requires
        0 <= pos <= s.len(),
        simple_at(s, pos) is Some,
    ensures
        well_formed((simple_at(s, pos)->0).0),
{
    if comment_c_at(s, pos) is Some {
        lemma_comment_close_bounds(s, pos + 2);
        let close = comment_close(s, pos + 2);
        let text = s.subrange(pos + 2, close);
        assert forall|i: int| 0 <= i && i + 1 < text.len() implies !(text[i] == '*'
            && #[trigger] text[i + 1] == '/') by {
            assert(s[pos + 2 + i + 1] == text[i + 1]);
        }
    } else if comment_cpp_at(s, pos) is Some {
        lemma_run_is_clear(s, pos + 2, Boundary::LineEnd);
        assert(Boundary::LineEnd.holds('\n'));
    } else if comment_shell_at(s, pos) is Some {
        lemma_run_is_clear(s, pos + 1, Boundary::LineEnd);
        assert(Boundary::LineEnd.holds('\n'));
    } else if bool_param_at(s, pos) is Some {
        lemma_run_end_bounds(s, pos, Boundary::Name);
        lemma_run_is_clear(s, pos, Boundary::Name);
    } else {
        let name_end = run_end(s, pos, Boundary::Name);
        let sign = run_end(s, name_end, Boundary::Blank);
        let equals = if at(s, sign, '+') { sign + 1 } else { sign };
        let opening = run_end(s, equals + 1, Boundary::Blank);
        let quoted = at(s, opening, '"');
        let value_start = if quoted { opening + 1 } else { opening };
        lemma_run_end_bounds(s, pos, Boundary::Name);
        lemma_run_is_clear(s, pos, Boundary::Name);
        lemma_run_end_bounds(s, name_end, Boundary::Blank);
        lemma_run_end_bounds(s, equals + 1, Boundary::Blank);
        lemma_run_is_clear(s, value_start, if quoted { Boundary::Quote } else { Boundary::Bare });
        assert(Boundary::Quote.holds('"') && Boundary::Bare.holds('"'));
    }
}

/// The statement that starts at `pos`, if there is one, is well formed.
pub proof fn lemma_entry_well_formed(s: Seq<char>, pos: int)
    requires
        0 <= pos <= s.len(),
        entry_at(s, pos) is Some,
    ensures
        well_formed((entry_at(s, pos)->0).0),
    decreases s.len() - pos, 0nat,
{
    if simple_at(s, pos) is Some {
        lemma_simple_well_formed(s, pos);
    } else {
        let name_end = run_end(s, pos, Boundary::BlockName);
        let brace = run_end(s, name_end, Boundary::Blank);
        lemma_run_end_bounds(s, pos, Boundary::BlockName);
        lemma_run_is_clear(s, pos, Boundary::BlockName);
        lemma_run_end_bounds(s, name_end, Boundary::Blank);
        lemma_run_end_bounds(s, brace + 1, Boundary::Space);
        lemma_entries_well_formed(s, run_end(s, brace + 1, Boundary::Space));
    }
}

/// The statements from `pos` on are all well formed.
pub proof fn lemma_entries_well_formed(s: Seq<char>, pos: int)
    requires
        0 <= pos <= s.len(),
    ensures
        all_well_formed(entries_from(s, pos).0),
    decreases s.len() - pos, 1nat,
{
    if entry_at(s, pos) is Some {
        lemma_entry_at_advances(s, pos);
        lemma_entry_well_formed(s, pos);
        let next = (entry_at(s, pos)->0).1;
        lemma_run_end_bounds(s, next, Boundary::Space);
        lemma_entries_well_formed(s, run_end(s, next, Boundary::Space));
    }
}

/// Every statement of a parsed text is well formed, at every depth.
pub proof fn law_parsed_well_formed(s: Seq<char>)
    requires
        parse_spec(s) is Some,
    ensures
        all_well_formed(parse_spec(s)->0),
{
    lemma_run_end_bounds(s, 0, Boundary::Space);
    lemma_entries_well_formed(s, run_end(s, 0, Boundary::Space));
}

} // verus!
