//! The grammar of `jail.conf`, as specification functions over a sequence of
//! characters.
//!
//! A scanner is a function from a text and a position to either nothing (no
//! statement of its kind starts there) or the statement and the position just
//! after it. Scanners never skip white space; the document does, between
//! statements.

use vstd::prelude::*;
use crate::model::{CommentStyle, Entry, ScanError};

verus! {

/// The character classes at which a run of characters ends.
#[derive(Debug, PartialEq, Eq, Clone, Copy, Structural)]
pub enum Boundary {
    /// End of a parameter's name: a space, `+`, `=`, `;` or a newline.
    Name,
    /// End of a block's name: a space, `{`, `;` or a newline.
    BlockName,
    /// End of a value written without quotes: `"`, `;` or a newline.
    Bare,
    /// End of a value written in quotes: `"`.
    Quote,
    /// End of a line: a newline.
    LineEnd,
    /// End of a run of spaces and tabs.
    Blank,
    /// End of a run of white space: spaces, tabs, carriage returns and newlines.
    Space,
}

/// A space or a tab: what may stand between the parts of one statement.
pub open spec fn is_blank(c: char) -> bool {
    c == ' ' || c == '\t'
}

/// White space: what may stand between statements.
pub open spec fn is_white_space(c: char) -> bool {
    c == ' ' || c == '\t' || c == '\r' || c == '\n'
}

impl Boundary {
    /// Whether a run that ends at this boundary ends at the character `c`.
    pub open spec fn holds(self, c: char) -> bool {
        match self {
            Boundary::Name => c == ' ' || c == '+' || c == '=' || c == ';' || c == '\n',
            Boundary::BlockName => c == ' ' || c == '{' || c == ';' || c == '\n',
            Boundary::Bare => c == '"' || c == ';' || c == '\n',
            Boundary::Quote => c == '"',
            Boundary::LineEnd => c == '\n',
            Boundary::Blank => !is_blank(c),
            Boundary::Space => !is_white_space(c),
        }
    }
}

/// Whether the character at position `i` of `s` is `c`.
pub open spec fn at(s: Seq<char>, i: int, c: char) -> bool {
    0 <= i < s.len() && s[i] == c
}

/// The end of the longest run that starts at `from` and holds no character of
/// the boundary: the first position at or after `from` where the boundary
/// holds, or the end of the text.
pub open spec fn run_end(s: Seq<char>, from: int, b: Boundary) -> int
    decreases s.len() - from,
{
    if 0 <= from < s.len() && !b.holds(s[from]) {
        run_end(s, from + 1, b)
    } else {
        from
    }
}

/// A parameter's name: not empty, and without a space, `+`, `=`, `;` or a
/// newline.
pub open spec fn valid_name(name: Seq<char>) -> bool {
    &&& name.len() > 0
    &&& forall|i: int| 0 <= i < name.len() ==> !Boundary::Name.holds(#[trigger] name[i])
}

/// A block's name: not empty, and without a space, `{`, `;` or a newline.
pub open spec fn valid_block_name(name: Seq<char>) -> bool {
    &&& name.len() > 0
    &&& forall|i: int| 0 <= i < name.len() ==> !Boundary::BlockName.holds(#[trigger] name[i])
}

/// The position of the first `*/` at or after `from`, or the length of the
/// text where there is none.
pub open spec fn comment_close(s: Seq<char>, from: int) -> int
    decreases s.len() - from,
{
    if 0 <= from && from + 1 < s.len() {
        if s[from] == '*' && s[from + 1] == '/' {
            from
        } else {
            comment_close(s, from + 1)
        }
    } else {
        s.len() as int
    }
}

/// A comment between `/*` and the first `*/` after it.
pub open spec fn comment_c_at(s: Seq<char>, pos: int) -> Option<(Entry, int)> {
    let close = comment_close(s, pos + 2);
    if at(s, pos, '/') && at(s, pos + 1, '*') && close < s.len() {
        Some(
            (Entry::Comment { text: s.subrange(pos + 2, close), style: CommentStyle::C }, close + 2),
        )
    } else {
        None
    }
}

/// Why no block comment starts at `pos`, where none does: it was opened and
/// never closed, or not opened at all.
pub open spec fn comment_c_failure(s: Seq<char>, pos: int) -> ScanError {
    if at(s, pos, '/') && at(s, pos + 1, '*') {
        ScanError::UnterminatedComment
    } else {
        ScanError::NoMatch
    }
}

/// A comment from `//` to the end of the line, the newline left in place.
pub open spec fn comment_cpp_at(s: Seq<char>, pos: int) -> Option<(Entry, int)> {
    let end = run_end(s, pos + 2, Boundary::LineEnd);
    if at(s, pos, '/') && at(s, pos + 1, '/') {
        Some((Entry::Comment { text: s.subrange(pos + 2, end), style: CommentStyle::CPP }, end))
    } else {
        None
    }
}

/// A comment from `#` to the end of the line, the newline left in place.
pub open spec fn comment_shell_at(s: Seq<char>, pos: int) -> Option<(Entry, int)> {
    let end = run_end(s, pos + 1, Boundary::LineEnd);
    if at(s, pos, '#') {
        Some((Entry::Comment { text: s.subrange(pos + 1, end), style: CommentStyle::Shell }, end))
    } else {
        None
    }
}

/// A boolean parameter: a name that is not empty, and `;` directly after it.
///
/// Since the name is the longest run, a name followed by a space, `+`, `=` or
/// a newline is no boolean parameter.
pub open spec fn bool_param_at(s: Seq<char>, pos: int) -> Option<(Entry, int)> {
    let name_end = run_end(s, pos, Boundary::Name);
    if pos < name_end && at(s, name_end, ';') {
        Some((Entry::ParamBool { name: s.subrange(pos, name_end) }, name_end + 1))
    } else {
        None
    }
}

/// A parameter with a value: a name that is not empty, spaces, an optional
/// `+`, `=`, spaces, the value, and `;`.
///
/// After an opening `"` the value runs to the next `"`; without one it runs
/// to the next `"`, `;` or newline. A `"` that follows the value is passed
/// over. The value may be empty.
pub open spec fn value_param_at(s: Seq<char>, pos: int) -> Option<(Entry, int)> {
    let name_end = run_end(s, pos, Boundary::Name);
    let sign = run_end(s, name_end, Boundary::Blank);
    let append = at(s, sign, '+');
    let equals = if append { sign + 1 } else { sign };
    let opening = run_end(s, equals + 1, Boundary::Blank);
    let quoted = at(s, opening, '"');
    let value_start = if quoted { opening + 1 } else { opening };
    let value_end = run_end(s, value_start, if quoted { Boundary::Quote } else { Boundary::Bare });
    let semicolon = if at(s, value_end, '"') { value_end + 1 } else { value_end };
    if pos < name_end && at(s, equals, '=') && at(s, semicolon, ';') {
        Some(
            (
                Entry::ParamValue {
                    name: s.subrange(pos, name_end),
                    value: s.subrange(value_start, value_end),
                    append,
                },
                semicolon + 1,
            ),
        )
    } else {
        None
    }
}

/// Why no parameter with a value starts at `pos`, where none does: after a
/// name, a newline stands where `=` or `;` had to; or the text does not read
/// as such a parameter for another reason.
pub open spec fn value_param_failure(s: Seq<char>, pos: int) -> ScanError {
    let name_end = run_end(s, pos, Boundary::Name);
    let sign = run_end(s, name_end, Boundary::Blank);
    let equals = if at(s, sign, '+') { sign + 1 } else { sign };
    let opening = run_end(s, equals + 1, Boundary::Blank);
    let quoted = at(s, opening, '"');
    let value_start = if quoted { opening + 1 } else { opening };
    let value_end = run_end(s, value_start, if quoted { Boundary::Quote } else { Boundary::Bare });
    let semicolon = if at(s, value_end, '"') { value_end + 1 } else { value_end };
    let stuck = if at(s, equals, '=') { semicolon } else { equals };
    if pos < name_end && at(s, stuck, '\n') {
        ScanError::UnterminatedStatement
    } else {
        ScanError::NoMatch
    }
}

/// A statement that holds no other: the first of the three comments, the
/// boolean parameter and the parameter with a value that starts at `pos`.
pub open spec fn simple_at(s: Seq<char>, pos: int) -> Option<(Entry, int)> {
    if comment_c_at(s, pos) is Some {
        comment_c_at(s, pos)
    } else if comment_cpp_at(s, pos) is Some {
        comment_cpp_at(s, pos)
    } else if comment_shell_at(s, pos) is Some {
        comment_shell_at(s, pos)
    } else if bool_param_at(s, pos) is Some {
        bool_param_at(s, pos)
    } else {
        value_param_at(s, pos)
    }
}

/// A block: a name that is not empty, spaces, `{`, white space, statements
/// until none starts, and `}`.
///
/// The statements are read in place, as they stand in the whole text: a
/// statement inside the block may look at what follows the block.
pub open spec fn block_at(s: Seq<char>, pos: int) -> Option<(Entry, int)>
    decreases s.len() - pos, 0nat,
{
    let name_end = run_end(s, pos, Boundary::BlockName);
    let brace = run_end(s, name_end, Boundary::Blank);
    if 0 <= pos < name_end && at(s, brace, '{') {
        proof {
            lemma_run_end_bounds(s, pos, Boundary::BlockName);
            lemma_run_end_bounds(s, name_end, Boundary::Blank);
            lemma_run_end_bounds(s, brace + 1, Boundary::Space);
        }
        let (params, end) = entries_from(s, run_end(s, brace + 1, Boundary::Space));
        if at(s, end, '}') {
            Some((Entry::Block { name: s.subrange(pos, name_end), params }, end + 1))
        } else {
            None
        }
    } else {
        None
    }
}

/// Why no block starts at `pos`, where none does: its brace was opened and
/// not closed where its statements end, or no block was opened at all.
pub open spec fn block_failure(s: Seq<char>, pos: int) -> ScanError {
    let name_end = run_end(s, pos, Boundary::BlockName);
    let brace = run_end(s, name_end, Boundary::Blank);
    if 0 <= pos < name_end && at(s, brace, '{') {
        ScanError::UnmatchedBlockBrace
    } else {
        ScanError::NoMatch
    }
}

/// The statement that starts at `pos`: the first scanner that matches, in the
/// order block comment, `//` comment, `#` comment, boolean parameter,
/// parameter with a value, block.
///
/// A scanner that finds nothing, for whatever reason, only passes the turn to
/// the next one. Where none matches the document ends, and it is for the
/// caller to say whether it may end there.
pub open spec fn entry_at(s: Seq<char>, pos: int) -> Option<(Entry, int)>
    decreases s.len() - pos, 1nat,
{
    if simple_at(s, pos) is Some {
        simple_at(s, pos)
    } else {
        block_at(s, pos)
    }
}

/// The statements that follow one another from `pos` on, white space skipped
/// after each, and the position where no statement starts.
///
/// A statement is never empty (`lemma_entry_at_advances`): the condition on
/// `next` always holds, and is there for the recursion to end.
pub open spec fn entries_from(s: Seq<char>, pos: int) -> (Seq<Entry>, int)
    decreases s.len() - pos, 2nat,
{
    match entry_at(s, pos) {
        Some((entry, next)) => {
            if 0 <= pos < next <= s.len() {
                proof {
                    lemma_run_end_bounds(s, next, Boundary::Space);
                }
                let (rest, end) = entries_from(s, run_end(s, next, Boundary::Space));
                (seq![entry] + rest, end)
            } else {
                (Seq::empty(), pos)
            }
        },
        None => (Seq::empty(), pos),
    }
}

/// A document: white space, then statements until none starts.
pub open spec fn document_at(s: Seq<char>, pos: int) -> (Seq<Entry>, int) {
    entries_from(s, run_end(s, pos, Boundary::Space))
}

/// A run ends between its start and the end of the text; no character of the
/// run is at the boundary, and the character at its end is, if there is one.
pub proof fn lemma_run_end_bounds(s: Seq<char>, from: int, b: Boundary)
    requires
        0 <= from <= s.len(),
    ensures
        from <= run_end(s, from, b) <= s.len(),
        forall|i: int| from <= i < run_end(s, from, b) ==> !b.holds(#[trigger] s[i]),
        run_end(s, from, b) < s.len() ==> b.holds(s[run_end(s, from, b)]),
    decreases s.len() - from,
{
    if from < s.len() && !b.holds(s[from]) {
        lemma_run_end_bounds(s, from + 1, b);
    }
}

/// The first `*/` at or after `from` lies at or after `from`; where there is
/// one, both its characters are in the text; and no `*/` starts before it.
pub proof fn lemma_comment_close_bounds(s: Seq<char>, from: int)
    requires
        0 <= from <= s.len(),
    ensures
        from <= comment_close(s, from) <= s.len(),
        comment_close(s, from) < s.len() ==> comment_close(s, from) + 1 < s.len(),
        forall|i: int|
            from <= i < comment_close(s, from) && i + 1 < s.len() ==> !(s[i] == '*'
                && #[trigger] s[i + 1] == '/'),
    decreases s.len() - from,
{
    if from + 1 < s.len() && !(s[from] == '*' && s[from + 1] == '/') {
        lemma_comment_close_bounds(s, from + 1);
    }
}

/// A statement that holds no other is at least one character long and ends
/// inside the text.
pub proof fn lemma_simple_at_advances(s: Seq<char>, pos: int)
    requires
        0 <= pos <= s.len(),
        simple_at(s, pos) is Some,
    ensures
        pos < (simple_at(s, pos)->0).1 <= s.len(),
{
    if comment_c_at(s, pos) is Some {
        lemma_comment_close_bounds(s, pos + 2);
    } else if comment_cpp_at(s, pos) is Some {
        lemma_run_end_bounds(s, pos + 2, Boundary::LineEnd);
    } else if comment_shell_at(s, pos) is Some {
        lemma_run_end_bounds(s, pos + 1, Boundary::LineEnd);
    } else if bool_param_at(s, pos) is Some {
        lemma_run_end_bounds(s, pos, Boundary::Name);
    } else {
        let name_end = run_end(s, pos, Boundary::Name);
        let sign = run_end(s, name_end, Boundary::Blank);
        let equals = if at(s, sign, '+') { sign + 1 } else { sign };
        let opening = run_end(s, equals + 1, Boundary::Blank);
        let quoted = at(s, opening, '"');
        let value_start = if quoted { opening + 1 } else { opening };
        lemma_run_end_bounds(s, pos, Boundary::Name);
        lemma_run_end_bounds(s, name_end, Boundary::Blank);
        lemma_run_end_bounds(s, equals + 1, Boundary::Blank);
        lemma_run_end_bounds(s, value_start, if quoted { Boundary::Quote } else { Boundary::Bare });
    }
}

/// The statements from `pos` on end inside the text, at or after `pos`.
pub proof fn lemma_entries_from_bounds(s: Seq<char>, pos: int)
    requires
        0 <= pos <= s.len(),
    ensures
        pos <= entries_from(s, pos).1 <= s.len(),
    decreases s.len() - pos,
{
    match entry_at(s, pos) {
        Some((entry, next)) => {
            if pos < next <= s.len() {
                lemma_run_end_bounds(s, next, Boundary::Space);
                lemma_entries_from_bounds(s, run_end(s, next, Boundary::Space));
            }
        },
        None => {},
    }
}

/// A statement is at least one character long and ends inside the text.
pub proof fn lemma_entry_at_advances(s: Seq<char>, pos: int)
    requires
        0 <= pos <= s.len(),
        entry_at(s, pos) is Some,
    ensures
        pos < (entry_at(s, pos)->0).1 <= s.len(),
{
    if simple_at(s, pos) is Some {
        lemma_simple_at_advances(s, pos);
    } else {
        let name_end = run_end(s, pos, Boundary::BlockName);
        let brace = run_end(s, name_end, Boundary::Blank);
        lemma_run_end_bounds(s, pos, Boundary::BlockName);
        lemma_run_end_bounds(s, name_end, Boundary::Blank);
        lemma_run_end_bounds(s, brace + 1, Boundary::Space);
        lemma_entries_from_bounds(s, run_end(s, brace + 1, Boundary::Space));
    }
}

/// A run ends at `end` if no character between its start and `end` is at the
/// boundary and `end` is the end of the text or a character at the boundary.
pub proof fn lemma_run_end_is(s: Seq<char>, from: int, b: Boundary, end: int)
    requires
        0 <= from <= end <= s.len(),
        forall|i: int| from <= i < end ==> !b.holds(#[trigger] s[i]),
        end == s.len() || b.holds(s[end]),
    ensures
        run_end(s, from, b) == end,
    decreases end - from,
{
    if from < end {
        lemma_run_end_is(s, from + 1, b, end);
    }
}

/// The first `*/` at or after `from` is at `close` if one is there and none
/// starts between `from` and `close`.
pub proof fn lemma_comment_close_is(s: Seq<char>, from: int, close: int)
    requires
        0 <= from <= close,
        at(s, close, '*'),
        at(s, close + 1, '/'),
        forall|i: int| from <= i < close ==> !(s[i] == '*' && #[trigger] s[i + 1] == '/'),
    ensures
        comment_close(s, from) == close,
    decreases close - from,
{
    if from < close {
        lemma_comment_close_is(s, from + 1, close);
    }
}

/// No statement starts at the end of a text.
pub proof fn lemma_nothing_at_end(s: Seq<char>)
    ensures
        entry_at(s, s.len() as int) is None,
        entries_from(s, s.len() as int) == (Seq::<Entry>::empty(), s.len() as int),
{
}

/// Where a statement starts, the statements from there on are that
/// statement and, the white space after it skipped, those that follow it.
pub proof fn lemma_entries_from_step(s: Seq<char>, pos: int)
    requires
        0 <= pos <= s.len(),
        entry_at(s, pos) is Some,
    ensures
        ({
            let (entry, next) = entry_at(s, pos)->0;
            let (rest, end) = entries_from(s, run_end(s, next, Boundary::Space));
            entries_from(s, pos) == (seq![entry] + rest, end)
        }),
{
    lemma_entry_at_advances(s, pos);
}

/// The statements from `pos` on end inside the text, where no statement
/// starts, and not at white space if `pos` is not at white space.
pub proof fn lemma_document_end(s: Seq<char>, pos: int)
    requires
        0 <= pos <= s.len(),
        pos < s.len() ==> !is_white_space(s[pos]),
    ensures
        pos <= entries_from(s, pos).1 <= s.len(),
        entry_at(s, entries_from(s, pos).1) is None,
        entries_from(s, pos).1 < s.len() ==> !is_white_space(s[entries_from(s, pos).1]),
    decreases s.len() - pos,
{
    if entry_at(s, pos) is Some {
        lemma_entry_at_advances(s, pos);
        let next = (entry_at(s, pos)->0).1;
        lemma_run_end_bounds(s, next, Boundary::Space);
        lemma_document_end(s, run_end(s, next, Boundary::Space));
    }
}

} // verus!
