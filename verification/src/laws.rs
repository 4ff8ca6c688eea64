//! What holds of the grammar for every name and every value.

use vstd::prelude::*;
use crate::grammar::{
    at, block_at, block_failure, bool_param_at, comment_c_at, comment_cpp_at,
    comment_shell_at, document_at, entries_from, entry_at, is_blank, is_white_space,
    lemma_comment_close_is, lemma_document_end, lemma_entries_from_step, lemma_nothing_at_end,
    lemma_run_end_bounds, lemma_run_end_is, run_end, simple_at, valid_name, value_param_at,
    value_param_failure, Boundary,
};
use crate::model::{entries_of, CommentStyle, Entry, JailConf, ParseError, ScanError};
use crate::parse::{lead, parse_spec, parsed};

verus! {

/// Whether a comment of one of the three kinds starts at `pos`.
pub open spec fn opens_comment(s: Seq<char>, pos: int) -> bool {
    ||| comment_c_at(s, pos) is Some
    ||| comment_cpp_at(s, pos) is Some
    ||| comment_shell_at(s, pos) is Some
}

/// Whether the characters of `part` stand in `s` from `pos` on.
pub open spec fn stands_at(s: Seq<char>, pos: int, part: Seq<char>) -> bool {
    &&& 0 <= pos
    &&& pos + part.len() <= s.len()
    &&& s.subrange(pos, pos + part.len()) == part
}

/// The statement that gives `name` the quoted `value`: `name = "value";`, or
/// `name += "value";` where `append` is set.
pub open spec fn value_statement(name: Seq<char>, value: Seq<char>, append: bool) -> Seq<char> {
    name + (if append {
        seq![' ', '+', '=', ' ', '"']
    } else {
        seq![' ', '=', ' ', '"']
    }) + value + seq!['"', ';']
}

/// The statement that gives `name` the `value` without quotes:
/// `name = value;`, or `name += value;` where `append` is set.
pub open spec fn bare_statement(name: Seq<char>, value: Seq<char>, append: bool) -> Seq<char> {
    name + (if append {
        seq![' ', '+', '=', ' ']
    } else {
        seq![' ', '=', ' ']
    }) + value + seq![';']
}

/// The statement that sets the boolean parameter `name`: `name;`.
pub open spec fn bool_statement(name: Seq<char>) -> Seq<char> {
    name + seq![';']
}

/// Where a part stands in a text, the text holds each of the part's
/// characters.
proof fn lemma_stands_at(s: Seq<char>, pos: int, part: Seq<char>, i: int)
    requires
        stands_at(s, pos, part),
        0 <= i < part.len(),
    ensures
        s[pos + i] == part[i],
{
    assert(s.subrange(pos, pos + part.len())[i] == s[pos + i]);
}

/// A text stands at its own head.
proof fn lemma_stands_at_head(s: Seq<char>)
    ensures
        stands_at(s, 0, s),
{
    assert(s.subrange(0, s.len() as int) =~= s);
}

/// The text has, from `pos` on, the shape of a parameter with a value: `n`
/// characters of a name, a space, `+` if `append` is set, `=`, a space, and
/// then `v` characters of a value and `;`, the value between two `"` if
/// `quoted` is set.
spec fn value_shape(s: Seq<char>, pos: int, n: int, v: int, append: bool, quoted: bool) -> bool {
    let equals = pos + n + 1 + if append { 1int } else { 0 };
    let value_start = equals + 2 + if quoted { 1int } else { 0 };
    let value_end = value_start + v;
    let semicolon = value_end + if quoted { 1int } else { 0 };
    &&& 0 <= pos
    &&& 0 < n
    &&& 0 <= v
    &&& semicolon < s.len()
    &&& forall|j: int| pos <= j < pos + n ==> !Boundary::Name.holds(#[trigger] s[j])
    &&& s[pos + n] == ' '
    &&& append ==> s[pos + n + 1] == '+'
    &&& s[equals] == '='
    &&& s[equals + 1] == ' '
    &&& !is_blank(s[equals + 2])
    &&& quoted ==> s[equals + 2] == '"' && s[value_end] == '"'
    &&& forall|j: int|
        value_start <= j < value_end ==> !(if quoted {
            Boundary::Quote
        } else {
            Boundary::Bare
        }).holds(#[trigger] s[j])
    &&& s[semicolon] == ';'
}

/// The parameter that a text of the shape of a parameter with a value holds.
spec fn shaped(s: Seq<char>, pos: int, n: int, v: int, append: bool, quoted: bool) -> (Entry, int) {
    let equals = pos + n + 1 + if append { 1int } else { 0 };
    let value_start = equals + 2 + if quoted { 1int } else { 0 };
    let value_end = value_start + v;
    let semicolon = value_end + if quoted { 1int } else { 0 };
    (
        Entry::ParamValue {
            name: s.subrange(pos, pos + n),
            value: s.subrange(value_start, value_end),
            append,
        },
        semicolon + 1,
    )
}

/// Where the text has the shape of a parameter with a value, that parameter
/// is scanned, and no boolean parameter.
proof fn lemma_value_param_shape(
    s: Seq<char>,
    pos: int,
    n: int,
    v: int,
    append: bool,
    quoted: bool,
)
    requires
        value_shape(s, pos, n, v, append, quoted),
    ensures
        value_param_at(s, pos) == Some(shaped(s, pos, n, v, append, quoted)),
        bool_param_at(s, pos) is None,
{
    let equals = pos + n + 1 + if append { 1int } else { 0 };
    let opening = equals + 2;
    let value_start = opening + if quoted { 1int } else { 0 };
    let value_end = value_start + v;
    lemma_run_end_is(s, pos, Boundary::Name, pos + n);
    lemma_run_end_is(s, pos + n, Boundary::Blank, pos + n + 1);
    lemma_run_end_is(s, equals + 1, Boundary::Blank, opening);
    if !quoted && v > 0 {
        assert(!Boundary::Bare.holds(s[value_start]));
    }
    assert(at(s, opening, '"') == quoted);
    lemma_run_end_is(
        s,
        value_start,
        if quoted { Boundary::Quote } else { Boundary::Bare },
        value_end,
    );
}

/// The text holds the characters of `part` between `from` and `to`.
proof fn lemma_subrange_is(s: Seq<char>, from: int, to: int, part: Seq<char>)
    requires
        0 <= from <= to <= s.len(),
        to - from == part.len(),
        forall|j: int| from <= j < to ==> #[trigger] s[j] == part[j - from],
    ensures
        s.subrange(from, to) == part,
{
    assert(s.subrange(from, to) =~= part);
}

/// Where `name = "value";` or `name += "value";` stands, the text has the
/// shape of a parameter with a quoted value, of that name and that value.
proof fn lemma_value_statement_shape(
    s: Seq<char>,
    pos: int,
    name: Seq<char>,
    value: Seq<char>,
    append: bool,
)
    requires
        valid_name(name),
        !value.contains('"'),
        stands_at(s, pos, value_statement(name, value, append)),
    ensures
        value_shape(s, pos, name.len() as int, value.len() as int, append, true),
        shaped(s, pos, name.len() as int, value.len() as int, append, true) == (
            Entry::ParamValue { name, value, append },
            pos + value_statement(name, value, append).len(),
        ),
{
    let t = value_statement(name, value, append);
    let n = name.len() as int;
    let equals = n + 1 + if append { 1int } else { 0 };
    let value_start = equals + 3;
    let value_end = value_start + value.len();
    assert(t.len() == value_end + 2);
    assert forall|j: int| pos <= j < pos + n implies #[trigger] s[j] == name[j - pos] by {
        lemma_stands_at(s, pos, t, j - pos);
        assert(t[j - pos] == name[j - pos]);
    }
    assert forall|j: int| pos + value_start <= j < pos + value_end implies #[trigger] s[j]
        == value[j - (pos + value_start)] by {
        lemma_stands_at(s, pos, t, j - pos);
        assert(t[j - pos] == value[j - pos - value_start]);
    }
    assert forall|j: int| pos + value_start <= j < pos + value_end implies !Boundary::Quote.holds(
        #[trigger] s[j],
    ) by {
        assert(value.contains(value[j - (pos + value_start)]));
    }
    assert(s[pos + n] == ' ') by {
        lemma_stands_at(s, pos, t, n);
        assert(t[n] == ' ');
    }
    assert(append ==> s[pos + n + 1] == '+') by {
        lemma_stands_at(s, pos, t, n + 1);
        assert(append ==> t[n + 1] == '+');
    }
    assert(s[pos + equals] == '=') by {
        lemma_stands_at(s, pos, t, equals);
        assert(t[equals] == '=');
    }
    assert(s[pos + equals + 1] == ' ') by {
        lemma_stands_at(s, pos, t, equals + 1);
        assert(t[equals + 1] == ' ');
    }
    assert(s[pos + equals + 2] == '"') by {
        lemma_stands_at(s, pos, t, equals + 2);
        assert(t[equals + 2] == '"');
    }
    assert(s[pos + value_end] == '"') by {
        lemma_stands_at(s, pos, t, value_end);
        assert(t[value_end] == '"');
    }
    assert(s[pos + value_end + 1] == ';') by {
        lemma_stands_at(s, pos, t, value_end + 1);
        assert(t[value_end + 1] == ';');
    }
    lemma_subrange_is(s, pos, pos + n, name);
    lemma_subrange_is(s, pos + value_start, pos + value_end, value);
}

/// Where `name = value;` or `name += value;` stands, the text has the shape
/// of a parameter with a value without quotes, of that name and that value.
proof fn lemma_bare_statement_shape(
    s: Seq<char>,
    pos: int,
    name: Seq<char>,
    value: Seq<char>,
    append: bool,
)
    requires
        valid_name(name),
        forall|i: int| 0 <= i < value.len() ==> !Boundary::Bare.holds(#[trigger] value[i]),
        value.len() > 0 ==> !is_blank(value[0]),
        stands_at(s, pos, bare_statement(name, value, append)),
    ensures
        value_shape(s, pos, name.len() as int, value.len() as int, append, false),
        shaped(s, pos, name.len() as int, value.len() as int, append, false) == (
            Entry::ParamValue { name, value, append },
            pos + bare_statement(name, value, append).len(),
        ),
{
    let t = bare_statement(name, value, append);
    let n = name.len() as int;
    let equals = n + 1 + if append { 1int } else { 0 };
    let value_start = equals + 2;
    let value_end = value_start + value.len();
    assert(t.len() == value_end + 1);
    assert forall|j: int| pos <= j < pos + n implies #[trigger] s[j] == name[j - pos] by {
        lemma_stands_at(s, pos, t, j - pos);
        assert(t[j - pos] == name[j - pos]);
    }
    assert forall|j: int| pos + value_start <= j < pos + value_end implies #[trigger] s[j]
        == value[j - (pos + value_start)] by {
        lemma_stands_at(s, pos, t, j - pos);
        assert(t[j - pos] == value[j - pos - value_start]);
    }
    assert(s[pos + n] == ' ') by {
        lemma_stands_at(s, pos, t, n);
        assert(t[n] == ' ');
    }
    assert(append ==> s[pos + n + 1] == '+') by {
        lemma_stands_at(s, pos, t, n + 1);
        assert(append ==> t[n + 1] == '+');
    }
    assert(s[pos + equals] == '=') by {
        lemma_stands_at(s, pos, t, equals);
        assert(t[equals] == '=');
    }
    assert(s[pos + equals + 1] == ' ') by {
        lemma_stands_at(s, pos, t, equals + 1);
        assert(t[equals + 1] == ' ');
    }
    assert(s[pos + value_end] == ';') by {
        lemma_stands_at(s, pos, t, value_end);
        assert(t[value_end] == ';');
    }
    lemma_subrange_is(s, pos, pos + n, name);
    lemma_subrange_is(s, pos + value_start, pos + value_end, value);
}

/// For every name and every value without a `"`, wherever the statement
/// `name = "value";` stands in a text, it scans as the parameter `name` with
/// that very value and `append` unset, and `name += "value";` as the same
/// with `append` set; no boolean parameter starts there. The value may be
/// empty and may hold any other character, a `;` or a newline among them.
pub proof fn law_value_param_scans(
    s: Seq<char>,
    pos: int,
    name: Seq<char>,
    value: Seq<char>,
    append: bool,
)
    requires
        valid_name(name),
        !value.contains('"'),
        stands_at(s, pos, value_statement(name, value, append)),
    ensures
        value_param_at(s, pos) == Some(
            (
                Entry::ParamValue { name, value, append },
                pos + value_statement(name, value, append).len(),
            ),
        ),
        bool_param_at(s, pos) is None,
{
    lemma_value_statement_shape(s, pos, name, value, append);
    lemma_value_param_shape(s, pos, name.len() as int, value.len() as int, append, true);
}

/// For every name and every value without a `"`, `;` or newline that does
/// not begin with a space or a tab, wherever the statement `name = value;`
/// stands in a text, it scans as the parameter `name` with that very value,
/// and `name += value;` as the same with `append` set; no boolean parameter
/// starts there.
pub proof fn law_bare_value_scans(
    s: Seq<char>,
    pos: int,
    name: Seq<char>,
    value: Seq<char>,
    append: bool,
)
    requires
        valid_name(name),
        forall|i: int| 0 <= i < value.len() ==> !Boundary::Bare.holds(#[trigger] value[i]),
        value.len() > 0 ==> !is_blank(value[0]),
        stands_at(s, pos, bare_statement(name, value, append)),
    ensures
        value_param_at(s, pos) == Some(
            (
                Entry::ParamValue { name, value, append },
                pos + bare_statement(name, value, append).len(),
            ),
        ),
        bool_param_at(s, pos) is None,
{
    lemma_bare_statement_shape(s, pos, name, value, append);
    lemma_value_param_shape(s, pos, name.len() as int, value.len() as int, append, false);
}

/// For every name, wherever the statement `name;` stands in a text, it scans
/// as the boolean parameter `name`, and no parameter with a value starts
/// there.
pub proof fn law_bool_param_scans(s: Seq<char>, pos: int, name: Seq<char>)
    requires
        valid_name(name),
        stands_at(s, pos, bool_statement(name)),
    ensures
        bool_param_at(s, pos) == Some((Entry::ParamBool { name }, pos + name.len() + 1)),
        value_param_at(s, pos) is None,
{
    let t = bool_statement(name);
    let n = name.len() as int;
    assert forall|j: int| pos <= j < pos + n implies #[trigger] s[j] == name[j - pos] by {
        lemma_stands_at(s, pos, t, j - pos);
        assert(t[j - pos] == name[j - pos]);
    }
    assert(s[pos + n] == ';') by {
        lemma_stands_at(s, pos, t, n);
        assert(t[n] == ';');
    }
    lemma_run_end_is(s, pos, Boundary::Name, pos + n);
    lemma_run_end_is(s, pos + n, Boundary::Blank, pos + n);
    lemma_subrange_is(s, pos, pos + n, name);
}

/// Wherever one of the statements `name = "value";`, `name += "value";` and
/// `name;` stands in a text and no comment starts, the document holds that
/// parameter there and goes on behind it, white space skipped.
pub proof fn law_param_in_document(
    s: Seq<char>,
    pos: int,
    name: Seq<char>,
    value: Option<(Seq<char>, bool)>,
)
    requires
        valid_name(name),
        !opens_comment(s, pos),
        match value {
            Some((value, append)) => !value.contains('"') && stands_at(
                s,
                pos,
                value_statement(name, value, append),
            ),
            None => stands_at(s, pos, bool_statement(name)),
        },
    ensures
        ({
            let (entry, len) = match value {
                Some((value, append)) => (
                    Entry::ParamValue { name, value, append },
                    value_statement(name, value, append).len(),
                ),
                None => (Entry::ParamBool { name }, bool_statement(name).len()),
            };
            let (rest, end) = entries_from(s, run_end(s, pos + len, Boundary::Space));
            &&& entry_at(s, pos) == Some((entry, pos + len))
            &&& entries_from(s, pos) == (seq![entry] + rest, end)
        }),
{
    match value {
        Some((value, append)) => {
            law_value_param_scans(s, pos, name, value, append);
        },
        None => {
            law_bool_param_scans(s, pos, name);
        },
    }
    lemma_entries_from_step(s, pos);
}

/// For every name and every value without a `"`, the text `name = "value";`
/// parses to the one parameter `name` with that very value and `append`
/// unset, and `name += "value";` to the same with `append` set: provided
/// that the name does not begin with white space and that no comment starts
/// at the head of the text.
pub proof fn law_value_param_parses(name: Seq<char>, value: Seq<char>, append: bool)
    requires
        valid_name(name),
        !value.contains('"'),
        !is_white_space(name[0]),
        !opens_comment(value_statement(name, value, append), 0),
    ensures
        parse_spec(value_statement(name, value, append)) == Some(
            seq![Entry::ParamValue { name, value, append }],
        ),
{
    let s = value_statement(name, value, append);
    lemma_stands_at_head(s);
    law_param_in_document(s, 0, name, Some((value, append)));
    assert(s[0] == name[0]);
    lemma_run_end_is(s, 0, Boundary::Space, 0);
    lemma_run_end_is(s, s.len() as int, Boundary::Space, s.len() as int);
    lemma_nothing_at_end(s);
    assert(seq![Entry::ParamValue { name, value, append }] + Seq::<Entry>::empty()
        =~= seq![Entry::ParamValue { name, value, append }]);
}

/// For every name, `name = "";` parses to the parameter `name` with the empty
/// value and `append` unset, under the provisos of `law_value_param_parses`.
pub proof fn law_empty_value_parses(name: Seq<char>)
    requires
        valid_name(name),
        !is_white_space(name[0]),
        !opens_comment(value_statement(name, Seq::empty(), false), 0),
    ensures
        parse_spec(value_statement(name, Seq::empty(), false)) == Some(
            seq![Entry::ParamValue { name, value: Seq::empty(), append: false }],
        ),
{
    law_value_param_parses(name, Seq::empty(), false);
}

/// For every name, the text `name;` parses to the one boolean parameter
/// `name`: provided that the name does not begin with white space and that
/// no comment starts at the head of the text.
pub proof fn law_bool_param_parses(name: Seq<char>)
    requires
        valid_name(name),
        !is_white_space(name[0]),
        !opens_comment(bool_statement(name), 0),
    ensures
        parse_spec(bool_statement(name)) == Some(seq![Entry::ParamBool { name }]),
{
    let s = bool_statement(name);
    lemma_stands_at_head(s);
    law_param_in_document(s, 0, name, None);
    assert(s[0] == name[0]);
    lemma_run_end_is(s, 0, Boundary::Space, 0);
    lemma_run_end_is(s, s.len() as int, Boundary::Space, s.len() as int);
    lemma_nothing_at_end(s);
    assert(seq![Entry::ParamBool { name }] + Seq::<Entry>::empty() =~= seq![
        Entry::ParamBool { name },
    ]);
}

/// Boolean parameters and parameters with a value never start at the same
/// place: a name that `;` follows directly is no parameter with a value, and
/// a name that a space, `+`, `=` or a newline follows is no boolean
/// parameter.
pub proof fn law_bool_and_value_exclusive(s: Seq<char>, pos: int)
    ensures
        !(bool_param_at(s, pos) is Some && value_param_at(s, pos) is Some),
        !at(s, run_end(s, pos, Boundary::Name), ';') ==> bool_param_at(s, pos) is None,
{
    let name_end = run_end(s, pos, Boundary::Name);
    if at(s, name_end, ';') {
        lemma_run_end_is(s, name_end, Boundary::Blank, name_end);
    }
}

/// A name with a newline directly after it starts neither a boolean
/// parameter nor a parameter with a value, whatever follows the newline; as
/// a parameter with a value it is an unterminated statement.
pub proof fn law_newline_after_name(s: Seq<char>, pos: int)
    requires
        at(s, run_end(s, pos, Boundary::Name), '\n'),
    ensures
        bool_param_at(s, pos) is None,
        value_param_at(s, pos) is None,
        pos < run_end(s, pos, Boundary::Name) ==> value_param_failure(s, pos)
            == ScanError::UnterminatedStatement,
{
    let name_end = run_end(s, pos, Boundary::Name);
    lemma_run_end_is(s, name_end, Boundary::Blank, name_end);
}

/// A block comment carries the exact text between `/*` and the first `*/`,
/// white space and newlines included, and the statements after it are those
/// that start once the white space behind `*/` is skipped.
pub proof fn law_block_comment(s: Seq<char>, pos: int, close: int)
    requires
        0 <= pos,
        pos + 2 <= close,
        at(s, pos, '/'),
        at(s, pos + 1, '*'),
        at(s, close, '*'),
        at(s, close + 1, '/'),
        forall|i: int| pos + 2 <= i < close ==> !(s[i] == '*' && #[trigger] s[i + 1] == '/'),
    ensures
        ({
            let comment = Entry::Comment {
                text: s.subrange(pos + 2, close),
                style: CommentStyle::C,
            };
            let (rest, end) = entries_from(s, run_end(s, close + 2, Boundary::Space));
            &&& entry_at(s, pos) == Some((comment, close + 2))
            &&& entries_from(s, pos) == (seq![comment] + rest, end)
        }),
{
    lemma_comment_close_is(s, pos + 2, close);
    lemma_entries_from_step(s, pos);
}

/// A `//` comment carries the text from behind `//` up to the next newline,
/// or to the end of the text where no newline follows, and ends there: the
/// newline is no part of it.
pub proof fn law_slash_comment(s: Seq<char>, pos: int, end: int)
    requires
        0 <= pos,
        pos + 2 <= end <= s.len(),
        at(s, pos, '/'),
        at(s, pos + 1, '/'),
        forall|i: int| pos + 2 <= i < end ==> #[trigger] s[i] != '\n',
        end == s.len() || s[end] == '\n',
    ensures
        entry_at(s, pos) == Some(
            (Entry::Comment { text: s.subrange(pos + 2, end), style: CommentStyle::CPP }, end),
        ),
{
    lemma_run_end_is(s, pos + 2, Boundary::LineEnd, end);
}

/// A `#` comment carries the text from behind `#` up to the next newline, or
/// to the end of the text where no newline follows, and ends there: the
/// newline is no part of it.
pub proof fn law_hash_comment(s: Seq<char>, pos: int, end: int)
    requires
        0 <= pos,
        pos + 1 <= end <= s.len(),
        at(s, pos, '#'),
        forall|i: int| pos + 1 <= i < end ==> #[trigger] s[i] != '\n',
        end == s.len() || s[end] == '\n',
    ensures
        entry_at(s, pos) == Some(
            (Entry::Comment { text: s.subrange(pos + 1, end), style: CommentStyle::Shell }, end),
        ),
{
    lemma_run_end_is(s, pos + 1, Boundary::LineEnd, end);
}

/// A block ends with `}`: in a text without `}` no block starts anywhere.
pub proof fn law_block_needs_closing_brace(s: Seq<char>, pos: int)
    ensures
        block_at(s, pos) is Some ==> at(s, (block_at(s, pos)->0).1 - 1, '}'),
        !s.contains('}') ==> block_at(s, pos) is None,
{
    if block_at(s, pos) is Some {
        let close = (block_at(s, pos)->0).1 - 1;
        assert(at(s, close, '}'));
        assert(s.contains(s[close]));
    }
}

/// Whether the text opens a block at `pos`: a block's name, spaces, and `{`.
pub open spec fn opens_block(s: Seq<char>, pos: int) -> bool {
    let name_end = run_end(s, pos, Boundary::BlockName);
    0 <= pos < name_end && at(s, run_end(s, name_end, Boundary::Blank), '{')
}

/// A text that opens a block as its first statement and holds no `}` does
/// not parse, for want of the closing brace: provided that what opens the
/// block is not a statement of another kind.
pub proof fn law_unclosed_block(s: Seq<char>)
    requires
        opens_block(s, lead(s)),
        !s.contains('}'),
        simple_at(s, lead(s)) is None,
    ensures
        parse_spec(s) is None,
        block_at(s, lead(s)) is None,
        block_failure(s, lead(s)) == ScanError::UnmatchedBlockBrace,
{
    let p = lead(s);
    law_block_needs_closing_brace(s, p);
    lemma_run_end_bounds(s, 0, Boundary::Space);
    lemma_run_end_bounds(s, p, Boundary::BlockName);
    assert(entry_at(s, p) is None);
    assert(entries_from(s, p) == (Seq::<Entry>::empty(), p));
    assert(p < s.len());
}

/// The text that opens a block and never closes it: `name {`, then `rest`.
pub open spec fn open_block(name: Seq<char>, rest: Seq<char>) -> Seq<char> {
    name + seq![' ', '{'] + rest
}

/// For every name without a space, `+`, `=`, `;`, `{`, `}` or a newline
/// that begins neither with white space nor with `/` or `#`, and every `rest`
/// without `}`, the text `name {rest` is refused: it opens a block and is
/// no statement of another kind.
pub proof fn law_unclosed_named_block(name: Seq<char>, rest: Seq<char>)
    requires
        valid_name(name),
        !name.contains('{'),
        !name.contains('}'),
        !rest.contains('}'),
        !is_white_space(name[0]),
        name[0] != '/',
        name[0] != '#',
    ensures
        parse_spec(open_block(name, rest)) is None,
        block_failure(open_block(name, rest), 0) == ScanError::UnmatchedBlockBrace,
{
    let s = open_block(name, rest);
    let n = name.len() as int;
    assert forall|i: int| 0 <= i < n implies s[i] == name[i] by {}
    assert(s[n] == ' ');
    assert(s[n + 1] == '{');
    assert forall|i: int| n + 2 <= i < s.len() implies s[i] == rest[i - n - 2] by {}
    assert(!s.contains('}')) by {
        if s.contains('}') {
            let i = choose|i: int| 0 <= i < s.len() && s[i] == '}';
            if i < n {
                assert(name.contains(name[i]));
            } else {
                assert(rest.contains(rest[i - n - 2]));
            }
        }
    }
    lemma_run_end_is(s, 0, Boundary::Space, 0);
    lemma_run_end_is(s, 0, Boundary::Name, n);
    lemma_run_end_is(s, n, Boundary::Blank, n + 1);
    assert forall|i: int| 0 <= i < n implies !Boundary::BlockName.holds(#[trigger] s[i]) by {
        assert(name.contains(name[i]));
    }
    lemma_run_end_is(s, 0, Boundary::BlockName, n);
    assert(s[0] == name[0]);
    assert(simple_at(s, 0) is None);
    law_unclosed_block(s);
}

/// A text parses exactly when its document takes up all of it. Where it
/// does not, the document ends before a character that is no white space and
/// at which no statement starts.
pub proof fn law_trailing_text(s: Seq<char>)
    ensures
        parse_spec(s) is Some <==> document_at(s, 0).1 == s.len(),
        parse_spec(s) is None ==> {
            let end = document_at(s, 0).1;
            &&& 0 <= end < s.len()
            &&& !is_white_space(s[end])
            &&& entry_at(s, end) is None
        },
{
    lemma_run_end_bounds(s, 0, Boundary::Space);
    lemma_document_end(s, run_end(s, 0, Boundary::Space));
}

/// Parsing is a function of the text: two parses of one text either both
/// fail or return trees with the same model.
pub proof fn law_parse_twice(
    s: Seq<char>,
    first: Result<Vec<JailConf>, ParseError>,
    second: Result<Vec<JailConf>, ParseError>,
)
    requires
        parsed(s, first),
        parsed(s, second),
    ensures
        first is Ok <==> second is Ok,
        first is Ok ==> entries_of(first->Ok_0@) == entries_of(second->Ok_0@),
{
}

} // verus!
