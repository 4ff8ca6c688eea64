//! The scanners of the statements that hold no other statement.

use vstd::prelude::*;
use crate::grammar::{
    at, bool_param_at, comment_c_at, comment_c_failure, comment_close, comment_cpp_at,
    comment_shell_at, run_end, value_param_at, value_param_failure, Boundary,
};
use crate::model::{
    CommentStyle, Entry, JailComment, JailParamBool, JailParamValue, ScanError,
};
use crate::text::string_of;

verus! {

/// The statement and the position that a scanner returned, as the grammar
/// writes them.
pub open spec fn scanned<T: View<V = Entry>>(r: Result<(T, usize), ScanError>) -> Option<
    (Entry, int),
> {
    match r {
        Ok((t, next)) => Some((t@, next as int)),
        Err(_) => None,
    }
}

impl Boundary {
    /// Whether a run that ends at this boundary ends at the character `c`.
    pub fn test(self, c: char) -> (b: bool)
        ensures
            b == self.holds(c),
    {
        match self {
            Boundary::Name => c == ' ' || c == '+' || c == '=' || c == ';' || c == '\n',
            Boundary::BlockName => c == ' ' || c == '{' || c == ';' || c == '\n',
            Boundary::Bare => c == '"' || c == ';' || c == '\n',
            Boundary::Quote => c == '"',
            Boundary::LineEnd => c == '\n',
            Boundary::Blank => !(c == ' ' || c == '\t'),
            Boundary::Space => !(c == ' ' || c == '\t' || c == '\r' || c == '\n'),
        }
    }
}

/// Whether the character at position `i` is `c`.
pub fn is_at(chars: &Vec<char>, i: usize, c: char) -> (b: bool)
    ensures
        b == at(chars@, i as int, c),
        b ==> i < chars.len(),
{
    i < chars.len() && chars[i] == c
}

/// The end of the longest run from `from` that stays clear of the boundary.
pub fn scan_run(chars: &Vec<char>, from: usize, b: Boundary) -> (end: usize)
    ensures
        end == run_end(chars@, from as int, b),
        from <= end,
        from <= chars.len() ==> end <= chars.len(),
{
    let mut i: usize = from;
    while i < chars.len() && !b.test(chars[i])
        invariant
            from <= i,
            from <= chars@.len() ==> i <= chars@.len(),
            run_end(chars@, from as int, b) == run_end(chars@, i as int, b),
        decreases chars@.len() - i,
    {
        i += 1;
    }
    i
}

/// The position of the first `*/` at or after `from`, or the length of the
/// text where there is none.
pub fn scan_comment_close(chars: &Vec<char>, from: usize) -> (close: usize)
    ensures
        close == comment_close(chars@, from as int),
        from <= chars.len() ==> from <= close,
        close <= chars.len(),
        close < chars.len() ==> close + 1 < chars.len(),
{
    let n: usize = chars.len();
    let mut i: usize = from;
    while i < n && n - i >= 2
        invariant
            n == chars@.len(),
            from <= i,
            comment_close(chars@, from as int) == comment_close(chars@, i as int),
        decreases n - i,
    {
        if chars[i] == '*' && chars[i + 1] == '/' {
            return i;
        }
        i += 1;
    }
    n
}

/// A comment between `/*` and the first `*/` after it.
pub fn scan_comment_c(chars: &Vec<char>, pos: usize) -> (r: Result<
    (JailComment, usize),
    ScanError,
>)
    ensures
        scanned(r) == comment_c_at(chars@, pos as int),
        r is Err ==> r->Err_0 == comment_c_failure(chars@, pos as int),
        r is Ok ==> pos < (r->Ok_0).1 <= chars.len(),
{
    if !(is_at(chars, pos, '/') && is_at(chars, pos + 1, '*')) {
        return Err(ScanError::NoMatch);
    }
    let close: usize = scan_comment_close(chars, pos + 2);
    if close >= chars.len() {
        return Err(ScanError::UnterminatedComment);
    }
    let comment = string_of(chars, pos + 2, close);
    Ok((JailComment { comment, style: CommentStyle::C }, close + 2))
}

/// A comment from `//` to the end of the line, the newline left in place.
pub fn scan_comment_cpp(chars: &Vec<char>, pos: usize) -> (r: Result<
    (JailComment, usize),
    ScanError,
>)
    ensures
        scanned(r) == comment_cpp_at(chars@, pos as int),
        r is Err ==> r->Err_0 == ScanError::NoMatch,
        r is Ok ==> pos < (r->Ok_0).1 <= chars.len(),
{
    if !(is_at(chars, pos, '/') && is_at(chars, pos + 1, '/')) {
        return Err(ScanError::NoMatch);
    }
    let end: usize = scan_run(chars, pos + 2, Boundary::LineEnd);
    let comment = string_of(chars, pos + 2, end);
    Ok((JailComment { comment, style: CommentStyle::CPP }, end))
}

/// A comment from `#` to the end of the line, the newline left in place.
pub fn scan_comment_shell(chars: &Vec<char>, pos: usize) -> (r: Result<
    (JailComment, usize),
    ScanError,
>)
    ensures
        scanned(r) == comment_shell_at(chars@, pos as int),
        r is Err ==> r->Err_0 == ScanError::NoMatch,
        r is Ok ==> pos < (r->Ok_0).1 <= chars.len(),
{
    if !is_at(chars, pos, '#') {
        return Err(ScanError::NoMatch);
    }
    let end: usize = scan_run(chars, pos + 1, Boundary::LineEnd);
    let comment = string_of(chars, pos + 1, end);
    Ok((JailComment { comment, style: CommentStyle::Shell }, end))
}

/// A boolean parameter: a name that is not empty, and `;` directly after it.
pub fn scan_bool_param(chars: &Vec<char>, pos: usize) -> (r: Result<
    (JailParamBool, usize),
    ScanError,
>)
    ensures
        scanned(r) == bool_param_at(chars@, pos as int),
        r is Err ==> r->Err_0 == ScanError::NotABooleanParam,
        r is Ok ==> pos < (r->Ok_0).1 <= chars.len(),
{
    let name_end: usize = scan_run(chars, pos, Boundary::Name);
    if !(pos < name_end && is_at(chars, name_end, ';')) {
        return Err(ScanError::NotABooleanParam);
    }
    let name = string_of(chars, pos, name_end);
    Ok((JailParamBool { name }, name_end + 1))
}

/// Why a statement that has a name cannot go on at position `i`: a newline
/// stands there, or something else that does not belong.
fn stuck_at(chars: &Vec<char>, i: usize) -> (e: ScanError)
    ensures
        e == if at(chars@, i as int, '\n') {
            ScanError::UnterminatedStatement
        } else {
            ScanError::NoMatch
        },
{
    if is_at(chars, i, '\n') {
        ScanError::UnterminatedStatement
    } else {
        ScanError::NoMatch
    }
}

/// A parameter with a value: a name that is not empty, spaces, an optional
/// `+`, `=`, spaces, the value with or without quotes, and `;`.
pub fn scan_value_param(chars: &Vec<char>, pos: usize) -> (r: Result<
    (JailParamValue, usize),
    ScanError,
>)
    ensures
        scanned(r) == value_param_at(chars@, pos as int),
        r is Err ==> r->Err_0 == value_param_failure(chars@, pos as int),
        r is Ok ==> pos < (r->Ok_0).1 <= chars.len(),
{
    let name_end: usize = scan_run(chars, pos, Boundary::Name);
    let sign: usize = scan_run(chars, name_end, Boundary::Blank);
    let append = is_at(chars, sign, '+');
    let equals: usize = if append { sign + 1 } else { sign };
    if pos >= name_end {
        return Err(ScanError::NoMatch);
    }
    if !is_at(chars, equals, '=') {
        return Err(stuck_at(chars, equals));
    }
    let opening: usize = scan_run(chars, equals + 1, Boundary::Blank);
    let quoted = is_at(chars, opening, '"');
    let value_start: usize = if quoted { opening + 1 } else { opening };
    let value_end: usize = scan_run(
        chars,
        value_start,
        if quoted { Boundary::Quote } else { Boundary::Bare },
    );
    let semicolon: usize = if is_at(chars, value_end, '"') { value_end + 1 } else { value_end };
    if !is_at(chars, semicolon, ';') {
        return Err(stuck_at(chars, semicolon));
    }
    let name = string_of(chars, pos, name_end);
    let value = string_of(chars, value_start, value_end);
    Ok((JailParamValue { name, value, append }, semicolon + 1))
}

} // verus!
