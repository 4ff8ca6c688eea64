//! The document tree and its mathematical model.

use vstd::prelude::*;

verus! {

/// The three comment syntaxes of `jail.conf`.
#[derive(Debug, PartialEq, Eq, Clone, Copy, Structural)]
pub enum CommentStyle {
    /// `/* ... */`
    C,
    /// `// ...` up to the end of the line
    CPP,
    /// `# ...` up to the end of the line
    Shell,
}

/// A comment: the text between its delimiters, and the syntax it was written in.
#[derive(Debug, PartialEq)]
pub struct JailComment {
    pub comment: String,
    pub style: CommentStyle,
}

/// A parameter that is set by being named: `persist;`.
#[derive(Debug, PartialEq)]
pub struct JailParamBool {
    pub name: String,
}

/// A parameter with a value: `path = "/usr/jails/www";`, or `ip4.addr += "10.0.0.2";`.
#[derive(Debug, PartialEq)]
pub struct JailParamValue {
    pub name: String,
    pub value: String,
    pub append: bool,
}

/// A named group of statements between braces.
#[derive(Debug, PartialEq)]
pub struct JailBlock {
    pub name: String,
    pub params: Vec<JailConf>,
}

/// One statement of a document.
#[derive(Debug, PartialEq)]
pub enum JailConf {
    Block(JailBlock),
    Comment(JailComment),
    ParamBool(JailParamBool),
    ParamValue(JailParamValue),
}

/// Why a scanner found no statement of its kind at a position.
#[derive(Debug, PartialEq, Eq, Clone, Copy, Structural)]
pub enum ScanError {
    /// The text at the position does not begin as a statement of this kind.
    NoMatch,
    /// A `/*` without a `*/` after it.
    UnterminatedComment,
    /// No name with `;` directly after it.
    NotABooleanParam,
    /// A newline where `=` or `;` had to stand.
    UnterminatedStatement,
    /// A `{` whose statements are not followed by `}`.
    UnmatchedBlockBrace,
}

/// The failure of a parse. It carries no detail.
#[derive(Debug, PartialEq, Eq, Clone, Copy, Structural)]
pub struct ParseError;

impl ParseError {
    /// What went wrong, in words. It is the same for every failure.
    pub fn description(&self) -> (text: &'static str)
        ensures
            text@ == "could not parse jail configuration"@,
    {
        "could not parse jail configuration"
    }
}

/// What a statement is, as a mathematical value: the characters of its parts,
/// and for a block the statements inside it, in source order.
pub ghost enum Entry {
    Comment { text: Seq<char>, style: CommentStyle },
    ParamBool { name: Seq<char> },
    ParamValue { name: Seq<char>, value: Seq<char>, append: bool },
    Block { name: Seq<char>, params: Seq<Entry> },
}

/// The model of a statement.
pub open spec fn entry_of(e: &JailConf) -> Entry
    decreases e,
{
    match e {
        JailConf::Block(b) => Entry::Block {
            name: b.name@,
            params: Seq::new(
                b.params@.len(),
                |i: int|
                    if 0 <= i < b.params.len() {
                        entry_of(&b.params[i])
                    } else {
                        arbitrary()
                    },
            ),
        },
        JailConf::Comment(c) => c@,
        JailConf::ParamBool(p) => p@,
        JailConf::ParamValue(p) => p@,
    }
}

/// The models of a list of statements, in order.
pub open spec fn entries_of(v: Seq<JailConf>) -> Seq<Entry> {
    Seq::new(v.len(), |i: int| entry_of(&v[i]))
}

/// A block as a statement has the model of the block.
pub proof fn lemma_block_entry(e: &JailConf)
    requires
        e is Block,
    ensures
        e@ == e->Block_0@,
{
    let b = e->Block_0;
    assert(entry_of(e)->Block_params =~= entries_of(b.params@));
}

/// Appending a statement to a list appends its model to the list's models.
pub proof fn lemma_entries_push(v: Seq<JailConf>, e: JailConf)
    ensures
        entries_of(v.push(e)) == entries_of(v).push(e@),
{
    assert(entries_of(v.push(e)) =~= entries_of(v).push(e@));
}

impl View for JailComment {
    type V = Entry;

    open spec fn view(&self) -> Entry {
        Entry::Comment { text: self.comment@, style: self.style }
    }
}

impl View for JailParamBool {
    type V = Entry;

    open spec fn view(&self) -> Entry {
        Entry::ParamBool { name: self.name@ }
    }
}

impl View for JailParamValue {
    type V = Entry;

    open spec fn view(&self) -> Entry {
        Entry::ParamValue { name: self.name@, value: self.value@, append: self.append }
    }
}

impl View for JailBlock {
    type V = Entry;

    open spec fn view(&self) -> Entry {
        Entry::Block { name: self.name@, params: entries_of(self.params@) }
    }
}

impl View for JailConf {
    type V = Entry;

    open spec fn view(&self) -> Entry {
        entry_of(self)
    }
}

} // verus!
