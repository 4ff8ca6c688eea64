//! A parser for FreeBSD `jail.conf` text.
//!
//! The text is read into an ordered tree of comments, boolean parameters,
//! value parameters and named blocks. The grammar is stated once, as
//! specification functions over sequences of characters, and every scanner
//! is proved to compute exactly what the grammar says.
//!
//! - `model`: the tree, and the mathematical value that each node stands for;
//! - `grammar`: what a comment, a parameter, a block and a document are;
//! - `text`: from a string to its characters and back;
//! - `scan`: the scanners of comments and parameters;
//! - `document`: the scanners of blocks and documents, which call each other;
//! - `parse`: the entry points;
//! - `laws`: what the grammar yields for every name and value;
//! - `wellformed`: what holds of every statement that a parse returns.

pub mod document;
pub mod grammar;
pub mod laws;
pub mod model;
pub mod parse;
pub mod scan;
pub mod text;
pub mod wellformed;

pub use model::{
    CommentStyle, JailBlock, JailComment, JailConf, JailParamBool, JailParamValue, ParseError,
    ScanError,
};
pub use parse::parse;
