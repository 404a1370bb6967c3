//! The error type of the tree-walking front end.
use vstd::prelude::*;

verus! {

/// What can go wrong while tokenizing, parsing or walking a tree.
#[derive(Debug)]
pub enum LoxError {
    /// A token other than the expected one.
    InvalidToken { error: &'static str },
    /// A malformed statement, with a description.
    InvalidStatement { error: String },
    /// Input ended where a token was expected.
    UnexpectedEof,
    /// An expression the walker cannot evaluate.
    InterpreterExpression,
    /// A statement the walker cannot execute.
    InterpreterStatement,
    /// A string handle past the end of the indexer's table.
    StringIndexOutOfBouds,
}

} // verus!
