//! The lexical units the scanner produces and the compiler consumes.
use super::string_indexer::StringId;
use vstd::prelude::*;

verus! {

/// The kind of one lexical unit: punctuation and operators (two-character
/// lookahead already resolved), literals, the reserved keywords, and the
/// terminal markers.
#[derive(Debug, Eq, PartialEq, Structural, Clone, Copy, Hash)]
pub enum TokenType {
    // Single character tokens
    LeftParen,
    RightParen,
    LeftBrace,
    RightBrace,
    Comma,
    Dot,
    Minus,
    Plus,
    SemiColon,
    Slash,
    Star,
    // One or two character tokens
    Bang,
    BangEqual,
    Equal,
    EqualEqual,
    Greater,
    GreaterEqual,
    Less,
    LessEqual,
    // Literals
    Identifier,
    String,
    Number,
    // Keywords
    And,
    Class,
    Else,
    False,
    For,
    Fun,
    If,
    Nil,
    Or,
    Print,
    Return,
    Super,
    This,
    True,
    Var,
    While,
    Error,
    Eof,
}

/// One token: its kind, the handle of its lexeme span in the string
/// indexer, and the line it began on. Immutable once created.
#[derive(Debug, Copy, Clone)]
pub struct Token {
    pub token_type: TokenType,
    pub id: StringId,
    pub line: usize,
}

impl Token {
    pub fn new(token_type: TokenType, id: StringId, line: usize) -> (r: Self)
        ensures
            r == (Token { token_type, id, line }),
    {
        Self { token_type, id, line }
    }
}

} // verus!
