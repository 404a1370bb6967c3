//! The tokens of the tree-walking front end, and the store the parser
//! reads them from.
use crate::loxerror::LoxError;
use crate::string_indexer::StringId;
use vstd::prelude::*;

verus! {

/// One lexical unit. Literals carry a handle into the string indexer;
/// numbers carry the bits of their parsed value.
#[derive(Debug, PartialEq, Eq, Structural, Clone, Copy)]
pub enum Token {
    LeftParen,
    RightParen,
    LeftBrace,
    RightBrace,
    Comma,
    Dot,
    Minus,
    Plus,
    Semicolon,
    Slash,
    Star,
    Bang,
    BangEqual,
    Equal,
    EqualEqual,
    Greater,
    GreaterEqual,
    Less,
    LessEqual,
    Identifier(StringId),
    String(StringId),
    Number(u64),
    And,
    Class,
    Else,
    False,
    Fun,
    For,
    If,
    Nil,
    Or,
    Print,
    Return,
    Super,
    This,
    True,
    Var,
    While,
    Eof,
}

/// The token stream with a read cursor: the parser takes tokens one at a
/// time and can look at the next without taking it.
pub struct TokenStore {
    inner: Vec<Token>,
    index: usize,
}

impl TokenStore {
    /// All tokens, in source order.
    pub closed spec fn tokens(&self) -> Seq<Token> {
        self.inner@
    }

    /// How many tokens were already taken.
    pub closed spec fn index_spec(&self) -> usize {
        self.index
    }

    /// The cursor never runs past the end.
    pub open spec fn wf(&self) -> bool {
        self.index_spec() <= self.tokens().len()
    }

    pub fn new(inner: Vec<Token>) -> (r: Self)
        ensures
            r.tokens() == inner@,
            r.index_spec() == 0,
            r.wf(),
    {
        Self { inner, index: 0 }
    }

    /// Takes and discards the next token.
    pub fn consume(&mut self)
        requires
            old(self).wf(),
        ensures
            final(self).wf(),
            final(self).tokens() == old(self).tokens(),
            old(self).index_spec() < old(self).tokens().len() ==> final(self).index_spec() == old(self).index_spec() + 1,
            old(self).index_spec() >= old(self).tokens().len() ==> final(self).index_spec() == old(self).index_spec(),
    {
        let _ = self.next();
    }

    /// The next token, advancing the cursor; nothing at the end.
    pub fn next(&mut self) -> (r: Option<Token>)
        requires
            old(self).wf(),
        ensures
            final(self).wf(),
            final(self).tokens() == old(self).tokens(),
            old(self).index_spec() < old(self).tokens().len() ==> r == Some(
                old(self).tokens()[old(self).index_spec() as int],
            ) && final(self).index_spec() == old(self).index_spec() + 1,
            old(self).index_spec() >= old(self).tokens().len() ==> r is None && final(self).index_spec() == old(self).index_spec(),
    {
        if self.inner.len() == self.index {
            return None;
        }
        let token = self.inner[self.index];
        self.index = self.index + 1;
        Some(token)
    }

    /// The next token without advancing; nothing at the end.
    pub fn peek(&self) -> (r: Option<Token>)
        requires
            self.wf(),
        ensures
            self.index_spec() < self.tokens().len() ==> r == Some(
                self.tokens()[self.index_spec() as int],
            ),
            self.index_spec() >= self.tokens().len() ==> r is None,
    {
        if self.index < self.inner.len() {
            Some(self.inner[self.index])
        } else {
            None
        }
    }

    /// Checks that the next token is the expected one, without taking
    /// it: an unexpected token and an exhausted stream are distinct
    /// errors.
    pub fn expect(&self, expected: Token) -> (r: Result<(), LoxError>)
        requires
            self.wf(),
        ensures
            self.index_spec() < self.tokens().len() && self.tokens()[self.index_spec() as int]
                == expected ==> r is Ok,
            self.index_spec() < self.tokens().len() && self.tokens()[self.index_spec() as int]
                != expected ==> (r matches Err(e) && e is InvalidToken),
            self.index_spec() >= self.tokens().len() ==> (r matches Err(e) && e
                is UnexpectedEof),
    {
        if self.index < self.inner.len() {
            let token = self.inner[self.index];
            if !(token == expected) {
                return Err(LoxError::InvalidToken { error: "Received unexpected token" });
            }
            Ok(())
        } else {
            Err(LoxError::UnexpectedEof)
        }
    }

    /// Whether the next token is the given one.
    pub fn is(&self, expect: Token) -> (r: bool)
        requires
            self.wf(),
        ensures
            r == (self.index_spec() < self.tokens().len() && self.tokens()[self.index_spec() as int]
                == expect),
    {
        match self.peek() {
            Some(token) => token == expect,
            None => false,
        }
    }
}

} // verus!
