//! The scanner: turns source text into tokens one at a time, tracking
//! line numbers, skipping whitespace and comments, and recording every
//! lexeme's span in the string indexer.
//!
//! Positions are character offsets into the source. The lexical grammar
//! is stated by the spec functions at the top of the file, and
//! `scan_token`'s contract ties every token it produces to the span it
//! covers.
use super::clox_error::CloxError;
use super::string_indexer::{StringIndexer, StringLocation};
use super::token::{Token, TokenType};
use crate::number::is_number_lexeme;
use crate::text::{is_alpha_char, is_digit, str_eq};
use vstd::prelude::*;

verus! {

/// A character the scanner skips between tokens.
pub open spec fn is_ws_char(c: char) -> bool {
    c == ' ' || c == '\r' || c == '\t' || c == '\n'
}

/// An identifier: a letter or underscore, then letters, digits and
/// underscores.
pub open spec fn is_identifier_text(s: Seq<char>) -> bool {
    &&& s.len() > 0
    &&& is_alpha_char(s[0])
    &&& forall|j: int| 0 <= j < s.len() ==> is_alpha_char(#[trigger] s[j]) || is_digit(s[j])
}

/// The token kind an identifier-shaped lexeme denotes: one of the
/// reserved keywords, or a plain identifier.
pub open spec fn keyword_type(s: Seq<char>) -> TokenType {
    if s == "and"@ {
        TokenType::And
    } else if s == "class"@ {
        TokenType::Class
    } else if s == "else"@ {
        TokenType::Else
    } else if s == "false"@ {
        TokenType::False
    } else if s == "for"@ {
        TokenType::For
    } else if s == "fun"@ {
        TokenType::Fun
    } else if s == "if"@ {
        TokenType::If
    } else if s == "nil"@ {
        TokenType::Nil
    } else if s == "or"@ {
        TokenType::Or
    } else if s == "print"@ {
        TokenType::Print
    } else if s == "return"@ {
        TokenType::Return
    } else if s == "super"@ {
        TokenType::Super
    } else if s == "this"@ {
        TokenType::This
    } else if s == "true"@ {
        TokenType::True
    } else if s == "var"@ {
        TokenType::Var
    } else if s == "while"@ {
        TokenType::While
    } else {
        TokenType::Identifier
    }
}

/// What a token's lexeme looks like, kind by kind.
pub open spec fn lexeme_matches(t: TokenType, s: Seq<char>) -> bool {
    match t {
        TokenType::LeftParen => s == "("@,
        TokenType::RightParen => s == ")"@,
        TokenType::LeftBrace => s == "{"@,
        TokenType::RightBrace => s == "}"@,
        TokenType::Comma => s == ","@,
        TokenType::Dot => s == "."@,
        TokenType::Minus => s == "-"@,
        TokenType::Plus => s == "+"@,
        TokenType::SemiColon => s == ";"@,
        TokenType::Slash => s == "/"@,
        TokenType::Star => s == "*"@,
        TokenType::Bang => s == "!"@,
        TokenType::BangEqual => s == "!="@,
        TokenType::Equal => s == "="@,
        TokenType::EqualEqual => s == "=="@,
        TokenType::Greater => s == ">"@,
        TokenType::GreaterEqual => s == ">="@,
        TokenType::Less => s == "<"@,
        TokenType::LessEqual => s == "<="@,
        TokenType::Identifier => is_identifier_text(s) && keyword_type(s)
            == TokenType::Identifier,
        TokenType::String => s.len() >= 2 && s[0] == '"' && s[s.len() - 1] == '"',
        TokenType::Number => is_number_lexeme(s),
        TokenType::And => s == "and"@,
        TokenType::Class => s == "class"@,
        TokenType::Else => s == "else"@,
        TokenType::False => s == "false"@,
        TokenType::For => s == "for"@,
        TokenType::Fun => s == "fun"@,
        TokenType::If => s == "if"@,
        TokenType::Nil => s == "nil"@,
        TokenType::Or => s == "or"@,
        TokenType::Print => s == "print"@,
        TokenType::Return => s == "return"@,
        TokenType::Super => s == "super"@,
        TokenType::This => s == "this"@,
        TokenType::True => s == "true"@,
        TokenType::Var => s == "var"@,
        TokenType::While => s == "while"@,
        TokenType::Error => false,
        TokenType::Eof => s.len() == 0,
    }
}

/// The position where the whitespace and comments beginning at `i` end;
/// with `in_comment` open, everything up to the next line break is still
/// being passed over.
pub open spec fn skip_ws_from(text: Seq<char>, i: nat, in_comment: bool) -> nat
    decreases text.len() - i,
{
    if i >= text.len() {
        i
    } else if in_comment {
        if text[i as int] == '\n' {
            skip_ws_from(text, (i + 1) as nat, false)
        } else {
            skip_ws_from(text, (i + 1) as nat, true)
        }
    } else if is_ws_char(text[i as int]) {
        skip_ws_from(text, (i + 1) as nat, false)
    } else if text[i as int] == '/' && i + 1 < text.len() && text[(i + 1) as int] == '/' {
        skip_ws_from(text, (i + 2) as nat, true)
    } else {
        i
    }
}

/// How many line breaks the text holds.
pub open spec fn count_newlines(s: Seq<char>) -> nat
    decreases s.len(),
{
    if s.len() == 0 {
        0
    } else {
        count_newlines(s.drop_last()) + (if s.last() == '\n' {
            1nat
        } else {
            0nat
        })
    }
}

/// One more character means one more line break exactly when that
/// character is one.
proof fn lemma_count_newlines_step(text: Seq<char>, i: int)
    requires
        0 <= i < text.len(),
    ensures
        count_newlines(text.take(i + 1)) == count_newlines(text.take(i)) + (if text[i] == '\n' {
            1nat
        } else {
            0nat
        }),
{
    assert(text.take(i + 1).drop_last() =~= text.take(i));
    assert(text.take(i + 1).last() == text[i]);
}

/// The end of the digit run beginning at `i`.
pub open spec fn digit_run_end(text: Seq<char>, i: nat) -> nat
    decreases text.len() - i,
{
    if i >= text.len() || !is_digit(text[i as int]) {
        i
    } else {
        digit_run_end(text, (i + 1) as nat)
    }
}

/// The end of the numeric lexeme beginning at `i`: a digit run, and a
/// dot with a second run only when a digit follows the dot.
pub open spec fn number_end(text: Seq<char>, i: nat) -> nat {
    let d = digit_run_end(text, i);
    if d < text.len() && text[d as int] == '.' && d + 1 < text.len() && is_digit(
        text[(d + 1) as int],
    ) {
        digit_run_end(text, (d + 1) as nat)
    } else {
        d
    }
}

/// The end of the identifier lexeme beginning at `i`.
pub open spec fn ident_end(text: Seq<char>, i: nat) -> nat
    decreases text.len() - i,
{
    if i >= text.len() || !(is_alpha_char(text[i as int]) || is_digit(text[i as int])) {
        i
    } else {
        ident_end(text, (i + 1) as nat)
    }
}

/// The position of the first closing quote at or after `i`, or the end
/// of the text when the literal is left open.
pub open spec fn close_quote(text: Seq<char>, i: nat) -> nat
    decreases text.len() - i,
{
    if i >= text.len() || text[i as int] == '"' {
        i
    } else {
        close_quote(text, (i + 1) as nat)
    }
}

/// What the lexical grammar puts at a position where whitespace and
/// comments have already been passed over: the end of input, one token
/// with the position just past its longest lexeme, a character no rule
/// accepts, or a string literal left open.
pub enum Scan {
    AtEnd,
    Lexeme { token_type: TokenType, end: nat },
    Unexpected,
    Unterminated,
}

pub open spec fn scan_at(text: Seq<char>, p: nat) -> Scan {
    if p >= text.len() {
        Scan::AtEnd
    } else {
        let c = text[p as int];
        if c == '(' {
            Scan::Lexeme { token_type: TokenType::LeftParen, end: (p + 1) as nat }
        } else if c == ')' {
            Scan::Lexeme { token_type: TokenType::RightParen, end: (p + 1) as nat }
        } else if c == '{' {
            Scan::Lexeme { token_type: TokenType::LeftBrace, end: (p + 1) as nat }
        } else if c == '}' {
            Scan::Lexeme { token_type: TokenType::RightBrace, end: (p + 1) as nat }
        } else if c == ';' {
            Scan::Lexeme { token_type: TokenType::SemiColon, end: (p + 1) as nat }
        } else if c == ',' {
            Scan::Lexeme { token_type: TokenType::Comma, end: (p + 1) as nat }
        } else if c == '.' {
            Scan::Lexeme { token_type: TokenType::Dot, end: (p + 1) as nat }
        } else if c == '-' {
            Scan::Lexeme { token_type: TokenType::Minus, end: (p + 1) as nat }
        } else if c == '+' {
            Scan::Lexeme { token_type: TokenType::Plus, end: (p + 1) as nat }
        } else if c == '/' {
            Scan::Lexeme { token_type: TokenType::Slash, end: (p + 1) as nat }
        } else if c == '*' {
            Scan::Lexeme { token_type: TokenType::Star, end: (p + 1) as nat }
        } else if c == '!' {
            if p + 1 < text.len() && text[(p + 1) as int] == '=' {
                Scan::Lexeme { token_type: TokenType::BangEqual, end: (p + 2) as nat }
            } else {
                Scan::Lexeme { token_type: TokenType::Bang, end: (p + 1) as nat }
            }
        } else if c == '=' {
            if p + 1 < text.len() && text[(p + 1) as int] == '=' {
                Scan::Lexeme { token_type: TokenType::EqualEqual, end: (p + 2) as nat }
            } else {
                Scan::Lexeme { token_type: TokenType::Equal, end: (p + 1) as nat }
            }
        } else if c == '<' {
            if p + 1 < text.len() && text[(p + 1) as int] == '=' {
                Scan::Lexeme { token_type: TokenType::LessEqual, end: (p + 2) as nat }
            } else {
                Scan::Lexeme { token_type: TokenType::Less, end: (p + 1) as nat }
            }
        } else if c == '>' {
            if p + 1 < text.len() && text[(p + 1) as int] == '=' {
                Scan::Lexeme { token_type: TokenType::GreaterEqual, end: (p + 2) as nat }
            } else {
                Scan::Lexeme { token_type: TokenType::Greater, end: (p + 1) as nat }
            }
        } else if c == '"' {
            if close_quote(text, (p + 1) as nat) < text.len() {
                Scan::Lexeme {
                    token_type: TokenType::String,
                    end: (close_quote(text, (p + 1) as nat) + 1) as nat,
                }
            } else {
                Scan::Unterminated
            }
        } else if is_digit(c) {
            Scan::Lexeme { token_type: TokenType::Number, end: number_end(text, p) }
        } else if is_alpha_char(c) {
            Scan::Lexeme {
                token_type: keyword_type(text.subrange(p as int, ident_end(text, p) as int)),
                end: ident_end(text, p),
            }
        } else {
            Scan::Unexpected
        }
    }
}

/// The keyword texts, character by character.
pub proof fn keyword_literals()
    ensures
        "and"@ == seq!['a', 'n', 'd'],
        "class"@ == seq!['c', 'l', 'a', 's', 's'],
        "else"@ == seq!['e', 'l', 's', 'e'],
        "false"@ == seq!['f', 'a', 'l', 's', 'e'],
        "for"@ == seq!['f', 'o', 'r'],
        "fun"@ == seq!['f', 'u', 'n'],
        "if"@ == seq!['i', 'f'],
        "nil"@ == seq!['n', 'i', 'l'],
        "or"@ == seq!['o', 'r'],
        "print"@ == seq!['p', 'r', 'i', 'n', 't'],
        "return"@ == seq!['r', 'e', 't', 'u', 'r', 'n'],
        "super"@ == seq!['s', 'u', 'p', 'e', 'r'],
        "this"@ == seq!['t', 'h', 'i', 's'],
        "true"@ == seq!['t', 'r', 'u', 'e'],
        "var"@ == seq!['v', 'a', 'r'],
        "while"@ == seq!['w', 'h', 'i', 'l', 'e'],
        "nd"@ == seq!['n', 'd'],
        "lass"@ == seq!['l', 'a', 's', 's'],
        "lse"@ == seq!['l', 's', 'e'],
        "r"@ == seq!['r'],
        "n"@ == seq!['n'],
        "f"@ == seq!['f'],
        "il"@ == seq!['i', 'l'],
        "rint"@ == seq!['r', 'i', 'n', 't'],
        "eturn"@ == seq!['e', 't', 'u', 'r', 'n'],
        "uper"@ == seq!['u', 'p', 'e', 'r'],
        "is"@ == seq!['i', 's'],
        "ue"@ == seq!['u', 'e'],
        "ar"@ == seq!['a', 'r'],
        "hile"@ == seq!['h', 'i', 'l', 'e'],
{
    reveal_strlit("and");
    reveal_strlit("class");
    reveal_strlit("else");
    reveal_strlit("false");
    reveal_strlit("for");
    reveal_strlit("fun");
    reveal_strlit("if");
    reveal_strlit("nil");
    reveal_strlit("or");
    reveal_strlit("print");
    reveal_strlit("return");
    reveal_strlit("super");
    reveal_strlit("this");
    reveal_strlit("true");
    reveal_strlit("var");
    reveal_strlit("while");
    reveal_strlit("nd");
    reveal_strlit("lass");
    reveal_strlit("lse");
    reveal_strlit("r");
    reveal_strlit("n");
    reveal_strlit("f");
    reveal_strlit("il");
    reveal_strlit("rint");
    reveal_strlit("eturn");
    reveal_strlit("uper");
    reveal_strlit("is");
    reveal_strlit("ue");
    reveal_strlit("ar");
    reveal_strlit("hile");
    assert("and"@ =~= seq!['a', 'n', 'd']);
    assert("class"@ =~= seq!['c', 'l', 'a', 's', 's']);
    assert("else"@ =~= seq!['e', 'l', 's', 'e']);
    assert("false"@ =~= seq!['f', 'a', 'l', 's', 'e']);
    assert("for"@ =~= seq!['f', 'o', 'r']);
    assert("fun"@ =~= seq!['f', 'u', 'n']);
    assert("if"@ =~= seq!['i', 'f']);
    assert("nil"@ =~= seq!['n', 'i', 'l']);
    assert("or"@ =~= seq!['o', 'r']);
    assert("print"@ =~= seq!['p', 'r', 'i', 'n', 't']);
    assert("return"@ =~= seq!['r', 'e', 't', 'u', 'r', 'n']);
    assert("super"@ =~= seq!['s', 'u', 'p', 'e', 'r']);
    assert("this"@ =~= seq!['t', 'h', 'i', 's']);
    assert("true"@ =~= seq!['t', 'r', 'u', 'e']);
    assert("var"@ =~= seq!['v', 'a', 'r']);
    assert("while"@ =~= seq!['w', 'h', 'i', 'l', 'e']);
    assert("nd"@ =~= seq!['n', 'd']);
    assert("lass"@ =~= seq!['l', 'a', 's', 's']);
    assert("lse"@ =~= seq!['l', 's', 'e']);
    assert("r"@ =~= seq!['r']);
    assert("n"@ =~= seq!['n']);
    assert("f"@ =~= seq!['f']);
    assert("il"@ =~= seq!['i', 'l']);
    assert("rint"@ =~= seq!['r', 'i', 'n', 't']);
    assert("eturn"@ =~= seq!['e', 't', 'u', 'r', 'n']);
    assert("uper"@ =~= seq!['u', 'p', 'e', 'r']);
    assert("is"@ =~= seq!['i', 's']);
    assert("ue"@ =~= seq!['u', 'e']);
    assert("ar"@ =~= seq!['a', 'r']);
    assert("hile"@ =~= seq!['h', 'i', 'l', 'e']);
}

/// The punctuation and operator texts, character by character.
pub proof fn punct_literals()
    ensures
        "("@ == seq!['('],
        ")"@ == seq![')'],
        "{"@ == seq!['{'],
        "}"@ == seq!['}'],
        ","@ == seq![','],
        "."@ == seq!['.'],
        "-"@ == seq!['-'],
        "+"@ == seq!['+'],
        ";"@ == seq![';'],
        "/"@ == seq!['/'],
        "*"@ == seq!['*'],
        "!"@ == seq!['!'],
        "!="@ == seq!['!', '='],
        "="@ == seq!['='],
        "=="@ == seq!['=', '='],
        ">"@ == seq!['>'],
        ">="@ == seq!['>', '='],
        "<"@ == seq!['<'],
        "<="@ == seq!['<', '='],
{
    reveal_strlit("(");
    reveal_strlit(")");
    reveal_strlit("{");
    reveal_strlit("}");
    reveal_strlit(",");
    reveal_strlit(".");
    reveal_strlit("-");
    reveal_strlit("+");
    reveal_strlit(";");
    reveal_strlit("/");
    reveal_strlit("*");
    reveal_strlit("!");
    reveal_strlit("!=");
    reveal_strlit("=");
    reveal_strlit("==");
    reveal_strlit(">");
    reveal_strlit(">=");
    reveal_strlit("<");
    reveal_strlit("<=");
    assert("("@ =~= seq!['(']);
    assert(")"@ =~= seq![')']);
    assert("{"@ =~= seq!['{']);
    assert("}"@ =~= seq!['}']);
    assert(","@ =~= seq![',']);
    assert("."@ =~= seq!['.']);
    assert("-"@ =~= seq!['-']);
    assert("+"@ =~= seq!['+']);
    assert(";"@ =~= seq![';']);
    assert("/"@ =~= seq!['/']);
    assert("*"@ =~= seq!['*']);
    assert("!"@ =~= seq!['!']);
    assert("!="@ =~= seq!['!', '=']);
    assert("="@ =~= seq!['=']);
    assert("=="@ =~= seq!['=', '=']);
    assert(">"@ =~= seq!['>']);
    assert(">="@ =~= seq!['>', '=']);
    assert("<"@ =~= seq!['<']);
    assert("<="@ =~= seq!['<', '=']);
}

/// One pass of the scanner over source text.
pub struct Scanner<'src> {
    content: &'src str,
    start: usize,
    current: usize,
    line: usize,
    string_indexer: StringIndexer<'src>,
}

impl<'src> Scanner<'src> {
    /// The source text, as characters.
    pub closed spec fn text(&self) -> Seq<char> {
        self.content@
    }

    /// The first character of the lexeme being scanned.
    pub closed spec fn start_spec(&self) -> usize {
        self.start
    }

    /// The next character to look at.
    pub closed spec fn current_spec(&self) -> usize {
        self.current
    }

    /// The current line, counted from zero.
    pub closed spec fn line_spec(&self) -> usize {
        self.line
    }

    /// The span table built so far.
    pub closed spec fn indexer(&self) -> StringIndexer<'src> {
        self.string_indexer
    }

    /// The scanner's positions stay within the source, the line counter
    /// never outruns the position, and the span table is sound.
    pub open spec fn wf(&self) -> bool {
        &&& self.start_spec() <= self.current_spec() <= self.text().len()
        &&& self.text().len() <= usize::MAX
        &&& self.line_spec() <= self.current_spec()
        &&& self.indexer().wf()
        &&& self.indexer().text() == self.text()
    }

    /// The line counter agrees with the line breaks already passed.
    pub open spec fn line_synced(&self) -> bool {
        self.line_spec() == count_newlines(self.text().take(self.current_spec() as int))
    }

    pub fn new(content: &'src str) -> (r: Self)
        ensures
            r.wf(),
            r.text() == content@,
            r.start_spec() == 0,
            r.current_spec() == 0,
            r.line_spec() == 0,
            r.line_synced(),
            r.indexer().locations() == Seq::<StringLocation>::empty(),
    {
        // the character count fits a machine word
        let _length = content.unicode_len();
        proof {
            assert(content@.take(0) =~= Seq::<char>::empty());
        }
        Self {
            content,
            start: 0,
            current: 0,
            line: 0,
            string_indexer: StringIndexer::new(content),
        }
    }

    fn is_at_end(&self) -> (r: bool)
        ensures
            r == (self.current_spec() >= self.text().len()),
    {
        self.current >= self.content.unicode_len()
    }

    fn peek(&self) -> (r: char)
        ensures
            r == (if self.current_spec() < self.text().len() {
                self.text()[self.current_spec() as int]
            } else {
                '\0'
            }),
    {
        if self.current < self.content.unicode_len() {
            self.content.get_char(self.current)
        } else {
            '\0'
        }
    }

    fn peek_next(&self) -> (r: char)
        ensures
            r == (if self.current_spec() + 1 < self.text().len() {
                self.text()[self.current_spec() + 1]
            } else {
                '\0'
            }),
    {
        let len = self.content.unicode_len();
        if self.current >= len {
            return '\0';
        }
        let next = self.current + 1;
        if next < len {
            self.content.get_char(next)
        } else {
            '\0'
        }
    }

    fn advance(&mut self) -> (r: char)
        requires
            old(self).current_spec() < old(self).text().len(),
            old(self).text().len() <= usize::MAX,
        ensures
            r == old(self).text()[old(self).current_spec() as int],
            final(self).current_spec() == old(self).current_spec() + 1,
            final(self).text() == old(self).text(),
            final(self).start_spec() == old(self).start_spec(),
            final(self).line_spec() == old(self).line_spec(),
            final(self).indexer() == old(self).indexer(),
    {
        let ret = self.content.get_char(self.current);
        self.current = self.current + 1;
        ret
    }

    fn matches(&mut self, expect: char) -> (r: bool)
        requires
            old(self).wf(),
        ensures
            final(self).wf(),
            final(self).text() == old(self).text(),
            final(self).start_spec() == old(self).start_spec(),
            final(self).line_spec() == old(self).line_spec(),
            final(self).indexer() == old(self).indexer(),
            (if old(self).current_spec() < old(self).text().len() && old(self).text()[old(self).current_spec() as int] == expect {
                r && final(self).current_spec() == old(self).current_spec() + 1
            } else {
                !r && final(self).current_spec() == old(self).current_spec()
            }),
    {
        if self.is_at_end() {
            return false;
        }
        if self.peek() != expect {
            return false;
        }
        self.current = self.current + 1;
        true
    }

    fn make_token(&mut self, token_type: TokenType) -> (r: Token)
        requires
            old(self).wf(),
        ensures
            final(self).wf(),
            final(self).text() == old(self).text(),
            final(self).start_spec() == old(self).start_spec(),
            final(self).current_spec() == old(self).current_spec(),
            final(self).line_spec() == old(self).line_spec(),
            final(self).indexer().locations() == old(self).indexer().locations().push(
                StringLocation { start: old(self).start_spec(), end: old(self).current_spec() },
            ),
            r.token_type == token_type,
            r.id == old(self).indexer().locations().len(),
            r.line == old(self).line_spec(),
    {
        let start = self.start;
        let end = self.current;
        let id = self.string_indexer.add_string(start, end);
        Token::new(token_type, id, self.line)
    }

    /// Skips spaces, tabs, carriage returns, newlines (counting lines),
    /// and `//` comments through end of line. Stops at the first
    /// character of the next lexeme.
    fn skip_whitespace(&mut self)
        requires
            old(self).wf(),
        ensures
            final(self).wf(),
            final(self).text() == old(self).text(),
            final(self).start_spec() == old(self).start_spec(),
            final(self).indexer() == old(self).indexer(),
            old(self).current_spec() <= final(self).current_spec(),
            old(self).line_spec() <= final(self).line_spec(),
            old(self).line_synced() ==> final(self).line_synced(),
            final(self).current_spec() == skip_ws_from(
                old(self).text(),
                old(self).current_spec() as nat,
                false,
            ),
            final(self).current_spec() >= final(self).text().len() || (!is_ws_char(
                final(self).text()[final(self).current_spec() as int],
            ) && !(final(self).text()[final(self).current_spec() as int] == '/' && final(self).current_spec() + 1 < final(self).text().len() && final(self).text()[final(self).current_spec() + 1] == '/')),
    {
        loop
            invariant
                self.wf(),
                self.text() == old(self).text(),
                self.start_spec() == old(self).start_spec(),
                self.indexer() == old(self).indexer(),
                old(self).current_spec() <= self.current_spec(),
                old(self).line_spec() <= self.line_spec(),
                old(self).line_synced() ==> self.line_synced(),
                skip_ws_from(old(self).text(), self.current_spec() as nat, false)
                    == skip_ws_from(old(self).text(), old(self).current_spec() as nat, false),
            ensures
                old(self).line_synced() ==> self.line_synced(),
                self.current_spec() == skip_ws_from(
                    old(self).text(),
                    old(self).current_spec() as nat,
                    false,
                ),
                self.current_spec() >= self.text().len() || (!is_ws_char(
                    self.text()[self.current_spec() as int],
                ) && !(self.text()[self.current_spec() as int] == '/' && self.current_spec() + 1
                    < self.text().len() && self.text()[self.current_spec() + 1] == '/')),
            decreases self.text().len() - self.current_spec(),
        {
            let value = self.peek();
            proof {
                if self.current_spec() < self.text().len() {
                    lemma_count_newlines_step(self.text(), self.current_spec() as int);
                }
            }
            match value {
                ' ' | '\r' | '\t' => {
                    let _ = self.advance();
                },
                '\n' => {
                    self.line = self.line + 1;
                    let _ = self.advance();
                },
                '/' => {
                    if self.peek_next() == '/' {
                        let ghost cur_it = self.current_spec();
                        let _ = self.advance();
                        proof {
                            assert(skip_ws_from(old(self).text(), cur_it as nat, false)
                                == skip_ws_from(old(self).text(), (cur_it + 2) as nat, true));
                            assert(skip_ws_from(old(self).text(), (cur_it + 1) as nat, true)
                                == skip_ws_from(old(self).text(), (cur_it + 2) as nat, true));
                        }
                        while self.peek() != '\n' && !self.is_at_end()
                            invariant
                                self.wf(),
                                self.text() == old(self).text(),
                                self.start_spec() == old(self).start_spec(),
                                self.indexer() == old(self).indexer(),
                                old(self).current_spec() <= self.current_spec(),
                                old(self).line_spec() <= self.line_spec(),
                                old(self).line_synced() ==> self.line_synced(),
                                cur_it < self.current_spec(),
                                skip_ws_from(old(self).text(), self.current_spec() as nat, true)
                                    == skip_ws_from(
                                    old(self).text(),
                                    old(self).current_spec() as nat,
                                    false,
                                ),
                            decreases self.text().len() - self.current_spec(),
                        {
                            proof {
                                lemma_count_newlines_step(self.text(), self.current_spec() as int);
                            }
                            let _ = self.advance();
                        }
                        proof {
                            assert(skip_ws_from(
                                old(self).text(),
                                self.current_spec() as nat,
                                false,
                            ) == skip_ws_from(old(self).text(), self.current_spec() as nat, true));
                        }
                    } else {
                        break ;
                    }
                },
                _ => {
                    break ;
                },
            }
        }
    }

    /// A string literal: everything to the closing quote, which may span
    /// lines; hitting the end of input instead fails with the line the
    /// literal began on.
    fn string(&mut self) -> (r: Result<Token, CloxError>)
        requires
            old(self).wf(),
            old(self).current_spec() == old(self).start_spec() + 1,
            old(self).text()[old(self).start_spec() as int] == '"',
        ensures
            final(self).wf(),
            final(self).text() == old(self).text(),
            final(self).start_spec() == old(self).start_spec(),
            old(self).current_spec() <= final(self).current_spec(),
            old(self).line_spec() <= final(self).line_spec(),
            old(self).line_synced() ==> final(self).line_synced(),
            (r is Ok) <==> close_quote(old(self).text(), old(self).current_spec() as nat) < old(self).text().len(),
            match r {
                Ok(t) => {
                    &&& final(self).indexer().locations() == old(self).indexer().locations().push(
                        StringLocation {
                            start: final(self).start_spec(),
                            end: final(self).current_spec(),
                        },
                    )
                    &&& t.token_type == TokenType::String
                    &&& t.id == old(self).indexer().locations().len()
                    &&& t.line == final(self).line_spec()
                    &&& final(self).current_spec() == close_quote(
                        old(self).text(),
                        old(self).current_spec() as nat,
                    ) + 1
                    &&& final(self).current_spec() > old(self).current_spec()
                    &&& lexeme_matches(
                        TokenType::String,
                        final(self).text().subrange(
                            final(self).start_spec() as int,
                            final(self).current_spec() as int,
                        ),
                    )
                },
                Err(e) => {
                    &&& e == (CloxError::UnterminatedString { line: old(self).line_spec() })
                    &&& (old(self).line_synced() ==> (e matches CloxError::UnterminatedString {
                        line,
                    } && line == count_newlines(
                        old(self).text().take(old(self).start_spec() as int),
                    )))
                    &&& final(self).indexer() == old(self).indexer()
                    &&& final(self).current_spec() == final(self).text().len()
                },
            },
    {
        let line_start = self.line;
        while self.peek() != '"' && !self.is_at_end()
            invariant
                self.wf(),
                self.text() == old(self).text(),
                self.start_spec() == old(self).start_spec(),
                self.indexer() == old(self).indexer(),
                old(self).current_spec() <= self.current_spec(),
                old(self).line_spec() <= self.line_spec(),
                old(self).line_synced() ==> self.line_synced(),
                close_quote(old(self).text(), self.current_spec() as nat) == close_quote(
                    old(self).text(),
                    old(self).current_spec() as nat,
                ),
            decreases self.text().len() - self.current_spec(),
        {
            proof {
                lemma_count_newlines_step(self.text(), self.current_spec() as int);
            }
            if self.peek() == '\n' {
                self.line = self.line + 1;
            }
            let _ = self.advance();
        }

        if self.is_at_end() {
            proof {
                lemma_count_newlines_step(self.text(), self.start_spec() as int);
            }
            return Err(CloxError::UnterminatedString { line: line_start });
        }

        proof {
            lemma_count_newlines_step(self.text(), self.current_spec() as int);
        }
        let _ = self.advance();
        let token = self.make_token(TokenType::String);
        proof {
            let lex = self.text().subrange(
                self.start_spec() as int,
                self.current_spec() as int,
            );
            assert(lex.len() >= 2);
            assert(lex[0] == '"');
            assert(lex[lex.len() - 1] == '"');
        }
        Ok(token)
    }

    /// A number: a run of digits, optionally a dot and another run.
    fn number(&mut self) -> (r: Result<Token, CloxError>)
        requires
            old(self).wf(),
            old(self).current_spec() == old(self).start_spec() + 1,
            is_digit(old(self).text()[old(self).start_spec() as int]),
        ensures
            final(self).wf(),
            final(self).text() == old(self).text(),
            final(self).start_spec() == old(self).start_spec(),
            old(self).current_spec() <= final(self).current_spec(),
            final(self).line_spec() == old(self).line_spec(),
            old(self).line_synced() ==> final(self).line_synced(),
            final(self).current_spec() == number_end(
                old(self).text(),
                old(self).start_spec() as nat,
            ),
            r matches Ok(t) && {
                &&& final(self).indexer().locations() == old(self).indexer().locations().push(
                    StringLocation {
                        start: final(self).start_spec(),
                        end: final(self).current_spec(),
                    },
                )
                &&& t.token_type == TokenType::Number
                &&& t.id == old(self).indexer().locations().len()
                &&& t.line == final(self).line_spec()
                &&& final(self).current_spec() > final(self).start_spec()
                &&& lexeme_matches(
                    TokenType::Number,
                    final(self).text().subrange(
                        final(self).start_spec() as int,
                        final(self).current_spec() as int,
                    ),
                )
            },
    {
        while self.peek() >= '0' && self.peek() <= '9'
            invariant
                self.wf(),
                self.text() == old(self).text(),
                self.start_spec() == old(self).start_spec(),
                self.indexer() == old(self).indexer(),
                self.line_spec() == old(self).line_spec(),
                old(self).current_spec() <= self.current_spec(),
                old(self).line_synced() ==> self.line_synced(),
                self.start_spec() < self.current_spec(),
                digit_run_end(old(self).text(), self.current_spec() as nat) == digit_run_end(
                    old(self).text(),
                    old(self).start_spec() as nat,
                ),
                crate::text::all_digits(
                    self.text().subrange(self.start_spec() as int, self.current_spec() as int),
                ),
            decreases self.text().len() - self.current_spec(),
        {
            proof {
                let pre = self.text().subrange(
                    self.start_spec() as int,
                    self.current_spec() as int,
                );
                assert(self.text().subrange(
                    self.start_spec() as int,
                    self.current_spec() + 1,
                ) =~= pre.push(self.text()[self.current_spec() as int]));
                lemma_count_newlines_step(self.text(), self.current_spec() as int);
            }
            let _ = self.advance();
        }

        proof {
            assert(self.current_spec() == digit_run_end(
                old(self).text(),
                old(self).start_spec() as nat,
            ));
        }
        let ghost dot = self.current_spec() as int;
        let has_fraction = self.peek() == '.' && self.peek_next() >= '0' && self.peek_next()
            <= '9';
        if has_fraction {
            proof {
                lemma_count_newlines_step(self.text(), self.current_spec() as int);
            }
            let _ = self.advance();
            while self.peek() >= '0' && self.peek() <= '9'
                invariant
                    self.wf(),
                    self.text() == old(self).text(),
                    self.start_spec() == old(self).start_spec(),
                    self.indexer() == old(self).indexer(),
                    self.line_spec() == old(self).line_spec(),
                    old(self).current_spec() <= self.current_spec(),
                    old(self).line_synced() ==> self.line_synced(),
                    digit_run_end(old(self).text(), self.current_spec() as nat) == digit_run_end(
                        old(self).text(),
                        (dot + 1) as nat,
                    ),
                    self.start_spec() < dot < self.current_spec() <= self.text().len(),
                    crate::text::all_digits(
                        self.text().subrange(self.start_spec() as int, dot),
                    ),
                    self.text()[dot] == '.',
                    crate::text::all_digits(self.text().subrange(dot + 1, self.current_spec() as int)),
                decreases self.text().len() - self.current_spec(),
            {
                proof {
                    let pre = self.text().subrange(dot + 1, self.current_spec() as int);
                    assert(self.text().subrange(dot + 1, self.current_spec() + 1) =~= pre.push(
                        self.text()[self.current_spec() as int],
                    ));
                    lemma_count_newlines_step(self.text(), self.current_spec() as int);
                }
                let _ = self.advance();
            }
            // the dot was only taken with a digit after it, so at least
            // one fraction digit was consumed
            proof {
                let lex = self.text().subrange(
                    self.start_spec() as int,
                    self.current_spec() as int,
                );
                let i = dot - self.start_spec() as int;
                assert(lex.take(i) =~= self.text().subrange(self.start_spec() as int, dot));
                assert(lex.skip(i + 1) =~= self.text().subrange(
                    dot + 1,
                    self.current_spec() as int,
                ));
                assert(lex[i] == '.');
                assert(is_number_lexeme(lex));
            }
        } else {
            proof {
                let lex = self.text().subrange(
                    self.start_spec() as int,
                    self.current_spec() as int,
                );
                let i = lex.len() as int;
                assert(lex.take(i) =~= lex);
                assert(is_number_lexeme(lex));
            }
        }

        Ok(self.make_token(TokenType::Number))
    }

    /// An identifier or keyword: letters, digits and underscores, then a
    /// look in the keyword table.
    fn identifier(&mut self) -> (r: Result<Token, CloxError>)
        requires
            old(self).wf(),
            old(self).current_spec() == old(self).start_spec() + 1,
            is_alpha_char(old(self).text()[old(self).start_spec() as int]),
        ensures
            final(self).wf(),
            final(self).text() == old(self).text(),
            final(self).start_spec() == old(self).start_spec(),
            old(self).current_spec() <= final(self).current_spec(),
            final(self).line_spec() == old(self).line_spec(),
            old(self).line_synced() ==> final(self).line_synced(),
            final(self).current_spec() == ident_end(
                old(self).text(),
                old(self).start_spec() as nat,
            ),
            r matches Ok(t) && {
                &&& final(self).indexer().locations() == old(self).indexer().locations().push(
                    StringLocation {
                        start: final(self).start_spec(),
                        end: final(self).current_spec(),
                    },
                )
                &&& t.token_type == keyword_type(
                    final(self).text().subrange(
                        final(self).start_spec() as int,
                        final(self).current_spec() as int,
                    ),
                )
                &&& t.id == old(self).indexer().locations().len()
                &&& t.line == final(self).line_spec()
                &&& final(self).current_spec() > final(self).start_spec()
                &&& lexeme_matches(
                    t.token_type,
                    final(self).text().subrange(
                        final(self).start_spec() as int,
                        final(self).current_spec() as int,
                    ),
                )
            },
    {
        loop
            invariant
                self.wf(),
                self.text() == old(self).text(),
                self.start_spec() == old(self).start_spec(),
                self.indexer() == old(self).indexer(),
                self.line_spec() == old(self).line_spec(),
                old(self).current_spec() <= self.current_spec(),
                old(self).line_synced() ==> self.line_synced(),
                self.start_spec() < self.current_spec(),
                ident_end(old(self).text(), self.current_spec() as nat) == ident_end(
                    old(self).text(),
                    old(self).start_spec() as nat,
                ),
                is_identifier_text(
                    self.text().subrange(self.start_spec() as int, self.current_spec() as int),
                ),
            ensures
                self.wf(),
                self.text() == old(self).text(),
                self.start_spec() == old(self).start_spec(),
                self.indexer() == old(self).indexer(),
                self.line_spec() == old(self).line_spec(),
                old(self).current_spec() <= self.current_spec(),
                old(self).line_synced() ==> self.line_synced(),
                self.start_spec() < self.current_spec(),
                self.current_spec() == ident_end(old(self).text(), old(self).start_spec() as nat),
                is_identifier_text(
                    self.text().subrange(self.start_spec() as int, self.current_spec() as int),
                ),
            decreases self.text().len() - self.current_spec(),
        {
            let c = self.peek();
            if !(self.is_alpha(c) || (c >= '0' && c <= '9')) {
                break ;
            }
            proof {
                let pre = self.text().subrange(
                    self.start_spec() as int,
                    self.current_spec() as int,
                );
                assert(self.text().subrange(
                    self.start_spec() as int,
                    self.current_spec() + 1,
                ) =~= pre.push(self.text()[self.current_spec() as int]));
                lemma_count_newlines_step(self.text(), self.current_spec() as int);
            }
            let _ = self.advance();
        }

        let token_type = match self.identifire_type() {
            Ok(t) => t,
            Err(_) => vstd::pervasive::unreached(),
        };
        proof {
            let lex = self.text().subrange(self.start_spec() as int, self.current_spec() as int);
            assert(lexeme_matches(token_type, lex));
        }
        Ok(self.make_token(token_type))
    }

    fn is_alpha(&self, value: char) -> (r: bool)
        ensures
            r == is_alpha_char(value),
    {
        (value >= 'a' && value <= 'z') || (value >= 'A' && value <= 'Z') || value == '_'
    }

    /// The character at `offset` past the lexeme's start.
    fn get_start_offset_char(&self, offset: usize) -> (r: char)
        requires
            self.wf(),
            self.start_spec() + offset < self.current_spec(),
        ensures
            r == self.text()[self.start_spec() + offset],
    {
        let pos = self.start + offset;
        self.content.get_char(pos)
    }

    /// Whether the lexeme being scanned is `start` characters, then
    /// exactly the text `remaining`; gives the keyword's type on a match
    /// and `Identifier` otherwise.
    fn check_keyword(
        &self,
        start: usize,
        length: usize,
        remaining: &str,
        token_type: TokenType,
    ) -> (r: Result<TokenType, CloxError>)
        requires
            self.wf(),
        ensures
            r matches Ok(t) && t == (if self.current_spec() == self.start_spec() + start + length
                && self.text().subrange(
                self.start_spec() + start,
                self.current_spec() as int,
            ) == remaining@ {
                token_type
            } else {
                TokenType::Identifier
            }),
    {
        let span = self.current - self.start;
        if span < start || span - start != length {
            return Ok(TokenType::Identifier);
        }
        let from = self.start + start;
        let to = self.current;
        let slice = self.content.substring_char(from, to);
        if str_eq(slice, remaining) {
            Ok(token_type)
        } else {
            Ok(TokenType::Identifier)
        }
    }

    /// The keyword table: a dispatch on the first character, then an
    /// exact suffix compare, with identifier as the fallback.
    fn identifire_type(&self) -> (r: Result<TokenType, CloxError>)
        requires
            self.wf(),
            self.start_spec() < self.current_spec(),
            is_identifier_text(
                self.text().subrange(self.start_spec() as int, self.current_spec() as int),
            ),
        ensures
            r matches Ok(t) && t == keyword_type(
                self.text().subrange(self.start_spec() as int, self.current_spec() as int),
            ),
    {
        proof {
            keyword_literals();
        }
        let ghost lex = self.text().subrange(self.start_spec() as int, self.current_spec() as int);
        let c = self.get_start_offset_char(0);
        proof {
            assert(lex[0] == c);
        }
        let r = match c {
            'a' => self.check_keyword(1, 2, "nd", TokenType::And),
            'c' => self.check_keyword(1, 4, "lass", TokenType::Class),
            'e' => self.check_keyword(1, 3, "lse", TokenType::Else),
            'f' => {
                if self.current - self.start > 1 {
                    match self.get_start_offset_char(1) {
                        'a' => self.check_keyword(2, 3, "lse", TokenType::False),
                        'o' => self.check_keyword(2, 1, "r", TokenType::For),
                        'u' => self.check_keyword(2, 1, "n", TokenType::Fun),
                        _ => Ok(TokenType::Identifier),
                    }
                } else {
                    Ok(TokenType::Identifier)
                }
            },
            'i' => self.check_keyword(1, 1, "f", TokenType::If),
            'n' => self.check_keyword(1, 2, "il", TokenType::Nil),
            'o' => self.check_keyword(1, 1, "r", TokenType::Or),
            'p' => self.check_keyword(1, 4, "rint", TokenType::Print),
            'r' => self.check_keyword(1, 5, "eturn", TokenType::Return),
            's' => self.check_keyword(1, 4, "uper", TokenType::Super),
            't' => {
                if self.current - self.start > 1 {
                    match self.get_start_offset_char(1) {
                        'h' => self.check_keyword(2, 2, "is", TokenType::This),
                        'r' => self.check_keyword(2, 2, "ue", TokenType::True),
                        _ => Ok(TokenType::Identifier),
                    }
                } else {
                    Ok(TokenType::Identifier)
                }
            },
            'v' => self.check_keyword(1, 2, "ar", TokenType::Var),
            'w' => self.check_keyword(1, 4, "hile", TokenType::While),
            _ => Ok(TokenType::Identifier),
        };
        proof {
            lemma_keyword_dispatch(lex, self.text(), self.start_spec() as int, self.current_spec() as int);
        }
        r
    }

    /// Skips to the next lexeme and scans exactly the token the lexical
    /// grammar puts there: after the whitespace and comments comes `Eof`
    /// at the end of the text, or the grammar's token over its longest
    /// lexeme, or one of the two lexical errors; the token's span is
    /// recorded in the indexer.
    pub fn scan_token(&mut self) -> (r: Result<Token, CloxError>)
        requires
            old(self).wf(),
        ensures
            final(self).wf(),
            final(self).text() == old(self).text(),
            old(self).current_spec() <= final(self).current_spec(),
            old(self).line_spec() <= final(self).line_spec(),
            old(self).line_synced() ==> final(self).line_synced(),
            ({
                let p = skip_ws_from(old(self).text(), old(self).current_spec() as nat, false);
                &&& final(self).start_spec() == p
                &&& (r is Ok ==> final(self).indexer().locations().last() == (StringLocation {
                    start: final(self).start_spec(),
                    end: final(self).current_spec(),
                }))
                &&& match scan_at(old(self).text(), p) {
                    Scan::AtEnd => r matches Ok(t) && t.token_type == TokenType::Eof && final(self).current_spec() == p,
                    Scan::Lexeme { token_type, end } => r matches Ok(t) && t.token_type
                        == token_type && final(self).current_spec() == end,
                    Scan::Unexpected => (r matches Err(e) && e == CloxError::UnexpectedToken)
                        && final(self).current_spec() == p + 1,
                    Scan::Unterminated => r matches Err(e) && e matches CloxError::UnterminatedString { line } && (old(self).line_synced() ==> line == count_newlines(
                        old(self).text().take(p as int),
                    )),
                }
            }),
            match r {
                Ok(t) => scanned(*old(self), *final(self), t),
                Err(e) => {
                    &&& final(self).indexer() == old(self).indexer()
                    &&& final(self).current_spec() > old(self).current_spec()
                    &&& (e matches CloxError::UnterminatedString { line } ==> final(self).current_spec() == final(self).text().len())
                    &&& (e == CloxError::UnexpectedToken ==> final(self).current_spec() > old(self).current_spec())
                    &&& (e == CloxError::UnexpectedToken || e matches CloxError::UnterminatedString {
                        line,
                    })
                },
            },
    {
        self.skip_whitespace();
        self.start = self.current;

        if self.is_at_end() {
            let token = self.make_token(TokenType::Eof);
            return Ok(token);
        }
        proof {
            lemma_count_newlines_step(self.text(), self.current_spec() as int);
        }
        let c = self.advance();
        proof {
            punct_literals();
            assert(self.text().subrange(self.start_spec() as int, self.current_spec() as int)
                =~= seq![c]);
        }

        match c {
            '(' => Ok(self.make_token(TokenType::LeftParen)),
            ')' => Ok(self.make_token(TokenType::RightParen)),
            '{' => Ok(self.make_token(TokenType::LeftBrace)),
            '}' => Ok(self.make_token(TokenType::RightBrace)),
            ';' => Ok(self.make_token(TokenType::SemiColon)),
            ',' => Ok(self.make_token(TokenType::Comma)),
            '.' => Ok(self.make_token(TokenType::Dot)),
            '-' => Ok(self.make_token(TokenType::Minus)),
            '+' => Ok(self.make_token(TokenType::Plus)),
            '/' => Ok(self.make_token(TokenType::Slash)),
            '*' => Ok(self.make_token(TokenType::Star)),
            '!' => {
                let result = if self.matches('=') {
                    proof {
                        assert(self.text().subrange(
                            self.start_spec() as int,
                            self.current_spec() as int,
                        ) =~= seq!['!', '=']);
                        lemma_count_newlines_step(self.text(), self.current_spec() - 1);
                    }
                    self.make_token(TokenType::BangEqual)
                } else {
                    self.make_token(TokenType::Bang)
                };
                Ok(result)
            },
            '=' => {
                let result = if self.matches('=') {
                    proof {
                        assert(self.text().subrange(
                            self.start_spec() as int,
                            self.current_spec() as int,
                        ) =~= seq!['=', '=']);
                        lemma_count_newlines_step(self.text(), self.current_spec() - 1);
                    }
                    self.make_token(TokenType::EqualEqual)
                } else {
                    self.make_token(TokenType::Equal)
                };
                Ok(result)
            },
            '<' => {
                let result = if self.matches('=') {
                    proof {
                        assert(self.text().subrange(
                            self.start_spec() as int,
                            self.current_spec() as int,
                        ) =~= seq!['<', '=']);
                        lemma_count_newlines_step(self.text(), self.current_spec() - 1);
                    }
                    self.make_token(TokenType::LessEqual)
                } else {
                    self.make_token(TokenType::Less)
                };
                Ok(result)
            },
            '>' => {
                let result = if self.matches('=') {
                    proof {
                        assert(self.text().subrange(
                            self.start_spec() as int,
                            self.current_spec() as int,
                        ) =~= seq!['>', '=']);
                        lemma_count_newlines_step(self.text(), self.current_spec() - 1);
                    }
                    self.make_token(TokenType::GreaterEqual)
                } else {
                    self.make_token(TokenType::Greater)
                };
                Ok(result)
            },
            '"' => self.string(),
            '0'..='9' => self.number(),
            'a'..='z' | 'A'..='Z' | '_' => self.identifier(),
            _ => Err(CloxError::UnexpectedToken),
        }
    }

    /// The lexeme text of a scanned token's span handle.
    pub fn get_str_at(&self, string_id: usize) -> (r: &'src str)
        requires
            self.wf(),
            string_id < self.indexer().locations().len(),
        ensures
            r@ == self.indexer().span_text(self.indexer().locations()[string_id as int]),
    {
        self.string_indexer.get_str_at(string_id)
    }
}

/// What one successful `scan_token` call did: one span was recorded, the
/// token points at it, the lexeme has the token's shape, and only `Eof`
/// covers no characters.
pub open spec fn scanned<'a>(pre: Scanner<'a>, post: Scanner<'a>, t: Token) -> bool {
    &&& post.wf()
    &&& post.text() == pre.text()
    &&& pre.current_spec() <= post.current_spec()
    &&& post.indexer().locations().len() == pre.indexer().locations().len() + 1
    &&& post.indexer().locations() == pre.indexer().locations().push(
        post.indexer().locations().last(),
    )
    &&& t.id == pre.indexer().locations().len()
    &&& t.line == post.line_spec()
    &&& ({
        let loc = post.indexer().locations().last();
        &&& pre.current_spec() <= loc.start
        &&& loc.start <= loc.end
        &&& loc.end == post.current_spec()
        &&& lexeme_matches(t.token_type, post.text().subrange(loc.start as int, loc.end as int))
        &&& ((t.token_type == TokenType::Eof) <==> (loc.start == loc.end))
        &&& (t.token_type == TokenType::Eof ==> post.current_spec() == post.text().len())
    })
}

/// Relates the keyword table's dispatch to `keyword_type`: an
/// identifier-shaped lexeme equals a keyword text exactly when its
/// length and characters say so, and differs from every keyword whose
/// first character differs.
proof fn lemma_keyword_dispatch(lex: Seq<char>, text: Seq<char>, start: int, current: int)
    requires
        0 <= start < current <= text.len(),
        lex == text.subrange(start, current),
    ensures
        lex == "and"@ <==> current == start + 3 && text.subrange(start + 1, current) == "nd"@
            && lex[0] == 'a',
        lex == "class"@ <==> current == start + 5 && text.subrange(start + 1, current) == "lass"@
            && lex[0] == 'c',
        lex == "else"@ <==> current == start + 4 && text.subrange(start + 1, current) == "lse"@
            && lex[0] == 'e',
        lex == "false"@ <==> current == start + 5 && text.subrange(start + 2, current) == "lse"@
            && lex[0] == 'f' && (current > start + 1 && lex[1] == 'a'),
        lex == "for"@ <==> current == start + 3 && text.subrange(start + 2, current) == "r"@
            && lex[0] == 'f' && (current > start + 1 && lex[1] == 'o'),
        lex == "fun"@ <==> current == start + 3 && text.subrange(start + 2, current) == "n"@
            && lex[0] == 'f' && (current > start + 1 && lex[1] == 'u'),
        lex == "if"@ <==> current == start + 2 && text.subrange(start + 1, current) == "f"@
            && lex[0] == 'i',
        lex == "nil"@ <==> current == start + 3 && text.subrange(start + 1, current) == "il"@
            && lex[0] == 'n',
        lex == "or"@ <==> current == start + 2 && text.subrange(start + 1, current) == "r"@
            && lex[0] == 'o',
        lex == "print"@ <==> current == start + 5 && text.subrange(start + 1, current) == "rint"@
            && lex[0] == 'p',
        lex == "return"@ <==> current == start + 6 && text.subrange(start + 1, current)
            == "eturn"@ && lex[0] == 'r',
        lex == "super"@ <==> current == start + 5 && text.subrange(start + 1, current) == "uper"@
            && lex[0] == 's',
        lex == "this"@ <==> current == start + 4 && text.subrange(start + 2, current) == "is"@
            && lex[0] == 't' && (current > start + 1 && lex[1] == 'h'),
        lex == "true"@ <==> current == start + 4 && text.subrange(start + 2, current) == "ue"@
            && lex[0] == 't' && (current > start + 1 && lex[1] == 'r'),
        lex == "var"@ <==> current == start + 3 && text.subrange(start + 1, current) == "ar"@
            && lex[0] == 'v',
        lex == "while"@ <==> current == start + 5 && text.subrange(start + 1, current) == "hile"@
            && lex[0] == 'w',
{
    keyword_literals();
    assert(lex.len() == current - start);
    assert("and"@.skip(1) =~= "nd"@);
    assert("class"@.skip(1) =~= "lass"@);
    assert("else"@.skip(1) =~= "lse"@);
    assert("false"@.skip(2) =~= "lse"@);
    assert("for"@.skip(2) =~= "r"@);
    assert("fun"@.skip(2) =~= "n"@);
    assert("if"@.skip(1) =~= "f"@);
    assert("nil"@.skip(1) =~= "il"@);
    assert("or"@.skip(1) =~= "r"@);
    assert("print"@.skip(1) =~= "rint"@);
    assert("return"@.skip(1) =~= "eturn"@);
    assert("super"@.skip(1) =~= "uper"@);
    assert("this"@.skip(2) =~= "is"@);
    assert("true"@.skip(2) =~= "ue"@);
    assert("var"@.skip(1) =~= "ar"@);
    assert("while"@.skip(1) =~= "hile"@);
    lemma_keyword_one(lex, text, start, current, "and"@, 1);
    lemma_keyword_one(lex, text, start, current, "class"@, 1);
    lemma_keyword_one(lex, text, start, current, "else"@, 1);
    lemma_keyword_one(lex, text, start, current, "false"@, 2);
    lemma_keyword_one(lex, text, start, current, "for"@, 2);
    lemma_keyword_one(lex, text, start, current, "fun"@, 2);
    lemma_keyword_one(lex, text, start, current, "if"@, 1);
    lemma_keyword_one(lex, text, start, current, "nil"@, 1);
    lemma_keyword_one(lex, text, start, current, "or"@, 1);
    lemma_keyword_one(lex, text, start, current, "print"@, 1);
    lemma_keyword_one(lex, text, start, current, "return"@, 1);
    lemma_keyword_one(lex, text, start, current, "super"@, 1);
    lemma_keyword_one(lex, text, start, current, "this"@, 2);
    lemma_keyword_one(lex, text, start, current, "true"@, 2);
    lemma_keyword_one(lex, text, start, current, "var"@, 1);
    lemma_keyword_one(lex, text, start, current, "while"@, 1);
}

/// One keyword at a time: the lexeme equals the keyword exactly when the
/// first `head` characters and the remaining suffix both agree.
proof fn lemma_keyword_one(
    lex: Seq<char>,
    text: Seq<char>,
    start: int,
    current: int,
    kw: Seq<char>,
    head: int,
)
    requires
        0 <= start < current <= text.len(),
        lex == text.subrange(start, current),
        1 <= head <= kw.len(),
    ensures
        lex == kw <==> (current == start + kw.len() && text.subrange(start + head, current)
            == kw.skip(head) && (forall|j: int| 0 <= j < head && j < lex.len() ==> lex[j] == kw[j])),
{
    assert(lex.len() == current - start);
    if current == start + kw.len() && text.subrange(start + head, current) == kw.skip(head) && (
    forall|j: int| 0 <= j < head && j < lex.len() ==> lex[j] == kw[j]) {
        assert forall|j: int| 0 <= j < lex.len() implies lex[j] == kw[j] by {
            if j >= head {
                assert(text.subrange(start + head, current)[j - head] == kw.skip(head)[j - head]);
                assert(text.subrange(start + head, current)[j - head] == text[start + j]);
                assert(lex[j] == text[start + j]);
            }
        }
        assert(lex =~= kw);
    }
    if lex == kw {
        assert(current == start + kw.len());
        assert(text.subrange(start + head, current) =~= kw.skip(head));
    }
}

} // verus!
