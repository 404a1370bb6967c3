//! The tree-walking front end's lexer: one pass over the source text
//! that produces the whole token stream at once.
use crate::clox::scanner::keyword_type;
use crate::clox::token::TokenType;
use crate::number::parse_number;
use crate::string_indexer::StringIndexer;
use crate::text::{char_to_string, is_alpha_char, is_unicode_alnum, str_eq, usize_to_string};
use crate::token::{Token, TokenStore};
use vstd::prelude::*;

verus! {

/// An identifier as this lexer takes it: an ASCII letter or underscore,
/// then alphanumeric characters and underscores.
pub open spec fn identifier_shaped(s: Seq<char>) -> bool {
    &&& s.len() > 0
    &&& is_alpha_char(s[0])
    &&& forall|j: int|
        1 <= j < s.len() ==> crate::text::unicode_alnum(#[trigger] s[j]) || s[j] == '_'
}

/// Every literal token's handle points into the span table, an
/// identifier's span holds identifier-shaped text that is no keyword,
/// and a string's span begins with its opening quote.
pub open spec fn tokens_sound<'a>(tokens: Seq<Token>, indexer: StringIndexer<'a>) -> bool {
    forall|i: int|
        0 <= i < tokens.len() ==> (match #[trigger] tokens[i] {
            Token::Identifier(id) => {
                &&& id < indexer.locations().len()
                &&& identifier_shaped(indexer.span_text(indexer.locations()[id as int]))
                &&& keyword_type(indexer.span_text(indexer.locations()[id as int]))
                    == TokenType::Identifier
            },
            Token::String(id) => {
                &&& id < indexer.locations().len()
                &&& indexer.span_text(indexer.locations()[id as int]).len() > 0
                &&& indexer.span_text(indexer.locations()[id as int])[0] == '"'
            },
            _ => true,
        })
}

/// The lexer itself carries no state: everything lives in the indexer
/// and the token stream it produces.
#[derive(Debug)]
pub struct Lexer;

impl Lexer {
    pub fn new() -> (r: Self) {
        Self {}
    }

    /// Scans the whole source into a token stream ending in `Eof`,
    /// recording identifier and string spans in the indexer. An
    /// unrecognized character, and a numeric lexeme that does not parse,
    /// each fail with a message naming the offender.
    pub fn tokenize<'src>(
        &mut self,
        string_indexer: &mut StringIndexer<'src>,
        content: &str,
    ) -> (r: Result<TokenStore, String>)
        requires
            old(string_indexer).wf(),
            old(string_indexer).text() == content@,
        ensures
            final(string_indexer).wf(),
            final(string_indexer).text() == old(string_indexer).text(),
            r matches Ok(store) ==> {
                &&& store.wf()
                &&& store.index_spec() == 0
                &&& store.tokens().len() >= 1
                &&& store.tokens().last() == Token::Eof
                &&& tokens_sound(store.tokens(), *final(string_indexer))
            },
    {
        let mut line_no: usize = 0;

        let mut tokens: Vec<Token> = Vec::new();
        let len = content.unicode_len();
        let mut i: usize = 0;

        while i < len
            invariant
                string_indexer.wf(),
                string_indexer.text() == old(string_indexer).text(),
                string_indexer.text() == content@,
                len == content@.len(),
                i <= len,
                line_no <= i,
                tokens_sound(tokens@, *string_indexer),
            decreases len - i,
        {
            let ch = content.get_char(i);
            i = i + 1;

            match ch {
                '(' => tokens.push(Token::LeftParen),
                ')' => tokens.push(Token::RightParen),
                '{' => tokens.push(Token::LeftBrace),
                '}' => tokens.push(Token::RightBrace),
                ',' => tokens.push(Token::Comma),
                '.' => tokens.push(Token::Dot),
                '-' => tokens.push(Token::Minus),
                '+' => tokens.push(Token::Plus),
                ';' => tokens.push(Token::Semicolon),
                '*' => tokens.push(Token::Star),
                '/' => {
                    if i < len && content.get_char(i) == '/' {
                        // a comment runs to the end of the line
                        i = i + 1;
                        let ghost mark = i;
                        while i < len && content.get_char(i) != '\n'
                            invariant
                                mark <= i,
                                i <= len,
                                len == content@.len(),
                            decreases len - i,
                        {
                            i = i + 1;
                        }
                    } else {
                        tokens.push(Token::Slash);
                    }
                },
                '!' => {
                    if i < len && content.get_char(i) == '=' {
                        tokens.push(Token::BangEqual);
                        i = i + 1;
                    } else {
                        tokens.push(Token::Bang);
                    }
                },
                '=' => {
                    if i < len && content.get_char(i) == '=' {
                        tokens.push(Token::EqualEqual);
                        i = i + 1;
                    } else {
                        tokens.push(Token::Equal);
                    }
                },
                '>' => {
                    if i < len && content.get_char(i) == '=' {
                        tokens.push(Token::GreaterEqual);
                        i = i + 1;
                    } else {
                        tokens.push(Token::Greater);
                    }
                },
                '<' => {
                    if i < len && content.get_char(i) == '=' {
                        tokens.push(Token::LessEqual);
                        i = i + 1;
                    } else {
                        tokens.push(Token::Less);
                    }
                },
                '"' => {
                    let start = i - 1;
                    proof {
                        assert(content@[start as int] == '"');
                    }
                    while i < len && content.get_char(i) != '"'
                        invariant
                            start < i,
                            i <= len,
                            len == content@.len(),
                        decreases len - i,
                    {
                        i = i + 1;
                    }
                    // take the closing quote too, when there is one
                    if i < len {
                        i = i + 1;
                    }
                    let string_id = string_indexer.add_string(start, i);
                    tokens.push(Token::String(string_id));
                    proof {
                        assert(string_indexer.span_text(
                            string_indexer.locations()[string_id as int],
                        ) =~= content@.subrange(start as int, i as int));
                        assert(string_indexer.span_text(
                            string_indexer.locations()[string_id as int],
                        )[0] == content@[start as int]);
                    }
                },
                '0'..='9' => {
                    let start = i - 1;
                    loop
                        invariant
                            start < i,
                            i <= len,
                            len == content@.len(),
                        decreases len - i,
                    {
                        if !(i < len) {
                            break ;
                        }
                        let c = content.get_char(i);
                        if !((c >= '0' && c <= '9') || c == '.') {
                            break ;
                        }
                        i = i + 1;
                    }

                    let slice = content.substring_char(start, i);
                    match parse_number(slice) {
                        Some(bits) => tokens.push(Token::Number(bits)),
                        None => {
                            let mut message = String::from_str("unable to parse number: ");
                            message.append(slice);
                            return Err(message);
                        },
                    }
                },
                'a'..='z' | 'A'..='Z' | '_' => {
                    let start = i - 1;
                    proof {
                        assert(is_alpha_char(content@[start as int]));
                    }
                    loop
                        invariant
                            start < i,
                            i <= len,
                            len == content@.len(),
                            forall|j: int|
                                start < j < i ==> crate::text::unicode_alnum(
                                    #[trigger] content@[j],
                                ) || content@[j] == '_',
                        decreases len - i,
                    {
                        if !(i < len) {
                            break ;
                        }
                        let c = content.get_char(i);
                        if !(is_unicode_alnum(c) || c == '_') {
                            break ;
                        }
                        i = i + 1;
                    }

                    let slice = content.substring_char(start, i);
                    proof {
                        assert(identifier_shaped(slice@));
                    }
                    if str_eq(slice, "and") {
                        tokens.push(Token::And);
                    } else if str_eq(slice, "class") {
                        tokens.push(Token::Class);
                    } else if str_eq(slice, "else") {
                        tokens.push(Token::Else);
                    } else if str_eq(slice, "false") {
                        tokens.push(Token::False);
                    } else if str_eq(slice, "fun") {
                        tokens.push(Token::Fun);
                    } else if str_eq(slice, "for") {
                        tokens.push(Token::For);
                    } else if str_eq(slice, "if") {
                        tokens.push(Token::If);
                    } else if str_eq(slice, "nil") {
                        tokens.push(Token::Nil);
                    } else if str_eq(slice, "or") {
                        tokens.push(Token::Or);
                    } else if str_eq(slice, "print") {
                        tokens.push(Token::Print);
                    } else if str_eq(slice, "return") {
                        tokens.push(Token::Return);
                    } else if str_eq(slice, "super") {
                        tokens.push(Token::Super);
                    } else if str_eq(slice, "this") {
                        tokens.push(Token::This);
                    } else if str_eq(slice, "true") {
                        tokens.push(Token::True);
                    } else if str_eq(slice, "var") {
                        tokens.push(Token::Var);
                    } else if str_eq(slice, "while") {
                        tokens.push(Token::While);
                    } else {
                        let string_id = string_indexer.add_string(start, i);
                        tokens.push(Token::Identifier(string_id));
                        proof {
                            assert(string_indexer.span_text(
                                string_indexer.locations()[string_id as int],
                            ) =~= slice@);
                        }
                    }
                },
                ' ' | '\r' | '\t' => (),
                '\n' => {
                    line_no = line_no + 1;
                },
                _ => {
                    let mut message = String::from_str("Unrecognised token '");
                    let ch_text = char_to_string(ch);
                    message.append(ch_text.as_str());
                    message.append("' at line: ");
                    let line_text = usize_to_string(line_no);
                    message.append(line_text.as_str());
                    return Err(message);
                },
            }
        }

        tokens.push(Token::Eof);
        Ok(TokenStore::new(tokens))
    }
}

} // verus!
