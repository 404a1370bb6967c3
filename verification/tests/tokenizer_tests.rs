use rlox::string_indexer::StringIndexer;
use rlox::token::{Token, TokenStore};
use rlox::tokenizer::Lexer;

fn setup(content: &str) -> TokenStore {
    let mut string_indexer = StringIndexer::new(content);
    setup_with_indexer(&mut string_indexer, content)
}

fn setup_with_indexer<'src>(
    string_indexer: &mut StringIndexer<'src>,
    content: &str,
) -> TokenStore {
    let mut lexer = Lexer::new();
    lexer.tokenize(string_indexer, content).unwrap()
}

fn next_token_identifier_is(
    token_store: &mut TokenStore,
    string_indexer: &StringIndexer<'_>,
    content: &str,
) {
    match token_store.next().unwrap() {
        Token::Identifier(string_id) => {
            assert_eq!(string_indexer.get_string(string_id).unwrap(), content);
        }
        _ => panic!("error"),
    }
}

fn next_token_string_is(
    token_store: &mut TokenStore,
    string_indexer: &StringIndexer<'_>,
    content: &str,
) {
    match token_store.next().unwrap() {
        Token::String(string_id) => {
            assert_eq!(string_indexer.get_string(string_id).unwrap(), content);
        }
        _ => panic!("error"),
    }
}

#[test]
fn tokenizer_detect_eof() {
    let content = "";
    let mut token_store = setup(content);
    assert_eq!(token_store.next().unwrap(), Token::Eof);
}

#[test]
fn tokenizer_detect_parenthesis() {
    let content = "()";
    let mut token_store = setup(content);

    assert_eq!(token_store.next().unwrap(), Token::LeftParen);
    assert_eq!(token_store.next().unwrap(), Token::RightParen);
    assert_eq!(token_store.next().unwrap(), Token::Eof);
}

#[test]
fn tokenizer_detect_brace() {
    let content = "{}";
    let mut token_store = setup(content);

    assert_eq!(token_store.next().unwrap(), Token::LeftBrace);
    assert_eq!(token_store.next().unwrap(), Token::RightBrace);
    assert_eq!(token_store.next().unwrap(), Token::Eof);
}

#[test]
fn tokenizer_detect_remainig_constants() {
    let content = ",.-+;/*";
    let mut token_store = setup(content);

    assert_eq!(token_store.next().unwrap(), Token::Comma);
    assert_eq!(token_store.next().unwrap(), Token::Dot);
    assert_eq!(token_store.next().unwrap(), Token::Minus);
    assert_eq!(token_store.next().unwrap(), Token::Plus);
    assert_eq!(token_store.next().unwrap(), Token::Semicolon);
    assert_eq!(token_store.next().unwrap(), Token::Slash);
    assert_eq!(token_store.next().unwrap(), Token::Star);
    assert_eq!(token_store.next().unwrap(), Token::Eof);
}

#[test]
fn tokenizer_detect_bang() {
    let mut token_store = setup("!");
    assert_eq!(token_store.next().unwrap(), Token::Bang);

    let mut token_store = setup("!=");
    assert_eq!(token_store.next().unwrap(), Token::BangEqual);
}

#[test]
fn tokenizer_detect_equal() {
    let mut token_store = setup("=");
    assert_eq!(token_store.next().unwrap(), Token::Equal);

    let mut token_store = setup("==");
    assert_eq!(token_store.next().unwrap(), Token::EqualEqual);
}

#[test]
fn tokenizer_detect_greater() {
    let mut token_store = setup(">");
    assert_eq!(token_store.next().unwrap(), Token::Greater);

    let mut token_store = setup(">=");
    assert_eq!(token_store.next().unwrap(), Token::GreaterEqual);
}

#[test]
fn tokenizer_detect_less() {
    let mut token_store = setup("<");
    assert_eq!(token_store.next().unwrap(), Token::Less);

    let mut token_store = setup("<=");
    assert_eq!(token_store.next().unwrap(), Token::LessEqual);
}

#[test]
fn tokenizer_detect_comment() {
    let mut token_store = setup("/");
    assert_eq!(token_store.next().unwrap(), Token::Slash);

    let mut token_store = setup("// This is a comment");
    assert_eq!(token_store.next().unwrap(), Token::Eof);

    let multi_line = r#"{
            // This is a comment
        }
        "#;
    let mut token_store = setup(multi_line);
    assert_eq!(token_store.next().unwrap(), Token::LeftBrace);
    assert_eq!(token_store.next().unwrap(), Token::RightBrace);
    assert_eq!(token_store.next().unwrap(), Token::Eof);
}

#[test]
fn tokenizer_detect_string() {
    let content = "\"Foo\"";
    let mut string_indexer = StringIndexer::new(content);
    let mut token_store = setup_with_indexer(&mut string_indexer, content);
    next_token_string_is(&mut token_store, &string_indexer, content);
    assert_eq!(token_store.next().unwrap(), Token::Eof);

    let multi_line = r#"{
            "This is a string"
        }
        "#;
    let mut string_indexer = StringIndexer::new(multi_line);
    let mut token_store = setup_with_indexer(&mut string_indexer, multi_line);
    assert_eq!(token_store.next().unwrap(), Token::LeftBrace);
    next_token_string_is(&mut token_store, &string_indexer, "\"This is a string\"");
    assert_eq!(token_store.next().unwrap(), Token::RightBrace);
    assert_eq!(token_store.next().unwrap(), Token::Eof);
}

#[test]
fn tokenizer_detect_number() {
    let mut token_store = setup("123.0");
    assert_eq!(token_store.next().unwrap(), Token::Number((123.0f64).to_bits()));

    let mut token_store = setup("456");
    assert_eq!(token_store.next().unwrap(), Token::Number((456.0f64).to_bits()));

    let content = "1.2.3";
    let mut lexer = Lexer::new();
    let mut string_indexer = StringIndexer::new(content);
    assert!(lexer
        .tokenize(&mut string_indexer, content)
        .is_err_and(|err| err.contains("unable to parse number")));
}

#[test]
fn tokenizer_detect_keywords() {
    let mut token_store = setup("and");
    assert_eq!(token_store.next().unwrap(), Token::And);

    let mut token_store = setup("class");
    assert_eq!(token_store.next().unwrap(), Token::Class);

    let mut token_store = setup("else");
    assert_eq!(token_store.next().unwrap(), Token::Else);

    let mut token_store = setup("false");
    assert_eq!(token_store.next().unwrap(), Token::False);

    let mut token_store = setup("fun");
    assert_eq!(token_store.next().unwrap(), Token::Fun);

    let mut token_store = setup("for");
    assert_eq!(token_store.next().unwrap(), Token::For);

    let mut token_store = setup("if");
    assert_eq!(token_store.next().unwrap(), Token::If);

    let mut token_store = setup("nil");
    assert_eq!(token_store.next().unwrap(), Token::Nil);

    let mut token_store = setup("or");
    assert_eq!(token_store.next().unwrap(), Token::Or);

    let mut token_store = setup("print");
    assert_eq!(token_store.next().unwrap(), Token::Print);

    let mut token_store = setup("return");
    assert_eq!(token_store.next().unwrap(), Token::Return);

    let mut token_store = setup("super");
    assert_eq!(token_store.next().unwrap(), Token::Super);

    let mut token_store = setup("this");
    assert_eq!(token_store.next().unwrap(), Token::This);

    let mut token_store = setup("true");
    assert_eq!(token_store.next().unwrap(), Token::True);

    let mut token_store = setup("var");
    assert_eq!(token_store.next().unwrap(), Token::Var);

    let mut token_store = setup("while");
    assert_eq!(token_store.next().unwrap(), Token::While);
}

#[test]
fn tokenizer_detect_identifier() {
    assert_identifier_token("hello");
    assert_identifier_token("_hello");
    assert_identifier_token("_hel_lo");
}

fn assert_identifier_token(content: &'static str) {
    let mut string_indexer = StringIndexer::new(content);
    let mut token_store = setup_with_indexer(&mut string_indexer, content);

    next_token_identifier_is(&mut token_store, &string_indexer, content);
}

#[test]
fn tokenizer_detect_handful_of_tokens() {
    let multi_line = r#"
        {
            // This is the start
            var myVar = print("statement");
        }
        "#;
    let mut string_indexer = StringIndexer::new(multi_line);
    let mut token_store = setup_with_indexer(&mut string_indexer, multi_line);
    assert_eq!(token_store.next().unwrap(), Token::LeftBrace);
    assert_eq!(token_store.next().unwrap(), Token::Var);
    next_token_identifier_is(&mut token_store, &string_indexer, "myVar");
    assert_eq!(token_store.next().unwrap(), Token::Equal);
    assert_eq!(token_store.next().unwrap(), Token::Print);
    assert_eq!(token_store.next().unwrap(), Token::LeftParen);
    next_token_string_is(&mut token_store, &string_indexer, "\"statement\"");
    assert_eq!(token_store.next().unwrap(), Token::RightParen);
    assert_eq!(token_store.next().unwrap(), Token::Semicolon);
    assert_eq!(token_store.next().unwrap(), Token::RightBrace);
    assert_eq!(token_store.next().unwrap(), Token::Eof);
}

#[test]
fn tokenizer_detect_invalid_token() {
    let multi_line = r#"
            //Some comment
            $
            //Other comment
        "#;
    let mut lexer = Lexer::new();
    let mut string_indexer = StringIndexer::new(multi_line);
    let response = lexer.tokenize(&mut string_indexer, multi_line);
    assert!(response.is_err_and(|value| value.contains("Unrecognised token '$' at line: 2")));
}

#[test]
fn token_store_peek_expect_is() {
    let mut store = TokenStore::new(vec![Token::Plus, Token::Eof]);
    assert_eq!(store.peek(), Some(Token::Plus));
    assert!(store.is(Token::Plus));
    assert!(!store.is(Token::Minus));
    assert!(store.expect(Token::Plus).is_ok());
    assert!(store.expect(Token::Minus).is_err());
    store.consume();
    assert_eq!(store.peek(), Some(Token::Eof));
    store.consume();
    assert_eq!(store.peek(), None);
    assert!(store.expect(Token::Eof).is_err());
    assert_eq!(store.next(), None);
}

#[test]
fn keyword_prefixes_are_identifiers() {
    let content = "andx";
    let mut string_indexer = StringIndexer::new(content);
    let mut token_store = setup_with_indexer(&mut string_indexer, content);
    next_token_identifier_is(&mut token_store, &string_indexer, "andx");

    let content = "form";
    let mut string_indexer = StringIndexer::new(content);
    let mut token_store = setup_with_indexer(&mut string_indexer, content);
    next_token_identifier_is(&mut token_store, &string_indexer, "form");
}
