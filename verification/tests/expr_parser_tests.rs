use rlox::expr_parser::ExprParser;
use rlox::loxerror::LoxError;
use rlox::string_indexer::StringIndexer;
use rlox::token::{Token, TokenStore};
use rlox::tokenizer::Lexer;

fn expr_parse_test(value: &str) -> String {
    let mut lexer = Lexer::new();
    let mut string_indexer = StringIndexer::new(value);
    let mut token_store = lexer.tokenize(&mut string_indexer, value).unwrap();
    let expr_parser = ExprParser::new();
    expr_parser
        .parse(&mut token_store, &string_indexer)
        .unwrap()
        .to_string()
}

#[test]
fn expr_parser_test_add() {
    assert_eq!(expr_parse_test("1.1 + 2.1"), "+ 1.1 2.1");
    assert_eq!(expr_parse_test("1.1 - 2.1"), "- 1.1 2.1");
    assert_eq!(expr_parse_test("1.1 * 2.1"), "* 1.1 2.1");
    assert_eq!(expr_parse_test("1.1 / 2.1"), "/ 1.1 2.1");
}

#[test]
fn expr_parser_test_equality() {
    assert_eq!(
        expr_parse_test("\"Hello\" == \"World\""),
        "== \"Hello\" \"World\""
    );
    assert_eq!(expr_parse_test("1.1 != 2.1"), "!= 1.1 2.1");
    assert_eq!(expr_parse_test("1.1 < 2.1"), "< 1.1 2.1");
    assert_eq!(expr_parse_test("1.1 <= 2.1"), "<= 1.1 2.1");
    assert_eq!(expr_parse_test("1.1 > 2.1"), "> 1.1 2.1");
    assert_eq!(expr_parse_test("1.1 >= 2.1"), ">= 1.1 2.1");
}

#[test]
fn expr_parser_test_precedence() {
    assert_eq!(expr_parse_test("1 + 2 * 3"), "+ 1 * 2 3");
}

#[test]
fn expr_parser_test_unary() {
    assert_eq!(expr_parse_test("-3"), "-3");
    assert_eq!(expr_parse_test("!3"), "!3");
}

#[test]
fn expr_parser_test_grouping() {
    assert_eq!(expr_parse_test("(1 + 2) * 3"), "* (+ 1 2) 3");
}

#[test]
fn parse_rejects_a_statement_token() {
    let mut lexer = Lexer::new();
    let content = "1 + ;";
    let mut string_indexer = StringIndexer::new(content);
    let mut token_store = lexer.tokenize(&mut string_indexer, content).unwrap();
    let expr_parser = ExprParser::new();
    let result = expr_parser.parse(&mut token_store, &string_indexer);
    assert!(matches!(result, Err(LoxError::InvalidToken { .. })));
}

#[test]
fn parse_rejects_an_empty_stream() {
    let mut token_store = TokenStore::new(vec![]);
    let string_indexer = StringIndexer::new("");
    let expr_parser = ExprParser::new();
    let result = expr_parser.parse(&mut token_store, &string_indexer);
    assert!(matches!(result, Err(LoxError::UnexpectedEof)));
}

#[test]
fn parse_rejects_an_unknown_string_handle() {
    let mut token_store = TokenStore::new(vec![Token::String(3), Token::Eof]);
    let string_indexer = StringIndexer::new("");
    let expr_parser = ExprParser::new();
    let result = expr_parser.parse(&mut token_store, &string_indexer);
    assert!(matches!(result, Err(LoxError::StringIndexOutOfBouds)));
}

#[test]
fn string_literal_keeps_its_quotes() {
    assert_eq!(expr_parse_test("\"true\""), "\"true\"");
    assert_eq!(expr_parse_test("\"plain\""), "\"plain\"");
}

#[test]
fn unquoted_string_spans_with_keyword_spellings_are_special() {
    let mut string_indexer = StringIndexer::new("true");
    let id = string_indexer.add_string(0, 4);
    let mut token_store = TokenStore::new(vec![Token::String(id), Token::Eof]);
    let expr_parser = ExprParser::new();
    let expr = expr_parser
        .parse(&mut token_store, &string_indexer)
        .unwrap();
    assert_eq!(expr.to_string(), "true");
}
