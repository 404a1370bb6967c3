use rlox::clox::chunk::{opcode_text, Chunk};
use rlox::clox::clox_error::CloxError;
use rlox::clox::clox_value::CloxValue;
use rlox::clox::compiler::Compiler;
use rlox::clox::opcode::Opcode;
use rlox::clox::scanner::Scanner;
use rlox::clox::stack::Stack;
use rlox::clox::string_indexer::StringIndexer;
use rlox::clox::token::TokenType;
use rlox::clox::vm::Vm;

fn num(x: f64) -> CloxValue {
    CloxValue::Number(x.to_bits())
}

fn run_value(source: &str) -> CloxValue {
    let mut vm = Vm::new();
    vm.interpret(source).unwrap()
}

fn run_error(source: &str) -> CloxError {
    let mut vm = Vm::new();
    vm.interpret(source).unwrap_err()
}

fn value_as_f64(v: CloxValue) -> f64 {
    match v {
        CloxValue::Number(b) => f64::from_bits(b),
        _ => panic!("not a number"),
    }
}

fn compile(source: &str) -> Chunk {
    let mut compiler = Compiler::new();
    compiler.compile(source).unwrap()
}

#[test]
fn simple_test() {
    let mut chunk = Chunk::new();

    chunk.write_chunk(Opcode::Constant(num(1.2)), 123);
    chunk.write_chunk(Opcode::Negate, 123);
    chunk.write_chunk(Opcode::Return, 123);

    chunk.disassemble_chunk("test chunk");
}

#[test]
fn test_check_keyword() {
    let content = "true ";
    let mut scanner = Scanner::new(content);
    let token = scanner.scan_token().unwrap();
    assert_eq!(token.token_type, TokenType::True);
}

#[test]
fn test_vm() {
    let mut chunk = Chunk::new();
    chunk.write_chunk(Opcode::Constant(num(1.2)), 123);
    chunk.write_chunk(Opcode::Constant(num(3.4)), 123);

    chunk.write_chunk(Opcode::Add, 123);

    chunk.write_chunk(Opcode::Constant(num(5.6)), 123);
    chunk.write_chunk(Opcode::Div, 123);

    chunk.write_chunk(Opcode::Negate, 123);
    chunk.write_chunk(Opcode::Return, 123);

    let mut vm = Vm::new();
    vm.load_chunk(chunk);
    let value = vm.run().unwrap();
    assert_eq!(value, num(-(1.2 + 3.4) / 5.6));
}

#[test]
fn literal_round_trip() {
    let mut chunk = Chunk::new();
    chunk.write_chunk(Opcode::Constant(num(1.25)), 0);
    chunk.write_chunk(Opcode::Return, 0);

    let mut vm = Vm::new();
    vm.load_chunk(chunk);
    let value = vm.run().unwrap();
    assert_eq!(value, num(1.25));
    assert_eq!(value.display_string(), "1.25");

    assert_eq!(run_value("1.25").display_string(), "1.25");
}

#[test]
fn precedence_opcode_order() {
    let chunk = compile("1 + 2 * 3");
    assert!(
        matches!(chunk.get_at(0), Some(Opcode::Constant(CloxValue::Number(b))) if *b == 1.0f64.to_bits())
    );
    assert!(
        matches!(chunk.get_at(1), Some(Opcode::Constant(CloxValue::Number(b))) if *b == 2.0f64.to_bits())
    );
    assert!(
        matches!(chunk.get_at(2), Some(Opcode::Constant(CloxValue::Number(b))) if *b == 3.0f64.to_bits())
    );
    assert!(matches!(chunk.get_at(3), Some(Opcode::Mul)));
    assert!(matches!(chunk.get_at(4), Some(Opcode::Add)));
    assert!(matches!(chunk.get_at(5), Some(Opcode::Return)));
    assert!(chunk.get_at(6).is_none());

    assert_eq!(value_as_f64(run_value("1 + 2 * 3")), 7.0);
}

#[test]
fn subtraction_is_left_associative() {
    assert_eq!(value_as_f64(run_value("8 - 4 - 2")), 2.0);
}

#[test]
fn not_equal_idiom() {
    let chunk = compile("1 != 2");
    assert!(matches!(chunk.get_at(2), Some(Opcode::Equal)));
    assert!(matches!(chunk.get_at(3), Some(Opcode::Not)));
    assert!(matches!(chunk.get_at(4), Some(Opcode::Return)));
    assert_eq!(run_value("1 != 2"), CloxValue::Boolean(true));
}

#[test]
fn greater_equal_idiom() {
    let chunk = compile("1 >= 1");
    assert!(matches!(chunk.get_at(2), Some(Opcode::Less)));
    assert!(matches!(chunk.get_at(3), Some(Opcode::Not)));
    assert_eq!(run_value("1 >= 1"), CloxValue::Boolean(true));
}

#[test]
fn less_equal_idiom() {
    let chunk = compile("1 <= 2");
    assert!(matches!(chunk.get_at(2), Some(Opcode::Greater)));
    assert!(matches!(chunk.get_at(3), Some(Opcode::Not)));
    assert_eq!(run_value("1 <= 2"), CloxValue::Boolean(true));
}

#[test]
fn not_nil_is_true() {
    assert_eq!(run_value("!nil"), CloxValue::Boolean(true));
    assert_eq!(run_value("!nil").display_string(), "true");
}

#[test]
fn bare_return_underflows() {
    let mut chunk = Chunk::new();
    chunk.write_chunk(Opcode::Return, 0);

    let mut vm = Vm::new();
    vm.load_chunk(chunk);
    assert_eq!(vm.run().unwrap_err(), CloxError::StackUnderflow);
}

#[test]
fn pop_on_empty_stack_underflows() {
    let mut stack = Stack::new();
    assert_eq!(stack.pop().unwrap_err(), CloxError::StackUnderflow);
}

#[test]
fn stack_push_pop_peek() {
    let mut stack = Stack::new();
    stack.push(num(1.0));
    stack.push(CloxValue::Nil);
    assert_eq!(stack.peek(0), Some(CloxValue::Nil));
    assert_eq!(stack.peek(1), Some(num(1.0)));
    assert_eq!(stack.peek(2), None);
    assert_eq!(stack.pop().unwrap(), CloxValue::Nil);
    assert_eq!(stack.pop().unwrap(), num(1.0));
}

#[test]
fn add_with_boolean_operand_fails() {
    assert_eq!(run_error("1 + true"), CloxError::RuntimeError);

    let mut chunk = Chunk::new();
    chunk.write_chunk(Opcode::True, 0);
    chunk.write_chunk(Opcode::Constant(num(1.0)), 0);
    chunk.write_chunk(Opcode::Add, 0);
    chunk.write_chunk(Opcode::Return, 0);

    let mut vm = Vm::new();
    vm.load_chunk(chunk);
    assert_eq!(vm.run().unwrap_err(), CloxError::RuntimeError);
}

#[test]
fn unterminated_string_reports_starting_line() {
    let mut scanner = Scanner::new("\"abc");
    assert_eq!(
        scanner.scan_token().unwrap_err(),
        CloxError::UnterminatedString { line: 0 }
    );

    let mut scanner = Scanner::new("\n\"abc");
    assert_eq!(
        scanner.scan_token().unwrap_err(),
        CloxError::UnterminatedString { line: 1 }
    );

    let mut compiler = Compiler::new();
    assert_eq!(compiler.compile("\"abc").unwrap_err(), CloxError::CompileError);
}

#[test]
fn unexpected_character_is_rejected() {
    let mut scanner = Scanner::new("$");
    assert_eq!(scanner.scan_token().unwrap_err(), CloxError::UnexpectedToken);

    let mut compiler = Compiler::new();
    assert_eq!(compiler.compile("$").unwrap_err(), CloxError::CompileError);
}

#[test]
fn string_indexer_rejects_unknown_handle() {
    let indexer = StringIndexer::new("abc");
    assert!(matches!(
        indexer.get_string(0),
        Err(CloxError::StringIndexOutOfBouds)
    ));
}

#[test]
fn missing_return_is_a_runtime_error() {
    let mut chunk = Chunk::new();
    chunk.write_chunk(Opcode::Constant(num(1.0)), 0);

    let mut vm = Vm::new();
    vm.load_chunk(chunk);
    assert_eq!(vm.run().unwrap_err(), CloxError::RuntimeError);
}

#[test]
fn scenario_addition_of_fractions() {
    let chunk = compile("1.2 + 3.4");
    assert!(
        matches!(chunk.get_at(0), Some(Opcode::Constant(CloxValue::Number(b))) if *b == 1.2f64.to_bits())
    );
    assert!(
        matches!(chunk.get_at(1), Some(Opcode::Constant(CloxValue::Number(b))) if *b == 3.4f64.to_bits())
    );
    assert!(matches!(chunk.get_at(2), Some(Opcode::Add)));
    assert!(matches!(chunk.get_at(3), Some(Opcode::Return)));

    let value = run_value("1.2 + 3.4");
    assert_eq!(value_as_f64(value), 1.2 + 3.4);
    assert_eq!(value.display_string(), "4.6");
}

#[test]
fn scenario_negative_division() {
    let value = run_value("-5 / 2");
    assert_eq!(value_as_f64(value), -2.5);
    assert_eq!(value.display_string(), "-2.5");
}

#[test]
fn scenario_boolean_equality() {
    let value = run_value("true == false");
    assert_eq!(value, CloxValue::Boolean(false));
    assert_eq!(value.display_string(), "false");
}

#[test]
fn scenario_grouping_changes_precedence() {
    let value = run_value("(1 + 2) * 3");
    assert_eq!(value_as_f64(value), 9.0);
    assert_eq!(value.display_string(), "9");
}

#[test]
fn number_equality_is_numeric_not_bitwise() {
    assert_eq!(num(0.0), num(-0.0));
    assert_ne!(num(f64::NAN), num(f64::NAN));
    assert_ne!(num(1.0), CloxValue::Boolean(true));
    assert_ne!(CloxValue::Nil, CloxValue::Boolean(false));
    assert_eq!(CloxValue::Nil, CloxValue::Nil);
}

#[test]
fn value_constructors_and_accessors() {
    let b = CloxValue::new_bool(true);
    assert_eq!(b, CloxValue::Boolean(true));
    assert!(!b.is_number());

    let n = CloxValue::new_num(2.5f64.to_bits());
    assert!(n.is_number());
    assert_eq!(f64::from_bits(n.as_number()), 2.5);

    assert_eq!(CloxValue::Nil.display_string(), "nil");
    assert_eq!(CloxValue::Boolean(false).display_string(), "false");
}

#[test]
fn comparison_operators() {
    assert_eq!(run_value("2 > 1"), CloxValue::Boolean(true));
    assert_eq!(run_value("1 > 2"), CloxValue::Boolean(false));
    assert_eq!(run_value("1 < 2"), CloxValue::Boolean(true));
    assert_eq!(run_value("1 == 1"), CloxValue::Boolean(true));
    assert_eq!(run_value("!true"), CloxValue::Boolean(false));
    assert_eq!(run_value("!false"), CloxValue::Boolean(true));
}

#[test]
fn run_reports_compile_and_runtime_errors() {
    assert!(rlox::clox::run("1 + 2").is_ok());
    assert!(matches!(rlox::clox::run("$"), Err(CloxError::CompileError)));
    assert!(matches!(
        rlox::clox::run("1 + true"),
        Err(CloxError::RuntimeError)
    ));
}

#[test]
fn comments_and_whitespace_are_skipped() {
    let value = run_value("1 + 2 // trailing words\n + 4");
    assert_eq!(value_as_f64(value), 7.0);

    let mut scanner = Scanner::new("   // only a comment");
    let token = scanner.scan_token().unwrap();
    assert_eq!(token.token_type, TokenType::Eof);
}

#[test]
fn opcode_mnemonics() {
    assert_eq!(opcode_text(&Opcode::Return), "OP_RETURN");
    assert_eq!(opcode_text(&Opcode::Add), "OP_ADD");
    assert_eq!(opcode_text(&Opcode::Negate), "OP_NEGATE");
    assert_eq!(opcode_text(&Opcode::Constant(num(2.5))), "OP_CONSTANT '2.5'");
    assert_eq!(
        opcode_text(&Opcode::Constant(CloxValue::Boolean(true))),
        "OP_CONSTANT 'true'"
    );
}

#[test]
fn keyword_lookalikes_scan_as_identifiers() {
    let mut scanner = Scanner::new("truex ");
    assert_eq!(scanner.scan_token().unwrap().token_type, TokenType::Identifier);

    let mut scanner = Scanner::new("f ");
    assert_eq!(scanner.scan_token().unwrap().token_type, TokenType::Identifier);

    let mut scanner = Scanner::new("els ");
    assert_eq!(scanner.scan_token().unwrap().token_type, TokenType::Identifier);

    let mut scanner = Scanner::new("else ");
    assert_eq!(scanner.scan_token().unwrap().token_type, TokenType::Else);
}

#[test]
fn integers_print_in_plain_decimal() {
    assert_eq!(run_value("5 * 2").display_string(), "10");
    assert_eq!(run_value("10 * 10").display_string(), "100");
    assert_eq!(run_value("60 * 2").display_string(), "120");
    assert_eq!(num(10.0).display_string(), (10.0f64).to_string());
    assert_eq!(num(1e21).display_string(), (1e21f64).to_string());
    assert_eq!(num(1e-3).display_string(), (1e-3f64).to_string());
    assert_eq!(num(-0.0).display_string(), (-0.0f64).to_string());
}

#[test]
fn special_values_print_like_the_hardware_float() {
    assert_eq!(run_value("1 / 0").display_string(), (1.0f64 / 0.0).to_string());
    assert_eq!(run_value("0 - 1 / 0").display_string(), (-1.0f64 / 0.0).to_string());
    assert_eq!(run_value("0 / 0").display_string(), (0.0f64 / 0.0).to_string());
    assert_eq!(num(f64::INFINITY).display_string(), "inf");
    assert_eq!(num(f64::NEG_INFINITY).display_string(), "-inf");
    assert_eq!(num(f64::NAN).display_string(), "NaN");
}

#[test]
fn unary_compiles_operand_first() {
    let chunk = compile("!true");
    assert!(matches!(chunk.get_at(0), Some(Opcode::True)));
    assert!(matches!(chunk.get_at(1), Some(Opcode::Not)));
    assert!(matches!(chunk.get_at(2), Some(Opcode::Return)));
    assert!(chunk.get_at(3).is_none());
    assert_eq!(run_value("!true"), CloxValue::Boolean(false));

    let chunk = compile("-5");
    assert!(
        matches!(chunk.get_at(0), Some(Opcode::Constant(CloxValue::Number(b))) if *b == 5.0f64.to_bits())
    );
    assert!(matches!(chunk.get_at(1), Some(Opcode::Negate)));
    assert_eq!(value_as_f64(run_value("-5")), -5.0);
}

#[test]
fn keyword_literals_compile_to_their_opcodes() {
    let chunk = compile("nil");
    assert!(matches!(chunk.get_at(0), Some(Opcode::Nil)));
    assert!(matches!(chunk.get_at(1), Some(Opcode::Return)));
    assert_eq!(run_value("false"), CloxValue::Boolean(false));
    assert_eq!(run_value("nil"), CloxValue::Nil);
}
