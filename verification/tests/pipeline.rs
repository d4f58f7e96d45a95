//! End-to-end scenarios: scan, compile, run.

use capers::emit::compile;
use capers::errors::{CompileError, RuntimeError};
use capers::program::{OpCode, Program};
use capers::scanner::{scan_tokens, Token, TokenType};
use capers::value::{Value, ValueKind};
use capers::vm::run;

fn tokens_of(source: &str) -> Vec<Token> {
    let (tokens, errors) = scan_tokens(source.to_string());
    assert!(errors.is_empty(), "unexpected scan errors: {:?}", errors);
    tokens
}

fn eval_source(source: &str) -> Result<Value, RuntimeError> {
    let tokens = tokens_of(source);
    let program = compile(&tokens).expect("expected the source to compile");
    run(&program)
}

fn compile_source(source: &str) -> Result<Program, CompileError> {
    compile(&tokens_of(source))
}

fn number_token(text: &str) -> Token {
    Token { token_type: TokenType::Number, lexeme: text.to_string(), line: 1 }
}

fn plus_token() -> Token {
    Token { token_type: TokenType::Plus, lexeme: "+".to_string(), line: 1 }
}

#[test]
fn precedence_mul_binds_tighter() {
    assert_eq!(eval_source("1 + 2 * 3"), Ok(Value::Number(7)));
}

#[test]
fn precedence_parens_group() {
    assert_eq!(eval_source("(1 + 2) * 3"), Ok(Value::Number(9)));
}

#[test]
fn precedence_sum_of_products() {
    assert_eq!(eval_source("2 * 3 + 4 * 5"), Ok(Value::Number(26)));
}

#[test]
fn left_associative_subtraction() {
    assert_eq!(eval_source("8 - 3 - 2"), Ok(Value::Number(3)));
}

#[test]
fn left_associative_division() {
    assert_eq!(eval_source("100 / 5 / 2"), Ok(Value::Number(10)));
}

#[test]
fn unary_minus_binds_tighter_than_plus() {
    assert_eq!(eval_source("-2 + 3"), Ok(Value::Number(1)));
}

#[test]
fn unary_not_binds_tighter_than_equality() {
    assert_eq!(eval_source("!true == false"), Ok(Value::Boolean(true)));
}

#[test]
fn division_by_zero_is_reported() {
    assert_eq!(eval_source("1 / 0"), Err(RuntimeError::DivisionByZero));
}

#[test]
fn division_truncates_toward_zero() {
    assert_eq!(eval_source("7 / 2"), Ok(Value::Number(3)));
    assert_eq!(eval_source("-7 / 2"), Ok(Value::Number(-3)));
}

#[test]
fn type_mismatch_number_plus_boolean() {
    assert_eq!(
        eval_source("1 + true"),
        Err(RuntimeError::TypeMismatch { op: OpCode::Add, got: ValueKind::Boolean })
    );
}

#[test]
fn type_mismatch_negate_boolean() {
    assert_eq!(
        eval_source("-true"),
        Err(RuntimeError::TypeMismatch { op: OpCode::Negate, got: ValueKind::Boolean })
    );
}

#[test]
fn type_mismatch_not_number() {
    assert_eq!(
        eval_source("!1"),
        Err(RuntimeError::TypeMismatch { op: OpCode::Not, got: ValueKind::Number })
    );
}

#[test]
fn type_mismatch_ordering_on_strings() {
    assert_eq!(
        eval_source("\"a\" < \"b\""),
        Err(RuntimeError::TypeMismatch { op: OpCode::Less, got: ValueKind::String })
    );
}

#[test]
fn cross_type_equality_is_false() {
    assert_eq!(eval_source("1 == \"1\""), Ok(Value::Boolean(false)));
    assert_eq!(eval_source("1 != \"1\""), Ok(Value::Boolean(true)));
}

#[test]
fn nil_equals_nil() {
    assert_eq!(eval_source("nil == nil"), Ok(Value::Boolean(true)));
}

#[test]
fn string_equality_by_content() {
    assert_eq!(eval_source("\"hi\" == \"hi\""), Ok(Value::Boolean(true)));
    assert_eq!(eval_source("\"hi\" == \"ho\""), Ok(Value::Boolean(false)));
}

#[test]
fn string_literal_evaluates_to_itself() {
    assert_eq!(eval_source("\"hello\""), Ok(Value::String("hello".to_string())));
}

#[test]
fn comparison_operators() {
    assert_eq!(eval_source("2 < 3"), Ok(Value::Boolean(true)));
    assert_eq!(eval_source("3 <= 3"), Ok(Value::Boolean(true)));
    assert_eq!(eval_source("4 > 5"), Ok(Value::Boolean(false)));
    assert_eq!(eval_source("5 >= 5"), Ok(Value::Boolean(true)));
}

#[test]
fn equality_chains_left() {
    // (1 == 1) == true
    assert_eq!(eval_source("1 == 1 == true"), Ok(Value::Boolean(true)));
}

#[test]
fn empty_stream_is_empty_expression() {
    let tokens: Vec<Token> = Vec::new();
    assert_eq!(compile(&tokens).map(|_| ()), Err(CompileError::EmptyExpression));
}

#[test]
fn sole_end_marker_is_empty_expression() {
    let tokens = vec![Token { token_type: TokenType::Eof, lexeme: String::new(), line: 1 }];
    assert_eq!(compile(&tokens).map(|_| ()), Err(CompileError::EmptyExpression));
}

#[test]
fn unterminated_group_reported_with_line() {
    assert_eq!(
        compile_source("(1 + 2").map(|_| ()),
        Err(CompileError::UnterminatedGroup { line: 1 })
    );
}

#[test]
fn trailing_token_is_unexpected() {
    assert_eq!(
        compile_source("1 2").map(|_| ()),
        Err(CompileError::UnexpectedToken { found: TokenType::Number, line: 1 })
    );
}

#[test]
fn identifier_use_is_unexpected() {
    assert_eq!(
        compile_source("foo").map(|_| ()),
        Err(CompileError::UnexpectedToken { found: TokenType::Identifier, line: 1 })
    );
}

#[test]
fn input_ending_mid_expression_is_unexpected_eof() {
    assert_eq!(
        compile_source("1 +").map(|_| ()),
        Err(CompileError::UnexpectedToken { found: TokenType::Eof, line: 1 })
    );
}

#[test]
fn expressions_may_span_lines() {
    assert_eq!(eval_source("1 +\n2"), Ok(Value::Number(3)));
}

#[test]
fn errors_carry_the_offending_line() {
    assert_eq!(
        compile_source("1 +\n+").map(|_| ()),
        Err(CompileError::UnexpectedToken { found: TokenType::Plus, line: 2 })
    );
}

#[test]
fn fractional_literal_is_invalid() {
    assert_eq!(compile_source("1.5").map(|_| ()), Err(CompileError::InvalidLiteral { line: 1 }));
}

#[test]
fn overflowing_literal_is_invalid() {
    assert_eq!(
        compile_source("99999999999999999999").map(|_| ()),
        Err(CompileError::InvalidLiteral { line: 1 })
    );
}

#[test]
fn nesting_too_deep_is_reported() {
    let mut source = String::new();
    for _ in 0..250 {
        source.push('(');
    }
    source.push('1');
    for _ in 0..250 {
        source.push(')');
    }
    assert_eq!(compile_source(&source).map(|_| ()), Err(CompileError::NestingTooDeep));
}

#[test]
fn deep_but_allowed_nesting_still_runs() {
    let mut source = String::new();
    for _ in 0..100 {
        source.push('(');
    }
    source.push('5');
    for _ in 0..100 {
        source.push(')');
    }
    assert_eq!(eval_source(&source), Ok(Value::Number(5)));
}

#[test]
fn too_many_constants_is_reported() {
    // 257 literals exhaust the one-byte constant-pool index space
    let mut tokens = Vec::new();
    tokens.push(number_token("1"));
    for _ in 0..256 {
        tokens.push(plus_token());
        tokens.push(number_token("1"));
    }
    assert_eq!(compile(&tokens).map(|_| ()), Err(CompileError::TooManyConstants));
}

#[test]
fn largest_pool_still_compiles_and_runs() {
    // exactly 256 literals fit
    let mut tokens = Vec::new();
    tokens.push(number_token("1"));
    for _ in 0..255 {
        tokens.push(plus_token());
        tokens.push(number_token("1"));
    }
    let program = compile(&tokens).expect("256 constants fit the pool");
    assert_eq!(program.constants.len(), 256);
    assert_eq!(run(&program), Ok(Value::Number(256)));
}

#[test]
fn compiling_twice_yields_identical_programs() {
    let tokens = tokens_of("1 + 2 * (3 - -4) == 15");
    let first = compile(&tokens).expect("compiles");
    let second = compile(&tokens).expect("compiles");
    assert_eq!(first.code, second.code);
    assert_eq!(first.constants, second.constants);
}

#[test]
fn compiled_code_is_postfix_with_return() {
    let tokens = tokens_of("1 + 2");
    let program = compile(&tokens).expect("compiles");
    assert_eq!(
        program.code,
        vec![OpCode::LoadConstant(0), OpCode::LoadConstant(1), OpCode::Add, OpCode::Return]
    );
    assert_eq!(program.constants, vec![Value::Number(1), Value::Number(2)]);
}

#[test]
fn program_unchanged_by_execution() {
    let tokens = tokens_of("2 * 21");
    let program = compile(&tokens).expect("compiles");
    let code_before = program.code.clone();
    assert_eq!(run(&program), Ok(Value::Number(42)));
    assert_eq!(run(&program), Ok(Value::Number(42)));
    assert_eq!(program.code, code_before);
}

#[test]
fn empty_program_is_missing_return() {
    let program = Program::new();
    assert_eq!(run(&program), Err(RuntimeError::MissingReturn));
}

#[test]
fn bare_return_underflows() {
    let mut program = Program::new();
    program.emit(OpCode::Return);
    assert_eq!(run(&program), Err(RuntimeError::StackUnderflow));
}

#[test]
fn unbounded_pushes_overflow() {
    let mut program = Program::new();
    program.emit_constant(Value::Number(1)).expect("one constant fits");
    for _ in 0..256 {
        program.emit(OpCode::LoadConstant(0));
    }
    assert_eq!(run(&program), Err(RuntimeError::StackOverflow));
}

#[test]
fn negation_of_minimum_wraps() {
    let program = compile(&tokens_of("-9223372036854775807 - 1")).expect("compiles");
    assert_eq!(run(&program), Ok(Value::Number(i64::MIN)));
    let negated = compile(&tokens_of("-(-9223372036854775807 - 1)")).expect("compiles");
    assert_eq!(run(&negated), Ok(Value::Number(i64::MIN)));
}

#[test]
fn addition_wraps_on_overflow() {
    assert_eq!(
        eval_source("9223372036854775807 + 1"),
        Ok(Value::Number(i64::MIN))
    );
}

#[test]
fn disassembly_is_deterministic_text() {
    let program = compile(&tokens_of("1 + 2")).expect("compiles");
    let expected = "LoadConstant 0 : 1\nLoadConstant 1 : 2\nAdd\nReturn\n";
    assert_eq!(program.disassemble(), expected);
    assert_eq!(program.disassemble(), expected);
}

#[test]
fn disassembly_shows_each_value_kind() {
    let program = compile(&tokens_of("\"hi\" == nil == true")).expect("compiles");
    assert_eq!(
        program.disassemble(),
        "LoadConstant 0 : hi\nLoadConstant 1 : nil\nEqual\nLoadConstant 2 : true\nEqual\nReturn\n"
    );
}

#[test]
fn emit_constant_returns_successive_indexes() {
    let mut program = Program::new();
    assert_eq!(program.emit_constant(Value::Nil), Ok(0));
    assert_eq!(program.emit_constant(Value::Boolean(true)), Ok(1));
    assert_eq!(program.code, vec![OpCode::LoadConstant(0), OpCode::LoadConstant(1)]);
}
