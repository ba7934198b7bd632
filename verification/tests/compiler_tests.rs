use grease::ast::{Expression, Program, Statement};
use grease::token::{Token, TokenType};
use grease::bytecode::{Chunk, OpCode};
use grease::compiler::CompileError;
use grease::grease::{compile_to_chunk, parse_program};

fn compile_code(code: &str) -> Result<Chunk, String> {
    let program = parse_program(code)?;
    match compile_to_chunk(&program) {
        Ok(c) => Ok(c),
        Err(CompileError::Message(m)) => Err(m),
        Err(CompileError::Panic(m)) => panic!("{}", m),
    }
}

#[test]
fn test_compile_expression() {
    let chunk = compile_code("42").unwrap();
    assert!(!chunk.code.is_empty());
}

#[test]
fn test_compile_variable_declaration() {
    let chunk = compile_code("let x = 42").unwrap();
    assert!(!chunk.code.is_empty());
}

#[test]
fn test_compile_assignment() {
    let chunk = compile_code("let x = 1\nx = 2").unwrap();
    assert!(!chunk.code.is_empty());
}

#[test]
fn test_compile_binary_expression() {
    let chunk = compile_code("1 + 2").unwrap();
    assert!(!chunk.code.is_empty());
}

#[test]
fn test_compile_call() {
    let chunk = compile_code("print(42)").unwrap();
    assert!(!chunk.code.is_empty());
}

#[test]
fn compiled_code_ends_with_return() {
    for src in ["42", "x = 1\ny = x + 2", "print(1)", "def f(a):\n    return a\nf(3)"] {
        let chunk = compile_code(src).unwrap();
        assert_eq!(*chunk.code.last().unwrap(), OpCode::Return.to_byte());
        assert_eq!(chunk.lines.len(), chunk.code.len());
    }
}

#[test]
fn binary_expression_bytecode() {
    let chunk = compile_code("1 + 2").unwrap();
    let c = OpCode::Constant.to_byte();
    assert_eq!(
        chunk.code,
        vec![c, 0, c, 1, OpCode::Add.to_byte(), OpCode::Return.to_byte()]
    );
    assert_eq!(chunk.constants.len(), 2);
}

#[test]
fn unsupported_statement_is_an_error() {
    let program = parse_program("throw 1").unwrap();
    match compile_to_chunk(&program) {
        Err(CompileError::Message(m)) => assert_eq!(m, "Unsupported statement"),
        other => panic!("unexpected: {:?}", other.map(|c| c.code)),
    }
}

#[test]
fn brace_blocks_are_not_grease_syntax() {
    // Blocks are opened by ':' and indentation; a brace after a condition is refused.
    let e = compile_code("if true { 1 }").unwrap_err();
    assert!(e.contains("Expected ':' after if condition"), "{}", e);
    let e = compile_code("while true { 1 }").unwrap_err();
    assert!(e.contains("Expected ':' after while condition"), "{}", e);
}

#[test]
fn unknown_operators_are_reported_with_their_text() {
    let op = Token { token_type: TokenType::Identifier, lexeme: "x\"y".to_string(), line: 1, column: 1 };
    let expr = Expression::Binary {
        left: Box::new(Expression::Number("1".to_string())),
        operator: op,
        right: Box::new(Expression::Number("2".to_string())),
    };
    let program = Program { statements: vec![Statement::Expression(expr)] };
    match compile_to_chunk(&program) {
        Err(CompileError::Message(m)) => assert_eq!(m, "Unknown binary operator: Identifier(\"x\\\"y\")"),
        other => panic!("unexpected: {:?}", other.is_ok()),
    }
    let op = Token { token_type: TokenType::Plus, lexeme: "+".to_string(), line: 1, column: 1 };
    let expr = Expression::Unary { operator: op, right: Box::new(Expression::Number("2".to_string())) };
    let program = Program { statements: vec![Statement::Expression(expr)] };
    match compile_to_chunk(&program) {
        Err(CompileError::Message(m)) => assert_eq!(m, "Unknown unary operator: Plus"),
        other => panic!("unexpected: {:?}", other.is_ok()),
    }
}
