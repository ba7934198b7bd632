use grease::bytecode::{Chunk, OpCode, Value};
use grease::webassembly::{WebAssemblyCompiler, WebAssemblyRuntime};

#[test]
fn test_webassembly_compiler_creation() {
    let compiler = WebAssemblyCompiler::new();
    assert_eq!(compiler.wasm_code.len(), 0);
    assert_eq!(compiler.exports.len(), 0);
    assert_eq!(compiler.imports.len(), 0);
}

#[test]
fn test_webassembly_runtime_creation() {
    let runtime = WebAssemblyRuntime::new();
    assert!(!runtime.initialized);
}

#[test]
fn test_webassembly_runtime_initialization() {
    let mut runtime = WebAssemblyRuntime::new();
    let result = runtime.initialize();
    assert!(result.is_ok());
    assert!(runtime.initialized);
}

#[test]
fn test_webassembly_compiler_header() {
    let mut compiler = WebAssemblyCompiler::new();
    compiler.emit_header();

    assert_eq!(compiler.wasm_code[0..4], [0x00, 0x61, 0x73, 0x6d]);
    assert_eq!(compiler.wasm_code[4..8], [0x01, 0x00, 0x00, 0x00]);
}

#[test]
fn test_webassembly_emit_i32_const() {
    let mut compiler = WebAssemblyCompiler::new();
    compiler.emit_i32_const(42);

    assert_eq!(compiler.wasm_code[0], 0x41);
    assert_eq!(compiler.wasm_code[1], 42);
}

#[test]
fn test_webassembly_emit_constant() {
    let mut compiler = WebAssemblyCompiler::new();

    // The number 42 converts to the integer 42.
    compiler.emit_constant(&Value::Number("42".to_string()), 42);
    assert_eq!(compiler.wasm_code[0], 0x41);
    assert_eq!(compiler.wasm_code[1], 42);

    compiler.wasm_code.clear();

    compiler.emit_constant(&Value::Boolean(true), 0);
    assert_eq!(compiler.wasm_code[0], 0x41);
    assert_eq!(compiler.wasm_code[1], 1);

    compiler.wasm_code.clear();

    compiler.emit_constant(&Value::Null, 0);
    assert_eq!(compiler.wasm_code[0], 0x41);
    assert_eq!(compiler.wasm_code[1], 0);
}

#[test]
fn test_webassembly_js_wrapper_generation() {
    let mut compiler = WebAssemblyCompiler::new();
    compiler.emit_header();

    let js_wrapper = compiler.generate_js_wrapper();
    assert!(js_wrapper.contains("GreaseWasm"));
    assert!(js_wrapper.contains("WebAssembly"));
    assert!(js_wrapper.contains("loadGreaseWasm"));
}

#[test]
fn js_wrapper_lists_the_code_bytes() {
    let mut compiler = WebAssemblyCompiler::new();
    compiler.emit_i32_const(-1);
    let js = compiler.generate_js_wrapper();
    assert!(js.contains("65, 127"));
}

#[test]
fn negative_constants_use_signed_leb128() {
    let mut compiler = WebAssemblyCompiler::new();
    compiler.emit_i32_const(-129);
    assert_eq!(compiler.wasm_code, vec![0x41, 0xff, 0x7e]);
    let mut c2 = WebAssemblyCompiler::new();
    c2.emit_i32_const(624485);
    assert_eq!(c2.wasm_code, vec![0x41, 0xe5, 0x8e, 0x26]);
}

fn chunk(code: Vec<u8>, constants: Vec<Value>) -> Chunk {
    let n = code.len();
    Chunk { code, constants, lines: vec![0; n] }
}

#[test]
fn compile_bytecode_builds_a_module() {
    let mut compiler = WebAssemblyCompiler::new();
    // Every byte is read as an instruction: the operand 0 is a constant again, whose
    // operand 13 lies past the constants, and 13 is the return.
    let c = chunk(vec![OpCode::Constant.to_byte(), 0, OpCode::Return.to_byte()], vec![Value::Number("7".to_string())]);
    assert!(compiler.compile_bytecode(&c, &vec![7]).is_ok());
    let code = &compiler.wasm_code;
    assert_eq!(code[0..8], [0x00, 0x61, 0x73, 0x6d, 0x01, 0x00, 0x00, 0x00]);
    let n = code.len();
    assert_eq!(code[n - 9..], [0x0a, 8, 0x01, 5, 0x00, 0x41, 7, 0x0b, 0x0b][..]);
}

#[test]
fn compile_bytecode_of_arithmetic() {
    let mut compiler = WebAssemblyCompiler::new();
    let c = chunk(vec![OpCode::Add.to_byte(), OpCode::Less.to_byte(), OpCode::Return.to_byte()], vec![]);
    assert!(compiler.compile_bytecode(&c, &vec![]).is_ok());
    let code = &compiler.wasm_code;
    let n = code.len();
    assert_eq!(code[n - 9..], [0x0a, 8, 0x01, 5, 0x00, 0x6a, 0x48, 0x0b, 0x0b][..]);
}

#[test]
fn compile_bytecode_refuses_unsupported_instructions() {
    let mut compiler = WebAssemblyCompiler::new();
    let c = chunk(vec![OpCode::Pop.to_byte()], vec![]);
    let r = compiler.compile_bytecode(&c, &vec![]);
    assert_eq!(r, Err("Unsupported opcode: Pop".to_string()));
}

#[test]
fn runtime_stats_follow_initialization() {
    let mut runtime = WebAssemblyRuntime::new();
    let before = runtime.get_stats();
    assert!(!before.initialized);
    runtime.initialize().unwrap();
    let after = runtime.get_stats();
    assert!(after.initialized);
}

#[test]
fn compile_bytecode_stops_before_a_trailing_constant() {
    let mut compiler = WebAssemblyCompiler::new();
    let c = chunk(vec![OpCode::Null.to_byte(), OpCode::Constant.to_byte()], vec![]);
    assert_eq!(compiler.compile_bytecode(&c, &vec![]), Err("Unsupported opcode: Null".to_string()));
}
