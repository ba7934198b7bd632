use grease::bytecode::{Chunk, Value};
use grease::jit::{JITCompiler, JITEngine, MemoryPage};

fn chunk(code: Vec<u8>) -> Chunk {
    let n = code.len();
    Chunk { code, constants: vec![], lines: vec![0; n] }
}

#[test]
fn jit_availability_by_target() {
    assert!(JITCompiler::is_available("x86_64", "linux"));
    assert!(JITCompiler::is_available("x86_64", "macos"));
    assert!(!JITCompiler::is_available("aarch64", "linux"));
    assert!(!JITCompiler::is_available("x86_64", "windows"));
}

#[test]
fn memory_page_writes_and_overflows() {
    let mut page = MemoryPage::new(8).unwrap();
    assert_eq!(page.write(&[1, 2, 3]), Ok(0));
    assert_eq!(page.write(&[4, 5]), Ok(3));
    assert_eq!(page.offset, 5);
    assert_eq!(page.write(&[0; 4]), Err("Memory page overflow".to_string()));
    assert_eq!(page.memory[..5], [1, 2, 3, 4, 5]);
}

#[test]
fn compile_chunk_caches_by_size() {
    let mut jit = JITCompiler::new();
    let f = jit.compile_chunk(&chunk(vec![13])).unwrap();
    assert_eq!(f.code_size, 11);
    assert_eq!(f.arity, 0);
    assert_eq!(f.page, 0);
    let g = jit.compile_chunk(&chunk(vec![14])).unwrap();
    assert_eq!(f, g);
    let h = jit.compile_chunk(&chunk(vec![13, 13])).unwrap();
    assert_eq!(h.page, 1);
}

#[test]
fn execute_checks_the_arity() {
    let mut jit = JITCompiler::new();
    let f = jit.compile_chunk(&chunk(vec![13])).unwrap();
    match jit.execute_function(&f, vec![]) {
        Ok(Value::Number(n)) => assert_eq!(n, "42"),
        _ => panic!("expected 42"),
    }
    assert_eq!(jit.execute_function(&f, vec![Value::Null]).err(), Some("Expected 0 arguments, got 1".to_string()));
}

#[test]
fn engine_enable_and_stats() {
    let mut engine = JITEngine::new("aarch64", "linux");
    assert!(!engine.is_enabled());
    engine.set_enabled(true);
    assert!(!engine.is_enabled());
    assert_eq!(engine.execute_chunk(&chunk(vec![13])).err(), Some("JIT compilation is not enabled".to_string()));

    let mut engine = JITEngine::new("x86_64", "linux");
    assert!(engine.is_enabled());
    assert!(engine.execute_chunk(&chunk(vec![13])).is_ok());
    let stats = engine.get_stats();
    assert!(stats.enabled);
    assert_eq!(stats.compiled_functions, 1);
    assert_eq!(stats.memory_pages, 1);
    engine.set_enabled(false);
    assert!(!engine.is_enabled());
}

#[test]
fn jit_cannot_be_enabled_where_unavailable() {
    let mut engine = JITEngine::new("riscv64", "linux");
    assert!(!engine.is_enabled());
    engine.set_enabled(true);
    assert!(!engine.is_enabled());
    assert!(!engine.get_stats().enabled);
}
