use grease::ast::{Expression, Statement};
use grease::bytecode::Value;
use grease::grease::parse_program;
use grease::performance::{DeadCodeEliminator, MemoryPool, PerformanceOptimizer, StringId, StringInterner};

#[test]
fn interning_twice_gives_one_id() {
    let mut interner = StringInterner::new();
    let a = interner.intern("alpha".to_string());
    let b = interner.intern("beta".to_string());
    let a2 = interner.intern("alpha".to_string());
    assert_eq!(a, a2);
    assert_ne!(a, b);
    assert_eq!(interner.len(), 2);
    assert_eq!(interner.get(b), Some("beta"));
    assert_eq!(interner.get(StringId(7)), None);
}

#[test]
fn pool_reuses_freed_slots() {
    let mut pool: MemoryPool<u32> = MemoryPool::new();
    let a = pool.allocate(10);
    let b = pool.allocate(20);
    assert_eq!((a, b), (0, 1));
    pool.deallocate(a);
    pool.deallocate(99);
    let c = pool.allocate(30);
    assert_eq!(c, a);
    assert_eq!(pool.get(c), Some(&30));
    assert_eq!(pool.get(5), None);
    assert!(pool.get_mut(1, 21));
    assert_eq!(pool.get(1), Some(&21));
}

#[test]
fn unused_declarations_are_removed() {
    let program = parse_program("a = 1\nb = 2\nprint(a)").unwrap();
    let mut eliminator = DeadCodeEliminator::new();
    let kept = eliminator.eliminate_dead_code(&program.statements);
    assert_eq!(kept.len(), 2);
    match &kept[0] {
        Statement::VariableDeclaration { name, .. } => assert_eq!(name.lexeme, "a"),
        _ => panic!("expected the declaration of a"),
    }
    assert!(matches!(&kept[1], Statement::Expression(Expression::Call { .. })));
}

#[test]
fn statements_other_than_declarations_are_kept() {
    let program = parse_program("print(1)\nprint(2)").unwrap();
    let mut eliminator = DeadCodeEliminator::new();
    let kept = eliminator.eliminate_dead_code(&program.statements);
    assert_eq!(kept.len(), program.statements.len());
}

#[test]
fn optimizer_counts() {
    let mut optimizer = PerformanceOptimizer::new();
    let s = optimizer.intern_string("x".to_string());
    optimizer.intern_string("x".to_string());
    assert_eq!(optimizer.get_interned_string(s), Some("x"));
    let i = optimizer.allocate_value(Value::Boolean(true));
    optimizer.allocate_value(Value::Null);
    optimizer.deallocate_value(i);
    let stats = optimizer.get_stats();
    assert_eq!(stats.interned_strings, 1);
    assert_eq!(stats.pooled_values, 2);
    assert_eq!(stats.free_values, 1);
    assert!(matches!(optimizer.get_value(1), Some(Value::Null)));
}

#[test]
fn memory_pool_reuses_the_last_freed_slot_and_keeps_others() {
    let mut pool: MemoryPool<u32> = MemoryPool::new();
    assert_eq!(pool.allocate(10), 0);
    assert_eq!(pool.allocate(11), 1);
    assert_eq!(pool.allocate(12), 2);
    pool.deallocate(0);
    pool.deallocate(2);
    assert_eq!(pool.allocate(20), 2);
    assert_eq!(pool.pooled_count(), 3);
    assert_eq!(pool.get(1), Some(&11));
    assert_eq!(pool.get(2), Some(&20));
    assert_eq!(pool.allocate(21), 0);
    assert_eq!(pool.allocate(22), 3);
    assert_eq!(pool.free_count(), 0);
}
