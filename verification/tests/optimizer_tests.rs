use doublejit_vm::codegen::optimizer::{OptLevel, WatOptimizer};

#[test]
fn test_constant_propagation() {
    let wat = "i64.const 42\nglobal.set $x5\nglobal.get $x5\nglobal.get $x5";

    let mut optimizer = WatOptimizer::new(OptLevel::Basic);
    let optimized = optimizer.optimize(wat);

    assert!(optimized.contains("i64.const 42"));
}

#[test]
fn test_peephole_add_zero() {
    let wat = "\n        i64.const 0\n        i64.add\n        ";

    let mut optimizer = WatOptimizer::new(OptLevel::Moderate);
    let optimized = optimizer.optimize(wat);

    assert!(!optimized.contains("i64.add"));
    assert!(optimizer.stats().peephole_optimizations > 0);
}

#[test]
fn test_peephole_const_folding() {
    let wat = "\n        i64.const 10\n        i64.const 32\n        i64.add\n        ";

    let mut optimizer = WatOptimizer::new(OptLevel::Moderate);
    let optimized = optimizer.optimize(wat);

    assert!(optimized.contains("i64.const 42"));
    assert!(optimizer.stats().peephole_optimizations > 0);
}

#[test]
fn test_dead_code_elimination() {
    let wat = "\n        return\n        i64.const 1\n        global.set $x5\n        end\n        ";

    let mut optimizer = WatOptimizer::new(OptLevel::Basic);
    let optimized = optimizer.optimize(wat);

    assert!(!optimized.contains("global.set $x5"));
    assert!(optimizer.stats().dead_code_eliminated > 0);
}

#[test]
fn test_redundant_store_elimination() {
    let wat = "global.set $x5\nglobal.set $x5";

    let mut optimizer = WatOptimizer::new(OptLevel::Moderate);
    let optimized = optimizer.optimize(wat);

    assert!(optimized.len() > 0);
}

#[test]
fn test_no_optimization_at_none_level() {
    let wat = "\n        i64.const 0\n        i64.add\n        ";

    let mut optimizer = WatOptimizer::new(OptLevel::Off);
    let optimized = optimizer.optimize(wat);

    assert_eq!(wat.trim(), optimized.trim());
    assert_eq!(optimizer.stats().total(), 0);
}

#[test]
fn redundant_store_drops_first_of_pair() {
    let wat = "global.set $x5\nglobal.set $x5";

    let mut optimizer = WatOptimizer::new(OptLevel::Moderate);
    let optimized = optimizer.optimize(wat);

    assert_eq!(optimized.matches("global.set $x5").count(), 1);
    assert_eq!(optimizer.stats().redundant_stores_eliminated, 1);
}

#[test]
fn redundant_load_keeps_one_copy() {
    let wat = "global.get $x10\nglobal.get $x10";

    let mut optimizer = WatOptimizer::new(OptLevel::Aggressive);
    let optimized = optimizer.optimize(wat);

    assert_eq!(optimized.matches("global.get $x10").count(), 1);
    assert!(optimizer.stats().redundant_loads_eliminated > 0);
}

#[test]
fn branch_on_constant_zero_keeps_else_arm() {
    let wat = "i64.const 0\nif\ni64.const 1\nglobal.set $x6\nelse\ni64.const 2\nglobal.set $x7\nend";

    let mut optimizer = WatOptimizer::new(OptLevel::Aggressive);
    let optimized = optimizer.optimize(wat);

    assert!(!optimized.contains("global.set $x6"));
    assert!(optimized.contains("global.set $x7"));
    assert!(optimizer.stats().branches_simplified > 0);
}

#[test]
fn off_level_is_verbatim_even_for_rewritable_text() {
    let wat = "i64.const 10\ni64.const 32\ni64.add\n";

    let mut optimizer = WatOptimizer::new(OptLevel::Off);
    let optimized = optimizer.optimize(wat);

    assert_eq!(wat, optimized);
    assert_eq!(optimizer.stats().total(), 0);
}
