use doublejit_vm::codegen::regmap;
use doublejit_vm::codegen::regmap::{RegisterMap, RegisterStats};

#[test]
fn test_register_map_creation() {
    let map = RegisterMap::new();
    assert_eq!(map.get_global_name(0), Some("$x0"));
    assert_eq!(map.get_global_name(31), Some("$x31"));
    assert_eq!(map.get_global_name(32), None);
}

#[test]
fn test_register_tracking() {
    let mut map = RegisterMap::new();
    map.mark_read(10);
    map.mark_written(11);

    assert!(map.is_read(10));
    assert!(map.is_written(11));
    assert!(!map.is_read(12));
}

#[test]
fn test_dead_store_detection() {
    let mut map = RegisterMap::new();
    map.mark_written(5);
    map.mark_read(6);
    map.mark_written(6);

    let dead = map.get_dead_stores();
    assert!(dead.contains(&5));
    assert!(!dead.contains(&6));
}

#[test]
fn test_abi_names() {
    assert_eq!(regmap::get_abi_name(regmap::ZERO), "zero");
    assert_eq!(regmap::get_abi_name(regmap::SP), "sp");
    assert_eq!(regmap::get_abi_name(regmap::RA), "ra");
    assert!(regmap::is_caller_saved(regmap::T0));
    assert!(regmap::is_callee_saved(regmap::S0_FP));
}

#[test]
fn test_register_stats() {
    let mut stats = RegisterStats::new();
    stats.record_read(10);
    stats.record_read(10);
    stats.record_write(10);
    stats.update_pressure(15);

    assert_eq!(stats.get_read_count(10), 2);
    assert_eq!(stats.get_write_count(10), 1);
    assert_eq!(stats.max_pressure(), 15);
}

#[test]
fn most_used_registers_orders_by_reads() {
    let mut stats = RegisterStats::new();
    stats.record_read(3);
    stats.record_read(7);
    stats.record_read(7);
    stats.record_read(7);
    stats.record_read(9);
    stats.record_read(9);

    let top = stats.most_used_registers(2);
    assert_eq!(top.len(), 2);
    assert_eq!(top[0], (7, 3));
    assert_eq!(top[1], (9, 2));
}

#[test]
fn zero_register_is_never_tracked() {
    let mut map = RegisterMap::new();
    map.mark_read(0);
    map.mark_written(0);
    assert!(!map.is_read(0));
    assert!(!map.is_written(0));
    assert_eq!(map.live_count(), 0);
}
