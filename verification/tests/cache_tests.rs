use doublejit_vm::frontend::cache::{BasicBlock, CodeCache};
use doublejit_vm::frontend::instruction::Instruction;

#[test]
fn test_instruction_cache() {
    let mut cache = CodeCache::new();

    let nop = Instruction::parse(&[0x13, 0x00, 0x00, 0x00]);

    cache.cache_instruction(0x1000, nop.clone());

    let cached = cache.get_instruction(0x1000);
    assert!(cached.is_some());

    assert_eq!(cache.stats().instruction_hits, 1);
    assert_eq!(cache.stats().instruction_misses, 0);

    let not_cached = cache.get_instruction(0x2000);
    assert!(not_cached.is_none());
    assert_eq!(cache.stats().instruction_misses, 1);
}

#[test]
fn test_cache_limits() {
    let mut cache = CodeCache::with_limits(2, 2);

    let nop = Instruction::parse(&[0x13, 0x00, 0x00, 0x00]);

    cache.cache_instruction(0x1000, nop.clone());
    cache.cache_instruction(0x1004, nop.clone());
    assert_eq!(cache.instruction_count(), 2);

    cache.cache_instruction(0x1008, nop.clone());
    assert_eq!(cache.instruction_count(), 1);
}

#[test]
fn test_invalidate_range() {
    let mut cache = CodeCache::new();

    let nop = Instruction::parse(&[0x13, 0x00, 0x00, 0x00]);

    cache.cache_instruction(0x1000, nop.clone());
    cache.cache_instruction(0x1004, nop.clone());
    cache.cache_instruction(0x1008, nop.clone());
    cache.cache_instruction(0x2000, nop.clone());

    assert_eq!(cache.instruction_count(), 4);

    cache.invalidate_range(0x1000, 0x1008);

    assert_eq!(cache.instruction_count(), 1);
    assert!(cache.get_instruction(0x2000).is_some());
    assert!(cache.get_instruction(0x1000).is_none());
}

#[test]
fn invalidate_range_drops_overlapping_blocks_and_their_wat() {
    let mut cache = CodeCache::new();
    let nop = Instruction::parse(&[0x13, 0x00, 0x00, 0x00]);

    let inside = BasicBlock {
        start_addr: 0x1000,
        end_addr: 0x1010,
        instructions: vec![(0x1000, nop.clone())],
        wat_code: None,
    };
    let outside = BasicBlock {
        start_addr: 0x3000,
        end_addr: 0x3010,
        instructions: vec![(0x3000, nop.clone())],
        wat_code: None,
    };
    cache.cache_block(inside);
    cache.cache_block(outside);
    cache.cache_wat_code(0x1000, String::from("inside"));
    cache.cache_wat_code(0x3000, String::from("outside"));

    cache.invalidate_range(0x1000, 0x2000);

    assert_eq!(cache.block_count(), 1);
    assert!(cache.get_block(0x3000).is_some());
    assert!(cache.get_block(0x1000).is_none());
    assert!(cache.get_wat_code(0x3000).is_some());
    assert!(cache.get_wat_code(0x1000).is_none());
}

#[test]
fn newest_entry_answers_for_a_recached_address() {
    let mut cache = CodeCache::new();
    let nop = Instruction::parse(&[0x13, 0x00, 0x00, 0x00]);
    let add = Instruction::parse(&[0x33, 0x05, 0xB5, 0x00]);

    cache.cache_instruction(0x1000, nop);
    cache.cache_instruction(0x1000, add);

    assert_eq!(cache.get_instruction(0x1000), Some(add));
}
