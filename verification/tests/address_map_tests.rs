use doublejit_vm::middleend::address_map::{AddressMap, MemorySegment};

#[test]
fn test_address_map_creation() {
    let map = AddressMap::new(0x10000);
    assert_eq!(map.memory_base, 0x10000);
    assert_eq!(map.segments.len(), 0);
}

#[test]
fn test_vaddr_translation() {
    let mut map = AddressMap::new(0x10000);

    map.segments.push(MemorySegment {
        vaddr: 0x80000000,
        size: 0x1000,
        data: Some(vec![0u8; 0x1000]),
        writable: true,
        executable: false,
    });
    map.offsets.push(0x10000);

    assert_eq!(map.vaddr_to_linear(0x80000000), Some(0x10000));
    assert_eq!(map.vaddr_to_linear(0x80000100), Some(0x10100));
    assert_eq!(map.vaddr_to_linear(0x80001000), None);
}

#[test]
fn test_memory_size_calculation() {
    let mut map = AddressMap::new(0x10000);

    map.segments.push(MemorySegment {
        vaddr: 0x80000000,
        size: 0x5000,
        data: None,
        writable: true,
        executable: false,
    });
    map.offsets.push(0x10000);

    assert_eq!(map.required_pages(), 2);
}

#[test]
fn initializers_pad_data_and_zero_bss() {
    let mut map = AddressMap::new(0);
    map.add_segment(
        MemorySegment {
            vaddr: 0x1000,
            size: 4,
            data: Some(vec![7, 8]),
            writable: true,
            executable: false,
        },
        0x1000,
    );
    map.add_segment(
        MemorySegment { vaddr: 0x2000, size: 3, data: None, writable: true, executable: false },
        0x2000,
    );

    let inits = map.get_memory_initializers();
    assert_eq!(inits.len(), 2);
    assert_eq!(inits[0].0, 0x1000);
    assert_eq!(inits[0].1, vec![7, 8, 0, 0]);
    assert_eq!(inits[1].0, 0x2000);
    assert_eq!(inits[1].1, vec![0, 0, 0]);
}
