use doublejit_vm::frontend::elf::{Class, ElfFile, Machine, SectionHeader};
use doublejit_vm::middleend::address_map::AddressMap;

/// A minimal 64-bit little-endian file: the two header parts, one section
/// header table with a null entry, a string table, and one data section.
fn tiny_elf() -> Vec<u8> {
    let mut b = vec![0u8; 64];
    b[0] = 0x7F;
    b[1] = b'E';
    b[2] = b'L';
    b[3] = b'F';
    b[4] = 2;  // 64-bit
    b[5] = 1;  // little-endian
    b[6] = 1;
    // type = executable
    b[16] = 2;
    // machine
    b[18] = 0xF3;
    // version
    b[20] = 1;
    // entry point 0x80000000
    b[24..32].copy_from_slice(&0x80000000u64.to_le_bytes());
    // section header table directly after: 3 entries of 64 bytes at offset 64
    b[40..48].copy_from_slice(&64u64.to_le_bytes());
    b[58..60].copy_from_slice(&64u16.to_le_bytes());  // sh_entry_size
    b[60..62].copy_from_slice(&3u16.to_le_bytes());  // sh_count
    b[62..64].copy_from_slice(&1u16.to_le_bytes());  // shstrndx

    let mut sh = vec![0u8; 64 * 3];
    // entry 1: the string table itself, type 3, at file offset 256, size 16
    sh[64..68].copy_from_slice(&1u32.to_le_bytes());  // name index 1 (".shstrtab"-ish)
    sh[68..72].copy_from_slice(&3u32.to_le_bytes());
    sh[64 + 24..64 + 32].copy_from_slice(&256u64.to_le_bytes());
    sh[64 + 32..64 + 40].copy_from_slice(&16u64.to_le_bytes());
    // entry 2: ".data", alloc+write, vaddr 0x2000, file offset 272, size 4
    sh[128..132].copy_from_slice(&10u32.to_le_bytes());  // name index of ".data"
    sh[132..136].copy_from_slice(&1u32.to_le_bytes());  // PROGBITS
    sh[128 + 8..128 + 16].copy_from_slice(&3u64.to_le_bytes());  // WRITE|ALLOC
    sh[128 + 16..128 + 24].copy_from_slice(&0x2000u64.to_le_bytes());
    sh[128 + 24..128 + 32].copy_from_slice(&272u64.to_le_bytes());
    sh[128 + 32..128 + 40].copy_from_slice(&4u64.to_le_bytes());
    b.extend_from_slice(&sh);

    // string table at 256: "\0shstrtab\0.data\0"
    let strtab = b"\0shstrtab\0.data\0";
    assert_eq!(b.len(), 256);
    b.extend_from_slice(strtab);
    // data section bytes at 272
    b.extend_from_slice(&[9, 9, 9, 9]);
    b
}

#[test]
fn header_fields_read_back() {
    let bytes = tiny_elf();
    let elf = ElfFile::new(&bytes).expect("well-formed prefix");
    assert_eq!(elf.header_part1.get_class(), Class::SixtyFour);
    assert_eq!(elf.header_part2.get_machine(), Machine::RISCV);
    assert_eq!(elf.header_part2.get_entry_point(), 0x80000000);
    assert_eq!(elf.header_part2.get_sh_count(), 3);
}

#[test]
fn short_and_misclassed_inputs_are_rejected() {
    assert!(ElfFile::new(&[0u8; 8]).is_err());
    let mut bad = tiny_elf();
    bad[4] = 9;
    assert!(ElfFile::new(&bad).is_err());
}

#[test]
fn section_walk_resolves_names_and_bytes() {
    let bytes = tiny_elf();
    let elf = ElfFile::new(&bytes).unwrap();
    let mut iter = elf.section_iter();
    let mut names: Vec<String> = Vec::new();
    let mut sections: Vec<SectionHeader> = Vec::new();
    while let Some(h) = iter.next() {
        names.push(h.get_name(&elf).unwrap_or_else(|_| String::new()));
        sections.push(h);
    }
    assert_eq!(names.len(), 3);
    assert_eq!(names[2], ".data");
    assert_eq!(sections[2].get_address(), 0x2000);
    assert_eq!(sections[2].raw_data(&elf), vec![9, 9, 9, 9]);
}

#[test]
fn address_map_collects_the_loadable_sections() {
    let bytes = tiny_elf();
    let elf = ElfFile::new(&bytes).unwrap();
    let mut iter = elf.section_iter();
    let mut sections: Vec<SectionHeader> = Vec::new();
    while let Some(h) = iter.next() {
        sections.push(h);
    }
    let map = AddressMap::from_sections(&elf, &sections);
    assert_eq!(map.memory_base, 0);
    assert_eq!(map.vaddr_base(), 0);
    assert_eq!(map.segments.len(), 1);
    assert_eq!(map.segments[0].vaddr, 0x2000);
    assert_eq!(map.vaddr_to_linear(0x2001), Some(0x2001));
    let inits = map.get_memory_initializers();
    assert_eq!(inits[0], (0x2000, vec![9, 9, 9, 9]));
}
