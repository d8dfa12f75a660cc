use doublejit_vm::frontend::instruction::{
    Imm, ImmKind, Instr, Instruction, RV32I, RV32Instr, RV64I, RV64Instr, Rd, Rs1,
};
use doublejit_vm::middleend::emit_wasm::WasmEmitter;

#[test]
fn test_emitter_creation() {
    let emitter = WasmEmitter::new();
    assert_eq!(emitter.instr_count, 0);
}

#[test]
fn test_function_generation() {
    let mut emitter = WasmEmitter::new();
    emitter.start_function("test");
    emitter.end_function();
    let wat = emitter.finalize();
    assert!(wat.contains("(func $test"));
}

#[test]
fn addi_fragment_guards_on_pc_and_advances_it() {
    let mut emitter = WasmEmitter::new();
    let instr = Instruction::parse(&[0x13, 0x05, 0x70, 0x00]);  // addi x10, x0, 7
    assert!(emitter.emit_instruction(0x1000, &instr).is_ok());
    let wat = emitter.finalize();
    assert!(wat.contains("global.get $pc"));
    assert!(wat.contains("i64.const 4096"));
    assert!(wat.contains("i64.const 7"));
    assert!(wat.contains("i64.add"));
    assert!(wat.contains("global.set $x10"));
    assert!(wat.contains("global.set $instr_count"));
    assert!(wat.contains("i64.const 4\n    i64.add\n    global.set $pc"));
}

#[test]
fn writes_to_the_zero_register_are_suppressed() {
    let mut emitter = WasmEmitter::new();
    let instr = Instruction::parse(&[0x93, 0x00, 0x10, 0x00]);  // addi x1, x0, 1
    let nop_like = Instruction {
        instr: Instr::RV32(RV32Instr::RV32I(RV32I::ADDI(
            Rd(0),
            Rs1(5),
            Imm { kind: ImmKind::I, bits: 1 },
        ))),
    };
    assert!(emitter.emit_instruction(0x1000, &instr).is_ok());
    assert!(emitter.emit_instruction(0x1004, &nop_like).is_ok());
    let wat = emitter.finalize();
    assert!(wat.contains("global.set $x1"));
    assert!(!wat.contains("global.set $x0"));
    assert!(wat.contains("drop"));
}

#[test]
fn branch_fragment_writes_pc_on_both_paths() {
    let mut emitter = WasmEmitter::new();
    let beq = Instruction::parse(&[0x63, 0x84, 0x62, 0x00]);  // beq x5, x6, +8
    assert!(emitter.emit_instruction(0x1000, &beq).is_ok());
    assert_eq!(emitter.instr_count, 1);
    let wat = emitter.finalize();
    assert!(wat.contains("i64.eq"));
    assert!(wat.contains("else"));
    assert!(wat.contains("i64.const 8"));
}

#[test]
fn ecall_fragment_passes_the_seven_syscall_registers() {
    let mut emitter = WasmEmitter::new();
    let ecall = Instruction::parse(&[0x73, 0x00, 0x00, 0x00]);
    assert!(emitter.emit_instruction(0x1000, &ecall).is_ok());
    let wat = emitter.finalize();
    assert!(wat.contains("global.get $x17"));
    assert!(wat.contains("global.get $x15"));
    assert!(wat.contains("call $syscall"));
    assert!(wat.contains("global.set $x10"));
}

#[test]
fn loop_closes_with_the_exit_check() {
    let mut emitter = WasmEmitter::new();
    emitter.start_function("translated_code");
    emitter.start_loop();
    emitter.end_loop_with_exit_check();
    emitter.end_function();
    let wat = emitter.finalize();
    assert!(wat.contains("(loop $interpreter_loop"));
    assert!(wat.contains("global.get $exit_flag"));
    assert!(wat.contains("br_if $interpreter_loop"));
}

#[test]
fn decode_covers_the_base_arithmetic_forms() {
    let add = Instruction::parse(&[0x33, 0x05, 0xB5, 0x00]);  // add x10, x10, x11
    match add.instr {
        Instr::RV32(RV32Instr::RV32I(RV32I::ADD(Rd(10), Rs1(10), rs2))) => {
            assert_eq!(rs2.0, 11);
        },
        other => panic!("decoded {:?}", other),
    }

    let ld = Instruction::parse(&[0x03, 0xB5, 0x02, 0x00]);  // ld x10, 0(x5)
    match ld.instr {
        Instr::RV64(RV64Instr::RV64I(RV64I::LD(Rd(10), Rs1(5), imm))) => {
            assert_eq!(imm.signed(), 0);
        },
        other => panic!("decoded {:?}", other),
    }
}

#[test]
fn decode_is_total_over_arbitrary_words() {
    // a spread of byte patterns, none of which may panic or fail to decode
    let mut w: u32 = 0x9E3779B9;
    for _ in 0..4096 {
        let bytes = w.to_le_bytes();
        let _ = Instruction::parse(&bytes);
        w = w.wrapping_mul(0x2545F491).wrapping_add(0x9E3779B9);
    }
    let all_ones = Instruction::parse(&[0xFF, 0xFF, 0xFF, 0xFF]);
    match all_ones.instr {
        Instr::RV32(_) | Instr::RV64(_) | Instr::NOP | Instr::Compressed(_)
        | Instr::Unknown(_) => {},
    }
}

#[test]
fn two_byte_words_are_surfaced_as_compressed() {
    // low two bits not 0b11: a 16-bit encoding, read from two bytes alone
    let c = Instruction::parse(&[0x01, 0x45]);
    assert_eq!(c.instr, Instr::Compressed(0x4501));

    let c2 = Instruction::parse(&[0x02, 0x90, 0xAA, 0xBB]);
    assert_eq!(c2.instr, Instr::Compressed(0x9002));
}

#[test]
fn the_canonical_nop_decodes_as_nop() {
    let nop = Instruction::parse(&[0x13, 0x00, 0x00, 0x00]);
    assert_eq!(nop.instr, Instr::NOP);
}

#[test]
fn upper_immediates_shift_by_twelve() {
    let lui = Instruction::parse(&[0xB7, 0x12, 0x01, 0x00]);  // lui x5, 0x11
    match lui.instr {
        Instr::RV32(RV32Instr::RV32I(RV32I::LUI(Rd(5), imm))) => {
            assert_eq!(imm.raw_shifted(), 0x11000);
        },
        other => panic!("decoded {:?}", other),
    }
}
