// End-to-end runs of small guest programs: decode with the library, lower
// with the verified emitter, and execute the emitted dispatch fragments
// with a small reference evaluator of the WebAssembly text subset the
// emitter produces, driving syscalls through the library's decision
// function.

use doublejit_vm::frontend::instruction::Instruction;
use doublejit_vm::middleend::emit_wasm::WasmEmitter;
use doublejit_vm::runtime::syscall::{syscall_decision, SyscallAction};

const MEM_SIZE: usize = 2 * 1024 * 1024;

struct Machine {
    x: [i64; 32],
    pc: u64,
    instr_count: u64,
    vl: i64,
    vtype: i64,
    exit_flag: i32,
    mem: Vec<u8>,
    stack: Vec<i64>,
    brk: u64,
    exit_code: Option<i64>,
    out: Vec<u8>,
}

impl Machine {
    fn new() -> Machine {
        Machine {
            x: [0; 32],
            pc: 0,
            instr_count: 0,
            vl: 0,
            vtype: 0,
            exit_flag: 0,
            mem: vec![0; MEM_SIZE],
            stack: Vec::new(),
            brk: 0x100000,
            exit_code: None,
            out: Vec::new(),
        }
    }

    fn get_global(&self, name: &str) -> i64 {
        match name {
            "$pc" => self.pc as i64,
            "$instr_count" => self.instr_count as i64,
            "$vl" => self.vl,
            "$vtype" => self.vtype,
            _ => {
                let n: usize = name.strip_prefix("$x").unwrap().parse().unwrap();
                self.x[n]
            }
        }
    }

    fn set_global(&mut self, name: &str, v: i64) {
        match name {
            "$pc" => self.pc = v as u64,
            "$instr_count" => self.instr_count = v as u64,
            "$vl" => self.vl = v,
            "$vtype" => self.vtype = v,
            _ => {
                let n: usize = name.strip_prefix("$x").unwrap().parse().unwrap();
                self.x[n] = v;
            }
        }
    }

    fn load(&self, addr: u32, n: usize) -> u64 {
        let mut v: u64 = 0;
        for i in 0..n {
            v |= (self.mem[addr as usize + i] as u64) << (8 * i);
        }
        v
    }

    fn store(&mut self, addr: u32, v: u64, n: usize) {
        for i in 0..n {
            self.mem[addr as usize + i] = ((v >> (8 * i)) & 0xFF) as u8;
        }
    }

    fn syscall(&mut self) {
        let a6 = self.stack.pop().unwrap();
        let a5 = self.stack.pop().unwrap();
        let a4 = self.stack.pop().unwrap();
        let a3 = self.stack.pop().unwrap();
        let a2 = self.stack.pop().unwrap();
        let a1 = self.stack.pop().unwrap();
        let num = self.stack.pop().unwrap();
        let (action, new_brk) = syscall_decision(num, a1, a2, a3, a4, a5, a6, self.brk);
        self.brk = new_brk;
        let ret = match action {
            SyscallAction::Ret(v) => v,
            SyscallAction::Exit(code) => {
                self.exit_flag = 1;
                self.exit_code = Some(code);
                code
            }
            SyscallAction::WriteOut { fd: _, addr, len } => {
                let from = addr as usize;
                let to = from + len as usize;
                self.out.extend_from_slice(&self.mem[from..to]);
                len as i64
            }
            SyscallAction::WriteVec { .. } => 0,
            SyscallAction::MemWrites { writes, ret } => {
                for (addr, bytes) in writes {
                    self.mem[addr as usize..addr as usize + bytes.len()].copy_from_slice(&bytes);
                }
                ret
            }
        };
        self.stack.push(ret);
    }
}

/// Skip from a taken-`if` (or reached-`else`) to its matching branch point:
/// returns the line index to continue at.
fn skip_to(lines: &[&str], mut i: usize, stop_at_else: bool) -> usize {
    let mut depth = 1usize;
    while i < lines.len() {
        let t = lines[i].trim();
        if t == "if" {
            depth += 1;
        } else if t == "end" {
            depth -= 1;
            if depth == 0 {
                return i + 1;
            }
        } else if t == "else" && depth == 1 && stop_at_else {
            return i + 1;
        }
        i += 1;
    }
    i
}

/// One pass over the fragment text: the body of one interpreter-loop
/// iteration.
fn run_pass(m: &mut Machine, lines: &[&str]) {
    let mut i = 0usize;
    while i < lines.len() {
        let t = lines[i].trim();
        i += 1;
        if t.is_empty() || t.starts_with(";;") {
            continue;
        }
        if let Some(g) = t.strip_prefix("global.get ") {
            let v = m.get_global(g);
            m.stack.push(v);
        } else if let Some(g) = t.strip_prefix("global.set ") {
            let v = m.stack.pop().unwrap();
            m.set_global(g, v);
        } else if let Some(c) = t.strip_prefix("i64.const ") {
            m.stack.push(c.parse::<i64>().unwrap());
        } else if let Some(c) = t.strip_prefix("i32.const ") {
            m.stack.push(c.parse::<i32>().unwrap() as u32 as i64);
        } else if t == "if" {
            let c = m.stack.pop().unwrap();
            if (c as u32) == 0 {
                i = skip_to(lines, i, true);
            }
        } else if t == "else" {
            i = skip_to(lines, i, false);
        } else if t == "end" {
            // close of a structured block
        } else if t == "drop" {
            m.stack.pop().unwrap();
        } else if t == "call $vaddr_to_offset" {
            let v = m.stack.pop().unwrap();
            m.stack.push((v as u64 as u32) as i64);
        } else if t == "call $syscall" {
            m.syscall();
        } else {
            let b = if matches!(
                t,
                "i64.eqz" | "i32.eqz" | "i32.wrap_i64" | "i64.extend_i32_s" | "i64.extend_i32_u"
            ) || t.starts_with("i32.load") || t.starts_with("i64.load") {
                0
            } else {
                m.stack.pop().unwrap()
            };
            let a = m.stack.pop().unwrap();
            let r: i64 = match t {
                "i64.add" => a.wrapping_add(b),
                "i64.sub" => a.wrapping_sub(b),
                "i64.mul" => a.wrapping_mul(b),
                "i64.and" => a & b,
                "i64.or" => a | b,
                "i64.xor" => a ^ b,
                "i64.shl" => a.wrapping_shl((b & 63) as u32),
                "i64.shr_u" => ((a as u64) >> ((b & 63) as u32)) as i64,
                "i64.shr_s" => a >> ((b & 63) as u32),
                "i64.div_s" => a.wrapping_div(b),
                "i64.div_u" => ((a as u64) / (b as u64)) as i64,
                "i64.rem_s" => a.wrapping_rem(b),
                "i64.rem_u" => ((a as u64) % (b as u64)) as i64,
                "i64.eq" => (a == b) as i64,
                "i64.ne" => (a != b) as i64,
                "i64.lt_s" => (a < b) as i64,
                "i64.lt_u" => ((a as u64) < (b as u64)) as i64,
                "i64.ge_s" => (a >= b) as i64,
                "i64.ge_u" => ((a as u64) >= (b as u64)) as i64,
                "i64.eqz" => (a == 0) as i64,
                "i32.eqz" => ((a as u32) == 0) as i64,
                "i32.wrap_i64" => (a as u64 as u32) as i64,
                "i64.extend_i32_s" => (a as u32 as i32) as i64,
                "i64.extend_i32_u" => (a as u32) as i64,
                "i32.add" => (a as i32).wrapping_add(b as i32) as u32 as i64,
                "i32.sub" => (a as i32).wrapping_sub(b as i32) as u32 as i64,
                "i32.mul" => (a as i32).wrapping_mul(b as i32) as u32 as i64,
                "i32.and" => ((a as u32) & (b as u32)) as i64,
                "i32.shl" => (a as i32).wrapping_shl((b & 31) as u32) as u32 as i64,
                "i32.shr_u" => ((a as u32) >> ((b & 31) as u32)) as i64,
                "i32.shr_s" => ((a as i32) >> ((b & 31) as u32)) as u32 as i64,
                "i32.div_s" => (a as i32).wrapping_div(b as i32) as u32 as i64,
                "i32.div_u" => ((a as u32) / (b as u32)) as i64,
                "i32.rem_s" => (a as i32).wrapping_rem(b as i32) as u32 as i64,
                "i32.rem_u" => ((a as u32) % (b as u32)) as i64,
                "i32.load8_s" => (m.load(a as u32, 1) as u8 as i8) as i32 as u32 as i64,
                "i32.load8_u" => m.load(a as u32, 1) as i64,
                "i32.load16_s" => (m.load(a as u32, 2) as u16 as i16) as i32 as u32 as i64,
                "i32.load16_u" => m.load(a as u32, 2) as i64,
                "i32.load" => m.load(a as u32, 4) as i64,
                "i64.load" => m.load(a as u32, 8) as i64,
                "i32.store8" | "i32.store16" | "i32.store" | "i64.store" => {
                    let n = match t {
                        "i32.store8" => 1,
                        "i32.store16" => 2,
                        "i32.store" => 4,
                        _ => 8,
                    };
                    m.store(a as u32, b as u64, n);
                    continue;
                }
                other => panic!("the evaluator does not know the line {:?}", other),
            };
            m.stack.push(r);
        }
    }
}

/// Run a guest program to its exit: decode, emit, iterate the dispatch
/// fragments while the exit flag stays clear.
fn run_program(
    words: &[u32],
    base_pc: u64,
    init_regs: &[(usize, i64)],
    data: Option<(usize, Vec<u8>)>,
) -> Machine {
    let mut emitter = WasmEmitter::new();
    let mut pc = base_pc;
    for w in words {
        let instr = Instruction::parse(&w.to_le_bytes());
        emitter.emit_instruction(pc, &instr).unwrap();
        pc += 4;
    }
    let body = emitter.finalize();
    let lines: Vec<&str> = body.lines().collect();

    let mut m = Machine::new();
    m.pc = base_pc;
    for (r, v) in init_regs {
        m.x[*r] = *v;
    }
    if let Some((addr, bytes)) = data {
        m.mem[addr..addr + bytes.len()].copy_from_slice(&bytes);
    }
    assert_eq!(m.exit_flag, 0, "the exit flag must be clear at module entry");

    let mut budget = 100000;
    loop {
        run_pass(&mut m, &lines);
        assert!(m.stack.is_empty(), "a pass must leave the operand stack empty");
        if m.exit_flag != 0 {
            break;
        }
        budget -= 1;
        assert!(budget > 0, "the guest must reach its exit");
    }
    m
}

#[test]
fn nop_then_exit_retires_two_instructions() {
    // addi x0, x0, 0 ; ecall with x17 = 93, x10 = 0
    let words = [0x00000013u32, 0x00000073];
    let m = run_program(&words, 0x80000000, &[(17, 93)], None);
    assert_eq!(m.exit_code, Some(0));
    assert_eq!(m.instr_count, 2);
}

#[test]
fn addi_chain_computes_forty_two() {
    // addi x10, x0, 7 ; addi x11, x0, 35 ; add x10, x10, x11 ; ecall(93)
    let words = [0x00700513u32, 0x02300593, 0x00B50533, 0x00000073];
    let m = run_program(&words, 0x1000, &[(17, 93)], None);
    assert_eq!(m.exit_code, Some(42));
    assert_eq!(m.x[10], 42);
    assert_eq!(m.instr_count, 4);
}

#[test]
fn taken_branch_skips_the_fallthrough_path() {
    // addi x5,x0,1 ; addi x6,x0,1 ; beq x5,x6,+8 ; addi x10,x0,1 ; ecall(93) ;
    // addi x10,x0,0 ; ecall(93)
    let words = [
        0x00100293u32,
        0x00100313,
        0x00628463,
        0x00100513,
        0x00000073,
        0x00000513,
        0x00000073,
    ];
    let m = run_program(&words, 0x1000, &[(17, 93)], None);
    assert_eq!(m.exit_code, Some(0));
}

#[test]
fn jal_and_ret_reach_the_exit_with_ninety_nine() {
    // jal x1, +12 ; addi x10,x0,99 ; ecall(93) ; jalr x0, x1, 0
    let words = [0x00C000EFu32, 0x06300513, 0x00000073, 0x00008067];
    let m = run_program(&words, 0x1000, &[(17, 93)], None);
    assert_eq!(m.exit_code, Some(99));
    assert_eq!(m.x[1], 0x1004);
}

#[test]
fn load_round_trips_through_guest_memory() {
    // lui x5, 0x11 ; ld x10, 0(x5) ; ecall(93)
    let words = [0x000112B7u32, 0x0002B503, 0x00000073];
    let data = vec![0x2A, 0, 0, 0, 0, 0, 0, 0];
    let m = run_program(&words, 0x1000, &[(17, 93)], Some((0x11000, data)));
    assert_eq!(m.exit_code, Some(42));
}

#[test]
fn store_then_load_observes_the_written_byte() {
    // lui x5, 0x12 ; addi x6, x0, 77 ; sb x6, 0(x5) ; lb x10, 0(x5) ; ecall(93)
    let words = [0x000122B7u32, 0x04D00313, 0x00628023, 0x00028503, 0x00000073];
    let m = run_program(&words, 0x1000, &[(17, 93)], None);
    assert_eq!(m.exit_code, Some(77));
    assert_eq!(m.mem[0x12000], 77);
}

#[test]
fn guest_write_reaches_the_host_stream() {
    // lui x11, 0x11 ; addi x12, x0, 6 ; addi x17, x0, 64 ; addi x10, x0, 1 ;
    // ecall ; addi x17, x0, 93 ; addi x10, x0, 0 ; ecall
    let words = [
        0x000115B7u32,
        0x00600613,
        0x04000893,
        0x00100513,
        0x00000073,
        0x05D00893,
        0x00000513,
        0x00000073,
    ];
    let msg = b"hello\n".to_vec();
    let m = run_program(&words, 0x1000, &[], Some((0x11000, msg.clone())));
    assert_eq!(m.out, msg);
    assert_eq!(m.exit_code, Some(0));
}

#[test]
fn divide_by_zero_answers_all_ones_without_a_trap() {
    // addi x5, x0, 9 ; addi x6, x0, 0 ; divu x10, x5, x6 ; ecall(93)
    let words = [0x00900293u32, 0x00000313, 0x0262D533, 0x00000073];
    let m = run_program(&words, 0x1000, &[(17, 93)], None);
    assert_eq!(m.x[10], -1);
}
