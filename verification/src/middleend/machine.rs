//! The meaning of the emitted module's fragments.
//!
//! A `MState` is the state the translated code runs over: the operand stack,
//! the 32 register globals, `$pc`, `$instr_count`, the vector CSRs touched by
//! the lowering, `$exit_flag`, linear memory, and the two translation
//! constants of the `$vaddr_to_offset` helper.  `run_fragment` executes the
//! model of one emitted dispatch fragment; the lemmas at the end are the
//! lowering engine's laws.

use vstd::prelude::*;

use crate::frontend::instruction::{
    Imm, Instr, RV32I, RV32Instr, RV32M, RV64I, RV64Instr, RV64M, RVV, Rd, Rs1, Rs2, Shamt,
};
use crate::middleend::emit_wasm::{
    spec_lower, spec_lower_branch, spec_lower_div, spec_lower_div_w, spec_lower_imm_op,
    spec_lower_cmp_reg, spec_lower_imm_op_w, spec_lower_load, spec_lower_reg_op, spec_lower_reg_op_w, spec_lower_rem,
    spec_lower_rem_w, spec_lower_rv32i, spec_lower_rv32m, spec_lower_rv64i, spec_lower_rv64m,
    spec_lower_rvv, spec_lower_shift_imm, spec_lower_shift_reg, spec_lower_shift_reg_w,
    spec_lower_store, spec_modifies_pc, spec_pc_add, spec_set_rd, spec_signed_i64, spec_shifted_u,
};
use crate::middleend::wat::{SOp, WatOp};

verus! {

/// State of the emitted module while `$translated_code` runs.
#[verifier::ext_equal]
pub struct MState {
    /// The WASM operand stack, 64-bit bit patterns (narrow values live in
    /// the low 32 bits).
    pub stack: Seq<u64>,
    /// The register globals `$x0` .. `$x31`.
    pub x: Seq<u64>,
    /// `$pc`
    pub pc: u64,
    /// `$instr_count`
    pub instr_count: u64,
    /// `$vl`
    pub vl: u64,
    /// `$vtype`
    pub vtype: u64,
    /// `$exit_flag`
    pub exit_flag: u32,
    /// Linear memory, byte by byte, keyed by 32-bit offset.
    pub mem: Map<u64, u8>,
    /// `$vaddr_offset`: the virtual address mapped to `mem_base`.
    pub vaddr_off: u64,
    /// The linear offset that `vaddr_off` maps to.
    pub mem_base: u64,
}

/// What a host syscall import may do: read its seven arguments, rewrite
/// linear memory, choose a return value, and raise the exit flag.  Nothing
/// else of the machine is reachable from the import.
pub type SyscallHost = spec_fn(Seq<u64>, Map<u64, u8>) -> (u64, Map<u64, u8>, u32);

pub open spec fn w64(x: int) -> u64 {
    (x % 0x10000000000000000) as u64
}

pub open spec fn lo32(v: u64) -> u64 {
    v % 0x100000000
}

/// The 64-bit pattern read as a signed number.
pub open spec fn as_i64(v: u64) -> int {
    if v < 0x8000000000000000 {
        v as int
    } else {
        v as int - 0x10000000000000000
    }
}

/// The low 32 bits read as a signed number.
pub open spec fn as_i32(v: u64) -> int {
    if lo32(v) < 0x80000000 {
        lo32(v) as int
    } else {
        lo32(v) as int - 0x100000000
    }
}

/// Sign extension of the low 32 bits to the full width.
pub open spec fn e32s(v: u64) -> u64 {
    w64(as_i32(v))
}

pub open spec fn bool2(b: bool) -> u64 {
    if b {
        1u64
    } else {
        0u64
    }
}

pub open spec fn p2(k: nat) -> nat
    decreases k,
{
    if k == 0 {
        1
    } else {
        2 * p2((k - 1) as nat)
    }
}

/// Truncated (round-toward-zero) signed division, zero divisor giving zero;
/// the emitted code never divides by zero.
pub open spec fn tdiv(a: int, b: int) -> int {
    if b == 0 {
        0
    } else {
        let q = abs_int(a) / abs_int(b);
        if (a < 0) == (b < 0) {
            q
        } else {
            -q
        }
    }
}

pub open spec fn trem(a: int, b: int) -> int {
    a - b * tdiv(a, b)
}

pub open spec fn abs_int(a: int) -> int {
    if a < 0 {
        -a
    } else {
        a
    }
}

/// Whether an op is a pure 64-bit binary operator (pops two, pushes one).
pub open spec fn sop_is_binop(op: SOp) -> bool {
    match op {
        SOp::I64Add => true,
        SOp::I64Sub => true,
        SOp::I64Mul => true,
        SOp::I64DivS => true,
        SOp::I64DivU => true,
        SOp::I64RemS => true,
        SOp::I64RemU => true,
        SOp::I64And => true,
        SOp::I64Or => true,
        SOp::I64Xor => true,
        SOp::I64Shl => true,
        SOp::I64ShrS => true,
        SOp::I64ShrU => true,
        SOp::I64Eq => true,
        SOp::I64Ne => true,
        SOp::I64LtS => true,
        SOp::I64LtU => true,
        SOp::I64GeS => true,
        SOp::I64GeU => true,
        SOp::I32Add => true,
        SOp::I32Sub => true,
        SOp::I32Mul => true,
        SOp::I32DivS => true,
        SOp::I32DivU => true,
        SOp::I32RemS => true,
        SOp::I32RemU => true,
        SOp::I32And => true,
        SOp::I32Shl => true,
        SOp::I32ShrS => true,
        SOp::I32ShrU => true,
        _ => false,
    }
}

/// Value of a pure binary operator on two stack patterns.
pub open spec fn binop_val(op: SOp, a: u64, b: u64) -> u64 {
    match op {
        SOp::I64Add => w64(a + b),
        SOp::I64Sub => w64(a - b),
        SOp::I64Mul => w64(a * b),
        SOp::I64DivS => w64(tdiv(as_i64(a), as_i64(b))),
        SOp::I64DivU => if b == 0 {
            0u64
        } else {
            a / b
        },
        SOp::I64RemS => w64(trem(as_i64(a), as_i64(b))),
        SOp::I64RemU => if b == 0 {
            0u64
        } else {
            a % b
        },
        SOp::I64And => a & b,
        SOp::I64Or => a | b,
        SOp::I64Xor => a ^ b,
        SOp::I64Shl => w64(a * p2((b % 64) as nat)),
        SOp::I64ShrS => w64(as_i64(a) / p2((b % 64) as nat) as int),
        SOp::I64ShrU => a / p2((b % 64) as nat) as u64,
        SOp::I64Eq => bool2(a == b),
        SOp::I64Ne => bool2(a != b),
        SOp::I64LtS => bool2(as_i64(a) < as_i64(b)),
        SOp::I64LtU => bool2(a < b),
        SOp::I64GeS => bool2(as_i64(a) >= as_i64(b)),
        SOp::I64GeU => bool2(a >= b),
        SOp::I32Add => lo32(w64(lo32(a) + lo32(b))),
        SOp::I32Sub => lo32(w64(lo32(a) - lo32(b))),
        SOp::I32Mul => lo32(w64(lo32(a) * lo32(b))),
        SOp::I32DivS => lo32(w64(tdiv(as_i32(a), as_i32(b)))),
        SOp::I32DivU => if lo32(b) == 0 {
            0u64
        } else {
            lo32(a) / lo32(b)
        },
        SOp::I32RemS => lo32(w64(trem(as_i32(a), as_i32(b)))),
        SOp::I32RemU => if lo32(b) == 0 {
            0u64
        } else {
            lo32(a) % lo32(b)
        },
        SOp::I32And => lo32(a) & lo32(b),
        SOp::I32Shl => lo32(w64(lo32(a) * p2((b % 32) as nat))),
        SOp::I32ShrS => lo32(w64(as_i32(a) / p2((b % 32) as nat) as int)),
        SOp::I32ShrU => lo32(a) / p2((b % 32) as nat) as u64,
        _ => 0u64,
    }
}

/// Whether an op is a pure unary operator (pops one, pushes one).
pub open spec fn sop_is_unop(op: SOp) -> bool {
    match op {
        SOp::I64Eqz => true,
        SOp::I32Eqz => true,
        SOp::WrapI64 => true,
        SOp::ExtendI32S => true,
        SOp::ExtendI32U => true,
        _ => false,
    }
}

pub open spec fn unop_val(op: SOp, a: u64) -> u64 {
    match op {
        SOp::I64Eqz => bool2(a == 0),
        SOp::I32Eqz => bool2(lo32(a) == 0),
        SOp::WrapI64 => lo32(a),
        SOp::ExtendI32S => e32s(a),
        SOp::ExtendI32U => lo32(a),
        _ => 0u64,
    }
}

/// The `$vaddr_to_offset` helper: subtract the virtual base, add the linear
/// base, and narrow to 32 bits.
pub open spec fn translate(m: MState, v: u64) -> u64 {
    lo32(w64(v as int - m.vaddr_off as int + m.mem_base as int))
}

/// One byte of linear memory.
pub open spec fn mem_byte(mem: Map<u64, u8>, a: u64) -> u64 {
    mem[lo32(a)] as u64
}

/// A little-endian read of `n` bytes starting at `a`.
pub open spec fn mem_read(mem: Map<u64, u8>, a: u64, n: nat) -> u64
    decreases n,
{
    if n == 0 {
        0u64
    } else {
        w64(mem_byte(mem, a) + 256 * mem_read(mem, w64(a + 1), (n - 1) as nat))
    }
}

/// A little-endian write of the low `n` bytes of `v` starting at `a`.
pub open spec fn mem_write(mem: Map<u64, u8>, a: u64, v: u64, n: nat) -> Map<u64, u8>
    decreases n,
{
    if n == 0 {
        mem
    } else {
        mem_write(mem.insert(lo32(a), (v % 256) as u8), w64(a + 1), v / 256, (n - 1) as nat)
    }
}

/// Sign extension from `bits` bits.
pub open spec fn sext(v: u64, bits: nat) -> u64 {
    let l = (v as int % p2(bits) as int);
    if l < p2((bits - 1) as nat) as int {
        w64(l)
    } else {
        w64(l - p2(bits) as int)
    }
}

/// Effect of one flat op.  Ill-typed situations (stack underflow, a register
/// index out of range) never arise in emitted code and leave the state
/// unchanged.
pub open spec fn run_sop(s: SOp, m: MState, host: SyscallHost) -> MState {
    match s {
        SOp::GetX(r) => if r < 32 && m.x.len() == 32 {
            MState { stack: m.stack.push(m.x[r as int]), ..m }
        } else {
            m
        },
        SOp::SetX(r) => if r < 32 && m.x.len() == 32 && m.stack.len() > 0 {
            MState {
                stack: m.stack.drop_last(),
                x: m.x.update(r as int, m.stack.last()),
                ..m
            }
        } else {
            m
        },
        SOp::GetPc => MState { stack: m.stack.push(m.pc), ..m },
        SOp::SetPc => if m.stack.len() > 0 {
            MState { stack: m.stack.drop_last(), pc: m.stack.last(), ..m }
        } else {
            m
        },
        SOp::GetInstrCount => MState { stack: m.stack.push(m.instr_count), ..m },
        SOp::SetInstrCount => if m.stack.len() > 0 {
            MState { stack: m.stack.drop_last(), instr_count: m.stack.last(), ..m }
        } else {
            m
        },
        SOp::GetVl => MState { stack: m.stack.push(m.vl), ..m },
        SOp::SetVl => if m.stack.len() > 0 {
            MState { stack: m.stack.drop_last(), vl: m.stack.last(), ..m }
        } else {
            m
        },
        SOp::SetVtype => if m.stack.len() > 0 {
            MState { stack: m.stack.drop_last(), vtype: m.stack.last(), ..m }
        } else {
            m
        },
        SOp::ConstI64(v) => MState { stack: m.stack.push(w64(v as int)), ..m },
        SOp::ConstI32(v) => MState { stack: m.stack.push(lo32(w64(v as int))), ..m },
        SOp::VaddrToOffset => if m.stack.len() > 0 {
            MState {
                stack: m.stack.drop_last().push(translate(m, m.stack.last())),
                ..m
            }
        } else {
            m
        },
        SOp::I32Load8S => run_load(m, 1, true),
        SOp::I32Load8U => run_load(m, 1, false),
        SOp::I32Load16S => run_load(m, 2, true),
        SOp::I32Load16U => run_load(m, 2, false),
        SOp::I32Load => run_load(m, 4, false),
        SOp::I64Load => run_load(m, 8, false),
        SOp::I32Store8 => run_store(m, 1),
        SOp::I32Store16 => run_store(m, 2),
        SOp::I32Store => run_store(m, 4),
        SOp::I64Store => run_store(m, 8),
        SOp::Syscall => if m.stack.len() >= 7 {
            let args = m.stack.subrange(m.stack.len() - 7, m.stack.len() as int);
            let r = host(args, m.mem);
            MState {
                stack: m.stack.subrange(0, m.stack.len() - 7).push(r.0),
                mem: r.1,
                exit_flag: r.2,
                ..m
            }
        } else {
            m
        },
        SOp::Drop => if m.stack.len() > 0 {
            MState { stack: m.stack.drop_last(), ..m }
        } else {
            m
        },
        SOp::Comment => m,
        _ => if sop_is_binop(s) {
            if m.stack.len() >= 2 {
                let b = m.stack.last();
                let a = m.stack.drop_last().last();
                MState {
                    stack: m.stack.drop_last().drop_last().push(binop_val(s, a, b)),
                    ..m
                }
            } else {
                m
            }
        } else {
            // a pure unary operator
            if m.stack.len() >= 1 {
                MState {
                    stack: m.stack.drop_last().push(unop_val(s, m.stack.last())),
                    ..m
                }
            } else {
                m
            }
        },
    }
}

/// A load: pop the 32-bit offset, push the (sign- or zero-extended) value.
/// Sub-64-bit loads leave an `i32` pattern in the low 32 bits.
pub open spec fn run_load(m: MState, n: nat, signed: bool) -> MState {
    if m.stack.len() > 0 {
        let a = m.stack.last();
        let raw = mem_read(m.mem, lo32(a), n);
        let v = if n == 8 {
            raw
        } else if signed {
            lo32(sext(raw, (n * 8) as nat))
        } else {
            raw
        };
        MState { stack: m.stack.drop_last().push(v), ..m }
    } else {
        m
    }
}

/// A store: pop the value, pop the 32-bit offset, write `n` bytes.
pub open spec fn run_store(m: MState, n: nat) -> MState {
    if m.stack.len() >= 2 {
        let v = m.stack.last();
        let a = m.stack.drop_last().last();
        MState {
            stack: m.stack.drop_last().drop_last(),
            mem: mem_write(m.mem, lo32(a), v, n),
            ..m
        }
    } else {
        m
    }
}

/// Effect of a flat op sequence.
pub open spec fn run_sops(ops: Seq<SOp>, m: MState, host: SyscallHost) -> MState
    decreases ops.len(),
{
    if ops.len() == 0 {
        m
    } else {
        run_sops(ops.drop_first(), run_sop(ops[0], m, host), host)
    }
}

/// Effect of one model op: a flat op, or a balanced conditional that pops
/// its condition and runs one arm.
pub open spec fn run_watop(op: WatOp, m: MState, host: SyscallHost) -> MState {
    match op {
        WatOp::Op(s) => run_sop(s, m, host),
        WatOp::IfElse(t, e) => if m.stack.len() > 0 {
            let c = m.stack.last();
            let m1 = MState { stack: m.stack.drop_last(), ..m };
            if lo32(c) != 0 {
                run_sops(t, m1, host)
            } else {
                run_sops(e, m1, host)
            }
        } else {
            m
        },
    }
}

/// Effect of a model op sequence.
pub open spec fn run_ops(ops: Seq<WatOp>, m: MState, host: SyscallHost) -> MState
    decreases ops.len(),
{
    if ops.len() == 0 {
        m
    } else {
        run_ops(ops.drop_first(), run_watop(ops[0], m, host), host)
    }
}

/// Effect of one emitted dispatch fragment: when `$pc` matches the fragment's
/// address, retire the instruction (`$instr_count` + 1), run its lowering,
/// and advance `$pc` by 4 unless the instruction wrote `$pc` itself.  When
/// `$pc` does not match, the fragment is skipped entirely.
pub open spec fn run_fragment(pc: u64, i: Instr, m: MState, host: SyscallHost) -> MState {
    if m.pc == pc {
        let m1 = MState { instr_count: w64(m.instr_count + 1), ..m };
        let m2 = run_ops(spec_lower(i), m1, host);
        if spec_modifies_pc(i) {
            m2
        } else {
            MState { pc: w64(m2.pc + 4), ..m2 }
        }
    } else {
        m
    }
}

/// Effect of one pass over the whole fragment sequence: the body of one
/// iteration of the interpreter loop.
pub open spec fn run_pass(frags: Seq<(u64, Instr)>, m: MState, host: SyscallHost) -> MState
    decreases frags.len(),
{
    if frags.len() == 0 {
        m
    } else {
        run_pass(frags.drop_first(), run_fragment(frags[0].0, frags[0].1, m, host), host)
    }
}

/// The interpreter loop: run a pass, then branch back while `$exit_flag` is
/// still zero, up to the given iteration budget.
pub open spec fn run_loop(frags: Seq<(u64, Instr)>, m: MState, host: SyscallHost, fuel: nat) -> MState
    decreases fuel,
{
    if fuel == 0 {
        m
    } else {
        let m1 = run_pass(frags, m, host);
        if m1.exit_flag == 0 {
            run_loop(frags, m1, host, (fuel - 1) as nat)
        } else {
            m1
        }
    }
}

// ---------------------------------------------------------------------------
// Laws of the lowering
// ---------------------------------------------------------------------------

/// A state at a fragment boundary: nothing pending on the operand stack and
/// the full register file present.
pub open spec fn frame_ok(m: MState) -> bool {
    m.stack.len() == 0 && m.x.len() == 32
}

/// Write `v` to register `rd` — or nothing at all when `rd` is `x0`, whose
/// writes the emitter suppresses.
pub open spec fn st_set_rd(m: MState, rd: u8, v: u64) -> MState {
    if rd == 0 {
        m
    } else {
        MState { x: m.x.update(rd as int, v), ..m }
    }
}

proof fn lemma_run_reg_op(rd: u8, a: u8, b: u8, op: SOp, m: MState, host: SyscallHost)
    requires
        frame_ok(m),
        rd < 32,
        a < 32,
        b < 32,
        sop_is_binop(op),
    ensures
        run_ops(spec_lower_reg_op(rd, a, b, op), m, host) == st_set_rd(
            m,
            rd,
            binop_val(op, m.x[a as int], m.x[b as int]),
        ),
{
    reveal_with_fuel(run_ops, 6);
    assert(run_ops(spec_lower_reg_op(rd, a, b, op), m, host) =~= st_set_rd(
        m,
        rd,
        binop_val(op, m.x[a as int], m.x[b as int]),
    ));
}

/// Run of the four-op shape `get rs1; const c; op; set rd`.
proof fn lemma_run_imm_shape(rd: u8, rs1: u8, c: i64, op: SOp, m: MState, host: SyscallHost)
    requires
        frame_ok(m),
        rd < 32,
        rs1 < 32,
        sop_is_binop(op),
    ensures
        run_ops(
            seq![
                WatOp::Op(SOp::GetX(rs1)),
                WatOp::Op(SOp::ConstI64(c)),
                WatOp::Op(op),
                WatOp::Op(spec_set_rd(rd)),
            ],
            m,
            host,
        ) == st_set_rd(m, rd, binop_val(op, m.x[rs1 as int], w64(c as int))),
{
    reveal_with_fuel(run_ops, 6);
    assert(run_ops(
        seq![
            WatOp::Op(SOp::GetX(rs1)),
            WatOp::Op(SOp::ConstI64(c)),
            WatOp::Op(op),
            WatOp::Op(spec_set_rd(rd)),
        ],
        m,
        host,
    ) =~= st_set_rd(m, rd, binop_val(op, m.x[rs1 as int], w64(c as int))));
}

/// Run of the two-op shape `const c; set rd`.
proof fn lemma_run_const_set(rd: u8, c: i64, m: MState, host: SyscallHost)
    requires
        frame_ok(m),
        rd < 32,
    ensures
        run_ops(seq![WatOp::Op(SOp::ConstI64(c)), WatOp::Op(spec_set_rd(rd))], m, host)
            == st_set_rd(m, rd, w64(c as int)),
{
    reveal_with_fuel(run_ops, 4);
    assert(run_ops(seq![WatOp::Op(SOp::ConstI64(c)), WatOp::Op(spec_set_rd(rd))], m, host)
        =~= st_set_rd(m, rd, w64(c as int)));
}

/// Run of `get pc; const c; add; set rd` (the AUIPC shape).
proof fn lemma_run_pc_const_add(rd: u8, c: i64, m: MState, host: SyscallHost)
    requires
        frame_ok(m),
        rd < 32,
    ensures
        run_ops(
            seq![
                WatOp::Op(SOp::GetPc),
                WatOp::Op(SOp::ConstI64(c)),
                WatOp::Op(SOp::I64Add),
                WatOp::Op(spec_set_rd(rd)),
            ],
            m,
            host,
        ) == st_set_rd(m, rd, w64(m.pc + w64(c as int))),
{
    reveal_with_fuel(run_ops, 6);
    assert(run_ops(
        seq![
            WatOp::Op(SOp::GetPc),
            WatOp::Op(SOp::ConstI64(c)),
            WatOp::Op(SOp::I64Add),
            WatOp::Op(spec_set_rd(rd)),
        ],
        m,
        host,
    ) =~= st_set_rd(m, rd, w64(m.pc + w64(c as int))));
}

/// Run of the six-op shift shape `get a; get b; const 63; and; op; set rd`.
proof fn lemma_run_shift_reg(rd: u8, a: u8, b: u8, op: SOp, m: MState, host: SyscallHost)
    requires
        frame_ok(m),
        rd < 32,
        a < 32,
        b < 32,
        sop_is_binop(op),
    ensures
        run_ops(spec_lower_shift_reg(rd, a, b, op), m, host) == st_set_rd(
            m,
            rd,
            binop_val(op, m.x[a as int], m.x[b as int] & 63),
        ),
{
    reveal_with_fuel(run_ops, 8);
    assert(run_ops(spec_lower_shift_reg(rd, a, b, op), m, host) =~= st_set_rd(
        m,
        rd,
        binop_val(op, m.x[a as int], m.x[b as int] & 63),
    ));
}

/// Run of the five-op comparison shape, which widens the flag to 64 bits.
proof fn lemma_run_cmp_reg(rd: u8, a: u8, b: u8, cmp: SOp, m: MState, host: SyscallHost)
    requires
        frame_ok(m),
        rd < 32,
        a < 32,
        b < 32,
        sop_is_binop(cmp),
    ensures
        run_ops(spec_lower_cmp_reg(rd, a, b, cmp), m, host) == st_set_rd(
            m,
            rd,
            lo32(binop_val(cmp, m.x[a as int], m.x[b as int])),
        ),
{
    reveal_with_fuel(run_ops, 7);
    assert(run_ops(spec_lower_cmp_reg(rd, a, b, cmp), m, host) =~= st_set_rd(
        m,
        rd,
        lo32(binop_val(cmp, m.x[a as int], m.x[b as int])),
    ));
}

/// Run of the five-op compare-with-constant shape (SLTI, SLTIU).
proof fn lemma_run_cmp_imm(rd: u8, rs1: u8, c: i64, cmp: SOp, m: MState, host: SyscallHost)
    requires
        frame_ok(m),
        rd < 32,
        rs1 < 32,
        sop_is_binop(cmp),
    ensures
        run_ops(
            seq![
                WatOp::Op(SOp::GetX(rs1)),
                WatOp::Op(SOp::ConstI64(c)),
                WatOp::Op(cmp),
                WatOp::Op(SOp::ExtendI32U),
                WatOp::Op(spec_set_rd(rd)),
            ],
            m,
            host,
        ) == st_set_rd(m, rd, lo32(binop_val(cmp, m.x[rs1 as int], w64(c as int)))),
{
    reveal_with_fuel(run_ops, 7);
    assert(run_ops(
        seq![
            WatOp::Op(SOp::GetX(rs1)),
            WatOp::Op(SOp::ConstI64(c)),
            WatOp::Op(cmp),
            WatOp::Op(SOp::ExtendI32U),
            WatOp::Op(spec_set_rd(rd)),
        ],
        m,
        host,
    ) =~= st_set_rd(m, rd, lo32(binop_val(cmp, m.x[rs1 as int], w64(c as int)))));
}

/// Run of the seven-op W-form register shape.
proof fn lemma_run_reg_op_w(rd: u8, a: u8, b: u8, op: SOp, m: MState, host: SyscallHost)
    requires
        frame_ok(m),
        rd < 32,
        a < 32,
        b < 32,
        sop_is_binop(op),
    ensures
        run_ops(spec_lower_reg_op_w(rd, a, b, op), m, host) == st_set_rd(
            m,
            rd,
            e32s(binop_val(op, lo32(m.x[a as int]), lo32(m.x[b as int]))),
        ),
{
    reveal_with_fuel(run_ops, 9);
    assert(run_ops(spec_lower_reg_op_w(rd, a, b, op), m, host) =~= st_set_rd(
        m,
        rd,
        e32s(binop_val(op, lo32(m.x[a as int]), lo32(m.x[b as int]))),
    ));
}

/// Run of the nine-op W-form register shift shape.
#[verifier::rlimit(100)]
#[verifier::spinoff_prover]
proof fn lemma_run_shift_reg_w(rd: u8, a: u8, b: u8, op: SOp, m: MState, host: SyscallHost)
    requires
        frame_ok(m),
        rd < 32,
        a < 32,
        b < 32,
        sop_is_binop(op),
    ensures
        run_ops(spec_lower_shift_reg_w(rd, a, b, op), m, host) == st_set_rd(
            m,
            rd,
            e32s(binop_val(op, lo32(m.x[a as int]), lo32(m.x[b as int]) & 31)),
        ),
{
    reveal_with_fuel(run_ops, 11);
    assert(run_ops(spec_lower_shift_reg_w(rd, a, b, op), m, host) =~= st_set_rd(
        m,
        rd,
        e32s(binop_val(op, lo32(m.x[a as int]), lo32(m.x[b as int]) & 31)),
    ));
}

/// Run of the six-op W-form immediate shape.
proof fn lemma_run_imm_op_w(rd: u8, rs1: u8, c: i32, op: SOp, m: MState, host: SyscallHost)
    requires
        frame_ok(m),
        rd < 32,
        rs1 < 32,
        sop_is_binop(op),
    ensures
        run_ops(spec_lower_imm_op_w(rd, rs1, c, op), m, host) == st_set_rd(
            m,
            rd,
            e32s(binop_val(op, lo32(m.x[rs1 as int]), lo32(w64(c as int)))),
        ),
{
    reveal_with_fuel(run_ops, 8);
    assert(run_ops(spec_lower_imm_op_w(rd, rs1, c, op), m, host) =~= st_set_rd(
        m,
        rd,
        e32s(binop_val(op, lo32(m.x[rs1 as int]), lo32(w64(c as int)))),
    ));
}

/// Run of the six-op high-multiply placeholder shape.
proof fn lemma_run_mulh(rd: u8, a: u8, b: u8, m: MState, host: SyscallHost)
    requires
        frame_ok(m),
        rd < 32,
        a < 32,
        b < 32,
    ensures
        run_ops(
            seq![
                WatOp::Op(SOp::GetX(a)),
                WatOp::Op(SOp::GetX(b)),
                WatOp::Op(SOp::I64Mul),
                WatOp::Op(SOp::ConstI64(32i64)),
                WatOp::Op(SOp::I64ShrS),
                WatOp::Op(spec_set_rd(rd)),
            ],
            m,
            host,
        ) == st_set_rd(
            m,
            rd,
            binop_val(SOp::I64ShrS, binop_val(SOp::I64Mul, m.x[a as int], m.x[b as int]), 32),
        ),
{
    reveal_with_fuel(run_ops, 8);
    assert(run_ops(
        seq![
            WatOp::Op(SOp::GetX(a)),
            WatOp::Op(SOp::GetX(b)),
            WatOp::Op(SOp::I64Mul),
            WatOp::Op(SOp::ConstI64(32i64)),
            WatOp::Op(SOp::I64ShrS),
            WatOp::Op(spec_set_rd(rd)),
        ],
        m,
        host,
    ) =~= st_set_rd(
        m,
        rd,
        binop_val(SOp::I64ShrS, binop_val(SOp::I64Mul, m.x[a as int], m.x[b as int]), 32),
    ));
}

/// Run of a guarded division: both arms write only `rd`.
#[verifier::rlimit(100)]
#[verifier::spinoff_prover]
proof fn lemma_run_div(rd: u8, a: u8, b: u8, op: SOp, m: MState, host: SyscallHost)
    requires
        frame_ok(m),
        rd < 32,
        a < 32,
        b < 32,
        sop_is_binop(op),
    ensures
        run_ops(spec_lower_div(rd, a, b, op), m, host) == st_set_rd(
            m,
            rd,
            if m.x[b as int] == 0 {
                w64(-1)
            } else {
                binop_val(op, m.x[a as int], m.x[b as int])
            },
        ),
{
    reveal_with_fuel(run_ops, 5);
    reveal_with_fuel(run_sops, 6);
    if m.x[b as int] == 0 {
        assert(run_ops(spec_lower_div(rd, a, b, op), m, host) =~= st_set_rd(m, rd, w64(-1)));
    } else {
        assert(run_ops(spec_lower_div(rd, a, b, op), m, host) =~= st_set_rd(
            m,
            rd,
            binop_val(op, m.x[a as int], m.x[b as int]),
        ));
    }
}

/// Run of a guarded remainder: both arms write only `rd`.
#[verifier::rlimit(100)]
#[verifier::spinoff_prover]
proof fn lemma_run_rem(rd: u8, a: u8, b: u8, op: SOp, m: MState, host: SyscallHost)
    requires
        frame_ok(m),
        rd < 32,
        a < 32,
        b < 32,
        sop_is_binop(op),
    ensures
        run_ops(spec_lower_rem(rd, a, b, op), m, host) == st_set_rd(
            m,
            rd,
            if m.x[b as int] == 0 {
                m.x[a as int]
            } else {
                binop_val(op, m.x[a as int], m.x[b as int])
            },
        ),
{
    reveal_with_fuel(run_ops, 5);
    reveal_with_fuel(run_sops, 6);
    if m.x[b as int] == 0 {
        assert(run_ops(spec_lower_rem(rd, a, b, op), m, host) =~= st_set_rd(m, rd, m.x[a as int]));
    } else {
        assert(run_ops(spec_lower_rem(rd, a, b, op), m, host) =~= st_set_rd(
            m,
            rd,
            binop_val(op, m.x[a as int], m.x[b as int]),
        ));
    }
}

/// Run of a guarded W-form division: both arms write only `rd`.
#[verifier::rlimit(100)]
#[verifier::spinoff_prover]
proof fn lemma_run_div_w(rd: u8, a: u8, b: u8, op: SOp, m: MState, host: SyscallHost)
    requires
        frame_ok(m),
        rd < 32,
        a < 32,
        b < 32,
        sop_is_binop(op),
    ensures
        run_ops(spec_lower_div_w(rd, a, b, op), m, host) == st_set_rd(
            m,
            rd,
            if lo32(m.x[b as int]) == 0 {
                w64(-1)
            } else {
                e32s(binop_val(op, lo32(m.x[a as int]), lo32(m.x[b as int])))
            },
        ),
{
    reveal_with_fuel(run_ops, 6);
    reveal_with_fuel(run_sops, 9);
    if lo32(m.x[b as int]) == 0 {
        assert(run_ops(spec_lower_div_w(rd, a, b, op), m, host) =~= st_set_rd(m, rd, w64(-1)));
    } else {
        assert(run_ops(spec_lower_div_w(rd, a, b, op), m, host) =~= st_set_rd(
            m,
            rd,
            e32s(binop_val(op, lo32(m.x[a as int]), lo32(m.x[b as int]))),
        ));
    }
}

/// The arithmetic instructions: everything whose effect is confined to its
/// destination register (and the instruction counter).  This covers the
/// upper-immediate, immediate and register forms of the base sets, their W
/// variants, and the whole M extension.
pub open spec fn is_arith(i: Instr) -> bool {
    match i {
        Instr::RV32(RV32Instr::RV32I(x)) => match x {
            RV32I::LUI(_, _) => true,
            RV32I::AUIPC(_, _) => true,
            RV32I::ADDI(_, _, _) => true,
            RV32I::SLTI(_, _, _) => true,
            RV32I::SLTIU(_, _, _) => true,
            RV32I::XORI(_, _, _) => true,
            RV32I::ORI(_, _, _) => true,
            RV32I::ANDI(_, _, _) => true,
            RV32I::ADD(_, _, _) => true,
            RV32I::SUB(_, _, _) => true,
            RV32I::SLL(_, _, _) => true,
            RV32I::SLT(_, _, _) => true,
            RV32I::SLTU(_, _, _) => true,
            RV32I::XOR(_, _, _) => true,
            RV32I::SRL(_, _, _) => true,
            RV32I::SRA(_, _, _) => true,
            RV32I::OR(_, _, _) => true,
            RV32I::AND(_, _, _) => true,
            _ => false,
        },
        Instr::RV32(RV32Instr::RV32M(_)) => true,
        Instr::RV64(RV64Instr::RV64I(x)) => match x {
            RV64I::SLLI(_, _, _) => true,
            RV64I::SRLI(_, _, _) => true,
            RV64I::SRAI(_, _, _) => true,
            RV64I::ADDIW(_, _, _) => true,
            RV64I::SLLIW(_, _, _) => true,
            RV64I::SRLIW(_, _, _) => true,
            RV64I::SRAIW(_, _, _) => true,
            RV64I::ADDW(_, _, _) => true,
            RV64I::SUBW(_, _, _) => true,
            RV64I::SLLW(_, _, _) => true,
            RV64I::SRLW(_, _, _) => true,
            RV64I::SRAW(_, _, _) => true,
            _ => false,
        },
        Instr::RV64(RV64Instr::RV64M(_)) => true,
        _ => false,
    }
}

/// The destination register of an arithmetic instruction.
pub open spec fn arith_rd(i: Instr) -> u8 {
    match i {
        Instr::RV32(RV32Instr::RV32I(x)) => match x {
            RV32I::LUI(Rd(rd), _) => rd,
            RV32I::AUIPC(Rd(rd), _) => rd,
            RV32I::ADDI(Rd(rd), _, _) => rd,
            RV32I::SLTI(Rd(rd), _, _) => rd,
            RV32I::SLTIU(Rd(rd), _, _) => rd,
            RV32I::XORI(Rd(rd), _, _) => rd,
            RV32I::ORI(Rd(rd), _, _) => rd,
            RV32I::ANDI(Rd(rd), _, _) => rd,
            RV32I::ADD(Rd(rd), _, _) => rd,
            RV32I::SUB(Rd(rd), _, _) => rd,
            RV32I::SLL(Rd(rd), _, _) => rd,
            RV32I::SLT(Rd(rd), _, _) => rd,
            RV32I::SLTU(Rd(rd), _, _) => rd,
            RV32I::XOR(Rd(rd), _, _) => rd,
            RV32I::SRL(Rd(rd), _, _) => rd,
            RV32I::SRA(Rd(rd), _, _) => rd,
            RV32I::OR(Rd(rd), _, _) => rd,
            RV32I::AND(Rd(rd), _, _) => rd,
            _ => 0,
        },
        Instr::RV32(RV32Instr::RV32M(x)) => match x {
            RV32M::MUL(Rd(rd), _, _) => rd,
            RV32M::MULH(Rd(rd), _, _) => rd,
            RV32M::MULHSU(Rd(rd), _, _) => rd,
            RV32M::MULHU(Rd(rd), _, _) => rd,
            RV32M::DIV(Rd(rd), _, _) => rd,
            RV32M::DIVU(Rd(rd), _, _) => rd,
            RV32M::REM(Rd(rd), _, _) => rd,
            RV32M::REMU(Rd(rd), _, _) => rd,
        },
        Instr::RV64(RV64Instr::RV64I(x)) => match x {
            RV64I::SLLI(Rd(rd), _, _) => rd,
            RV64I::SRLI(Rd(rd), _, _) => rd,
            RV64I::SRAI(Rd(rd), _, _) => rd,
            RV64I::ADDIW(Rd(rd), _, _) => rd,
            RV64I::SLLIW(Rd(rd), _, _) => rd,
            RV64I::SRLIW(Rd(rd), _, _) => rd,
            RV64I::SRAIW(Rd(rd), _, _) => rd,
            RV64I::ADDW(Rd(rd), _, _) => rd,
            RV64I::SUBW(Rd(rd), _, _) => rd,
            RV64I::SLLW(Rd(rd), _, _) => rd,
            RV64I::SRLW(Rd(rd), _, _) => rd,
            RV64I::SRAW(Rd(rd), _, _) => rd,
            _ => 0,
        },
        Instr::RV64(RV64Instr::RV64M(x)) => match x {
            RV64M::MULW(Rd(rd), _, _) => rd,
            RV64M::DIVW(Rd(rd), _, _) => rd,
            RV64M::DIVUW(Rd(rd), _, _) => rd,
            RV64M::REMW(Rd(rd), _, _) => rd,
            RV64M::REMUW(Rd(rd), _, _) => rd,
        },
        _ => 0,
    }
}

#[verifier::rlimit(100)]
#[verifier::spinoff_prover]
proof fn lemma_arith_fragment_rv32i(pc: u64, i: Instr, x: RV32I, m: MState, host: SyscallHost)
    requires
        i == Instr::RV32(RV32Instr::RV32I(x)),
        is_arith(i),
        crate::frontend::instruction::wf_instr(i),
        frame_ok(m),
        m.pc == pc,
    ensures
        ({
            let m2 = run_fragment(pc, i, m, host);
            &&& m2.pc == w64(pc + 4)
            &&& m2.instr_count == w64(m.instr_count + 1)
            &&& m2.stack == m.stack
            &&& m2.mem == m.mem
            &&& m2.exit_flag == m.exit_flag
            &&& m2.vl == m.vl
            &&& m2.vtype == m.vtype
            &&& m2.vaddr_off == m.vaddr_off
            &&& m2.mem_base == m.mem_base
            &&& m2.x.len() == 32
            &&& forall|r: int|
                0 <= r < 32 && r != arith_rd(i) as int ==> m2.x[r] == m.x[r]
            &&& arith_rd(i) == 0 ==> m2.x == m.x
        }),
{
    let m1 = MState { instr_count: w64(m.instr_count + 1), ..m };
    match x {
            RV32I::LUI(Rd(rd), imm) => lemma_run_const_set(rd, spec_shifted_u(imm), m1, host),
            RV32I::AUIPC(Rd(rd), imm) => lemma_run_pc_const_add(rd, spec_shifted_u(imm), m1, host),
            RV32I::ADDI(Rd(rd), Rs1(rs1), imm) => lemma_run_imm_shape(
                rd,
                rs1,
                spec_signed_i64(imm),
                SOp::I64Add,
                m1,
                host,
            ),
            RV32I::SLTI(Rd(rd), Rs1(rs1), imm) => lemma_run_cmp_imm(
                rd,
                rs1,
                spec_signed_i64(imm),
                SOp::I64LtS,
                m1,
                host,
            ),
            RV32I::SLTIU(Rd(rd), Rs1(rs1), imm) => lemma_run_cmp_imm(
                rd,
                rs1,
                spec_signed_i64(imm),
                SOp::I64LtU,
                m1,
                host,
            ),
            RV32I::XORI(Rd(rd), Rs1(rs1), imm) => lemma_run_imm_shape(
                rd,
                rs1,
                spec_signed_i64(imm),
                SOp::I64Xor,
                m1,
                host,
            ),
            RV32I::ORI(Rd(rd), Rs1(rs1), imm) => lemma_run_imm_shape(
                rd,
                rs1,
                spec_signed_i64(imm),
                SOp::I64Or,
                m1,
                host,
            ),
            RV32I::ANDI(Rd(rd), Rs1(rs1), imm) => lemma_run_imm_shape(
                rd,
                rs1,
                spec_signed_i64(imm),
                SOp::I64And,
                m1,
                host,
            ),
            RV32I::ADD(Rd(rd), Rs1(a), Rs2(b)) => lemma_run_reg_op(rd, a, b, SOp::I64Add, m1, host),
            RV32I::SUB(Rd(rd), Rs1(a), Rs2(b)) => lemma_run_reg_op(rd, a, b, SOp::I64Sub, m1, host),
            RV32I::SLL(Rd(rd), Rs1(a), Rs2(b)) => lemma_run_shift_reg(
                rd,
                a,
                b,
                SOp::I64Shl,
                m1,
                host,
            ),
            RV32I::SLT(Rd(rd), Rs1(a), Rs2(b)) => lemma_run_cmp_reg(
                rd,
                a,
                b,
                SOp::I64LtS,
                m1,
                host,
            ),
            RV32I::SLTU(Rd(rd), Rs1(a), Rs2(b)) => lemma_run_cmp_reg(
                rd,
                a,
                b,
                SOp::I64LtU,
                m1,
                host,
            ),
            RV32I::XOR(Rd(rd), Rs1(a), Rs2(b)) => lemma_run_reg_op(rd, a, b, SOp::I64Xor, m1, host),
            RV32I::SRL(Rd(rd), Rs1(a), Rs2(b)) => lemma_run_shift_reg(
                rd,
                a,
                b,
                SOp::I64ShrU,
                m1,
                host,
            ),
            RV32I::SRA(Rd(rd), Rs1(a), Rs2(b)) => lemma_run_shift_reg(
                rd,
                a,
                b,
                SOp::I64ShrS,
                m1,
                host,
            ),
            RV32I::OR(Rd(rd), Rs1(a), Rs2(b)) => lemma_run_reg_op(rd, a, b, SOp::I64Or, m1, host),
            RV32I::AND(Rd(rd), Rs1(a), Rs2(b)) => lemma_run_reg_op(rd, a, b, SOp::I64And, m1, host),
            _ => (),
        
        _ => (),
    }
}

#[verifier::rlimit(100)]
#[verifier::spinoff_prover]
proof fn lemma_arith_fragment_rv32m(pc: u64, i: Instr, x: RV32M, m: MState, host: SyscallHost)
    requires
        i == Instr::RV32(RV32Instr::RV32M(x)),
        is_arith(i),
        crate::frontend::instruction::wf_instr(i),
        frame_ok(m),
        m.pc == pc,
    ensures
        ({
            let m2 = run_fragment(pc, i, m, host);
            &&& m2.pc == w64(pc + 4)
            &&& m2.instr_count == w64(m.instr_count + 1)
            &&& m2.stack == m.stack
            &&& m2.mem == m.mem
            &&& m2.exit_flag == m.exit_flag
            &&& m2.vl == m.vl
            &&& m2.vtype == m.vtype
            &&& m2.vaddr_off == m.vaddr_off
            &&& m2.mem_base == m.mem_base
            &&& m2.x.len() == 32
            &&& forall|r: int|
                0 <= r < 32 && r != arith_rd(i) as int ==> m2.x[r] == m.x[r]
            &&& arith_rd(i) == 0 ==> m2.x == m.x
        }),
{
    let m1 = MState { instr_count: w64(m.instr_count + 1), ..m };
    match x {
            RV32M::MUL(Rd(rd), Rs1(a), Rs2(b)) => lemma_run_reg_op(rd, a, b, SOp::I64Mul, m1, host),
            RV32M::MULH(Rd(rd), Rs1(a), Rs2(b)) => lemma_run_mulh(rd, a, b, m1, host),
            RV32M::MULHSU(Rd(rd), _, _) => lemma_run_const_set(rd, 0, m1, host),
            RV32M::MULHU(Rd(rd), _, _) => lemma_run_const_set(rd, 0, m1, host),
            RV32M::DIV(Rd(rd), Rs1(a), Rs2(b)) => lemma_run_div(rd, a, b, SOp::I64DivS, m1, host),
            RV32M::DIVU(Rd(rd), Rs1(a), Rs2(b)) => lemma_run_div(rd, a, b, SOp::I64DivU, m1, host),
            RV32M::REM(Rd(rd), Rs1(a), Rs2(b)) => lemma_run_rem(rd, a, b, SOp::I64RemS, m1, host),
            RV32M::REMU(Rd(rd), Rs1(a), Rs2(b)) => lemma_run_rem(rd, a, b, SOp::I64RemU, m1, host),
        
        _ => (),
    }
}

#[verifier::rlimit(100)]
#[verifier::spinoff_prover]
proof fn lemma_arith_fragment_rv64i(pc: u64, i: Instr, x: RV64I, m: MState, host: SyscallHost)
    requires
        i == Instr::RV64(RV64Instr::RV64I(x)),
        is_arith(i),
        crate::frontend::instruction::wf_instr(i),
        frame_ok(m),
        m.pc == pc,
    ensures
        ({
            let m2 = run_fragment(pc, i, m, host);
            &&& m2.pc == w64(pc + 4)
            &&& m2.instr_count == w64(m.instr_count + 1)
            &&& m2.stack == m.stack
            &&& m2.mem == m.mem
            &&& m2.exit_flag == m.exit_flag
            &&& m2.vl == m.vl
            &&& m2.vtype == m.vtype
            &&& m2.vaddr_off == m.vaddr_off
            &&& m2.mem_base == m.mem_base
            &&& m2.x.len() == 32
            &&& forall|r: int|
                0 <= r < 32 && r != arith_rd(i) as int ==> m2.x[r] == m.x[r]
            &&& arith_rd(i) == 0 ==> m2.x == m.x
        }),
{
    let m1 = MState { instr_count: w64(m.instr_count + 1), ..m };
    match x {
            RV64I::SLLI(Rd(rd), Rs1(rs1), Shamt(s)) => lemma_run_imm_shape(
                rd,
                rs1,
                s as i64,
                SOp::I64Shl,
                m1,
                host,
            ),
            RV64I::SRLI(Rd(rd), Rs1(rs1), Shamt(s)) => lemma_run_imm_shape(
                rd,
                rs1,
                s as i64,
                SOp::I64ShrU,
                m1,
                host,
            ),
            RV64I::SRAI(Rd(rd), Rs1(rs1), Shamt(s)) => lemma_run_imm_shape(
                rd,
                rs1,
                s as i64,
                SOp::I64ShrS,
                m1,
                host,
            ),
            RV64I::ADDIW(Rd(rd), Rs1(rs1), imm) => lemma_run_imm_op_w(
                rd,
                rs1,
                spec_signed_i64(imm) as i32,
                SOp::I32Add,
                m1,
                host,
            ),
            RV64I::SLLIW(Rd(rd), Rs1(rs1), Shamt(s)) => lemma_run_imm_op_w(
                rd,
                rs1,
                s as i32,
                SOp::I32Shl,
                m1,
                host,
            ),
            RV64I::SRLIW(Rd(rd), Rs1(rs1), Shamt(s)) => lemma_run_imm_op_w(
                rd,
                rs1,
                s as i32,
                SOp::I32ShrU,
                m1,
                host,
            ),
            RV64I::SRAIW(Rd(rd), Rs1(rs1), Shamt(s)) => lemma_run_imm_op_w(
                rd,
                rs1,
                s as i32,
                SOp::I32ShrS,
                m1,
                host,
            ),
            RV64I::ADDW(Rd(rd), Rs1(a), Rs2(b)) => lemma_run_reg_op_w(
                rd,
                a,
                b,
                SOp::I32Add,
                m1,
                host,
            ),
            RV64I::SUBW(Rd(rd), Rs1(a), Rs2(b)) => lemma_run_reg_op_w(
                rd,
                a,
                b,
                SOp::I32Sub,
                m1,
                host,
            ),
            RV64I::SLLW(Rd(rd), Rs1(a), Rs2(b)) => lemma_run_shift_reg_w(
                rd,
                a,
                b,
                SOp::I32Shl,
                m1,
                host,
            ),
            RV64I::SRLW(Rd(rd), Rs1(a), Rs2(b)) => lemma_run_shift_reg_w(
                rd,
                a,
                b,
                SOp::I32ShrU,
                m1,
                host,
            ),
            RV64I::SRAW(Rd(rd), Rs1(a), Rs2(b)) => lemma_run_shift_reg_w(
                rd,
                a,
                b,
                SOp::I32ShrS,
                m1,
                host,
            ),
            _ => (),
        
        _ => (),
    }
}

#[verifier::rlimit(100)]
#[verifier::spinoff_prover]
proof fn lemma_arith_fragment_rv64m(pc: u64, i: Instr, x: RV64M, m: MState, host: SyscallHost)
    requires
        i == Instr::RV64(RV64Instr::RV64M(x)),
        is_arith(i),
        crate::frontend::instruction::wf_instr(i),
        frame_ok(m),
        m.pc == pc,
    ensures
        ({
            let m2 = run_fragment(pc, i, m, host);
            &&& m2.pc == w64(pc + 4)
            &&& m2.instr_count == w64(m.instr_count + 1)
            &&& m2.stack == m.stack
            &&& m2.mem == m.mem
            &&& m2.exit_flag == m.exit_flag
            &&& m2.vl == m.vl
            &&& m2.vtype == m.vtype
            &&& m2.vaddr_off == m.vaddr_off
            &&& m2.mem_base == m.mem_base
            &&& m2.x.len() == 32
            &&& forall|r: int|
                0 <= r < 32 && r != arith_rd(i) as int ==> m2.x[r] == m.x[r]
            &&& arith_rd(i) == 0 ==> m2.x == m.x
        }),
{
    let m1 = MState { instr_count: w64(m.instr_count + 1), ..m };
    match x {
            RV64M::MULW(Rd(rd), Rs1(a), Rs2(b)) => lemma_run_reg_op_w(
                rd,
                a,
                b,
                SOp::I32Mul,
                m1,
                host,
            ),
            RV64M::DIVW(Rd(rd), Rs1(a), Rs2(b)) => lemma_run_div_w(
                rd,
                a,
                b,
                SOp::I32DivS,
                m1,
                host,
            ),
            RV64M::DIVUW(Rd(rd), Rs1(a), Rs2(b)) => lemma_run_div_w(
                rd,
                a,
                b,
                SOp::I32DivU,
                m1,
                host,
            ),
            RV64M::REMW(Rd(rd), Rs1(a), Rs2(b)) => lemma_run_rem_w(
                rd,
                a,
                b,
                SOp::I32RemS,
                m1,
                host,
            ),
            RV64M::REMUW(Rd(rd), Rs1(a), Rs2(b)) => lemma_run_rem_w(
                rd,
                a,
                b,
                SOp::I32RemU,
                m1,
                host,
            ),
        
        _ => (),
    }
}

/// Law of the arithmetic lowerings.  Dispatching any arithmetic instruction
/// at its own address advances `$pc` by exactly 4, retires exactly one
/// instruction, and touches nothing of the machine but the destination
/// register; when the destination is `x0`, no register changes at all.
pub proof fn lemma_arith_fragment(pc: u64, i: Instr, m: MState, host: SyscallHost)
    requires
        is_arith(i),
        crate::frontend::instruction::wf_instr(i),
        frame_ok(m),
        m.pc == pc,
    ensures
        ({
            let m2 = run_fragment(pc, i, m, host);
            &&& m2.pc == w64(pc + 4)
            &&& m2.instr_count == w64(m.instr_count + 1)
            &&& m2.stack == m.stack
            &&& m2.mem == m.mem
            &&& m2.exit_flag == m.exit_flag
            &&& m2.vl == m.vl
            &&& m2.vtype == m.vtype
            &&& m2.vaddr_off == m.vaddr_off
            &&& m2.mem_base == m.mem_base
            &&& m2.x.len() == 32
            &&& forall|r: int|
                0 <= r < 32 && r != arith_rd(i) as int ==> m2.x[r] == m.x[r]
            &&& arith_rd(i) == 0 ==> m2.x == m.x
        }),
{
    match i {
        Instr::RV32(RV32Instr::RV32I(x)) => lemma_arith_fragment_rv32i(pc, i, x, m, host),
        Instr::RV32(RV32Instr::RV32M(x)) => lemma_arith_fragment_rv32m(pc, i, x, m, host),
        Instr::RV64(RV64Instr::RV64I(x)) => lemma_arith_fragment_rv64i(pc, i, x, m, host),
        Instr::RV64(RV64Instr::RV64M(x)) => lemma_arith_fragment_rv64m(pc, i, x, m, host),
        _ => (),
    }
}

/// Run of a guarded W-form remainder: both arms write only `rd`.
#[verifier::rlimit(100)]
#[verifier::spinoff_prover]
proof fn lemma_run_rem_w(rd: u8, a: u8, b: u8, op: SOp, m: MState, host: SyscallHost)
    requires
        frame_ok(m),
        rd < 32,
        a < 32,
        b < 32,
        sop_is_binop(op),
    ensures
        run_ops(spec_lower_rem_w(rd, a, b, op), m, host) == st_set_rd(
            m,
            rd,
            if lo32(m.x[b as int]) == 0 {
                m.x[a as int]
            } else {
                e32s(binop_val(op, lo32(m.x[a as int]), lo32(m.x[b as int])))
            },
        ),
{
    reveal_with_fuel(run_ops, 6);
    reveal_with_fuel(run_sops, 9);
    if lo32(m.x[b as int]) == 0 {
        assert(run_ops(spec_lower_rem_w(rd, a, b, op), m, host) =~= st_set_rd(
            m,
            rd,
            m.x[a as int],
        ));
    } else {
        assert(run_ops(spec_lower_rem_w(rd, a, b, op), m, host) =~= st_set_rd(
            m,
            rd,
            e32s(binop_val(op, lo32(m.x[a as int]), lo32(m.x[b as int]))),
        ));
    }
}

/// Law of the doubleword load: the value lands in `rd` from the eight bytes
/// at the translated address `memory_base + (vaddr - vaddr_offset)`.
#[verifier::rlimit(100)]
#[verifier::spinoff_prover]
pub proof fn lemma_ld_fragment(pc: u64, rd: u8, rs1: u8, imm: Imm, m: MState, host: SyscallHost)
    requires
        frame_ok(m),
        rd < 32,
        rs1 < 32,
        m.pc == pc,
    ensures
        ({
            let i = Instr::RV64(RV64Instr::RV64I(RV64I::LD(Rd(rd), Rs1(rs1), imm)));
            let m2 = run_fragment(pc, i, m, host);
            let vaddr = w64(m.x[rs1 as int] + w64(imm.spec_signed()));
            let off = translate(m, vaddr);
            &&& m2.pc == w64(pc + 4)
            &&& m2.instr_count == w64(m.instr_count + 1)
            &&& m2.x == if rd == 0 {
                m.x
            } else {
                m.x.update(rd as int, mem_read(m.mem, off, 8))
            }
            &&& m2.stack == m.stack
            &&& m2.mem == m.mem
            &&& m2.exit_flag == m.exit_flag
        }),
{
    let i = Instr::RV64(RV64Instr::RV64I(RV64I::LD(Rd(rd), Rs1(rs1), imm)));
    let m1 = MState { instr_count: w64(m.instr_count + 1), ..m };
    let vaddr = w64(m.x[rs1 as int] + w64(imm.spec_signed()));
    let off = translate(m, vaddr);
    reveal_with_fuel(run_ops, 8);
    assert(lo32(off) == off);
    if rd == 0 {
        assert(run_ops(spec_lower(i), m1, host) =~= m1);
    } else {
        assert(run_ops(spec_lower(i), m1, host) =~= (MState {
            x: m1.x.update(rd as int, mem_read(m.mem, off, 8)),
            ..m1
        }));
    }
}

/// Law of the byte load: the byte at the translated address arrives in `rd`,
/// widened in the two steps the emitted WAT performs.
#[verifier::rlimit(100)]
#[verifier::spinoff_prover]
pub proof fn lemma_lb_fragment(pc: u64, rd: u8, rs1: u8, imm: Imm, m: MState, host: SyscallHost)
    requires
        frame_ok(m),
        rd < 32,
        rs1 < 32,
        m.pc == pc,
    ensures
        ({
            let i = Instr::RV32(RV32Instr::RV32I(RV32I::LB(Rd(rd), Rs1(rs1), imm)));
            let m2 = run_fragment(pc, i, m, host);
            let vaddr = w64(m.x[rs1 as int] + w64(imm.spec_signed()));
            let off = translate(m, vaddr);
            let v = e32s(lo32(sext(mem_read(m.mem, off, 1), 8)));
            &&& m2.pc == w64(pc + 4)
            &&& m2.instr_count == w64(m.instr_count + 1)
            &&& m2.x == if rd == 0 {
                m.x
            } else {
                m.x.update(rd as int, v)
            }
            &&& m2.stack == m.stack
            &&& m2.mem == m.mem
            &&& m2.exit_flag == m.exit_flag
        }),
{
    let i = Instr::RV32(RV32Instr::RV32I(RV32I::LB(Rd(rd), Rs1(rs1), imm)));
    let m1 = MState { instr_count: w64(m.instr_count + 1), ..m };
    let vaddr = w64(m.x[rs1 as int] + w64(imm.spec_signed()));
    let off = translate(m, vaddr);
    let v = e32s(lo32(sext(mem_read(m.mem, off, 1), 8)));
    reveal_with_fuel(run_ops, 9);
    assert(lo32(off) == off);
    if rd == 0 {
        assert(run_ops(spec_lower(i), m1, host) =~= m1);
    } else {
        assert(run_ops(spec_lower(i), m1, host) =~= (MState {
            x: m1.x.update(rd as int, v),
            ..m1
        }));
    }
}

/// Law of the doubleword store: the eight bytes of `rs2` land at the
/// translated address; registers and everything else are untouched.
#[verifier::rlimit(100)]
#[verifier::spinoff_prover]
pub proof fn lemma_sd_fragment(pc: u64, rs1: u8, rs2: u8, imm: Imm, m: MState, host: SyscallHost)
    requires
        frame_ok(m),
        rs1 < 32,
        rs2 < 32,
        m.pc == pc,
    ensures
        ({
            let i = Instr::RV64(RV64Instr::RV64I(RV64I::SD(Rs1(rs1), Rs2(rs2), imm)));
            let m2 = run_fragment(pc, i, m, host);
            let vaddr = w64(m.x[rs1 as int] + w64(imm.spec_signed()));
            let off = translate(m, vaddr);
            &&& m2.pc == w64(pc + 4)
            &&& m2.instr_count == w64(m.instr_count + 1)
            &&& m2.x == m.x
            &&& m2.stack == m.stack
            &&& m2.mem == mem_write(m.mem, off, m.x[rs2 as int], 8)
            &&& m2.exit_flag == m.exit_flag
        }),
{
    let i = Instr::RV64(RV64Instr::RV64I(RV64I::SD(Rs1(rs1), Rs2(rs2), imm)));
    let m1 = MState { instr_count: w64(m.instr_count + 1), ..m };
    let vaddr = w64(m.x[rs1 as int] + w64(imm.spec_signed()));
    let off = translate(m, vaddr);
    reveal_with_fuel(run_ops, 8);
    assert(lo32(off) == off);
    assert(run_ops(spec_lower(i), m1, host) =~= (MState {
        mem: mem_write(m.mem, off, m.x[rs2 as int], 8),
        ..m1
    }));
}

/// Law of the byte store: the low byte of `rs2` lands at the translated
/// address.
#[verifier::rlimit(100)]
#[verifier::spinoff_prover]
pub proof fn lemma_sb_fragment(pc: u64, rs1: u8, rs2: u8, imm: Imm, m: MState, host: SyscallHost)
    requires
        frame_ok(m),
        rs1 < 32,
        rs2 < 32,
        m.pc == pc,
    ensures
        ({
            let i = Instr::RV32(RV32Instr::RV32I(RV32I::SB(Rs1(rs1), Rs2(rs2), imm)));
            let m2 = run_fragment(pc, i, m, host);
            let vaddr = w64(m.x[rs1 as int] + w64(imm.spec_signed()));
            let off = translate(m, vaddr);
            &&& m2.pc == w64(pc + 4)
            &&& m2.instr_count == w64(m.instr_count + 1)
            &&& m2.x == m.x
            &&& m2.stack == m.stack
            &&& m2.mem == mem_write(m.mem, off, lo32(m.x[rs2 as int]), 1)
            &&& m2.exit_flag == m.exit_flag
        }),
{
    let i = Instr::RV32(RV32Instr::RV32I(RV32I::SB(Rs1(rs1), Rs2(rs2), imm)));
    let m1 = MState { instr_count: w64(m.instr_count + 1), ..m };
    let vaddr = w64(m.x[rs1 as int] + w64(imm.spec_signed()));
    let off = translate(m, vaddr);
    reveal_with_fuel(run_ops, 9);
    assert(lo32(off) == off);
    assert(run_ops(spec_lower(i), m1, host) =~= (MState {
        mem: mem_write(m.mem, off, lo32(m.x[rs2 as int]), 1),
        ..m1
    }));
}

/// Law of the ECALL lowering: the seven argument registers reach the host in
/// syscall order, the host's return value lands in `x10`, and only memory
/// and the exit flag can otherwise change, both chosen by the host.
#[verifier::rlimit(100)]
#[verifier::spinoff_prover]
pub proof fn lemma_ecall_fragment(pc: u64, m: MState, host: SyscallHost)
    requires
        frame_ok(m),
        m.pc == pc,
    ensures
        ({
            let i = Instr::RV32(RV32Instr::RV32I(RV32I::ECALL));
            let m2 = run_fragment(pc, i, m, host);
            let args = seq![m.x[17], m.x[10], m.x[11], m.x[12], m.x[13], m.x[14], m.x[15]];
            let r = host(args, m.mem);
            &&& m2.pc == w64(pc + 4)
            &&& m2.instr_count == w64(m.instr_count + 1)
            &&& m2.x == m.x.update(10, r.0)
            &&& m2.stack == m.stack
            &&& m2.mem == r.1
            &&& m2.exit_flag == r.2
        }),
{
    let i = Instr::RV32(RV32Instr::RV32I(RV32I::ECALL));
    let m1 = MState { instr_count: w64(m.instr_count + 1), ..m };
    let args = seq![m.x[17], m.x[10], m.x[11], m.x[12], m.x[13], m.x[14], m.x[15]];
    reveal_with_fuel(run_ops, 11);
    let stacked = m.stack.push(m.x[17]).push(m.x[10]).push(m.x[11]).push(m.x[12]).push(
        m.x[13],
    ).push(m.x[14]).push(m.x[15]);
    assert(stacked.subrange(stacked.len() - 7, stacked.len() as int) =~= args);
    assert(stacked.subrange(0, stacked.len() - 7) =~= m.stack);
    let r = host(args, m.mem);
    assert(run_ops(spec_lower(i), m1, host) =~= (MState {
        x: m.x.update(10, r.0),
        mem: r.1,
        exit_flag: r.2,
        ..m1
    }));
}

/// The interpreter loop stops within one further iteration once a pass has
/// raised `$exit_flag`, and branches back while the flag stays zero.
pub proof fn lemma_loop_exit(frags: Seq<(u64, Instr)>, m: MState, host: SyscallHost, fuel: nat)
    requires
        fuel > 0,
    ensures
        ({
            let m1 = run_pass(frags, m, host);
            &&& m1.exit_flag != 0 ==> run_loop(frags, m, host, fuel) == m1
            &&& m1.exit_flag == 0 ==> run_loop(frags, m, host, fuel) == run_loop(
                frags,
                m1,
                host,
                (fuel - 1) as nat,
            )
        }),
{
}

} // verus!
