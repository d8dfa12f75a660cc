//! The lowering engine: one WAT fragment per decoded instruction, emitted
//! inside a dispatched interpreter loop.
//!
//! Each fragment compares `$pc` against the instruction's dispatch address,
//! and only when they match increments `$instr_count`, performs the
//! instruction's effect, and advances `$pc` (control-flow instructions write
//! `$pc` themselves on every path).  The exact text of every fragment is
//! pinned by `spec_fragment_text`; its meaning is given by the interpreter in
//! `machine`, against which the lowering laws are proved.

use vstd::prelude::*;

use crate::frontend::instruction::{
    Imm, Instr, Instruction, RV32I, RV32Instr, RV32M, RV64I, RV64Instr, RV64M, RVV, Rd, Rs1, Rs2,
    Shamt,
};
use crate::middleend::wat::{
    append_dec_u64, append_ifelse, append_sop, spec_dec_nat, spec_render_ops, spec_render_sops,
    spec_render_watop, SOp, WatOp,
};

verus! {

/// The op that writes the destination register: writes to `x0` are
/// suppressed at emit time, leaving only a `drop` of the computed value.
pub open spec fn spec_set_rd(rd: u8) -> SOp {
    if rd == 0 {
        SOp::Drop
    } else {
        SOp::SetX(rd)
    }
}

fn set_rd(rd: u8) -> (r: SOp)
    ensures
        r == spec_set_rd(rd),
{
    if rd == 0 {
        SOp::Drop
    } else {
        SOp::SetX(rd)
    }
}

/// The `$pc`-writing arm of a branch: add the given offset to `$pc`.
pub open spec fn spec_pc_add(off: i64) -> Seq<SOp> {
    seq![SOp::GetPc, SOp::ConstI64(off), SOp::I64Add, SOp::SetPc]
}

fn mk_pc_add(off: i64) -> (v: Vec<SOp>)
    ensures
        v@ == spec_pc_add(off),
{
    let mut v: Vec<SOp> = Vec::new();
    v.push(SOp::GetPc);
    v.push(SOp::ConstI64(off));
    v.push(SOp::I64Add);
    v.push(SOp::SetPc);
    proof {
        assert(v@ =~= spec_pc_add(off));
    }
    v
}

// ---------------------------------------------------------------------------
// The lowering table, per family
// ---------------------------------------------------------------------------

/// Lowering of the RV32I base family.
pub open spec fn spec_lower_rv32i(i: RV32I) -> Seq<WatOp> {
    match i {
        RV32I::LUI(Rd(rd), imm) => seq![
            WatOp::Op(SOp::ConstI64(spec_shifted_u(imm))),
            WatOp::Op(spec_set_rd(rd)),
        ],
        RV32I::AUIPC(Rd(rd), imm) => seq![
            WatOp::Op(SOp::GetPc),
            WatOp::Op(SOp::ConstI64(spec_shifted_u(imm))),
            WatOp::Op(SOp::I64Add),
            WatOp::Op(spec_set_rd(rd)),
        ],
        RV32I::JAL(Rd(rd), imm) => if rd == 0 {
            seq![
                WatOp::Op(SOp::GetPc),
                WatOp::Op(SOp::ConstI64(spec_signed_i64(imm))),
                WatOp::Op(SOp::I64Add),
                WatOp::Op(SOp::SetPc),
            ]
        } else {
            seq![
                WatOp::Op(SOp::GetPc),
                WatOp::Op(SOp::ConstI64(4)),
                WatOp::Op(SOp::I64Add),
                WatOp::Op(SOp::SetX(rd)),
                WatOp::Op(SOp::GetPc),
                WatOp::Op(SOp::ConstI64(spec_signed_i64(imm))),
                WatOp::Op(SOp::I64Add),
                WatOp::Op(SOp::SetPc),
            ]
        },
        RV32I::JALR(Rd(rd), Rs1(rs1), imm) => if rd == 0 {
            seq![
                WatOp::Op(SOp::GetX(rs1)),
                WatOp::Op(SOp::ConstI64(spec_signed_i64(imm))),
                WatOp::Op(SOp::I64Add),
                WatOp::Op(SOp::ConstI64(-2i64)),
                WatOp::Op(SOp::I64And),
                WatOp::Op(SOp::SetPc),
            ]
        } else {
            seq![
                WatOp::Op(SOp::GetPc),
                WatOp::Op(SOp::ConstI64(4)),
                WatOp::Op(SOp::I64Add),
                WatOp::Op(SOp::SetX(rd)),
                WatOp::Op(SOp::GetX(rs1)),
                WatOp::Op(SOp::ConstI64(spec_signed_i64(imm))),
                WatOp::Op(SOp::I64Add),
                WatOp::Op(SOp::ConstI64(-2i64)),
                WatOp::Op(SOp::I64And),
                WatOp::Op(SOp::SetPc),
            ]
        },
        RV32I::BEQ(Rs1(a), Rs2(b), imm) => spec_lower_branch(a, b, SOp::I64Eq, imm),
        RV32I::BNE(Rs1(a), Rs2(b), imm) => spec_lower_branch(a, b, SOp::I64Ne, imm),
        RV32I::BLT(Rs1(a), Rs2(b), imm) => spec_lower_branch(a, b, SOp::I64LtS, imm),
        RV32I::BGE(Rs1(a), Rs2(b), imm) => spec_lower_branch(a, b, SOp::I64GeS, imm),
        RV32I::BLTU(Rs1(a), Rs2(b), imm) => spec_lower_branch(a, b, SOp::I64LtU, imm),
        RV32I::BGEU(Rs1(a), Rs2(b), imm) => spec_lower_branch(a, b, SOp::I64GeU, imm),
        RV32I::LB(Rd(rd), Rs1(rs1), imm) => spec_lower_load(
            rd,
            rs1,
            imm,
            SOp::I32Load8S,
            Some(SOp::ExtendI32S),
        ),
        RV32I::LH(Rd(rd), Rs1(rs1), imm) => spec_lower_load(
            rd,
            rs1,
            imm,
            SOp::I32Load16S,
            Some(SOp::ExtendI32S),
        ),
        RV32I::LW(Rd(rd), Rs1(rs1), imm) => spec_lower_load(
            rd,
            rs1,
            imm,
            SOp::I32Load,
            Some(SOp::ExtendI32S),
        ),
        RV32I::LBU(Rd(rd), Rs1(rs1), imm) => spec_lower_load(
            rd,
            rs1,
            imm,
            SOp::I32Load8U,
            Some(SOp::ExtendI32U),
        ),
        RV32I::LHU(Rd(rd), Rs1(rs1), imm) => spec_lower_load(
            rd,
            rs1,
            imm,
            SOp::I32Load16U,
            Some(SOp::ExtendI32U),
        ),
        RV32I::SB(Rs1(rs1), Rs2(rs2), imm) => spec_lower_store(rs1, rs2, imm, true, SOp::I32Store8),
        RV32I::SH(Rs1(rs1), Rs2(rs2), imm) => spec_lower_store(
            rs1,
            rs2,
            imm,
            true,
            SOp::I32Store16,
        ),
        RV32I::SW(Rs1(rs1), Rs2(rs2), imm) => spec_lower_store(rs1, rs2, imm, true, SOp::I32Store),
        RV32I::ADDI(Rd(rd), Rs1(rs1), imm) => spec_lower_imm_op(rd, rs1, imm, SOp::I64Add),
        RV32I::SLTI(Rd(rd), Rs1(rs1), imm) => seq![
            WatOp::Op(SOp::GetX(rs1)),
            WatOp::Op(SOp::ConstI64(spec_signed_i64(imm))),
            WatOp::Op(SOp::I64LtS),
            WatOp::Op(SOp::ExtendI32U),
            WatOp::Op(spec_set_rd(rd)),
        ],
        RV32I::SLTIU(Rd(rd), Rs1(rs1), imm) => seq![
            WatOp::Op(SOp::GetX(rs1)),
            WatOp::Op(SOp::ConstI64(spec_signed_i64(imm))),
            WatOp::Op(SOp::I64LtU),
            WatOp::Op(SOp::ExtendI32U),
            WatOp::Op(spec_set_rd(rd)),
        ],
        RV32I::XORI(Rd(rd), Rs1(rs1), imm) => spec_lower_imm_op(rd, rs1, imm, SOp::I64Xor),
        RV32I::ORI(Rd(rd), Rs1(rs1), imm) => spec_lower_imm_op(rd, rs1, imm, SOp::I64Or),
        RV32I::ANDI(Rd(rd), Rs1(rs1), imm) => spec_lower_imm_op(rd, rs1, imm, SOp::I64And),
        RV32I::ADD(Rd(rd), Rs1(a), Rs2(b)) => spec_lower_reg_op(rd, a, b, SOp::I64Add),
        RV32I::SUB(Rd(rd), Rs1(a), Rs2(b)) => spec_lower_reg_op(rd, a, b, SOp::I64Sub),
        RV32I::SLL(Rd(rd), Rs1(a), Rs2(b)) => spec_lower_shift_reg(rd, a, b, SOp::I64Shl),
        RV32I::SLT(Rd(rd), Rs1(a), Rs2(b)) => spec_lower_cmp_reg(rd, a, b, SOp::I64LtS),
        RV32I::SLTU(Rd(rd), Rs1(a), Rs2(b)) => spec_lower_cmp_reg(rd, a, b, SOp::I64LtU),
        RV32I::XOR(Rd(rd), Rs1(a), Rs2(b)) => spec_lower_reg_op(rd, a, b, SOp::I64Xor),
        RV32I::SRL(Rd(rd), Rs1(a), Rs2(b)) => spec_lower_shift_reg(rd, a, b, SOp::I64ShrU),
        RV32I::SRA(Rd(rd), Rs1(a), Rs2(b)) => spec_lower_shift_reg(rd, a, b, SOp::I64ShrS),
        RV32I::OR(Rd(rd), Rs1(a), Rs2(b)) => spec_lower_reg_op(rd, a, b, SOp::I64Or),
        RV32I::AND(Rd(rd), Rs1(a), Rs2(b)) => spec_lower_reg_op(rd, a, b, SOp::I64And),
        RV32I::FENCE => seq![WatOp::Op(SOp::Comment)],
        RV32I::FENCE_TSO => seq![WatOp::Op(SOp::Comment)],
        RV32I::PAUSE => seq![WatOp::Op(SOp::Comment)],
        RV32I::ECALL => seq![
            WatOp::Op(SOp::GetX(17)),
            WatOp::Op(SOp::GetX(10)),
            WatOp::Op(SOp::GetX(11)),
            WatOp::Op(SOp::GetX(12)),
            WatOp::Op(SOp::GetX(13)),
            WatOp::Op(SOp::GetX(14)),
            WatOp::Op(SOp::GetX(15)),
            WatOp::Op(SOp::Syscall),
            WatOp::Op(SOp::SetX(10)),
        ],
        RV32I::EBREAK => seq![WatOp::Op(SOp::Comment)],
    }
}

/// The U-type immediate shifted into place, sign-extended.
pub open spec fn spec_shifted_u(imm: Imm) -> i64 {
    (imm.spec_signed() * 4096) as i64
}

/// The sign-extended immediate as a 64-bit constant.
pub open spec fn spec_signed_i64(imm: Imm) -> i64 {
    imm.spec_signed() as i64
}

/// `rd = rs1 op imm`
pub open spec fn spec_lower_imm_op(rd: u8, rs1: u8, imm: Imm, op: SOp) -> Seq<WatOp> {
    seq![
        WatOp::Op(SOp::GetX(rs1)),
        WatOp::Op(SOp::ConstI64(spec_signed_i64(imm))),
        WatOp::Op(op),
        WatOp::Op(spec_set_rd(rd)),
    ]
}

/// `rd = a op b`
pub open spec fn spec_lower_reg_op(rd: u8, a: u8, b: u8, op: SOp) -> Seq<WatOp> {
    seq![
        WatOp::Op(SOp::GetX(a)),
        WatOp::Op(SOp::GetX(b)),
        WatOp::Op(op),
        WatOp::Op(spec_set_rd(rd)),
    ]
}

/// `rd = a shift (b & 63)`: 64-bit shifts use the low six bits of the count.
pub open spec fn spec_lower_shift_reg(rd: u8, a: u8, b: u8, op: SOp) -> Seq<WatOp> {
    seq![
        WatOp::Op(SOp::GetX(a)),
        WatOp::Op(SOp::GetX(b)),
        WatOp::Op(SOp::ConstI64(63)),
        WatOp::Op(SOp::I64And),
        WatOp::Op(op),
        WatOp::Op(spec_set_rd(rd)),
    ]
}

/// `rd = (a cmp b) ? 1 : 0`
pub open spec fn spec_lower_cmp_reg(rd: u8, a: u8, b: u8, cmp: SOp) -> Seq<WatOp> {
    seq![
        WatOp::Op(SOp::GetX(a)),
        WatOp::Op(SOp::GetX(b)),
        WatOp::Op(cmp),
        WatOp::Op(SOp::ExtendI32U),
        WatOp::Op(spec_set_rd(rd)),
    ]
}

/// Conditional branch: compare, then write `$pc` on both paths.
pub open spec fn spec_lower_branch(a: u8, b: u8, cmp: SOp, imm: Imm) -> Seq<WatOp> {
    seq![
        WatOp::Op(SOp::GetX(a)),
        WatOp::Op(SOp::GetX(b)),
        WatOp::Op(cmp),
        WatOp::IfElse(spec_pc_add(spec_signed_i64(imm)), spec_pc_add(4)),
    ]
}

/// Load through the virtual-address helper; `ext` widens a 32-bit load.
pub open spec fn spec_lower_load(rd: u8, rs1: u8, imm: Imm, load: SOp, ext: Option<SOp>) -> Seq<
    WatOp,
> {
    let addr = seq![
        WatOp::Op(SOp::GetX(rs1)),
        WatOp::Op(SOp::ConstI64(spec_signed_i64(imm))),
        WatOp::Op(SOp::I64Add),
        WatOp::Op(SOp::VaddrToOffset),
        WatOp::Op(load),
    ];
    match ext {
        Some(e) => addr + seq![WatOp::Op(e), WatOp::Op(spec_set_rd(rd))],
        None => addr + seq![WatOp::Op(spec_set_rd(rd))],
    }
}

/// Store through the virtual-address helper; `wrap` narrows the value first.
pub open spec fn spec_lower_store(rs1: u8, rs2: u8, imm: Imm, wrap: bool, store: SOp) -> Seq<
    WatOp,
> {
    let addr = seq![
        WatOp::Op(SOp::GetX(rs1)),
        WatOp::Op(SOp::ConstI64(spec_signed_i64(imm))),
        WatOp::Op(SOp::I64Add),
        WatOp::Op(SOp::VaddrToOffset),
        WatOp::Op(SOp::GetX(rs2)),
    ];
    if wrap {
        addr + seq![WatOp::Op(SOp::WrapI64), WatOp::Op(store)]
    } else {
        addr + seq![WatOp::Op(store)]
    }
}

/// `rd = rs1 shiftop shamt` on the full 64-bit register.
pub open spec fn spec_lower_shift_imm(rd: u8, rs1: u8, shamt: u8, op: SOp) -> Seq<WatOp> {
    seq![
        WatOp::Op(SOp::GetX(rs1)),
        WatOp::Op(SOp::ConstI64(shamt as i64)),
        WatOp::Op(op),
        WatOp::Op(spec_set_rd(rd)),
    ]
}

/// `rd = sext32(lo32(a) op32 lo32(b))`: a W-form register operation.
pub open spec fn spec_lower_reg_op_w(rd: u8, a: u8, b: u8, op: SOp) -> Seq<WatOp> {
    seq![
        WatOp::Op(SOp::GetX(a)),
        WatOp::Op(SOp::WrapI64),
        WatOp::Op(SOp::GetX(b)),
        WatOp::Op(SOp::WrapI64),
        WatOp::Op(op),
        WatOp::Op(SOp::ExtendI32S),
        WatOp::Op(spec_set_rd(rd)),
    ]
}

/// `rd = sext32(lo32(a) shift (b & 31))`: W shifts use the low five bits.
pub open spec fn spec_lower_shift_reg_w(rd: u8, a: u8, b: u8, op: SOp) -> Seq<WatOp> {
    seq![
        WatOp::Op(SOp::GetX(a)),
        WatOp::Op(SOp::WrapI64),
        WatOp::Op(SOp::GetX(b)),
        WatOp::Op(SOp::WrapI64),
        WatOp::Op(SOp::ConstI32(31)),
        WatOp::Op(SOp::I32And),
        WatOp::Op(op),
        WatOp::Op(SOp::ExtendI32S),
        WatOp::Op(spec_set_rd(rd)),
    ]
}

/// `rd = sext32(lo32(rs1) op32 imm)`: a W-form immediate operation.
pub open spec fn spec_lower_imm_op_w(rd: u8, rs1: u8, c: i32, op: SOp) -> Seq<WatOp> {
    seq![
        WatOp::Op(SOp::GetX(rs1)),
        WatOp::Op(SOp::WrapI64),
        WatOp::Op(SOp::ConstI32(c)),
        WatOp::Op(op),
        WatOp::Op(SOp::ExtendI32S),
        WatOp::Op(spec_set_rd(rd)),
    ]
}

/// Lowering of the RV64I additions.
pub open spec fn spec_lower_rv64i(i: RV64I) -> Seq<WatOp> {
    match i {
        RV64I::LWU(Rd(rd), Rs1(rs1), imm) => spec_lower_load(
            rd,
            rs1,
            imm,
            SOp::I32Load,
            Some(SOp::ExtendI32U),
        ),
        RV64I::LD(Rd(rd), Rs1(rs1), imm) => spec_lower_load(rd, rs1, imm, SOp::I64Load, None),
        RV64I::SD(Rs1(rs1), Rs2(rs2), imm) => spec_lower_store(rs1, rs2, imm, false, SOp::I64Store),
        RV64I::SLLI(Rd(rd), Rs1(rs1), Shamt(s)) => spec_lower_shift_imm(rd, rs1, s, SOp::I64Shl),
        RV64I::SRLI(Rd(rd), Rs1(rs1), Shamt(s)) => spec_lower_shift_imm(rd, rs1, s, SOp::I64ShrU),
        RV64I::SRAI(Rd(rd), Rs1(rs1), Shamt(s)) => spec_lower_shift_imm(rd, rs1, s, SOp::I64ShrS),
        RV64I::ADDIW(Rd(rd), Rs1(rs1), imm) => spec_lower_imm_op_w(
            rd,
            rs1,
            spec_signed_i64(imm) as i32,
            SOp::I32Add,
        ),
        RV64I::SLLIW(Rd(rd), Rs1(rs1), Shamt(s)) => spec_lower_imm_op_w(
            rd,
            rs1,
            s as i32,
            SOp::I32Shl,
        ),
        RV64I::SRLIW(Rd(rd), Rs1(rs1), Shamt(s)) => spec_lower_imm_op_w(
            rd,
            rs1,
            s as i32,
            SOp::I32ShrU,
        ),
        RV64I::SRAIW(Rd(rd), Rs1(rs1), Shamt(s)) => spec_lower_imm_op_w(
            rd,
            rs1,
            s as i32,
            SOp::I32ShrS,
        ),
        RV64I::ADDW(Rd(rd), Rs1(a), Rs2(b)) => spec_lower_reg_op_w(rd, a, b, SOp::I32Add),
        RV64I::SUBW(Rd(rd), Rs1(a), Rs2(b)) => spec_lower_reg_op_w(rd, a, b, SOp::I32Sub),
        RV64I::SLLW(Rd(rd), Rs1(a), Rs2(b)) => spec_lower_shift_reg_w(rd, a, b, SOp::I32Shl),
        RV64I::SRLW(Rd(rd), Rs1(a), Rs2(b)) => spec_lower_shift_reg_w(rd, a, b, SOp::I32ShrU),
        RV64I::SRAW(Rd(rd), Rs1(a), Rs2(b)) => spec_lower_shift_reg_w(rd, a, b, SOp::I32ShrS),
    }
}

/// Division with an explicit zero check: `rd = (b == 0) ? dflt : a op b`,
/// where `dflt` is -1 for quotients.
pub open spec fn spec_lower_div(rd: u8, a: u8, b: u8, op: SOp) -> Seq<WatOp> {
    seq![
        WatOp::Op(SOp::GetX(b)),
        WatOp::Op(SOp::I64Eqz),
        WatOp::IfElse(
            seq![SOp::ConstI64(-1i64), spec_set_rd(rd)],
            seq![SOp::GetX(a), SOp::GetX(b), op, spec_set_rd(rd)],
        ),
    ]
}

/// Remainder with an explicit zero check: `rd = (b == 0) ? a : a op b`.
pub open spec fn spec_lower_rem(rd: u8, a: u8, b: u8, op: SOp) -> Seq<WatOp> {
    seq![
        WatOp::Op(SOp::GetX(b)),
        WatOp::Op(SOp::I64Eqz),
        WatOp::IfElse(
            seq![SOp::GetX(a), spec_set_rd(rd)],
            seq![SOp::GetX(a), SOp::GetX(b), op, spec_set_rd(rd)],
        ),
    ]
}

/// Lowering of the M extension, 64-bit forms.  The high-multiply forms are
/// placeholders, as the module-level contract flags.
pub open spec fn spec_lower_rv32m(i: RV32M) -> Seq<WatOp> {
    match i {
        RV32M::MUL(Rd(rd), Rs1(a), Rs2(b)) => spec_lower_reg_op(rd, a, b, SOp::I64Mul),
        RV32M::MULH(Rd(rd), Rs1(a), Rs2(b)) => seq![
            WatOp::Op(SOp::GetX(a)),
            WatOp::Op(SOp::GetX(b)),
            WatOp::Op(SOp::I64Mul),
            WatOp::Op(SOp::ConstI64(32)),
            WatOp::Op(SOp::I64ShrS),
            WatOp::Op(spec_set_rd(rd)),
        ],
        RV32M::MULHSU(Rd(rd), _, _) => seq![
            WatOp::Op(SOp::ConstI64(0)),
            WatOp::Op(spec_set_rd(rd)),
        ],
        RV32M::MULHU(Rd(rd), _, _) => seq![
            WatOp::Op(SOp::ConstI64(0)),
            WatOp::Op(spec_set_rd(rd)),
        ],
        RV32M::DIV(Rd(rd), Rs1(a), Rs2(b)) => spec_lower_div(rd, a, b, SOp::I64DivS),
        RV32M::DIVU(Rd(rd), Rs1(a), Rs2(b)) => spec_lower_div(rd, a, b, SOp::I64DivU),
        RV32M::REM(Rd(rd), Rs1(a), Rs2(b)) => spec_lower_rem(rd, a, b, SOp::I64RemS),
        RV32M::REMU(Rd(rd), Rs1(a), Rs2(b)) => spec_lower_rem(rd, a, b, SOp::I64RemU),
    }
}

/// W-form division with a zero check on the narrowed divisor.
pub open spec fn spec_lower_div_w(rd: u8, a: u8, b: u8, op: SOp) -> Seq<WatOp> {
    seq![
        WatOp::Op(SOp::GetX(b)),
        WatOp::Op(SOp::WrapI64),
        WatOp::Op(SOp::I32Eqz),
        WatOp::IfElse(
            seq![SOp::ConstI64(-1i64), spec_set_rd(rd)],
            seq![
                SOp::GetX(a),
                SOp::WrapI64,
                SOp::GetX(b),
                SOp::WrapI64,
                op,
                SOp::ExtendI32S,
                spec_set_rd(rd),
            ],
        ),
    ]
}

/// W-form remainder with a zero check on the narrowed divisor.
pub open spec fn spec_lower_rem_w(rd: u8, a: u8, b: u8, op: SOp) -> Seq<WatOp> {
    seq![
        WatOp::Op(SOp::GetX(b)),
        WatOp::Op(SOp::WrapI64),
        WatOp::Op(SOp::I32Eqz),
        WatOp::IfElse(
            seq![SOp::GetX(a), spec_set_rd(rd)],
            seq![
                SOp::GetX(a),
                SOp::WrapI64,
                SOp::GetX(b),
                SOp::WrapI64,
                op,
                SOp::ExtendI32S,
                spec_set_rd(rd),
            ],
        ),
    ]
}

/// Lowering of the M extension, W forms.
pub open spec fn spec_lower_rv64m(i: RV64M) -> Seq<WatOp> {
    match i {
        RV64M::MULW(Rd(rd), Rs1(a), Rs2(b)) => spec_lower_reg_op_w(rd, a, b, SOp::I32Mul),
        RV64M::DIVW(Rd(rd), Rs1(a), Rs2(b)) => spec_lower_div_w(rd, a, b, SOp::I32DivS),
        RV64M::DIVUW(Rd(rd), Rs1(a), Rs2(b)) => spec_lower_div_w(rd, a, b, SOp::I32DivU),
        RV64M::REMW(Rd(rd), Rs1(a), Rs2(b)) => spec_lower_rem_w(rd, a, b, SOp::I32RemS),
        RV64M::REMUW(Rd(rd), Rs1(a), Rs2(b)) => spec_lower_rem_w(rd, a, b, SOp::I32RemU),
    }
}

/// Lowering of the vector family: only the configuration forms touch state.
pub open spec fn spec_lower_rvv(i: RVV) -> Seq<WatOp> {
    match i {
        RVV::VSETVLI(Rd(rd), Rs1(rs1), _) => seq![
            WatOp::Op(SOp::GetX(rs1)),
            WatOp::Op(SOp::SetVl),
            WatOp::Op(SOp::GetVl),
            WatOp::Op(spec_set_rd(rd)),
        ],
        RVV::VSETIVLI(Rd(rd), _, _) => seq![
            WatOp::Op(SOp::ConstI64(0)),
            WatOp::Op(spec_set_rd(rd)),
        ],
        RVV::VSETVL(Rd(rd), Rs1(a), Rs2(b)) => seq![
            WatOp::Op(SOp::GetX(a)),
            WatOp::Op(SOp::SetVl),
            WatOp::Op(SOp::GetX(b)),
            WatOp::Op(SOp::SetVtype),
            WatOp::Op(SOp::GetVl),
            WatOp::Op(spec_set_rd(rd)),
        ],
        RVV::Other(_) => seq![WatOp::Op(SOp::Comment)],
    }
}

/// Lowering of any decoded instruction: unknown, compressed and the
/// canonical NOP leave a placeholder comment and let the dispatcher advance
/// the program counter.
pub open spec fn spec_lower(i: Instr) -> Seq<WatOp> {
    match i {
        Instr::RV32(RV32Instr::RV32I(x)) => spec_lower_rv32i(x),
        Instr::RV32(RV32Instr::RV32M(x)) => spec_lower_rv32m(x),
        Instr::RV32(RV32Instr::RVV(x)) => spec_lower_rvv(x),
        Instr::RV64(RV64Instr::RV64I(x)) => spec_lower_rv64i(x),
        Instr::RV64(RV64Instr::RV64M(x)) => spec_lower_rv64m(x),
        Instr::NOP => seq![WatOp::Op(SOp::Comment)],
        Instr::Compressed(_) => seq![WatOp::Op(SOp::Comment)],
        Instr::Unknown(_) => seq![WatOp::Op(SOp::Comment)],
    }
}

/// Whether the instruction writes `$pc` itself on every path; the dispatcher
/// appends `$pc := $pc + 4` exactly when it does not.
pub open spec fn spec_modifies_pc(i: Instr) -> bool {
    match i {
        Instr::RV32(RV32Instr::RV32I(x)) => match x {
            RV32I::JAL(_, _) => true,
            RV32I::JALR(_, _, _) => true,
            RV32I::BEQ(_, _, _) => true,
            RV32I::BNE(_, _, _) => true,
            RV32I::BLT(_, _, _) => true,
            RV32I::BGE(_, _, _) => true,
            RV32I::BLTU(_, _, _) => true,
            RV32I::BGEU(_, _, _) => true,
            _ => false,
        },
        _ => false,
    }
}

// ---------------------------------------------------------------------------
// The exact text of a fragment
// ---------------------------------------------------------------------------

/// The dispatch guard: compare `$pc` with the instruction's address and, when
/// they match, retire the instruction by incrementing `$instr_count`.
pub open spec fn spec_guard_text(pc: u64) -> Seq<char> {
    "    ;; pc "@ + spec_dec_nat(pc as nat) + "\n    global.get $pc\n    i64.const "@
        + spec_dec_nat(pc as nat)
        + "\n    i64.eq\n    if\n    global.get $instr_count\n    i64.const 1\n    i64.add\n    global.set $instr_count\n"@
}

/// The `$pc := $pc + 4` advance appended to non-control-flow fragments.
pub open spec fn spec_pc_adv_text() -> Seq<char> {
    "    global.get $pc\n    i64.const 4\n    i64.add\n    global.set $pc\n"@
}

/// The full text one `emit_instruction` call appends.
pub open spec fn spec_fragment_text(pc: u64, i: Instr) -> Seq<char> {
    spec_guard_text(pc) + spec_render_ops(spec_lower(i)) + (if spec_modifies_pc(i) {
        Seq::<char>::empty()
    } else {
        spec_pc_adv_text()
    }) + "    end\n"@
}

// ---------------------------------------------------------------------------
// Append helpers, one per fragment arity
// ---------------------------------------------------------------------------

fn app_ops1(out: &mut String, a: SOp)
    ensures
        final(out)@ == old(out)@ + spec_render_ops(seq![WatOp::Op(a)]),
{
    append_sop(out, a);
    proof {
        reveal_with_fuel(spec_render_ops, 3);
        assert(out@ =~= old(out)@ + spec_render_ops(seq![WatOp::Op(a)]));
    }
}

fn app_ops2(out: &mut String, a: SOp, b: SOp)
    ensures
        final(out)@ == old(out)@ + spec_render_ops(seq![WatOp::Op(a), WatOp::Op(b)]),
{
    append_sop(out, a);
    append_sop(out, b);
    proof {
        reveal_with_fuel(spec_render_ops, 4);
        assert(out@ =~= old(out)@ + spec_render_ops(seq![WatOp::Op(a), WatOp::Op(b)]));
    }
}

fn app_ops4(out: &mut String, a: SOp, b: SOp, c: SOp, d: SOp)
    ensures
        final(out)@ == old(out)@ + spec_render_ops(
            seq![WatOp::Op(a), WatOp::Op(b), WatOp::Op(c), WatOp::Op(d)],
        ),
{
    append_sop(out, a);
    append_sop(out, b);
    append_sop(out, c);
    append_sop(out, d);
    proof {
        reveal_with_fuel(spec_render_ops, 6);
        assert(out@ =~= old(out)@ + spec_render_ops(
            seq![WatOp::Op(a), WatOp::Op(b), WatOp::Op(c), WatOp::Op(d)],
        ));
    }
}

fn app_ops5(out: &mut String, a: SOp, b: SOp, c: SOp, d: SOp, e: SOp)
    ensures
        final(out)@ == old(out)@ + spec_render_ops(
            seq![WatOp::Op(a), WatOp::Op(b), WatOp::Op(c), WatOp::Op(d), WatOp::Op(e)],
        ),
{
    append_sop(out, a);
    append_sop(out, b);
    append_sop(out, c);
    append_sop(out, d);
    append_sop(out, e);
    proof {
        reveal_with_fuel(spec_render_ops, 7);
        assert(out@ =~= old(out)@ + spec_render_ops(
            seq![WatOp::Op(a), WatOp::Op(b), WatOp::Op(c), WatOp::Op(d), WatOp::Op(e)],
        ));
    }
}

fn app_ops6(out: &mut String, a: SOp, b: SOp, c: SOp, d: SOp, e: SOp, f: SOp)
    ensures
        final(out)@ == old(out)@ + spec_render_ops(
            seq![
                WatOp::Op(a),
                WatOp::Op(b),
                WatOp::Op(c),
                WatOp::Op(d),
                WatOp::Op(e),
                WatOp::Op(f),
            ],
        ),
{
    append_sop(out, a);
    append_sop(out, b);
    append_sop(out, c);
    append_sop(out, d);
    append_sop(out, e);
    append_sop(out, f);
    proof {
        reveal_with_fuel(spec_render_ops, 8);
        assert(out@ =~= old(out)@ + spec_render_ops(
            seq![
                WatOp::Op(a),
                WatOp::Op(b),
                WatOp::Op(c),
                WatOp::Op(d),
                WatOp::Op(e),
                WatOp::Op(f),
            ],
        ));
    }
}

fn app_ops7(out: &mut String, a: SOp, b: SOp, c: SOp, d: SOp, e: SOp, f: SOp, g: SOp)
    ensures
        final(out)@ == old(out)@ + spec_render_ops(
            seq![
                WatOp::Op(a),
                WatOp::Op(b),
                WatOp::Op(c),
                WatOp::Op(d),
                WatOp::Op(e),
                WatOp::Op(f),
                WatOp::Op(g),
            ],
        ),
{
    append_sop(out, a);
    append_sop(out, b);
    append_sop(out, c);
    append_sop(out, d);
    append_sop(out, e);
    append_sop(out, f);
    append_sop(out, g);
    proof {
        reveal_with_fuel(spec_render_ops, 9);
        assert(out@ =~= old(out)@ + spec_render_ops(
            seq![
                WatOp::Op(a),
                WatOp::Op(b),
                WatOp::Op(c),
                WatOp::Op(d),
                WatOp::Op(e),
                WatOp::Op(f),
                WatOp::Op(g),
            ],
        ));
    }
}

fn app_ops8(out: &mut String, a: SOp, b: SOp, c: SOp, d: SOp, e: SOp, f: SOp, g: SOp, h: SOp)
    ensures
        final(out)@ == old(out)@ + spec_render_ops(
            seq![
                WatOp::Op(a),
                WatOp::Op(b),
                WatOp::Op(c),
                WatOp::Op(d),
                WatOp::Op(e),
                WatOp::Op(f),
                WatOp::Op(g),
                WatOp::Op(h),
            ],
        ),
{
    append_sop(out, a);
    append_sop(out, b);
    append_sop(out, c);
    append_sop(out, d);
    append_sop(out, e);
    append_sop(out, f);
    append_sop(out, g);
    append_sop(out, h);
    proof {
        reveal_with_fuel(spec_render_ops, 10);
        assert(out@ =~= old(out)@ + spec_render_ops(
            seq![
                WatOp::Op(a),
                WatOp::Op(b),
                WatOp::Op(c),
                WatOp::Op(d),
                WatOp::Op(e),
                WatOp::Op(f),
                WatOp::Op(g),
                WatOp::Op(h),
            ],
        ));
    }
}

fn app_ops9(
    out: &mut String,
    a: SOp,
    b: SOp,
    c: SOp,
    d: SOp,
    e: SOp,
    f: SOp,
    g: SOp,
    h: SOp,
    i: SOp,
)
    ensures
        final(out)@ == old(out)@ + spec_render_ops(
            seq![
                WatOp::Op(a),
                WatOp::Op(b),
                WatOp::Op(c),
                WatOp::Op(d),
                WatOp::Op(e),
                WatOp::Op(f),
                WatOp::Op(g),
                WatOp::Op(h),
                WatOp::Op(i),
            ],
        ),
{
    append_sop(out, a);
    append_sop(out, b);
    append_sop(out, c);
    append_sop(out, d);
    append_sop(out, e);
    append_sop(out, f);
    append_sop(out, g);
    append_sop(out, h);
    append_sop(out, i);
    proof {
        reveal_with_fuel(spec_render_ops, 11);
        assert(out@ =~= old(out)@ + spec_render_ops(
            seq![
                WatOp::Op(a),
                WatOp::Op(b),
                WatOp::Op(c),
                WatOp::Op(d),
                WatOp::Op(e),
                WatOp::Op(f),
                WatOp::Op(g),
                WatOp::Op(h),
                WatOp::Op(i),
            ],
        ));
    }
}

#[verifier::rlimit(60)]
fn app_ops10(
    out: &mut String,
    a: SOp,
    b: SOp,
    c: SOp,
    d: SOp,
    e: SOp,
    f: SOp,
    g: SOp,
    h: SOp,
    i: SOp,
    j: SOp,
)
    ensures
        final(out)@ == old(out)@ + spec_render_ops(
            seq![
                WatOp::Op(a),
                WatOp::Op(b),
                WatOp::Op(c),
                WatOp::Op(d),
                WatOp::Op(e),
                WatOp::Op(f),
                WatOp::Op(g),
                WatOp::Op(h),
                WatOp::Op(i),
                WatOp::Op(j),
            ],
        ),
{
    append_sop(out, a);
    append_sop(out, b);
    append_sop(out, c);
    append_sop(out, d);
    append_sop(out, e);
    append_sop(out, f);
    append_sop(out, g);
    append_sop(out, h);
    append_sop(out, i);
    append_sop(out, j);
    proof {
        reveal_with_fuel(spec_render_ops, 12);
        assert(out@ =~= old(out)@ + spec_render_ops(
            seq![
                WatOp::Op(a),
                WatOp::Op(b),
                WatOp::Op(c),
                WatOp::Op(d),
                WatOp::Op(e),
                WatOp::Op(f),
                WatOp::Op(g),
                WatOp::Op(h),
                WatOp::Op(i),
                WatOp::Op(j),
            ],
        ));
    }
}

/// Three flat ops followed by one `if`/`else`/`end` block.
fn app_flat3_ifelse(
    out: &mut String,
    a: SOp,
    b: SOp,
    c: SOp,
    then_ops: Vec<SOp>,
    else_ops: Vec<SOp>,
)
    ensures
        final(out)@ == old(out)@ + spec_render_ops(
            seq![
                WatOp::Op(a),
                WatOp::Op(b),
                WatOp::Op(c),
                WatOp::IfElse(then_ops@, else_ops@),
            ],
        ),
{
    append_sop(out, a);
    append_sop(out, b);
    append_sop(out, c);
    append_ifelse(out, &then_ops, &else_ops);
    proof {
        reveal_with_fuel(spec_render_ops, 6);
        assert(out@ =~= old(out)@ + spec_render_ops(
            seq![
                WatOp::Op(a),
                WatOp::Op(b),
                WatOp::Op(c),
                WatOp::IfElse(then_ops@, else_ops@),
            ],
        ));
    }
}

/// Two flat ops followed by one `if`/`else`/`end` block.
fn app_flat2_ifelse(out: &mut String, a: SOp, b: SOp, then_ops: Vec<SOp>, else_ops: Vec<SOp>)
    ensures
        final(out)@ == old(out)@ + spec_render_ops(
            seq![WatOp::Op(a), WatOp::Op(b), WatOp::IfElse(then_ops@, else_ops@)],
        ),
{
    append_sop(out, a);
    append_sop(out, b);
    append_ifelse(out, &then_ops, &else_ops);
    proof {
        reveal_with_fuel(spec_render_ops, 5);
        assert(out@ =~= old(out)@ + spec_render_ops(
            seq![WatOp::Op(a), WatOp::Op(b), WatOp::IfElse(then_ops@, else_ops@)],
        ));
    }
}

fn mk_div_then(rd: u8) -> (v: Vec<SOp>)
    ensures
        v@ == seq![SOp::ConstI64(-1i64), spec_set_rd(rd)],
{
    let mut v: Vec<SOp> = Vec::new();
    v.push(SOp::ConstI64(-1i64));
    v.push(set_rd(rd));
    proof {
        assert(v@ =~= seq![SOp::ConstI64(-1i64), spec_set_rd(rd)]);
    }
    v
}

fn mk_rem_then(rd: u8, a: u8) -> (v: Vec<SOp>)
    ensures
        v@ == seq![SOp::GetX(a), spec_set_rd(rd)],
{
    let mut v: Vec<SOp> = Vec::new();
    v.push(SOp::GetX(a));
    v.push(set_rd(rd));
    proof {
        assert(v@ =~= seq![SOp::GetX(a), spec_set_rd(rd)]);
    }
    v
}

fn mk_div_else(rd: u8, a: u8, b: u8, op: SOp) -> (v: Vec<SOp>)
    ensures
        v@ == seq![SOp::GetX(a), SOp::GetX(b), op, spec_set_rd(rd)],
{
    let mut v: Vec<SOp> = Vec::new();
    v.push(SOp::GetX(a));
    v.push(SOp::GetX(b));
    v.push(op);
    v.push(set_rd(rd));
    proof {
        assert(v@ =~= seq![SOp::GetX(a), SOp::GetX(b), op, spec_set_rd(rd)]);
    }
    v
}

fn mk_div_else_w(rd: u8, a: u8, b: u8, op: SOp) -> (v: Vec<SOp>)
    ensures
        v@ == seq![
            SOp::GetX(a),
            SOp::WrapI64,
            SOp::GetX(b),
            SOp::WrapI64,
            op,
            SOp::ExtendI32S,
            spec_set_rd(rd),
        ],
{
    let mut v: Vec<SOp> = Vec::new();
    v.push(SOp::GetX(a));
    v.push(SOp::WrapI64);
    v.push(SOp::GetX(b));
    v.push(SOp::WrapI64);
    v.push(op);
    v.push(SOp::ExtendI32S);
    v.push(set_rd(rd));
    proof {
        assert(v@ =~= seq![
            SOp::GetX(a),
            SOp::WrapI64,
            SOp::GetX(b),
            SOp::WrapI64,
            op,
            SOp::ExtendI32S,
            spec_set_rd(rd),
        ]);
    }
    v
}

// ---------------------------------------------------------------------------
// The emitter
// ---------------------------------------------------------------------------

/// Translates decoded instructions to WAT fragments inside a dispatched
/// interpreter loop.
pub struct WasmEmitter {
    /// Accumulated WAT text.
    pub wat_code: String,
    /// Number of instructions emitted so far.
    pub instr_count: usize,
    /// Whether a function definition is currently open.
    pub in_block: bool,
    /// Reserved label counter.
    pub label_counter: usize,
}

/// Text opening a function definition that is also exported under its name.
pub open spec fn spec_start_function_text(name: Seq<char>) -> Seq<char> {
    "  (func $"@ + name + " (export \""@ + name + "\")\n"@
}

/// Text opening the dispatch loop.
pub open spec fn spec_start_loop_text() -> Seq<char> {
    "    (loop $interpreter_loop\n"@
}

/// Text closing the dispatch loop: branch back while `$exit_flag` is zero.
pub open spec fn spec_end_loop_text() -> Seq<char> {
    "    global.get $exit_flag\n    i32.const 0\n    i32.eq\n    br_if $interpreter_loop\n    )\n"@
}

/// Text closing a function definition.
pub open spec fn spec_end_function_text() -> Seq<char> {
    "  )\n"@
}

fn append_guard(out: &mut String, pc: u64)
    ensures
        final(out)@ == old(out)@ + spec_guard_text(pc),
{
    out.append("    ;; pc ");
    append_dec_u64(out, pc);
    out.append("\n    global.get $pc\n    i64.const ");
    append_dec_u64(out, pc);
    out.append(
        "\n    i64.eq\n    if\n    global.get $instr_count\n    i64.const 1\n    i64.add\n    global.set $instr_count\n",
    );
    proof {
        assert(out@ =~= old(out)@ + spec_guard_text(pc));
    }
}

impl WasmEmitter {
    /// A fresh emitter with no text accumulated.
    pub fn new() -> (r: Self)
        ensures
            r.wat_code@ == Seq::<char>::empty(),
            r.instr_count == 0,
            !r.in_block,
            r.label_counter == 0,
    {
        WasmEmitter {
            wat_code: String::new(),
            instr_count: 0,
            in_block: false,
            label_counter: 0,
        }
    }

    /// Open a function definition, exported under the same name.
    pub fn start_function(&mut self, name: &str)
        ensures
            final(self).wat_code@ == old(self).wat_code@ + spec_start_function_text(name@),
            final(self).instr_count == old(self).instr_count,
            final(self).in_block,
            final(self).label_counter == old(self).label_counter,
    {
        self.wat_code.append("  (func $");
        self.wat_code.append(name);
        self.wat_code.append(" (export \"");
        self.wat_code.append(name);
        self.wat_code.append("\")\n");
        self.in_block = true;
        proof {
            assert(self.wat_code@ =~= old(self).wat_code@ + spec_start_function_text(name@));
        }
    }

    /// Open the dispatch loop.
    pub fn start_loop(&mut self)
        ensures
            final(self).wat_code@ == old(self).wat_code@ + spec_start_loop_text(),
            final(self).instr_count == old(self).instr_count,
            final(self).in_block == old(self).in_block,
            final(self).label_counter == old(self).label_counter,
    {
        self.wat_code.append("    (loop $interpreter_loop\n");
    }

    /// Close the dispatch loop: the loop is re-entered exactly while
    /// `$exit_flag` is still zero.
    pub fn end_loop_with_exit_check(&mut self)
        ensures
            final(self).wat_code@ == old(self).wat_code@ + spec_end_loop_text(),
            final(self).instr_count == old(self).instr_count,
            final(self).in_block == old(self).in_block,
            final(self).label_counter == old(self).label_counter,
    {
        self.wat_code.append(
            "    global.get $exit_flag\n    i32.const 0\n    i32.eq\n    br_if $interpreter_loop\n    )\n",
        );
    }

    /// Close the current function definition.
    pub fn end_function(&mut self)
        ensures
            final(self).wat_code@ == old(self).wat_code@ + spec_end_function_text(),
            final(self).instr_count == old(self).instr_count,
            !final(self).in_block,
            final(self).label_counter == old(self).label_counter,
    {
        self.wat_code.append("  )\n");
        self.in_block = false;
    }

    /// Hand out the accumulated WAT text.
    pub fn finalize(self) -> (r: String)
        ensures
            r@ == self.wat_code@,
    {
        self.wat_code
    }

    /// Append one dispatch fragment for the instruction at the given address.
    /// Every decoded instruction lowers; the call always succeeds.
    pub fn emit_instruction(&mut self, pc: u64, instr: &Instruction) -> (r: Result<(), String>)
        requires
            old(self).instr_count < usize::MAX,
        ensures
            r is Ok,
            final(self).wat_code@ == old(self).wat_code@ + spec_fragment_text(pc, instr.instr),
            final(self).instr_count == old(self).instr_count + 1,
            final(self).in_block == old(self).in_block,
            final(self).label_counter == old(self).label_counter,
    {
        append_guard(&mut self.wat_code, pc);
        let modifies_pc = match &instr.instr {
            Instr::RV32(RV32Instr::RV32I(x)) => match x {
                RV32I::JAL(_, _) => true,
                RV32I::JALR(_, _, _) => true,
                RV32I::BEQ(_, _, _) => true,
                RV32I::BNE(_, _, _) => true,
                RV32I::BLT(_, _, _) => true,
                RV32I::BGE(_, _, _) => true,
                RV32I::BLTU(_, _, _) => true,
                RV32I::BGEU(_, _, _) => true,
                _ => false,
            },
            _ => false,
        };
        match &instr.instr {
            Instr::RV32(RV32Instr::RV32I(x)) => self.emit_rv32i(x),
            Instr::RV32(RV32Instr::RV32M(x)) => self.emit_rv32m(x),
            Instr::RV32(RV32Instr::RVV(x)) => self.emit_rvv(x),
            Instr::RV64(RV64Instr::RV64I(x)) => self.emit_rv64i(x),
            Instr::RV64(RV64Instr::RV64M(x)) => self.emit_rv64m(x),
            Instr::NOP => app_ops1(&mut self.wat_code, SOp::Comment),
            Instr::Compressed(_) => app_ops1(&mut self.wat_code, SOp::Comment),
            Instr::Unknown(_) => app_ops1(&mut self.wat_code, SOp::Comment),
        }
        if !modifies_pc {
            self.wat_code.append(
                "    global.get $pc\n    i64.const 4\n    i64.add\n    global.set $pc\n",
            );
        }
        self.wat_code.append("    end\n");
        self.instr_count = self.instr_count + 1;
        proof {
            assert(self.wat_code@ =~= old(self).wat_code@ + spec_fragment_text(pc, instr.instr));
        }
        Ok(())
    }

    /// Lower one RV32I base instruction.
    fn emit_rv32i(&mut self, instr: &RV32I)
        ensures
            final(self).wat_code@ == old(self).wat_code@ + spec_render_ops(
                spec_lower_rv32i(*instr),
            ),
            final(self).instr_count == old(self).instr_count,
            final(self).in_block == old(self).in_block,
            final(self).label_counter == old(self).label_counter,
    {
        match *instr {
            RV32I::LUI(Rd(rd), imm) => {
                app_ops2(&mut self.wat_code, SOp::ConstI64(imm.raw_shifted()), set_rd(rd));
            },
            RV32I::AUIPC(Rd(rd), imm) => {
                app_ops4(
                    &mut self.wat_code,
                    SOp::GetPc,
                    SOp::ConstI64(imm.raw_shifted()),
                    SOp::I64Add,
                    set_rd(rd),
                );
            },
            RV32I::JAL(Rd(rd), imm) => {
                if rd == 0 {
                    app_ops4(
                        &mut self.wat_code,
                        SOp::GetPc,
                        SOp::ConstI64(imm.signed()),
                        SOp::I64Add,
                        SOp::SetPc,
                    );
                } else {
                    app_ops8(
                        &mut self.wat_code,
                        SOp::GetPc,
                        SOp::ConstI64(4),
                        SOp::I64Add,
                        SOp::SetX(rd),
                        SOp::GetPc,
                        SOp::ConstI64(imm.signed()),
                        SOp::I64Add,
                        SOp::SetPc,
                    );
                }
            },
            RV32I::JALR(Rd(rd), Rs1(rs1), imm) => {
                if rd == 0 {
                    app_ops6(
                        &mut self.wat_code,
                        SOp::GetX(rs1),
                        SOp::ConstI64(imm.signed()),
                        SOp::I64Add,
                        SOp::ConstI64(-2i64),
                        SOp::I64And,
                        SOp::SetPc,
                    );
                } else {
                    app_ops10(
                        &mut self.wat_code,
                        SOp::GetPc,
                        SOp::ConstI64(4),
                        SOp::I64Add,
                        SOp::SetX(rd),
                        SOp::GetX(rs1),
                        SOp::ConstI64(imm.signed()),
                        SOp::I64Add,
                        SOp::ConstI64(-2i64),
                        SOp::I64And,
                        SOp::SetPc,
                    );
                }
            },
            RV32I::BEQ(Rs1(a), Rs2(b), imm) => {
                self.emit_branch(a, b, SOp::I64Eq, imm);
                return ;
            },
            RV32I::BNE(Rs1(a), Rs2(b), imm) => {
                self.emit_branch(a, b, SOp::I64Ne, imm);
                return ;
            },
            RV32I::BLT(Rs1(a), Rs2(b), imm) => {
                self.emit_branch(a, b, SOp::I64LtS, imm);
                return ;
            },
            RV32I::BGE(Rs1(a), Rs2(b), imm) => {
                self.emit_branch(a, b, SOp::I64GeS, imm);
                return ;
            },
            RV32I::BLTU(Rs1(a), Rs2(b), imm) => {
                self.emit_branch(a, b, SOp::I64LtU, imm);
                return ;
            },
            RV32I::BGEU(Rs1(a), Rs2(b), imm) => {
                self.emit_branch(a, b, SOp::I64GeU, imm);
                return ;
            },
            RV32I::LB(Rd(rd), Rs1(rs1), imm) => {
                app_ops7(
                    &mut self.wat_code,
                    SOp::GetX(rs1),
                    SOp::ConstI64(imm.signed()),
                    SOp::I64Add,
                    SOp::VaddrToOffset,
                    SOp::I32Load8S,
                    SOp::ExtendI32S,
                    set_rd(rd),
                );
                proof {
                    assert(spec_lower_rv32i(*instr) =~= seq![
                        WatOp::Op(SOp::GetX(rs1)),
                        WatOp::Op(SOp::ConstI64(spec_signed_i64(imm))),
                        WatOp::Op(SOp::I64Add),
                        WatOp::Op(SOp::VaddrToOffset),
                        WatOp::Op(SOp::I32Load8S),
                        WatOp::Op(SOp::ExtendI32S),
                        WatOp::Op(spec_set_rd(rd)),
                    ]);
                }
            },
            RV32I::LH(Rd(rd), Rs1(rs1), imm) => {
                app_ops7(
                    &mut self.wat_code,
                    SOp::GetX(rs1),
                    SOp::ConstI64(imm.signed()),
                    SOp::I64Add,
                    SOp::VaddrToOffset,
                    SOp::I32Load16S,
                    SOp::ExtendI32S,
                    set_rd(rd),
                );
                proof {
                    assert(spec_lower_rv32i(*instr) =~= seq![
                        WatOp::Op(SOp::GetX(rs1)),
                        WatOp::Op(SOp::ConstI64(spec_signed_i64(imm))),
                        WatOp::Op(SOp::I64Add),
                        WatOp::Op(SOp::VaddrToOffset),
                        WatOp::Op(SOp::I32Load16S),
                        WatOp::Op(SOp::ExtendI32S),
                        WatOp::Op(spec_set_rd(rd)),
                    ]);
                }
            },
            RV32I::LW(Rd(rd), Rs1(rs1), imm) => {
                app_ops7(
                    &mut self.wat_code,
                    SOp::GetX(rs1),
                    SOp::ConstI64(imm.signed()),
                    SOp::I64Add,
                    SOp::VaddrToOffset,
                    SOp::I32Load,
                    SOp::ExtendI32S,
                    set_rd(rd),
                );
                proof {
                    assert(spec_lower_rv32i(*instr) =~= seq![
                        WatOp::Op(SOp::GetX(rs1)),
                        WatOp::Op(SOp::ConstI64(spec_signed_i64(imm))),
                        WatOp::Op(SOp::I64Add),
                        WatOp::Op(SOp::VaddrToOffset),
                        WatOp::Op(SOp::I32Load),
                        WatOp::Op(SOp::ExtendI32S),
                        WatOp::Op(spec_set_rd(rd)),
                    ]);
                }
            },
            RV32I::LBU(Rd(rd), Rs1(rs1), imm) => {
                app_ops7(
                    &mut self.wat_code,
                    SOp::GetX(rs1),
                    SOp::ConstI64(imm.signed()),
                    SOp::I64Add,
                    SOp::VaddrToOffset,
                    SOp::I32Load8U,
                    SOp::ExtendI32U,
                    set_rd(rd),
                );
                proof {
                    assert(spec_lower_rv32i(*instr) =~= seq![
                        WatOp::Op(SOp::GetX(rs1)),
                        WatOp::Op(SOp::ConstI64(spec_signed_i64(imm))),
                        WatOp::Op(SOp::I64Add),
                        WatOp::Op(SOp::VaddrToOffset),
                        WatOp::Op(SOp::I32Load8U),
                        WatOp::Op(SOp::ExtendI32U),
                        WatOp::Op(spec_set_rd(rd)),
                    ]);
                }
            },
            RV32I::LHU(Rd(rd), Rs1(rs1), imm) => {
                app_ops7(
                    &mut self.wat_code,
                    SOp::GetX(rs1),
                    SOp::ConstI64(imm.signed()),
                    SOp::I64Add,
                    SOp::VaddrToOffset,
                    SOp::I32Load16U,
                    SOp::ExtendI32U,
                    set_rd(rd),
                );
                proof {
                    assert(spec_lower_rv32i(*instr) =~= seq![
                        WatOp::Op(SOp::GetX(rs1)),
                        WatOp::Op(SOp::ConstI64(spec_signed_i64(imm))),
                        WatOp::Op(SOp::I64Add),
                        WatOp::Op(SOp::VaddrToOffset),
                        WatOp::Op(SOp::I32Load16U),
                        WatOp::Op(SOp::ExtendI32U),
                        WatOp::Op(spec_set_rd(rd)),
                    ]);
                }
            },
            RV32I::SB(Rs1(rs1), Rs2(rs2), imm) => {
                app_ops7(
                    &mut self.wat_code,
                    SOp::GetX(rs1),
                    SOp::ConstI64(imm.signed()),
                    SOp::I64Add,
                    SOp::VaddrToOffset,
                    SOp::GetX(rs2),
                    SOp::WrapI64,
                    SOp::I32Store8,
                );
                proof {
                    assert(spec_lower_rv32i(*instr) =~= seq![
                        WatOp::Op(SOp::GetX(rs1)),
                        WatOp::Op(SOp::ConstI64(spec_signed_i64(imm))),
                        WatOp::Op(SOp::I64Add),
                        WatOp::Op(SOp::VaddrToOffset),
                        WatOp::Op(SOp::GetX(rs2)),
                        WatOp::Op(SOp::WrapI64),
                        WatOp::Op(SOp::I32Store8),
                    ]);
                }
            },
            RV32I::SH(Rs1(rs1), Rs2(rs2), imm) => {
                app_ops7(
                    &mut self.wat_code,
                    SOp::GetX(rs1),
                    SOp::ConstI64(imm.signed()),
                    SOp::I64Add,
                    SOp::VaddrToOffset,
                    SOp::GetX(rs2),
                    SOp::WrapI64,
                    SOp::I32Store16,
                );
                proof {
                    assert(spec_lower_rv32i(*instr) =~= seq![
                        WatOp::Op(SOp::GetX(rs1)),
                        WatOp::Op(SOp::ConstI64(spec_signed_i64(imm))),
                        WatOp::Op(SOp::I64Add),
                        WatOp::Op(SOp::VaddrToOffset),
                        WatOp::Op(SOp::GetX(rs2)),
                        WatOp::Op(SOp::WrapI64),
                        WatOp::Op(SOp::I32Store16),
                    ]);
                }
            },
            RV32I::SW(Rs1(rs1), Rs2(rs2), imm) => {
                app_ops7(
                    &mut self.wat_code,
                    SOp::GetX(rs1),
                    SOp::ConstI64(imm.signed()),
                    SOp::I64Add,
                    SOp::VaddrToOffset,
                    SOp::GetX(rs2),
                    SOp::WrapI64,
                    SOp::I32Store,
                );
                proof {
                    assert(spec_lower_rv32i(*instr) =~= seq![
                        WatOp::Op(SOp::GetX(rs1)),
                        WatOp::Op(SOp::ConstI64(spec_signed_i64(imm))),
                        WatOp::Op(SOp::I64Add),
                        WatOp::Op(SOp::VaddrToOffset),
                        WatOp::Op(SOp::GetX(rs2)),
                        WatOp::Op(SOp::WrapI64),
                        WatOp::Op(SOp::I32Store),
                    ]);
                }
            },
            RV32I::ADDI(Rd(rd), Rs1(rs1), imm) => {
                app_ops4(&mut self.wat_code, SOp::GetX(rs1), SOp::ConstI64(imm.signed()), SOp::I64Add, set_rd(rd));
            },
            RV32I::SLTI(Rd(rd), Rs1(rs1), imm) => {
                app_ops5(
                    &mut self.wat_code,
                    SOp::GetX(rs1),
                    SOp::ConstI64(imm.signed()),
                    SOp::I64LtS,
                    SOp::ExtendI32U,
                    set_rd(rd),
                );
            },
            RV32I::SLTIU(Rd(rd), Rs1(rs1), imm) => {
                app_ops5(
                    &mut self.wat_code,
                    SOp::GetX(rs1),
                    SOp::ConstI64(imm.signed()),
                    SOp::I64LtU,
                    SOp::ExtendI32U,
                    set_rd(rd),
                );
            },
            RV32I::XORI(Rd(rd), Rs1(rs1), imm) => {
                app_ops4(&mut self.wat_code, SOp::GetX(rs1), SOp::ConstI64(imm.signed()), SOp::I64Xor, set_rd(rd));
            },
            RV32I::ORI(Rd(rd), Rs1(rs1), imm) => {
                app_ops4(&mut self.wat_code, SOp::GetX(rs1), SOp::ConstI64(imm.signed()), SOp::I64Or, set_rd(rd));
            },
            RV32I::ANDI(Rd(rd), Rs1(rs1), imm) => {
                app_ops4(&mut self.wat_code, SOp::GetX(rs1), SOp::ConstI64(imm.signed()), SOp::I64And, set_rd(rd));
            },
            RV32I::ADD(Rd(rd), Rs1(a), Rs2(b)) => {
                app_ops4(&mut self.wat_code, SOp::GetX(a), SOp::GetX(b), SOp::I64Add, set_rd(rd));
            },
            RV32I::SUB(Rd(rd), Rs1(a), Rs2(b)) => {
                app_ops4(&mut self.wat_code, SOp::GetX(a), SOp::GetX(b), SOp::I64Sub, set_rd(rd));
            },
            RV32I::SLL(Rd(rd), Rs1(a), Rs2(b)) => {
                app_ops6(
                    &mut self.wat_code,
                    SOp::GetX(a),
                    SOp::GetX(b),
                    SOp::ConstI64(63),
                    SOp::I64And,
                    SOp::I64Shl,
                    set_rd(rd),
                );
            },
            RV32I::SLT(Rd(rd), Rs1(a), Rs2(b)) => {
                app_ops5(&mut self.wat_code, SOp::GetX(a), SOp::GetX(b), SOp::I64LtS, SOp::ExtendI32U, set_rd(rd));
            },
            RV32I::SLTU(Rd(rd), Rs1(a), Rs2(b)) => {
                app_ops5(&mut self.wat_code, SOp::GetX(a), SOp::GetX(b), SOp::I64LtU, SOp::ExtendI32U, set_rd(rd));
            },
            RV32I::XOR(Rd(rd), Rs1(a), Rs2(b)) => {
                app_ops4(&mut self.wat_code, SOp::GetX(a), SOp::GetX(b), SOp::I64Xor, set_rd(rd));
            },
            RV32I::SRL(Rd(rd), Rs1(a), Rs2(b)) => {
                app_ops6(
                    &mut self.wat_code,
                    SOp::GetX(a),
                    SOp::GetX(b),
                    SOp::ConstI64(63),
                    SOp::I64And,
                    SOp::I64ShrU,
                    set_rd(rd),
                );
            },
            RV32I::SRA(Rd(rd), Rs1(a), Rs2(b)) => {
                app_ops6(
                    &mut self.wat_code,
                    SOp::GetX(a),
                    SOp::GetX(b),
                    SOp::ConstI64(63),
                    SOp::I64And,
                    SOp::I64ShrS,
                    set_rd(rd),
                );
            },
            RV32I::OR(Rd(rd), Rs1(a), Rs2(b)) => {
                app_ops4(&mut self.wat_code, SOp::GetX(a), SOp::GetX(b), SOp::I64Or, set_rd(rd));
            },
            RV32I::AND(Rd(rd), Rs1(a), Rs2(b)) => {
                app_ops4(&mut self.wat_code, SOp::GetX(a), SOp::GetX(b), SOp::I64And, set_rd(rd));
            },
            RV32I::FENCE => app_ops1(&mut self.wat_code, SOp::Comment),
            RV32I::FENCE_TSO => app_ops1(&mut self.wat_code, SOp::Comment),
            RV32I::PAUSE => app_ops1(&mut self.wat_code, SOp::Comment),
            RV32I::ECALL => {
                app_ops9(
                    &mut self.wat_code,
                    SOp::GetX(17),
                    SOp::GetX(10),
                    SOp::GetX(11),
                    SOp::GetX(12),
                    SOp::GetX(13),
                    SOp::GetX(14),
                    SOp::GetX(15),
                    SOp::Syscall,
                    SOp::SetX(10),
                );
            },
            RV32I::EBREAK => app_ops1(&mut self.wat_code, SOp::Comment),
        }
    }

    /// Lower one conditional branch: compare, then write `$pc` on each path.
    fn emit_branch(&mut self, a: u8, b: u8, cmp: SOp, imm: Imm)
        ensures
            final(self).wat_code@ == old(self).wat_code@ + spec_render_ops(
                spec_lower_branch(a, b, cmp, imm),
            ),
            final(self).instr_count == old(self).instr_count,
            final(self).in_block == old(self).in_block,
            final(self).label_counter == old(self).label_counter,
    {
        let taken = mk_pc_add(imm.signed());
        let fall = mk_pc_add(4);
        app_flat3_ifelse(&mut self.wat_code, SOp::GetX(a), SOp::GetX(b), cmp, taken, fall);
    }

    /// Lower one RV64I instruction.
    fn emit_rv64i(&mut self, instr: &RV64I)
        ensures
            final(self).wat_code@ == old(self).wat_code@ + spec_render_ops(
                spec_lower_rv64i(*instr),
            ),
            final(self).instr_count == old(self).instr_count,
            final(self).in_block == old(self).in_block,
            final(self).label_counter == old(self).label_counter,
    {
        match *instr {
            RV64I::LWU(Rd(rd), Rs1(rs1), imm) => {
                app_ops7(
                    &mut self.wat_code,
                    SOp::GetX(rs1),
                    SOp::ConstI64(imm.signed()),
                    SOp::I64Add,
                    SOp::VaddrToOffset,
                    SOp::I32Load,
                    SOp::ExtendI32U,
                    set_rd(rd),
                );
                proof {
                    assert(spec_lower_rv64i(*instr) =~= seq![
                        WatOp::Op(SOp::GetX(rs1)),
                        WatOp::Op(SOp::ConstI64(spec_signed_i64(imm))),
                        WatOp::Op(SOp::I64Add),
                        WatOp::Op(SOp::VaddrToOffset),
                        WatOp::Op(SOp::I32Load),
                        WatOp::Op(SOp::ExtendI32U),
                        WatOp::Op(spec_set_rd(rd)),
                    ]);
                }
            },
            RV64I::LD(Rd(rd), Rs1(rs1), imm) => {
                app_ops6(
                    &mut self.wat_code,
                    SOp::GetX(rs1),
                    SOp::ConstI64(imm.signed()),
                    SOp::I64Add,
                    SOp::VaddrToOffset,
                    SOp::I64Load,
                    set_rd(rd),
                );
                proof {
                    assert(spec_lower_rv64i(*instr) =~= seq![
                        WatOp::Op(SOp::GetX(rs1)),
                        WatOp::Op(SOp::ConstI64(spec_signed_i64(imm))),
                        WatOp::Op(SOp::I64Add),
                        WatOp::Op(SOp::VaddrToOffset),
                        WatOp::Op(SOp::I64Load),
                        WatOp::Op(spec_set_rd(rd)),
                    ]);
                }
            },
            RV64I::SD(Rs1(rs1), Rs2(rs2), imm) => {
                app_ops6(
                    &mut self.wat_code,
                    SOp::GetX(rs1),
                    SOp::ConstI64(imm.signed()),
                    SOp::I64Add,
                    SOp::VaddrToOffset,
                    SOp::GetX(rs2),
                    SOp::I64Store,
                );
                proof {
                    assert(spec_lower_rv64i(*instr) =~= seq![
                        WatOp::Op(SOp::GetX(rs1)),
                        WatOp::Op(SOp::ConstI64(spec_signed_i64(imm))),
                        WatOp::Op(SOp::I64Add),
                        WatOp::Op(SOp::VaddrToOffset),
                        WatOp::Op(SOp::GetX(rs2)),
                        WatOp::Op(SOp::I64Store),
                    ]);
                }
            },
            RV64I::SLLI(Rd(rd), Rs1(rs1), Shamt(s)) => {
                app_ops4(
                    &mut self.wat_code,
                    SOp::GetX(rs1),
                    SOp::ConstI64(s as i64),
                    SOp::I64Shl,
                    set_rd(rd),
                );
            },
            RV64I::SRLI(Rd(rd), Rs1(rs1), Shamt(s)) => {
                app_ops4(
                    &mut self.wat_code,
                    SOp::GetX(rs1),
                    SOp::ConstI64(s as i64),
                    SOp::I64ShrU,
                    set_rd(rd),
                );
            },
            RV64I::SRAI(Rd(rd), Rs1(rs1), Shamt(s)) => {
                app_ops4(
                    &mut self.wat_code,
                    SOp::GetX(rs1),
                    SOp::ConstI64(s as i64),
                    SOp::I64ShrS,
                    set_rd(rd),
                );
            },
            RV64I::ADDIW(Rd(rd), Rs1(rs1), imm) => {
                let c = #[verifier::truncate] (imm.signed() as i32);
                app_ops6(
                    &mut self.wat_code,
                    SOp::GetX(rs1),
                    SOp::WrapI64,
                    SOp::ConstI32(c),
                    SOp::I32Add,
                    SOp::ExtendI32S,
                    set_rd(rd),
                );
            },
            RV64I::SLLIW(Rd(rd), Rs1(rs1), Shamt(s)) => {
                app_ops6(
                    &mut self.wat_code,
                    SOp::GetX(rs1),
                    SOp::WrapI64,
                    SOp::ConstI32(s as i32),
                    SOp::I32Shl,
                    SOp::ExtendI32S,
                    set_rd(rd),
                );
            },
            RV64I::SRLIW(Rd(rd), Rs1(rs1), Shamt(s)) => {
                app_ops6(
                    &mut self.wat_code,
                    SOp::GetX(rs1),
                    SOp::WrapI64,
                    SOp::ConstI32(s as i32),
                    SOp::I32ShrU,
                    SOp::ExtendI32S,
                    set_rd(rd),
                );
            },
            RV64I::SRAIW(Rd(rd), Rs1(rs1), Shamt(s)) => {
                app_ops6(
                    &mut self.wat_code,
                    SOp::GetX(rs1),
                    SOp::WrapI64,
                    SOp::ConstI32(s as i32),
                    SOp::I32ShrS,
                    SOp::ExtendI32S,
                    set_rd(rd),
                );
            },
            RV64I::ADDW(Rd(rd), Rs1(a), Rs2(b)) => {
                self.emit_reg_op_w(rd, a, b, SOp::I32Add);
            },
            RV64I::SUBW(Rd(rd), Rs1(a), Rs2(b)) => {
                self.emit_reg_op_w(rd, a, b, SOp::I32Sub);
            },
            RV64I::SLLW(Rd(rd), Rs1(a), Rs2(b)) => {
                self.emit_shift_reg_w(rd, a, b, SOp::I32Shl);
            },
            RV64I::SRLW(Rd(rd), Rs1(a), Rs2(b)) => {
                self.emit_shift_reg_w(rd, a, b, SOp::I32ShrU);
            },
            RV64I::SRAW(Rd(rd), Rs1(a), Rs2(b)) => {
                self.emit_shift_reg_w(rd, a, b, SOp::I32ShrS);
            },
        }
    }

    /// Lower a W-form register operation.
    fn emit_reg_op_w(&mut self, rd: u8, a: u8, b: u8, op: SOp)
        ensures
            final(self).wat_code@ == old(self).wat_code@ + spec_render_ops(
                spec_lower_reg_op_w(rd, a, b, op),
            ),
            final(self).instr_count == old(self).instr_count,
            final(self).in_block == old(self).in_block,
            final(self).label_counter == old(self).label_counter,
    {
        app_ops7(
            &mut self.wat_code,
            SOp::GetX(a),
            SOp::WrapI64,
            SOp::GetX(b),
            SOp::WrapI64,
            op,
            SOp::ExtendI32S,
            set_rd(rd),
        );
    }

    /// Lower a W-form register shift.
    fn emit_shift_reg_w(&mut self, rd: u8, a: u8, b: u8, op: SOp)
        ensures
            final(self).wat_code@ == old(self).wat_code@ + spec_render_ops(
                spec_lower_shift_reg_w(rd, a, b, op),
            ),
            final(self).instr_count == old(self).instr_count,
            final(self).in_block == old(self).in_block,
            final(self).label_counter == old(self).label_counter,
    {
        app_ops9(
            &mut self.wat_code,
            SOp::GetX(a),
            SOp::WrapI64,
            SOp::GetX(b),
            SOp::WrapI64,
            SOp::ConstI32(31),
            SOp::I32And,
            op,
            SOp::ExtendI32S,
            set_rd(rd),
        );
    }

    /// Lower one M-extension instruction (64-bit forms).
    fn emit_rv32m(&mut self, instr: &RV32M)
        ensures
            final(self).wat_code@ == old(self).wat_code@ + spec_render_ops(
                spec_lower_rv32m(*instr),
            ),
            final(self).instr_count == old(self).instr_count,
            final(self).in_block == old(self).in_block,
            final(self).label_counter == old(self).label_counter,
    {
        match *instr {
            RV32M::MUL(Rd(rd), Rs1(a), Rs2(b)) => {
                app_ops4(&mut self.wat_code, SOp::GetX(a), SOp::GetX(b), SOp::I64Mul, set_rd(rd));
            },
            RV32M::MULH(Rd(rd), Rs1(a), Rs2(b)) => {
                app_ops6(
                    &mut self.wat_code,
                    SOp::GetX(a),
                    SOp::GetX(b),
                    SOp::I64Mul,
                    SOp::ConstI64(32),
                    SOp::I64ShrS,
                    set_rd(rd),
                );
            },
            RV32M::MULHSU(Rd(rd), _, _) => {
                app_ops2(&mut self.wat_code, SOp::ConstI64(0), set_rd(rd));
            },
            RV32M::MULHU(Rd(rd), _, _) => {
                app_ops2(&mut self.wat_code, SOp::ConstI64(0), set_rd(rd));
            },
            RV32M::DIV(Rd(rd), Rs1(a), Rs2(b)) => {
                let t = mk_div_then(rd);
                let e = mk_div_else(rd, a, b, SOp::I64DivS);
                app_flat2_ifelse(&mut self.wat_code, SOp::GetX(b), SOp::I64Eqz, t, e);
            },
            RV32M::DIVU(Rd(rd), Rs1(a), Rs2(b)) => {
                let t = mk_div_then(rd);
                let e = mk_div_else(rd, a, b, SOp::I64DivU);
                app_flat2_ifelse(&mut self.wat_code, SOp::GetX(b), SOp::I64Eqz, t, e);
            },
            RV32M::REM(Rd(rd), Rs1(a), Rs2(b)) => {
                let t = mk_rem_then(rd, a);
                let e = mk_div_else(rd, a, b, SOp::I64RemS);
                app_flat2_ifelse(&mut self.wat_code, SOp::GetX(b), SOp::I64Eqz, t, e);
            },
            RV32M::REMU(Rd(rd), Rs1(a), Rs2(b)) => {
                let t = mk_rem_then(rd, a);
                let e = mk_div_else(rd, a, b, SOp::I64RemU);
                app_flat2_ifelse(&mut self.wat_code, SOp::GetX(b), SOp::I64Eqz, t, e);
            },
        }
    }

    /// Lower one M-extension instruction (W forms).
    fn emit_rv64m(&mut self, instr: &RV64M)
        ensures
            final(self).wat_code@ == old(self).wat_code@ + spec_render_ops(
                spec_lower_rv64m(*instr),
            ),
            final(self).instr_count == old(self).instr_count,
            final(self).in_block == old(self).in_block,
            final(self).label_counter == old(self).label_counter,
    {
        match *instr {
            RV64M::MULW(Rd(rd), Rs1(a), Rs2(b)) => {
                self.emit_reg_op_w(rd, a, b, SOp::I32Mul);
            },
            RV64M::DIVW(Rd(rd), Rs1(a), Rs2(b)) => {
                let t = mk_div_then(rd);
                let e = mk_div_else_w(rd, a, b, SOp::I32DivS);
                app_flat3_ifelse(
                    &mut self.wat_code,
                    SOp::GetX(b),
                    SOp::WrapI64,
                    SOp::I32Eqz,
                    t,
                    e,
                );
            },
            RV64M::DIVUW(Rd(rd), Rs1(a), Rs2(b)) => {
                let t = mk_div_then(rd);
                let e = mk_div_else_w(rd, a, b, SOp::I32DivU);
                app_flat3_ifelse(
                    &mut self.wat_code,
                    SOp::GetX(b),
                    SOp::WrapI64,
                    SOp::I32Eqz,
                    t,
                    e,
                );
            },
            RV64M::REMW(Rd(rd), Rs1(a), Rs2(b)) => {
                let t = mk_rem_then(rd, a);
                let e = mk_div_else_w(rd, a, b, SOp::I32RemS);
                app_flat3_ifelse(
                    &mut self.wat_code,
                    SOp::GetX(b),
                    SOp::WrapI64,
                    SOp::I32Eqz,
                    t,
                    e,
                );
            },
            RV64M::REMUW(Rd(rd), Rs1(a), Rs2(b)) => {
                let t = mk_rem_then(rd, a);
                let e = mk_div_else_w(rd, a, b, SOp::I32RemU);
                app_flat3_ifelse(
                    &mut self.wat_code,
                    SOp::GetX(b),
                    SOp::WrapI64,
                    SOp::I32Eqz,
                    t,
                    e,
                );
            },
        }
    }

    /// Lower one vector instruction: the configuration forms touch `$vl` and
    /// `$vtype`; everything else leaves a diagnostic placeholder.
    fn emit_rvv(&mut self, instr: &RVV)
        ensures
            final(self).wat_code@ == old(self).wat_code@ + spec_render_ops(spec_lower_rvv(*instr)),
            final(self).instr_count == old(self).instr_count,
            final(self).in_block == old(self).in_block,
            final(self).label_counter == old(self).label_counter,
    {
        match *instr {
            RVV::VSETVLI(Rd(rd), Rs1(rs1), _) => {
                app_ops4(&mut self.wat_code, SOp::GetX(rs1), SOp::SetVl, SOp::GetVl, set_rd(rd));
            },
            RVV::VSETIVLI(Rd(rd), _, _) => {
                app_ops2(&mut self.wat_code, SOp::ConstI64(0), set_rd(rd));
            },
            RVV::VSETVL(Rd(rd), Rs1(a), Rs2(b)) => {
                app_ops6(
                    &mut self.wat_code,
                    SOp::GetX(a),
                    SOp::SetVl,
                    SOp::GetX(b),
                    SOp::SetVtype,
                    SOp::GetVl,
                    set_rd(rd),
                );
            },
            RVV::Other(_) => app_ops1(&mut self.wat_code, SOp::Comment),
        }
    }
}

} // verus!
