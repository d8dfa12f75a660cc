//! RISC-V instruction decoding.
//!
//! `Instruction::parse` maps a little-endian machine word to a tagged variant
//! covering the RV32I and RV64I base sets, the M extension, and a surfaced
//! vector family.  Decoding is pure and total: every bit pattern maps to some
//! variant, unrecognized encodings map to `Unknown`, and 16-bit words (low two
//! bits != 0b11) are surfaced as `Compressed` without reading past two bytes.

use vstd::prelude::*;

verus! {

/// Destination register index (0..31).
#[derive(Clone, Copy, Debug, PartialEq, Eq, Structural)]
pub struct Rd(pub u8);

/// First source register index (0..31).
#[derive(Clone, Copy, Debug, PartialEq, Eq, Structural)]
pub struct Rs1(pub u8);

/// Second source register index (0..31).
#[derive(Clone, Copy, Debug, PartialEq, Eq, Structural)]
pub struct Rs2(pub u8);

/// Shift amount for shift-immediate instructions (0..63).
#[derive(Clone, Copy, Debug, PartialEq, Eq, Structural)]
pub struct Shamt(pub u8);

/// The encoding field an immediate was extracted from.
#[derive(Clone, Copy, Debug, PartialEq, Eq, Structural)]
pub enum ImmKind {
    I,
    S,
    B,
    U,
    J,
}

/// A typed immediate.  `bits` holds the unsigned reassembled field value:
/// 12 bits for I and S, 13 bits for B (a byte offset), 20 bits for U
/// (the raw upper-immediate field, not yet shifted), and 21 bits for J
/// (a byte offset).
#[derive(Clone, Copy, Debug, PartialEq, Eq, Structural)]
pub struct Imm {
    pub kind: ImmKind,
    pub bits: u32,
}

impl Imm {
    /// Bit width of the immediate field for this kind.
    pub open spec fn spec_width(self) -> u32 {
        match self.kind {
            ImmKind::I => 12,
            ImmKind::S => 12,
            ImmKind::B => 13,
            ImmKind::U => 20,
            ImmKind::J => 21,
        }
    }

    /// The canonical sign-extended value of the immediate field.
    pub open spec fn spec_signed(self) -> int {
        let half: u32 = match self.kind {
            ImmKind::I => 0x800,
            ImmKind::S => 0x800,
            ImmKind::B => 0x1000,
            ImmKind::U => 0x80000,
            ImmKind::J => 0x100000,
        };
        if self.bits < half {
            self.bits as int
        } else {
            self.bits as int - 2 * (half as int)
        }
    }

    /// Canonical sign-extended integer value.
    pub fn signed(&self) -> (r: i64)
        ensures
            r == self.spec_signed(),
    {
        let half: u32 = match self.kind {
            ImmKind::I => 0x800,
            ImmKind::S => 0x800,
            ImmKind::B => 0x1000,
            ImmKind::U => 0x80000,
            ImmKind::J => 0x100000,
        };
        if self.bits < half {
            self.bits as i64
        } else {
            (self.bits as i64) - 2 * (half as i64)
        }
    }

    /// The value already shifted left by 12; meaningful for the U-type
    /// immediates that `LUI` and `AUIPC` carry.
    pub fn raw_shifted(&self) -> (r: i64)
        ensures
            r == self.spec_signed() * 4096,
    {
        self.signed() * 4096
    }
}

/// RV32I base instructions (also used by RV64 programs).
#[allow(non_camel_case_types)]
#[derive(Clone, Copy, Debug, PartialEq, Eq, Structural)]
pub enum RV32I {
    LUI(Rd, Imm),
    AUIPC(Rd, Imm),
    JAL(Rd, Imm),
    JALR(Rd, Rs1, Imm),
    BEQ(Rs1, Rs2, Imm),
    BNE(Rs1, Rs2, Imm),
    BLT(Rs1, Rs2, Imm),
    BGE(Rs1, Rs2, Imm),
    BLTU(Rs1, Rs2, Imm),
    BGEU(Rs1, Rs2, Imm),
    LB(Rd, Rs1, Imm),
    LH(Rd, Rs1, Imm),
    LW(Rd, Rs1, Imm),
    LBU(Rd, Rs1, Imm),
    LHU(Rd, Rs1, Imm),
    SB(Rs1, Rs2, Imm),
    SH(Rs1, Rs2, Imm),
    SW(Rs1, Rs2, Imm),
    ADDI(Rd, Rs1, Imm),
    SLTI(Rd, Rs1, Imm),
    SLTIU(Rd, Rs1, Imm),
    XORI(Rd, Rs1, Imm),
    ORI(Rd, Rs1, Imm),
    ANDI(Rd, Rs1, Imm),
    ADD(Rd, Rs1, Rs2),
    SUB(Rd, Rs1, Rs2),
    SLL(Rd, Rs1, Rs2),
    SLT(Rd, Rs1, Rs2),
    SLTU(Rd, Rs1, Rs2),
    XOR(Rd, Rs1, Rs2),
    SRL(Rd, Rs1, Rs2),
    SRA(Rd, Rs1, Rs2),
    OR(Rd, Rs1, Rs2),
    AND(Rd, Rs1, Rs2),
    FENCE,
    FENCE_TSO,
    PAUSE,
    ECALL,
    EBREAK,
}

/// RV64I additions: 64-bit loads/stores, 6-bit shift immediates, and
/// 32-bit (W) arithmetic forms.
#[derive(Clone, Copy, Debug, PartialEq, Eq, Structural)]
pub enum RV64I {
    LWU(Rd, Rs1, Imm),
    LD(Rd, Rs1, Imm),
    SD(Rs1, Rs2, Imm),
    SLLI(Rd, Rs1, Shamt),
    SRLI(Rd, Rs1, Shamt),
    SRAI(Rd, Rs1, Shamt),
    ADDIW(Rd, Rs1, Imm),
    SLLIW(Rd, Rs1, Shamt),
    SRLIW(Rd, Rs1, Shamt),
    SRAIW(Rd, Rs1, Shamt),
    ADDW(Rd, Rs1, Rs2),
    SUBW(Rd, Rs1, Rs2),
    SLLW(Rd, Rs1, Rs2),
    SRLW(Rd, Rs1, Rs2),
    SRAW(Rd, Rs1, Rs2),
}

/// M extension, 64-bit forms.
#[derive(Clone, Copy, Debug, PartialEq, Eq, Structural)]
pub enum RV32M {
    MUL(Rd, Rs1, Rs2),
    MULH(Rd, Rs1, Rs2),
    MULHSU(Rd, Rs1, Rs2),
    MULHU(Rd, Rs1, Rs2),
    DIV(Rd, Rs1, Rs2),
    DIVU(Rd, Rs1, Rs2),
    REM(Rd, Rs1, Rs2),
    REMU(Rd, Rs1, Rs2),
}

/// M extension, 32-bit (W) forms.
#[derive(Clone, Copy, Debug, PartialEq, Eq, Structural)]
pub enum RV64M {
    MULW(Rd, Rs1, Rs2),
    DIVW(Rd, Rs1, Rs2),
    DIVUW(Rd, Rs1, Rs2),
    REMW(Rd, Rs1, Rs2),
    REMUW(Rd, Rs1, Rs2),
}

/// Vector family.  Only the configuration instructions are decoded with
/// operands; everything else is surfaced opaquely and lowered to a
/// diagnostic placeholder.
#[derive(Clone, Copy, Debug, PartialEq, Eq, Structural)]
pub enum RVV {
    /// `vsetvli rd, rs1, zimm11`
    VSETVLI(Rd, Rs1, u32),
    /// `vsetivli rd, uimm5, zimm10`
    VSETIVLI(Rd, u32, u32),
    /// `vsetvl rd, rs1, rs2`
    VSETVL(Rd, Rs1, Rs2),
    /// Any other vector (or vector load/store) encoding, carried raw.
    Other(u32),
}

/// 32-bit base families.
#[derive(Clone, Copy, Debug, PartialEq, Eq, Structural)]
pub enum RV32Instr {
    RV32I(RV32I),
    RV32M(RV32M),
    RVV(RVV),
}

/// 64-bit families.
#[derive(Clone, Copy, Debug, PartialEq, Eq, Structural)]
pub enum RV64Instr {
    RV64I(RV64I),
    RV64M(RV64M),
}

/// A decoded instruction.
#[derive(Clone, Copy, Debug, PartialEq, Eq, Structural)]
pub enum Instr {
    RV32(RV32Instr),
    RV64(RV64Instr),
    /// The canonical `addi x0, x0, 0`.
    NOP,
    /// A 16-bit word (low two bits != 0b11), surfaced raw.
    Compressed(u16),
    /// Any unrecognized 32-bit encoding, carried raw.
    Unknown(u32),
}

/// A decoded instruction together with nothing else; kept as a struct so
/// callers read `instr.instr` uniformly.
#[derive(Clone, Copy, Debug, PartialEq, Eq, Structural)]
pub struct Instruction {
    pub instr: Instr,
}

// ---------------------------------------------------------------------------
// Field extraction
// ---------------------------------------------------------------------------

pub open spec fn spec_opcode(w: u32) -> u32 {
    w & 0x7f
}

pub open spec fn spec_funct3(w: u32) -> u32 {
    (w >> 12) & 0x7
}

pub open spec fn spec_funct7(w: u32) -> u32 {
    (w >> 25) & 0x7f
}

pub open spec fn spec_rd(w: u32) -> u8 {
    ((w >> 7) & 0x1f) as u8
}

pub open spec fn spec_rs1(w: u32) -> u8 {
    ((w >> 15) & 0x1f) as u8
}

pub open spec fn spec_rs2(w: u32) -> u8 {
    ((w >> 20) & 0x1f) as u8
}

fn rd_of(w: u32) -> (r: u8)
    ensures
        r == spec_rd(w),
        r < 32,
{
    proof {
        assert((((w >> 7) & 0x1f) as u8) < 32) by (bit_vector);
    }
    ((w >> 7) & 0x1f) as u8
}

fn rs1_of(w: u32) -> (r: u8)
    ensures
        r == spec_rs1(w),
        r < 32,
{
    proof {
        assert((((w >> 15) & 0x1f) as u8) < 32) by (bit_vector);
    }
    ((w >> 15) & 0x1f) as u8
}

fn rs2_of(w: u32) -> (r: u8)
    ensures
        r == spec_rs2(w),
        r < 32,
{
    proof {
        assert((((w >> 20) & 0x1f) as u8) < 32) by (bit_vector);
    }
    ((w >> 20) & 0x1f) as u8
}

/// 6-bit shift amount field of the RV64 shift-immediate encodings.
pub open spec fn spec_shamt6(w: u32) -> u8 {
    ((w >> 20) & 0x3f) as u8
}

fn shamt6_of(w: u32) -> (r: u8)
    ensures
        r == spec_shamt6(w),
        r < 64,
{
    proof {
        assert((((w >> 20) & 0x3f) as u8) < 64) by (bit_vector);
    }
    ((w >> 20) & 0x3f) as u8
}

/// 5-bit shift amount field of the W shift-immediate encodings.
pub open spec fn spec_shamt5(w: u32) -> u8 {
    ((w >> 20) & 0x1f) as u8
}

fn shamt5_of(w: u32) -> (r: u8)
    ensures
        r == spec_shamt5(w),
        r < 32,
{
    proof {
        assert((((w >> 20) & 0x1f) as u8) < 32) by (bit_vector);
    }
    ((w >> 20) & 0x1f) as u8
}

pub open spec fn spec_imm_i(w: u32) -> Imm {
    Imm { kind: ImmKind::I, bits: (w >> 20) & 0xfff }
}

fn imm_i(w: u32) -> (r: Imm)
    ensures
        r == spec_imm_i(w),
{
    Imm { kind: ImmKind::I, bits: (w >> 20) & 0xfff }
}

pub open spec fn spec_imm_s(w: u32) -> Imm {
    Imm { kind: ImmKind::S, bits: (((w >> 25) & 0x7f) << 5) | ((w >> 7) & 0x1f) }
}

fn imm_s(w: u32) -> (r: Imm)
    ensures
        r == spec_imm_s(w),
{
    Imm { kind: ImmKind::S, bits: (((w >> 25) & 0x7f) << 5) | ((w >> 7) & 0x1f) }
}

/// The B-type immediate reassembled as the branch byte offset.
pub open spec fn spec_imm_b(w: u32) -> Imm {
    Imm {
        kind: ImmKind::B,
        bits: (((w >> 31) & 1) << 12) | (((w >> 7) & 1) << 11) | (((w >> 25) & 0x3f) << 5) | (((w
            >> 8) & 0xf) << 1),
    }
}

fn imm_b(w: u32) -> (r: Imm)
    ensures
        r == spec_imm_b(w),
{
    Imm {
        kind: ImmKind::B,
        bits: (((w >> 31) & 1) << 12) | (((w >> 7) & 1) << 11) | (((w >> 25) & 0x3f) << 5) | (((w
            >> 8) & 0xf) << 1),
    }
}

/// The U-type immediate: the raw 20-bit field, not shifted.
pub open spec fn spec_imm_u(w: u32) -> Imm {
    Imm { kind: ImmKind::U, bits: w >> 12 }
}

fn imm_u(w: u32) -> (r: Imm)
    ensures
        r == spec_imm_u(w),
{
    Imm { kind: ImmKind::U, bits: w >> 12 }
}

/// The J-type immediate reassembled as the jump byte offset.
pub open spec fn spec_imm_j(w: u32) -> Imm {
    Imm {
        kind: ImmKind::J,
        bits: (((w >> 31) & 1) << 20) | (((w >> 12) & 0xff) << 12) | (((w >> 20) & 1) << 11) | (((w
            >> 21) & 0x3ff) << 1),
    }
}

fn imm_j(w: u32) -> (r: Imm)
    ensures
        r == spec_imm_j(w),
{
    Imm {
        kind: ImmKind::J,
        bits: (((w >> 31) & 1) << 20) | (((w >> 12) & 0xff) << 12) | (((w >> 20) & 1) << 11) | (((w
            >> 21) & 0x3ff) << 1),
    }
}

// ---------------------------------------------------------------------------
// Well-formedness: every register operand a decode can produce is below 32
// and every shift amount below 64.
// ---------------------------------------------------------------------------

pub open spec fn wf_rv32i(i: RV32I) -> bool {
    match i {
        RV32I::LUI(Rd(rd), _) => rd < 32,
        RV32I::AUIPC(Rd(rd), _) => rd < 32,
        RV32I::JAL(Rd(rd), _) => rd < 32,
        RV32I::JALR(Rd(rd), Rs1(rs1), _) => rd < 32 && rs1 < 32,
        RV32I::BEQ(Rs1(a), Rs2(b), _) => a < 32 && b < 32,
        RV32I::BNE(Rs1(a), Rs2(b), _) => a < 32 && b < 32,
        RV32I::BLT(Rs1(a), Rs2(b), _) => a < 32 && b < 32,
        RV32I::BGE(Rs1(a), Rs2(b), _) => a < 32 && b < 32,
        RV32I::BLTU(Rs1(a), Rs2(b), _) => a < 32 && b < 32,
        RV32I::BGEU(Rs1(a), Rs2(b), _) => a < 32 && b < 32,
        RV32I::LB(Rd(rd), Rs1(rs1), _) => rd < 32 && rs1 < 32,
        RV32I::LH(Rd(rd), Rs1(rs1), _) => rd < 32 && rs1 < 32,
        RV32I::LW(Rd(rd), Rs1(rs1), _) => rd < 32 && rs1 < 32,
        RV32I::LBU(Rd(rd), Rs1(rs1), _) => rd < 32 && rs1 < 32,
        RV32I::LHU(Rd(rd), Rs1(rs1), _) => rd < 32 && rs1 < 32,
        RV32I::SB(Rs1(a), Rs2(b), _) => a < 32 && b < 32,
        RV32I::SH(Rs1(a), Rs2(b), _) => a < 32 && b < 32,
        RV32I::SW(Rs1(a), Rs2(b), _) => a < 32 && b < 32,
        RV32I::ADDI(Rd(rd), Rs1(rs1), _) => rd < 32 && rs1 < 32,
        RV32I::SLTI(Rd(rd), Rs1(rs1), _) => rd < 32 && rs1 < 32,
        RV32I::SLTIU(Rd(rd), Rs1(rs1), _) => rd < 32 && rs1 < 32,
        RV32I::XORI(Rd(rd), Rs1(rs1), _) => rd < 32 && rs1 < 32,
        RV32I::ORI(Rd(rd), Rs1(rs1), _) => rd < 32 && rs1 < 32,
        RV32I::ANDI(Rd(rd), Rs1(rs1), _) => rd < 32 && rs1 < 32,
        RV32I::ADD(Rd(rd), Rs1(a), Rs2(b)) => rd < 32 && a < 32 && b < 32,
        RV32I::SUB(Rd(rd), Rs1(a), Rs2(b)) => rd < 32 && a < 32 && b < 32,
        RV32I::SLL(Rd(rd), Rs1(a), Rs2(b)) => rd < 32 && a < 32 && b < 32,
        RV32I::SLT(Rd(rd), Rs1(a), Rs2(b)) => rd < 32 && a < 32 && b < 32,
        RV32I::SLTU(Rd(rd), Rs1(a), Rs2(b)) => rd < 32 && a < 32 && b < 32,
        RV32I::XOR(Rd(rd), Rs1(a), Rs2(b)) => rd < 32 && a < 32 && b < 32,
        RV32I::SRL(Rd(rd), Rs1(a), Rs2(b)) => rd < 32 && a < 32 && b < 32,
        RV32I::SRA(Rd(rd), Rs1(a), Rs2(b)) => rd < 32 && a < 32 && b < 32,
        RV32I::OR(Rd(rd), Rs1(a), Rs2(b)) => rd < 32 && a < 32 && b < 32,
        RV32I::AND(Rd(rd), Rs1(a), Rs2(b)) => rd < 32 && a < 32 && b < 32,
        RV32I::FENCE => true,
        RV32I::FENCE_TSO => true,
        RV32I::PAUSE => true,
        RV32I::ECALL => true,
        RV32I::EBREAK => true,
    }
}

pub open spec fn wf_rv64i(i: RV64I) -> bool {
    match i {
        RV64I::LWU(Rd(rd), Rs1(rs1), _) => rd < 32 && rs1 < 32,
        RV64I::LD(Rd(rd), Rs1(rs1), _) => rd < 32 && rs1 < 32,
        RV64I::SD(Rs1(a), Rs2(b), _) => a < 32 && b < 32,
        RV64I::SLLI(Rd(rd), Rs1(rs1), Shamt(s)) => rd < 32 && rs1 < 32 && s < 64,
        RV64I::SRLI(Rd(rd), Rs1(rs1), Shamt(s)) => rd < 32 && rs1 < 32 && s < 64,
        RV64I::SRAI(Rd(rd), Rs1(rs1), Shamt(s)) => rd < 32 && rs1 < 32 && s < 64,
        RV64I::ADDIW(Rd(rd), Rs1(rs1), _) => rd < 32 && rs1 < 32,
        RV64I::SLLIW(Rd(rd), Rs1(rs1), Shamt(s)) => rd < 32 && rs1 < 32 && s < 32,
        RV64I::SRLIW(Rd(rd), Rs1(rs1), Shamt(s)) => rd < 32 && rs1 < 32 && s < 32,
        RV64I::SRAIW(Rd(rd), Rs1(rs1), Shamt(s)) => rd < 32 && rs1 < 32 && s < 32,
        RV64I::ADDW(Rd(rd), Rs1(a), Rs2(b)) => rd < 32 && a < 32 && b < 32,
        RV64I::SUBW(Rd(rd), Rs1(a), Rs2(b)) => rd < 32 && a < 32 && b < 32,
        RV64I::SLLW(Rd(rd), Rs1(a), Rs2(b)) => rd < 32 && a < 32 && b < 32,
        RV64I::SRLW(Rd(rd), Rs1(a), Rs2(b)) => rd < 32 && a < 32 && b < 32,
        RV64I::SRAW(Rd(rd), Rs1(a), Rs2(b)) => rd < 32 && a < 32 && b < 32,
    }
}

pub open spec fn wf_rv32m(i: RV32M) -> bool {
    match i {
        RV32M::MUL(Rd(rd), Rs1(a), Rs2(b)) => rd < 32 && a < 32 && b < 32,
        RV32M::MULH(Rd(rd), Rs1(a), Rs2(b)) => rd < 32 && a < 32 && b < 32,
        RV32M::MULHSU(Rd(rd), Rs1(a), Rs2(b)) => rd < 32 && a < 32 && b < 32,
        RV32M::MULHU(Rd(rd), Rs1(a), Rs2(b)) => rd < 32 && a < 32 && b < 32,
        RV32M::DIV(Rd(rd), Rs1(a), Rs2(b)) => rd < 32 && a < 32 && b < 32,
        RV32M::DIVU(Rd(rd), Rs1(a), Rs2(b)) => rd < 32 && a < 32 && b < 32,
        RV32M::REM(Rd(rd), Rs1(a), Rs2(b)) => rd < 32 && a < 32 && b < 32,
        RV32M::REMU(Rd(rd), Rs1(a), Rs2(b)) => rd < 32 && a < 32 && b < 32,
    }
}

pub open spec fn wf_rv64m(i: RV64M) -> bool {
    match i {
        RV64M::MULW(Rd(rd), Rs1(a), Rs2(b)) => rd < 32 && a < 32 && b < 32,
        RV64M::DIVW(Rd(rd), Rs1(a), Rs2(b)) => rd < 32 && a < 32 && b < 32,
        RV64M::DIVUW(Rd(rd), Rs1(a), Rs2(b)) => rd < 32 && a < 32 && b < 32,
        RV64M::REMW(Rd(rd), Rs1(a), Rs2(b)) => rd < 32 && a < 32 && b < 32,
        RV64M::REMUW(Rd(rd), Rs1(a), Rs2(b)) => rd < 32 && a < 32 && b < 32,
    }
}

pub open spec fn wf_rvv(i: RVV) -> bool {
    match i {
        RVV::VSETVLI(Rd(rd), Rs1(rs1), _) => rd < 32 && rs1 < 32,
        RVV::VSETIVLI(Rd(rd), _, _) => rd < 32,
        RVV::VSETVL(Rd(rd), Rs1(a), Rs2(b)) => rd < 32 && a < 32 && b < 32,
        RVV::Other(_) => true,
    }
}

/// Every register operand is a valid index and every shift amount in range.
pub open spec fn wf_instr(i: Instr) -> bool {
    match i {
        Instr::RV32(RV32Instr::RV32I(x)) => wf_rv32i(x),
        Instr::RV32(RV32Instr::RV32M(x)) => wf_rv32m(x),
        Instr::RV32(RV32Instr::RVV(x)) => wf_rvv(x),
        Instr::RV64(RV64Instr::RV64I(x)) => wf_rv64i(x),
        Instr::RV64(RV64Instr::RV64M(x)) => wf_rv64m(x),
        Instr::NOP => true,
        Instr::Compressed(_) => true,
        Instr::Unknown(_) => true,
    }
}

// ---------------------------------------------------------------------------
// Decode tables, stated once as spec functions and mirrored by the
// executable decoder.
// ---------------------------------------------------------------------------

/// LOAD opcode (0x03).
pub open spec fn spec_decode_load(w: u32) -> Instr {
    let rd = Rd(spec_rd(w));
    let rs1 = Rs1(spec_rs1(w));
    let imm = spec_imm_i(w);
    match spec_funct3(w) {
        0 => Instr::RV32(RV32Instr::RV32I(RV32I::LB(rd, rs1, imm))),
        1 => Instr::RV32(RV32Instr::RV32I(RV32I::LH(rd, rs1, imm))),
        2 => Instr::RV32(RV32Instr::RV32I(RV32I::LW(rd, rs1, imm))),
        3 => Instr::RV64(RV64Instr::RV64I(RV64I::LD(rd, rs1, imm))),
        4 => Instr::RV32(RV32Instr::RV32I(RV32I::LBU(rd, rs1, imm))),
        5 => Instr::RV32(RV32Instr::RV32I(RV32I::LHU(rd, rs1, imm))),
        6 => Instr::RV64(RV64Instr::RV64I(RV64I::LWU(rd, rs1, imm))),
        _ => Instr::Unknown(w),
    }
}

/// STORE opcode (0x23).
pub open spec fn spec_decode_store(w: u32) -> Instr {
    let rs1 = Rs1(spec_rs1(w));
    let rs2 = Rs2(spec_rs2(w));
    let imm = spec_imm_s(w);
    match spec_funct3(w) {
        0 => Instr::RV32(RV32Instr::RV32I(RV32I::SB(rs1, rs2, imm))),
        1 => Instr::RV32(RV32Instr::RV32I(RV32I::SH(rs1, rs2, imm))),
        2 => Instr::RV32(RV32Instr::RV32I(RV32I::SW(rs1, rs2, imm))),
        3 => Instr::RV64(RV64Instr::RV64I(RV64I::SD(rs1, rs2, imm))),
        _ => Instr::Unknown(w),
    }
}

/// BRANCH opcode (0x63).
pub open spec fn spec_decode_branch(w: u32) -> Instr {
    let rs1 = Rs1(spec_rs1(w));
    let rs2 = Rs2(spec_rs2(w));
    let imm = spec_imm_b(w);
    match spec_funct3(w) {
        0 => Instr::RV32(RV32Instr::RV32I(RV32I::BEQ(rs1, rs2, imm))),
        1 => Instr::RV32(RV32Instr::RV32I(RV32I::BNE(rs1, rs2, imm))),
        4 => Instr::RV32(RV32Instr::RV32I(RV32I::BLT(rs1, rs2, imm))),
        5 => Instr::RV32(RV32Instr::RV32I(RV32I::BGE(rs1, rs2, imm))),
        6 => Instr::RV32(RV32Instr::RV32I(RV32I::BLTU(rs1, rs2, imm))),
        7 => Instr::RV32(RV32Instr::RV32I(RV32I::BGEU(rs1, rs2, imm))),
        _ => Instr::Unknown(w),
    }
}

/// OP-IMM opcode (0x13).
pub open spec fn spec_decode_op_imm(w: u32) -> Instr {
    if w == 0x13 {
        Instr::NOP
    } else {
        let rd = Rd(spec_rd(w));
        let rs1 = Rs1(spec_rs1(w));
        let imm = spec_imm_i(w);
        match spec_funct3(w) {
            0 => Instr::RV32(RV32Instr::RV32I(RV32I::ADDI(rd, rs1, imm))),
            1 => if (w >> 26) == 0 {
                Instr::RV64(RV64Instr::RV64I(RV64I::SLLI(rd, rs1, Shamt(spec_shamt6(w)))))
            } else {
                Instr::Unknown(w)
            },
            2 => Instr::RV32(RV32Instr::RV32I(RV32I::SLTI(rd, rs1, imm))),
            3 => Instr::RV32(RV32Instr::RV32I(RV32I::SLTIU(rd, rs1, imm))),
            4 => Instr::RV32(RV32Instr::RV32I(RV32I::XORI(rd, rs1, imm))),
            5 => if (w >> 26) == 0 {
                Instr::RV64(RV64Instr::RV64I(RV64I::SRLI(rd, rs1, Shamt(spec_shamt6(w)))))
            } else if (w >> 26) == 0x10 {
                Instr::RV64(RV64Instr::RV64I(RV64I::SRAI(rd, rs1, Shamt(spec_shamt6(w)))))
            } else {
                Instr::Unknown(w)
            },
            6 => Instr::RV32(RV32Instr::RV32I(RV32I::ORI(rd, rs1, imm))),
            _ => Instr::RV32(RV32Instr::RV32I(RV32I::ANDI(rd, rs1, imm))),
        }
    }
}

/// OP opcode (0x33).
pub open spec fn spec_decode_op(w: u32) -> Instr {
    let rd = Rd(spec_rd(w));
    let rs1 = Rs1(spec_rs1(w));
    let rs2 = Rs2(spec_rs2(w));
    let f3 = spec_funct3(w);
    match spec_funct7(w) {
        0x00 => match f3 {
            0 => Instr::RV32(RV32Instr::RV32I(RV32I::ADD(rd, rs1, rs2))),
            1 => Instr::RV32(RV32Instr::RV32I(RV32I::SLL(rd, rs1, rs2))),
            2 => Instr::RV32(RV32Instr::RV32I(RV32I::SLT(rd, rs1, rs2))),
            3 => Instr::RV32(RV32Instr::RV32I(RV32I::SLTU(rd, rs1, rs2))),
            4 => Instr::RV32(RV32Instr::RV32I(RV32I::XOR(rd, rs1, rs2))),
            5 => Instr::RV32(RV32Instr::RV32I(RV32I::SRL(rd, rs1, rs2))),
            6 => Instr::RV32(RV32Instr::RV32I(RV32I::OR(rd, rs1, rs2))),
            _ => Instr::RV32(RV32Instr::RV32I(RV32I::AND(rd, rs1, rs2))),
        },
        0x20 => match f3 {
            0 => Instr::RV32(RV32Instr::RV32I(RV32I::SUB(rd, rs1, rs2))),
            5 => Instr::RV32(RV32Instr::RV32I(RV32I::SRA(rd, rs1, rs2))),
            _ => Instr::Unknown(w),
        },
        0x01 => match f3 {
            0 => Instr::RV32(RV32Instr::RV32M(RV32M::MUL(rd, rs1, rs2))),
            1 => Instr::RV32(RV32Instr::RV32M(RV32M::MULH(rd, rs1, rs2))),
            2 => Instr::RV32(RV32Instr::RV32M(RV32M::MULHSU(rd, rs1, rs2))),
            3 => Instr::RV32(RV32Instr::RV32M(RV32M::MULHU(rd, rs1, rs2))),
            4 => Instr::RV32(RV32Instr::RV32M(RV32M::DIV(rd, rs1, rs2))),
            5 => Instr::RV32(RV32Instr::RV32M(RV32M::DIVU(rd, rs1, rs2))),
            6 => Instr::RV32(RV32Instr::RV32M(RV32M::REM(rd, rs1, rs2))),
            _ => Instr::RV32(RV32Instr::RV32M(RV32M::REMU(rd, rs1, rs2))),
        },
        _ => Instr::Unknown(w),
    }
}

/// OP-IMM-32 opcode (0x1b).
pub open spec fn spec_decode_op_imm_32(w: u32) -> Instr {
    let rd = Rd(spec_rd(w));
    let rs1 = Rs1(spec_rs1(w));
    match spec_funct3(w) {
        0 => Instr::RV64(RV64Instr::RV64I(RV64I::ADDIW(rd, rs1, spec_imm_i(w)))),
        1 => if spec_funct7(w) == 0 {
            Instr::RV64(RV64Instr::RV64I(RV64I::SLLIW(rd, rs1, Shamt(spec_shamt5(w)))))
        } else {
            Instr::Unknown(w)
        },
        5 => if spec_funct7(w) == 0 {
            Instr::RV64(RV64Instr::RV64I(RV64I::SRLIW(rd, rs1, Shamt(spec_shamt5(w)))))
        } else if spec_funct7(w) == 0x20 {
            Instr::RV64(RV64Instr::RV64I(RV64I::SRAIW(rd, rs1, Shamt(spec_shamt5(w)))))
        } else {
            Instr::Unknown(w)
        },
        _ => Instr::Unknown(w),
    }
}

/// OP-32 opcode (0x3b).
pub open spec fn spec_decode_op_32(w: u32) -> Instr {
    let rd = Rd(spec_rd(w));
    let rs1 = Rs1(spec_rs1(w));
    let rs2 = Rs2(spec_rs2(w));
    let f3 = spec_funct3(w);
    match spec_funct7(w) {
        0x00 => match f3 {
            0 => Instr::RV64(RV64Instr::RV64I(RV64I::ADDW(rd, rs1, rs2))),
            1 => Instr::RV64(RV64Instr::RV64I(RV64I::SLLW(rd, rs1, rs2))),
            5 => Instr::RV64(RV64Instr::RV64I(RV64I::SRLW(rd, rs1, rs2))),
            _ => Instr::Unknown(w),
        },
        0x20 => match f3 {
            0 => Instr::RV64(RV64Instr::RV64I(RV64I::SUBW(rd, rs1, rs2))),
            5 => Instr::RV64(RV64Instr::RV64I(RV64I::SRAW(rd, rs1, rs2))),
            _ => Instr::Unknown(w),
        },
        0x01 => match f3 {
            0 => Instr::RV64(RV64Instr::RV64M(RV64M::MULW(rd, rs1, rs2))),
            4 => Instr::RV64(RV64Instr::RV64M(RV64M::DIVW(rd, rs1, rs2))),
            5 => Instr::RV64(RV64Instr::RV64M(RV64M::DIVUW(rd, rs1, rs2))),
            6 => Instr::RV64(RV64Instr::RV64M(RV64M::REMW(rd, rs1, rs2))),
            7 => Instr::RV64(RV64Instr::RV64M(RV64M::REMUW(rd, rs1, rs2))),
            _ => Instr::Unknown(w),
        },
        _ => Instr::Unknown(w),
    }
}

/// MISC-MEM opcode (0x0f): fences and PAUSE, all no-ops when lowered.
pub open spec fn spec_decode_misc_mem(w: u32) -> Instr {
    if spec_funct3(w) == 0 || spec_funct3(w) == 1 {
        if w == 0x8330000f {
            Instr::RV32(RV32Instr::RV32I(RV32I::FENCE_TSO))
        } else if w == 0x0100000f {
            Instr::RV32(RV32Instr::RV32I(RV32I::PAUSE))
        } else {
            Instr::RV32(RV32Instr::RV32I(RV32I::FENCE))
        }
    } else {
        Instr::Unknown(w)
    }
}

/// SYSTEM opcode (0x73): only the two environment instructions are lowered.
pub open spec fn spec_decode_system(w: u32) -> Instr {
    if w == 0x00000073 {
        Instr::RV32(RV32Instr::RV32I(RV32I::ECALL))
    } else if w == 0x00100073 {
        Instr::RV32(RV32Instr::RV32I(RV32I::EBREAK))
    } else {
        Instr::Unknown(w)
    }
}

/// Vector opcode (0x57): the three configuration forms, everything else raw.
pub open spec fn spec_decode_vector(w: u32) -> Instr {
    if spec_funct3(w) == 7 {
        if (w >> 31) == 0 {
            Instr::RV32(
                RV32Instr::RVV(
                    RVV::VSETVLI(Rd(spec_rd(w)), Rs1(spec_rs1(w)), (w >> 20) & 0x7ff),
                ),
            )
        } else if (w >> 30) == 3 {
            Instr::RV32(
                RV32Instr::RVV(RVV::VSETIVLI(Rd(spec_rd(w)), (w >> 15) & 0x1f, (w >> 20) & 0x3ff)),
            )
        } else if spec_funct7(w) == 0x40 {
            Instr::RV32(RV32Instr::RVV(RVV::VSETVL(Rd(spec_rd(w)), Rs1(spec_rs1(w)), Rs2(spec_rs2(w)))))
        } else {
            Instr::RV32(RV32Instr::RVV(RVV::Other(w)))
        }
    } else {
        Instr::RV32(RV32Instr::RVV(RVV::Other(w)))
    }
}

/// Decode of a full 32-bit word (whose low two bits are 0b11).
pub open spec fn spec_decode_word(w: u32) -> Instr {
    match spec_opcode(w) {
        0x37 => Instr::RV32(RV32Instr::RV32I(RV32I::LUI(Rd(spec_rd(w)), spec_imm_u(w)))),
        0x17 => Instr::RV32(RV32Instr::RV32I(RV32I::AUIPC(Rd(spec_rd(w)), spec_imm_u(w)))),
        0x6f => Instr::RV32(RV32Instr::RV32I(RV32I::JAL(Rd(spec_rd(w)), spec_imm_j(w)))),
        0x67 => if spec_funct3(w) == 0 {
            Instr::RV32(
                RV32Instr::RV32I(RV32I::JALR(Rd(spec_rd(w)), Rs1(spec_rs1(w)), spec_imm_i(w))),
            )
        } else {
            Instr::Unknown(w)
        },
        0x63 => spec_decode_branch(w),
        0x03 => spec_decode_load(w),
        0x23 => spec_decode_store(w),
        0x13 => spec_decode_op_imm(w),
        0x33 => spec_decode_op(w),
        0x1b => spec_decode_op_imm_32(w),
        0x3b => spec_decode_op_32(w),
        0x0f => spec_decode_misc_mem(w),
        0x73 => spec_decode_system(w),
        0x57 => spec_decode_vector(w),
        0x07 => Instr::RV32(RV32Instr::RVV(RVV::Other(w))),
        0x27 => Instr::RV32(RV32Instr::RVV(RVV::Other(w))),
        _ => Instr::Unknown(w),
    }
}

/// The 32-bit word assembled little-endian from the first four bytes.
pub open spec fn spec_word_le(bytes: Seq<u8>) -> u32 {
    (bytes[0] as u32) | ((bytes[1] as u32) << 8) | ((bytes[2] as u32) << 16) | ((bytes[3] as u32)
        << 24)
}

/// The 16-bit half-word assembled little-endian from the first two bytes.
pub open spec fn spec_half_le(bytes: Seq<u8>) -> u16 {
    (bytes[0] as u16) | ((bytes[1] as u16) << 8)
}

/// What `Instruction::parse` returns: a 16-bit word is surfaced as
/// `Compressed` from the first two bytes alone; otherwise the 32-bit word is
/// decoded through the table above.
pub open spec fn spec_parse(bytes: Seq<u8>) -> Instr {
    if bytes[0] & 3 != 3 {
        Instr::Compressed(spec_half_le(bytes))
    } else {
        spec_decode_word(spec_word_le(bytes))
    }
}

// ---------------------------------------------------------------------------
// Executable decoder
// ---------------------------------------------------------------------------

fn decode_load(w: u32) -> (r: Instr)
    ensures
        r == spec_decode_load(w),
        wf_instr(r),
{
    let rd = Rd(rd_of(w));
    let rs1 = Rs1(rs1_of(w));
    let imm = imm_i(w);
    match (w >> 12) & 0x7 {
        0 => Instr::RV32(RV32Instr::RV32I(RV32I::LB(rd, rs1, imm))),
        1 => Instr::RV32(RV32Instr::RV32I(RV32I::LH(rd, rs1, imm))),
        2 => Instr::RV32(RV32Instr::RV32I(RV32I::LW(rd, rs1, imm))),
        3 => Instr::RV64(RV64Instr::RV64I(RV64I::LD(rd, rs1, imm))),
        4 => Instr::RV32(RV32Instr::RV32I(RV32I::LBU(rd, rs1, imm))),
        5 => Instr::RV32(RV32Instr::RV32I(RV32I::LHU(rd, rs1, imm))),
        6 => Instr::RV64(RV64Instr::RV64I(RV64I::LWU(rd, rs1, imm))),
        _ => Instr::Unknown(w),
    }
}

fn decode_store(w: u32) -> (r: Instr)
    ensures
        r == spec_decode_store(w),
        wf_instr(r),
{
    let rs1 = Rs1(rs1_of(w));
    let rs2 = Rs2(rs2_of(w));
    let imm = imm_s(w);
    match (w >> 12) & 0x7 {
        0 => Instr::RV32(RV32Instr::RV32I(RV32I::SB(rs1, rs2, imm))),
        1 => Instr::RV32(RV32Instr::RV32I(RV32I::SH(rs1, rs2, imm))),
        2 => Instr::RV32(RV32Instr::RV32I(RV32I::SW(rs1, rs2, imm))),
        3 => Instr::RV64(RV64Instr::RV64I(RV64I::SD(rs1, rs2, imm))),
        _ => Instr::Unknown(w),
    }
}

fn decode_branch(w: u32) -> (r: Instr)
    ensures
        r == spec_decode_branch(w),
        wf_instr(r),
{
    let rs1 = Rs1(rs1_of(w));
    let rs2 = Rs2(rs2_of(w));
    let imm = imm_b(w);
    match (w >> 12) & 0x7 {
        0 => Instr::RV32(RV32Instr::RV32I(RV32I::BEQ(rs1, rs2, imm))),
        1 => Instr::RV32(RV32Instr::RV32I(RV32I::BNE(rs1, rs2, imm))),
        4 => Instr::RV32(RV32Instr::RV32I(RV32I::BLT(rs1, rs2, imm))),
        5 => Instr::RV32(RV32Instr::RV32I(RV32I::BGE(rs1, rs2, imm))),
        6 => Instr::RV32(RV32Instr::RV32I(RV32I::BLTU(rs1, rs2, imm))),
        7 => Instr::RV32(RV32Instr::RV32I(RV32I::BGEU(rs1, rs2, imm))),
        _ => Instr::Unknown(w),
    }
}

fn decode_op_imm(w: u32) -> (r: Instr)
    ensures
        r == spec_decode_op_imm(w),
        wf_instr(r),
{
    if w == 0x13 {
        Instr::NOP
    } else {
        let rd = Rd(rd_of(w));
        let rs1 = Rs1(rs1_of(w));
        let imm = imm_i(w);
        match (w >> 12) & 0x7 {
            0 => Instr::RV32(RV32Instr::RV32I(RV32I::ADDI(rd, rs1, imm))),
            1 => if (w >> 26) == 0 {
                Instr::RV64(RV64Instr::RV64I(RV64I::SLLI(rd, rs1, Shamt(shamt6_of(w)))))
            } else {
                Instr::Unknown(w)
            },
            2 => Instr::RV32(RV32Instr::RV32I(RV32I::SLTI(rd, rs1, imm))),
            3 => Instr::RV32(RV32Instr::RV32I(RV32I::SLTIU(rd, rs1, imm))),
            4 => Instr::RV32(RV32Instr::RV32I(RV32I::XORI(rd, rs1, imm))),
            5 => if (w >> 26) == 0 {
                Instr::RV64(RV64Instr::RV64I(RV64I::SRLI(rd, rs1, Shamt(shamt6_of(w)))))
            } else if (w >> 26) == 0x10 {
                Instr::RV64(RV64Instr::RV64I(RV64I::SRAI(rd, rs1, Shamt(shamt6_of(w)))))
            } else {
                Instr::Unknown(w)
            },
            6 => Instr::RV32(RV32Instr::RV32I(RV32I::ORI(rd, rs1, imm))),
            _ => Instr::RV32(RV32Instr::RV32I(RV32I::ANDI(rd, rs1, imm))),
        }
    }
}

fn decode_op(w: u32) -> (r: Instr)
    ensures
        r == spec_decode_op(w),
        wf_instr(r),
{
    let rd = Rd(rd_of(w));
    let rs1 = Rs1(rs1_of(w));
    let rs2 = Rs2(rs2_of(w));
    let f3 = (w >> 12) & 0x7;
    match (w >> 25) & 0x7f {
        0x00 => match f3 {
            0 => Instr::RV32(RV32Instr::RV32I(RV32I::ADD(rd, rs1, rs2))),
            1 => Instr::RV32(RV32Instr::RV32I(RV32I::SLL(rd, rs1, rs2))),
            2 => Instr::RV32(RV32Instr::RV32I(RV32I::SLT(rd, rs1, rs2))),
            3 => Instr::RV32(RV32Instr::RV32I(RV32I::SLTU(rd, rs1, rs2))),
            4 => Instr::RV32(RV32Instr::RV32I(RV32I::XOR(rd, rs1, rs2))),
            5 => Instr::RV32(RV32Instr::RV32I(RV32I::SRL(rd, rs1, rs2))),
            6 => Instr::RV32(RV32Instr::RV32I(RV32I::OR(rd, rs1, rs2))),
            _ => Instr::RV32(RV32Instr::RV32I(RV32I::AND(rd, rs1, rs2))),
        },
        0x20 => match f3 {
            0 => Instr::RV32(RV32Instr::RV32I(RV32I::SUB(rd, rs1, rs2))),
            5 => Instr::RV32(RV32Instr::RV32I(RV32I::SRA(rd, rs1, rs2))),
            _ => Instr::Unknown(w),
        },
        0x01 => match f3 {
            0 => Instr::RV32(RV32Instr::RV32M(RV32M::MUL(rd, rs1, rs2))),
            1 => Instr::RV32(RV32Instr::RV32M(RV32M::MULH(rd, rs1, rs2))),
            2 => Instr::RV32(RV32Instr::RV32M(RV32M::MULHSU(rd, rs1, rs2))),
            3 => Instr::RV32(RV32Instr::RV32M(RV32M::MULHU(rd, rs1, rs2))),
            4 => Instr::RV32(RV32Instr::RV32M(RV32M::DIV(rd, rs1, rs2))),
            5 => Instr::RV32(RV32Instr::RV32M(RV32M::DIVU(rd, rs1, rs2))),
            6 => Instr::RV32(RV32Instr::RV32M(RV32M::REM(rd, rs1, rs2))),
            _ => Instr::RV32(RV32Instr::RV32M(RV32M::REMU(rd, rs1, rs2))),
        },
        _ => Instr::Unknown(w),
    }
}

fn decode_op_imm_32(w: u32) -> (r: Instr)
    ensures
        r == spec_decode_op_imm_32(w),
        wf_instr(r),
{
    let rd = Rd(rd_of(w));
    let rs1 = Rs1(rs1_of(w));
    match (w >> 12) & 0x7 {
        0 => Instr::RV64(RV64Instr::RV64I(RV64I::ADDIW(rd, rs1, imm_i(w)))),
        1 => if (w >> 25) & 0x7f == 0 {
            Instr::RV64(RV64Instr::RV64I(RV64I::SLLIW(rd, rs1, Shamt(shamt5_of(w)))))
        } else {
            Instr::Unknown(w)
        },
        5 => if (w >> 25) & 0x7f == 0 {
            Instr::RV64(RV64Instr::RV64I(RV64I::SRLIW(rd, rs1, Shamt(shamt5_of(w)))))
        } else if (w >> 25) & 0x7f == 0x20 {
            Instr::RV64(RV64Instr::RV64I(RV64I::SRAIW(rd, rs1, Shamt(shamt5_of(w)))))
        } else {
            Instr::Unknown(w)
        },
        _ => Instr::Unknown(w),
    }
}

fn decode_op_32(w: u32) -> (r: Instr)
    ensures
        r == spec_decode_op_32(w),
        wf_instr(r),
{
    let rd = Rd(rd_of(w));
    let rs1 = Rs1(rs1_of(w));
    let rs2 = Rs2(rs2_of(w));
    let f3 = (w >> 12) & 0x7;
    match (w >> 25) & 0x7f {
        0x00 => match f3 {
            0 => Instr::RV64(RV64Instr::RV64I(RV64I::ADDW(rd, rs1, rs2))),
            1 => Instr::RV64(RV64Instr::RV64I(RV64I::SLLW(rd, rs1, rs2))),
            5 => Instr::RV64(RV64Instr::RV64I(RV64I::SRLW(rd, rs1, rs2))),
            _ => Instr::Unknown(w),
        },
        0x20 => match f3 {
            0 => Instr::RV64(RV64Instr::RV64I(RV64I::SUBW(rd, rs1, rs2))),
            5 => Instr::RV64(RV64Instr::RV64I(RV64I::SRAW(rd, rs1, rs2))),
            _ => Instr::Unknown(w),
        },
        0x01 => match f3 {
            0 => Instr::RV64(RV64Instr::RV64M(RV64M::MULW(rd, rs1, rs2))),
            4 => Instr::RV64(RV64Instr::RV64M(RV64M::DIVW(rd, rs1, rs2))),
            5 => Instr::RV64(RV64Instr::RV64M(RV64M::DIVUW(rd, rs1, rs2))),
            6 => Instr::RV64(RV64Instr::RV64M(RV64M::REMW(rd, rs1, rs2))),
            7 => Instr::RV64(RV64Instr::RV64M(RV64M::REMUW(rd, rs1, rs2))),
            _ => Instr::Unknown(w),
        },
        _ => Instr::Unknown(w),
    }
}

fn decode_vector(w: u32) -> (r: Instr)
    ensures
        r == spec_decode_vector(w),
        wf_instr(r),
{
    if (w >> 12) & 0x7 == 7 {
        if (w >> 31) == 0 {
            Instr::RV32(RV32Instr::RVV(RVV::VSETVLI(Rd(rd_of(w)), Rs1(rs1_of(w)), (w >> 20) & 0x7ff)))
        } else if (w >> 30) == 3 {
            Instr::RV32(
                RV32Instr::RVV(RVV::VSETIVLI(Rd(rd_of(w)), (w >> 15) & 0x1f, (w >> 20) & 0x3ff)),
            )
        } else if (w >> 25) & 0x7f == 0x40 {
            Instr::RV32(RV32Instr::RVV(RVV::VSETVL(Rd(rd_of(w)), Rs1(rs1_of(w)), Rs2(rs2_of(w)))))
        } else {
            Instr::RV32(RV32Instr::RVV(RVV::Other(w)))
        }
    } else {
        Instr::RV32(RV32Instr::RVV(RVV::Other(w)))
    }
}

/// Decode one full 32-bit instruction word.  Total: every word maps to a
/// variant; nothing here can fail.
pub fn decode_word(w: u32) -> (r: Instr)
    ensures
        r == spec_decode_word(w),
        wf_instr(r),
{
    match w & 0x7f {
        0x37 => Instr::RV32(RV32Instr::RV32I(RV32I::LUI(Rd(rd_of(w)), imm_u(w)))),
        0x17 => Instr::RV32(RV32Instr::RV32I(RV32I::AUIPC(Rd(rd_of(w)), imm_u(w)))),
        0x6f => Instr::RV32(RV32Instr::RV32I(RV32I::JAL(Rd(rd_of(w)), imm_j(w)))),
        0x67 => if (w >> 12) & 0x7 == 0 {
            Instr::RV32(RV32Instr::RV32I(RV32I::JALR(Rd(rd_of(w)), Rs1(rs1_of(w)), imm_i(w))))
        } else {
            Instr::Unknown(w)
        },
        0x63 => decode_branch(w),
        0x03 => decode_load(w),
        0x23 => decode_store(w),
        0x13 => decode_op_imm(w),
        0x33 => decode_op(w),
        0x1b => decode_op_imm_32(w),
        0x3b => decode_op_32(w),
        0x0f => if (w >> 12) & 0x7 == 0 || (w >> 12) & 0x7 == 1 {
            if w == 0x8330000f {
                Instr::RV32(RV32Instr::RV32I(RV32I::FENCE_TSO))
            } else if w == 0x0100000f {
                Instr::RV32(RV32Instr::RV32I(RV32I::PAUSE))
            } else {
                Instr::RV32(RV32Instr::RV32I(RV32I::FENCE))
            }
        } else {
            Instr::Unknown(w)
        },
        0x73 => if w == 0x00000073 {
            Instr::RV32(RV32Instr::RV32I(RV32I::ECALL))
        } else if w == 0x00100073 {
            Instr::RV32(RV32Instr::RV32I(RV32I::EBREAK))
        } else {
            Instr::Unknown(w)
        },
        0x57 => decode_vector(w),
        0x07 => Instr::RV32(RV32Instr::RVV(RVV::Other(w))),
        0x27 => Instr::RV32(RV32Instr::RVV(RVV::Other(w))),
        _ => Instr::Unknown(w),
    }
}

impl Instruction {
    /// Decode an instruction from a little-endian byte stream.  When the low
    /// two bits of the first byte are not 0b11 the word is 16 bits wide and
    /// only the first two bytes are read; otherwise four bytes are consumed.
    pub fn parse(bytes: &[u8]) -> (r: Instruction)
        requires
            bytes@.len() >= 2,
            bytes@[0] & 3 == 3 ==> bytes@.len() >= 4,
        ensures
            r.instr == spec_parse(bytes@),
            wf_instr(r.instr),
    {
        let b0 = bytes[0];
        if b0 & 3 != 3 {
            let half = (b0 as u16) | ((bytes[1] as u16) << 8);
            Instruction { instr: Instr::Compressed(half) }
        } else {
            let w = (b0 as u32) | ((bytes[1] as u32) << 8) | ((bytes[2] as u32) << 16) | ((
            bytes[3] as u32) << 24);
            Instruction { instr: decode_word(w) }
        }
    }
}

} // verus!
