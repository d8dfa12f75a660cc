//! A small WebAssembly-text instruction model.
//!
//! The lowering engine works over this model: one `SOp` per flat WAT
//! instruction, plus a single structured `if`/`else`/`end` form.  Rendering
//! to text is specified exactly, character for character, so the emitter's
//! output is pinned by its contract, and the interpreter in `machine` gives
//! the model a semantics that the lowering laws are proved against.

use vstd::prelude::*;

verus! {

/// One flat WAT instruction of the subset the lowering engine emits.
#[derive(Clone, Copy, Debug, PartialEq, Eq, Structural)]
pub enum SOp {
    /// `global.get $xN`
    GetX(u8),
    /// `global.set $xN`
    SetX(u8),
    GetPc,
    SetPc,
    GetInstrCount,
    SetInstrCount,
    GetVl,
    SetVl,
    SetVtype,
    ConstI64(i64),
    ConstI32(i32),
    I64Add,
    I64Sub,
    I64Mul,
    I64DivS,
    I64DivU,
    I64RemS,
    I64RemU,
    I64And,
    I64Or,
    I64Xor,
    I64Shl,
    I64ShrS,
    I64ShrU,
    I64Eq,
    I64Ne,
    I64LtS,
    I64LtU,
    I64GeS,
    I64GeU,
    I64Eqz,
    I32Add,
    I32Sub,
    I32Mul,
    I32DivS,
    I32DivU,
    I32RemS,
    I32RemU,
    I32And,
    I32Shl,
    I32ShrS,
    I32ShrU,
    I32Eqz,
    /// `i32.wrap_i64`
    WrapI64,
    /// `i64.extend_i32_s`
    ExtendI32S,
    /// `i64.extend_i32_u`
    ExtendI32U,
    /// `call $vaddr_to_offset`
    VaddrToOffset,
    I32Load8S,
    I32Load8U,
    I32Load16S,
    I32Load16U,
    I32Load,
    I64Load,
    I32Store8,
    I32Store16,
    I32Store,
    I64Store,
    /// `call $syscall`
    Syscall,
    Drop,
    /// A diagnostic placeholder comment; no effect on state.
    Comment,
}

/// A WAT instruction of the emitted shape: either one flat instruction or a
/// balanced `if`/`else`/`end` whose arms are flat.
pub enum WatOp {
    Op(SOp),
    IfElse(Seq<SOp>, Seq<SOp>),
}

// ---------------------------------------------------------------------------
// Decimal rendering
// ---------------------------------------------------------------------------

pub open spec fn spec_digit_char(d: int) -> char {
    if d == 0 {
        '0'
    } else if d == 1 {
        '1'
    } else if d == 2 {
        '2'
    } else if d == 3 {
        '3'
    } else if d == 4 {
        '4'
    } else if d == 5 {
        '5'
    } else if d == 6 {
        '6'
    } else if d == 7 {
        '7'
    } else if d == 8 {
        '8'
    } else {
        '9'
    }
}

/// Decimal digits of a nonnegative number, most significant first.
pub open spec fn spec_dec_nat(n: nat) -> Seq<char>
    decreases n,
{
    if n < 10 {
        seq![spec_digit_char(n as int)]
    } else {
        spec_dec_nat(n / 10) + seq![spec_digit_char((n % 10) as int)]
    }
}

/// Decimal rendering of a possibly negative number.
pub open spec fn spec_dec_int(n: int) -> Seq<char> {
    if n >= 0 {
        spec_dec_nat(n as nat)
    } else {
        seq!['-'] + spec_dec_nat((-n) as nat)
    }
}

fn digit_str(d: u64) -> (r: &'static str)
    requires
        d < 10,
    ensures
        r@ == seq![spec_digit_char(d as int)],
{
    proof {
        reveal_strlit("0");
        reveal_strlit("1");
        reveal_strlit("2");
        reveal_strlit("3");
        reveal_strlit("4");
        reveal_strlit("5");
        reveal_strlit("6");
        reveal_strlit("7");
        reveal_strlit("8");
        reveal_strlit("9");
    }
    let r = if d == 0 {
        "0"
    } else if d == 1 {
        "1"
    } else if d == 2 {
        "2"
    } else if d == 3 {
        "3"
    } else if d == 4 {
        "4"
    } else if d == 5 {
        "5"
    } else if d == 6 {
        "6"
    } else if d == 7 {
        "7"
    } else if d == 8 {
        "8"
    } else {
        "9"
    };
    proof {
        assert(r@ =~= seq![spec_digit_char(d as int)]);
    }
    r
}

/// Append the decimal rendering of `n` to `out`.
pub fn append_dec_u64(out: &mut String, n: u64)
    ensures
        final(out)@ == old(out)@ + spec_dec_nat(n as nat),
    decreases n,
{
    if n < 10 {
        out.append(digit_str(n));
    } else {
        append_dec_u64(out, n / 10);
        out.append(digit_str(n % 10));
        proof {
            assert(out@ =~= old(out)@ + spec_dec_nat(n as nat));
        }
    }
}

/// Append the decimal rendering of a signed value to `out`.
pub fn append_dec_i64(out: &mut String, n: i64)
    ensures
        final(out)@ == old(out)@ + spec_dec_int(n as int),
{
    if n >= 0 {
        append_dec_u64(out, n as u64);
    } else {
        proof {
            reveal_strlit("-");
            assert("-"@ =~= seq!['-']);
        }
        out.append("-");
        let mag: u64 = if n == i64::MIN {
            0x8000000000000000u64
        } else {
            (-n) as u64
        };
        proof {
            assert(mag as int == -(n as int));
        }
        append_dec_u64(out, mag);
        proof {
            assert(out@ =~= old(out)@ + spec_dec_int(n as int));
        }
    }
}

// ---------------------------------------------------------------------------
// Rendering of the instruction model, one line (or block) per op
// ---------------------------------------------------------------------------

/// Exact text of one flat op: a four-space indented line.
pub open spec fn spec_render_sop(s: SOp) -> Seq<char> {
    match s {
        SOp::GetX(r) => "    global.get $x"@ + spec_dec_nat(r as nat) + "\n"@,
        SOp::SetX(r) => "    global.set $x"@ + spec_dec_nat(r as nat) + "\n"@,
        SOp::GetPc => "    global.get $pc\n"@,
        SOp::SetPc => "    global.set $pc\n"@,
        SOp::GetInstrCount => "    global.get $instr_count\n"@,
        SOp::SetInstrCount => "    global.set $instr_count\n"@,
        SOp::GetVl => "    global.get $vl\n"@,
        SOp::SetVl => "    global.set $vl\n"@,
        SOp::SetVtype => "    global.set $vtype\n"@,
        SOp::ConstI64(v) => "    i64.const "@ + spec_dec_int(v as int) + "\n"@,
        SOp::ConstI32(v) => "    i32.const "@ + spec_dec_int(v as int) + "\n"@,
        SOp::I64Add => "    i64.add\n"@,
        SOp::I64Sub => "    i64.sub\n"@,
        SOp::I64Mul => "    i64.mul\n"@,
        SOp::I64DivS => "    i64.div_s\n"@,
        SOp::I64DivU => "    i64.div_u\n"@,
        SOp::I64RemS => "    i64.rem_s\n"@,
        SOp::I64RemU => "    i64.rem_u\n"@,
        SOp::I64And => "    i64.and\n"@,
        SOp::I64Or => "    i64.or\n"@,
        SOp::I64Xor => "    i64.xor\n"@,
        SOp::I64Shl => "    i64.shl\n"@,
        SOp::I64ShrS => "    i64.shr_s\n"@,
        SOp::I64ShrU => "    i64.shr_u\n"@,
        SOp::I64Eq => "    i64.eq\n"@,
        SOp::I64Ne => "    i64.ne\n"@,
        SOp::I64LtS => "    i64.lt_s\n"@,
        SOp::I64LtU => "    i64.lt_u\n"@,
        SOp::I64GeS => "    i64.ge_s\n"@,
        SOp::I64GeU => "    i64.ge_u\n"@,
        SOp::I64Eqz => "    i64.eqz\n"@,
        SOp::I32Add => "    i32.add\n"@,
        SOp::I32Sub => "    i32.sub\n"@,
        SOp::I32Mul => "    i32.mul\n"@,
        SOp::I32DivS => "    i32.div_s\n"@,
        SOp::I32DivU => "    i32.div_u\n"@,
        SOp::I32RemS => "    i32.rem_s\n"@,
        SOp::I32RemU => "    i32.rem_u\n"@,
        SOp::I32And => "    i32.and\n"@,
        SOp::I32Shl => "    i32.shl\n"@,
        SOp::I32ShrS => "    i32.shr_s\n"@,
        SOp::I32ShrU => "    i32.shr_u\n"@,
        SOp::I32Eqz => "    i32.eqz\n"@,
        SOp::WrapI64 => "    i32.wrap_i64\n"@,
        SOp::ExtendI32S => "    i64.extend_i32_s\n"@,
        SOp::ExtendI32U => "    i64.extend_i32_u\n"@,
        SOp::VaddrToOffset => "    call $vaddr_to_offset\n"@,
        SOp::I32Load8S => "    i32.load8_s\n"@,
        SOp::I32Load8U => "    i32.load8_u\n"@,
        SOp::I32Load16S => "    i32.load16_s\n"@,
        SOp::I32Load16U => "    i32.load16_u\n"@,
        SOp::I32Load => "    i32.load\n"@,
        SOp::I64Load => "    i64.load\n"@,
        SOp::I32Store8 => "    i32.store8\n"@,
        SOp::I32Store16 => "    i32.store16\n"@,
        SOp::I32Store => "    i32.store\n"@,
        SOp::I64Store => "    i64.store\n"@,
        SOp::Syscall => "    call $syscall\n"@,
        SOp::Drop => "    drop\n"@,
        SOp::Comment => "    ;; unsupported instruction surfaced as a no-op\n"@,
    }
}

/// Text of a flat op sequence.
pub open spec fn spec_render_sops(ops: Seq<SOp>) -> Seq<char>
    decreases ops.len(),
{
    if ops.len() == 0 {
        Seq::<char>::empty()
    } else {
        spec_render_sop(ops[0]) + spec_render_sops(ops.drop_first())
    }
}

/// Text of one model op, flat or structured.
pub open spec fn spec_render_watop(op: WatOp) -> Seq<char> {
    match op {
        WatOp::Op(s) => spec_render_sop(s),
        WatOp::IfElse(t, e) => "    if\n"@ + spec_render_sops(t) + "    else\n"@
            + spec_render_sops(e) + "    end\n"@,
    }
}

/// Text of a model op sequence.
pub open spec fn spec_render_ops(ops: Seq<WatOp>) -> Seq<char>
    decreases ops.len(),
{
    if ops.len() == 0 {
        Seq::<char>::empty()
    } else {
        spec_render_watop(ops[0]) + spec_render_ops(ops.drop_first())
    }
}

/// Append the rendering of one flat op to `out`.
pub fn append_sop(out: &mut String, s: SOp)
    ensures
        final(out)@ == old(out)@ + spec_render_sop(s),
{
    match s {
        SOp::GetX(r) => {
            out.append("    global.get $x");
            append_dec_u64(out, r as u64);
            out.append("\n");
            proof {
                assert(out@ =~= old(out)@ + spec_render_sop(s));
            }
        },
        SOp::SetX(r) => {
            out.append("    global.set $x");
            append_dec_u64(out, r as u64);
            out.append("\n");
            proof {
                assert(out@ =~= old(out)@ + spec_render_sop(s));
            }
        },
        SOp::GetPc => out.append("    global.get $pc\n"),
        SOp::SetPc => out.append("    global.set $pc\n"),
        SOp::GetInstrCount => out.append("    global.get $instr_count\n"),
        SOp::SetInstrCount => out.append("    global.set $instr_count\n"),
        SOp::GetVl => out.append("    global.get $vl\n"),
        SOp::SetVl => out.append("    global.set $vl\n"),
        SOp::SetVtype => out.append("    global.set $vtype\n"),
        SOp::ConstI64(v) => {
            out.append("    i64.const ");
            append_dec_i64(out, v);
            out.append("\n");
            proof {
                assert(out@ =~= old(out)@ + spec_render_sop(s));
            }
        },
        SOp::ConstI32(v) => {
            out.append("    i32.const ");
            append_dec_i64(out, v as i64);
            out.append("\n");
            proof {
                assert(out@ =~= old(out)@ + spec_render_sop(s));
            }
        },
        SOp::I64Add => out.append("    i64.add\n"),
        SOp::I64Sub => out.append("    i64.sub\n"),
        SOp::I64Mul => out.append("    i64.mul\n"),
        SOp::I64DivS => out.append("    i64.div_s\n"),
        SOp::I64DivU => out.append("    i64.div_u\n"),
        SOp::I64RemS => out.append("    i64.rem_s\n"),
        SOp::I64RemU => out.append("    i64.rem_u\n"),
        SOp::I64And => out.append("    i64.and\n"),
        SOp::I64Or => out.append("    i64.or\n"),
        SOp::I64Xor => out.append("    i64.xor\n"),
        SOp::I64Shl => out.append("    i64.shl\n"),
        SOp::I64ShrS => out.append("    i64.shr_s\n"),
        SOp::I64ShrU => out.append("    i64.shr_u\n"),
        SOp::I64Eq => out.append("    i64.eq\n"),
        SOp::I64Ne => out.append("    i64.ne\n"),
        SOp::I64LtS => out.append("    i64.lt_s\n"),
        SOp::I64LtU => out.append("    i64.lt_u\n"),
        SOp::I64GeS => out.append("    i64.ge_s\n"),
        SOp::I64GeU => out.append("    i64.ge_u\n"),
        SOp::I64Eqz => out.append("    i64.eqz\n"),
        SOp::I32Add => out.append("    i32.add\n"),
        SOp::I32Sub => out.append("    i32.sub\n"),
        SOp::I32Mul => out.append("    i32.mul\n"),
        SOp::I32DivS => out.append("    i32.div_s\n"),
        SOp::I32DivU => out.append("    i32.div_u\n"),
        SOp::I32RemS => out.append("    i32.rem_s\n"),
        SOp::I32RemU => out.append("    i32.rem_u\n"),
        SOp::I32And => out.append("    i32.and\n"),
        SOp::I32Shl => out.append("    i32.shl\n"),
        SOp::I32ShrS => out.append("    i32.shr_s\n"),
        SOp::I32ShrU => out.append("    i32.shr_u\n"),
        SOp::I32Eqz => out.append("    i32.eqz\n"),
        SOp::WrapI64 => out.append("    i32.wrap_i64\n"),
        SOp::ExtendI32S => out.append("    i64.extend_i32_s\n"),
        SOp::ExtendI32U => out.append("    i64.extend_i32_u\n"),
        SOp::VaddrToOffset => out.append("    call $vaddr_to_offset\n"),
        SOp::I32Load8S => out.append("    i32.load8_s\n"),
        SOp::I32Load8U => out.append("    i32.load8_u\n"),
        SOp::I32Load16S => out.append("    i32.load16_s\n"),
        SOp::I32Load16U => out.append("    i32.load16_u\n"),
        SOp::I32Load => out.append("    i32.load\n"),
        SOp::I64Load => out.append("    i64.load\n"),
        SOp::I32Store8 => out.append("    i32.store8\n"),
        SOp::I32Store16 => out.append("    i32.store16\n"),
        SOp::I32Store => out.append("    i32.store\n"),
        SOp::I64Store => out.append("    i64.store\n"),
        SOp::Syscall => out.append("    call $syscall\n"),
        SOp::Drop => out.append("    drop\n"),
        SOp::Comment => out.append("    ;; unsupported instruction surfaced as a no-op\n"),
    }
}

/// Append the rendering of a flat op slice to `out`.
pub fn append_sops(out: &mut String, ops: &Vec<SOp>)
    ensures
        final(out)@ == old(out)@ + spec_render_sops(ops@),
{
    let ghost complete = ops@;
    let mut i: usize = 0;
    while i < ops.len()
        invariant
            i <= ops.len(),
            ops@ == complete,
            out@ == old(out)@ + spec_render_sops(complete.take(i as int)),
        decreases ops.len() - i,
    {
        append_sop(out, ops[i]);
        proof {
            lemma_render_sops_take_succ(complete, i as int);
        }
        i = i + 1;
    }
    proof {
        assert(complete.take(ops@.len() as int) =~= complete);
    }
}

/// Unfolding step: rendering the first `i + 1` ops appends the text of op `i`.
proof fn lemma_render_sops_take_succ(ops: Seq<SOp>, i: int)
    requires
        0 <= i < ops.len(),
    ensures
        spec_render_sops(ops.take(i + 1)) == spec_render_sops(ops.take(i)) + spec_render_sop(
            ops[i],
        ),
    decreases i,
{
    let pre = ops.take(i + 1);
    if i == 0 {
        assert(pre.drop_first() =~= Seq::<SOp>::empty());
        assert(ops.take(0) =~= Seq::<SOp>::empty());
        assert(spec_render_sops(pre) =~= spec_render_sops(ops.take(0)) + spec_render_sop(ops[0]));
    } else {
        lemma_render_sops_take_succ(ops.drop_first(), i - 1);
        assert(pre.drop_first() =~= ops.drop_first().take(i));
        assert(ops.take(i).drop_first() =~= ops.drop_first().take(i - 1));
        assert(spec_render_sops(ops.take(i + 1)) =~= spec_render_sops(ops.take(i))
            + spec_render_sop(ops[i]));
    }
}

/// Append a balanced `if`/`else`/`end` block whose arms are flat.
pub fn append_ifelse(out: &mut String, then_ops: &Vec<SOp>, else_ops: &Vec<SOp>)
    ensures
        final(out)@ == old(out)@ + spec_render_watop(WatOp::IfElse(then_ops@, else_ops@)),
{
    out.append("    if\n");
    append_sops(out, then_ops);
    out.append("    else\n");
    append_sops(out, else_ops);
    out.append("    end\n");
    proof {
        assert(out@ =~= old(out)@ + spec_render_watop(WatOp::IfElse(then_ops@, else_ops@)));
    }
}

} // verus!
