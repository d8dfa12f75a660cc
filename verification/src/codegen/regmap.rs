//! Register bookkeeping for the lowering: the fixed register-to-global
//! naming, per-block read/write tracking, and usage statistics.

use vstd::prelude::*;

use crate::middleend::wat::{append_dec_u64, spec_dec_nat};

verus! {

/// A guest register index.
pub type RegIndex = u8;

/// The WAT global that holds a register.
pub open spec fn spec_global_name(reg: int) -> Seq<char> {
    "$x"@ + spec_dec_nat(reg as nat)
}

/// Tracks, per basic block, which registers are read, written, and still
/// live.  Every register index has a slot; the hard-wired zero register is
/// never tracked.
pub struct RegisterMap {
    /// The WAT global name of each of the 32 registers.
    pub reg_to_global: Vec<String>,
    /// Which registers this block has read.
    pub read_registers: Vec<bool>,
    /// Which registers this block has written.
    pub written_registers: Vec<bool>,
    /// Which registers are still live.
    pub live_registers: Vec<bool>,
}

/// 256 cleared flags, one per possible index.
pub open spec fn all_false() -> Seq<bool> {
    Seq::new(256, |i: int| false)
}

fn mk_false256() -> (r: Vec<bool>)
    ensures
        r@ == all_false(),
{
    let mut r: Vec<bool> = Vec::new();
    let mut i: usize = 0;
    while i < 256
        invariant
            i <= 256,
            r@.len() == i,
            forall|j: int| 0 <= j < i ==> r@[j] == false,
        decreases 256 - i,
    {
        r.push(false);
        i = i + 1;
    }
    proof {
        assert(r@ =~= all_false());
    }
    r
}

impl RegisterMap {
    pub open spec fn spec_read(self) -> Seq<bool> {
        self.read_registers@
    }

    pub open spec fn spec_written(self) -> Seq<bool> {
        self.written_registers@
    }

    pub open spec fn spec_live(self) -> Seq<bool> {
        self.live_registers@
    }

    /// All three flag tables cover every index; the name table covers the
    /// 32 real registers.
    pub open spec fn wf(self) -> bool {
        self.read_registers@.len() == 256 && self.written_registers@.len() == 256
            && self.live_registers@.len() == 256 && self.reg_to_global@.len() == 32 && forall|
            i: int,
        |
            0 <= i < 32 ==> #[trigger] self.reg_to_global@[i]@ == spec_global_name(i)
    }

    /// A fresh map: the standard names, nothing tracked.
    #[verifier::loop_isolation(false)]
    pub fn new() -> (r: RegisterMap)
        ensures
            r.wf(),
            r.spec_read() == all_false(),
            r.spec_written() == all_false(),
            r.spec_live() == all_false(),
    {
        let mut names: Vec<String> = Vec::new();
        let mut i: usize = 0;
        while i < 32
            invariant
                i <= 32,
                names@.len() == i,
                forall|j: int| 0 <= j < i ==> #[trigger] names@[j]@ == spec_global_name(j),
            decreases 32 - i,
        {
            let mut s = String::new();
            s.append("$x");
            append_dec_u64(&mut s, i as u64);
            proof {
                assert(s@ =~= spec_global_name(i as int));
            }
            names.push(s);
            i = i + 1;
        }
        RegisterMap {
            reg_to_global: names,
            read_registers: mk_false256(),
            written_registers: mk_false256(),
            live_registers: mk_false256(),
        }
    }

    /// The WAT global name of a register, for the 32 that exist.
    pub fn get_global_name(&self, reg: RegIndex) -> (r: Option<&str>)
        requires
            self.wf(),
        ensures
            reg < 32 ==> r is Some && r->0@ == spec_global_name(reg as int),
            reg >= 32 ==> r is None,
    {
        if reg < 32 {
            Some(self.reg_to_global[reg as usize].as_str())
        } else {
            Option::<&str>::None
        }
    }

    /// Note a read; the zero register is never tracked, and a read keeps
    /// the register live.
    pub fn mark_read(&mut self, reg: RegIndex)
        requires
            old(self).wf(),
        ensures
            final(self).wf(),
            reg != 0 ==> final(self).spec_read() == old(self).spec_read().update(reg as int, true)
                && final(self).spec_live() == old(self).spec_live().update(reg as int, true),
            reg == 0 ==> final(self).spec_read() == old(self).spec_read() && final(self).spec_live() == old(self).spec_live(),
            final(self).spec_written() == old(self).spec_written(),
    {
        if reg != 0 {
            self.read_registers.set(reg as usize, true);
            self.live_registers.set(reg as usize, true);
        }
    }

    /// Note a write; the zero register is never tracked.
    pub fn mark_written(&mut self, reg: RegIndex)
        requires
            old(self).wf(),
        ensures
            final(self).wf(),
            reg != 0 ==> final(self).spec_written() == old(self).spec_written().update(
                reg as int,
                true,
            ),
            reg == 0 ==> final(self).spec_written() == old(self).spec_written(),
            final(self).spec_read() == old(self).spec_read(),
            final(self).spec_live() == old(self).spec_live(),
    {
        if reg != 0 {
            self.written_registers.set(reg as usize, true);
        }
    }

    /// Whether the register was read in this block.
    pub fn is_read(&self, reg: RegIndex) -> (r: bool)
        requires
            self.wf(),
        ensures
            r == self.spec_read()[reg as int],
    {
        self.read_registers[reg as usize]
    }

    /// Whether the register was written in this block.
    pub fn is_written(&self, reg: RegIndex) -> (r: bool)
        requires
            self.wf(),
        ensures
            r == self.spec_written()[reg as int],
    {
        self.written_registers[reg as usize]
    }

    /// Whether the register is still live.
    pub fn is_live(&self, reg: RegIndex) -> (r: bool)
        requires
            self.wf(),
        ensures
            r == self.spec_live()[reg as int],
    {
        self.live_registers[reg as usize]
    }

    /// Drop a register from the live set.
    pub fn mark_dead(&mut self, reg: RegIndex)
        requires
            old(self).wf(),
        ensures
            final(self).wf(),
            final(self).spec_live() == old(self).spec_live().update(reg as int, false),
            final(self).spec_read() == old(self).spec_read(),
            final(self).spec_written() == old(self).spec_written(),
    {
        self.live_registers.set(reg as usize, false);
    }

    /// Forget this block's reads and writes; liveness carries over.
    pub fn reset_block_tracking(&mut self)
        requires
            old(self).wf(),
        ensures
            final(self).wf(),
            final(self).spec_read() == all_false(),
            final(self).spec_written() == all_false(),
            final(self).spec_live() == old(self).spec_live(),
    {
        self.read_registers = mk_false256();
        self.written_registers = mk_false256();
    }

    /// Registers written in this block but neither read nor live: writes
    /// nothing will observe, in ascending order.
    #[verifier::loop_isolation(false)]
    pub fn get_dead_stores(&self) -> (r: Vec<RegIndex>)
        requires
            self.wf(),
        ensures
            r@ == spec_dead_stores(self.spec_written(), self.spec_read(), self.spec_live(), 0),
    {
        let mut r: Vec<RegIndex> = Vec::new();
        let mut i: usize = 0;
        proof {
            assert(r@ =~= Seq::<RegIndex>::empty());
        }
        while i < 256
            invariant
                i <= 256,
                spec_dead_stores(self.spec_written(), self.spec_read(), self.spec_live(), 0) == r@
                    + spec_dead_stores(
                    self.spec_written(),
                    self.spec_read(),
                    self.spec_live(),
                    i as int,
                ),
            decreases 256 - i,
        {
            if self.written_registers[i] && !self.read_registers[i] && !self.live_registers[i] {
                r.push(i as u8);
            }
            proof {
                assert(spec_dead_stores(self.spec_written(), self.spec_read(), self.spec_live(), 0)
                    =~= r@ + spec_dead_stores(
                    self.spec_written(),
                    self.spec_read(),
                    self.spec_live(),
                    i as int + 1,
                ));
            }
            i = i + 1;
        }
        proof {
            assert(spec_dead_stores(
                self.spec_written(),
                self.spec_read(),
                self.spec_live(),
                256,
            ) =~= Seq::<RegIndex>::empty());
            assert(r@ =~= spec_dead_stores(
                self.spec_written(),
                self.spec_read(),
                self.spec_live(),
                0,
            ));
        }
        r
    }

    /// How many registers are live.
    #[verifier::loop_isolation(false)]
    pub fn live_count(&self) -> (r: usize)
        requires
            self.wf(),
        ensures
            r == spec_count_true(self.spec_live(), 0),
    {
        let mut count: usize = 0;
        let mut i: usize = 0;
        while i < 256
            invariant
                i <= 256,
                count <= i,
                spec_count_true(self.spec_live(), 0) == count + spec_count_true(
                    self.spec_live(),
                    i as int,
                ),
            decreases 256 - i,
        {
            if self.live_registers[i] {
                count = count + 1;
            }
            i = i + 1;
        }
        count
    }
}

/// The dead stores from index `i` upward.
pub open spec fn spec_dead_stores(
    written: Seq<bool>,
    read: Seq<bool>,
    live: Seq<bool>,
    i: int,
) -> Seq<RegIndex>
    decreases 256 - i,
{
    if i < 0 || i >= 256 {
        Seq::<RegIndex>::empty()
    } else if written[i] && !read[i] && !live[i] {
        seq![i as u8] + spec_dead_stores(written, read, live, i + 1)
    } else {
        spec_dead_stores(written, read, live, i + 1)
    }
}

/// How many registers have reads recorded, from index `i` upward.
pub open spec fn spec_pos_reads(reads: Seq<u64>, i: int) -> nat
    decreases 256 - i,
{
    if i < 0 || i >= 256 {
        0nat
    } else if reads[i] > 0 {
        1 + spec_pos_reads(reads, i + 1)
    } else {
        spec_pos_reads(reads, i + 1)
    }
}

/// How many flags are set from index `i` upward.
pub open spec fn spec_count_true(flags: Seq<bool>, i: int) -> nat
    decreases 256 - i,
{
    if i < 0 || i >= 256 {
        0nat
    } else if flags[i] {
        1 + spec_count_true(flags, i + 1)
    } else {
        spec_count_true(flags, i + 1)
    }
}

impl Default for RegisterMap {
    /// A fresh map.
    fn default() -> (r: RegisterMap)
        ensures
            r.wf(),
            r.spec_read() == all_false(),
            r.spec_written() == all_false(),
            r.spec_live() == all_false(),
    {
        RegisterMap::new()
    }
}

// ---------------------------------------------------------------------------
// The standard calling-convention names
// ---------------------------------------------------------------------------

pub const ZERO: RegIndex = 0;

pub const RA: RegIndex = 1;

pub const SP: RegIndex = 2;

pub const GP: RegIndex = 3;

pub const TP: RegIndex = 4;

pub const T0: RegIndex = 5;

pub const T1: RegIndex = 6;

pub const T2: RegIndex = 7;

pub const S0_FP: RegIndex = 8;

pub const S1: RegIndex = 9;

pub const A0: RegIndex = 10;

pub const A1: RegIndex = 11;

pub const A2: RegIndex = 12;

pub const A3: RegIndex = 13;

pub const A4: RegIndex = 14;

pub const A5: RegIndex = 15;

pub const A6: RegIndex = 16;

pub const A7: RegIndex = 17;

pub const S2: RegIndex = 18;

pub const S3: RegIndex = 19;

pub const S4: RegIndex = 20;

pub const S5: RegIndex = 21;

pub const S6: RegIndex = 22;

pub const S7: RegIndex = 23;

pub const S8: RegIndex = 24;

pub const S9: RegIndex = 25;

pub const S10: RegIndex = 26;

pub const S11: RegIndex = 27;

pub const T3: RegIndex = 28;

pub const T4: RegIndex = 29;

pub const T5: RegIndex = 30;

pub const T6: RegIndex = 31;

/// The conventional name of a register.
pub open spec fn spec_abi_name(reg: RegIndex) -> Seq<char> {
    match reg {
        0 => "zero"@,
        1 => "ra"@,
        2 => "sp"@,
        3 => "gp"@,
        4 => "tp"@,
        5 => "t0"@,
        6 => "t1"@,
        7 => "t2"@,
        8 => "s0/fp"@,
        9 => "s1"@,
        10 => "a0"@,
        11 => "a1"@,
        12 => "a2"@,
        13 => "a3"@,
        14 => "a4"@,
        15 => "a5"@,
        16 => "a6"@,
        17 => "a7"@,
        18 => "s2"@,
        19 => "s3"@,
        20 => "s4"@,
        21 => "s5"@,
        22 => "s6"@,
        23 => "s7"@,
        24 => "s8"@,
        25 => "s9"@,
        26 => "s10"@,
        27 => "s11"@,
        28 => "t3"@,
        29 => "t4"@,
        30 => "t5"@,
        31 => "t6"@,
        _ => "unknown"@,
    }
}

/// The conventional name of a register.
pub fn get_abi_name(reg: RegIndex) -> (r: &'static str)
    ensures
        r@ == spec_abi_name(reg),
{
    match reg {
        0 => "zero",
        1 => "ra",
        2 => "sp",
        3 => "gp",
        4 => "tp",
        5 => "t0",
        6 => "t1",
        7 => "t2",
        8 => "s0/fp",
        9 => "s1",
        10 => "a0",
        11 => "a1",
        12 => "a2",
        13 => "a3",
        14 => "a4",
        15 => "a5",
        16 => "a6",
        17 => "a7",
        18 => "s2",
        19 => "s3",
        20 => "s4",
        21 => "s5",
        22 => "s6",
        23 => "s7",
        24 => "s8",
        25 => "s9",
        26 => "s10",
        27 => "s11",
        28 => "t3",
        29 => "t4",
        30 => "t5",
        31 => "t6",
        _ => "unknown",
    }
}

/// Whether a register is caller-saved: the temporaries and arguments.
pub fn is_caller_saved(reg: RegIndex) -> (r: bool)
    ensures
        r == (reg == 5 || reg == 6 || reg == 7 || reg == 28 || reg == 29 || reg == 30 || reg == 31
            || (10 <= reg <= 17)),
{
    (reg >= 5 && reg <= 7) || (reg >= 28 && reg <= 31) || (reg >= 10 && reg <= 17)
}

/// Whether a register is callee-saved.
pub fn is_callee_saved(reg: RegIndex) -> (r: bool)
    ensures
        r == (reg == 8 || reg == 9 || (18 <= reg <= 27)),
{
    reg == 8 || reg == 9 || (reg >= 18 && reg <= 27)
}

// ---------------------------------------------------------------------------
// Usage statistics
// ---------------------------------------------------------------------------

/// Per-register read and write counters, and the largest live-set size
/// seen.
pub struct RegisterStats {
    /// Reads recorded per register.
    pub read_count: Vec<u64>,
    /// Writes recorded per register.
    pub write_count: Vec<u64>,
    /// The largest live-set size seen.
    pub max_pressure: usize,
}

fn mk_zero256() -> (r: Vec<u64>)
    ensures
        r@ == Seq::new(256, |i: int| 0u64),
{
    let mut r: Vec<u64> = Vec::new();
    let mut i: usize = 0;
    while i < 256
        invariant
            i <= 256,
            r@.len() == i,
            forall|j: int| 0 <= j < i ==> r@[j] == 0u64,
        decreases 256 - i,
    {
        r.push(0);
        i = i + 1;
    }
    proof {
        assert(r@ =~= Seq::new(256, |i: int| 0u64));
    }
    r
}

impl RegisterStats {
    pub open spec fn spec_reads(self) -> Seq<u64> {
        self.read_count@
    }

    pub open spec fn spec_writes(self) -> Seq<u64> {
        self.write_count@
    }

    pub open spec fn spec_pressure(self) -> usize {
        self.max_pressure
    }

    pub open spec fn wf(self) -> bool {
        self.read_count@.len() == 256 && self.write_count@.len() == 256
    }

    /// Fresh counters.
    pub fn new() -> (r: RegisterStats)
        ensures
            r.wf(),
            r.spec_reads() == Seq::new(256, |i: int| 0u64),
            r.spec_writes() == Seq::new(256, |i: int| 0u64),
            r.spec_pressure() == 0,
    {
        RegisterStats { read_count: mk_zero256(), write_count: mk_zero256(), max_pressure: 0 }
    }

    /// Count one read.
    pub fn record_read(&mut self, reg: RegIndex)
        requires
            old(self).wf(),
        ensures
            final(self).wf(),
            final(self).spec_reads() == old(self).spec_reads().update(
                reg as int,
                vstd::wrapping::u64_specs::wrapping_add(old(self).spec_reads()[reg as int], 1),
            ),
            final(self).spec_writes() == old(self).spec_writes(),
            final(self).spec_pressure() == old(self).spec_pressure(),
    {
        let v = self.read_count[reg as usize].wrapping_add(1);
        self.read_count.set(reg as usize, v);
    }

    /// Count one write.
    pub fn record_write(&mut self, reg: RegIndex)
        requires
            old(self).wf(),
        ensures
            final(self).wf(),
            final(self).spec_writes() == old(self).spec_writes().update(
                reg as int,
                vstd::wrapping::u64_specs::wrapping_add(old(self).spec_writes()[reg as int], 1),
            ),
            final(self).spec_reads() == old(self).spec_reads(),
            final(self).spec_pressure() == old(self).spec_pressure(),
    {
        let v = self.write_count[reg as usize].wrapping_add(1);
        self.write_count.set(reg as usize, v);
    }

    /// Widen the recorded register pressure.
    pub fn update_pressure(&mut self, live_count: usize)
        requires
            old(self).wf(),
        ensures
            final(self).wf(),
            final(self).spec_pressure() == (if live_count > old(self).spec_pressure() {
                live_count
            } else {
                old(self).spec_pressure()
            }),
            final(self).spec_reads() == old(self).spec_reads(),
            final(self).spec_writes() == old(self).spec_writes(),
    {
        if live_count > self.max_pressure {
            self.max_pressure = live_count;
        }
    }

    /// Reads recorded for a register.
    pub fn get_read_count(&self, reg: RegIndex) -> (r: u64)
        requires
            self.wf(),
        ensures
            r == self.spec_reads()[reg as int],
    {
        self.read_count[reg as usize]
    }

    /// Writes recorded for a register.
    pub fn get_write_count(&self, reg: RegIndex) -> (r: u64)
        requires
            self.wf(),
        ensures
            r == self.spec_writes()[reg as int],
    {
        self.write_count[reg as usize]
    }

    /// The largest live-set size seen.
    pub fn max_pressure(&self) -> (r: usize)
        ensures
            r == self.spec_pressure(),
    {
        self.max_pressure
    }

    /// Up to `n` registers with reads recorded, most read first.  Ties
    /// order by register number.
    #[verifier::loop_isolation(false)]
    pub fn most_used_registers(&self, n: usize) -> (r: Vec<(RegIndex, u64)>)
        requires
            self.wf(),
        ensures
            forall|i: int, j: int| 0 <= i < j < r@.len() ==> r@[i].1 >= r@[j].1,
            forall|i: int|
                0 <= i < r@.len() ==> #[trigger] r@[i].1 == self.spec_reads()[r@[i].0 as int]
                    && r@[i].1 > 0,
            r@.len() <= n,
    {
        let mut all: Vec<(RegIndex, u64)> = Vec::new();
        let mut i: usize = 0;
        while i < 256
            invariant
                i <= 256,
                forall|k: int|
                    0 <= k < all@.len() ==> #[trigger] all@[k].1 == self.spec_reads()[all@[k].0 as int] && all@[k].1 > 0,
            decreases 256 - i,
        {
            let c = self.read_count[i];
            if c > 0 {
                all.push((i as u8, c));
            }
            i = i + 1;
        }
        // selection of the largest counts, one slot at a time
        let mut out: Vec<(RegIndex, u64)> = Vec::new();
        while out.len() < n && all.len() > 0
            invariant
                forall|k: int|
                    0 <= k < all@.len() ==> #[trigger] all@[k].1 == self.spec_reads()[all@[k].0 as int] && all@[k].1 > 0,
                forall|k: int|
                    0 <= k < out@.len() ==> #[trigger] out@[k].1 == self.spec_reads()[out@[k].0 as int] && out@[k].1 > 0,
                forall|i2: int, j2: int| 0 <= i2 < j2 < out@.len() ==> out@[i2].1 >= out@[j2].1,
                forall|i2: int, j2: int|
                    0 <= i2 < out@.len() && 0 <= j2 < all@.len() ==> #[trigger] out@[i2].1
                        >= #[trigger] all@[j2].1,
                out@.len() <= n,
            decreases n - out.len(),
        {
            let mut best: usize = 0;
            let mut k: usize = 1;
            while k < all.len()
                invariant
                    best < k <= all@.len(),
                    all@.len() > 0,
                    forall|m: int| 0 <= m < k ==> all@[best as int].1 >= #[trigger] all@[m].1,
                decreases all.len() - k,
            {
                if all[k].1 > all[best].1 {
                    best = k;
                }
                k = k + 1;
            }
            let picked = all.remove(best);
            out.push(picked);
        }
        out
    }
}

impl Default for RegisterStats {
    /// Fresh counters.
    fn default() -> (r: RegisterStats)
        ensures
            r.wf(),
            r.spec_pressure() == 0,
    {
        RegisterStats::new()
    }
}

} // verus!
