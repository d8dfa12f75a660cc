//! Textual peephole optimization of generated WAT.
//!
//! The optimizer works on the text line by line; every pass is specified
//! exactly by a spec function over the byte lines, so the whole
//! transformation each level performs is pinned by `optimize`'s contract.
//! Level `None` is a verbatim pass-through.  Non-ASCII text is passed
//! through unchanged at every level; generated WAT is always ASCII.

use vstd::prelude::*;
use vstd::string::StringSliceAdditionalSpecFns;

use crate::text::{bytes_ascii_chars, bytes_to_string};

verus! {

/// Optimization level.
#[derive(Clone, Copy, Debug, PartialEq, Eq, Structural)]
pub enum OptLevel {
    /// No optimizations: a verbatim pass-through.
    Off,
    /// Basic optimizations.
    Basic,
    /// Moderate optimizations.
    Moderate,
    /// Aggressive optimizations: the moderate passes plus redundant-load
    /// elimination and branch simplification, iterated three times.
    Aggressive,
}

/// Counters, one per pass.
#[derive(Clone, Debug, PartialEq, Eq, Structural)]
pub struct OptStats {
    pub constants_propagated: usize,
    pub dead_code_eliminated: usize,
    pub redundant_loads_eliminated: usize,
    pub redundant_stores_eliminated: usize,
    pub branches_simplified: usize,
    pub peephole_optimizations: usize,
}

impl OptStats {
    /// All counters at zero.
    pub fn new() -> (r: OptStats)
        ensures
            r == (OptStats {
                constants_propagated: 0,
                dead_code_eliminated: 0,
                redundant_loads_eliminated: 0,
                redundant_stores_eliminated: 0,
                branches_simplified: 0,
                peephole_optimizations: 0,
            }),
    {
        OptStats {
            constants_propagated: 0,
            dead_code_eliminated: 0,
            redundant_loads_eliminated: 0,
            redundant_stores_eliminated: 0,
            branches_simplified: 0,
            peephole_optimizations: 0,
        }
    }

    /// The sum of all counters.
    pub open spec fn spec_total(self) -> int {
        self.constants_propagated + self.dead_code_eliminated + self.redundant_loads_eliminated
            + self.redundant_stores_eliminated + self.branches_simplified
            + self.peephole_optimizations
    }

    /// Total number of optimizations applied.
    pub fn total(&self) -> (r: usize)
        requires
            self.spec_total() <= usize::MAX,
        ensures
            r == self.spec_total(),
    {
        self.constants_propagated + self.dead_code_eliminated + self.redundant_loads_eliminated
            + self.redundant_stores_eliminated + self.branches_simplified
            + self.peephole_optimizations
    }
}

impl Default for OptStats {
    /// All counters at zero.
    fn default() -> (r: OptStats)
        ensures
            r == (OptStats {
                constants_propagated: 0,
                dead_code_eliminated: 0,
                redundant_loads_eliminated: 0,
                redundant_stores_eliminated: 0,
                branches_simplified: 0,
                peephole_optimizations: 0,
            }),
    {
        OptStats::new()
    }
}

// ---------------------------------------------------------------------------
// Byte-level text utilities
// ---------------------------------------------------------------------------

/// ASCII whitespace other than the line feed, which never occurs inside a
/// split line.
pub open spec fn is_ws(b: u8) -> bool {
    b == 32 || b == 9 || b == 13 || b == 11 || b == 12
}

/// A line with leading and trailing whitespace removed.
pub open spec fn spec_trim(s: Seq<u8>) -> Seq<u8>
    decreases s.len(),
{
    if s.len() > 0 && is_ws(s[0]) {
        spec_trim(s.drop_first())
    } else if s.len() > 0 && is_ws(s.last()) {
        spec_trim(s.drop_last())
    } else {
        s
    }
}

fn ws_byte(b: u8) -> (r: bool)
    ensures
        r == is_ws(b),
{
    b == 32 || b == 9 || b == 13 || b == 11 || b == 12
}

/// Trim a line.
fn trim(v: &Vec<u8>) -> (r: Vec<u8>)
    ensures
        r@ == spec_trim(v@),
{
    proof {
        assert(v@.subrange(0, v@.len() as int) =~= v@);
    }
    let mut lo: usize = 0;
    while lo < v.len() && ws_byte(v[lo])
        invariant
            lo <= v.len(),
            spec_trim(v@) == spec_trim(v@.subrange(lo as int, v@.len() as int)),
        decreases v.len() - lo,
    {
        proof {
            let suf = v@.subrange(lo as int, v@.len() as int);
            assert(suf.drop_first() =~= v@.subrange(lo as int + 1, v@.len() as int));
        }
        lo = lo + 1;
    }
    let mut hi: usize = v.len();
    while hi > lo && ws_byte(v[hi - 1])
        invariant
            lo <= hi <= v.len(),
            lo < v.len() ==> !is_ws(v@[lo as int]),
            lo == hi || !is_ws(v@[lo as int]),
            spec_trim(v@) == spec_trim(v@.subrange(lo as int, hi as int)),
        decreases hi,
    {
        proof {
            let suf = v@.subrange(lo as int, hi as int);
            assert(suf.drop_last() =~= v@.subrange(lo as int, hi as int - 1));
        }
        hi = hi - 1;
    }
    let mut r: Vec<u8> = Vec::new();
    let mut i: usize = lo;
    while i < hi
        invariant
            lo <= i <= hi <= v.len(),
            r@ == v@.subrange(lo as int, i as int),
        decreases hi - i,
    {
        r.push(v[i]);
        proof {
            assert(r@ =~= v@.subrange(lo as int, i as int + 1));
        }
        i = i + 1;
    }
    proof {
        let core = v@.subrange(lo as int, hi as int);
        assert(spec_trim(core) == core);
        assert(r@ =~= core);
    }
    r
}

/// Whether `p` is a prefix of `v`.
pub open spec fn has_prefix(v: Seq<u8>, p: Seq<u8>) -> bool {
    v.len() >= p.len() && v.subrange(0, p.len() as int) == p
}

fn starts_with(v: &Vec<u8>, p: &[u8]) -> (r: bool)
    ensures
        r == has_prefix(v@, p@),
{
    if v.len() < p.len() {
        proof {
            assert(!has_prefix(v@, p@));
        }
        return false;
    }
    let mut i: usize = 0;
    while i < p.len()
        invariant
            i <= p.len() <= v.len(),
            forall|j: int| 0 <= j < i ==> v@[j] == p@[j],
        decreases p.len() - i,
    {
        if v[i] != p[i] {
            proof {
                assert(v@.subrange(0, p@.len() as int)[i as int] != p@[i as int]);
            }
            return false;
        }
        i = i + 1;
    }
    proof {
        assert(v@.subrange(0, p@.len() as int) =~= p@);
    }
    true
}

fn bytes_eq(a: &Vec<u8>, b: &[u8]) -> (r: bool)
    ensures
        r == (a@ == b@),
{
    if a.len() != b.len() {
        proof {
            assert(a@.len() != b@.len());
        }
        return false;
    }
    let mut i: usize = 0;
    while i < a.len()
        invariant
            i <= a.len() == b.len(),
            forall|j: int| 0 <= j < i ==> a@[j] == b@[j],
        decreases a.len() - i,
    {
        if a[i] != b[i] {
            return false;
        }
        i = i + 1;
    }
    proof {
        assert(a@ =~= b@);
    }
    true
}

/// The input split into lines the way the passes read it: separators are
/// `\n`, a `\r` directly before a separator is dropped, and a final line
/// ending is optional.
pub open spec fn spec_split(s: Seq<u8>) -> Seq<Seq<u8>>
    decreases s.len(),
    via spec_split_decreases
{
    if s.len() == 0 {
        Seq::<Seq<u8>>::empty()
    } else {
        let line_end = first_nl(s);
        let raw = s.subrange(0, line_end);
        let line = if raw.len() > 0 && raw.last() == 13 && line_end < s.len() {
            raw.drop_last()
        } else {
            raw
        };
        if line_end == s.len() {
            seq![line]
        } else {
            seq![line] + spec_split(s.subrange(line_end + 1, s.len() as int))
        }
    }
}

/// Index of the first line feed, or the length when there is none.
pub open spec fn first_nl(s: Seq<u8>) -> int
    decreases s.len(),
{
    if s.len() == 0 {
        0
    } else if s[0] == 10 {
        0
    } else {
        1 + first_nl(s.drop_first())
    }
}

proof fn lemma_first_nl_bounds(s: Seq<u8>)
    ensures
        0 <= first_nl(s) <= s.len(),
    decreases s.len(),
{
    if s.len() > 0 && s[0] != 10 {
        lemma_first_nl_bounds(s.drop_first());
    }
}

#[via_fn]
proof fn spec_split_decreases(s: Seq<u8>) {
    lemma_first_nl_bounds(s);
}

proof fn lemma_first_nl(s: Seq<u8>, k: int)
    requires
        0 <= k <= s.len(),
        forall|j: int| 0 <= j < k ==> s[j] != 10,
        k < s.len() ==> s[k] == 10,
    ensures
        first_nl(s) == k,
    decreases k,
{
    if k == 0 {
    } else {
        lemma_first_nl(s.drop_first(), k - 1);
    }
}

/// Lines joined back together, one line feed after each line.
pub open spec fn spec_unlines(ls: Seq<Seq<u8>>) -> Seq<u8>
    decreases ls.len(),
{
    if ls.len() == 0 {
        Seq::<u8>::empty()
    } else {
        ls[0] + seq![10u8] + spec_unlines(ls.drop_first())
    }
}

proof fn lemma_unlines_take_succ(ls: Seq<Seq<u8>>, i: int)
    requires
        0 <= i < ls.len(),
    ensures
        spec_unlines(ls.take(i + 1)) == spec_unlines(ls.take(i)) + ls[i] + seq![10u8],
    decreases i,
{
    if i == 0 {
        assert(ls.take(1).drop_first() =~= Seq::<Seq<u8>>::empty());
        assert(ls.take(0) =~= Seq::<Seq<u8>>::empty());
        assert(spec_unlines(ls.take(1)) =~= spec_unlines(ls.take(0)) + ls[0] + seq![10u8]);
    } else {
        lemma_unlines_take_succ(ls.drop_first(), i - 1);
        assert(ls.take(i + 1).drop_first() =~= ls.drop_first().take(i));
        assert(ls.take(i).drop_first() =~= ls.drop_first().take(i - 1));
        assert(spec_unlines(ls.take(i + 1)) =~= spec_unlines(ls.take(i)) + ls[i] + seq![10u8]);
    }
}

/// Split the text into lines.
fn split_lines(s: &Vec<u8>) -> (r: Vec<Vec<u8>>)
    ensures
        r@.map_values(|l: Vec<u8>| l@) == spec_split(s@),
{
    let mut r: Vec<Vec<u8>> = Vec::new();
    proof {
        assert(s@.subrange(0, s@.len() as int) =~= s@);
        assert(r@.map_values(|l: Vec<u8>| l@) =~= Seq::<Seq<u8>>::empty());
    }
    let mut pos: usize = 0;
    while pos < s.len()
        invariant
            pos <= s.len(),
            r@.map_values(|l: Vec<u8>| l@) + spec_split(s@.subrange(pos as int, s@.len() as int))
                =~= spec_split(s@),
        decreases s.len() - pos,
    {
        let ghost rest = s@.subrange(pos as int, s@.len() as int);
        let mut j: usize = pos;
        while j < s.len() && s[j] != 10
            invariant
                pos <= j <= s.len(),
                forall|k: int| pos <= k < j ==> s@[k] != 10,
            decreases s.len() - j,
        {
            j = j + 1;
        }
        proof {
            assert(forall|k: int|
                0 <= k < j - pos ==> rest[k] == s@[pos + k] && s@[pos + k] != 10);
            lemma_first_nl(rest, j as int - pos as int);
        }
        // collect the line, dropping a carriage return before a separator
        let line_hi = if j < s.len() && j > pos && s[j - 1] == 13 {
            j - 1
        } else {
            j
        };
        let mut line: Vec<u8> = Vec::new();
        let mut i: usize = pos;
        while i < line_hi
            invariant
                pos <= i <= line_hi <= s.len(),
                line@ == s@.subrange(pos as int, i as int),
            decreases line_hi - i,
        {
            line.push(s[i]);
            proof {
                assert(line@ =~= s@.subrange(pos as int, i as int + 1));
            }
            i = i + 1;
        }
        proof {
            let raw = rest.subrange(0, j as int - pos as int);
            let spec_line = if raw.len() > 0 && raw.last() == 13 && j < s.len() {
                raw.drop_last()
            } else {
                raw
            };
            assert(raw =~= s@.subrange(pos as int, j as int));
            if raw.len() > 0 && raw.last() == 13 && j < s.len() {
                assert(raw.drop_last() =~= s@.subrange(pos as int, j as int - 1));
            }
            assert(line@ =~= spec_line);
        }
        r.push(line);
        proof {
            if j < s.len() {
                assert(rest.subrange(j as int - pos as int + 1, rest.len() as int) =~= s@.subrange(
                    j as int + 1,
                    s@.len() as int,
                ));
            }
            assert(r@.map_values(|l: Vec<u8>| l@) + spec_split(
                s@.subrange(
                    if j < s.len() {
                        j as int + 1
                    } else {
                        s@.len() as int
                    },
                    s@.len() as int,
                ),
            ) =~= spec_split(s@));
        }
        if j < s.len() {
            pos = j + 1;
        } else {
            pos = s.len();
        }
    }
    proof {
        assert(spec_split(s@.subrange(s@.len() as int, s@.len() as int)) =~= Seq::<Seq<
            u8,
        >>::empty());
        assert(r@.map_values(|l: Vec<u8>| l@) =~= spec_split(s@));
    }
    r
}

/// Join lines, one line feed after each.
fn join_lines(ls: &Vec<Vec<u8>>) -> (r: Vec<u8>)
    ensures
        r@ == spec_unlines(ls@.map_values(|l: Vec<u8>| l@)),
{
    let ghost view = ls@.map_values(|l: Vec<u8>| l@);
    let mut r: Vec<u8> = Vec::new();
    let mut i: usize = 0;
    while i < ls.len()
        invariant
            i <= ls.len(),
            view == ls@.map_values(|l: Vec<u8>| l@),
            r@ == spec_unlines(view.take(i as int)),
        decreases ls.len() - i,
    {
        let line = &ls[i];
        let mut k: usize = 0;
        let ghost before = r@;
        while k < line.len()
            invariant
                k <= line.len(),
                r@ == before + line@.subrange(0, k as int),
            decreases line.len() - k,
        {
            r.push(line[k]);
            proof {
                assert(r@ =~= before + line@.subrange(0, k as int + 1));
            }
            k = k + 1;
        }
        r.push(10);
        proof {
            lemma_unlines_take_succ(view, i as int);
            assert(line@.subrange(0, line@.len() as int) =~= line@);
            assert(r@ =~= spec_unlines(view.take(i as int + 1)));
        }
        i = i + 1;
    }
    proof {
        assert(view.take(ls@.len() as int) =~= view);
    }
    r
}

// ---------------------------------------------------------------------------
// ASCII tokens and numbers
// ---------------------------------------------------------------------------

/// The bytes of an ASCII character sequence.
pub open spec fn ascii_bytes(s: Seq<char>) -> Seq<u8> {
    Seq::new(s.len(), |i: int| s[i] as u8)
}

/// The byte sequence of an ASCII string slice.
fn tok_bytes(s: &str) -> (r: &[u8])
    requires
        vstd::string::is_ascii(s),
    ensures
        r@ == ascii_bytes(s@),
{
    proof {
        broadcast use vstd::string::is_ascii_spec_bytes;
    }
    let b = s.as_bytes();
    proof {
        assert(b@ =~= ascii_bytes(s@));
    }
    b
}

pub open spec fn is_digit(b: u8) -> bool {
    48 <= b <= 57
}

pub open spec fn all_digits(s: Seq<u8>) -> bool {
    forall|i: int| 0 <= i < s.len() ==> is_digit(s[i])
}

/// Value of a digit string, most significant digit first.
pub open spec fn digits_val(s: Seq<u8>) -> nat
    decreases s.len(),
{
    if s.len() == 0 {
        0
    } else {
        digits_val(s.drop_last()) * 10 + (s.last() - 48) as nat
    }
}

/// A decimal 64-bit constant as the passes accept it: an optional minus
/// sign, then one to nineteen digits, in signed 64-bit range.  Anything
/// else is left alone by the passes.
pub open spec fn spec_parse_const(s: Seq<u8>) -> Option<i64> {
    let neg = s.len() > 0 && s[0] == 45;
    let ds = if neg {
        s.drop_first()
    } else {
        s
    };
    if 1 <= ds.len() <= 19 && all_digits(ds) {
        let v = digits_val(ds);
        if neg {
            if v <= 0x8000000000000000 {
                Some((-(v as int)) as i64)
            } else {
                Option::<i64>::None
            }
        } else {
            if v <= 0x7fffffffffffffff {
                Some(v as i64)
            } else {
                Option::<i64>::None
            }
        }
    } else {
        Option::<i64>::None
    }
}

proof fn lemma_digits_val_bound(s: Seq<u8>)
    requires
        all_digits(s),
        s.len() <= 19,
    ensures
        digits_val(s) < 10000000000000000000,
{
    lemma_digits_val_bound_n(s, s.len() as int);
    lemma_pow10_le(s.len(), 19);
    lemma_pow10_19_val();
}

proof fn lemma_pow10_le(a: nat, b: nat)
    requires
        a <= b,
    ensures
        pow10(a) <= pow10(b),
    decreases b,
{
    if a < b {
        lemma_pow10_le(a, (b - 1) as nat);
    }
}

proof fn lemma_pow10_19_val()
    ensures
        pow10(19) == 10000000000000000000,
        pow10(18) == 1000000000000000000,
{
    reveal_with_fuel(pow10, 21);
}

proof fn lemma_digits_val_bound_n(s: Seq<u8>, n: int)
    requires
        all_digits(s),
        s.len() == n,
        0 <= n <= 19,
    ensures
        digits_val(s) < pow10(n as nat),
    decreases n,
{
    if n > 0 {
        assert(all_digits(s.drop_last()));
        lemma_digits_val_bound_n(s.drop_last(), n - 1);
    }
}

pub open spec fn pow10(n: nat) -> nat
    decreases n,
{
    if n == 0 {
        1
    } else {
        10 * pow10((n - 1) as nat)
    }
}

/// Parse a decimal constant.
fn parse_const(s: &Vec<u8>) -> (r: Option<i64>)
    ensures
        r == spec_parse_const(s@),
{
    let neg = s.len() > 0 && s[0] == 45;
    let lo: usize = if neg {
        1
    } else {
        0
    };
    let n = s.len() - lo;
    let ghost ds = if neg {
        s@.drop_first()
    } else {
        s@
    };
    proof {
        assert(ds =~= s@.subrange(lo as int, s@.len() as int));
    }
    if n < 1 || n > 19 {
        proof {
            assert(ds.len() < 1 || ds.len() > 19);
        }
        return Option::<i64>::None;
    }
    let mut v: u64 = 0;
    let mut i: usize = lo;
    while i < s.len()
        invariant
            lo <= i <= s.len(),
            s@.len() - lo <= 19,
            neg == (s@.len() > 0 && s@[0] == 45),
            neg ==> lo == 1,
            !neg ==> lo == 0,
            ds == s@.subrange(lo as int, s@.len() as int),
            all_digits(ds.take(i - lo)),
            v == digits_val(ds.take(i - lo)),
            v < pow10((i - lo) as nat),
        decreases s.len() - i,
    {
        let b = s[i];
        if b < 48 || b > 57 {
            proof {
                assert(ds[i as int - lo as int] == b);
                assert(!all_digits(ds));
            }
            return Option::<i64>::None;
        }
        proof {
            lemma_pow10_19_bound((i - lo) as nat);
        }
        v = v * 10 + ((b - 48) as u64);
        proof {
            assert(ds.take(i - lo + 1).drop_last() =~= ds.take(i - lo));
            assert(ds.take(i - lo + 1).last() == b);
        }
        i = i + 1;
    }
    proof {
        assert(ds.take(s@.len() - lo) =~= ds);
    }
    if neg {
        if v <= 9223372036854775808u64 {
            if v == 9223372036854775808u64 {
                Some(i64::MIN)
            } else {
                Some(-(v as i64))
            }
        } else {
            Option::<i64>::None
        }
    } else {
        if v <= 9223372036854775807u64 {
            Some(v as i64)
        } else {
            Option::<i64>::None
        }
    }
}

/// pow10 of anything up to 18 stays small enough that one more digit fits
/// in 64 bits.
proof fn lemma_pow10_19_bound(n: nat)
    requires
        n <= 18,
    ensures
        pow10(n) <= 1000000000000000000,
{
    lemma_pow10_le(n, 18);
    lemma_pow10_19_val();
}

/// Decimal digit bytes of a nonnegative number.
pub open spec fn dec_bytes_u64(n: nat) -> Seq<u8>
    decreases n,
{
    if n < 10 {
        seq![(48 + n) as u8]
    } else {
        dec_bytes_u64(n / 10) + seq![(48 + n % 10) as u8]
    }
}

/// Decimal rendering of a signed value as bytes.
pub open spec fn dec_bytes_i64(n: int) -> Seq<u8> {
    if n >= 0 {
        dec_bytes_u64(n as nat)
    } else {
        seq![45u8] + dec_bytes_u64((-n) as nat)
    }
}

fn push_dec_u64(out: &mut Vec<u8>, n: u64)
    ensures
        final(out)@ == old(out)@ + dec_bytes_u64(n as nat),
    decreases n,
{
    if n < 10 {
        out.push(48 + (n as u8));
        proof {
            assert(out@ =~= old(out)@ + dec_bytes_u64(n as nat));
        }
    } else {
        push_dec_u64(out, n / 10);
        out.push(48 + ((n % 10) as u8));
        proof {
            assert(out@ =~= old(out)@ + dec_bytes_u64(n as nat));
        }
    }
}

fn push_dec_i64(out: &mut Vec<u8>, n: i64)
    ensures
        final(out)@ == old(out)@ + dec_bytes_i64(n as int),
{
    if n >= 0 {
        push_dec_u64(out, n as u64);
    } else {
        out.push(45);
        let mag: u64 = if n == i64::MIN {
            0x8000000000000000u64
        } else {
            (-n) as u64
        };
        proof {
            assert(mag as int == -(n as int));
        }
        push_dec_u64(out, mag);
        proof {
            assert(out@ =~= old(out)@ + dec_bytes_i64(n as int));
        }
    }
}

/// Number of leading whitespace bytes of a line.
pub open spec fn leading_ws(s: Seq<u8>) -> nat
    decreases s.len(),
{
    if s.len() > 0 && is_ws(s[0]) {
        1 + leading_ws(s.drop_first())
    } else {
        0
    }
}

fn count_leading_ws(v: &Vec<u8>) -> (r: usize)
    ensures
        r == leading_ws(v@),
{
    proof {
        assert(v@.subrange(0, v@.len() as int) =~= v@);
    }
    let mut i: usize = 0;
    while i < v.len() && ws_byte(v[i])
        invariant
            i <= v.len(),
            leading_ws(v@) == i + leading_ws(v@.subrange(i as int, v@.len() as int)),
        decreases v.len() - i,
    {
        proof {
            let suf = v@.subrange(i as int, v@.len() as int);
            assert(suf.drop_first() =~= v@.subrange(i as int + 1, v@.len() as int));
        }
        i = i + 1;
    }
    proof {
        let suf = v@.subrange(i as int, v@.len() as int);
        assert(leading_ws(suf) == 0);
    }
    i
}

/// `n` space bytes.
pub open spec fn spaces(n: nat) -> Seq<u8> {
    Seq::new(n, |i: int| 32u8)
}

fn push_spaces(out: &mut Vec<u8>, n: usize)
    ensures
        final(out)@ == old(out)@ + spaces(n as nat),
{
    let mut i: usize = 0;
    while i < n
        invariant
            i <= n,
            out@ == old(out)@ + spaces(i as nat),
        decreases n - i,
    {
        out.push(32);
        proof {
            assert(out@ =~= old(out)@ + spaces(i as nat + 1));
        }
        i = i + 1;
    }
}

/// The register index named by an exact `$x` register token suffix: one or
/// two digits with no leading zero, below 32.
pub open spec fn spec_parse_reg(s: Seq<u8>) -> Option<u8> {
    if s.len() == 1 && is_digit(s[0]) {
        Some((s[0] - 48) as u8)
    } else if s.len() == 2 && is_digit(s[0]) && is_digit(s[1]) && s[0] != 48 && digits_val(s)
        < 32 {
        Some(digits_val(s) as u8)
    } else {
        Option::<u8>::None
    }
}

/// Parse the digits after a `global.get $x` / `global.set $x` prefix, taken
/// from position `from` to the end of the trimmed line.
fn parse_reg_suffix(t: &Vec<u8>, from: usize) -> (r: Option<u8>)
    requires
        from <= t@.len(),
    ensures
        r == spec_parse_reg(t@.subrange(from as int, t@.len() as int)),
        r is Some ==> r->0 < 32,
{
    let n = t.len() - from;
    let ghost s = t@.subrange(from as int, t@.len() as int);
    if n == 1 {
        let b = t[from];
        if 48 <= b && b <= 57 {
            proof {
                assert(s[0] == b);
            }
            Some(b - 48)
        } else {
            Option::<u8>::None
        }
    } else if n == 2 {
        let b0 = t[from];
        let b1 = t[from + 1];
        if 48 < b0 && b0 <= 57 && 48 <= b1 && b1 <= 57 {
            let v = (b0 - 48) * 10 + (b1 - 48);
            proof {
                reveal_with_fuel(digits_val, 4);
                assert(s[0] == b0 && s[1] == b1);
                assert(s.drop_last() =~= seq![b0]);
                assert(seq![b0].drop_last() =~= Seq::<u8>::empty());
                assert(digits_val(seq![b0]) == (b0 - 48) as nat);
                assert(digits_val(s) == (b0 - 48) * 10 + (b1 - 48));
            }
            if v < 32 {
                Some(v)
            } else {
                Option::<u8>::None
            }
        } else {
            Option::<u8>::None
        }
    } else {
        Option::<u8>::None
    }
}

// ---------------------------------------------------------------------------
// Dead-code elimination
// ---------------------------------------------------------------------------

/// Copy a line.
fn clone_bytes(v: &Vec<u8>) -> (r: Vec<u8>)
    ensures
        r@ == v@,
{
    let mut r: Vec<u8> = Vec::new();
    let mut i: usize = 0;
    while i < v.len()
        invariant
            i <= v.len(),
            r@ == v@.subrange(0, i as int),
        decreases v.len() - i,
    {
        r.push(v[i]);
        proof {
            assert(r@ =~= v@.subrange(0, i as int + 1));
        }
        i = i + 1;
    }
    proof {
        assert(r@ =~= v@);
    }
    r
}

/// The line view of a line vector.
pub open spec fn lviews(ls: Seq<Vec<u8>>) -> Seq<Seq<u8>> {
    ls.map_values(|l: Vec<u8>| l@)
}

/// Dead-code elimination: code between an unconditional `return`, `br` or
/// `unreachable` and the next `end` or `else` at matching depth is dropped;
/// one count per trigger.
pub open spec fn sp_dead(ls: Seq<Seq<u8>>, skip: nat) -> (Seq<Seq<u8>>, nat)
    decreases ls.len(),
{
    if ls.len() == 0 {
        (Seq::<Seq<u8>>::empty(), 0nat)
    } else {
        let t = spec_trim(ls[0]);
        let rest = ls.drop_first();
        if skip > 0 {
            if t == ascii_bytes("end"@) || t == ascii_bytes("else"@) {
                if skip == 1 {
                    let r = sp_dead(rest, 0);
                    (seq![ls[0]] + r.0, r.1)
                } else {
                    sp_dead(rest, (skip - 1) as nat)
                }
            } else if has_prefix(t, ascii_bytes("if"@)) || has_prefix(t, ascii_bytes("block"@))
                || has_prefix(t, ascii_bytes("loop"@)) {
                sp_dead(rest, skip + 1)
            } else {
                sp_dead(rest, skip)
            }
        } else if t == ascii_bytes("return"@) || has_prefix(t, ascii_bytes("br "@)) || t
            == ascii_bytes("unreachable"@) {
            let r = sp_dead(rest, 1);
            (seq![ls[0]] + r.0, r.1 + 1)
        } else {
            let r = sp_dead(rest, 0);
            (seq![ls[0]] + r.0, r.1)
        }
    }
}

proof fn lemma_sp_dead_count(ls: Seq<Seq<u8>>, skip: nat)
    ensures
        sp_dead(ls, skip).1 <= ls.len(),
    decreases ls.len(),
{
    if ls.len() > 0 {
        let rest = ls.drop_first();
        lemma_sp_dead_count(rest, 0);
        lemma_sp_dead_count(rest, 1);
        lemma_sp_dead_count(rest, skip + 1);
        lemma_sp_dead_count(rest, skip);
        if skip > 0 {
            lemma_sp_dead_count(rest, (skip - 1) as nat);
        }
    }
}

#[verifier::loop_isolation(false)]
fn dead_code_pass(lines: &Vec<Vec<u8>>) -> (r: (Vec<Vec<u8>>, usize))
    ensures
        lviews(r.0@) == sp_dead(lviews(lines@), 0).0,
        r.1 == sp_dead(lviews(lines@), 0).1,
{
    let ghost full = lviews(lines@);
    proof {
        reveal_strlit("end");
        reveal_strlit("else");
        reveal_strlit("if");
        reveal_strlit("block");
        reveal_strlit("loop");
        reveal_strlit("return");
        reveal_strlit("br ");
        reveal_strlit("unreachable");
        assert(vstd::string::is_ascii("end"));
        assert(vstd::string::is_ascii("else"));
        assert(vstd::string::is_ascii("if"));
        assert(vstd::string::is_ascii("block"));
        assert(vstd::string::is_ascii("loop"));
        assert(vstd::string::is_ascii("return"));
        assert(vstd::string::is_ascii("br "));
        assert(vstd::string::is_ascii("unreachable"));
    }
    let t_end = tok_bytes("end");
    let t_else = tok_bytes("else");
    let t_if = tok_bytes("if");
    let t_block = tok_bytes("block");
    let t_loop = tok_bytes("loop");
    let t_return = tok_bytes("return");
    let t_br = tok_bytes("br ");
    let t_unreach = tok_bytes("unreachable");
    let mut out: Vec<Vec<u8>> = Vec::new();
    let mut count: usize = 0;
    let mut skip: usize = 0;
    let mut i: usize = 0;
    proof {
        assert(full.skip(0) =~= full);
        assert(lviews(out@) =~= Seq::<Seq<u8>>::empty());
    }
    while i < lines.len()
        invariant
            i <= lines.len(),
            full == lviews(lines@),
            count <= i,
            skip <= i,
            sp_dead(full, 0).0 == lviews(out@) + sp_dead(full.skip(i as int), skip as nat).0,
            sp_dead(full, 0).1 == count + sp_dead(full.skip(i as int), skip as nat).1,
        decreases lines.len() - i,
    {
        let ghost rest = full.skip(i as int);
        proof {
            assert(rest[0] == full[i as int]);
            assert(full[i as int] == lines@[i as int]@);
            assert(rest.drop_first() =~= full.skip(i as int + 1));
            lemma_sp_dead_count(rest, skip as nat);
            reveal_with_fuel(sp_dead, 2);
        }
        let t = trim(&lines[i]);
        if skip > 0 {
            if bytes_eq(&t, t_end) || bytes_eq(&t, t_else) {
                if skip == 1 {
                    let ghost before = lviews(out@);
                    out.push(clone_bytes(&lines[i]));
                    skip = 0;
                    proof {
                        assert(lviews(out@) =~= before.push(lines@[i as int]@));
                    }
                } else {
                    skip = skip - 1;
                }
            } else if starts_with(&t, t_if) || starts_with(&t, t_block) || starts_with(
                &t,
                t_loop,
            ) {
                skip = skip + 1;
            }
        } else if bytes_eq(&t, t_return) || starts_with(&t, t_br) || bytes_eq(&t, t_unreach) {
            let ghost before = lviews(out@);
            out.push(clone_bytes(&lines[i]));
            count = count + 1;
            skip = 1;
            proof {
                assert(lviews(out@) =~= before.push(lines@[i as int]@));
            }
        } else {
            let ghost before = lviews(out@);
            out.push(clone_bytes(&lines[i]));
            proof {
                assert(lviews(out@) =~= before.push(lines@[i as int]@));
            }
        }
        i = i + 1;
        proof {
            reveal_with_fuel(sp_dead, 2);
            assert(sp_dead(full, 0).0 =~= lviews(out@) + sp_dead(
                full.skip(i as int),
                skip as nat,
            ).0);
        }
    }
    proof {
        assert(full.skip(lines@.len() as int) =~= Seq::<Seq<u8>>::empty());
        assert(lviews(out@) =~= sp_dead(full, 0).0);
    }
    (out, count)
}

// ---------------------------------------------------------------------------
// Peephole optimization
// ---------------------------------------------------------------------------

/// Peephole optimization: adding zero (`or`/`xor` zero), multiplying by one,
/// a read immediately written back, and two constants folded through `add`
/// or `mul`.
pub open spec fn sp_peephole(ls: Seq<Seq<u8>>) -> (Seq<Seq<u8>>, nat)
    decreases ls.len(),
{
    if ls.len() == 0 {
        (Seq::<Seq<u8>>::empty(), 0nat)
    } else {
        let t0 = spec_trim(ls[0]);
        let t1 = if ls.len() > 1 {
            spec_trim(ls[1])
        } else {
            Seq::<u8>::empty()
        };
        if ls.len() > 1 && t0 == ascii_bytes("i64.const 0"@) && (t1 == ascii_bytes("i64.add"@)
            || t1 == ascii_bytes("i64.or"@) || t1 == ascii_bytes("i64.xor"@)) {
            let r = sp_peephole(ls.subrange(2, ls.len() as int));
            (r.0, r.1 + 1)
        } else if ls.len() > 1 && t0 == ascii_bytes("i64.const 1"@) && t1 == ascii_bytes(
            "i64.mul"@,
        ) {
            let r = sp_peephole(ls.subrange(2, ls.len() as int));
            (r.0, r.1 + 1)
        } else if ls.len() > 1 && has_prefix(t0, ascii_bytes("global.get $x"@)) && t1
            == ascii_bytes("global.set "@) + t0.subrange(11, t0.len() as int) {
            let r = sp_peephole(ls.subrange(2, ls.len() as int));
            (r.0, r.1 + 1)
        } else if ls.len() > 2 && has_prefix(t0, ascii_bytes("i64.const "@)) && has_prefix(
            t1,
            ascii_bytes("i64.const "@),
        ) && spec_parse_const(t0.subrange(10, t0.len() as int)) is Some && spec_parse_const(
            t1.subrange(10, t1.len() as int),
        ) is Some && (spec_trim(ls[2]) == ascii_bytes("i64.add"@) || spec_trim(ls[2])
            == ascii_bytes("i64.mul"@)) {
            let v1 = spec_parse_const(t0.subrange(10, t0.len() as int))->0;
            let v2 = spec_parse_const(t1.subrange(10, t1.len() as int))->0;
            let folded = if spec_trim(ls[2]) == ascii_bytes("i64.add"@) {
                vstd::wrapping::i64_specs::wrapping_add(v1, v2)
            } else {
                vstd::wrapping::i64_specs::wrapping_mul(v1, v2)
            };
            let line = spaces(leading_ws(ls[0])) + ascii_bytes("i64.const "@) + dec_bytes_i64(
                folded as int,
            );
            let r = sp_peephole(ls.subrange(3, ls.len() as int));
            (seq![line] + r.0, r.1 + 1)
        } else {
            let r = sp_peephole(ls.drop_first());
            (seq![ls[0]] + r.0, r.1)
        }
    }
}

proof fn lemma_sp_peephole_count(ls: Seq<Seq<u8>>)
    ensures
        sp_peephole(ls).1 <= ls.len(),
    decreases ls.len(),
{
    if ls.len() > 0 {
        lemma_sp_peephole_count(ls.drop_first());
        if ls.len() > 1 {
            lemma_sp_peephole_count(ls.subrange(2, ls.len() as int));
        }
        if ls.len() > 2 {
            lemma_sp_peephole_count(ls.subrange(3, ls.len() as int));
        }
    }
}

fn push_bytes(out: &mut Vec<u8>, b: &[u8])
    ensures
        final(out)@ == old(out)@ + b@,
{
    let mut i: usize = 0;
    while i < b.len()
        invariant
            i <= b.len(),
            out@ == old(out)@ + b@.subrange(0, i as int),
        decreases b.len() - i,
    {
        out.push(b[i]);
        proof {
            assert(out@ =~= old(out)@ + b@.subrange(0, i as int + 1));
        }
        i = i + 1;
    }
    proof {
        assert(b@.subrange(0, b@.len() as int) =~= b@);
    }
}

fn tail_from(v: &Vec<u8>, from: usize) -> (r: Vec<u8>)
    requires
        from <= v@.len(),
    ensures
        r@ == v@.subrange(from as int, v@.len() as int),
{
    let mut r: Vec<u8> = Vec::new();
    let mut i: usize = from;
    while i < v.len()
        invariant
            from <= i <= v.len(),
            r@ == v@.subrange(from as int, i as int),
        decreases v.len() - i,
    {
        r.push(v[i]);
        proof {
            assert(r@ =~= v@.subrange(from as int, i as int + 1));
        }
        i = i + 1;
    }
    r
}

#[verifier::loop_isolation(false)]
#[verifier::rlimit(100)]
fn peephole_pass(lines: &Vec<Vec<u8>>) -> (r: (Vec<Vec<u8>>, usize))
    ensures
        lviews(r.0@) == sp_peephole(lviews(lines@)).0,
        r.1 == sp_peephole(lviews(lines@)).1,
{
    let ghost full = lviews(lines@);
    proof {
        reveal_strlit("i64.const 0");
        reveal_strlit("i64.const 1");
        reveal_strlit("i64.add");
        reveal_strlit("i64.or");
        reveal_strlit("i64.xor");
        reveal_strlit("i64.mul");
        reveal_strlit("global.get $x");
        reveal_strlit("global.set ");
        reveal_strlit("i64.const ");
        assert(vstd::string::is_ascii("i64.const 0"));
        assert(vstd::string::is_ascii("i64.const 1"));
        assert(vstd::string::is_ascii("i64.add"));
        assert(vstd::string::is_ascii("i64.or"));
        assert(vstd::string::is_ascii("i64.xor"));
        assert(vstd::string::is_ascii("i64.mul"));
        assert(vstd::string::is_ascii("global.get $x"));
        assert(vstd::string::is_ascii("global.set "));
        assert(vstd::string::is_ascii("i64.const "));
    }
    let t_c0 = tok_bytes("i64.const 0");
    let t_c1 = tok_bytes("i64.const 1");
    let t_add = tok_bytes("i64.add");
    let t_or = tok_bytes("i64.or");
    let t_xor = tok_bytes("i64.xor");
    let t_mul = tok_bytes("i64.mul");
    let t_getx = tok_bytes("global.get $x");
    let t_set = tok_bytes("global.set ");
    let t_const = tok_bytes("i64.const ");
    let mut out: Vec<Vec<u8>> = Vec::new();
    let mut count: usize = 0;
    let mut i: usize = 0;
    proof {
        assert(full.skip(0) =~= full);
        assert(lviews(out@) =~= Seq::<Seq<u8>>::empty());
    }
    while i < lines.len()
        invariant
            i <= lines.len(),
            count <= i,
            sp_peephole(full).0 == lviews(out@) + sp_peephole(full.skip(i as int)).0,
            sp_peephole(full).1 == count + sp_peephole(full.skip(i as int)).1,
        decreases lines.len() - i,
    {
        let ghost rest = full.skip(i as int);
        proof {
            assert(rest[0] == lines@[i as int]@);
            if i + 1 < lines.len() {
                assert(rest[1] == lines@[i as int + 1]@);
            }
            if i + 2 < lines.len() {
                assert(rest[2] == lines@[i as int + 2]@);
            }
            assert(rest.drop_first() =~= full.skip(i as int + 1));
            if i + 2 <= lines.len() {
                assert(rest.subrange(2, rest.len() as int) =~= full.skip(i as int + 2));
            }
            if i + 3 <= lines.len() {
                assert(rest.subrange(3, rest.len() as int) =~= full.skip(i as int + 3));
            }
            lemma_sp_peephole_count(rest);
        }
        let t0 = trim(&lines[i]);
        let have1 = i + 1 < lines.len();
        let t1 = if have1 {
            trim(&lines[i + 1])
        } else {
            Vec::new()
        };
        if have1 && bytes_eq(&t0, t_c0) && (bytes_eq(&t1, t_add) || bytes_eq(&t1, t_or)
            || bytes_eq(&t1, t_xor)) {
            count = count + 1;
            i = i + 2;
        } else if have1 && bytes_eq(&t0, t_c1) && bytes_eq(&t1, t_mul) {
            count = count + 1;
            i = i + 2;
        } else if have1 && starts_with(&t0, t_getx) && {
            let mut expected: Vec<u8> = Vec::new();
            push_bytes(&mut expected, t_set);
            let reg = tail_from(&t0, 11);
            push_bytes(&mut expected, reg.as_slice());
            proof {
                assert(expected@ =~= ascii_bytes("global.set "@) + t0@.subrange(
                    11,
                    t0@.len() as int,
                ));
            }
            bytes_eq(&t1, expected.as_slice())
        } {
            count = count + 1;
            i = i + 2;
        } else {
            let mut folded: bool = false;
            if lines.len() - i > 2 && starts_with(&t0, t_const) && starts_with(&t1, t_const) {
                let v1o = parse_const(&tail_from(&t0, 10));
                let v2o = parse_const(&tail_from(&t1, 10));
                if v1o.is_some() && v2o.is_some() {
                    let t2 = trim(&lines[i + 2]);
                    let isadd = bytes_eq(&t2, t_add);
                    if isadd || bytes_eq(&t2, t_mul) {
                        let v1 = v1o.unwrap();
                        let v2 = v2o.unwrap();
                        let v = if isadd {
                            v1.wrapping_add(v2)
                        } else {
                            v1.wrapping_mul(v2)
                        };
                        let mut line: Vec<u8> = Vec::new();
                        let ind = count_leading_ws(&lines[i]);
                        push_spaces(&mut line, ind);
                        push_bytes(&mut line, t_const);
                        push_dec_i64(&mut line, v);
                        let ghost before = lviews(out@);
                        out.push(line);
                        proof {
                            assert(lviews(out@) =~= before.push(
                                spaces(leading_ws(rest[0])) + ascii_bytes("i64.const "@)
                                    + dec_bytes_i64(v as int),
                            ));
                        }
                        count = count + 1;
                        i = i + 3;
                        folded = true;
                    }
                }
            }
            if !folded {
                let ghost before = lviews(out@);
                out.push(clone_bytes(&lines[i]));
                proof {
                    assert(lviews(out@) =~= before.push(lines@[i as int]@));
                }
                i = i + 1;
            }
        }
        proof {
            assert(sp_peephole(full).0 =~= lviews(out@) + sp_peephole(full.skip(i as int)).0);
        }
    }
    proof {
        assert(full.skip(lines@.len() as int) =~= Seq::<Seq<u8>>::empty());
        assert(lviews(out@) =~= sp_peephole(full).0);
    }
    (out, count)
}

// ---------------------------------------------------------------------------
// Redundant stores, redundant loads, constant propagation
// ---------------------------------------------------------------------------

/// A line with no effect between two stores: empty or a comment.
pub open spec fn is_insig(t: Seq<u8>) -> bool {
    t.len() == 0 || has_prefix(t, ascii_bytes(";;"@))
}

/// Whether the next significant line is exactly `t`.
pub open spec fn next_sig_matches(ls: Seq<Seq<u8>>, t: Seq<u8>) -> bool
    decreases ls.len(),
{
    if ls.len() == 0 {
        false
    } else {
        let t0 = spec_trim(ls[0]);
        if is_insig(t0) {
            next_sig_matches(ls.drop_first(), t)
        } else {
            t0 == t
        }
    }
}

/// Redundant-store elimination: of consecutive identical register stores
/// (comments aside), the first is dropped.
pub open spec fn sp_red_store(ls: Seq<Seq<u8>>) -> (Seq<Seq<u8>>, nat)
    decreases ls.len(),
{
    if ls.len() == 0 {
        (Seq::<Seq<u8>>::empty(), 0nat)
    } else {
        let t0 = spec_trim(ls[0]);
        let r = sp_red_store(ls.drop_first());
        if has_prefix(t0, ascii_bytes("global.set $x"@)) && next_sig_matches(
            ls.drop_first(),
            t0,
        ) {
            (r.0, r.1 + 1)
        } else {
            (seq![ls[0]] + r.0, r.1)
        }
    }
}

proof fn lemma_sp_red_store_count(ls: Seq<Seq<u8>>)
    ensures
        sp_red_store(ls).1 <= ls.len(),
    decreases ls.len(),
{
    if ls.len() > 0 {
        lemma_sp_red_store_count(ls.drop_first());
    }
}

#[verifier::loop_isolation(false)]
fn red_store_pass(lines: &Vec<Vec<u8>>) -> (r: (Vec<Vec<u8>>, usize))
    ensures
        lviews(r.0@) == sp_red_store(lviews(lines@)).0,
        r.1 == sp_red_store(lviews(lines@)).1,
{
    let ghost full = lviews(lines@);
    proof {
        reveal_strlit("global.set $x");
        reveal_strlit(";;");
        assert(vstd::string::is_ascii("global.set $x"));
        assert(vstd::string::is_ascii(";;"));
    }
    let t_setx = tok_bytes("global.set $x");
    let t_comment = tok_bytes(";;");
    let mut out: Vec<Vec<u8>> = Vec::new();
    let mut count: usize = 0;
    let mut i: usize = 0;
    proof {
        assert(full.skip(0) =~= full);
        assert(lviews(out@) =~= Seq::<Seq<u8>>::empty());
    }
    while i < lines.len()
        invariant
            i <= lines.len(),
            count <= i,
            sp_red_store(full).0 == lviews(out@) + sp_red_store(full.skip(i as int)).0,
            sp_red_store(full).1 == count + sp_red_store(full.skip(i as int)).1,
        decreases lines.len() - i,
    {
        let ghost rest = full.skip(i as int);
        proof {
            assert(rest[0] == lines@[i as int]@);
            assert(rest.drop_first() =~= full.skip(i as int + 1));
            lemma_sp_red_store_count(rest);
        }
        let t0 = trim(&lines[i]);
        let mut dup = false;
        if starts_with(&t0, t_setx) {
            // scan past insignificant lines for an identical store
            let mut j: usize = i + 1;
            proof {
                assert(full.skip(i as int + 1) =~= rest.drop_first());
            }
            while j < lines.len()
                invariant
                    i < j <= lines.len(),
                    next_sig_matches(full.skip(i as int + 1), t0@) == next_sig_matches(
                        full.skip(j as int),
                        t0@,
                    ),
                decreases lines.len() - j,
            {
                let tj = trim(&lines[j]);
                proof {
                    assert(full.skip(j as int)[0] == lines@[j as int]@);
                    assert(full.skip(j as int).drop_first() =~= full.skip(j as int + 1));
                }
                if !(tj.len() == 0 || starts_with(&tj, t_comment)) {
                    break;
                }
                j = j + 1;
            }
            if j < lines.len() {
                let tj = trim(&lines[j]);
                proof {
                    assert(full.skip(j as int)[0] == lines@[j as int]@);
                }
                dup = bytes_eq(&tj, t0.as_slice());
            } else {
                proof {
                    assert(full.skip(j as int) =~= Seq::<Seq<u8>>::empty());
                }
            }
        }
        if dup {
            count = count + 1;
        } else {
            let ghost before = lviews(out@);
            out.push(clone_bytes(&lines[i]));
            proof {
                assert(lviews(out@) =~= before.push(lines@[i as int]@));
            }
        }
        i = i + 1;
        proof {
            assert(sp_red_store(full).0 =~= lviews(out@) + sp_red_store(full.skip(i as int)).0);
        }
    }
    proof {
        assert(full.skip(lines@.len() as int) =~= Seq::<Seq<u8>>::empty());
        assert(lviews(out@) =~= sp_red_store(full).0);
    }
    (out, count)
}

/// Register file of tracked constants / seen loads.
pub open spec fn none32() -> Seq<Option<i64>> {
    Seq::new(32, |i: int| Option::<i64>::None)
}

pub open spec fn false32() -> Seq<bool> {
    Seq::new(32, |i: int| false)
}

fn mk_false32() -> (r: Vec<bool>)
    ensures
        r@ == false32(),
{
    let mut r: Vec<bool> = Vec::new();
    let mut i: usize = 0;
    while i < 32
        invariant
            i <= 32,
            r@.len() == i,
            forall|j: int| 0 <= j < i ==> r@[j] == false,
        decreases 32 - i,
    {
        r.push(false);
        i = i + 1;
    }
    proof {
        assert(r@ =~= false32());
    }
    r
}

fn mk_none32() -> (r: Vec<Option<i64>>)
    ensures
        r@ == none32(),
{
    let mut r: Vec<Option<i64>> = Vec::new();
    let mut i: usize = 0;
    while i < 32
        invariant
            i <= 32,
            r@.len() == i,
            forall|j: int| 0 <= j < i ==> r@[j] == Option::<i64>::None,
        decreases 32 - i,
    {
        r.push(Option::<i64>::None);
        i = i + 1;
    }
    proof {
        assert(r@ =~= none32());
    }
    r
}

/// Redundant-load elimination: a register read repeated since the last
/// store is dropped; any store clears what has been seen.
pub open spec fn sp_red_load(ls: Seq<Seq<u8>>, seen: Seq<bool>) -> (Seq<Seq<u8>>, nat)
    decreases ls.len(),
{
    if ls.len() == 0 {
        (Seq::<Seq<u8>>::empty(), 0nat)
    } else {
        let t0 = spec_trim(ls[0]);
        let rest = ls.drop_first();
        if has_prefix(t0, ascii_bytes("global.set"@)) {
            let r = sp_red_load(rest, false32());
            (seq![ls[0]] + r.0, r.1)
        } else if has_prefix(t0, ascii_bytes("global.get $x"@)) && spec_parse_reg(
            t0.subrange(13, t0.len() as int),
        ) is Some {
            let n = spec_parse_reg(t0.subrange(13, t0.len() as int))->0;
            if seen[n as int] {
                let r = sp_red_load(rest, seen);
                (r.0, r.1 + 1)
            } else {
                let r = sp_red_load(rest, seen.update(n as int, true));
                (seq![ls[0]] + r.0, r.1)
            }
        } else {
            let r = sp_red_load(rest, seen);
            (seq![ls[0]] + r.0, r.1)
        }
    }
}

proof fn lemma_sp_red_load_count(ls: Seq<Seq<u8>>, seen: Seq<bool>)
    ensures
        sp_red_load(ls, seen).1 <= ls.len(),
    decreases ls.len(),
{
    if ls.len() > 0 {
        let t0 = spec_trim(ls[0]);
        let rest = ls.drop_first();
        lemma_sp_red_load_count(rest, false32());
        lemma_sp_red_load_count(rest, seen);
        if has_prefix(t0, ascii_bytes("global.get $x"@)) && spec_parse_reg(
            t0.subrange(13, t0.len() as int),
        ) is Some {
            let n = spec_parse_reg(t0.subrange(13, t0.len() as int))->0;
            lemma_sp_red_load_count(rest, seen.update(n as int, true));
        }
    }
}

#[verifier::loop_isolation(false)]
fn red_load_pass(lines: &Vec<Vec<u8>>) -> (r: (Vec<Vec<u8>>, usize))
    ensures
        lviews(r.0@) == sp_red_load(lviews(lines@), false32()).0,
        r.1 == sp_red_load(lviews(lines@), false32()).1,
{
    let ghost full = lviews(lines@);
    proof {
        reveal_strlit("global.set");
        reveal_strlit("global.get $x");
        assert(vstd::string::is_ascii("global.set"));
        assert(vstd::string::is_ascii("global.get $x"));
    }
    let t_set = tok_bytes("global.set");
    let t_getx = tok_bytes("global.get $x");
    let mut seen = mk_false32();
    let mut out: Vec<Vec<u8>> = Vec::new();
    let mut count: usize = 0;
    let mut i: usize = 0;
    proof {
        assert(full.skip(0) =~= full);
        assert(lviews(out@) =~= Seq::<Seq<u8>>::empty());
    }
    while i < lines.len()
        invariant
            i <= lines.len(),
            count <= i,
            seen@.len() == 32,
            sp_red_load(full, false32()).0 == lviews(out@) + sp_red_load(
                full.skip(i as int),
                seen@,
            ).0,
            sp_red_load(full, false32()).1 == count + sp_red_load(full.skip(i as int), seen@).1,
        decreases lines.len() - i,
    {
        let ghost rest = full.skip(i as int);
        proof {
            assert(rest[0] == lines@[i as int]@);
            assert(rest.drop_first() =~= full.skip(i as int + 1));
            lemma_sp_red_load_count(rest, seen@);
        }
        let t0 = trim(&lines[i]);
        if starts_with(&t0, t_set) {
            let ghost before = lviews(out@);
            out.push(clone_bytes(&lines[i]));
            seen = mk_false32();
            proof {
                assert(lviews(out@) =~= before.push(lines@[i as int]@));
            }
        } else {
            let mut handled = false;
            if starts_with(&t0, t_getx) {
                let ro = parse_reg_suffix(&t0, 13);
                if let Some(n) = ro {
                    if seen[n as usize] {
                        count = count + 1;
                    } else {
                        let ghost before = lviews(out@);
                        out.push(clone_bytes(&lines[i]));
                        seen.set(n as usize, true);
                        proof {
                            assert(lviews(out@) =~= before.push(lines@[i as int]@));
                        }
                    }
                    handled = true;
                }
            }
            if !handled {
                let ghost before = lviews(out@);
                out.push(clone_bytes(&lines[i]));
                proof {
                    assert(lviews(out@) =~= before.push(lines@[i as int]@));
                }
            }
        }
        i = i + 1;
        proof {
            assert(sp_red_load(full, false32()).0 =~= lviews(out@) + sp_red_load(
                full.skip(i as int),
                seen@,
            ).0);
        }
    }
    proof {
        assert(full.skip(lines@.len() as int) =~= Seq::<Seq<u8>>::empty());
        assert(lviews(out@) =~= sp_red_load(full, false32()).0);
    }
    (out, count)
}

// ---------------------------------------------------------------------------
// Constant propagation
// ---------------------------------------------------------------------------

/// Constant propagation: a `i64.const N` directly before `global.set $xK`
/// records K = N; a later `global.get $xK` is replaced by the constant; any
/// other store to K, and any control line or call, invalidates.
pub open spec fn sp_const_prop(
    ls: Seq<Seq<u8>>,
    consts: Seq<Option<i64>>,
    prev: Option<i64>,
) -> (Seq<Seq<u8>>, nat)
    decreases ls.len(),
{
    if ls.len() == 0 {
        (Seq::<Seq<u8>>::empty(), 0nat)
    } else {
        let t0 = spec_trim(ls[0]);
        let rest = ls.drop_first();
        if has_prefix(t0, ascii_bytes("global.get $x"@)) && spec_parse_reg(
            t0.subrange(13, t0.len() as int),
        ) is Some && consts[spec_parse_reg(t0.subrange(13, t0.len() as int))->0 as int] is Some {
            let v = consts[spec_parse_reg(t0.subrange(13, t0.len() as int))->0 as int]->0;
            let line = spaces(leading_ws(ls[0])) + ascii_bytes("i64.const "@) + dec_bytes_i64(
                v as int,
            );
            let r = sp_const_prop(rest, consts, Some(v));
            (seq![line] + r.0, r.1 + 1)
        } else if has_prefix(t0, ascii_bytes("global.set $x"@)) && spec_parse_reg(
            t0.subrange(13, t0.len() as int),
        ) is Some {
            let n = spec_parse_reg(t0.subrange(13, t0.len() as int))->0;
            let r = sp_const_prop(rest, consts.update(n as int, prev), Option::<i64>::None);
            (seq![ls[0]] + r.0, r.1)
        } else if has_prefix(t0, ascii_bytes("call"@)) || has_prefix(t0, ascii_bytes("if"@))
            || has_prefix(t0, ascii_bytes("else"@)) || has_prefix(t0, ascii_bytes("end"@))
            || has_prefix(t0, ascii_bytes("loop"@)) || has_prefix(t0, ascii_bytes("block"@))
            || has_prefix(t0, ascii_bytes("br"@)) {
            let r = sp_const_prop(rest, none32(), Option::<i64>::None);
            (seq![ls[0]] + r.0, r.1)
        } else {
            let p = if has_prefix(t0, ascii_bytes("i64.const "@)) && spec_parse_const(
                t0.subrange(10, t0.len() as int),
            ) is Some {
                spec_parse_const(t0.subrange(10, t0.len() as int))
            } else {
                Option::<i64>::None
            };
            let r = sp_const_prop(rest, consts, p);
            (seq![ls[0]] + r.0, r.1)
        }
    }
}

proof fn lemma_sp_const_prop_count(ls: Seq<Seq<u8>>, consts: Seq<Option<i64>>, prev: Option<i64>)
    ensures
        sp_const_prop(ls, consts, prev).1 <= ls.len(),
    decreases ls.len(),
{
    if ls.len() > 0 {
        let t0 = spec_trim(ls[0]);
        let rest = ls.drop_first();
        lemma_sp_const_prop_count(rest, none32(), Option::<i64>::None);
        if has_prefix(t0, ascii_bytes("global.get $x"@)) && spec_parse_reg(
            t0.subrange(13, t0.len() as int),
        ) is Some && consts[spec_parse_reg(t0.subrange(13, t0.len() as int))->0 as int] is Some {
            let v = consts[spec_parse_reg(t0.subrange(13, t0.len() as int))->0 as int]->0;
            lemma_sp_const_prop_count(rest, consts, Some(v));
        }
        if has_prefix(t0, ascii_bytes("global.set $x"@)) && spec_parse_reg(
            t0.subrange(13, t0.len() as int),
        ) is Some {
            let n = spec_parse_reg(t0.subrange(13, t0.len() as int))->0;
            lemma_sp_const_prop_count(rest, consts.update(n as int, prev), Option::<i64>::None);
        }
        lemma_sp_const_prop_count(
            rest,
            consts,
            if has_prefix(t0, ascii_bytes("i64.const "@)) && spec_parse_const(
                t0.subrange(10, t0.len() as int),
            ) is Some {
                spec_parse_const(t0.subrange(10, t0.len() as int))
            } else {
                Option::<i64>::None
            },
        );
        lemma_sp_const_prop_count(rest, consts, Option::<i64>::None);
    }
}

#[verifier::loop_isolation(false)]
#[verifier::rlimit(100)]
fn const_prop_pass(lines: &Vec<Vec<u8>>) -> (r: (Vec<Vec<u8>>, usize))
    ensures
        lviews(r.0@) == sp_const_prop(lviews(lines@), none32(), Option::<i64>::None).0,
        r.1 == sp_const_prop(lviews(lines@), none32(), Option::<i64>::None).1,
{
    let ghost full = lviews(lines@);
    proof {
        reveal_strlit("global.get $x");
        reveal_strlit("global.set $x");
        reveal_strlit("i64.const ");
        reveal_strlit("call");
        reveal_strlit("if");
        reveal_strlit("else");
        reveal_strlit("end");
        reveal_strlit("loop");
        reveal_strlit("block");
        reveal_strlit("br");
        assert(vstd::string::is_ascii("global.get $x"));
        assert(vstd::string::is_ascii("global.set $x"));
        assert(vstd::string::is_ascii("i64.const "));
        assert(vstd::string::is_ascii("call"));
        assert(vstd::string::is_ascii("if"));
        assert(vstd::string::is_ascii("else"));
        assert(vstd::string::is_ascii("end"));
        assert(vstd::string::is_ascii("loop"));
        assert(vstd::string::is_ascii("block"));
        assert(vstd::string::is_ascii("br"));
    }
    let t_getx = tok_bytes("global.get $x");
    let t_setx = tok_bytes("global.set $x");
    let t_const = tok_bytes("i64.const ");
    let t_call = tok_bytes("call");
    let t_if = tok_bytes("if");
    let t_else = tok_bytes("else");
    let t_end = tok_bytes("end");
    let t_loop = tok_bytes("loop");
    let t_block = tok_bytes("block");
    let t_br = tok_bytes("br");
    let mut consts = mk_none32();
    let mut prev: Option<i64> = Option::<i64>::None;
    let mut out: Vec<Vec<u8>> = Vec::new();
    let mut count: usize = 0;
    let mut i: usize = 0;
    proof {
        assert(full.skip(0) =~= full);
        assert(lviews(out@) =~= Seq::<Seq<u8>>::empty());
    }
    while i < lines.len()
        invariant
            i <= lines.len(),
            count <= i,
            consts@.len() == 32,
            sp_const_prop(full, none32(), Option::<i64>::None).0 == lviews(out@) + sp_const_prop(
                full.skip(i as int),
                consts@,
                prev,
            ).0,
            sp_const_prop(full, none32(), Option::<i64>::None).1 == count + sp_const_prop(
                full.skip(i as int),
                consts@,
                prev,
            ).1,
        decreases lines.len() - i,
    {
        let ghost rest = full.skip(i as int);
        proof {
            assert(rest[0] == lines@[i as int]@);
            assert(rest.drop_first() =~= full.skip(i as int + 1));
            lemma_sp_const_prop_count(rest, consts@, prev);
        }
        let t0 = trim(&lines[i]);
        let mut handled = false;
        if starts_with(&t0, t_getx) {
            if let Some(n) = parse_reg_suffix(&t0, 13) {
                if let Some(v) = consts[n as usize] {
                    let mut line: Vec<u8> = Vec::new();
                    let ind = count_leading_ws(&lines[i]);
                    push_spaces(&mut line, ind);
                    push_bytes(&mut line, t_const);
                    push_dec_i64(&mut line, v);
                    let ghost before = lviews(out@);
                    out.push(line);
                    count = count + 1;
                    prev = Some(v);
                    proof {
                        assert(lviews(out@) =~= before.push(
                            spaces(leading_ws(rest[0])) + ascii_bytes("i64.const "@)
                                + dec_bytes_i64(v as int),
                        ));
                    }
                    handled = true;
                }
            }
        }
        if !handled && starts_with(&t0, t_setx) {
            if let Some(n) = parse_reg_suffix(&t0, 13) {
                let ghost before = lviews(out@);
                out.push(clone_bytes(&lines[i]));
                consts.set(n as usize, prev);
                prev = Option::<i64>::None;
                proof {
                    assert(lviews(out@) =~= before.push(lines@[i as int]@));
                }
                handled = true;
            }
        }
        if !handled && (starts_with(&t0, t_call) || starts_with(&t0, t_if) || starts_with(
            &t0,
            t_else,
        ) || starts_with(&t0, t_end) || starts_with(&t0, t_loop) || starts_with(&t0, t_block)
            || starts_with(&t0, t_br)) {
            let ghost before = lviews(out@);
            out.push(clone_bytes(&lines[i]));
            consts = mk_none32();
            prev = Option::<i64>::None;
            proof {
                assert(lviews(out@) =~= before.push(lines@[i as int]@));
            }
            handled = true;
        }
        if !handled {
            let ghost before = lviews(out@);
            out.push(clone_bytes(&lines[i]));
            if starts_with(&t0, t_const) {
                prev = parse_const(&tail_from(&t0, 10));
            } else {
                prev = Option::<i64>::None;
            }
            proof {
                assert(lviews(out@) =~= before.push(lines@[i as int]@));
            }
        }
        i = i + 1;
        proof {
            assert(sp_const_prop(full, none32(), Option::<i64>::None).0 =~= lviews(out@)
                + sp_const_prop(full.skip(i as int), consts@, prev).0);
        }
    }
    proof {
        assert(full.skip(lines@.len() as int) =~= Seq::<Seq<u8>>::empty());
        assert(lviews(out@) =~= sp_const_prop(full, none32(), Option::<i64>::None).0);
    }
    (out, count)
}

// ---------------------------------------------------------------------------
// Branch simplification
// ---------------------------------------------------------------------------

/// Walk of one `if`/`else`/`end` region entered at depth one.  Keeps the
/// lines of the wanted arm (nested structure included), drops the other arm
/// and the structural lines of the outer block, and reports how many lines
/// the region occupied including its closing `end`.
pub open spec fn sb_scan(
    ls: Seq<Seq<u8>>,
    depth: nat,
    want_else: bool,
    in_else: bool,
) -> (Seq<Seq<u8>>, nat)
    decreases ls.len(),
{
    if ls.len() == 0 {
        (Seq::<Seq<u8>>::empty(), 0nat)
    } else {
        let t = spec_trim(ls[0]);
        let keep = in_else == want_else;
        let rest = ls.drop_first();
        if t == ascii_bytes("if"@) || has_prefix(t, ascii_bytes("if "@)) {
            let r = sb_scan(rest, depth + 1, want_else, in_else);
            ((if keep {
                seq![ls[0]]
            } else {
                Seq::<Seq<u8>>::empty()
            }) + r.0, 1 + r.1)
        } else if t == ascii_bytes("end"@) {
            if depth == 1 {
                (Seq::<Seq<u8>>::empty(), 1nat)
            } else {
                let r = sb_scan(rest, (depth - 1) as nat, want_else, in_else);
                ((if keep {
                    seq![ls[0]]
                } else {
                    Seq::<Seq<u8>>::empty()
                }) + r.0, 1 + r.1)
            }
        } else if t == ascii_bytes("else"@) && depth == 1 {
            let r = sb_scan(rest, depth, want_else, true);
            (r.0, 1 + r.1)
        } else {
            let r = sb_scan(rest, depth, want_else, in_else);
            ((if keep {
                seq![ls[0]]
            } else {
                Seq::<Seq<u8>>::empty()
            }) + r.0, 1 + r.1)
        }
    }
}

proof fn lemma_sb_scan_consumed(ls: Seq<Seq<u8>>, depth: nat, want_else: bool, in_else: bool)
    ensures
        sb_scan(ls, depth, want_else, in_else).1 <= ls.len(),
    decreases ls.len(),
{
    if ls.len() > 0 {
        let rest = ls.drop_first();
        lemma_sb_scan_consumed(rest, depth + 1, want_else, in_else);
        lemma_sb_scan_consumed(rest, (depth - 1) as nat, want_else, in_else);
        lemma_sb_scan_consumed(rest, depth, want_else, true);
        lemma_sb_scan_consumed(rest, depth, want_else, in_else);
    }
}

/// Branch simplification: a constant-zero condition keeps only the else
/// arm; a constant-one condition keeps only the then arm.
pub open spec fn sp_branch(ls: Seq<Seq<u8>>) -> (Seq<Seq<u8>>, nat)
    decreases ls.len(),
    via sp_branch_decreases
{
    if ls.len() == 0 {
        (Seq::<Seq<u8>>::empty(), 0nat)
    } else {
        let t0 = spec_trim(ls[0]);
        let t1 = if ls.len() > 1 {
            spec_trim(ls[1])
        } else {
            Seq::<u8>::empty()
        };
        if ls.len() > 1 && t0 == ascii_bytes("i64.const 0"@) && t1 == ascii_bytes("if"@) {
            let b = sb_scan(ls.subrange(2, ls.len() as int), 1, true, false);
            let r = sp_branch(ls.subrange(2 + b.1 as int, ls.len() as int));
            (b.0 + r.0, 1 + r.1)
        } else if ls.len() > 1 && t0 == ascii_bytes("i64.const 1"@) && t1 == ascii_bytes("if"@) {
            let b = sb_scan(ls.subrange(2, ls.len() as int), 1, false, false);
            let r = sp_branch(ls.subrange(2 + b.1 as int, ls.len() as int));
            (b.0 + r.0, 1 + r.1)
        } else {
            let r = sp_branch(ls.drop_first());
            (seq![ls[0]] + r.0, r.1)
        }
    }
}

#[via_fn]
proof fn sp_branch_decreases(ls: Seq<Seq<u8>>) {
    if ls.len() > 1 {
        lemma_sb_scan_consumed(ls.subrange(2, ls.len() as int), 1, true, false);
        lemma_sb_scan_consumed(ls.subrange(2, ls.len() as int), 1, false, false);
    }
}

proof fn lemma_sp_branch_count(ls: Seq<Seq<u8>>)
    ensures
        sp_branch(ls).1 <= ls.len(),
    decreases ls.len(),
{
    if ls.len() > 0 {
        lemma_sp_branch_count(ls.drop_first());
        if ls.len() > 1 {
            lemma_sb_scan_consumed(ls.subrange(2, ls.len() as int), 1, true, false);
            lemma_sb_scan_consumed(ls.subrange(2, ls.len() as int), 1, false, false);
            let b0 = sb_scan(ls.subrange(2, ls.len() as int), 1, true, false);
            let b1 = sb_scan(ls.subrange(2, ls.len() as int), 1, false, false);
            lemma_sp_branch_count(ls.subrange(2 + b0.1 as int, ls.len() as int));
            lemma_sp_branch_count(ls.subrange(2 + b1.1 as int, ls.len() as int));
        }
    }
}

#[verifier::loop_isolation(false)]
#[verifier::rlimit(100)]
fn branch_pass(lines: &Vec<Vec<u8>>) -> (r: (Vec<Vec<u8>>, usize))
    ensures
        lviews(r.0@) == sp_branch(lviews(lines@)).0,
        r.1 == sp_branch(lviews(lines@)).1,
{
    let ghost full = lviews(lines@);
    proof {
        reveal_strlit("i64.const 0");
        reveal_strlit("i64.const 1");
        reveal_strlit("if");
        reveal_strlit("if ");
        reveal_strlit("end");
        reveal_strlit("else");
        assert(vstd::string::is_ascii("i64.const 0"));
        assert(vstd::string::is_ascii("i64.const 1"));
        assert(vstd::string::is_ascii("if"));
        assert(vstd::string::is_ascii("if "));
        assert(vstd::string::is_ascii("end"));
        assert(vstd::string::is_ascii("else"));
    }
    let t_c0 = tok_bytes("i64.const 0");
    let t_c1 = tok_bytes("i64.const 1");
    let t_if = tok_bytes("if");
    let t_ifsp = tok_bytes("if ");
    let t_end = tok_bytes("end");
    let t_else = tok_bytes("else");
    let mut out: Vec<Vec<u8>> = Vec::new();
    let mut count: usize = 0;
    let mut i: usize = 0;
    proof {
        assert(full.skip(0) =~= full);
        assert(lviews(out@) =~= Seq::<Seq<u8>>::empty());
    }
    while i < lines.len()
        invariant
            i <= lines.len(),
            count <= i,
            sp_branch(full).0 == lviews(out@) + sp_branch(full.skip(i as int)).0,
            sp_branch(full).1 == count + sp_branch(full.skip(i as int)).1,
        decreases lines.len() - i,
    {
        let ghost rest = full.skip(i as int);
        proof {
            assert(rest[0] == lines@[i as int]@);
            if i + 1 < lines.len() {
                assert(rest[1] == lines@[i as int + 1]@);
            }
            assert(rest.drop_first() =~= full.skip(i as int + 1));
            lemma_sp_branch_count(rest);
        }
        let t0 = trim(&lines[i]);
        let have1 = i + 1 < lines.len();
        let t1 = if have1 {
            trim(&lines[i + 1])
        } else {
            Vec::new()
        };
        let c0 = have1 && bytes_eq(&t0, t_c0) && bytes_eq(&t1, t_if);
        let c1 = !c0 && have1 && bytes_eq(&t0, t_c1) && bytes_eq(&t1, t_if);
        if c0 || c1 {
            let want_else = c0;
            let ghost start = i + 2;
            let ghost region = full.skip(start as int);
            proof {
                assert(rest.subrange(2, rest.len() as int) =~= region);
                lemma_sb_scan_consumed(region, 1, want_else, false);
            }
            let ghost pre = lviews(out@);
            let mut j: usize = i + 2;
            let mut depth: usize = 1;
            let mut in_else: bool = false;
            let mut closed: bool = false;
            proof {
                assert(full.skip(start as int) =~= region);
            }
            while j < lines.len() && !closed
                invariant
                    start <= j <= lines.len(),
                    closed ==> depth == 0,
                    !closed ==> 1 <= depth <= j,
                    closed ==> pre + sb_scan(region, 1, want_else, false).0 == lviews(out@)
                        && sb_scan(region, 1, want_else, false).1 == j - start,
                    !closed ==> pre + sb_scan(region, 1, want_else, false).0 == lviews(out@)
                        + sb_scan(
                        full.skip(j as int),
                        depth as nat,
                        want_else,
                        in_else,
                    ).0,
                    !closed ==> sb_scan(region, 1, want_else, false).1 == (j - start) + sb_scan(
                        full.skip(j as int),
                        depth as nat,
                        want_else,
                        in_else,
                    ).1,
                decreases lines.len() - j,
            {
                let ghost jrest = full.skip(j as int);
                proof {
                    assert(jrest[0] == lines@[j as int]@);
                    assert(jrest.drop_first() =~= full.skip(j as int + 1));
                    lemma_sb_scan_consumed(jrest, depth as nat, want_else, in_else);
                }
                let tj = trim(&lines[j]);
                let keep = in_else == want_else;
                if bytes_eq(&tj, t_if) || starts_with(&tj, t_ifsp) {
                    if keep {
                        let ghost before = lviews(out@);
                        out.push(clone_bytes(&lines[j]));
                        proof {
                            assert(lviews(out@) =~= before.push(lines@[j as int]@));
                        }
                    }
                    depth = depth + 1;
                    j = j + 1;
                } else if bytes_eq(&tj, t_end) {
                    if depth == 1 {
                        closed = true;
                        depth = 0;
                        j = j + 1;
                    } else {
                        if keep {
                            let ghost before = lviews(out@);
                            out.push(clone_bytes(&lines[j]));
                            proof {
                                assert(lviews(out@) =~= before.push(lines@[j as int]@));
                            }
                        }
                        depth = depth - 1;
                        j = j + 1;
                    }
                } else if bytes_eq(&tj, t_else) && depth == 1 {
                    in_else = true;
                    j = j + 1;
                } else {
                    if keep {
                        let ghost before = lviews(out@);
                        out.push(clone_bytes(&lines[j]));
                        proof {
                            assert(lviews(out@) =~= before.push(lines@[j as int]@));
                        }
                    }
                    j = j + 1;
                }
            }
            proof {
                if !closed {
                    assert(full.skip(lines@.len() as int) =~= Seq::<Seq<u8>>::empty());
                    assert(sb_scan(Seq::<Seq<u8>>::empty(), depth as nat, want_else, in_else).0
                        =~= Seq::<Seq<u8>>::empty());
                }
            }
            count = count + 1;
            let ghost consumed = sb_scan(region, 1, want_else, false).1;
            proof {
                if closed {
                    assert(j - start == consumed);
                } else {
                    assert(j == lines@.len());
                    assert(consumed == j - start);
                }
                assert(rest.subrange(2 + consumed as int, rest.len() as int) =~= full.skip(
                    i as int + 2 + consumed as int,
                ));
            }
            i = j;
            proof {
                assert(sp_branch(full).0 =~= lviews(out@) + sp_branch(full.skip(i as int)).0);
            }
        } else {
            let ghost before = lviews(out@);
            out.push(clone_bytes(&lines[i]));
            proof {
                assert(lviews(out@) =~= before.push(lines@[i as int]@));
            }
            i = i + 1;
            proof {
                assert(sp_branch(full).0 =~= lviews(out@) + sp_branch(full.skip(i as int)).0);
            }
        }
    }
    proof {
        assert(full.skip(lines@.len() as int) =~= Seq::<Seq<u8>>::empty());
        assert(lviews(out@) =~= sp_branch(full).0);
    }
    (out, count)
}

// ---------------------------------------------------------------------------
// The optimizer
// ---------------------------------------------------------------------------

/// Counts of applied rewrites, one per pass, accumulated by a pipeline.
pub struct PassCounts {
    pub cp: nat,
    pub dc: nat,
    pub rl: nat,
    pub rs: nat,
    pub bs: nat,
    pub ph: nat,
}

/// One aggressive iteration: every pass once, in pipeline order.
pub open spec fn sp_iter(ls: Seq<Seq<u8>>) -> (Seq<Seq<u8>>, PassCounts) {
    let r1 = sp_const_prop(ls, none32(), Option::<i64>::None);
    let r2 = sp_peephole(r1.0);
    let r3 = sp_red_store(r2.0);
    let r4 = sp_red_load(r3.0, false32());
    let r5 = sp_branch(r4.0);
    let r6 = sp_dead(r5.0, 0);
    (
        r6.0,
        PassCounts { cp: r1.1, ph: r2.1, rs: r3.1, rl: r4.1, bs: r5.1, dc: r6.1 },
    )
}

/// The whole transformation a level performs on the split lines.
pub open spec fn sp_level(level: OptLevel, ls: Seq<Seq<u8>>) -> (Seq<Seq<u8>>, PassCounts) {
    match level {
        OptLevel::Off => (ls, PassCounts { cp: 0, dc: 0, rl: 0, rs: 0, bs: 0, ph: 0 }),
        OptLevel::Basic => {
            let r1 = sp_const_prop(ls, none32(), Option::<i64>::None);
            let r2 = sp_dead(r1.0, 0);
            (r2.0, PassCounts { cp: r1.1, dc: r2.1, rl: 0, rs: 0, bs: 0, ph: 0 })
        },
        OptLevel::Moderate => {
            let r1 = sp_const_prop(ls, none32(), Option::<i64>::None);
            let r2 = sp_peephole(r1.0);
            let r3 = sp_red_store(r2.0);
            let r4 = sp_dead(r3.0, 0);
            (r4.0, PassCounts { cp: r1.1, ph: r2.1, rs: r3.1, dc: r4.1, rl: 0, bs: 0 })
        },
        OptLevel::Aggressive => {
            let i1 = sp_iter(ls);
            let i2 = sp_iter(i1.0);
            let i3 = sp_iter(i2.0);
            (
                i3.0,
                PassCounts {
                    cp: i1.1.cp + i2.1.cp + i3.1.cp,
                    dc: i1.1.dc + i2.1.dc + i3.1.dc,
                    rl: i1.1.rl + i2.1.rl + i3.1.rl,
                    rs: i1.1.rs + i2.1.rs + i3.1.rs,
                    bs: i1.1.bs + i2.1.bs + i3.1.bs,
                    ph: i1.1.ph + i2.1.ph + i3.1.ph,
                },
            )
        },
    }
}


/// Applies textual peephole passes to generated WAT, level by level.
pub struct WatOptimizer {
    /// Optimization level.
    pub opt_level: OptLevel,
    /// Statistics about the rewrites applied so far.
    pub stats: OptStats,
}

impl WatOptimizer {
    /// A fresh optimizer at the given level, counters at zero.
    pub fn new(opt_level: OptLevel) -> (r: Self)
        ensures
            r.opt_level == opt_level,
            r.stats == (OptStats {
                constants_propagated: 0,
                dead_code_eliminated: 0,
                redundant_loads_eliminated: 0,
                redundant_stores_eliminated: 0,
                branches_simplified: 0,
                peephole_optimizations: 0,
            }),
    {
        WatOptimizer { opt_level, stats: OptStats::new() }
    }

    /// Current statistics.
    pub fn stats(&self) -> (r: &OptStats)
        ensures
            r == self.stats,
    {
        &self.stats
    }

    /// Optimize WAT text.  At level `Off` the text comes back verbatim and
    /// the counters do not move.  At any other level the text is split into
    /// lines, rewritten by the level's pipeline exactly as `sp_level`
    /// states, joined with one line feed per line -- the passes keep ASCII
    /// text ASCII, so the result is pinned character for character -- and
    /// each counter grows by the pipeline's count; non-ASCII text is passed
    /// through unchanged.
    pub fn optimize(&mut self, wat: &str) -> (r: String)
        requires
            old(self).stats.spec_total() + 18 * (wat@.len() + 1) <= usize::MAX,
        ensures
            old(self).opt_level == OptLevel::Off ==> r@ == wat@ && *final(self) == *old(self),
            final(self).opt_level == old(self).opt_level,
            old(self).opt_level != OptLevel::Off && !vstd::string::is_ascii(wat) ==> r@ == wat@
                && *final(self) == *old(self),
            old(self).opt_level != OptLevel::Off && vstd::string::is_ascii(wat) ==> ({
                let pipeline = sp_level(old(self).opt_level, spec_split(wat.spec_bytes()));
                let outb = spec_unlines(pipeline.0);
                &&& r@ == bytes_ascii_chars(outb)
                &&& final(self).stats.constants_propagated == old(self).stats.constants_propagated
                    + pipeline.1.cp
                &&& final(self).stats.dead_code_eliminated == old(self).stats.dead_code_eliminated
                    + pipeline.1.dc
                &&& final(self).stats.redundant_loads_eliminated == old(
                    self,
                ).stats.redundant_loads_eliminated + pipeline.1.rl
                &&& final(self).stats.redundant_stores_eliminated == old(
                    self,
                ).stats.redundant_stores_eliminated + pipeline.1.rs
                &&& final(self).stats.branches_simplified == old(self).stats.branches_simplified
                    + pipeline.1.bs
                &&& final(self).stats.peephole_optimizations == old(
                    self,
                ).stats.peephole_optimizations + pipeline.1.ph
            }),
    {
        if matches!(self.opt_level, OptLevel::Off) {
            return wat.to_owned();
        }
        if !wat.is_ascii() {
            return wat.to_owned();
        }
        let bytes = wat.as_bytes_vec();
        let lines = split_lines(&bytes);
        proof {
            lemma_split_len(wat.spec_bytes());
            broadcast use vstd::string::is_ascii_spec_bytes;
            assert(bytes_ascii(wat.spec_bytes()));
            lemma_split_ascii(wat.spec_bytes());
            assert(lines_ascii(lviews(lines@)));
        }
        let ghost bound = wat.spec_bytes().len() + 1;
        let out: Vec<Vec<u8>>;
        match self.opt_level {
            OptLevel::Off => {
                out = lines;
            },
            OptLevel::Basic => {
                let (l1, c1) = const_prop_pass(&lines);
                proof {
                    lemma_sp_const_prop_count(lviews(lines@), none32(), Option::<i64>::None);
                    lemma_len_const_prop(lviews(lines@), none32(), Option::<i64>::None);
                    lemma_ascii_const_prop(lviews(lines@), none32(), Option::<i64>::None);
                    lemma_ascii_dead(lviews(l1@), 0);
                    lemma_sp_dead_count(lviews(l1@), 0);
                }
                let (l2, c2) = dead_code_pass(&l1);
                self.stats.constants_propagated = self.stats.constants_propagated + c1;
                self.stats.dead_code_eliminated = self.stats.dead_code_eliminated + c2;
                out = l2;
            },
            OptLevel::Moderate => {
                let (l1, c1) = const_prop_pass(&lines);
                proof {
                    lemma_sp_const_prop_count(lviews(lines@), none32(), Option::<i64>::None);
                    lemma_len_const_prop(lviews(lines@), none32(), Option::<i64>::None);
                    lemma_ascii_const_prop(lviews(lines@), none32(), Option::<i64>::None);
                    lemma_sp_peephole_count(lviews(l1@));
                    lemma_len_peephole(lviews(l1@));
                }
                let (l2, c2) = peephole_pass(&l1);
                proof {
                    lemma_ascii_peephole(lviews(l1@));
                    lemma_sp_red_store_count(lviews(l2@));
                    lemma_len_red_store(lviews(l2@));
                }
                let (l3, c3) = red_store_pass(&l2);
                proof {
                    lemma_ascii_red_store(lviews(l2@));
                    lemma_ascii_dead(lviews(l3@), 0);
                    lemma_sp_dead_count(lviews(l3@), 0);
                }
                let (l4, c4) = dead_code_pass(&l3);
                self.stats.constants_propagated = self.stats.constants_propagated + c1;
                self.stats.peephole_optimizations = self.stats.peephole_optimizations + c2;
                self.stats.redundant_stores_eliminated = self.stats.redundant_stores_eliminated
                    + c3;
                self.stats.dead_code_eliminated = self.stats.dead_code_eliminated + c4;
                out = l4;
            },
            OptLevel::Aggressive => {
                let mut cur = lines;
                let mut k: usize = 0;
                let ghost ls0 = lviews(cur@);
                while k < 3
                    invariant
                        k <= 3,
                        self.opt_level == old(self).opt_level,
                        lines_ascii(lviews(cur@)),
                        lviews(cur@).len() <= bound,
                        old(self).stats.spec_total() + 18 * bound <= usize::MAX,
                        ({
                            let done = if k == 0 {
                                (ls0, PassCounts { cp: 0, dc: 0, rl: 0, rs: 0, bs: 0, ph: 0 })
                            } else if k == 1 {
                                sp_iter(ls0)
                            } else if k == 2 {
                                let i1 = sp_iter(ls0);
                                let i2 = sp_iter(i1.0);
                                (
                                    i2.0,
                                    PassCounts {
                                        cp: i1.1.cp + i2.1.cp,
                                        dc: i1.1.dc + i2.1.dc,
                                        rl: i1.1.rl + i2.1.rl,
                                        rs: i1.1.rs + i2.1.rs,
                                        bs: i1.1.bs + i2.1.bs,
                                        ph: i1.1.ph + i2.1.ph,
                                    },
                                )
                            } else {
                                let i1 = sp_iter(ls0);
                                let i2 = sp_iter(i1.0);
                                let i3 = sp_iter(i2.0);
                                (
                                    i3.0,
                                    PassCounts {
                                        cp: i1.1.cp + i2.1.cp + i3.1.cp,
                                        dc: i1.1.dc + i2.1.dc + i3.1.dc,
                                        rl: i1.1.rl + i2.1.rl + i3.1.rl,
                                        rs: i1.1.rs + i2.1.rs + i3.1.rs,
                                        bs: i1.1.bs + i2.1.bs + i3.1.bs,
                                        ph: i1.1.ph + i2.1.ph + i3.1.ph,
                                    },
                                )
                            };
                            &&& lviews(cur@) == done.0
                            &&& self.stats.constants_propagated == old(
                                self,
                            ).stats.constants_propagated + done.1.cp
                            &&& self.stats.dead_code_eliminated == old(
                                self,
                            ).stats.dead_code_eliminated + done.1.dc
                            &&& self.stats.redundant_loads_eliminated == old(
                                self,
                            ).stats.redundant_loads_eliminated + done.1.rl
                            &&& self.stats.redundant_stores_eliminated == old(
                                self,
                            ).stats.redundant_stores_eliminated + done.1.rs
                            &&& self.stats.branches_simplified == old(
                                self,
                            ).stats.branches_simplified + done.1.bs
                            &&& self.stats.peephole_optimizations == old(
                                self,
                            ).stats.peephole_optimizations + done.1.ph
                            &&& done.1.cp + done.1.dc + done.1.rl + done.1.rs + done.1.bs
                                + done.1.ph <= (if k == 0 {
                                0
                            } else if k == 1 {
                                6 * bound
                            } else if k == 2 {
                                12 * bound
                            } else {
                                18 * bound
                            })
                        }),
                    decreases 3 - k,
                {
                    let ghost pre = lviews(cur@);
                    let (l1, c1) = const_prop_pass(&cur);
                    proof {
                        lemma_sp_const_prop_count(pre, none32(), Option::<i64>::None);
                        lemma_len_const_prop(pre, none32(), Option::<i64>::None);
                        lemma_ascii_const_prop(pre, none32(), Option::<i64>::None);
                        lemma_sp_peephole_count(lviews(l1@));
                        lemma_len_peephole(lviews(l1@));
                    }
                    let (l2, c2) = peephole_pass(&l1);
                    proof {
                        lemma_ascii_peephole(lviews(l1@));
                        lemma_sp_red_store_count(lviews(l2@));
                        lemma_len_red_store(lviews(l2@));
                    }
                    let (l3, c3) = red_store_pass(&l2);
                    proof {
                        lemma_ascii_red_store(lviews(l2@));
                        lemma_sp_red_load_count(lviews(l3@), false32());
                        lemma_len_red_load(lviews(l3@), false32());
                    }
                    let (l4, c4) = red_load_pass(&l3);
                    proof {
                        lemma_ascii_red_load(lviews(l3@), false32());
                        lemma_sp_branch_count(lviews(l4@));
                        lemma_len_branch(lviews(l4@));
                    }
                    let (l5, c5) = branch_pass(&l4);
                    proof {
                        lemma_ascii_branch(lviews(l4@));
                        lemma_ascii_dead(lviews(l5@), 0);
                        lemma_sp_dead_count(lviews(l5@), 0);
                        lemma_len_dead(lviews(l5@), 0);
                    }
                    let (l6, c6) = dead_code_pass(&l5);
                    self.stats.constants_propagated = self.stats.constants_propagated + c1;
                    self.stats.peephole_optimizations = self.stats.peephole_optimizations + c2;
                    self.stats.redundant_stores_eliminated = self.stats.redundant_stores_eliminated
                        + c3;
                    self.stats.redundant_loads_eliminated = self.stats.redundant_loads_eliminated
                        + c4;
                    self.stats.branches_simplified = self.stats.branches_simplified + c5;
                    self.stats.dead_code_eliminated = self.stats.dead_code_eliminated + c6;
                    cur = l6;
                    k = k + 1;
                }
                out = cur;
            },
        }
        let joined = join_lines(&out);
        proof {
            lemma_unlines_ascii(lviews(out@));
        }
        bytes_to_string(joined)
    }
}

/// Every pass leaves at most as many lines as it found.
proof fn lemma_len_dead(ls: Seq<Seq<u8>>, skip: nat)
    ensures
        sp_dead(ls, skip).0.len() <= ls.len(),
    decreases ls.len(),
{
    if ls.len() > 0 {
        let rest = ls.drop_first();
        lemma_len_dead(rest, 0);
        lemma_len_dead(rest, 1);
        lemma_len_dead(rest, skip + 1);
        lemma_len_dead(rest, skip);
        lemma_len_dead(rest, (skip - 1) as nat);
    }
}

proof fn lemma_len_peephole(ls: Seq<Seq<u8>>)
    ensures
        sp_peephole(ls).0.len() <= ls.len(),
    decreases ls.len(),
{
    if ls.len() > 0 {
        lemma_len_peephole(ls.drop_first());
        if ls.len() > 1 {
            lemma_len_peephole(ls.subrange(2, ls.len() as int));
        }
        if ls.len() > 2 {
            lemma_len_peephole(ls.subrange(3, ls.len() as int));
        }
    }
}

proof fn lemma_len_red_store(ls: Seq<Seq<u8>>)
    ensures
        sp_red_store(ls).0.len() <= ls.len(),
    decreases ls.len(),
{
    if ls.len() > 0 {
        lemma_len_red_store(ls.drop_first());
    }
}

proof fn lemma_len_red_load(ls: Seq<Seq<u8>>, seen: Seq<bool>)
    ensures
        sp_red_load(ls, seen).0.len() <= ls.len(),
    decreases ls.len(),
{
    if ls.len() > 0 {
        let t0 = spec_trim(ls[0]);
        let rest = ls.drop_first();
        lemma_len_red_load(rest, false32());
        lemma_len_red_load(rest, seen);
        if has_prefix(t0, ascii_bytes("global.get $x"@)) && spec_parse_reg(
            t0.subrange(13, t0.len() as int),
        ) is Some {
            let n = spec_parse_reg(t0.subrange(13, t0.len() as int))->0;
            lemma_len_red_load(rest, seen.update(n as int, true));
        }
    }
}

proof fn lemma_len_const_prop(ls: Seq<Seq<u8>>, consts: Seq<Option<i64>>, prev: Option<i64>)
    ensures
        sp_const_prop(ls, consts, prev).0.len() <= ls.len(),
    decreases ls.len(),
{
    if ls.len() > 0 {
        let t0 = spec_trim(ls[0]);
        let rest = ls.drop_first();
        lemma_len_const_prop(rest, none32(), Option::<i64>::None);
        if has_prefix(t0, ascii_bytes("global.get $x"@)) && spec_parse_reg(
            t0.subrange(13, t0.len() as int),
        ) is Some && consts[spec_parse_reg(t0.subrange(13, t0.len() as int))->0 as int] is Some {
            let v = consts[spec_parse_reg(t0.subrange(13, t0.len() as int))->0 as int]->0;
            lemma_len_const_prop(rest, consts, Some(v));
        }
        if has_prefix(t0, ascii_bytes("global.set $x"@)) && spec_parse_reg(
            t0.subrange(13, t0.len() as int),
        ) is Some {
            let n = spec_parse_reg(t0.subrange(13, t0.len() as int))->0;
            lemma_len_const_prop(rest, consts.update(n as int, prev), Option::<i64>::None);
        }
        lemma_len_const_prop(
            rest,
            consts,
            if has_prefix(t0, ascii_bytes("i64.const "@)) && spec_parse_const(
                t0.subrange(10, t0.len() as int),
            ) is Some {
                spec_parse_const(t0.subrange(10, t0.len() as int))
            } else {
                Option::<i64>::None
            },
        );
        lemma_len_const_prop(rest, consts, Option::<i64>::None);
    }
}

proof fn lemma_len_sb_scan(ls: Seq<Seq<u8>>, depth: nat, want_else: bool, in_else: bool)
    ensures
        sb_scan(ls, depth, want_else, in_else).0.len() <= sb_scan(ls, depth, want_else, in_else).1,
    decreases ls.len(),
{
    if ls.len() > 0 {
        let rest = ls.drop_first();
        lemma_len_sb_scan(rest, depth + 1, want_else, in_else);
        lemma_len_sb_scan(rest, (depth - 1) as nat, want_else, in_else);
        lemma_len_sb_scan(rest, depth, want_else, true);
        lemma_len_sb_scan(rest, depth, want_else, in_else);
    }
}

proof fn lemma_len_branch(ls: Seq<Seq<u8>>)
    ensures
        sp_branch(ls).0.len() <= ls.len(),
    decreases ls.len(),
{
    if ls.len() > 0 {
        lemma_len_branch(ls.drop_first());
        if ls.len() > 1 {
            lemma_sb_scan_consumed(ls.subrange(2, ls.len() as int), 1, true, false);
            lemma_sb_scan_consumed(ls.subrange(2, ls.len() as int), 1, false, false);
            lemma_len_sb_scan(ls.subrange(2, ls.len() as int), 1, true, false);
            lemma_len_sb_scan(ls.subrange(2, ls.len() as int), 1, false, false);
            let b0 = sb_scan(ls.subrange(2, ls.len() as int), 1, true, false);
            let b1 = sb_scan(ls.subrange(2, ls.len() as int), 1, false, false);
            lemma_len_branch(ls.subrange(2 + b0.1 as int, ls.len() as int));
            lemma_len_branch(ls.subrange(2 + b1.1 as int, ls.len() as int));
        }
    }
}

proof fn lemma_split_len(s: Seq<u8>)
    ensures
        spec_split(s).len() <= s.len() + 1,
    decreases s.len(),
{
    lemma_first_nl_bounds(s);
    if s.len() > 0 {
        let line_end = first_nl(s);
        if line_end < s.len() {
            lemma_split_len(s.subrange(line_end + 1, s.len() as int));
        }
    }
}

// ---------------------------------------------------------------------------
// The passes preserve ASCII text
// ---------------------------------------------------------------------------

/// Every byte below 128.
pub open spec fn bytes_ascii(b: Seq<u8>) -> bool {
    forall|i: int| 0 <= i < b.len() ==> b[i] < 128
}

/// Every line all-ASCII.
pub open spec fn lines_ascii(ls: Seq<Seq<u8>>) -> bool {
    forall|i: int| 0 <= i < ls.len() ==> bytes_ascii(#[trigger] ls[i])
}

proof fn lemma_split_ascii(s: Seq<u8>)
    requires
        bytes_ascii(s),
    ensures
        lines_ascii(spec_split(s)),
    decreases s.len(),
{
    if s.len() > 0 {
        lemma_first_nl_bounds(s);
        let line_end = first_nl(s);
        let raw = s.subrange(0, line_end);
        assert(bytes_ascii(raw));
        if raw.len() > 0 && raw.last() == 13 && line_end < s.len() {
            assert(bytes_ascii(raw.drop_last()));
        }
        if line_end < s.len() {
            let rest = s.subrange(line_end + 1, s.len() as int);
            assert(bytes_ascii(rest));
            lemma_split_ascii(rest);
            assert forall|i: int| 0 <= i < spec_split(s).len() implies bytes_ascii(
                #[trigger] spec_split(s)[i],
            ) by {
                if i > 0 {
                    assert(spec_split(s)[i] == spec_split(rest)[i - 1]);
                }
            }
        }
    }
}

proof fn lemma_unlines_ascii(ls: Seq<Seq<u8>>)
    requires
        lines_ascii(ls),
    ensures
        bytes_ascii(spec_unlines(ls)),
    decreases ls.len(),
{
    if ls.len() > 0 {
        assert(lines_ascii(ls.drop_first())) by {
            assert forall|i: int| 0 <= i < ls.drop_first().len() implies bytes_ascii(
                #[trigger] ls.drop_first()[i],
            ) by {
                assert(ls.drop_first()[i] == ls[i + 1]);
            }
        }
        lemma_unlines_ascii(ls.drop_first());
        assert(bytes_ascii(ls[0]));
    }
}

proof fn lemma_dec_u64_ascii(n: nat)
    ensures
        bytes_ascii(dec_bytes_u64(n)),
    decreases n,
{
    if n >= 10 {
        lemma_dec_u64_ascii(n / 10);
    }
}

proof fn lemma_dec_i64_ascii(n: int)
    ensures
        bytes_ascii(dec_bytes_i64(n)),
{
    if n >= 0 {
        lemma_dec_u64_ascii(n as nat);
    } else {
        lemma_dec_u64_ascii((-n) as nat);
    }
}

proof fn lemma_const_token_ascii()
    ensures
        bytes_ascii(ascii_bytes("i64.const "@)),
{
    reveal_strlit("i64.const ");
    assert(vstd::string::is_ascii("i64.const "));
}

/// The constant line the folding and propagation passes construct.
proof fn lemma_const_line_ascii(indent: nat, v: int)
    ensures
        bytes_ascii(spaces(indent) + ascii_bytes("i64.const "@) + dec_bytes_i64(v)),
{
    lemma_const_token_ascii();
    lemma_dec_i64_ascii(v);
}

proof fn lemma_ascii_dead(ls: Seq<Seq<u8>>, skip: nat)
    requires
        lines_ascii(ls),
    ensures
        lines_ascii(sp_dead(ls, skip).0),
    decreases ls.len(),
{
    if ls.len() > 0 {
        let rest = ls.drop_first();
        assert(lines_ascii(rest)) by {
            assert forall|i: int| 0 <= i < rest.len() implies bytes_ascii(#[trigger] rest[i]) by {
                assert(rest[i] == ls[i + 1]);
            }
        }
        lemma_ascii_dead(rest, 0);
        lemma_ascii_dead(rest, 1);
        lemma_ascii_dead(rest, skip + 1);
        lemma_ascii_dead(rest, skip);
        lemma_ascii_dead(rest, (skip - 1) as nat);
        assert(bytes_ascii(ls[0]));
    }
}

proof fn lemma_ascii_peephole(ls: Seq<Seq<u8>>)
    requires
        lines_ascii(ls),
    ensures
        lines_ascii(sp_peephole(ls).0),
    decreases ls.len(),
{
    if ls.len() > 0 {
        assert(lines_ascii(ls.drop_first())) by {
            assert forall|i: int| 0 <= i < ls.drop_first().len() implies bytes_ascii(
                #[trigger] ls.drop_first()[i],
            ) by {
                assert(ls.drop_first()[i] == ls[i + 1]);
            }
        }
        lemma_ascii_peephole(ls.drop_first());
        if ls.len() > 1 {
            let suffix2 = ls.subrange(2, ls.len() as int);
            assert(lines_ascii(suffix2)) by {
                assert forall|i: int| 0 <= i < suffix2.len() implies bytes_ascii(
                    #[trigger] suffix2[i],
                ) by {
                    assert(suffix2[i] == ls[i + 2]);
                }
            }
            lemma_ascii_peephole(suffix2);
        }
        if ls.len() > 2 {
            let suffix3 = ls.subrange(3, ls.len() as int);
            assert(lines_ascii(suffix3)) by {
                assert forall|i: int| 0 <= i < suffix3.len() implies bytes_ascii(
                    #[trigger] suffix3[i],
                ) by {
                    assert(suffix3[i] == ls[i + 3]);
                }
            }
            lemma_ascii_peephole(suffix3);
        }
        lemma_const_line_ascii(leading_ws(ls[0]), 0);
        assert forall|v: i64| bytes_ascii(
            spaces(leading_ws(ls[0])) + ascii_bytes("i64.const "@) + dec_bytes_i64(v as int),
        ) by {
            lemma_const_line_ascii(leading_ws(ls[0]), v as int);
        }
        assert(bytes_ascii(ls[0]));
    }
}

proof fn lemma_ascii_red_store(ls: Seq<Seq<u8>>)
    requires
        lines_ascii(ls),
    ensures
        lines_ascii(sp_red_store(ls).0),
    decreases ls.len(),
{
    if ls.len() > 0 {
        assert(lines_ascii(ls.drop_first())) by {
            assert forall|i: int| 0 <= i < ls.drop_first().len() implies bytes_ascii(
                #[trigger] ls.drop_first()[i],
            ) by {
                assert(ls.drop_first()[i] == ls[i + 1]);
            }
        }
        lemma_ascii_red_store(ls.drop_first());
        assert(bytes_ascii(ls[0]));
    }
}

proof fn lemma_ascii_red_load(ls: Seq<Seq<u8>>, seen: Seq<bool>)
    requires
        lines_ascii(ls),
    ensures
        lines_ascii(sp_red_load(ls, seen).0),
    decreases ls.len(),
{
    if ls.len() > 0 {
        let t0 = spec_trim(ls[0]);
        let rest = ls.drop_first();
        assert(lines_ascii(rest)) by {
            assert forall|i: int| 0 <= i < rest.len() implies bytes_ascii(#[trigger] rest[i]) by {
                assert(rest[i] == ls[i + 1]);
            }
        }
        lemma_ascii_red_load(rest, false32());
        lemma_ascii_red_load(rest, seen);
        if has_prefix(t0, ascii_bytes("global.get $x"@)) && spec_parse_reg(
            t0.subrange(13, t0.len() as int),
        ) is Some {
            let n = spec_parse_reg(t0.subrange(13, t0.len() as int))->0;
            lemma_ascii_red_load(rest, seen.update(n as int, true));
        }
        assert(bytes_ascii(ls[0]));
    }
}

proof fn lemma_ascii_const_prop(ls: Seq<Seq<u8>>, consts: Seq<Option<i64>>, prev: Option<i64>)
    requires
        lines_ascii(ls),
    ensures
        lines_ascii(sp_const_prop(ls, consts, prev).0),
    decreases ls.len(),
{
    if ls.len() > 0 {
        let t0 = spec_trim(ls[0]);
        let rest = ls.drop_first();
        assert(lines_ascii(rest)) by {
            assert forall|i: int| 0 <= i < rest.len() implies bytes_ascii(#[trigger] rest[i]) by {
                assert(rest[i] == ls[i + 1]);
            }
        }
        lemma_ascii_const_prop(rest, none32(), Option::<i64>::None);
        if has_prefix(t0, ascii_bytes("global.get $x"@)) && spec_parse_reg(
            t0.subrange(13, t0.len() as int),
        ) is Some && consts[spec_parse_reg(t0.subrange(13, t0.len() as int))->0 as int] is Some {
            let v = consts[spec_parse_reg(t0.subrange(13, t0.len() as int))->0 as int]->0;
            lemma_ascii_const_prop(rest, consts, Some(v));
            lemma_const_line_ascii(leading_ws(ls[0]), v as int);
        }
        if has_prefix(t0, ascii_bytes("global.set $x"@)) && spec_parse_reg(
            t0.subrange(13, t0.len() as int),
        ) is Some {
            let n = spec_parse_reg(t0.subrange(13, t0.len() as int))->0;
            lemma_ascii_const_prop(rest, consts.update(n as int, prev), Option::<i64>::None);
        }
        lemma_ascii_const_prop(
            rest,
            consts,
            if has_prefix(t0, ascii_bytes("i64.const "@)) && spec_parse_const(
                t0.subrange(10, t0.len() as int),
            ) is Some {
                spec_parse_const(t0.subrange(10, t0.len() as int))
            } else {
                Option::<i64>::None
            },
        );
        lemma_ascii_const_prop(rest, consts, Option::<i64>::None);
        assert(bytes_ascii(ls[0]));
    }
}

proof fn lemma_ascii_sb_scan(ls: Seq<Seq<u8>>, depth: nat, want_else: bool, in_else: bool)
    requires
        lines_ascii(ls),
    ensures
        lines_ascii(sb_scan(ls, depth, want_else, in_else).0),
    decreases ls.len(),
{
    if ls.len() > 0 {
        let rest = ls.drop_first();
        assert(lines_ascii(rest)) by {
            assert forall|i: int| 0 <= i < rest.len() implies bytes_ascii(#[trigger] rest[i]) by {
                assert(rest[i] == ls[i + 1]);
            }
        }
        lemma_ascii_sb_scan(rest, depth + 1, want_else, in_else);
        lemma_ascii_sb_scan(rest, (depth - 1) as nat, want_else, in_else);
        lemma_ascii_sb_scan(rest, depth, want_else, true);
        lemma_ascii_sb_scan(rest, depth, want_else, in_else);
        assert(bytes_ascii(ls[0]));
    }
}

proof fn lemma_ascii_branch(ls: Seq<Seq<u8>>)
    requires
        lines_ascii(ls),
    ensures
        lines_ascii(sp_branch(ls).0),
    decreases ls.len(),
{
    if ls.len() > 0 {
        assert(lines_ascii(ls.drop_first())) by {
            assert forall|i: int| 0 <= i < ls.drop_first().len() implies bytes_ascii(
                #[trigger] ls.drop_first()[i],
            ) by {
                assert(ls.drop_first()[i] == ls[i + 1]);
            }
        }
        lemma_ascii_branch(ls.drop_first());
        if ls.len() > 1 {
            let region = ls.subrange(2, ls.len() as int);
            assert(lines_ascii(region)) by {
                assert forall|i: int| 0 <= i < region.len() implies bytes_ascii(
                    #[trigger] region[i],
                ) by {
                    assert(region[i] == ls[i + 2]);
                }
            }
            lemma_sb_scan_consumed(region, 1, true, false);
            lemma_sb_scan_consumed(region, 1, false, false);
            lemma_ascii_sb_scan(region, 1, true, false);
            lemma_ascii_sb_scan(region, 1, false, false);
            let b0 = sb_scan(region, 1, true, false);
            let b1 = sb_scan(region, 1, false, false);
            let rest0 = ls.subrange(2 + b0.1 as int, ls.len() as int);
            assert(lines_ascii(rest0)) by {
                assert forall|i: int| 0 <= i < rest0.len() implies bytes_ascii(
                    #[trigger] rest0[i],
                ) by {
                    assert(rest0[i] == ls[i + 2 + b0.1]);
                }
            }
            lemma_ascii_branch(rest0);
            let rest1 = ls.subrange(2 + b1.1 as int, ls.len() as int);
            assert(lines_ascii(rest1)) by {
                assert forall|i: int| 0 <= i < rest1.len() implies bytes_ascii(
                    #[trigger] rest1[i],
                ) by {
                    assert(rest1[i] == ls[i + 2 + b1.1]);
                }
            }
            lemma_ascii_branch(rest1);
        }
        assert(bytes_ascii(ls[0]));
    }
}

/// One aggressive iteration keeps ASCII lines ASCII.
proof fn lemma_ascii_iter(ls: Seq<Seq<u8>>)
    requires
        lines_ascii(ls),
    ensures
        lines_ascii(sp_iter(ls).0),
{
    lemma_ascii_const_prop(ls, none32(), Option::<i64>::None);
    let r1 = sp_const_prop(ls, none32(), Option::<i64>::None);
    lemma_ascii_peephole(r1.0);
    let r2 = sp_peephole(r1.0);
    lemma_ascii_red_store(r2.0);
    let r3 = sp_red_store(r2.0);
    lemma_ascii_red_load(r3.0, false32());
    let r4 = sp_red_load(r3.0, false32());
    lemma_ascii_branch(r4.0);
    let r5 = sp_branch(r4.0);
    lemma_ascii_dead(r5.0, 0);
}

} // verus!
