//! The guest address space: loadable segments collected from ELF sections
//! and their placement in linear memory.
//!
//! The map records, per segment, the linear offset its bytes start at.  The
//! canonical construction maps virtual address `v` to linear offset
//! `memory_base + (v - vaddr_base)`, with `vaddr_base` pinned to zero so low
//! and null addresses read back zero bytes.

use vstd::prelude::*;
use vstd::string::StrSliceExecFns;

use crate::frontend::elf::{spec_name_bytes, ElfFile, HeaderPt2, SectionHeader};

verus! {

/// A memory segment to load into linear memory: its guest virtual address,
/// its size, its initial bytes (`None` for zero-initialized regions), and
/// its protection.
#[derive(Debug, Clone)]
pub struct MemorySegment {
    /// Guest virtual address where this segment lives.
    pub vaddr: u64,
    /// Size of the segment in bytes.
    pub size: usize,
    /// Bytes to load; `None` for zero-initialized segments.
    pub data: Option<Vec<u8>>,
    /// Whether the segment is writable.
    pub writable: bool,
    /// Whether the segment is executable.
    pub executable: bool,
}

/// Maps virtual addresses of the guest binary to linear-memory offsets.
#[derive(Debug)]
pub struct AddressMap {
    /// The collected segments.
    pub segments: Vec<MemorySegment>,
    /// Linear offset of each segment's bytes, index for index.
    pub offsets: Vec<u32>,
    /// Linear offset where guest memory starts.
    pub memory_base: u32,
    /// Smallest virtual address mapped; the address of linear `memory_base`.
    pub min_vaddr: u64,
}

impl AddressMap {
    /// One linear offset per segment.
    pub open spec fn wf(self) -> bool {
        self.segments@.len() == self.offsets@.len()
    }

    pub open spec fn spec_segments(self) -> Seq<MemorySegment> {
        self.segments@
    }

    pub open spec fn spec_offsets(self) -> Seq<u32> {
        self.offsets@
    }

    pub open spec fn spec_min_vaddr(self) -> u64 {
        self.min_vaddr
    }

    /// An empty map with the given linear base.
    pub fn new(memory_base: u32) -> (r: AddressMap)
        ensures
            r.wf(),
            r.spec_segments().len() == 0,
            r.memory_base == memory_base,
            r.spec_min_vaddr() == 0,
    {
        AddressMap { segments: Vec::new(), offsets: Vec::new(), memory_base, min_vaddr: 0 }
    }

    /// Record a segment together with the linear offset its bytes start at.
    pub fn add_segment(&mut self, segment: MemorySegment, offset: u32)
        requires
            old(self).wf(),
        ensures
            final(self).wf(),
            final(self).spec_segments() == old(self).spec_segments().push(segment),
            final(self).spec_offsets() == old(self).spec_offsets().push(offset),
            final(self).memory_base == old(self).memory_base,
            final(self).spec_min_vaddr() == old(self).spec_min_vaddr(),
    {
        self.segments.push(segment);
        self.offsets.push(offset);
    }

    /// The segments collected so far.
    pub fn segments(&self) -> (r: &[MemorySegment])
        ensures
            r@ == self.spec_segments(),
    {
        self.segments.as_slice()
    }

    /// The virtual address mapped to `memory_base`.
    pub fn vaddr_base(&self) -> (r: u64)
        ensures
            r == self.spec_min_vaddr(),
    {
        self.min_vaddr
    }

    /// Translate a virtual address: the first recorded segment containing it
    /// answers with its linear offset plus the offset within the segment.
    #[verifier::loop_isolation(false)]
    pub fn vaddr_to_linear(&self, vaddr: u64) -> (r: Option<u32>)
        requires
            self.wf(),
        ensures
            r == spec_find_linear(self.spec_segments(), self.spec_offsets(), vaddr),
    {
        let n = self.segments.len();
        proof {
            assert(self.spec_segments().skip(0) =~= self.spec_segments());
            assert(self.spec_offsets().skip(0) =~= self.spec_offsets());
        }
        let mut i: usize = 0;
        while i < n
            invariant
                i <= n,
                n == self.spec_segments().len(),
                self.wf(),
                spec_find_linear(self.spec_segments(), self.spec_offsets(), vaddr)
                    == spec_find_linear(
                    self.spec_segments().skip(i as int),
                    self.spec_offsets().skip(i as int),
                    vaddr,
                ),
            decreases n - i,
        {
            let seg = &self.segments[i];
            proof {
                assert(self.spec_segments().skip(i as int)[0] == self.spec_segments()[i as int]);
                assert(self.spec_offsets().skip(i as int)[0] == self.spec_offsets()[i as int]);
                assert(self.spec_segments().skip(i as int).drop_first() =~= self.spec_segments().skip(
                    i as int + 1,
                ));
                assert(self.spec_offsets().skip(i as int).drop_first() =~= self.spec_offsets().skip(
                    i as int + 1,
                ));
            }
            if vaddr >= seg.vaddr && seg.vaddr <= u64::MAX - seg.size as u64 && vaddr < seg.vaddr
                + seg.size as u64 {
                let diff = vaddr - seg.vaddr;
                let base = self.offsets[i];
                if diff <= 0xffffffffu64 {
                    let within = diff as u32;
                    if base <= u32::MAX - within {
                        return Some(base + within);
                    } else {
                        return Option::<u32>::None;
                    }
                } else {
                    return Option::<u32>::None;
                }
            }
            i = i + 1;
        }
        proof {
            assert(self.spec_segments().skip(n as int) =~= Seq::<MemorySegment>::empty());
        }
        Option::<u32>::None
    }

    /// The `(offset, bytes)` pairs to write into linear memory: each
    /// segment's bytes padded with zeros up to its size, or all zeros for a
    /// segment without data.
    #[verifier::loop_isolation(false)]
    pub fn get_memory_initializers(&self) -> (r: Vec<(u32, Vec<u8>)>)
        requires
            self.wf(),
        ensures
            r@.len() == self.spec_segments().len(),
            forall|i: int|
                0 <= i < r@.len() ==> r@[i].0 == self.spec_offsets()[i] && r@[i].1@
                    == spec_init_bytes(self.spec_segments()[i]),
    {
        let n = self.segments.len();
        let mut r: Vec<(u32, Vec<u8>)> = Vec::new();
        let mut i: usize = 0;
        while i < n
            invariant
                i <= n,
                n == self.spec_segments().len(),
                self.wf(),
                r@.len() == i,
                forall|j: int|
                    0 <= j < i ==> r@[j].0 == self.spec_offsets()[j] && r@[j].1@
                        == spec_init_bytes(self.spec_segments()[j]),
            decreases n - i,
        {
            let seg = &self.segments[i];
            let size = seg.size;
            let mut bytes: Vec<u8> = Vec::new();
            match &seg.data {
                Some(d) => {
                    let dn = d.len();
                    let mut k: usize = 0;
                    while k < dn
                        invariant
                            k <= dn,
                            dn == d@.len(),
                            bytes@ == d@.subrange(0, k as int),
                        decreases dn - k,
                    {
                        bytes.push(d[k]);
                        proof {
                            assert(bytes@ =~= d@.subrange(0, k as int + 1));
                        }
                        k = k + 1;
                    }
                    proof {
                        assert(bytes@ =~= d@);
                        assert(d@ + zero_bytes(0) =~= d@);
                    }
                    while bytes.len() < size
                        invariant
                            bytes@ == d@ + zero_bytes((bytes@.len() - d@.len()) as nat),
                            bytes@.len() >= d@.len(),
                            bytes@.len() <= size || bytes@.len() == d@.len(),
                        decreases size - bytes.len(),
                    {
                        bytes.push(0);
                        proof {
                            assert(bytes@ =~= d@ + zero_bytes((bytes@.len() - d@.len()) as nat));
                        }
                    }
                    proof {
                        if d@.len() < size {
                            assert(bytes@.len() == size as int);
                            assert(bytes@ =~= spec_init_bytes(self.spec_segments()[i as int]));
                        } else {
                            assert(bytes@ =~= d@ + zero_bytes(0));
                            assert(bytes@ =~= spec_init_bytes(self.spec_segments()[i as int]));
                        }
                    }
                },
                Option::None => {
                    let mut k: usize = 0;
                    proof {
                        assert(bytes@ =~= zero_bytes(0));
                    }
                    while k < size
                        invariant
                            k <= size,
                            bytes@ == zero_bytes(k as nat),
                        decreases size - k,
                    {
                        bytes.push(0);
                        proof {
                            assert(bytes@ =~= zero_bytes(k as nat + 1));
                        }
                        k = k + 1;
                    }
                    proof {
                        assert(bytes@ =~= spec_init_bytes(self.spec_segments()[i as int]));
                    }
                },
            }
            let off = self.offsets[i];
            let ghost snap = bytes@;
            r.push((off, bytes));
            proof {
                assert(r@[i as int].0 == self.spec_offsets()[i as int]);
                assert(r@[i as int].1@ == snap);
            }
            i = i + 1;
        }
        r
    }

    /// Bytes of linear memory the segments need, rounded up to whole 64 KiB
    /// pages; the all-ones page boundary caps what a 32-bit offset can hold.
    #[verifier::loop_isolation(false)]
    pub fn required_memory_size(&self) -> (r: u32)
        requires
            self.wf(),
        ensures
            r == spec_required_size(*self),
    {
        let n = self.segments.len();
        let mut mx: u64 = self.memory_base as u64;
        let mut i: usize = 0;
        while i < n
            invariant
                i <= n,
                n == self.spec_segments().len(),
                self.wf(),
                mx == spec_max_end(*self, i as int),
                mx <= 0xffffffffffffu64,
            decreases n - i,
        {
            let off64 = self.offsets[i] as u64;
            let sz64 = self.segments[i].size as u64;
            if sz64 > 0xffffffffffffu64 - off64 {
                mx = 0xffffffffffffu64;
            } else {
                let end = off64 + sz64;
                if end > mx {
                    mx = end;
                }
            }
            i = i + 1;
        }
        let rounded: u64 = ((mx + 0xffff) / 0x10000) * 0x10000;
        if rounded <= 0xffffffffu64 {
            rounded as u32
        } else {
            0xffff0000u32
        }
    }

    /// 64 KiB pages needed.
    pub fn required_pages(&self) -> (r: u32)
        requires
            self.wf(),
        ensures
            r == spec_required_size(*self) / 0x10000,
    {
        self.required_memory_size() / (64 * 1024)
    }
}

/// `n` zero bytes.
pub open spec fn zero_bytes(n: nat) -> Seq<u8> {
    Seq::new(n, |i: int| 0u8)
}

/// The bytes a segment loads: its data padded with zeros to its size, or all
/// zeros when it carries none.
pub open spec fn spec_init_bytes(seg: MemorySegment) -> Seq<u8> {
    match seg.data {
        Some(d) => if d@.len() < seg.size {
            d@ + zero_bytes((seg.size - d@.len()) as nat)
        } else {
            d@
        },
        Option::None => zero_bytes(seg.size as nat),
    }
}

/// First segment containing `vaddr` answers; a segment whose range wraps, or
/// whose linear end leaves 32 bits, does not translate.
pub open spec fn spec_find_linear(segs: Seq<MemorySegment>, offs: Seq<u32>, vaddr: u64) -> Option<
    u32,
>
    decreases segs.len(),
{
    if segs.len() == 0 {
        Option::<u32>::None
    } else {
        let seg = segs[0];
        if vaddr >= seg.vaddr && seg.vaddr + seg.size <= u64::MAX && vaddr < seg.vaddr
            + seg.size {
            if offs[0] + (vaddr - seg.vaddr) <= u32::MAX {
                Some((offs[0] + (vaddr - seg.vaddr)) as u32)
            } else {
                Option::<u32>::None
            }
        } else {
            spec_find_linear(segs.drop_first(), offs.drop_first(), vaddr)
        }
    }
}

/// The largest linear end among the first `i` segments, the memory base to
/// start with, capped at 48 bits.
pub open spec fn spec_max_end(m: AddressMap, i: int) -> u64
    decreases i,
{
    if i <= 0 {
        m.memory_base as u64
    } else {
        let end = m.spec_offsets()[i - 1] + m.spec_segments()[i - 1].size;
        let prev = spec_max_end(m, i - 1);
        if end > prev && end <= 0xffffffffffffu64 {
            end as u64
        } else if end > prev {
            0xffffffffffffu64
        } else {
            prev
        }
    }
}

/// The rounded page size the map requires.
pub open spec fn spec_required_size(m: AddressMap) -> u32 {
    let mx = spec_max_end(m, m.spec_segments().len() as int);
    let rounded = ((mx + 0xffff) / 0x10000) * 0x10000;
    if rounded <= 0xffffffff {
        rounded as u32
    } else {
        0xffff0000u32
    }
}

/// Whether every segment's linear offset follows the canonical placement
/// `memory_base + (vaddr - vaddr_base)`.
pub open spec fn offsets_canonical(m: AddressMap) -> bool {
    forall|i: int|
        0 <= i < m.spec_segments().len() ==> #[trigger] m.spec_offsets()[i] == m.memory_base
            + (m.spec_segments()[i].vaddr - m.spec_min_vaddr())
}

/// Law of the address map: under the canonical placement, every address a
/// segment covers translates to `memory_base + (vaddr - vaddr_base)` -- the
/// linear cell the emitted module's address helper reads.
pub proof fn lemma_canonical_translation(m: AddressMap, vaddr: u64)
    requires
        m.wf(),
        offsets_canonical(m),
        spec_find_linear(m.spec_segments(), m.spec_offsets(), vaddr) is Some,
    ensures
        spec_find_linear(m.spec_segments(), m.spec_offsets(), vaddr)->0 == m.memory_base + (vaddr
            - m.spec_min_vaddr()),
{
    lemma_canonical_translation_rec(m.spec_segments(), m.spec_offsets(), vaddr, m.memory_base,
        m.spec_min_vaddr());
}

proof fn lemma_canonical_translation_rec(
    segs: Seq<MemorySegment>,
    offs: Seq<u32>,
    vaddr: u64,
    base: u32,
    minv: u64,
)
    requires
        segs.len() == offs.len(),
        forall|i: int|
            0 <= i < segs.len() ==> #[trigger] offs[i] == base + (segs[i].vaddr - minv),
        spec_find_linear(segs, offs, vaddr) is Some,
    ensures
        spec_find_linear(segs, offs, vaddr)->0 == base + (vaddr - minv),
    decreases segs.len(),
{
    let seg = segs[0];
    if vaddr >= seg.vaddr && seg.vaddr + seg.size <= u64::MAX && vaddr < seg.vaddr + seg.size
        && offs[0] + (vaddr - seg.vaddr) <= u32::MAX {
        assert(offs[0] == base + (seg.vaddr - minv));
    } else {
        assert(segs.drop_first().len() == offs.drop_first().len());
        assert(forall|i: int|
            0 <= i < segs.drop_first().len() ==> #[trigger] offs.drop_first()[i] == base + (
            segs.drop_first()[i].vaddr - minv));
        lemma_canonical_translation_rec(segs.drop_first(), offs.drop_first(), vaddr, base, minv);
    }
}

/// Whether `needle` occurs as a contiguous run inside `hay`.
pub open spec fn spec_contains(hay: Seq<u8>, needle: Seq<u8>) -> bool {
    exists|i: int|
        0 <= i <= hay.len() - needle.len() && #[trigger] hay.subrange(i, i + needle.len())
            == needle
}

#[verifier::loop_isolation(false)]
fn contains_bytes(hay: &Vec<u8>, needle: &[u8]) -> (r: bool)
    ensures
        r == spec_contains(hay@, needle@),
{
    if needle.len() > hay.len() {
        proof {
            assert(!spec_contains(hay@, needle@));
        }
        return false;
    }
    if needle.len() == 0 {
        proof {
            assert(hay@.subrange(0, 0 + needle@.len() as int) =~= needle@);
        }
        return true;
    }
    let stop = hay.len() - needle.len();
    let mut i: usize = 0;
    while i <= stop
        invariant
            i <= stop + 1,
            forall|k: int|
                0 <= k < i ==> #[trigger] hay@.subrange(k, k + needle@.len()) != needle@,
        decreases stop + 1 - i,
    {
        let mut j: usize = 0;
        let mut ok = true;
        while j < needle.len()
            invariant
                j <= needle.len(),
                i + needle.len() <= hay.len(),
                ok ==> forall|k: int| 0 <= k < j ==> hay@[i + k] == needle@[k],
                !ok ==> hay@.subrange(i as int, i + needle@.len()) != needle@,
            decreases needle.len() - j,
        {
            if hay[i + j] != needle[j] {
                ok = false;
                proof {
                    assert(hay@.subrange(i as int, i + needle@.len())[j as int] != needle@[j as int]);
                }
                break;
            }
            j = j + 1;
        }
        if ok {
            proof {
                assert(hay@.subrange(i as int, i + needle@.len()) =~= needle@);
            }
            return true;
        }
        i = i + 1;
    }
    proof {
        assert(!spec_contains(hay@, needle@));
    }
    false
}

/// The bytes of an ASCII name token.
pub open spec fn name_token(s: Seq<char>) -> Seq<u8> {
    Seq::new(s.len(), |i: int| s[i] as u8)
}

fn token(s: &str) -> (r: &[u8])
    requires
        vstd::string::is_ascii(s),
    ensures
        r@ == name_token(s@),
{
    proof {
        broadcast use vstd::string::is_ascii_spec_bytes;
    }
    let b = s.as_bytes();
    proof {
        assert(b@ =~= name_token(s@));
    }
    b
}

/// Whether a section becomes a segment: allocated, nonzero, addressable in
/// 32 bits with a size a host vector can hold, and named after a text,
/// data, read-only-data or zero-initialized region.
pub open spec fn spec_section_kept(h2: HeaderPt2, input: Seq<u8>, sec: SectionHeader) -> bool {
    let nb = spec_name_bytes(h2, input, sec);
    sec.spec_size() > 0 && sec.spec_flags() & 2 != 0 && sec.spec_size() <= usize::MAX as u64
        && sec.spec_address() <= u32::MAX as u64 && (spec_contains(nb, name_token("bss"@))
        || spec_contains(nb, name_token("data"@)) || spec_contains(nb, name_token("rodata"@))
        || spec_contains(nb, name_token("text"@)))
}

/// The indices of the kept sections, in section order, from `i` upward.
pub open spec fn spec_kept_sections(
    h2: HeaderPt2,
    input: Seq<u8>,
    secs: Seq<SectionHeader>,
    i: int,
) -> Seq<int>
    decreases secs.len() - i,
{
    if i < 0 || i >= secs.len() {
        Seq::<int>::empty()
    } else if spec_section_kept(h2, input, secs[i]) {
        seq![i] + spec_kept_sections(h2, input, secs, i + 1)
    } else {
        spec_kept_sections(h2, input, secs, i + 1)
    }
}

/// The file bytes a section loads: `offset` to `offset + size`, empty for a
/// null section or a range that leaves the file.
pub open spec fn spec_raw(input: Seq<u8>, sec: SectionHeader) -> Seq<u8> {
    if sec.spec_section_type_field() != 0 && sec.spec_offset() + sec.spec_size() <= input.len() {
        input.subrange(sec.spec_offset() as int, sec.spec_offset() + sec.spec_size())
    } else {
        Seq::<u8>::empty()
    }
}

/// What the segment built from a kept section holds: the section's address,
/// size and protection; its file bytes as data, or no data for a
/// zero-initialized region or an empty payload; and the canonical linear
/// offset.
pub open spec fn spec_segment_matches(
    h2: HeaderPt2,
    input: Seq<u8>,
    sec: SectionHeader,
    seg: MemorySegment,
    off: u32,
) -> bool {
    let nb = spec_name_bytes(h2, input, sec);
    let raw = spec_raw(input, sec);
    &&& seg.vaddr == sec.spec_address()
    &&& seg.size == sec.spec_size()
    &&& seg.writable == (sec.spec_flags() & 1 != 0)
    &&& seg.executable == (sec.spec_flags() & 4 != 0)
    &&& off == sec.spec_address() as u32
    &&& if spec_contains(nb, name_token("bss"@)) || raw.len() == 0 {
        seg.data is None
    } else {
        seg.data is Some && seg.data->0@ == raw
    }
}

impl AddressMap {
    /// Collect the loadable sections of the binary: each allocated,
    /// non-empty section whose name mentions `text`, `data`, `rodata` or
    /// `bss` becomes a segment, placed canonically at
    /// `memory_base + (vaddr - vaddr_base)` with `vaddr_base` and
    /// `memory_base` both zero.  Sections whose bytes or placement leave
    /// 32 bits are left out rather than misplaced.
    #[verifier::loop_isolation(false)]
    pub fn from_sections(elf_file: &ElfFile, sections: &Vec<SectionHeader>) -> (r: AddressMap)
        ensures
            r.wf(),
            r.memory_base == 0,
            r.spec_min_vaddr() == 0,
            offsets_canonical(r),
            ({
                let kept = spec_kept_sections(
                    elf_file.header_part2,
                    elf_file.input@,
                    sections@,
                    0,
                );
                &&& r.spec_segments().len() == kept.len()
                &&& forall|j: int|
                    0 <= j < kept.len() ==> spec_segment_matches(
                        elf_file.header_part2,
                        elf_file.input@,
                        sections@[kept[j]],
                        #[trigger] r.spec_segments()[j],
                        r.spec_offsets()[j],
                    )
            }),
    {
        let ghost h2 = elf_file.header_part2;
        let ghost inp = elf_file.input@;
        proof {
            reveal_strlit("bss");
            reveal_strlit("data");
            reveal_strlit("rodata");
            reveal_strlit("text");
            assert(vstd::string::is_ascii("bss"));
            assert(vstd::string::is_ascii("data"));
            assert(vstd::string::is_ascii("rodata"));
            assert(vstd::string::is_ascii("text"));
        }
        let t_bss = token("bss");
        let t_data = token("data");
        let t_rodata = token("rodata");
        let t_text = token("text");
        let mut map = AddressMap::new(0);
        let ghost mut kept: Seq<int> = Seq::<int>::empty();
        proof {
            assert(offsets_canonical(map));
        }
        let n = sections.len();
        let mut i: usize = 0;
        while i < n
            invariant
                i <= n,
                n == sections@.len(),
                map.wf(),
                map.memory_base == 0,
                map.spec_min_vaddr() == 0,
                offsets_canonical(map),
                spec_kept_sections(h2, inp, sections@, 0) == kept + spec_kept_sections(
                    h2,
                    inp,
                    sections@,
                    i as int,
                ),
                map.spec_segments().len() == kept.len(),
                forall|j: int|
                    0 <= j < kept.len() ==> spec_segment_matches(
                        h2,
                        inp,
                        sections@[kept[j]],
                        #[trigger] map.spec_segments()[j],
                        map.spec_offsets()[j],
                    ),
            decreases n - i,
        {
            let section = sections[i];
            let section_addr = section.get_address();
            let section_size64 = section.get_size();
            let section_flags = section.get_flags();
            let is_alloc = (section_flags & 0x2) != 0;
            let is_write = (section_flags & 0x1) != 0;
            let is_exec = (section_flags & 0x4) != 0;
            let mut taken = false;
            if section_size64 > 0 && is_alloc && section_size64 <= usize::MAX as u64
                && section_addr <= u32::MAX as u64 {
                let nb = section.name_bytes(elf_file);
                let is_bss = contains_bytes(&nb, t_bss);
                let is_data = contains_bytes(&nb, t_data) || contains_bytes(&nb, t_rodata);
                let is_text = contains_bytes(&nb, t_text);
                if is_bss || is_data || is_text {
                    taken = true;
                    let linear_offset = section_addr as u32;
                    let section_data: Option<Vec<u8>> = if is_bss {
                        Option::<Vec<u8>>::None
                    } else {
                        let raw = section.raw_data(elf_file);
                        if raw.len() == 0 {
                            Option::<Vec<u8>>::None
                        } else {
                            Some(raw)
                        }
                    };
                    let segment = MemorySegment {
                        vaddr: section_addr,
                        size: section_size64 as usize,
                        data: section_data,
                        writable: is_write,
                        executable: is_exec,
                    };
                    map.add_segment(segment, linear_offset);
                    proof {
                        kept = kept.push(i as int);
                        assert(spec_section_kept(h2, inp, sections@[i as int]));
                        assert(spec_segment_matches(
                            h2,
                            inp,
                            sections@[i as int],
                            segment,
                            linear_offset,
                        ));
                        assert(map.spec_offsets()[map.spec_segments().len() - 1]
                            == linear_offset);
                        assert(offsets_canonical(map));
                        assert(spec_kept_sections(h2, inp, sections@, i as int) == seq![i as int]
                            + spec_kept_sections(h2, inp, sections@, i as int + 1));
                        assert(kept + spec_kept_sections(h2, inp, sections@, i as int + 1)
                            =~= spec_kept_sections(h2, inp, sections@, 0));
                    }
                }
            }
            if !taken {
                proof {
                    assert(!spec_section_kept(h2, inp, sections@[i as int]));
                    assert(spec_kept_sections(h2, inp, sections@, i as int)
                        == spec_kept_sections(h2, inp, sections@, i as int + 1));
                }
            }
            i = i + 1;
        }
        proof {
            assert(spec_kept_sections(h2, inp, sections@, n as int) =~= Seq::<int>::empty());
            assert(kept + Seq::<int>::empty() =~= kept);
        }
        map
    }
}

} // verus!
