//! The frontend code cache: decoded instructions, basic blocks, and the WAT
//! text generated for them, each keyed by guest program counter.
//!
//! Entries live in association lists whose whole content each operation's
//! contract pins.  An insert appends; a lookup answers with the newest entry
//! under the address; a full cache is cleared before an insert; and range
//! invalidation keeps exactly the entries the range does not touch.

use vstd::prelude::*;

use crate::frontend::instruction::Instruction;

verus! {

/// A basic block: a run of instructions with one entry and one exit.
#[derive(Debug, Clone)]
pub struct BasicBlock {
    /// Start address of the block.
    pub start_addr: u64,
    /// End address (inclusive) of the block.
    pub end_addr: u64,
    /// The decoded instructions, with their addresses.
    pub instructions: Vec<(u64, Instruction)>,
    /// Generated WAT text for the block, when present.
    pub wat_code: Option<String>,
}

/// Hit and miss counters per cache.
#[derive(Debug, Clone, PartialEq, Eq, Structural)]
pub struct CacheStats {
    pub instruction_hits: u64,
    pub instruction_misses: u64,
    pub block_hits: u64,
    pub block_misses: u64,
    pub wat_hits: u64,
    pub wat_misses: u64,
}

impl CacheStats {
    /// All counters at zero.
    pub fn new() -> (r: CacheStats)
        ensures
            r == (CacheStats {
                instruction_hits: 0,
                instruction_misses: 0,
                block_hits: 0,
                block_misses: 0,
                wat_hits: 0,
                wat_misses: 0,
            }),
    {
        CacheStats {
            instruction_hits: 0,
            instruction_misses: 0,
            block_hits: 0,
            block_misses: 0,
            wat_hits: 0,
            wat_misses: 0,
        }
    }
}

impl Default for CacheStats {
    /// All counters at zero.
    fn default() -> (r: CacheStats)
        ensures
            r == (CacheStats {
                instruction_hits: 0,
                instruction_misses: 0,
                block_hits: 0,
                block_misses: 0,
                wat_hits: 0,
                wat_misses: 0,
            }),
    {
        CacheStats::new()
    }
}

/// The newest entry under a key, if any.
pub open spec fn spec_lookup_last<T>(s: Seq<(u64, T)>, pc: u64) -> Option<T>
    decreases s.len(),
{
    if s.len() == 0 {
        Option::<T>::None
    } else if s.last().0 == pc {
        Some(s.last().1)
    } else {
        spec_lookup_last(s.drop_last(), pc)
    }
}

/// Law of the association lists: a fresh insert is what a lookup answers,
/// and entries under other keys still answer as before.
pub proof fn lemma_lookup_last_push<T>(s: Seq<(u64, T)>, k: u64, v: T, other: u64)
    ensures
        spec_lookup_last(s.push((k, v)), k) == Some(v),
        other != k ==> spec_lookup_last(s.push((k, v)), other) == spec_lookup_last(s, other),
{
    assert(s.push((k, v)).last() == (k, v));
    assert(s.push((k, v)).drop_last() =~= s);
}

/// Caches decoded instructions, basic blocks and generated WAT by address.
pub struct CodeCache {
    /// Decoded instructions by address; the newest entry answers.
    pub instruction_cache: Vec<(u64, Instruction)>,
    /// Basic blocks by start address; the newest entry answers.
    pub block_cache: Vec<(u64, BasicBlock)>,
    /// Generated WAT by block start; the newest entry answers.
    pub wat_cache: Vec<(u64, String)>,
    /// Hit and miss counters.
    pub stats: CacheStats,
    /// Instruction capacity; zero means unlimited.
    pub max_instructions: usize,
    /// Block capacity; zero means unlimited.
    pub max_blocks: usize,
}

impl CodeCache {
    pub open spec fn inst_view(self) -> Seq<(u64, Instruction)> {
        self.instruction_cache@
    }

    pub open spec fn block_view(self) -> Seq<(u64, BasicBlock)> {
        self.block_cache@
    }

    pub open spec fn wat_view(self) -> Seq<(u64, String)> {
        self.wat_cache@
    }

    pub open spec fn spec_stats(self) -> CacheStats {
        self.stats
    }

    pub open spec fn spec_max_instructions(self) -> usize {
        self.max_instructions
    }

    pub open spec fn spec_max_blocks(self) -> usize {
        self.max_blocks
    }

    /// An empty cache without size limits.
    pub fn new() -> (r: CodeCache)
        ensures
            r.inst_view().len() == 0,
            r.block_view().len() == 0,
            r.wat_view().len() == 0,
            r.spec_stats() == (CacheStats {
                instruction_hits: 0,
                instruction_misses: 0,
                block_hits: 0,
                block_misses: 0,
                wat_hits: 0,
                wat_misses: 0,
            }),
            r.spec_max_instructions() == 0,
            r.spec_max_blocks() == 0,
    {
        CodeCache::with_limits(0, 0)
    }

    /// An empty cache; a zero limit means unlimited.
    pub fn with_limits(max_instructions: usize, max_blocks: usize) -> (r: CodeCache)
        ensures
            r.inst_view().len() == 0,
            r.block_view().len() == 0,
            r.wat_view().len() == 0,
            r.spec_stats() == (CacheStats {
                instruction_hits: 0,
                instruction_misses: 0,
                block_hits: 0,
                block_misses: 0,
                wat_hits: 0,
                wat_misses: 0,
            }),
            r.spec_max_instructions() == max_instructions,
            r.spec_max_blocks() == max_blocks,
    {
        CodeCache {
            instruction_cache: Vec::new(),
            block_cache: Vec::new(),
            wat_cache: Vec::new(),
            stats: CacheStats::new(),
            max_instructions,
            max_blocks,
        }
    }

    /// The cached instruction at an address; counts a hit or a miss.
    pub fn get_instruction(&mut self, pc: u64) -> (r: Option<Instruction>)
        ensures
            r == spec_lookup_last(old(self).inst_view(), pc),
            final(self).inst_view() == old(self).inst_view(),
            final(self).block_view() == old(self).block_view(),
            final(self).wat_view() == old(self).wat_view(),
            final(self).spec_max_instructions() == old(self).spec_max_instructions(),
            final(self).spec_max_blocks() == old(self).spec_max_blocks(),
            r is Some ==> final(self).spec_stats() == (CacheStats {
                instruction_hits: vstd::wrapping::u64_specs::wrapping_add(
                    old(self).spec_stats().instruction_hits,
                    1,
                ),
                ..old(self).spec_stats()
            }),
            r is None ==> final(self).spec_stats() == (CacheStats {
                instruction_misses: vstd::wrapping::u64_specs::wrapping_add(
                    old(self).spec_stats().instruction_misses,
                    1,
                ),
                ..old(self).spec_stats()
            }),
    {
        let idx = find_key_instruction(&self.instruction_cache, pc);
        match idx {
            Some(i) => {
                self.stats.instruction_hits = self.stats.instruction_hits.wrapping_add(1);
                Some(self.instruction_cache[i].1)
            },
            Option::None => {
                self.stats.instruction_misses = self.stats.instruction_misses.wrapping_add(1);
                Option::<Instruction>::None
            },
        }
    }

    /// Cache a decoded instruction; a full cache is cleared first.
    pub fn cache_instruction(&mut self, pc: u64, instruction: Instruction)
        ensures
            final(self).inst_view() == (if old(self).spec_max_instructions() > 0 && old(
                self,
            ).inst_view().len() >= old(self).spec_max_instructions() {
                seq![(pc, instruction)]
            } else {
                old(self).inst_view().push((pc, instruction))
            }),
            final(self).block_view() == old(self).block_view(),
            final(self).wat_view() == old(self).wat_view(),
            final(self).spec_stats() == old(self).spec_stats(),
            final(self).spec_max_instructions() == old(self).spec_max_instructions(),
            final(self).spec_max_blocks() == old(self).spec_max_blocks(),
    {
        if self.max_instructions > 0 && self.instruction_cache.len() >= self.max_instructions {
            self.instruction_cache = Vec::new();
            self.instruction_cache.push((pc, instruction));
            proof {
                assert(self.instruction_cache@ =~= seq![(pc, instruction)]);
            }
        } else {
            self.instruction_cache.push((pc, instruction));
        }
    }

    /// The cached block starting at an address; counts a hit or a miss.
    pub fn get_block(&mut self, start_pc: u64) -> (r: Option<&BasicBlock>)
        ensures
            r is Some <==> spec_lookup_last(old(self).block_view(), start_pc) is Some,
            r matches Some(b) ==> Some(*b) == spec_lookup_last(
                old(self).block_view(),
                start_pc,
            ),
            final(self).inst_view() == old(self).inst_view(),
            final(self).block_view() == old(self).block_view(),
            final(self).wat_view() == old(self).wat_view(),
            final(self).spec_max_instructions() == old(self).spec_max_instructions(),
            final(self).spec_max_blocks() == old(self).spec_max_blocks(),
            r is Some ==> final(self).spec_stats() == (CacheStats {
                block_hits: vstd::wrapping::u64_specs::wrapping_add(
                    old(self).spec_stats().block_hits,
                    1,
                ),
                ..old(self).spec_stats()
            }),
            r is None ==> final(self).spec_stats() == (CacheStats {
                block_misses: vstd::wrapping::u64_specs::wrapping_add(
                    old(self).spec_stats().block_misses,
                    1,
                ),
                ..old(self).spec_stats()
            }),
    {
        let idx = find_key_block(&self.block_cache, start_pc);
        match idx {
            Some(i) => {
                self.stats.block_hits = self.stats.block_hits.wrapping_add(1);
                Some(&self.block_cache[i].1)
            },
            Option::None => {
                self.stats.block_misses = self.stats.block_misses.wrapping_add(1);
                Option::<&BasicBlock>::None
            },
        }
    }

    /// Cache a block under its start address; a full block cache is cleared
    /// (its WAT cache with it) before the insert.
    pub fn cache_block(&mut self, block: BasicBlock)
        ensures
            final(self).block_view() == (if old(self).spec_max_blocks() > 0 && old(
                self,
            ).block_view().len() >= old(self).spec_max_blocks() {
                seq![(block.start_addr, block)]
            } else {
                old(self).block_view().push((block.start_addr, block))
            }),
            final(self).wat_view() == (if old(self).spec_max_blocks() > 0 && old(
                self,
            ).block_view().len() >= old(self).spec_max_blocks() {
                Seq::<(u64, String)>::empty()
            } else {
                old(self).wat_view()
            }),
            final(self).inst_view() == old(self).inst_view(),
            final(self).spec_stats() == old(self).spec_stats(),
            final(self).spec_max_instructions() == old(self).spec_max_instructions(),
            final(self).spec_max_blocks() == old(self).spec_max_blocks(),
    {
        let start_addr = block.start_addr;
        if self.max_blocks > 0 && self.block_cache.len() >= self.max_blocks {
            self.block_cache = Vec::new();
            self.wat_cache = Vec::new();
            self.block_cache.push((start_addr, block));
            proof {
                assert(self.wat_cache@ =~= Seq::<(u64, String)>::empty());
            }
        } else {
            self.block_cache.push((start_addr, block));
        }
    }

    /// The cached WAT text for a block start; counts a hit or a miss.
    pub fn get_wat_code(&mut self, start_pc: u64) -> (r: Option<&String>)
        ensures
            r is Some <==> spec_lookup_last(old(self).wat_view(), start_pc) is Some,
            r matches Some(w) ==> Some(*w) == spec_lookup_last(
                old(self).wat_view(),
                start_pc,
            ),
            final(self).inst_view() == old(self).inst_view(),
            final(self).block_view() == old(self).block_view(),
            final(self).wat_view() == old(self).wat_view(),
            final(self).spec_max_instructions() == old(self).spec_max_instructions(),
            final(self).spec_max_blocks() == old(self).spec_max_blocks(),
            r is Some ==> final(self).spec_stats() == (CacheStats {
                wat_hits: vstd::wrapping::u64_specs::wrapping_add(
                    old(self).spec_stats().wat_hits,
                    1,
                ),
                ..old(self).spec_stats()
            }),
            r is None ==> final(self).spec_stats() == (CacheStats {
                wat_misses: vstd::wrapping::u64_specs::wrapping_add(
                    old(self).spec_stats().wat_misses,
                    1,
                ),
                ..old(self).spec_stats()
            }),
    {
        let idx = find_key_wat(&self.wat_cache, start_pc);
        match idx {
            Some(i) => {
                self.stats.wat_hits = self.stats.wat_hits.wrapping_add(1);
                Some(&self.wat_cache[i].1)
            },
            Option::None => {
                self.stats.wat_misses = self.stats.wat_misses.wrapping_add(1);
                Option::<&String>::None
            },
        }
    }

    /// Cache WAT text for a block start.
    pub fn cache_wat_code(&mut self, start_pc: u64, wat_code: String)
        ensures
            final(self).wat_view() == old(self).wat_view().push((start_pc, wat_code)),
            final(self).inst_view() == old(self).inst_view(),
            final(self).block_view() == old(self).block_view(),
            final(self).spec_stats() == old(self).spec_stats(),
            final(self).spec_max_instructions() == old(self).spec_max_instructions(),
            final(self).spec_max_blocks() == old(self).spec_max_blocks(),
    {
        self.wat_cache.push((start_pc, wat_code));
    }

    /// Drop everything and reset the counters.
    pub fn clear(&mut self)
        ensures
            final(self).inst_view().len() == 0,
            final(self).block_view().len() == 0,
            final(self).wat_view().len() == 0,
            final(self).spec_stats() == (CacheStats {
                instruction_hits: 0,
                instruction_misses: 0,
                block_hits: 0,
                block_misses: 0,
                wat_hits: 0,
                wat_misses: 0,
            }),
            final(self).spec_max_instructions() == old(self).spec_max_instructions(),
            final(self).spec_max_blocks() == old(self).spec_max_blocks(),
    {
        self.instruction_cache = Vec::new();
        self.block_cache = Vec::new();
        self.wat_cache = Vec::new();
        self.stats = CacheStats::new();
    }

    /// The counters.
    pub fn stats(&self) -> (r: &CacheStats)
        ensures
            r == self.spec_stats(),
    {
        &self.stats
    }

    /// The counters, writable in place.
    pub fn stats_mut(&mut self) -> &mut CacheStats {
        &mut self.stats
    }

    /// Number of cached instruction entries.
    pub fn instruction_count(&self) -> (r: usize)
        ensures
            r == self.inst_view().len(),
    {
        self.instruction_cache.len()
    }

    /// Number of cached block entries.
    pub fn block_count(&self) -> (r: usize)
        ensures
            r == self.block_view().len(),
    {
        self.block_cache.len()
    }

    /// Number of cached WAT entries.
    pub fn wat_count(&self) -> (r: usize)
        ensures
            r == self.wat_view().len(),
    {
        self.wat_cache.len()
    }

    /// Forget everything a code change in `[start_addr, end_addr]` could
    /// have touched: instructions inside the range, blocks overlapping it,
    /// and the WAT of any block that did not survive.
    #[verifier::loop_isolation(false)]
    pub fn invalidate_range(&mut self, start_addr: u64, end_addr: u64)
        ensures
            final(self).inst_view() == old(self).inst_view().filter(
                |e: (u64, Instruction)| e.0 < start_addr || e.0 > end_addr,
            ),
            final(self).block_view() == old(self).block_view().filter(
                |e: (u64, BasicBlock)| e.1.end_addr < start_addr || e.1.start_addr > end_addr,
            ),
            final(self).wat_view() == old(self).wat_view().filter(
                |e: (u64, String)|
                    spec_lookup_last(
                        old(self).block_view().filter(
                            |b: (u64, BasicBlock)| b.1.end_addr < start_addr || b.1.start_addr
                                > end_addr,
                        ),
                        e.0,
                    ) is Some,
            ),
            final(self).spec_stats() == old(self).spec_stats(),
            final(self).spec_max_instructions() == old(self).spec_max_instructions(),
            final(self).spec_max_blocks() == old(self).spec_max_blocks(),
    {
        let ghost inst_pred = |e: (u64, Instruction)| e.0 < start_addr || e.0 > end_addr;
        let ghost block_save = self.block_cache@;
        let ghost wat_save = self.wat_cache@;
        let ghost stats_save = self.stats;
        let ghost maxi_save = self.max_instructions;
        let ghost maxb_save = self.max_blocks;
        let mut kept_rev: Vec<(u64, Instruction)> = Vec::new();
        proof {
            reveal(Seq::filter);
            assert(self.instruction_cache@.take(self.instruction_cache@.len() as int)
                =~= self.instruction_cache@);
            assert(kept_rev@.reverse() =~= Seq::<(u64, Instruction)>::empty());
        }
        let ghost inst0 = self.instruction_cache@;
        while self.instruction_cache.len() > 0
            invariant
                self.block_cache@ == block_save,
                self.wat_cache@ == wat_save,
                self.stats == stats_save,
                self.max_instructions == maxi_save,
                self.max_blocks == maxb_save,
                inst0.filter(inst_pred) == self.instruction_cache@.filter(inst_pred)
                    + kept_rev@.reverse(),
            decreases self.instruction_cache.len(),
        {
            let ghost pre = self.instruction_cache@;
            let e = self.instruction_cache.pop().unwrap();
            proof {
                reveal(Seq::filter);
                assert(pre.drop_last() == self.instruction_cache@);
            }
            if e.0 < start_addr || e.0 > end_addr {
                kept_rev.push(e);
                proof {
                    reveal(Seq::filter);
                    assert(inst_pred(e));
                    assert(kept_rev@.reverse() =~= seq![e] + kept_rev@.drop_last().reverse());
                    assert(inst0.filter(inst_pred) =~= self.instruction_cache@.filter(inst_pred)
                        + kept_rev@.reverse());
                }
            } else {
                proof {
                    reveal(Seq::filter);
                    assert(!inst_pred(e));
                    assert(inst0.filter(inst_pred) =~= self.instruction_cache@.filter(inst_pred)
                        + kept_rev@.reverse());
                }
            }
        }
        proof {
            reveal(Seq::filter);
            assert(self.instruction_cache@.filter(inst_pred) =~= Seq::<(u64, Instruction)>::empty());
        }
        while kept_rev.len() > 0
            invariant
                self.block_cache@ == block_save,
                self.wat_cache@ == wat_save,
                self.stats == stats_save,
                self.max_instructions == maxi_save,
                self.max_blocks == maxb_save,
                inst0.filter(inst_pred) == self.instruction_cache@ + kept_rev@.reverse(),
            decreases kept_rev.len(),
        {
            let ghost pre = kept_rev@;
            let e = kept_rev.pop().unwrap();
            self.instruction_cache.push(e);
            proof {
                assert(pre.reverse() =~= seq![e] + kept_rev@.reverse());
                assert(inst0.filter(inst_pred) =~= self.instruction_cache@ + kept_rev@.reverse());
            }
        }
        proof {
            assert(kept_rev@.reverse() =~= Seq::<(u64, Instruction)>::empty());
            assert(self.instruction_cache@ =~= inst0.filter(inst_pred));
        }
        // blocks
        let ghost block_pred = |e: (u64, BasicBlock)| e.1.end_addr < start_addr || e.1.start_addr
            > end_addr;
        let mut bkept_rev: Vec<(u64, BasicBlock)> = Vec::new();
        let ghost block0 = self.block_cache@;
        proof {
            reveal(Seq::filter);
            assert(bkept_rev@.reverse() =~= Seq::<(u64, BasicBlock)>::empty());
        }
        while self.block_cache.len() > 0
            invariant
                self.instruction_cache@ == inst0.filter(inst_pred),
                self.wat_cache@ == wat_save,
                self.stats == stats_save,
                self.max_instructions == maxi_save,
                self.max_blocks == maxb_save,
                block0.filter(block_pred) == self.block_cache@.filter(block_pred)
                    + bkept_rev@.reverse(),
            decreases self.block_cache.len(),
        {
            let ghost pre = self.block_cache@;
            let e = self.block_cache.pop().unwrap();
            proof {
                reveal(Seq::filter);
                assert(pre.drop_last() == self.block_cache@);
            }
            if e.1.end_addr < start_addr || e.1.start_addr > end_addr {
                bkept_rev.push(e);
                proof {
                    reveal(Seq::filter);
                    assert(block_pred(e));
                    assert(bkept_rev@.reverse() =~= seq![e] + bkept_rev@.drop_last().reverse());
                    assert(block0.filter(block_pred) =~= self.block_cache@.filter(block_pred)
                        + bkept_rev@.reverse());
                }
            } else {
                proof {
                    reveal(Seq::filter);
                    assert(!block_pred(e));
                    assert(block0.filter(block_pred) =~= self.block_cache@.filter(block_pred)
                        + bkept_rev@.reverse());
                }
            }
        }
        proof {
            reveal(Seq::filter);
            assert(self.block_cache@.filter(block_pred) =~= Seq::<(u64, BasicBlock)>::empty());
        }
        while bkept_rev.len() > 0
            invariant
                self.instruction_cache@ == inst0.filter(inst_pred),
                self.wat_cache@ == wat_save,
                self.stats == stats_save,
                self.max_instructions == maxi_save,
                self.max_blocks == maxb_save,
                block0.filter(block_pred) == self.block_cache@ + bkept_rev@.reverse(),
            decreases bkept_rev.len(),
        {
            let ghost pre = bkept_rev@;
            let e = bkept_rev.pop().unwrap();
            self.block_cache.push(e);
            proof {
                assert(pre.reverse() =~= seq![e] + bkept_rev@.reverse());
                assert(block0.filter(block_pred) =~= self.block_cache@ + bkept_rev@.reverse());
            }
        }
        proof {
            assert(bkept_rev@.reverse() =~= Seq::<(u64, BasicBlock)>::empty());
            assert(self.block_cache@ =~= block0.filter(block_pred));
        }
        // generated text of surviving blocks only
        let ghost wat_pred = |e: (u64, String)|
            spec_lookup_last(block0.filter(block_pred), e.0) is Some;
        let mut wkept_rev: Vec<(u64, String)> = Vec::new();
        let ghost wat0 = self.wat_cache@;
        proof {
            reveal(Seq::filter);
            assert(wkept_rev@.reverse() =~= Seq::<(u64, String)>::empty());
        }
        while self.wat_cache.len() > 0
            invariant
                self.instruction_cache@ == inst0.filter(inst_pred),
                self.stats == stats_save,
                self.max_instructions == maxi_save,
                self.max_blocks == maxb_save,
                self.block_cache@ == block0.filter(block_pred),
                wat0.filter(wat_pred) == self.wat_cache@.filter(wat_pred) + wkept_rev@.reverse(),
            decreases self.wat_cache.len(),
        {
            let ghost pre = self.wat_cache@;
            let e = self.wat_cache.pop().unwrap();
            proof {
                reveal(Seq::filter);
                assert(pre.drop_last() == self.wat_cache@);
            }
            let keep = find_key_block(&self.block_cache, e.0).is_some();
            if keep {
                wkept_rev.push(e);
                proof {
                    reveal(Seq::filter);
                    assert(wat_pred(e));
                    assert(wkept_rev@.reverse() =~= seq![e] + wkept_rev@.drop_last().reverse());
                    assert(wat0.filter(wat_pred) =~= self.wat_cache@.filter(wat_pred)
                        + wkept_rev@.reverse());
                }
            } else {
                proof {
                    reveal(Seq::filter);
                    assert(!wat_pred(e));
                    assert(wat0.filter(wat_pred) =~= self.wat_cache@.filter(wat_pred)
                        + wkept_rev@.reverse());
                }
            }
        }
        proof {
            reveal(Seq::filter);
            assert(self.wat_cache@.filter(wat_pred) =~= Seq::<(u64, String)>::empty());
        }
        while wkept_rev.len() > 0
            invariant
                self.instruction_cache@ == inst0.filter(inst_pred),
                self.stats == stats_save,
                self.max_instructions == maxi_save,
                self.max_blocks == maxb_save,
                self.block_cache@ == block0.filter(block_pred),
                wat0.filter(wat_pred) == self.wat_cache@ + wkept_rev@.reverse(),
            decreases wkept_rev.len(),
        {
            let ghost pre = wkept_rev@;
            let e = wkept_rev.pop().unwrap();
            self.wat_cache.push(e);
            proof {
                assert(pre.reverse() =~= seq![e] + wkept_rev@.reverse());
                assert(wat0.filter(wat_pred) =~= self.wat_cache@ + wkept_rev@.reverse());
            }
        }
        proof {
            assert(wkept_rev@.reverse() =~= Seq::<(u64, String)>::empty());
            assert(self.wat_cache@ =~= wat0.filter(wat_pred));
            assert(inst_pred =~= (|e: (u64, Instruction)| e.0 < start_addr || e.0 > end_addr));
            assert(block_pred =~= (|e: (u64, BasicBlock)| e.1.end_addr < start_addr
                || e.1.start_addr > end_addr));
        }
    }
}

/// The index of the newest entry under a key.
#[verifier::loop_isolation(false)]
fn find_key_instruction(cache: &Vec<(u64, Instruction)>, pc: u64) -> (r: Option<usize>)
    ensures
        r is Some <==> spec_lookup_last(cache@, pc) is Some,
        r is Some ==> r->0 < cache@.len() && cache@[r->0 as int].0 == pc && cache@[r->0 as int].1
            == spec_lookup_last(cache@, pc)->0,
{
    let mut i: usize = cache.len();
    proof {
        assert(cache@.take(cache@.len() as int) =~= cache@);
    }
    while i > 0
        invariant
            i <= cache@.len(),
            spec_lookup_last(cache@, pc) == spec_lookup_last(cache@.take(i as int), pc),
        decreases i,
    {
        i = i - 1;
        proof {
            assert(cache@.take(i as int + 1).last() == cache@[i as int]);
            assert(cache@.take(i as int + 1).drop_last() =~= cache@.take(i as int));
        }
        if cache[i].0 == pc {
            return Some(i);
        }
    }
    proof {
        assert(cache@.take(0) =~= Seq::<(u64, Instruction)>::empty());
    }
    Option::<usize>::None
}

/// The index of the newest entry under a key.
#[verifier::loop_isolation(false)]
fn find_key_block(cache: &Vec<(u64, BasicBlock)>, pc: u64) -> (r: Option<usize>)
    ensures
        r is Some <==> spec_lookup_last(cache@, pc) is Some,
        r is Some ==> r->0 < cache@.len() && cache@[r->0 as int].0 == pc && Some(
            cache@[r->0 as int].1,
        ) == spec_lookup_last(cache@, pc),
{
    let mut i: usize = cache.len();
    proof {
        assert(cache@.take(cache@.len() as int) =~= cache@);
    }
    while i > 0
        invariant
            i <= cache@.len(),
            spec_lookup_last(cache@, pc) == spec_lookup_last(cache@.take(i as int), pc),
        decreases i,
    {
        i = i - 1;
        proof {
            assert(cache@.take(i as int + 1).last() == cache@[i as int]);
            assert(cache@.take(i as int + 1).drop_last() =~= cache@.take(i as int));
        }
        if cache[i].0 == pc {
            return Some(i);
        }
    }
    proof {
        assert(cache@.take(0) =~= Seq::<(u64, BasicBlock)>::empty());
    }
    Option::<usize>::None
}

/// The index of the newest entry under a key.
#[verifier::loop_isolation(false)]
fn find_key_wat(cache: &Vec<(u64, String)>, pc: u64) -> (r: Option<usize>)
    ensures
        r is Some <==> spec_lookup_last(cache@, pc) is Some,
        r is Some ==> r->0 < cache@.len() && cache@[r->0 as int].0 == pc && Some(
            cache@[r->0 as int].1,
        ) == spec_lookup_last(cache@, pc),
{
    let mut i: usize = cache.len();
    proof {
        assert(cache@.take(cache@.len() as int) =~= cache@);
    }
    while i > 0
        invariant
            i <= cache@.len(),
            spec_lookup_last(cache@, pc) == spec_lookup_last(cache@.take(i as int), pc),
        decreases i,
    {
        i = i - 1;
        proof {
            assert(cache@.take(i as int + 1).last() == cache@[i as int]);
            assert(cache@.take(i as int + 1).drop_last() =~= cache@.take(i as int));
        }
        if cache[i].0 == pc {
            return Some(i);
        }
    }
    proof {
        assert(cache@.take(0) =~= Seq::<(u64, String)>::empty());
    }
    Option::<usize>::None
}

impl Default for CodeCache {
    /// An empty cache without limits.
    fn default() -> (r: CodeCache)
        ensures
            r.inst_view().len() == 0,
            r.block_view().len() == 0,
            r.wat_view().len() == 0,
    {
        CodeCache::new()
    }
}

} // verus!
