//! The mutable guest snapshot exchanged with the translated module.
//!
//! During execution the truth lives in the module's globals; this snapshot
//! carries the initial register values in and serves diagnostics after the
//! run.

use vstd::prelude::*;

use crate::runtime::csr::CsrState;

verus! {

/// Guest architectural snapshot: the integer registers, the program
/// counter, the CSRs, and where guest memory starts in linear memory.
#[derive(Debug, Clone)]
pub struct RiscVState {
    /// General-purpose registers; index zero is architecturally zero.
    pub x_regs: Vec<i64>,
    /// Linear offset of the vector register file.
    pub v_regs_offset: u32,
    /// Program counter.
    pub pc: u64,
    /// Control and status registers.
    pub csr: CsrState,
    /// Linear offset where guest memory starts.
    pub memory_base: u32,
}

impl RiscVState {
    /// All 32 registers present.
    pub open spec fn wf(self) -> bool {
        self.x_regs@.len() == 32
    }
}

impl Default for RiscVState {
    /// The boot snapshot: registers zero, program counter zero, the vector
    /// file at the customary 64 KiB offset, and a 256-byte vector register
    /// width.
    fn default() -> (r: RiscVState)
        ensures
            r.wf(),
            r.x_regs@ == Seq::new(32, |i: int| 0i64),
            r.v_regs_offset == 0x10000u32,
            r.pc == 0,
            r.memory_base == 0,
            r.csr == (CsrState {
                vstart: 0,
                vtype: 0,
                vl: 0,
                vlenb: 256,
                mstatus: 0,
                mtvec: 0,
                mepc: 0,
                mcause: 0,
            }),
    {
        let mut x_regs: Vec<i64> = Vec::new();
        let mut i: usize = 0;
        while i < 32
            invariant
                i <= 32,
                x_regs@.len() == i,
                forall|j: int| 0 <= j < i ==> x_regs@[j] == 0i64,
            decreases 32 - i,
        {
            x_regs.push(0);
            i = i + 1;
        }
        proof {
            assert(x_regs@ =~= Seq::new(32, |i: int| 0i64));
        }
        RiscVState {
            x_regs,
            v_regs_offset: 0x10000,
            pc: 0,
            csr: CsrState {
                vstart: 0,
                vtype: 0,
                vl: 0,
                vlenb: 256,
                mstatus: 0,
                mtvec: 0,
                mepc: 0,
                mcause: 0,
            },
            memory_base: 0,
        }
    }
}

} // verus!
