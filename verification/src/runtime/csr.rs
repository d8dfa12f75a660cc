//! Control and status register management for the runtime.
//!
//! The manager owns the CSR snapshot the host keeps beside the translated
//! module.  Reads and writes follow the read-only rules of the identity and
//! counter registers; the vector configuration instructions compute the new
//! vector length from the requested type with integer arithmetic.

use vstd::prelude::*;

verus! {

/// The CSR snapshot: vector configuration and the machine registers user
/// mode can observe.
#[derive(Clone, Copy, Debug, PartialEq, Eq, Structural)]
pub struct CsrState {
    pub vstart: u64,
    pub vtype: u64,
    pub vl: u64,
    /// Vector register width in bytes.
    pub vlenb: u64,
    pub mstatus: u64,
    pub mtvec: u64,
    pub mepc: u64,
    pub mcause: u64,
}

/// The CSR addresses the runtime understands.
#[derive(Debug, Clone, Copy, PartialEq, Eq, Structural)]
pub enum CsrAddress {
    VStart,
    VXSat,
    VXRm,
    VCSR,
    VL,
    VType,
    VLenB,
    MVendorId,
    MArchId,
    MImpId,
    MHartId,
    MStatus,
    MISA,
    MIE,
    MTVec,
    MScratch,
    MEPC,
    MCause,
    MTVal,
    MIP,
    Cycle,
    Time,
    InstRet,
}

impl CsrAddress {
    /// Classify a raw CSR number.
    pub open spec fn spec_from_u16(addr: u16) -> Option<CsrAddress> {
        match addr {
            0x008 => Some(CsrAddress::VStart),
            0x009 => Some(CsrAddress::VXSat),
            0x00A => Some(CsrAddress::VXRm),
            0x00F => Some(CsrAddress::VCSR),
            0xC20 => Some(CsrAddress::VL),
            0xC21 => Some(CsrAddress::VType),
            0xC22 => Some(CsrAddress::VLenB),
            0xF11 => Some(CsrAddress::MVendorId),
            0xF12 => Some(CsrAddress::MArchId),
            0xF13 => Some(CsrAddress::MImpId),
            0xF14 => Some(CsrAddress::MHartId),
            0x300 => Some(CsrAddress::MStatus),
            0x301 => Some(CsrAddress::MISA),
            0x304 => Some(CsrAddress::MIE),
            0x305 => Some(CsrAddress::MTVec),
            0x340 => Some(CsrAddress::MScratch),
            0x341 => Some(CsrAddress::MEPC),
            0x342 => Some(CsrAddress::MCause),
            0x343 => Some(CsrAddress::MTVal),
            0x344 => Some(CsrAddress::MIP),
            0xC00 => Some(CsrAddress::Cycle),
            0xC01 => Some(CsrAddress::Time),
            0xC02 => Some(CsrAddress::InstRet),
            _ => Option::<CsrAddress>::None,
        }
    }

    /// Classify a raw CSR number.
    pub fn from_u16(addr: u16) -> (r: Option<CsrAddress>)
        ensures
            r == CsrAddress::spec_from_u16(addr),
    {
        match addr {
            0x008 => Some(CsrAddress::VStart),
            0x009 => Some(CsrAddress::VXSat),
            0x00A => Some(CsrAddress::VXRm),
            0x00F => Some(CsrAddress::VCSR),
            0xC20 => Some(CsrAddress::VL),
            0xC21 => Some(CsrAddress::VType),
            0xC22 => Some(CsrAddress::VLenB),
            0xF11 => Some(CsrAddress::MVendorId),
            0xF12 => Some(CsrAddress::MArchId),
            0xF13 => Some(CsrAddress::MImpId),
            0xF14 => Some(CsrAddress::MHartId),
            0x300 => Some(CsrAddress::MStatus),
            0x301 => Some(CsrAddress::MISA),
            0x304 => Some(CsrAddress::MIE),
            0x305 => Some(CsrAddress::MTVec),
            0x340 => Some(CsrAddress::MScratch),
            0x341 => Some(CsrAddress::MEPC),
            0x342 => Some(CsrAddress::MCause),
            0x343 => Some(CsrAddress::MTVal),
            0x344 => Some(CsrAddress::MIP),
            0xC00 => Some(CsrAddress::Cycle),
            0xC01 => Some(CsrAddress::Time),
            0xC02 => Some(CsrAddress::InstRet),
            _ => Option::<CsrAddress>::None,
        }
    }

    /// The CSR number of an address.
    pub open spec fn spec_to_u16(self) -> u16 {
        match self {
            CsrAddress::VStart => 0x008,
            CsrAddress::VXSat => 0x009,
            CsrAddress::VXRm => 0x00A,
            CsrAddress::VCSR => 0x00F,
            CsrAddress::VL => 0xC20,
            CsrAddress::VType => 0xC21,
            CsrAddress::VLenB => 0xC22,
            CsrAddress::MVendorId => 0xF11,
            CsrAddress::MArchId => 0xF12,
            CsrAddress::MImpId => 0xF13,
            CsrAddress::MHartId => 0xF14,
            CsrAddress::MStatus => 0x300,
            CsrAddress::MISA => 0x301,
            CsrAddress::MIE => 0x304,
            CsrAddress::MTVec => 0x305,
            CsrAddress::MScratch => 0x340,
            CsrAddress::MEPC => 0x341,
            CsrAddress::MCause => 0x342,
            CsrAddress::MTVal => 0x343,
            CsrAddress::MIP => 0x344,
            CsrAddress::Cycle => 0xC00,
            CsrAddress::Time => 0xC01,
            CsrAddress::InstRet => 0xC02,
        }
    }

    /// The CSR number of an address.
    pub fn to_u16(self) -> (r: u16)
        ensures
            r == self.spec_to_u16(),
    {
        match self {
            CsrAddress::VStart => 0x008,
            CsrAddress::VXSat => 0x009,
            CsrAddress::VXRm => 0x00A,
            CsrAddress::VCSR => 0x00F,
            CsrAddress::VL => 0xC20,
            CsrAddress::VType => 0xC21,
            CsrAddress::VLenB => 0xC22,
            CsrAddress::MVendorId => 0xF11,
            CsrAddress::MArchId => 0xF12,
            CsrAddress::MImpId => 0xF13,
            CsrAddress::MHartId => 0xF14,
            CsrAddress::MStatus => 0x300,
            CsrAddress::MISA => 0x301,
            CsrAddress::MIE => 0x304,
            CsrAddress::MTVec => 0x305,
            CsrAddress::MScratch => 0x340,
            CsrAddress::MEPC => 0x341,
            CsrAddress::MCause => 0x342,
            CsrAddress::MTVal => 0x343,
            CsrAddress::MIP => 0x344,
            CsrAddress::Cycle => 0xC00,
            CsrAddress::Time => 0xC01,
            CsrAddress::InstRet => 0xC02,
        }
    }
}

/// Law of the CSR numbering: classification and numbering are mutual
/// inverses.  Every address's number classifies back to that address, and
/// every number that classifies at all is its address's number.
pub proof fn lemma_csr_number_round_trip(c: CsrAddress, addr: u16)
    ensures
        CsrAddress::spec_from_u16(c.spec_to_u16()) == Some(c),
        CsrAddress::spec_from_u16(addr) == Some(c) ==> c.spec_to_u16() == addr,
{
}

/// The fixed MISA word the runtime reports: a 64-bit machine with the
/// atomic, compressed, double, float, integer, multiply and vector bits.
pub open spec fn spec_misa() -> u64 {
    0x8000000000000000u64 | 0x1u64 | 0x4u64 | 0x8u64 | 0x20u64 | 0x100u64 | 0x1000u64
        | 0x200000u64
}

/// What a CSR read returns for a given snapshot.
pub open spec fn spec_csr_read(s: CsrState, csr: CsrAddress) -> u64 {
    match csr {
        CsrAddress::VL => s.vl,
        CsrAddress::VType => s.vtype,
        CsrAddress::VStart => s.vstart,
        CsrAddress::VLenB => s.vlenb,
        CsrAddress::VXSat => 0,
        CsrAddress::VXRm => 0,
        CsrAddress::VCSR => 0,
        CsrAddress::MStatus => s.mstatus,
        CsrAddress::MTVec => s.mtvec,
        CsrAddress::MEPC => s.mepc,
        CsrAddress::MCause => s.mcause,
        CsrAddress::MVendorId => 0,
        CsrAddress::MArchId => 0x8000000000000000u64 | 0x100000u64,
        CsrAddress::MImpId => 1,
        CsrAddress::MHartId => 0,
        CsrAddress::MISA => spec_misa(),
        CsrAddress::Cycle => 0,
        CsrAddress::Time => 0,
        CsrAddress::InstRet => 0,
        CsrAddress::MIE => 0,
        CsrAddress::MIP => 0,
        CsrAddress::MScratch => 0,
        CsrAddress::MTVal => 0,
    }
}

/// What a CSR write leaves behind: the writable registers take the value,
/// the read-only and unimplemented ones ignore it.
pub open spec fn spec_csr_write(s: CsrState, csr: CsrAddress, value: u64) -> CsrState {
    match csr {
        CsrAddress::VL => CsrState { vl: value, ..s },
        CsrAddress::VType => CsrState { vtype: value, ..s },
        CsrAddress::VStart => CsrState { vstart: value, ..s },
        CsrAddress::VLenB => CsrState { vlenb: value, ..s },
        CsrAddress::MStatus => CsrState { mstatus: value, ..s },
        CsrAddress::MTVec => CsrState { mtvec: value, ..s },
        CsrAddress::MEPC => CsrState { mepc: value, ..s },
        CsrAddress::MCause => CsrState { mcause: value, ..s },
        _ => s,
    }
}

/// The vector length limit for a vector type word: the register bit count
/// divided by the selected element width, scaled by the register group
/// multiplier.
pub open spec fn spec_vlmax(vlenb: u64, vtype: u64) -> u64 {
    let sew = spec_sew(vlenb, vtype);
    let vlen = vstd::wrapping::u64_specs::wrapping_mul(vlenb, 8);
    let base = vlen / sew;
    match vtype % 8 {
        0 => base,
        1 => vstd::wrapping::u64_specs::wrapping_mul(base, 2),
        2 => vstd::wrapping::u64_specs::wrapping_mul(base, 4),
        3 => vstd::wrapping::u64_specs::wrapping_mul(base, 8),
        5 => base / 8,
        6 => base / 4,
        7 => base / 2,
        _ => base,
    }
}

/// The selected element width in bits: 8 through 1024.
pub open spec fn spec_sew(vlenb: u64, vtype: u64) -> u64 {
    match (vtype / 8) % 8 {
        0 => 8u64,
        1 => 16u64,
        2 => 32u64,
        3 => 64u64,
        4 => 128u64,
        5 => 256u64,
        6 => 512u64,
        _ => 1024u64,
    }
}

/// The vector length granted for a request.
pub open spec fn spec_new_vl(vlenb: u64, avl: u64, vtype: u64) -> u64 {
    if avl <= spec_vlmax(vlenb, vtype) {
        avl
    } else {
        spec_vlmax(vlenb, vtype)
    }
}

/// Owns the CSR snapshot and performs the register operations the runtime
/// needs.
pub struct CsrManager {
    state: CsrState,
}

impl CsrManager {
    /// A manager over the given snapshot.
    pub fn new(state: CsrState) -> (r: CsrManager)
        ensures
            r.view() == state,
    {
        CsrManager { state }
    }

    /// The current snapshot.
    pub closed spec fn view(self) -> CsrState {
        self.state
    }

    /// Read a CSR.
    pub fn read(&self, csr: CsrAddress) -> (r: u64)
        ensures
            r == spec_csr_read(self.view(), csr),
    {
        match csr {
            CsrAddress::VL => self.state.vl,
            CsrAddress::VType => self.state.vtype,
            CsrAddress::VStart => self.state.vstart,
            CsrAddress::VLenB => self.state.vlenb,
            CsrAddress::VXSat => 0,
            CsrAddress::VXRm => 0,
            CsrAddress::VCSR => 0,
            CsrAddress::MStatus => self.state.mstatus,
            CsrAddress::MTVec => self.state.mtvec,
            CsrAddress::MEPC => self.state.mepc,
            CsrAddress::MCause => self.state.mcause,
            CsrAddress::MVendorId => 0,
            CsrAddress::MArchId => 0x8000000000000000u64 | 0x100000u64,
            CsrAddress::MImpId => 1,
            CsrAddress::MHartId => 0,
            CsrAddress::MISA => {
                let mut misa: u64 = 0x8000000000000000u64;
                misa = misa | 0x1;
                misa = misa | 0x4;
                misa = misa | 0x8;
                misa = misa | 0x20;
                misa = misa | 0x100;
                misa = misa | 0x1000;
                misa = misa | 0x200000;
                misa
            },
            CsrAddress::Cycle => 0,
            CsrAddress::Time => 0,
            CsrAddress::InstRet => 0,
            CsrAddress::MIE => 0,
            CsrAddress::MIP => 0,
            CsrAddress::MScratch => 0,
            CsrAddress::MTVal => 0,
        }
    }

    /// Write a CSR; read-only registers ignore the write.
    pub fn write(&mut self, csr: CsrAddress, value: u64)
        ensures
            final(self).view() == spec_csr_write(old(self).view(), csr, value),
    {
        match csr {
            CsrAddress::VL => {
                self.state.vl = value;
            },
            CsrAddress::VType => {
                self.state.vtype = value;
            },
            CsrAddress::VStart => {
                self.state.vstart = value;
            },
            CsrAddress::VLenB => {
                self.state.vlenb = value;
            },
            CsrAddress::MStatus => {
                self.state.mstatus = value;
            },
            CsrAddress::MTVec => {
                self.state.mtvec = value;
            },
            CsrAddress::MEPC => {
                self.state.mepc = value;
            },
            CsrAddress::MCause => {
                self.state.mcause = value;
            },
            _ => {
            },
        }
    }

    /// Atomic read-then-write.
    pub fn read_write(&mut self, csr: CsrAddress, new_value: u64) -> (r: u64)
        ensures
            r == spec_csr_read(old(self).view(), csr),
            final(self).view() == spec_csr_write(old(self).view(), csr, new_value),
    {
        let old_value = self.read(csr);
        self.write(csr, new_value);
        old_value
    }

    /// Read, then set the mask's bits; a zero mask writes nothing.
    pub fn read_set(&mut self, csr: CsrAddress, mask: u64) -> (r: u64)
        ensures
            r == spec_csr_read(old(self).view(), csr),
            mask != 0 ==> final(self).view() == spec_csr_write(
                old(self).view(),
                csr,
                spec_csr_read(old(self).view(), csr) | mask,
            ),
            mask == 0 ==> final(self).view() == old(self).view(),
    {
        let old_value = self.read(csr);
        if mask != 0 {
            self.write(csr, old_value | mask);
        }
        old_value
    }

    /// Read, then clear the mask's bits; a zero mask writes nothing.
    pub fn read_clear(&mut self, csr: CsrAddress, mask: u64) -> (r: u64)
        ensures
            r == spec_csr_read(old(self).view(), csr),
            mask != 0 ==> final(self).view() == spec_csr_write(
                old(self).view(),
                csr,
                spec_csr_read(old(self).view(), csr) & !mask,
            ),
            mask == 0 ==> final(self).view() == old(self).view(),
    {
        let old_value = self.read(csr);
        if mask != 0 {
            self.write(csr, old_value & !mask);
        }
        old_value
    }

    /// Configure the vector length for a request: the granted length is the
    /// requested count capped at the limit the type word allows; the type is
    /// latched and `vstart` reset.
    pub fn vsetvli(&mut self, avl: u64, vtype_immediate: u64) -> (r: u64)
        ensures
            r == spec_new_vl(old(self).view().vlenb, avl, vtype_immediate),
            final(self).view() == (CsrState {
                vl: spec_new_vl(old(self).view().vlenb, avl, vtype_immediate),
                vtype: vtype_immediate,
                vstart: 0,
                ..old(self).view()
            }),
    {
        let f = (vtype_immediate / 8) % 8;
        let sew: u64 = if f == 0 {
            8
        } else if f == 1 {
            16
        } else if f == 2 {
            32
        } else if f == 3 {
            64
        } else if f == 4 {
            128
        } else if f == 5 {
            256
        } else if f == 6 {
            512
        } else {
            1024
        };
        let vlen: u64 = self.state.vlenb.wrapping_mul(8);
        let base: u64 = vlen / sew;
        let lmul = vtype_immediate % 8;
        let vlmax: u64 = if lmul == 0 {
            base
        } else if lmul == 1 {
            base.wrapping_mul(2)
        } else if lmul == 2 {
            base.wrapping_mul(4)
        } else if lmul == 3 {
            base.wrapping_mul(8)
        } else if lmul == 5 {
            base / 8
        } else if lmul == 6 {
            base / 4
        } else if lmul == 7 {
            base / 2
        } else {
            base
        };
        let new_vl = if avl <= vlmax {
            avl
        } else {
            vlmax
        };
        proof {
            assert(sew == spec_sew(old(self).view().vlenb, vtype_immediate));
            assert(vlmax == spec_vlmax(old(self).view().vlenb, vtype_immediate));
        }
        self.state.vl = new_vl;
        self.state.vtype = vtype_immediate;
        self.state.vstart = 0;
        new_vl
    }

    /// `vsetvli` with the five-bit immediate request count.
    pub fn vsetivli(&mut self, avl_immediate: u64, vtype_immediate: u64) -> (r: u64)
        ensures
            r == spec_new_vl(old(self).view().vlenb, avl_immediate & 0x1f, vtype_immediate),
            final(self).view() == (CsrState {
                vl: spec_new_vl(old(self).view().vlenb, avl_immediate & 0x1f, vtype_immediate),
                vtype: vtype_immediate,
                vstart: 0,
                ..old(self).view()
            }),
    {
        self.vsetvli(avl_immediate & 0x1f, vtype_immediate)
    }

    /// `vsetvli` with the request count and type taken from registers.
    pub fn vsetvl(&mut self, avl: u64, vtype_value: u64) -> (r: u64)
        ensures
            r == spec_new_vl(old(self).view().vlenb, avl, vtype_value),
            final(self).view() == (CsrState {
                vl: spec_new_vl(old(self).view().vlenb, avl, vtype_value),
                vtype: vtype_value,
                vstart: 0,
                ..old(self).view()
            }),
    {
        self.vsetvli(avl, vtype_value)
    }
}

} // verus!
