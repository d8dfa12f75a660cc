//! Zero-dependency ELF reading: header views, section and program header
//! tables, and section-name resolution, all little-endian.
//!
//! Every multi-byte field is read through the verified little-endian
//! accessors, so each parse function's contract pins the exact bytes a field
//! comes from.  Malformed inputs (short files, out-of-range table entries)
//! are reported as errors, never reached by a panic.

use vstd::prelude::*;
use vstd::string::StringExecFns;

verus! {

pub const TYPE_LOOS: u32 = 0x60000000;

pub const TYPE_HIOS: u32 = 0x6fffffff;

pub const TYPE_LOPROC: u32 = 0x70000000;

pub const TYPE_HIPROC: u32 = 0x7fffffff;

pub const TYPE_GNU_RELRO: u32 = 0x6474e552;

pub const SHT_LOOS: u32 = 0x60000000;

pub const SHT_HIOS: u32 = 0x6fffffff;

pub const SHT_LOPROC: u32 = 0x70000000;

pub const SHT_HIPROC: u32 = 0x7fffffff;

pub const SHT_LOUSER: u32 = 0x80000000;

pub const SHT_HIUSER: u32 = 0xffffffff;

/// Why a binary was rejected.
#[derive(Debug, Clone, PartialEq, Eq)]
pub enum ElfError {
    /// The binary is malformed somewhere.
    Malformed(String),
    /// The binary does not meet a requirement.
    NotMeet(String),
    /// The magic is unknown.
    BadMagic(u64),
    /// A field points outside the file.
    AddressError(u64, String),
}

pub type ParseResult<T> = Result<T, ElfError>;

// ---------------------------------------------------------------------------
// Little-endian readers
// ---------------------------------------------------------------------------

pub open spec fn le16(b: Seq<u8>, off: int) -> u16 {
    (b[off] + b[off + 1] * 0x100) as u16
}

pub open spec fn le32(b: Seq<u8>, off: int) -> u32 {
    (b[off] + b[off + 1] * 0x100 + b[off + 2] * 0x10000 + b[off + 3] * 0x1000000) as u32
}

pub open spec fn le64(b: Seq<u8>, off: int) -> u64 {
    (le32(b, off) + le32(b, off + 4) * 0x100000000) as u64
}

fn read_u16(b: &[u8], off: usize) -> (r: u16)
    requires
        off + 2 <= b@.len(),
    ensures
        r == le16(b@, off as int),
{
    (b[off] as u16) + (b[off + 1] as u16) * 0x100
}

fn read_u32(b: &[u8], off: usize) -> (r: u32)
    requires
        off + 4 <= b@.len(),
    ensures
        r == le32(b@, off as int),
{
    (b[off] as u32) + (b[off + 1] as u32) * 0x100 + (b[off + 2] as u32) * 0x10000 + (b[off
        + 3] as u32) * 0x1000000
}

fn read_u64(b: &[u8], off: usize) -> (r: u64)
    requires
        off + 8 <= b@.len(),
    ensures
        r == le64(b@, off as int),
{
    let n = b.len();
    let lo = read_u32(b, off);
    let hi = read_u32(b, off + 4);
    (lo as u64) + (hi as u64) * 0x100000000
}

// ---------------------------------------------------------------------------
// Identification enums
// ---------------------------------------------------------------------------

#[derive(Copy, Clone, Debug, Eq, PartialEq, Structural)]
pub enum Class {
    Unspecified,
    ThirtyTwo,
    SixtyFour,
    OneTwentyEight,
    Other(u8),
}

#[derive(Copy, Clone, Debug, Eq, PartialEq, Structural)]
pub enum Data {
    Unspecified,
    LittleEndian,
    BigEndian,
    Other(u8),
}

#[derive(Copy, Clone, Debug, Eq, PartialEq, Structural)]
pub enum Version {
    Unspecified,
    Current,
    Other(u8),
}

#[derive(Copy, Clone, Debug, Eq, PartialEq, Structural)]
pub enum OsAbi {
    SystemV,
    HPUX,
    NetBSD,
    Linux,
    GNUHurd,
    Solaris,
    AIX,
    IRIX,
    FreeBSD,
    Tru64,
    NovellModesto,
    OpenBSD,
    OpenVMS,
    NonStopKernel,
    AROS,
    FenixOS,
    NuxiCloudABI,
    OpenVOS,
    Other(u8),
}

#[derive(Copy, Clone, Debug, PartialEq, Eq, Structural)]
pub enum Type {
    Unspecified,
    Relocatable,
    Executable,
    SharedObject,
    Core,
    ProcessorSpecific(u16),
}

#[allow(non_camel_case_types)]
#[derive(Debug, Clone, Copy, Eq, PartialEq, Structural)]
pub enum Machine {
    Unspecified,
    ATAT,
    Sparc,
    X86,
    MotorolaM68k,
    MotorolaM88k,
    IntelMCU,
    Intel80860,
    MIPS,
    IBMSystem370,
    MIPSRS3000,
    HPRISC,
    Intel80960,
    PowerPC,
    PowerPC64,
    S390,
    IBMSPU,
    NECV800,
    FujitsuFR20,
    TRWRH32,
    MotorolaRCE,
    ARMv7,
    DigitalAlpha,
    SuperH,
    SPARC9,
    SiemensTriCore,
    ArgonautRISC,
    HitachiH8300,
    HitachiH8300H,
    HitachiH8S,
    HitachiH8500,
    IA64,
    MIPSX,
    MotorolaColdFire,
    MotorolaM68HC12,
    FujitsuMMA,
    SiemensPCP,
    SonynCPU,
    DensoNDR1,
    MotorolaStar,
    ToyotaME16,
    ST100,
    TinyJ,
    AMDx64,
    TMS320C6000,
    MCSTElbrus,
    ARMv8,
    RISCV,
    BPF,
    WDC65C816,
    Other(u16),
}

#[derive(Debug, Clone, PartialEq, Eq, Copy, Structural)]
pub enum SectionHeaderType {
    SectionNull,
    ProgramBits,
    SymbolTable,
    StringTable,
    RelocationAddendTable,
    HashTable,
    DynamicLinkingTable,
    NOTE,
    NoBits,
    RelocationTable,
    SharedLibrary,
    DynamicSymbolTable,
    InitializeArray,
    TerminationArray,
    PreInitializeArray,
    Group,
    SymTabShIndex,
    OsSpecific(u32),
    ProcessorSpecific(u32),
    User(u32),
}

#[derive(Copy, Clone, Debug, Eq, PartialEq, Structural)]
pub enum ProgramHeaderType {
    Null,
    Load,
    Dynamic,
    Interp,
    Note,
    ShLib,
    Phdr,
    Tls,
    GnuRelro,
    OsSpecific(u32),
    ProcessorSpecific(u32),
}

// ---------------------------------------------------------------------------
// Headers
// ---------------------------------------------------------------------------

/// The identification bytes at the start of the file.
#[derive(Copy, Clone, Debug, PartialEq, Eq, Structural)]
pub struct HeaderPt1 {
    pub magic0: u8,
    pub magic1: u8,
    pub magic2: u8,
    pub magic3: u8,
    pub class: u8,
    pub data: u8,
    pub version: u8,
    pub os_abi: u8,
    pub abi_version: u8,
}

impl HeaderPt1 {
    pub open spec fn spec_class(self) -> Class {
        match self.class {
            0 => Class::Unspecified,
            1 => Class::ThirtyTwo,
            2 => Class::SixtyFour,
            _ => Class::Other(self.class),
        }
    }

    pub fn get_class(&self) -> (r: Class)
        ensures
            r == self.spec_class(),
    {
        match self.class {
            0 => Class::Unspecified,
            1 => Class::ThirtyTwo,
            2 => Class::SixtyFour,
            _ => Class::Other(self.class),
        }
    }

    pub open spec fn spec_data(self) -> Data {
        match self.data {
            0 => Data::Unspecified,
            1 => Data::LittleEndian,
            2 => Data::BigEndian,
            _ => Data::Other(self.data),
        }
    }

    pub fn get_data(&self) -> (r: Data)
        ensures
            r == self.spec_data(),
    {
        match self.data {
            0 => Data::Unspecified,
            1 => Data::LittleEndian,
            2 => Data::BigEndian,
            _ => Data::Other(self.data),
        }
    }

    pub open spec fn spec_version(self) -> Version {
        match self.version {
            0 => Version::Unspecified,
            1 => Version::Current,
            _ => Version::Other(self.version),
        }
    }

    pub fn get_version(&self) -> (r: Version)
        ensures
            r == self.spec_version(),
    {
        match self.version {
            0 => Version::Unspecified,
            1 => Version::Current,
            _ => Version::Other(self.version),
        }
    }

    pub fn get_os_abi(&self) -> (r: OsAbi)
        ensures
            r == spec_os_abi(self.os_abi),
    {
        os_abi_of(self.os_abi)
    }
}

/// The class-dependent part of the file header, with the field width of its
/// class.
#[derive(Copy, Clone, Debug, PartialEq, Eq, Structural)]
pub struct HeaderPt2_<P> {
    pub type_: u16,
    pub machine: u16,
    pub version: u32,
    pub entry_point: P,
    pub ph_offset: P,
    pub sh_offset: P,
    pub flags: u32,
    pub header_size: u16,
    pub ph_entry_size: u16,
    pub ph_count: u16,
    pub sh_entry_size: u16,
    pub sh_count: u16,
    pub sh_str_index: u16,
}

#[derive(Copy, Clone, Debug, PartialEq, Eq, Structural)]
pub enum HeaderPt2 {
    Header32(HeaderPt2_<u32>),
    Header64(HeaderPt2_<u64>),
}

impl HeaderPt2 {
    /// Byte size of this header part in the file.
    pub fn get_size(&self) -> (r: usize)
        ensures
            r == (match self {
                HeaderPt2::Header32(_) => 36int,
                HeaderPt2::Header64(_) => 48int,
            }),
    {
        match self {
            HeaderPt2::Header32(_) => 36,
            HeaderPt2::Header64(_) => 48,
        }
    }

    pub open spec fn spec_type(self) -> Type {
        let t = match self {
            HeaderPt2::Header32(h) => h.type_,
            HeaderPt2::Header64(h) => h.type_,
        };
        match t {
            0 => Type::Unspecified,
            1 => Type::Relocatable,
            2 => Type::Executable,
            3 => Type::SharedObject,
            4 => Type::Core,
            _ => Type::ProcessorSpecific(t),
        }
    }

    pub fn get_type(&self) -> (r: Type)
        ensures
            r == self.spec_type(),
    {
        let t = match self {
            HeaderPt2::Header32(h) => h.type_,
            HeaderPt2::Header64(h) => h.type_,
        };
        match t {
            0 => Type::Unspecified,
            1 => Type::Relocatable,
            2 => Type::Executable,
            3 => Type::SharedObject,
            4 => Type::Core,
            _ => Type::ProcessorSpecific(t),
        }
    }

    pub open spec fn spec_machine_field(self) -> u16 {
        match self {
            HeaderPt2::Header32(h) => h.machine,
            HeaderPt2::Header64(h) => h.machine,
        }
    }

    pub fn get_machine(&self) -> (r: Machine)
        ensures
            r == spec_machine(self.spec_machine_field()),
    {
        let m = match self {
            HeaderPt2::Header32(h) => h.machine,
            HeaderPt2::Header64(h) => h.machine,
        };
        machine_of(m)
    }

    pub fn get_version(&self) -> (r: u32)
        ensures
            r == (match self {
                HeaderPt2::Header32(h) => h.version,
                HeaderPt2::Header64(h) => h.version,
            }),
    {
        match self {
            HeaderPt2::Header32(h) => h.version,
            HeaderPt2::Header64(h) => h.version,
        }
    }

    pub open spec fn spec_entry_point(self) -> u64 {
        match self {
            HeaderPt2::Header32(h) => h.entry_point as u64,
            HeaderPt2::Header64(h) => h.entry_point,
        }
    }

    pub fn get_entry_point(&self) -> (r: u64)
        ensures
            r == self.spec_entry_point(),
    {
        match self {
            HeaderPt2::Header32(h) => h.entry_point as u64,
            HeaderPt2::Header64(h) => h.entry_point,
        }
    }

    pub open spec fn spec_ph_offset(self) -> u64 {
        match self {
            HeaderPt2::Header32(h) => h.ph_offset as u64,
            HeaderPt2::Header64(h) => h.ph_offset,
        }
    }

    pub fn get_ph_offset(&self) -> (r: u64)
        ensures
            r == self.spec_ph_offset(),
    {
        match self {
            HeaderPt2::Header32(h) => h.ph_offset as u64,
            HeaderPt2::Header64(h) => h.ph_offset,
        }
    }

    pub open spec fn spec_sh_offset(self) -> u64 {
        match self {
            HeaderPt2::Header32(h) => h.sh_offset as u64,
            HeaderPt2::Header64(h) => h.sh_offset,
        }
    }

    pub fn get_sh_offset(&self) -> (r: u64)
        ensures
            r == self.spec_sh_offset(),
    {
        match self {
            HeaderPt2::Header32(h) => h.sh_offset as u64,
            HeaderPt2::Header64(h) => h.sh_offset,
        }
    }

    pub fn get_flags(&self) -> (r: u32)
        ensures
            r == (match self {
                HeaderPt2::Header32(h) => h.flags,
                HeaderPt2::Header64(h) => h.flags,
            }),
    {
        match self {
            HeaderPt2::Header32(h) => h.flags,
            HeaderPt2::Header64(h) => h.flags,
        }
    }

    pub fn get_header_size(&self) -> (r: u16)
        ensures
            r == (match self {
                HeaderPt2::Header32(h) => h.header_size,
                HeaderPt2::Header64(h) => h.header_size,
            }),
    {
        match self {
            HeaderPt2::Header32(h) => h.header_size,
            HeaderPt2::Header64(h) => h.header_size,
        }
    }

    pub open spec fn spec_ph_entry_size(self) -> u16 {
        match self {
            HeaderPt2::Header32(h) => h.ph_entry_size,
            HeaderPt2::Header64(h) => h.ph_entry_size,
        }
    }

    pub fn get_ph_entry_size(&self) -> (r: u16)
        ensures
            r == self.spec_ph_entry_size(),
    {
        match self {
            HeaderPt2::Header32(h) => h.ph_entry_size,
            HeaderPt2::Header64(h) => h.ph_entry_size,
        }
    }

    pub open spec fn spec_ph_count(self) -> u16 {
        match self {
            HeaderPt2::Header32(h) => h.ph_count,
            HeaderPt2::Header64(h) => h.ph_count,
        }
    }

    pub fn get_ph_count(&self) -> (r: u16)
        ensures
            r == self.spec_ph_count(),
    {
        match self {
            HeaderPt2::Header32(h) => h.ph_count,
            HeaderPt2::Header64(h) => h.ph_count,
        }
    }

    pub open spec fn spec_sh_count(self) -> u16 {
        match self {
            HeaderPt2::Header32(h) => h.sh_count,
            HeaderPt2::Header64(h) => h.sh_count,
        }
    }

    pub fn get_sh_count(&self) -> (r: u16)
        ensures
            r == self.spec_sh_count(),
    {
        match self {
            HeaderPt2::Header32(h) => h.sh_count,
            HeaderPt2::Header64(h) => h.sh_count,
        }
    }

    pub open spec fn spec_sh_entry_size(self) -> u16 {
        match self {
            HeaderPt2::Header32(h) => h.sh_entry_size,
            HeaderPt2::Header64(h) => h.sh_entry_size,
        }
    }

    pub fn get_sh_entry_size(&self) -> (r: u16)
        ensures
            r == self.spec_sh_entry_size(),
    {
        match self {
            HeaderPt2::Header32(h) => h.sh_entry_size,
            HeaderPt2::Header64(h) => h.sh_entry_size,
        }
    }

    pub open spec fn spec_sh_str_index(self) -> u16 {
        match self {
            HeaderPt2::Header32(h) => h.sh_str_index,
            HeaderPt2::Header64(h) => h.sh_str_index,
        }
    }

    pub fn get_sh_str_index(&self) -> (r: u16)
        ensures
            r == self.spec_sh_str_index(),
    {
        match self {
            HeaderPt2::Header32(h) => h.sh_str_index,
            HeaderPt2::Header64(h) => h.sh_str_index,
        }
    }
}

// machine table
/// The machine a header names.
pub open spec fn spec_machine(m: u16) -> Machine {
    match m {
        0x4 => Machine::MotorolaM68k,
        0x5 => Machine::MotorolaM88k,
        0x6 => Machine::IntelMCU,
        0x7 => Machine::Intel80860,
        0x8 => Machine::MIPS,
        0x9 => Machine::IBMSystem370,
        0xa => Machine::MIPSRS3000,
        0xe => Machine::HPRISC,
        0x13 => Machine::Intel80960,
        0x14 => Machine::PowerPC,
        0x15 => Machine::PowerPC64,
        0x16 => Machine::S390,
        0x17 => Machine::IBMSPU,
        0x24 => Machine::NECV800,
        0x25 => Machine::FujitsuFR20,
        0x26 => Machine::TRWRH32,
        0x27 => Machine::MotorolaRCE,
        0x28 => Machine::ARMv7,
        0x29 => Machine::DigitalAlpha,
        0x2a => Machine::SuperH,
        0x2b => Machine::SPARC9,
        0x2c => Machine::SiemensTriCore,
        0x2d => Machine::ArgonautRISC,
        0x2e => Machine::HitachiH8300,
        0x2f => Machine::HitachiH8300H,
        0x30 => Machine::HitachiH8S,
        0x31 => Machine::HitachiH8500,
        0x32 => Machine::IA64,
        0x33 => Machine::MIPS,
        0x34 => Machine::MotorolaColdFire,
        0x35 => Machine::MotorolaM68HC12,
        0x36 => Machine::FujitsuMMA,
        0x37 => Machine::SiemensPCP,
        0x38 => Machine::SonynCPU,
        0x39 => Machine::DensoNDR1,
        0x3a => Machine::MotorolaStar,
        0x3b => Machine::ToyotaME16,
        0x3c => Machine::ST100,
        0x3d => Machine::TinyJ,
        0x3e => Machine::AMDx64,
        0x8c => Machine::TMS320C6000,
        0xaf => Machine::MCSTElbrus,
        0xb7 => Machine::ARMv8,
        0xf3 => Machine::RISCV,
        0xf7 => Machine::BPF,
        0x101 => Machine::WDC65C816,
        _ => Machine::Other(m),
    }
}

fn machine_of(m: u16) -> (r: Machine)
    ensures
        r == spec_machine(m),
{
    match m {
        0x4 => Machine::MotorolaM68k,
        0x5 => Machine::MotorolaM88k,
        0x6 => Machine::IntelMCU,
        0x7 => Machine::Intel80860,
        0x8 => Machine::MIPS,
        0x9 => Machine::IBMSystem370,
        0xa => Machine::MIPSRS3000,
        0xe => Machine::HPRISC,
        0x13 => Machine::Intel80960,
        0x14 => Machine::PowerPC,
        0x15 => Machine::PowerPC64,
        0x16 => Machine::S390,
        0x17 => Machine::IBMSPU,
        0x24 => Machine::NECV800,
        0x25 => Machine::FujitsuFR20,
        0x26 => Machine::TRWRH32,
        0x27 => Machine::MotorolaRCE,
        0x28 => Machine::ARMv7,
        0x29 => Machine::DigitalAlpha,
        0x2a => Machine::SuperH,
        0x2b => Machine::SPARC9,
        0x2c => Machine::SiemensTriCore,
        0x2d => Machine::ArgonautRISC,
        0x2e => Machine::HitachiH8300,
        0x2f => Machine::HitachiH8300H,
        0x30 => Machine::HitachiH8S,
        0x31 => Machine::HitachiH8500,
        0x32 => Machine::IA64,
        0x33 => Machine::MIPS,
        0x34 => Machine::MotorolaColdFire,
        0x35 => Machine::MotorolaM68HC12,
        0x36 => Machine::FujitsuMMA,
        0x37 => Machine::SiemensPCP,
        0x38 => Machine::SonynCPU,
        0x39 => Machine::DensoNDR1,
        0x3a => Machine::MotorolaStar,
        0x3b => Machine::ToyotaME16,
        0x3c => Machine::ST100,
        0x3d => Machine::TinyJ,
        0x3e => Machine::AMDx64,
        0x8c => Machine::TMS320C6000,
        0xaf => Machine::MCSTElbrus,
        0xb7 => Machine::ARMv8,
        0xf3 => Machine::RISCV,
        0xf7 => Machine::BPF,
        0x101 => Machine::WDC65C816,
        _ => Machine::Other(m),
    }
}

/// The OS ABI a header names.
pub open spec fn spec_os_abi(b: u8) -> OsAbi {
    match b {
        0x0 => OsAbi::SystemV,
        0x1 => OsAbi::HPUX,
        0x2 => OsAbi::NetBSD,
        0x3 => OsAbi::Linux,
        0x4 => OsAbi::GNUHurd,
        0x6 => OsAbi::Solaris,
        0x7 => OsAbi::AIX,
        0x8 => OsAbi::IRIX,
        0x9 => OsAbi::FreeBSD,
        0xa => OsAbi::Tru64,
        0xb => OsAbi::NovellModesto,
        0xc => OsAbi::OpenBSD,
        0xd => OsAbi::OpenVMS,
        0xe => OsAbi::NonStopKernel,
        0xf => OsAbi::AROS,
        0x10 => OsAbi::FenixOS,
        0x11 => OsAbi::NuxiCloudABI,
        0x12 => OsAbi::OpenVOS,
        _ => OsAbi::Other(b),
    }
}

fn os_abi_of(b: u8) -> (r: OsAbi)
    ensures
        r == spec_os_abi(b),
{
    match b {
        0x0 => OsAbi::SystemV,
        0x1 => OsAbi::HPUX,
        0x2 => OsAbi::NetBSD,
        0x3 => OsAbi::Linux,
        0x4 => OsAbi::GNUHurd,
        0x6 => OsAbi::Solaris,
        0x7 => OsAbi::AIX,
        0x8 => OsAbi::IRIX,
        0x9 => OsAbi::FreeBSD,
        0xa => OsAbi::Tru64,
        0xb => OsAbi::NovellModesto,
        0xc => OsAbi::OpenBSD,
        0xd => OsAbi::OpenVMS,
        0xe => OsAbi::NonStopKernel,
        0xf => OsAbi::AROS,
        0x10 => OsAbi::FenixOS,
        0x11 => OsAbi::NuxiCloudABI,
        0x12 => OsAbi::OpenVOS,
        _ => OsAbi::Other(b),
    }
}

/// Classification of a raw section-type value; unknown values are
/// malformed.
pub open spec fn spec_section_type(st: u32) -> Result<SectionHeaderType, ()> {
    if st == 0 { Ok(SectionHeaderType::SectionNull) }
    else if st == 1 { Ok(SectionHeaderType::ProgramBits) }
    else if st == 2 { Ok(SectionHeaderType::SymbolTable) }
    else if st == 3 { Ok(SectionHeaderType::StringTable) }
    else if st == 4 { Ok(SectionHeaderType::RelocationAddendTable) }
    else if st == 5 { Ok(SectionHeaderType::HashTable) }
    else if st == 6 { Ok(SectionHeaderType::DynamicLinkingTable) }
    else if st == 7 { Ok(SectionHeaderType::NOTE) }
    else if st == 8 { Ok(SectionHeaderType::NoBits) }
    else if st == 9 { Ok(SectionHeaderType::RelocationTable) }
    else if st == 10 { Ok(SectionHeaderType::SharedLibrary) }
    else if st == 11 { Ok(SectionHeaderType::DynamicSymbolTable) }
    else if st == 14 { Ok(SectionHeaderType::InitializeArray) }
    else if st == 15 { Ok(SectionHeaderType::TerminationArray) }
    else if st == 16 { Ok(SectionHeaderType::PreInitializeArray) }
    else if st == 17 { Ok(SectionHeaderType::Group) }
    else if st == 18 { Ok(SectionHeaderType::SymTabShIndex) }
    else if SHT_LOOS <= st <= SHT_HIOS { Ok(SectionHeaderType::OsSpecific(st)) }
    else if SHT_LOPROC <= st <= SHT_HIPROC { Ok(SectionHeaderType::ProcessorSpecific(st)) }
    else if SHT_LOUSER <= st { Ok(SectionHeaderType::User(st)) }
    else { Err(()) }
}

fn section_type_of(st: u32) -> (r: Result<SectionHeaderType, ()>)
    ensures
        r == spec_section_type(st),
{
    if st == 0 { Ok(SectionHeaderType::SectionNull) }
    else if st == 1 { Ok(SectionHeaderType::ProgramBits) }
    else if st == 2 { Ok(SectionHeaderType::SymbolTable) }
    else if st == 3 { Ok(SectionHeaderType::StringTable) }
    else if st == 4 { Ok(SectionHeaderType::RelocationAddendTable) }
    else if st == 5 { Ok(SectionHeaderType::HashTable) }
    else if st == 6 { Ok(SectionHeaderType::DynamicLinkingTable) }
    else if st == 7 { Ok(SectionHeaderType::NOTE) }
    else if st == 8 { Ok(SectionHeaderType::NoBits) }
    else if st == 9 { Ok(SectionHeaderType::RelocationTable) }
    else if st == 10 { Ok(SectionHeaderType::SharedLibrary) }
    else if st == 11 { Ok(SectionHeaderType::DynamicSymbolTable) }
    else if st == 14 { Ok(SectionHeaderType::InitializeArray) }
    else if st == 15 { Ok(SectionHeaderType::TerminationArray) }
    else if st == 16 { Ok(SectionHeaderType::PreInitializeArray) }
    else if st == 17 { Ok(SectionHeaderType::Group) }
    else if st == 18 { Ok(SectionHeaderType::SymTabShIndex) }
    else if st >= SHT_LOOS && st <= SHT_HIOS { Ok(SectionHeaderType::OsSpecific(st)) }
    else if st >= SHT_LOPROC && st <= SHT_HIPROC { Ok(SectionHeaderType::ProcessorSpecific(st)) }
    else if st >= SHT_LOUSER { Ok(SectionHeaderType::User(st)) }
    else { Err(()) }
}

// ---------------------------------------------------------------------------
// Section headers
// ---------------------------------------------------------------------------

/// A section header, with the field width of its class.
#[derive(Copy, Clone, Debug, PartialEq, Eq, Structural)]
pub struct SectionHeader_<P> {
    pub name: u32,
    pub section_type: u32,
    pub flags: P,
    pub address: P,
    pub offset: P,
    pub size: P,
    pub link: u32,
    pub info: u32,
    pub alignment: P,
    pub entry_size: P,
}

#[derive(Copy, Clone, Debug, PartialEq, Eq, Structural)]
pub enum SectionHeader {
    SectionHeader32(SectionHeader_<u32>),
    SectionHeader64(SectionHeader_<u64>),
}

/// The 40-byte 32-bit section header at `off`.
pub open spec fn spec_sec32(b: Seq<u8>, off: int) -> SectionHeader_<u32> {
    SectionHeader_ {
        name: le32(b, off),
        section_type: le32(b, off + 4),
        flags: le32(b, off + 8),
        address: le32(b, off + 12),
        offset: le32(b, off + 16),
        size: le32(b, off + 20),
        link: le32(b, off + 24),
        info: le32(b, off + 28),
        alignment: le32(b, off + 32),
        entry_size: le32(b, off + 36),
    }
}

/// The 64-byte 64-bit section header at `off`.
pub open spec fn spec_sec64(b: Seq<u8>, off: int) -> SectionHeader_<u64> {
    SectionHeader_ {
        name: le32(b, off),
        section_type: le32(b, off + 4),
        flags: le64(b, off + 8),
        address: le64(b, off + 16),
        offset: le64(b, off + 24),
        size: le64(b, off + 32),
        link: le32(b, off + 40),
        info: le32(b, off + 44),
        alignment: le64(b, off + 48),
        entry_size: le64(b, off + 56),
    }
}

fn parse_sec32(b: &[u8], off: usize) -> (r: SectionHeader_<u32>)
    requires
        off + 40 <= b@.len(),
    ensures
        r == spec_sec32(b@, off as int),
{
    let n = b.len();
    SectionHeader_ {
        name: read_u32(b, off),
        section_type: read_u32(b, off + 4),
        flags: read_u32(b, off + 8),
        address: read_u32(b, off + 12),
        offset: read_u32(b, off + 16),
        size: read_u32(b, off + 20),
        link: read_u32(b, off + 24),
        info: read_u32(b, off + 28),
        alignment: read_u32(b, off + 32),
        entry_size: read_u32(b, off + 36),
    }
}

fn parse_sec64(b: &[u8], off: usize) -> (r: SectionHeader_<u64>)
    requires
        off + 64 <= b@.len(),
    ensures
        r == spec_sec64(b@, off as int),
{
    let n = b.len();
    SectionHeader_ {
        name: read_u32(b, off),
        section_type: read_u32(b, off + 4),
        flags: read_u64(b, off + 8),
        address: read_u64(b, off + 16),
        offset: read_u64(b, off + 24),
        size: read_u64(b, off + 32),
        link: read_u32(b, off + 40),
        info: read_u32(b, off + 44),
        alignment: read_u64(b, off + 48),
        entry_size: read_u64(b, off + 56),
    }
}

impl SectionHeader {
    pub open spec fn spec_flags(self) -> u64 {
        match self {
            SectionHeader::SectionHeader32(h) => h.flags as u64,
            SectionHeader::SectionHeader64(h) => h.flags,
        }
    }

    pub fn get_flags(&self) -> (r: u64)
        ensures
            r == self.spec_flags(),
    {
        match self {
            SectionHeader::SectionHeader32(h) => h.flags as u64,
            SectionHeader::SectionHeader64(h) => h.flags,
        }
    }

    pub open spec fn spec_name_(self) -> u32 {
        match self {
            SectionHeader::SectionHeader32(h) => h.name,
            SectionHeader::SectionHeader64(h) => h.name,
        }
    }

    pub fn get_name_(&self) -> (r: u32)
        ensures
            r == self.spec_name_(),
    {
        match self {
            SectionHeader::SectionHeader32(h) => h.name,
            SectionHeader::SectionHeader64(h) => h.name,
        }
    }

    pub open spec fn spec_address(self) -> u64 {
        match self {
            SectionHeader::SectionHeader32(h) => h.address as u64,
            SectionHeader::SectionHeader64(h) => h.address,
        }
    }

    pub fn get_address(&self) -> (r: u64)
        ensures
            r == self.spec_address(),
    {
        match self {
            SectionHeader::SectionHeader32(h) => h.address as u64,
            SectionHeader::SectionHeader64(h) => h.address,
        }
    }

    pub fn get_align(&self) -> (r: u64)
        ensures
            r == (match self {
                SectionHeader::SectionHeader32(h) => h.alignment as u64,
                SectionHeader::SectionHeader64(h) => h.alignment,
            }),
    {
        match self {
            SectionHeader::SectionHeader32(h) => h.alignment as u64,
            SectionHeader::SectionHeader64(h) => h.alignment,
        }
    }

    pub fn get_entry_size(&self) -> (r: u64)
        ensures
            r == (match self {
                SectionHeader::SectionHeader32(h) => h.entry_size as u64,
                SectionHeader::SectionHeader64(h) => h.entry_size,
            }),
    {
        match self {
            SectionHeader::SectionHeader32(h) => h.entry_size as u64,
            SectionHeader::SectionHeader64(h) => h.entry_size,
        }
    }

    pub open spec fn spec_offset(self) -> u64 {
        match self {
            SectionHeader::SectionHeader32(h) => h.offset as u64,
            SectionHeader::SectionHeader64(h) => h.offset,
        }
    }

    pub fn get_offset(&self) -> (r: u64)
        ensures
            r == self.spec_offset(),
    {
        match self {
            SectionHeader::SectionHeader32(h) => h.offset as u64,
            SectionHeader::SectionHeader64(h) => h.offset,
        }
    }

    pub open spec fn spec_size(self) -> u64 {
        match self {
            SectionHeader::SectionHeader32(h) => h.size as u64,
            SectionHeader::SectionHeader64(h) => h.size,
        }
    }

    pub fn get_size(&self) -> (r: u64)
        ensures
            r == self.spec_size(),
    {
        match self {
            SectionHeader::SectionHeader32(h) => h.size as u64,
            SectionHeader::SectionHeader64(h) => h.size,
        }
    }

    pub fn get_link(&self) -> (r: u32)
        ensures
            r == (match self {
                SectionHeader::SectionHeader32(h) => h.link,
                SectionHeader::SectionHeader64(h) => h.link,
            }),
    {
        match self {
            SectionHeader::SectionHeader32(h) => h.link,
            SectionHeader::SectionHeader64(h) => h.link,
        }
    }

    pub fn get_info(&self) -> (r: u32)
        ensures
            r == (match self {
                SectionHeader::SectionHeader32(h) => h.info,
                SectionHeader::SectionHeader64(h) => h.info,
            }),
    {
        match self {
            SectionHeader::SectionHeader32(h) => h.info,
            SectionHeader::SectionHeader64(h) => h.info,
        }
    }

    pub open spec fn spec_section_type_field(self) -> u32 {
        match self {
            SectionHeader::SectionHeader32(h) => h.section_type,
            SectionHeader::SectionHeader64(h) => h.section_type,
        }
    }

    /// The classified section type; an unknown raw value is malformed.
    pub fn get_section_type(&self) -> (r: ParseResult<SectionHeaderType>)
        ensures
            r is Ok <==> spec_section_type(self.spec_section_type_field()) is Ok,
            r is Ok ==> r->Ok_0 == spec_section_type(self.spec_section_type_field())->Ok_0,
    {
        let st = match self {
            SectionHeader::SectionHeader32(h) => h.section_type,
            SectionHeader::SectionHeader64(h) => h.section_type,
        };
        match section_type_of(st) {
            Ok(t) => Ok(t),
            Err(_) => Err(ElfError::Malformed(String::from_str("Invalid sh type"))),
        }
    }

    /// Same classification, under the name callers use.
    pub fn get_type(&self) -> (r: ParseResult<SectionHeaderType>)
        ensures
            r is Ok <==> spec_section_type(self.spec_section_type_field()) is Ok,
            r is Ok ==> r->Ok_0 == spec_section_type(self.spec_section_type_field())->Ok_0,
    {
        self.get_section_type()
    }

    /// The section's bytes in the file: `offset` to `offset + size`.  A null
    /// section, or one whose range leaves the file, has no bytes here.
    pub fn raw_data(&self, elf_file: &ElfFile) -> (r: Vec<u8>)
        ensures
            r@ == (if self.spec_section_type_field() != 0 && self.spec_offset()
                + self.spec_size() <= elf_file.input@.len() {
                elf_file.input@.subrange(
                    self.spec_offset() as int,
                    self.spec_offset() + self.spec_size(),
                )
            } else {
                Seq::<u8>::empty()
            }),
    {
        let st = match self {
            SectionHeader::SectionHeader32(h) => h.section_type,
            SectionHeader::SectionHeader64(h) => h.section_type,
        };
        let off = self.get_offset();
        let size = self.get_size();
        let total = elf_file.input.len();
        if st != 0 && off <= u64::MAX - size && off + size <= total as u64 {
            let mut r: Vec<u8> = Vec::new();
            let mut i: usize = off as usize;
            let end: usize = (off + size) as usize;
            proof {
                assert(r@ =~= elf_file.input@.subrange(off as int, off as int));
            }
            while i < end
                invariant
                    off as int <= i as int <= end as int,
                    end as int <= elf_file.input@.len(),
                    r@ == elf_file.input@.subrange(off as int, i as int),
                decreases end - i,
            {
                r.push(elf_file.input[i]);
                proof {
                    assert(r@ =~= elf_file.input@.subrange(off as int, i as int + 1));
                }
                i = i + 1;
            }
            r
        } else {
            let r: Vec<u8> = Vec::new();
            proof {
                assert(r@ =~= Seq::<u8>::empty());
            }
            r
        }
    }

    /// Typed payload of the section.  Contents reach callers through
    /// `raw_data`; this classification answers `Empty` for every readable
    /// type.
    pub fn get_data(&self, elf_file: &ElfFile) -> (r: ParseResult<SectionData>)
        ensures
            r is Ok <==> spec_section_type(self.spec_section_type_field()) is Ok,
            r is Ok ==> r->Ok_0 is Empty,
    {
        let _ = elf_file;
        match self.get_section_type() {
            Ok(_) => Ok(SectionData::Empty),
            Err(e) => Err(e),
        }
    }

    /// Resolve the section's name through the section-name string table.
    /// A note section has no name here, and a name resolves exactly when
    /// the string-table header can be read; an ASCII name comes back
    /// character for character.
    pub fn get_name(&self, elf_file: &ElfFile) -> (r: ParseResult<String>)
        ensures
            self.spec_section_type_field() == 7 ==> r is Err,
            self.spec_section_type_field() != 7 ==> (r is Ok <==> spec_sec_ok(
                elf_file.header_part2,
                elf_file.input@,
                elf_file.header_part2.spec_sh_str_index(),
            )),
            self.spec_section_type_field() != 7 && r is Ok ==> ({
                let bytes = spec_name_bytes(elf_file.header_part2, elf_file.input@, *self);
                (forall|i: int| 0 <= i < bytes.len() ==> bytes[i] < 128) ==> r->Ok_0@
                    == crate::text::bytes_ascii_chars(bytes)
            }),
    {
        let st = match self {
            SectionHeader::SectionHeader32(h) => h.section_type,
            SectionHeader::SectionHeader64(h) => h.section_type,
        };
        if st == 7 {
            return Err(ElfError::Malformed(String::from_str("Attempt to get name of null section")));
        }
        elf_file.get_shstr(self.get_name_())
    }

    /// The exact bytes of the section's name: empty for a note section or
    /// an unreadable string table.
    pub fn name_bytes(&self, elf_file: &ElfFile) -> (r: Vec<u8>)
        ensures
            r@ == spec_name_bytes(elf_file.header_part2, elf_file.input@, *self),
    {
        let st = match self {
            SectionHeader::SectionHeader32(h) => h.section_type,
            SectionHeader::SectionHeader64(h) => h.section_type,
        };
        if st == 7 {
            let r: Vec<u8> = Vec::new();
            proof {
                assert(r@ =~= Seq::<u8>::empty());
            }
            return r;
        }
        match elf_file.get_shstr_bytes(self.get_name_()) {
            Ok(b) => b,
            Err(_) => {
                let r: Vec<u8> = Vec::new();
                proof {
                    assert(r@ =~= Seq::<u8>::empty());
                }
                r
            },
        }
    }
}

// ---------------------------------------------------------------------------
// Program headers
// ---------------------------------------------------------------------------

#[derive(Copy, Clone, Debug, Default, PartialEq, Eq, Structural)]
pub struct ProgramHeader32 {
    pub type_: u32,
    pub offset: u32,
    pub virtual_addr: u32,
    pub physical_addr: u32,
    pub file_size: u32,
    pub mem_size: u32,
    pub flags: u32,
    pub align: u32,
}

#[derive(Copy, Clone, Debug, Default, PartialEq, Eq, Structural)]
pub struct ProgramHeader64 {
    pub type_: u32,
    pub flags: u32,
    pub offset: u64,
    pub virtual_addr: u64,
    pub physical_addr: u64,
    pub file_size: u64,
    pub mem_size: u64,
    pub align: u64,
}

/// Classification of a raw program-header type; unknown values are
/// malformed.
pub open spec fn spec_ph_type(t: u32) -> Result<ProgramHeaderType, ()> {
    if t == 0 { Ok(ProgramHeaderType::Null) }
    else if t == 1 { Ok(ProgramHeaderType::Load) }
    else if t == 2 { Ok(ProgramHeaderType::Dynamic) }
    else if t == 3 { Ok(ProgramHeaderType::Interp) }
    else if t == 4 { Ok(ProgramHeaderType::Note) }
    else if t == 5 { Ok(ProgramHeaderType::ShLib) }
    else if t == 6 { Ok(ProgramHeaderType::Phdr) }
    else if t == 7 { Ok(ProgramHeaderType::Tls) }
    else if t == TYPE_GNU_RELRO { Ok(ProgramHeaderType::GnuRelro) }
    else if TYPE_LOOS <= t <= TYPE_HIOS { Ok(ProgramHeaderType::OsSpecific(t)) }
    else if TYPE_LOPROC <= t <= TYPE_HIPROC { Ok(ProgramHeaderType::ProcessorSpecific(t)) }
    else { Err(()) }
}

fn ph_type_of(t: u32) -> (r: Result<ProgramHeaderType, ()>)
    ensures
        r == spec_ph_type(t),
{
    if t == 0 { Ok(ProgramHeaderType::Null) }
    else if t == 1 { Ok(ProgramHeaderType::Load) }
    else if t == 2 { Ok(ProgramHeaderType::Dynamic) }
    else if t == 3 { Ok(ProgramHeaderType::Interp) }
    else if t == 4 { Ok(ProgramHeaderType::Note) }
    else if t == 5 { Ok(ProgramHeaderType::ShLib) }
    else if t == 6 { Ok(ProgramHeaderType::Phdr) }
    else if t == 7 { Ok(ProgramHeaderType::Tls) }
    else if t == TYPE_GNU_RELRO { Ok(ProgramHeaderType::GnuRelro) }
    else if t >= TYPE_LOOS && t <= TYPE_HIOS { Ok(ProgramHeaderType::OsSpecific(t)) }
    else if t >= TYPE_LOPROC && t <= TYPE_HIPROC { Ok(ProgramHeaderType::ProcessorSpecific(t)) }
    else { Err(()) }
}

impl ProgramHeader32 {
    /// The classified type; an unknown raw value is malformed.
    pub fn get_type(&self) -> (r: ParseResult<ProgramHeaderType>)
        ensures
            r is Ok <==> spec_ph_type(self.type_) is Ok,
            r is Ok ==> r->Ok_0 == spec_ph_type(self.type_)->Ok_0,
    {
        match ph_type_of(self.type_) {
            Ok(t) => Ok(t),
            Err(_) => Err(ElfError::Malformed(String::from_str("Invalid type"))),
        }
    }

    /// The segment's bytes in the file: `offset` to `offset + file_size`.
    /// A null segment, or one whose range leaves the file, has no bytes.
    pub fn raw_data(&self, elf_file: &ElfFile) -> (r: Vec<u8>)
        ensures
            r@ == (if self.type_ != 0 && self.offset + self.file_size <= elf_file.input@.len() {
                elf_file.input@.subrange(
                    self.offset as int,
                    self.offset + self.file_size,
                )
            } else {
                Seq::<u8>::empty()
            }),
    {
        copy_file_range(elf_file, self.type_, self.offset as u64, self.file_size as u64)
    }
}

impl ProgramHeader64 {
    /// The classified type; an unknown raw value is malformed.
    pub fn get_type(&self) -> (r: ParseResult<ProgramHeaderType>)
        ensures
            r is Ok <==> spec_ph_type(self.type_) is Ok,
            r is Ok ==> r->Ok_0 == spec_ph_type(self.type_)->Ok_0,
    {
        match ph_type_of(self.type_) {
            Ok(t) => Ok(t),
            Err(_) => Err(ElfError::Malformed(String::from_str("Invalid type"))),
        }
    }

    /// The segment's bytes in the file: `offset` to `offset + file_size`.
    pub fn raw_data(&self, elf_file: &ElfFile) -> (r: Vec<u8>)
        ensures
            r@ == (if self.type_ != 0 && self.offset + self.file_size <= elf_file.input@.len() {
                elf_file.input@.subrange(
                    self.offset as int,
                    self.offset + self.file_size,
                )
            } else {
                Seq::<u8>::empty()
            }),
    {
        copy_file_range(elf_file, self.type_, self.offset, self.file_size)
    }
}

/// Copy `offset .. offset + size` out of the file, empty when the type is
/// null or the range leaves the file.
fn copy_file_range(elf_file: &ElfFile, type_: u32, off: u64, size: u64) -> (r: Vec<u8>)
    ensures
        r@ == (if type_ != 0 && off + size <= elf_file.input@.len() {
            elf_file.input@.subrange(off as int, off as int + size as int)
        } else {
            Seq::<u8>::empty()
        }),
{
    let total = elf_file.input.len();
    if type_ != 0 && off <= u64::MAX - size && off + size <= total as u64 {
        let mut r: Vec<u8> = Vec::new();
        let mut i: usize = off as usize;
        let end: usize = (off + size) as usize;
        proof {
            assert(r@ =~= elf_file.input@.subrange(off as int, off as int));
        }
        while i < end
            invariant
                off as int <= i as int <= end as int,
                end as int <= elf_file.input@.len(),
                r@ == elf_file.input@.subrange(off as int, i as int),
            decreases end - i,
        {
            r.push(elf_file.input[i]);
            proof {
                assert(r@ =~= elf_file.input@.subrange(off as int, i as int + 1));
            }
            i = i + 1;
        }
        r
    } else {
        let r: Vec<u8> = Vec::new();
        proof {
            assert(r@ =~= Seq::<u8>::empty());
        }
        r
    }
}

#[derive(Copy, Clone, Debug, PartialEq, Eq, Structural)]
pub enum ProgramHeader {
    ProgramHeader32(ProgramHeader32),
    ProgramHeader64(ProgramHeader64),
}

/// A 32-bit program header at `off`.
pub open spec fn spec_ph32(b: Seq<u8>, off: int) -> ProgramHeader32 {
    ProgramHeader32 {
        type_: le32(b, off),
        offset: le32(b, off + 4),
        virtual_addr: le32(b, off + 8),
        physical_addr: le32(b, off + 12),
        file_size: le32(b, off + 16),
        mem_size: le32(b, off + 20),
        flags: le32(b, off + 24),
        align: le32(b, off + 28),
    }
}

/// A 64-bit program header at `off`.
pub open spec fn spec_ph64(b: Seq<u8>, off: int) -> ProgramHeader64 {
    ProgramHeader64 {
        type_: le32(b, off),
        flags: le32(b, off + 4),
        offset: le64(b, off + 8),
        virtual_addr: le64(b, off + 16),
        physical_addr: le64(b, off + 24),
        file_size: le64(b, off + 32),
        mem_size: le64(b, off + 40),
        align: le64(b, off + 48),
    }
}

fn parse_ph32(b: &[u8], off: usize) -> (r: ProgramHeader32)
    requires
        off + 32 <= b@.len(),
    ensures
        r == spec_ph32(b@, off as int),
{
    let n = b.len();
    ProgramHeader32 {
        type_: read_u32(b, off),
        offset: read_u32(b, off + 4),
        virtual_addr: read_u32(b, off + 8),
        physical_addr: read_u32(b, off + 12),
        file_size: read_u32(b, off + 16),
        mem_size: read_u32(b, off + 20),
        flags: read_u32(b, off + 24),
        align: read_u32(b, off + 28),
    }
}

fn parse_ph64(b: &[u8], off: usize) -> (r: ProgramHeader64)
    requires
        off + 56 <= b@.len(),
    ensures
        r == spec_ph64(b@, off as int),
{
    let n = b.len();
    ProgramHeader64 {
        type_: read_u32(b, off),
        flags: read_u32(b, off + 4),
        offset: read_u64(b, off + 8),
        virtual_addr: read_u64(b, off + 16),
        physical_addr: read_u64(b, off + 24),
        file_size: read_u64(b, off + 32),
        mem_size: read_u64(b, off + 40),
        align: read_u64(b, off + 48),
    }
}

impl ProgramHeader {
    /// The raw type field, unclassified.
    pub fn raw_type_field(&self) -> (r: u32)
        ensures
            r == self.spec_type_field(),
    {
        match self {
            ProgramHeader::ProgramHeader32(h) => h.type_,
            ProgramHeader::ProgramHeader64(h) => h.type_,
        }
    }

    pub open spec fn spec_type_field(self) -> u32 {
        match self {
            ProgramHeader::ProgramHeader32(h) => h.type_,
            ProgramHeader::ProgramHeader64(h) => h.type_,
        }
    }

    /// The classified type.  A header whose raw type is unknown does not
    /// classify; such headers are left out by the callers.
    pub fn get_type(&self) -> (r: ProgramHeaderType)
        requires
            spec_ph_type(self.spec_type_field()) is Ok,
        ensures
            r == spec_ph_type(self.spec_type_field())->Ok_0,
    {
        let t = match self {
            ProgramHeader::ProgramHeader32(h) => h.type_,
            ProgramHeader::ProgramHeader64(h) => h.type_,
        };
        match ph_type_of(t) {
            Ok(r) => r,
            Err(_) => ProgramHeaderType::Null,
        }
    }

    /// The segment's bytes in the file.
    pub fn get_data(&self, elf_file: &ElfFile) -> (r: SegmentData)
        ensures
            self.spec_type_field() == 0 ==> r == SegmentData::Empty,
    {
        match self {
            ProgramHeader::ProgramHeader32(h) => {
                if h.type_ == 0 {
                    SegmentData::Empty
                } else {
                    SegmentData::Undefined(h.raw_data(elf_file))
                }
            },
            ProgramHeader::ProgramHeader64(h) => {
                if h.type_ == 0 {
                    SegmentData::Empty
                } else {
                    SegmentData::Undefined(h.raw_data(elf_file))
                }
            },
        }
    }

    pub fn get_align(&self) -> (r: u64)
        ensures
            r == (match self {
                ProgramHeader::ProgramHeader32(h) => h.align as u64,
                ProgramHeader::ProgramHeader64(h) => h.align,
            }),
    {
        match self {
            ProgramHeader::ProgramHeader32(h) => h.align as u64,
            ProgramHeader::ProgramHeader64(h) => h.align,
        }
    }

    pub open spec fn spec_virtual_addr(self) -> u64 {
        match self {
            ProgramHeader::ProgramHeader32(h) => h.virtual_addr as u64,
            ProgramHeader::ProgramHeader64(h) => h.virtual_addr,
        }
    }

    pub fn get_virtual_addr(&self) -> (r: u64)
        ensures
            r == self.spec_virtual_addr(),
    {
        match self {
            ProgramHeader::ProgramHeader32(h) => h.virtual_addr as u64,
            ProgramHeader::ProgramHeader64(h) => h.virtual_addr,
        }
    }

    pub open spec fn spec_physical_addr(self) -> u64 {
        match self {
            ProgramHeader::ProgramHeader32(h) => h.physical_addr as u64,
            ProgramHeader::ProgramHeader64(h) => h.physical_addr,
        }
    }

    pub fn get_physical_addr(&self) -> (r: u64)
        ensures
            r == self.spec_physical_addr(),
    {
        match self {
            ProgramHeader::ProgramHeader32(h) => h.physical_addr as u64,
            ProgramHeader::ProgramHeader64(h) => h.physical_addr,
        }
    }

    pub open spec fn spec_file_size(self) -> u64 {
        match self {
            ProgramHeader::ProgramHeader32(h) => h.file_size as u64,
            ProgramHeader::ProgramHeader64(h) => h.file_size,
        }
    }

    pub fn get_file_size(&self) -> (r: u64)
        ensures
            r == self.spec_file_size(),
    {
        match self {
            ProgramHeader::ProgramHeader32(h) => h.file_size as u64,
            ProgramHeader::ProgramHeader64(h) => h.file_size,
        }
    }

    pub fn get_mem_size(&self) -> (r: u64)
        ensures
            r == (match self {
                ProgramHeader::ProgramHeader32(h) => h.mem_size as u64,
                ProgramHeader::ProgramHeader64(h) => h.mem_size,
            }),
    {
        match self {
            ProgramHeader::ProgramHeader32(h) => h.mem_size as u64,
            ProgramHeader::ProgramHeader64(h) => h.mem_size,
        }
    }

    pub open spec fn spec_offset(self) -> u64 {
        match self {
            ProgramHeader::ProgramHeader32(h) => h.offset as u64,
            ProgramHeader::ProgramHeader64(h) => h.offset,
        }
    }

    pub fn get_offset(&self) -> (r: u64)
        ensures
            r == self.spec_offset(),
    {
        match self {
            ProgramHeader::ProgramHeader32(h) => h.offset as u64,
            ProgramHeader::ProgramHeader64(h) => h.offset,
        }
    }

    /// The physical address, under the shorter name callers use.
    pub fn physical_addr(&self) -> (r: u64)
        ensures
            r == self.spec_physical_addr(),
    {
        self.get_physical_addr()
    }

    /// The virtual address, under the shorter name callers use.
    pub fn virtual_addr(&self) -> (r: u64)
        ensures
            r == self.spec_virtual_addr(),
    {
        self.get_virtual_addr()
    }

    pub fn get_flags(&self) -> (r: u32)
        ensures
            r == (match self {
                ProgramHeader::ProgramHeader32(h) => h.flags,
                ProgramHeader::ProgramHeader64(h) => h.flags,
            }),
    {
        match self {
            ProgramHeader::ProgramHeader32(h) => h.flags,
            ProgramHeader::ProgramHeader64(h) => h.flags,
        }
    }
}

// ---------------------------------------------------------------------------
// The file view
// ---------------------------------------------------------------------------

/// A parsed ELF file: the raw bytes and the two header parts.
pub struct ElfFile {
    pub input: Vec<u8>,
    pub header_part1: HeaderPt1,
    pub header_part2: HeaderPt2,
}

/// The identification header at the start of the file.
pub open spec fn spec_pt1(b: Seq<u8>) -> HeaderPt1 {
    HeaderPt1 {
        magic0: b[0],
        magic1: b[1],
        magic2: b[2],
        magic3: b[3],
        class: b[4],
        data: b[5],
        version: b[6],
        os_abi: b[7],
        abi_version: b[8],
    }
}

/// The class-dependent header part of a 32-bit file.
pub open spec fn spec_pt2_32(b: Seq<u8>) -> HeaderPt2_<u32> {
    HeaderPt2_ {
        type_: le16(b, 16),
        machine: le16(b, 18),
        version: le32(b, 20),
        entry_point: le32(b, 24),
        ph_offset: le32(b, 28),
        sh_offset: le32(b, 32),
        flags: le32(b, 36),
        header_size: le16(b, 40),
        ph_entry_size: le16(b, 42),
        ph_count: le16(b, 44),
        sh_entry_size: le16(b, 46),
        sh_count: le16(b, 48),
        sh_str_index: le16(b, 50),
    }
}

/// The class-dependent header part of a 64-bit file.
pub open spec fn spec_pt2_64(b: Seq<u8>) -> HeaderPt2_<u64> {
    HeaderPt2_ {
        type_: le16(b, 16),
        machine: le16(b, 18),
        version: le32(b, 20),
        entry_point: le64(b, 24),
        ph_offset: le64(b, 32),
        sh_offset: le64(b, 40),
        flags: le32(b, 48),
        header_size: le16(b, 52),
        ph_entry_size: le16(b, 54),
        ph_count: le16(b, 56),
        sh_entry_size: le16(b, 58),
        sh_count: le16(b, 60),
        sh_str_index: le16(b, 62),
    }
}

/// Whether the file is long enough for its class's headers.
pub open spec fn spec_elf_ok(b: Seq<u8>) -> bool {
    b.len() >= 16 && (b[4] == 1 && b.len() >= 52 || b[4] == 2 && b.len() >= 64)
}

/// The parsed headers of a well-formed prefix.
pub open spec fn spec_elf_pt2(b: Seq<u8>) -> HeaderPt2 {
    if b[4] == 1 {
        HeaderPt2::Header32(spec_pt2_32(b))
    } else {
        HeaderPt2::Header64(spec_pt2_64(b))
    }
}

/// The byte at which the section header table entry `index` starts.
pub open spec fn spec_sh_start(h2: HeaderPt2, index: u16) -> int {
    index * h2.spec_sh_entry_size() + h2.spec_sh_offset()
}

/// Whether section header `index` can be read: its class's struct fits in
/// the table entry and the entry lies inside the file.
pub open spec fn spec_sec_ok(h2: HeaderPt2, b: Seq<u8>, index: u16) -> bool {
    let need: int = match h2 {
        HeaderPt2::Header32(_) => 40,
        HeaderPt2::Header64(_) => 64,
    };
    h2.spec_sh_entry_size() >= need && spec_sh_start(h2, index) + h2.spec_sh_entry_size()
        <= b.len()
}

/// The section header at `index`.
pub open spec fn spec_sec(h2: HeaderPt2, b: Seq<u8>, index: u16) -> SectionHeader {
    match h2 {
        HeaderPt2::Header32(_) => SectionHeader::SectionHeader32(
            spec_sec32(b, spec_sh_start(h2, index)),
        ),
        HeaderPt2::Header64(_) => SectionHeader::SectionHeader64(
            spec_sec64(b, spec_sh_start(h2, index)),
        ),
    }
}

/// The byte at which program header `index` starts.
pub open spec fn spec_ph_start(h2: HeaderPt2, index: u16) -> int {
    h2.spec_ph_offset() + index * h2.spec_ph_entry_size()
}

/// Whether program header `index` can be read.
pub open spec fn spec_ph_ok(h2: HeaderPt2, b: Seq<u8>, index: u16) -> bool {
    let need: int = match h2 {
        HeaderPt2::Header32(_) => 32,
        HeaderPt2::Header64(_) => 56,
    };
    index < h2.spec_ph_count() && h2.spec_ph_offset() > 0 && h2.spec_ph_entry_size() >= need
        && spec_ph_start(h2, index) + h2.spec_ph_entry_size() <= b.len()
}

/// The program header at `index`.
pub open spec fn spec_ph(h2: HeaderPt2, b: Seq<u8>, index: u16) -> ProgramHeader {
    match h2 {
        HeaderPt2::Header32(_) => ProgramHeader::ProgramHeader32(
            spec_ph32(b, spec_ph_start(h2, index)),
        ),
        HeaderPt2::Header64(_) => ProgramHeader::ProgramHeader64(
            spec_ph64(b, spec_ph_start(h2, index)),
        ),
    }
}

/// The bytes of a NUL-terminated string starting at `off`, up to but not
/// including the first NUL, or to the end of the file when none follows.
pub open spec fn spec_cstr(b: Seq<u8>, off: int) -> Seq<u8>
    decreases b.len() - off,
{
    if off < 0 || off >= b.len() {
        Seq::<u8>::empty()
    } else if b[off] == 0 {
        Seq::<u8>::empty()
    } else {
        seq![b[off]] + spec_cstr(b, off + 1)
    }
}

/// Whether a program header points at a nonempty interpreter string that
/// lies inside the file.
pub open spec fn spec_interp_qualifies(ph: ProgramHeader, input: Seq<u8>) -> bool {
    ph.spec_type_field() == 3 && ph.spec_file_size() != 0 && ph.spec_offset()
        + ph.spec_file_size() <= input.len()
}

/// The offset and size of the first qualifying interpreter segment, walking
/// the program header table from `idx` and skipping unreadable entries.
pub open spec fn spec_find_interp(h2: HeaderPt2, input: Seq<u8>, idx: int) -> Option<(u64, u64)>
    decreases h2.spec_ph_count() - idx,
{
    if idx < 0 || idx >= h2.spec_ph_count() {
        Option::<(u64, u64)>::None
    } else if spec_ph_ok(h2, input, idx as u16) && spec_interp_qualifies(
        spec_ph(h2, input, idx as u16),
        input,
    ) {
        let ph = spec_ph(h2, input, idx as u16);
        Some((ph.spec_offset(), ph.spec_file_size()))
    } else {
        spec_find_interp(h2, input, idx + 1)
    }
}

/// The bytes of a section's name: the NUL-terminated run the name index
/// selects in the section-name string table; empty for a note section or
/// when the string table cannot be read.
pub open spec fn spec_name_bytes(h2: HeaderPt2, input: Seq<u8>, sec: SectionHeader) -> Seq<u8> {
    if sec.spec_section_type_field() == 7 {
        Seq::<u8>::empty()
    } else if spec_sec_ok(h2, input, h2.spec_sh_str_index()) {
        spec_cstr(
            input,
            spec_sec(h2, input, h2.spec_sh_str_index()).spec_offset() + sec.spec_name_(),
        )
    } else {
        Seq::<u8>::empty()
    }
}

impl ElfFile {
    /// Parse the two header parts.  Succeeds exactly on inputs long enough
    /// for their declared class; the header fields are the little-endian
    /// bytes at their standard offsets.
    pub fn new(input: &[u8]) -> (r: ParseResult<ElfFile>)
        ensures
            r is Ok <==> spec_elf_ok(input@),
            r is Ok ==> r->Ok_0.input@ == input@ && r->Ok_0.header_part1 == spec_pt1(input@)
                && r->Ok_0.header_part2 == spec_elf_pt2(input@),
    {
        let n = input.len();
        if n < 16 {
            return Err(
                ElfError::Malformed(String::from_str("File is shorter than the first ELF header")),
            );
        }
        let header_part1 = HeaderPt1 {
            magic0: input[0],
            magic1: input[1],
            magic2: input[2],
            magic3: input[3],
            class: input[4],
            data: input[5],
            version: input[6],
            os_abi: input[7],
            abi_version: input[8],
        };
        let header_part2 = if input[4] == 1 {
            if n < 52 {
                return Err(
                    ElfError::Malformed(String::from_str("File is shorter than the ELF header")),
                );
            }
            HeaderPt2::Header32(
                HeaderPt2_ {
                    type_: read_u16(input, 16),
                    machine: read_u16(input, 18),
                    version: read_u32(input, 20),
                    entry_point: read_u32(input, 24),
                    ph_offset: read_u32(input, 28),
                    sh_offset: read_u32(input, 32),
                    flags: read_u32(input, 36),
                    header_size: read_u16(input, 40),
                    ph_entry_size: read_u16(input, 42),
                    ph_count: read_u16(input, 44),
                    sh_entry_size: read_u16(input, 46),
                    sh_count: read_u16(input, 48),
                    sh_str_index: read_u16(input, 50),
                },
            )
        } else if input[4] == 2 {
            if n < 64 {
                return Err(
                    ElfError::Malformed(String::from_str("File is shorter than the ELF header")),
                );
            }
            HeaderPt2::Header64(
                HeaderPt2_ {
                    type_: read_u16(input, 16),
                    machine: read_u16(input, 18),
                    version: read_u32(input, 20),
                    entry_point: read_u64(input, 24),
                    ph_offset: read_u64(input, 32),
                    sh_offset: read_u64(input, 40),
                    flags: read_u32(input, 48),
                    header_size: read_u16(input, 52),
                    ph_entry_size: read_u16(input, 54),
                    ph_count: read_u16(input, 56),
                    sh_entry_size: read_u16(input, 58),
                    sh_count: read_u16(input, 60),
                    sh_str_index: read_u16(input, 62),
                },
            )
        } else {
            return Err(ElfError::Malformed(String::from_str("Invalid ELF Class")));
        };
        let mut owned: Vec<u8> = Vec::new();
        let mut i: usize = 0;
        while i < n
            invariant
                i <= n,
                n == input@.len(),
                owned@ == input@.subrange(0, i as int),
            decreases n - i,
        {
            owned.push(input[i]);
            proof {
                assert(owned@ =~= input@.subrange(0, i as int + 1));
            }
            i = i + 1;
        }
        proof {
            assert(owned@ =~= input@);
        }
        Ok(ElfFile { input: owned, header_part1, header_part2 })
    }

    /// Read section header `index` of the table inside `input`.  Succeeds
    /// exactly when the entry lies inside `input` and is wide enough for the
    /// class's header struct.
    pub fn parse_section_header(&self, input: &[u8], index: u16) -> (r: ParseResult<SectionHeader>)
        ensures
            r is Ok <==> spec_sec_ok(self.header_part2, input@, index),
            r is Ok ==> r->Ok_0 == spec_sec(self.header_part2, input@, index),
    {
        let n = input.len();
        let entsize = self.header_part2.get_sh_entry_size() as u64;
        let idx64 = index as u64;
        proof {
            assert(idx64 * entsize <= 0xffff * 0xffff) by (nonlinear_arith)
                requires
                    idx64 <= 0xffff,
                    entsize <= 0xffff,
            ;
        }
        let prod: u64 = idx64 * entsize;
        let shoff = self.header_part2.get_sh_offset();
        if shoff > u64::MAX - prod {
            return Err(ElfError::AddressError(u64::MAX, String::from_str("section header table overflows")));
        }
        let start: u64 = prod + shoff;
        let need: u64 = match self.header_part2 {
            HeaderPt2::Header32(_) => 40,
            HeaderPt2::Header64(_) => 64,
        };
        if entsize < need || start > u64::MAX - entsize || start + entsize > n as u64 {
            return Err(ElfError::AddressError(start, String::from_str("section header outside the file")));
        }
        match self.header_part2 {
            HeaderPt2::Header32(_) => Ok(
                SectionHeader::SectionHeader32(parse_sec32(input, start as usize)),
            ),
            HeaderPt2::Header64(_) => Ok(
                SectionHeader::SectionHeader64(parse_sec64(input, start as usize)),
            ),
        }
    }

    /// Read program header `index` of the table inside `input`.  Succeeds
    /// exactly when the table has such an entry inside `input`.
    pub fn parse_program_header(&self, input: &[u8], index: u16) -> (r: ParseResult<ProgramHeader>)
        ensures
            r is Ok <==> spec_ph_ok(self.header_part2, input@, index),
            r is Ok ==> r->Ok_0 == spec_ph(self.header_part2, input@, index),
    {
        let n = input.len();
        let entsize = self.header_part2.get_ph_entry_size() as u64;
        let phoff = self.header_part2.get_ph_offset();
        if !(index < self.header_part2.get_ph_count() && phoff > 0) {
            return Err(ElfError::Malformed(String::from_str("No Program Header in the file.")));
        }
        let need: u64 = match self.header_part2 {
            HeaderPt2::Header32(_) => 32,
            HeaderPt2::Header64(_) => 56,
        };
        let idx64 = index as u64;
        proof {
            assert(idx64 * entsize <= 0xffff * 0xffff) by (nonlinear_arith)
                requires
                    idx64 <= 0xffff,
                    entsize <= 0xffff,
            ;
        }
        let prod: u64 = idx64 * entsize;
        if phoff > u64::MAX - prod {
            return Err(ElfError::AddressError(u64::MAX, String::from_str("program header table overflows")));
        }
        let start: u64 = phoff + prod;
        if entsize < need || start > u64::MAX - entsize || start + entsize > n as u64 {
            return Err(ElfError::AddressError(start, String::from_str("program header outside the file")));
        }
        match self.header_part2 {
            HeaderPt2::Header32(_) => Ok(
                ProgramHeader::ProgramHeader32(parse_ph32(input, start as usize)),
            ),
            HeaderPt2::Header64(_) => Ok(
                ProgramHeader::ProgramHeader64(parse_ph64(input, start as usize)),
            ),
        }
    }

    /// Resolve an index in the section-name string table to its
    /// NUL-terminated bytes, exactly.
    pub fn get_shstr_bytes(&self, index: u32) -> (r: ParseResult<Vec<u8>>)
        ensures
            r is Ok <==> spec_sec_ok(self.header_part2, self.input@, self.header_part2.spec_sh_str_index()),
            r is Ok ==> ({
                let h = spec_sec(self.header_part2, self.input@, self.header_part2.spec_sh_str_index());
                r->Ok_0@ == spec_cstr(self.input@, h.spec_offset() + index)
            }),
    {
        let h = match self.parse_section_header(
            self.input.as_slice(),
            self.header_part2.get_sh_str_index(),
        ) {
            Ok(h) => h,
            Err(e) => {
                return Err(e);
            },
        };
        let off = h.get_offset();
        let total = self.input.len();
        let mut bytes: Vec<u8> = Vec::new();
        if off > u64::MAX - index as u64 || off + index as u64 > total as u64 {
            proof {
                assert(spec_cstr(self.input@, h.spec_offset() + index) =~= Seq::<u8>::empty());
                assert(bytes@ =~= Seq::<u8>::empty());
            }
            return Ok(bytes);
        }
        let start = (off + index as u64) as usize;
        let ghost startg = h.spec_offset() + index;
        proof {
            assert(bytes@ =~= self.input@.subrange(start as int, start as int));
            assert(bytes@ + spec_cstr(self.input@, start as int) =~= spec_cstr(
                self.input@,
                startg,
            ));
        }
        let mut i: usize = start;
        while i < total && self.input[i] != 0
            invariant
                start <= i <= total,
                total == self.input@.len(),
                startg == start as int,
                forall|j: int| start <= j < i ==> self.input@[j] != 0,
                spec_cstr(self.input@, startg) == bytes@ + spec_cstr(self.input@, i as int),
                bytes@ == self.input@.subrange(start as int, i as int),
            decreases total - i,
        {
            bytes.push(self.input[i]);
            proof {
                assert(bytes@ =~= self.input@.subrange(start as int, i as int + 1));
            }
            i = i + 1;
        }
        proof {
            assert(spec_cstr(self.input@, i as int) =~= Seq::<u8>::empty());
            assert(spec_cstr(self.input@, startg) =~= bytes@);
        }
        Ok(bytes)
    }

    /// Resolve an index in the section-name string table to its
    /// NUL-terminated text.
    pub fn get_shstr(&self, index: u32) -> (r: ParseResult<String>)
        ensures
            r is Ok <==> spec_sec_ok(self.header_part2, self.input@, self.header_part2.spec_sh_str_index()),
            r is Ok ==> ({
                let h = spec_sec(self.header_part2, self.input@, self.header_part2.spec_sh_str_index());
                let bytes = spec_cstr(self.input@, h.spec_offset() + index);
                (forall|i: int| 0 <= i < bytes.len() ==> bytes[i] < 128) ==> r->Ok_0@
                    == crate::text::bytes_ascii_chars(bytes)
            }),
    {
        match self.get_shstr_bytes(index) {
            Ok(bytes) => Ok(crate::text::bytes_to_string(bytes)),
            Err(e) => Err(e),
        }
    }

    /// The interpreter string of the first interpreter segment with a
    /// nonempty, in-file payload; `Malformed` when no segment qualifies.
    #[verifier::loop_isolation(false)]
    pub fn parse_interpreter(&mut self) -> (r: ParseResult<String>)
        ensures
            *final(self) == *old(self),
            r is Ok <==> spec_find_interp(old(self).header_part2, old(self).input@, 0) is Some,
            r is Ok ==> ({
                let found = spec_find_interp(old(self).header_part2, old(self).input@, 0)->0;
                let bytes = old(self).input@.subrange(found.0 as int, found.0 + found.1 - 1);
                (forall|i: int| 0 <= i < bytes.len() ==> bytes[i] < 128) ==> r->Ok_0@
                    == crate::text::bytes_ascii_chars(bytes)
            }),
    {
        let count = self.header_part2.get_ph_count();
        let mut idx: u16 = 0;
        proof {
            assert(spec_find_interp(self.header_part2, self.input@, 0) == spec_find_interp(
                self.header_part2,
                self.input@,
                0,
            ));
        }
        while idx < count
            invariant
                idx <= count,
                count == self.header_part2.spec_ph_count(),
                spec_find_interp(self.header_part2, self.input@, 0) == spec_find_interp(
                    self.header_part2,
                    self.input@,
                    idx as int,
                ),
            decreases count - idx,
        {
            let ph = self.parse_program_header(self.input.as_slice(), idx);
            match ph {
                Ok(ph) => {
                    let fsize = ph.get_file_size();
                    let off = ph.get_offset();
                    let total = self.input.len();
                    if ph.raw_type_field() == 3 && fsize != 0 && off <= u64::MAX - fsize && off
                        + fsize <= total as u64 {
                        let mut bytes: Vec<u8> = Vec::new();
                        let mut i: usize = off as usize;
                        let end = (off + fsize - 1) as usize;
                        proof {
                            assert(bytes@ =~= self.input@.subrange(off as int, off as int));
                        }
                        while i < end
                            invariant
                                off as int <= i as int <= end as int,
                                end as int <= self.input@.len(),
                                bytes@ == self.input@.subrange(off as int, i as int),
                            decreases end - i,
                        {
                            bytes.push(self.input[i]);
                            proof {
                                assert(bytes@ =~= self.input@.subrange(off as int, i as int + 1));
                            }
                            i = i + 1;
                        }
                        return Ok(crate::text::bytes_to_string(bytes));
                    }
                },
                Err(_) => {
                },
            }
            idx = idx + 1;
        }
        Err(ElfError::Malformed(String::from_str("No Interp")))
    }

    /// All section headers readable from index zero upward: the walk stops
    /// at the first entry that cannot be read.
    pub fn section_iter(&self) -> (r: SectionIter)
        ensures
            r.next_index == 0,
            r.sections@.len() <= self.header_part2.spec_sh_count(),
            forall|i: int|
                0 <= i < r.sections@.len() ==> spec_sec_ok(self.header_part2, self.input@, i as u16)
                    && r.sections@[i] == spec_sec(self.header_part2, self.input@, i as u16),
            r.sections@.len() < self.header_part2.spec_sh_count() ==> !spec_sec_ok(
                self.header_part2,
                self.input@,
                r.sections@.len() as u16,
            ),
    {
        let count = self.header_part2.get_sh_count();
        let mut sections: Vec<SectionHeader> = Vec::new();
        let mut idx: u16 = 0;
        let mut stopped = false;
        while idx < count && !stopped
            invariant
                idx <= count,
                count == self.header_part2.spec_sh_count(),
                sections@.len() <= idx,
                !stopped ==> sections@.len() == idx,
                forall|i: int|
                    0 <= i < sections@.len() ==> spec_sec_ok(
                        self.header_part2,
                        self.input@,
                        i as u16,
                    ) && sections@[i] == spec_sec(self.header_part2, self.input@, i as u16),
                stopped ==> sections@.len() < count && !spec_sec_ok(
                    self.header_part2,
                    self.input@,
                    sections@.len() as u16,
                ),
            decreases count - idx, (if stopped { 0int } else { 1int }),
        {
            match self.parse_section_header(self.input.as_slice(), idx) {
                Ok(h) => {
                    sections.push(h);
                    idx = idx + 1;
                },
                Err(_) => {
                    stopped = true;
                },
            }
        }
        SectionIter { sections, next_index: 0 }
    }

    /// All program headers readable from index zero upward, stopping at the
    /// first entry that cannot be read.
    pub fn program_iter(&self) -> (r: ProgramIter)
        ensures
            r.headers@.len() <= self.header_part2.spec_ph_count(),
            forall|i: int|
                0 <= i < r.headers@.len() ==> spec_ph_ok(self.header_part2, self.input@, i as u16)
                    && r.headers@[i] == spec_ph(self.header_part2, self.input@, i as u16),
    {
        let count = self.header_part2.get_ph_count();
        let mut headers: Vec<ProgramHeader> = Vec::new();
        let mut idx: u16 = 0;
        let mut stopped = false;
        while idx < count && !stopped
            invariant
                idx <= count,
                count == self.header_part2.spec_ph_count(),
                headers@.len() <= idx,
                !stopped ==> headers@.len() == idx,
                forall|i: int|
                    0 <= i < headers@.len() ==> spec_ph_ok(self.header_part2, self.input@, i as u16)
                        && headers@[i] == spec_ph(self.header_part2, self.input@, i as u16),
            decreases count - idx, (if stopped { 0int } else { 1int }),
        {
            match self.parse_program_header(self.input.as_slice(), idx) {
                Ok(h) => {
                    headers.push(h);
                    idx = idx + 1;
                },
                Err(_) => {
                    stopped = true;
                },
            }
        }
        ProgramIter { headers, next_index: 0 }
    }
}

/// A walk over the parsed section headers.
pub struct SectionIter {
    pub sections: Vec<SectionHeader>,
    pub next_index: usize,
}

impl SectionIter {
    /// The next section header, if any.
    pub fn next(&mut self) -> (r: Option<SectionHeader>)
        ensures
            old(self).next_index < old(self).sections@.len() ==> r == Some(
                old(self).sections@[old(self).next_index as int],
            ) && final(self).next_index == old(self).next_index + 1,
            old(self).next_index >= old(self).sections@.len() ==> r is None && *final(self)
                == *old(self),
            final(self).sections == old(self).sections,
    {
        if self.next_index < self.sections.len() {
            let h = self.sections[self.next_index];
            self.next_index = self.next_index + 1;
            Some(h)
        } else {
            Option::<SectionHeader>::None
        }
    }
}

/// A walk over the parsed program headers.
pub struct ProgramIter {
    pub headers: Vec<ProgramHeader>,
    pub next_index: usize,
}

impl ProgramIter {
    /// The next program header, if any.
    pub fn next(&mut self) -> (r: Option<ProgramHeader>)
        ensures
            old(self).next_index < old(self).headers@.len() ==> r == Some(
                old(self).headers@[old(self).next_index as int],
            ) && final(self).next_index == old(self).next_index + 1,
            old(self).next_index >= old(self).headers@.len() ==> r is None && *final(self)
                == *old(self),
            final(self).headers == old(self).headers,
    {
        if self.next_index < self.headers.len() {
            let h = self.headers[self.next_index];
            self.next_index = self.next_index + 1;
            Some(h)
        } else {
            Option::<ProgramHeader>::None
        }
    }
}

// ---------------------------------------------------------------------------
// Section and segment payload shapes
// ---------------------------------------------------------------------------

/// A symbol table entry of a 32-bit file.
#[derive(Copy, Clone, Debug, PartialEq, Eq, Structural)]
pub struct Entry32 {
    pub name: u32,
    pub value: u32,
    pub size: u32,
    pub info: u8,
    pub other: u8,
    pub shndx: u16,
}

/// A symbol table entry of a 64-bit file.
#[derive(Copy, Clone, Debug, PartialEq, Eq, Structural)]
pub struct Entry64 {
    pub name: u32,
    pub info: u8,
    pub other: u8,
    pub shndx: u16,
    pub value: u64,
    pub size: u64,
}

/// A dynamic-symbol table entry of a 32-bit file.
#[derive(Copy, Clone, Debug, PartialEq, Eq, Structural)]
pub struct DynEntry32 {
    pub entry: Entry32,
}

/// A dynamic-symbol table entry of a 64-bit file.
#[derive(Copy, Clone, Debug, PartialEq, Eq, Structural)]
pub struct DynEntry64 {
    pub entry: Entry64,
}

/// A dynamic-linking table entry.
#[derive(Copy, Clone, Debug, PartialEq, Eq, Structural)]
pub struct Dynamic {
    pub tag: Tag_,
    pub un: u64,
}

/// A raw dynamic-table tag value.
#[derive(Copy, Clone, Debug, PartialEq, Eq, Structural)]
pub struct Tag_(pub u64);

/// Classified dynamic-table tags.
#[derive(Debug, PartialEq, Eq, Clone, Copy, Structural)]
pub enum Tag {
    Null,
    Needed,
    PltRelSize,
    Pltgot,
    Hash,
    StrTab,
    SymTab,
    Rela,
    RelaSize,
    RelaEnt,
    StrSize,
    SymEnt,
    Init,
    Fini,
    SoName,
    RPath,
    Symbolic,
    Rel,
    RelSize,
    RelEnt,
    PltRel,
    Debug,
    TextRel,
    JmpRel,
    BindNow,
    InitArray,
    FiniArray,
    InitArraySize,
    FiniArraySize,
    RunPath,
    Flags,
    PreInitArray,
    PreInitArraySize,
    SymTabShIndex,
    Flags1,
    OsSpecific(u64),
    ProcessorSpecific(u64),
}

/// A relocation entry with addend.
#[derive(Copy, Clone, Debug, PartialEq, Eq, Structural)]
pub struct Rela {
    pub offset: u64,
    pub info: u64,
    pub addend: u64,
}

/// A relocation entry without addend.
#[derive(Copy, Clone, Debug, PartialEq, Eq, Structural)]
pub struct Rel {
    pub offset: u64,
    pub info: u64,
}

/// Symbol visibility.
#[derive(Copy, Clone, Debug, PartialEq, Eq, Structural)]
pub enum Visibility {
    Default,
    Internal,
    Hidden,
    Protected,
}

/// A note section's fixed-size header.
#[derive(Copy, Clone, Debug, PartialEq, Eq, Structural)]
pub struct NoteHeader {
    pub name_size: u32,
    pub desc_size: u32,
    pub type_: u32,
}

/// A hash table section's fixed-size header.
#[derive(Clone, Copy, Debug, PartialEq, Eq, Structural)]
pub struct HashTable {
    pub bucket_count: u32,
    pub chain_count: u32,
    pub first_bucket: u32,
}

/// Typed payload of a section.  Section contents reach callers through
/// `raw_data`; this classification only separates empty sections from ones
/// with bytes.
#[derive(Clone, Debug)]
pub enum SectionData {
    Empty,
    Undefined(Vec<u8>),
    StrArray(Vec<u8>),
    SymbolTable32(Vec<Entry32>),
    SymbolTable64(Vec<Entry64>),
    DynSymbolTable32(Vec<DynEntry32>),
    DynSymbolTable64(Vec<DynEntry64>),
    SymTabShIndex(Vec<u32>),
    Note64(NoteHeader, Vec<u8>),
    Rela64(Vec<Rela>),
    Rel64(Vec<Rel>),
    Dynamic64(Vec<Dynamic>),
    HashTable(HashTable),
}

/// Typed payload of a segment.
#[derive(Debug)]
pub enum SegmentData {
    Empty,
    Undefined(Vec<u8>),
    Dynamic64(Vec<Dynamic>),
    Note64(NoteHeader, Vec<u8>),
}

} // verus!
