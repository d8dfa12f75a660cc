//! The syscall dispatcher's decision logic.
//!
//! The host import receives the seven syscall registers and must act on the
//! outside world: set the exit flag, write guest memory to a descriptor, or
//! fill guest memory with synthetic data.  `syscall_decision` computes, from
//! the arguments and the current heap break alone, exactly which action the
//! host loop must perform and the new break; the host performs it and hands
//! the return value back to the guest's `a0`.

use vstd::prelude::*;
use vstd::string::StringSliceAdditionalSpecFns;

verus! {

/// What the host must do for one syscall.
#[derive(Debug, PartialEq, Eq)]
pub enum SyscallAction {
    /// Hand the value back to the guest, nothing else.
    Ret(i64),
    /// Raise the module's exit flag, then hand the value back.
    Exit(i64),
    /// Write `len` guest bytes at `addr` to descriptor `fd`; the return
    /// value is the count the host managed to write.
    WriteOut { fd: i64, addr: u64, len: u64 },
    /// Walk `iovcnt` iovec records at `iov` in guest memory, writing each
    /// buffer to descriptor `fd`; the return value is the total written.
    WriteVec { fd: i64, iov: u64, iovcnt: u64 },
    /// Write the given byte runs into guest memory, then hand back `ret`.
    MemWrites { writes: Vec<(u64, Vec<u8>)>, ret: i64 },
}

/// The byte runs of a `MemWrites` action.
pub open spec fn writes_view(w: Vec<(u64, Vec<u8>)>) -> Seq<(u64, Seq<u8>)> {
    w@.map_values(|p: (u64, Vec<u8>)| (p.0, p.1@))
}

/// `n` zero bytes.
pub open spec fn zeros(n: nat) -> Seq<u8> {
    Seq::new(n, |i: int| 0u8)
}

/// The four little-endian bytes of a 32-bit value.
pub open spec fn le4(v: u32) -> Seq<u8> {
    seq![
        (v % 0x100) as u8,
        ((v / 0x100) % 0x100) as u8,
        ((v / 0x10000) % 0x100) as u8,
        ((v / 0x1000000) % 0x100) as u8,
    ]
}

/// The eight little-endian bytes of a 64-bit value.
pub open spec fn le8(v: u64) -> Seq<u8> {
    le4((v % 0x100000000) as u32) + le4((v / 0x100000000) as u32)
}

/// The bytes of an ASCII string.
pub open spec fn sbytes(s: Seq<char>) -> Seq<u8> {
    Seq::new(s.len(), |i: int| s[i] as u8)
}

/// The synthetic stat record: a zeroed prefix, a character-device or
/// regular-file mode, owner and group one thousand, and a 4 KiB block size.
pub open spec fn spec_fstat_writes(fd: i64, addr: u64) -> Seq<(u64, Seq<u8>)> {
    let mode: u32 = if fd == 0 || fd == 1 || fd == 2 {
        0x21b6
    } else {
        0x81b6
    };
    seq![
        (addr, zeros(128)),
        (vstd::wrapping::u64_specs::wrapping_add(addr, 16), le4(mode)),
        (vstd::wrapping::u64_specs::wrapping_add(addr, 24), le4(1000)),
        (vstd::wrapping::u64_specs::wrapping_add(addr, 28), le4(1000)),
        (vstd::wrapping::u64_specs::wrapping_add(addr, 48), le8(4096)),
    ]
}

/// The synthetic time: a fixed second count and a zero fraction.
pub open spec fn spec_time_writes(addr: u64) -> Seq<(u64, Seq<u8>)> {
    seq![(addr, le8(1700000000) + le8(0))]
}

/// The synthetic system name record, one fixed string per 65-byte slot.
pub open spec fn spec_uname_writes(addr: u64) -> Seq<(u64, Seq<u8>)> {
    seq![
        (addr, sbytes("Linux\u{0}"@)),
        (vstd::wrapping::u64_specs::wrapping_add(addr, 65), sbytes("doublejit\u{0}"@)),
        (vstd::wrapping::u64_specs::wrapping_add(addr, 130), sbytes("5.15.0\u{0}"@)),
        (vstd::wrapping::u64_specs::wrapping_add(addr, 195), sbytes("#1 SMP\u{0}"@)),
        (vstd::wrapping::u64_specs::wrapping_add(addr, 260), sbytes("riscv64\u{0}"@)),
    ]
}

/// The root-directory answer of `getcwd`.
pub open spec fn spec_cwd_writes(addr: u64) -> Seq<(u64, Seq<u8>)> {
    seq![(addr, sbytes("/\u{0}"@))]
}

/// The deterministic byte pattern `getrandom` fills with.
pub open spec fn spec_random_bytes(n: nat) -> Seq<u8> {
    Seq::new(n, |i: int| ((i * 17 + 42) % 256) as u8)
}

/// Push literal ASCII text.
fn push_str_bytes(out: &mut Vec<u8>, s: &str)
    requires
        vstd::string::is_ascii(s),
    ensures
        final(out)@ == old(out)@ + sbytes(s@),
{
    proof {
        broadcast use vstd::string::is_ascii_spec_bytes;
    }
    let b = s.as_bytes();
    let mut i: usize = 0;
    while i < b.len()
        invariant
            i <= b@.len(),
            b@ == s.spec_bytes(),
            s.spec_bytes() =~= sbytes(s@),
            out@ == old(out)@ + sbytes(s@).take(i as int),
        decreases b.len() - i,
    {
        out.push(b[i]);
        proof {
            assert(out@ =~= old(out)@ + sbytes(s@).take(i as int + 1));
        }
        i = i + 1;
    }
    proof {
        assert(sbytes(s@).take(s@.len() as int) =~= sbytes(s@));
    }
}

/// Push `n` zero bytes.
fn push_zeros(out: &mut Vec<u8>, n: usize)
    ensures
        final(out)@ == old(out)@ + zeros(n as nat),
{
    let mut i: usize = 0;
    while i < n
        invariant
            i <= n,
            out@ == old(out)@ + zeros(i as nat),
        decreases n - i,
    {
        out.push(0);
        proof {
            assert(out@ =~= old(out)@ + zeros(i as nat + 1));
        }
        i = i + 1;
    }
}

/// Push the four little-endian bytes of a 32-bit value.
fn push_le4(out: &mut Vec<u8>, v: u32)
    ensures
        final(out)@ == old(out)@ + le4(v),
{
    out.push((v % 0x100) as u8);
    out.push(((v / 0x100) % 0x100) as u8);
    out.push(((v / 0x10000) % 0x100) as u8);
    out.push(((v / 0x1000000) % 0x100) as u8);
    proof {
        assert(out@ =~= old(out)@ + le4(v));
    }
}

/// Push the eight little-endian bytes of a 64-bit value.
fn push_le8(out: &mut Vec<u8>, v: u64)
    ensures
        final(out)@ == old(out)@ + le8(v),
{
    push_le4(out, (v % 0x100000000) as u32);
    push_le4(out, (v / 0x100000000) as u32);
    proof {
        assert(out@ =~= old(out)@ + le8(v));
    }
}

/// Decide what the host must do for one syscall.  The decision is a pure
/// function of the seven syscall registers and the current heap break:
/// `exit` and `exit_group` raise the exit flag and carry the status out;
/// `write` and `writev` hand the descriptor work to the host; the
/// information calls return fixed synthetic answers; `brk` moves the break;
/// every unknown number answers `-38`, no such system call.
///
/// Random fills are deliberately bounded: a request beyond 64 KiB answers
/// `-22`, invalid argument, rather than materialize an arbitrarily large
/// buffer for the host to copy -- callers ask for a few bytes of seed
/// material.
#[verifier::loop_isolation(false)]
pub fn syscall_decision(
    num: i64,
    a1: i64,
    a2: i64,
    a3: i64,
    a4: i64,
    a5: i64,
    a6: i64,
    brk: u64,
) -> (r: (SyscallAction, u64))
    ensures
        num == 93 || num == 94 ==> r.0 == SyscallAction::Exit(a1),
        num == 64 ==> r.0 == (SyscallAction::WriteOut {
            fd: a1,
            addr: a2 as u64,
            len: a3 as u64,
        }),
        num == 66 ==> r.0 == (SyscallAction::WriteVec {
            fd: a1,
            iov: a2 as u64,
            iovcnt: a3 as u64,
        }),
        num == 63 ==> r.0 == SyscallAction::Ret(0),
        num == 57 ==> r.0 == SyscallAction::Ret(0),
        num == 62 ==> r.0 == SyscallAction::Ret(a2),
        num == 80 ==> (r.0 matches SyscallAction::MemWrites { writes, ret } && writes_view(
            writes,
        ) == spec_fstat_writes(a1, a2 as u64) && ret == 0),
        num == 214 && a1 == 0 ==> r.0 == SyscallAction::Ret(brk as i64) && r.1 == brk,
        num == 214 && a1 != 0 ==> r.0 == SyscallAction::Ret(a1) && r.1 == a1 as u64,
        num == 169 ==> (r.0 matches SyscallAction::MemWrites { writes, ret } && writes_view(
            writes,
        ) == spec_time_writes(a1 as u64) && ret == 0),
        num == 113 || num == 403 ==> (r.0 matches SyscallAction::MemWrites { writes, ret }
            && writes_view(writes) == spec_time_writes(a2 as u64) && ret == 0),
        num == 174 || num == 175 || num == 176 || num == 177 ==> r.0 == SyscallAction::Ret(1000),
        num == 226 || num == 98 || num == 99 || num == 261 || num == 131 || num == 158 || num
            == 334 || num == 293 || num == 179 || num == 135 || num == 134 || num == 13 ==> r.0
            == SyscallAction::Ret(0),
        num == 222 ==> r.0 == SyscallAction::Ret(a1),
        num == 172 || num == 178 || num == 96 ==> r.0 == SyscallAction::Ret(1000),
        (num == 318 || num == 278) && 0 <= a2 <= 0x10000 ==> (r.0
            matches SyscallAction::MemWrites { writes, ret } && writes_view(writes) == seq![
            (a1 as u64, spec_random_bytes(a2 as nat)),
        ] && ret == a2),
        (num == 318 || num == 278) && !(0 <= a2 <= 0x10000) ==> r.0 == SyscallAction::Ret(-22i64),
        num == 89 || num == 21 ==> r.0 == SyscallAction::Ret(-2i64),
        num == 17 ==> (r.0 matches SyscallAction::MemWrites { writes, ret } && writes_view(
            writes,
        ) == spec_cwd_writes(a1 as u64) && ret == a1),
        num == 160 ==> (r.0 matches SyscallAction::MemWrites { writes, ret } && writes_view(
            writes,
        ) == spec_uname_writes(a1 as u64) && ret == 0),
        !(num == 93 || num == 94 || num == 64 || num == 66 || num == 63 || num == 57 || num == 62
            || num == 80 || num == 214 || num == 169 || num == 113 || num == 403 || num == 174
            || num == 175 || num == 176 || num == 177 || num == 226 || num == 98 || num == 99
            || num == 261 || num == 131 || num == 158 || num == 334 || num == 293 || num == 179
            || num == 135 || num == 134 || num == 13 || num == 222 || num == 172 || num == 178
            || num == 96 || num == 318 || num == 278 || num == 89 || num == 21 || num == 17
            || num == 160) ==> r.0 == SyscallAction::Ret(-38i64),
        num != 214 ==> r.1 == brk,
{
    if num == 93 || num == 94 {
        (SyscallAction::Exit(a1), brk)
    } else if num == 64 {
        (
            SyscallAction::WriteOut {
                fd: a1,
                addr: #[verifier::truncate] (a2 as u64),
                len: #[verifier::truncate] (a3 as u64),
            },
            brk,
        )
    } else if num == 66 {
        (
            SyscallAction::WriteVec {
                fd: a1,
                iov: #[verifier::truncate] (a2 as u64),
                iovcnt: #[verifier::truncate] (a3 as u64),
            },
            brk,
        )
    } else if num == 63 {
        (SyscallAction::Ret(0), brk)
    } else if num == 57 {
        (SyscallAction::Ret(0), brk)
    } else if num == 62 {
        (SyscallAction::Ret(a2), brk)
    } else if num == 80 {
        let addr = #[verifier::truncate] (a2 as u64);
        let mode: u32 = if a1 == 0 || a1 == 1 || a1 == 2 {
            0x21b6
        } else {
            0x81b6
        };
        let mut writes: Vec<(u64, Vec<u8>)> = Vec::new();
        let mut w0: Vec<u8> = Vec::new();
        push_zeros(&mut w0, 128);
        writes.push((addr, w0));
        let mut w1: Vec<u8> = Vec::new();
        push_le4(&mut w1, mode);
        writes.push((addr.wrapping_add(16), w1));
        let mut w2: Vec<u8> = Vec::new();
        push_le4(&mut w2, 1000);
        writes.push((addr.wrapping_add(24), w2));
        let mut w3: Vec<u8> = Vec::new();
        push_le4(&mut w3, 1000);
        writes.push((addr.wrapping_add(28), w3));
        let mut w4: Vec<u8> = Vec::new();
        push_le8(&mut w4, 4096);
        writes.push((addr.wrapping_add(48), w4));
        proof {
            assert(writes_view(writes) =~= spec_fstat_writes(a1, a2 as u64));
        }
        (SyscallAction::MemWrites { writes, ret: 0 }, brk)
    } else if num == 214 {
        if a1 == 0 {
            (SyscallAction::Ret(#[verifier::truncate] (brk as i64)), brk)
        } else {
            (SyscallAction::Ret(a1), #[verifier::truncate] (a1 as u64))
        }
    } else if num == 169 || num == 113 || num == 403 {
        let addr = if num == 169 {
            #[verifier::truncate] (a1 as u64)
        } else {
            #[verifier::truncate] (a2 as u64)
        };
        let mut writes: Vec<(u64, Vec<u8>)> = Vec::new();
        let mut w0: Vec<u8> = Vec::new();
        push_le8(&mut w0, 1700000000);
        push_le8(&mut w0, 0);
        writes.push((addr, w0));
        proof {
            assert(writes_view(writes) =~= spec_time_writes(addr));
        }
        (SyscallAction::MemWrites { writes, ret: 0 }, brk)
    } else if num == 174 || num == 175 || num == 176 || num == 177 {
        (SyscallAction::Ret(1000), brk)
    } else if num == 226 || num == 98 || num == 99 || num == 261 || num == 131 || num == 158
        || num == 334 || num == 293 || num == 179 || num == 135 || num == 134 || num == 13 {
        (SyscallAction::Ret(0), brk)
    } else if num == 222 {
        (SyscallAction::Ret(a1), brk)
    } else if num == 172 || num == 178 || num == 96 {
        (SyscallAction::Ret(1000), brk)
    } else if num == 318 || num == 278 {
        if 0 <= a2 && a2 <= 0x10000 {
            let addr = #[verifier::truncate] (a1 as u64);
            let n = a2 as usize;
            let mut pattern: Vec<u8> = Vec::new();
            let mut i: usize = 0;
            while i < n
                invariant
                    i <= n,
                    pattern@ == spec_random_bytes(i as nat),
                decreases n - i,
            {
                let b = ((i % 256) * 17 + 42) % 256;
                proof {
                    assert((i as int * 17 + 42) % 256 == ((i as int % 256) * 17 + 42) % 256)
                        by (nonlinear_arith);
                }
                pattern.push(b as u8);
                proof {
                    assert(pattern@ =~= spec_random_bytes(i as nat + 1));
                }
                i = i + 1;
            }
            let mut writes: Vec<(u64, Vec<u8>)> = Vec::new();
            writes.push((addr, pattern));
            proof {
                assert(writes_view(writes) =~= seq![(a1 as u64, spec_random_bytes(a2 as nat))]);
            }
            (SyscallAction::MemWrites { writes, ret: a2 }, brk)
        } else {
            (SyscallAction::Ret(-22), brk)
        }
    } else if num == 89 || num == 21 {
        (SyscallAction::Ret(-2), brk)
    } else if num == 17 {
        let addr = #[verifier::truncate] (a1 as u64);
        proof {
            reveal_strlit("/\u{0}");
            assert(vstd::string::is_ascii("/\u{0}"));
        }
        let mut writes: Vec<(u64, Vec<u8>)> = Vec::new();
        let mut w0: Vec<u8> = Vec::new();
        push_str_bytes(&mut w0, "/\u{0}");
        writes.push((addr, w0));
        proof {
            assert(writes_view(writes) =~= spec_cwd_writes(addr));
        }
        (SyscallAction::MemWrites { writes, ret: a1 }, brk)
    } else if num == 160 {
        let addr = #[verifier::truncate] (a1 as u64);
        proof {
            reveal_strlit("Linux\u{0}");
            reveal_strlit("doublejit\u{0}");
            reveal_strlit("5.15.0\u{0}");
            reveal_strlit("#1 SMP\u{0}");
            reveal_strlit("riscv64\u{0}");
            assert(vstd::string::is_ascii("Linux\u{0}"));
            assert(vstd::string::is_ascii("doublejit\u{0}"));
            assert(vstd::string::is_ascii("5.15.0\u{0}"));
            assert(vstd::string::is_ascii("#1 SMP\u{0}"));
            assert(vstd::string::is_ascii("riscv64\u{0}"));
        }
        let mut writes: Vec<(u64, Vec<u8>)> = Vec::new();
        let mut w0: Vec<u8> = Vec::new();
        push_str_bytes(&mut w0, "Linux\u{0}");
        writes.push((addr, w0));
        let mut w1: Vec<u8> = Vec::new();
        push_str_bytes(&mut w1, "doublejit\u{0}");
        writes.push((addr.wrapping_add(65), w1));
        let mut w2: Vec<u8> = Vec::new();
        push_str_bytes(&mut w2, "5.15.0\u{0}");
        writes.push((addr.wrapping_add(130), w2));
        let mut w3: Vec<u8> = Vec::new();
        push_str_bytes(&mut w3, "#1 SMP\u{0}");
        writes.push((addr.wrapping_add(195), w3));
        let mut w4: Vec<u8> = Vec::new();
        push_str_bytes(&mut w4, "riscv64\u{0}");
        writes.push((addr.wrapping_add(260), w4));
        proof {
            assert(writes_view(writes) =~= spec_uname_writes(addr));
        }
        (SyscallAction::MemWrites { writes, ret: 0 }, brk)
    } else {
        (SyscallAction::Ret(-38), brk)
    }
}

} // verus!
