use doublejit_vm::runtime::syscall::{syscall_decision, SyscallAction};

#[test]
fn exit_and_exit_group_raise_the_exit_flag() {
    let (a, brk) = syscall_decision(93, 7, 0, 0, 0, 0, 0, 0x100000);
    assert_eq!(a, SyscallAction::Exit(7));
    assert_eq!(brk, 0x100000);

    let (a, _) = syscall_decision(94, 3, 0, 0, 0, 0, 0, 0x100000);
    assert_eq!(a, SyscallAction::Exit(3));
}

#[test]
fn write_hands_the_descriptor_work_to_the_host() {
    let (a, _) = syscall_decision(64, 1, 0x11000, 6, 0, 0, 0, 0x100000);
    assert_eq!(a, SyscallAction::WriteOut { fd: 1, addr: 0x11000, len: 6 });

    let (a, _) = syscall_decision(66, 2, 0x2000, 3, 0, 0, 0, 0x100000);
    assert_eq!(a, SyscallAction::WriteVec { fd: 2, iov: 0x2000, iovcnt: 3 });
}

#[test]
fn brk_moves_the_break_and_reports_it() {
    let (a, brk) = syscall_decision(214, 0, 0, 0, 0, 0, 0, 0x100000);
    assert_eq!(a, SyscallAction::Ret(0x100000));
    assert_eq!(brk, 0x100000);

    let (a, brk) = syscall_decision(214, 0x200000, 0, 0, 0, 0, 0, 0x100000);
    assert_eq!(a, SyscallAction::Ret(0x200000));
    assert_eq!(brk, 0x200000);
}

#[test]
fn unknown_numbers_answer_no_such_system_call() {
    let (a, _) = syscall_decision(1234, 0, 0, 0, 0, 0, 0, 0);
    assert_eq!(a, SyscallAction::Ret(-38));
    let (a, _) = syscall_decision(-5, 0, 0, 0, 0, 0, 0, 0);
    assert_eq!(a, SyscallAction::Ret(-38));
}

#[test]
fn missing_paths_answer_not_found() {
    let (a, _) = syscall_decision(89, 0x1000, 0x2000, 64, 0, 0, 0, 0);
    assert_eq!(a, SyscallAction::Ret(-2));
    let (a, _) = syscall_decision(21, 0x1000, 0, 0, 0, 0, 0, 0);
    assert_eq!(a, SyscallAction::Ret(-2));
}

#[test]
fn getcwd_writes_the_root_directory() {
    let (a, _) = syscall_decision(17, 0x3000, 64, 0, 0, 0, 0, 0);
    match a {
        SyscallAction::MemWrites { writes, ret } => {
            assert_eq!(ret, 0x3000);
            assert_eq!(writes.len(), 1);
            assert_eq!(writes[0].0, 0x3000);
            assert_eq!(writes[0].1, vec![b'/', 0]);
        },
        other => panic!("unexpected action {:?}", other),
    }
}

#[test]
fn uname_writes_the_synthetic_record() {
    let (a, _) = syscall_decision(160, 0x4000, 0, 0, 0, 0, 0, 0);
    match a {
        SyscallAction::MemWrites { writes, ret } => {
            assert_eq!(ret, 0);
            assert_eq!(writes.len(), 5);
            assert_eq!(writes[0].0, 0x4000);
            assert_eq!(writes[0].1, b"Linux\0".to_vec());
            assert_eq!(writes[4].0, 0x4000 + 260);
            assert_eq!(writes[4].1, b"riscv64\0".to_vec());
        },
        other => panic!("unexpected action {:?}", other),
    }
}

#[test]
fn getrandom_fills_the_deterministic_pattern() {
    let (a, _) = syscall_decision(278, 0x5000, 4, 0, 0, 0, 0, 0);
    match a {
        SyscallAction::MemWrites { writes, ret } => {
            assert_eq!(ret, 4);
            assert_eq!(writes[0].0, 0x5000);
            assert_eq!(writes[0].1, vec![42, 59, 76, 93]);
        },
        other => panic!("unexpected action {:?}", other),
    }
}

#[test]
fn identity_calls_report_the_fixed_ids() {
    for num in [172i64, 178, 96, 174, 175, 176, 177] {
        let (a, _) = syscall_decision(num, 0, 0, 0, 0, 0, 0, 0);
        assert_eq!(a, SyscallAction::Ret(1000));
    }
}
