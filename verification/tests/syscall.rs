use axmem_core::syscall::{openat_dir_ok, sys_ioctl, AT_FDCWD};
use axmem_core::{dispatch, Dispatch, MmapRequest, Syscall};

const ARGS: [usize; 6] = [3, 0x5000, 0x20, 0x7, 0x9, 0xb];

#[test]
fn known_numbers_reach_their_handlers() {
    assert_eq!(
        dispatch(29, ARGS),
        Dispatch::Run { call: Syscall::Ioctl { fd: 3, op: 0x5000, argp: 0x20 } }
    );
    assert_eq!(
        dispatch(56, ARGS),
        Dispatch::Run { call: Syscall::Openat { dfd: 3, fname: 0x5000, flags: 0x20, mode: 7 } }
    );
    assert_eq!(dispatch(57, ARGS), Dispatch::Run { call: Syscall::Close { fd: 3 } });
    assert_eq!(
        dispatch(63, ARGS),
        Dispatch::Run { call: Syscall::Read { fd: 3, buf: 0x5000, count: 0x20 } }
    );
    assert_eq!(
        dispatch(64, ARGS),
        Dispatch::Run { call: Syscall::Write { fd: 3, buf: 0x5000, count: 0x20 } }
    );
    assert_eq!(
        dispatch(66, ARGS),
        Dispatch::Run { call: Syscall::Writev { fd: 3, iov: 0x5000, iocnt: 0x20 } }
    );
    assert_eq!(dispatch(93, ARGS), Dispatch::Run { call: Syscall::Exit { status: 3 } });
    assert_eq!(dispatch(94, ARGS), Dispatch::Run { call: Syscall::ExitGroup { status: 3 } });
    assert_eq!(
        dispatch(96, ARGS),
        Dispatch::Run { call: Syscall::SetTidAddress { tid_ptr: 3 } }
    );
    assert_eq!(
        dispatch(222, ARGS),
        Dispatch::Run {
            call: Syscall::Mmap {
                request: MmapRequest {
                    addr: 3,
                    length: 0x5000,
                    prot: 0x20,
                    flags: 7,
                    fd: 9,
                    offset: 0xb,
                },
            },
        }
    );
}

#[test]
fn unknown_numbers_are_not_implemented() {
    let known = [29usize, 56, 57, 63, 64, 66, 93, 94, 96, 222];
    let mut num = 0usize;
    while num < 1000 {
        if !known.contains(&num) {
            assert_eq!(dispatch(num, ARGS), Dispatch::Return { value: -38 });
        } else {
            assert!(matches!(dispatch(num, ARGS), Dispatch::Run { .. }));
        }
        num += 1;
    }
    assert_eq!(dispatch(usize::MAX, ARGS), Dispatch::Return { value: -38 });
    assert_eq!(dispatch(223, [0; 6]), Dispatch::Return { value: -38 });
}

#[test]
fn registers_are_cut_to_the_width_of_the_parameter() {
    let args = [usize::MAX, 0, usize::MAX, usize::MAX, usize::MAX - 99, usize::MAX];
    assert_eq!(dispatch(57, args), Dispatch::Run { call: Syscall::Close { fd: -1 } });
    assert_eq!(
        dispatch(56, [(-100isize) as usize, 0x1000, 0x1_0000_0002, 0x1_0000_01a4, 0, 0]),
        Dispatch::Run {
            call: Syscall::Openat { dfd: AT_FDCWD, fname: 0x1000, flags: 2, mode: 0o644 },
        }
    );
    assert_eq!(
        dispatch(222, args),
        Dispatch::Run {
            call: Syscall::Mmap {
                request: MmapRequest {
                    addr: usize::MAX,
                    length: 0,
                    prot: -1,
                    flags: -1,
                    fd: -100,
                    offset: -1,
                },
            },
        }
    );
}

#[test]
fn ioctl_reports_success() {
    assert_eq!(sys_ioctl(1, 0x5401, 0), 0);
    assert_eq!(sys_ioctl(-1, usize::MAX, usize::MAX), 0);
}

#[test]
fn openat_takes_the_working_directory_only() {
    assert_eq!(AT_FDCWD, -100);
    assert!(openat_dir_ok(-100));
    assert!(!openat_dir_ok(3));
    assert!(!openat_dir_ok(0));
}
