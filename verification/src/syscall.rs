//! The system-call table: which handler a trap goes to, and with which
//! arguments.

use crate::errno::{abi_return, errno_of};
use crate::mmap::MmapRequest;
use axerrno::LinuxError;
use vstd::prelude::*;

verus! {

pub const SYS_IOCTL: usize = 29;

pub const SYS_OPENAT: usize = 56;

pub const SYS_CLOSE: usize = 57;

pub const SYS_READ: usize = 63;

pub const SYS_WRITE: usize = 64;

pub const SYS_WRITEV: usize = 66;

pub const SYS_EXIT: usize = 93;

pub const SYS_EXIT_GROUP: usize = 94;

pub const SYS_SET_TID_ADDRESS: usize = 96;

pub const SYS_MMAP: usize = 222;

/// The directory descriptor that stands for the current working directory,
/// the only one that `openat` takes.
pub const AT_FDCWD: i32 = -100;

/// A system call with its arguments in their own types. Addresses in the
/// caller's memory are plain numbers.
#[derive(Clone, Copy, Debug, PartialEq, Eq, Structural)]
pub enum Syscall {
    Ioctl { fd: i32, op: usize, argp: usize },
    SetTidAddress { tid_ptr: usize },
    Openat { dfd: i32, fname: usize, flags: i32, mode: u32 },
    Close { fd: i32 },
    Read { fd: i32, buf: usize, count: usize },
    Write { fd: i32, buf: usize, count: usize },
    Writev { fd: i32, iov: usize, iocnt: i32 },
    /// The calling task ends with `status`.
    Exit { status: i32 },
    /// The calling task ends with `status`, as for `exit`.
    ExitGroup { status: i32 },
    Mmap { request: MmapRequest },
}

/// What a trap leads to.
#[derive(Clone, Copy, Debug, PartialEq, Eq, Structural)]
pub enum Dispatch {
    /// This handler runs.
    Run { call: Syscall },
    /// No handler runs; this value goes back to the caller.
    Return { value: isize },
}

/// Whether `num` is in the table.
pub open spec fn is_known_syscall(num: usize) -> bool {
    num == SYS_IOCTL || num == SYS_OPENAT || num == SYS_CLOSE || num == SYS_READ || num
        == SYS_WRITE || num == SYS_WRITEV || num == SYS_EXIT || num == SYS_EXIT_GROUP || num
        == SYS_SET_TID_ADDRESS || num == SYS_MMAP
}

/// The handler for `num`, with each argument register cut to the width of
/// its parameter.
pub open spec fn syscall_of(num: usize, args: [usize; 6]) -> Syscall
    recommends
        is_known_syscall(num),
{
    if num == SYS_IOCTL {
        Syscall::Ioctl { fd: args[0] as i32, op: args[1], argp: args[2] }
    } else if num == SYS_SET_TID_ADDRESS {
        Syscall::SetTidAddress { tid_ptr: args[0] }
    } else if num == SYS_OPENAT {
        Syscall::Openat {
            dfd: args[0] as i32,
            fname: args[1],
            flags: args[2] as i32,
            mode: args[3] as u32,
        }
    } else if num == SYS_CLOSE {
        Syscall::Close { fd: args[0] as i32 }
    } else if num == SYS_READ {
        Syscall::Read { fd: args[0] as i32, buf: args[1], count: args[2] }
    } else if num == SYS_WRITE {
        Syscall::Write { fd: args[0] as i32, buf: args[1], count: args[2] }
    } else if num == SYS_WRITEV {
        Syscall::Writev { fd: args[0] as i32, iov: args[1], iocnt: args[2] as i32 }
    } else if num == SYS_EXIT_GROUP {
        Syscall::ExitGroup { status: args[0] as i32 }
    } else if num == SYS_EXIT {
        Syscall::Exit { status: args[0] as i32 }
    } else {
        Syscall::Mmap {
            request: MmapRequest {
                addr: args[0],
                length: args[1],
                prot: args[2] as i32,
                flags: args[3] as i32,
                fd: args[4] as i32,
                offset: args[5] as isize,
            },
        }
    }
}

/// What the trap with number `num` and argument registers `args` leads to:
/// the handler from the table, or "function not implemented".
pub open spec fn dispatch_of(num: usize, args: [usize; 6]) -> Dispatch {
    if is_known_syscall(num) {
        Dispatch::Run { call: syscall_of(num, args) }
    } else {
        Dispatch::Return { value: (-errno_of(LinuxError::ENOSYS)) as isize }
    }
}

/// Routes a trap, see [`dispatch_of`].
pub fn dispatch(num: usize, args: [usize; 6]) -> (r: Dispatch)
    ensures
        r == dispatch_of(num, args),
        !is_known_syscall(num) ==> r == (Dispatch::Return { value: -38isize }),
{
    match num {
        SYS_IOCTL => Dispatch::Run {
            call: Syscall::Ioctl { fd: args[0] as i32, op: args[1], argp: args[2] },
        },
        SYS_SET_TID_ADDRESS => Dispatch::Run { call: Syscall::SetTidAddress { tid_ptr: args[0] } },
        SYS_OPENAT => Dispatch::Run {
            call: Syscall::Openat {
                dfd: args[0] as i32,
                fname: args[1],
                flags: args[2] as i32,
                mode: args[3] as u32,
            },
        },
        SYS_CLOSE => Dispatch::Run { call: Syscall::Close { fd: args[0] as i32 } },
        SYS_READ => Dispatch::Run {
            call: Syscall::Read { fd: args[0] as i32, buf: args[1], count: args[2] },
        },
        SYS_WRITE => Dispatch::Run {
            call: Syscall::Write { fd: args[0] as i32, buf: args[1], count: args[2] },
        },
        SYS_WRITEV => Dispatch::Run {
            call: Syscall::Writev { fd: args[0] as i32, iov: args[1], iocnt: args[2] as i32 },
        },
        SYS_EXIT_GROUP => Dispatch::Run { call: Syscall::ExitGroup { status: args[0] as i32 } },
        SYS_EXIT => Dispatch::Run { call: Syscall::Exit { status: args[0] as i32 } },
        SYS_MMAP => Dispatch::Run {
            call: Syscall::Mmap {
                request: MmapRequest {
                    addr: args[0],
                    length: args[1],
                    prot: args[2] as i32,
                    flags: args[3] as i32,
                    fd: args[4] as i32,
                    offset: args[5] as isize,
                },
            },
        },
        _ => Dispatch::Return { value: abi_return::<isize>(Err(LinuxError::ENOSYS)) },
    }
}

/// `ioctl` does nothing and reports success.
pub fn sys_ioctl(_fd: i32, _op: usize, _argp: usize) -> (r: i32)
    ensures
        r == 0,
{
    0
}

/// Whether `openat` takes the directory descriptor `dfd`: only the one that
/// stands for the current working directory.
pub fn openat_dir_ok(dfd: i32) -> (r: bool)
    ensures
        r == (dfd == AT_FDCWD),
{
    dfd == AT_FDCWD
}

} // verus!
