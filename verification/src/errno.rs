//! Error numbers at the system-call boundary.

use axerrno::{AxError, LinuxError};
use vstd::prelude::*;

verus! {

/// The Linux error numbers of `axerrno`, an enum without fields; its variants
/// are read from the crate as they are declared there.
#[verifier::external_type_specification]
pub struct ExLinuxError(LinuxError);

/// The error kinds of `axerrno`, an enum without fields; its variants are
/// read from the crate as they are declared there.
#[verifier::external_type_specification]
pub struct ExAxError(AxError);

/// The number that Linux gives to each error.
pub open spec fn errno_of(e: LinuxError) -> int {
    match e {
        LinuxError::EPERM => 1,
        LinuxError::ENOENT => 2,
        LinuxError::ESRCH => 3,
        LinuxError::EINTR => 4,
        LinuxError::EIO => 5,
        LinuxError::ENXIO => 6,
        LinuxError::E2BIG => 7,
        LinuxError::ENOEXEC => 8,
        LinuxError::EBADF => 9,
        LinuxError::ECHILD => 10,
        LinuxError::EAGAIN => 11,
        LinuxError::ENOMEM => 12,
        LinuxError::EACCES => 13,
        LinuxError::EFAULT => 14,
        LinuxError::ENOTBLK => 15,
        LinuxError::EBUSY => 16,
        LinuxError::EEXIST => 17,
        LinuxError::EXDEV => 18,
        LinuxError::ENODEV => 19,
        LinuxError::ENOTDIR => 20,
        LinuxError::EISDIR => 21,
        LinuxError::EINVAL => 22,
        LinuxError::ENFILE => 23,
        LinuxError::EMFILE => 24,
        LinuxError::ENOTTY => 25,
        LinuxError::ETXTBSY => 26,
        LinuxError::EFBIG => 27,
        LinuxError::ENOSPC => 28,
        LinuxError::ESPIPE => 29,
        LinuxError::EROFS => 30,
        LinuxError::EMLINK => 31,
        LinuxError::EPIPE => 32,
        LinuxError::EDOM => 33,
        LinuxError::ERANGE => 34,
        LinuxError::EDEADLK => 35,
        LinuxError::ENAMETOOLONG => 36,
        LinuxError::ENOLCK => 37,
        LinuxError::ENOSYS => 38,
        LinuxError::ENOTEMPTY => 39,
        LinuxError::ELOOP => 40,
        LinuxError::ENOMSG => 42,
        LinuxError::EIDRM => 43,
        LinuxError::ECHRNG => 44,
        LinuxError::EL2NSYNC => 45,
        LinuxError::EL3HLT => 46,
        LinuxError::EL3RST => 47,
        LinuxError::ELNRNG => 48,
        LinuxError::EUNATCH => 49,
        LinuxError::ENOCSI => 50,
        LinuxError::EL2HLT => 51,
        LinuxError::EBADE => 52,
        LinuxError::EBADR => 53,
        LinuxError::EXFULL => 54,
        LinuxError::ENOANO => 55,
        LinuxError::EBADRQC => 56,
        LinuxError::EBADSLT => 57,
        LinuxError::EBFONT => 59,
        LinuxError::ENOSTR => 60,
        LinuxError::ENODATA => 61,
        LinuxError::ETIME => 62,
        LinuxError::ENOSR => 63,
        LinuxError::ENONET => 64,
        LinuxError::ENOPKG => 65,
        LinuxError::EREMOTE => 66,
        LinuxError::ENOLINK => 67,
        LinuxError::EADV => 68,
        LinuxError::ESRMNT => 69,
        LinuxError::ECOMM => 70,
        LinuxError::EPROTO => 71,
        LinuxError::EMULTIHOP => 72,
        LinuxError::EDOTDOT => 73,
        LinuxError::EBADMSG => 74,
        LinuxError::EOVERFLOW => 75,
        LinuxError::ENOTUNIQ => 76,
        LinuxError::EBADFD => 77,
        LinuxError::EREMCHG => 78,
        LinuxError::ELIBACC => 79,
        LinuxError::ELIBBAD => 80,
        LinuxError::ELIBSCN => 81,
        LinuxError::ELIBMAX => 82,
        LinuxError::ELIBEXEC => 83,
        LinuxError::EILSEQ => 84,
        LinuxError::ERESTART => 85,
        LinuxError::ESTRPIPE => 86,
        LinuxError::EUSERS => 87,
        LinuxError::ENOTSOCK => 88,
        LinuxError::EDESTADDRREQ => 89,
        LinuxError::EMSGSIZE => 90,
        LinuxError::EPROTOTYPE => 91,
        LinuxError::ENOPROTOOPT => 92,
        LinuxError::EPROTONOSUPPORT => 93,
        LinuxError::ESOCKTNOSUPPORT => 94,
        LinuxError::EOPNOTSUPP => 95,
        LinuxError::EPFNOSUPPORT => 96,
        LinuxError::EAFNOSUPPORT => 97,
        LinuxError::EADDRINUSE => 98,
        LinuxError::EADDRNOTAVAIL => 99,
        LinuxError::ENETDOWN => 100,
        LinuxError::ENETUNREACH => 101,
        LinuxError::ENETRESET => 102,
        LinuxError::ECONNABORTED => 103,
        LinuxError::ECONNRESET => 104,
        LinuxError::ENOBUFS => 105,
        LinuxError::EISCONN => 106,
        LinuxError::ENOTCONN => 107,
        LinuxError::ESHUTDOWN => 108,
        LinuxError::ETOOMANYREFS => 109,
        LinuxError::ETIMEDOUT => 110,
        LinuxError::ECONNREFUSED => 111,
        LinuxError::EHOSTDOWN => 112,
        LinuxError::EHOSTUNREACH => 113,
        LinuxError::EALREADY => 114,
        LinuxError::EINPROGRESS => 115,
        LinuxError::ESTALE => 116,
        LinuxError::EUCLEAN => 117,
        LinuxError::ENOTNAM => 118,
        LinuxError::ENAVAIL => 119,
        LinuxError::EISNAM => 120,
        LinuxError::EREMOTEIO => 121,
        LinuxError::EDQUOT => 122,
        LinuxError::ENOMEDIUM => 123,
        LinuxError::EMEDIUMTYPE => 124,
        LinuxError::ECANCELED => 125,
        LinuxError::ENOKEY => 126,
        LinuxError::EKEYEXPIRED => 127,
        LinuxError::EKEYREVOKED => 128,
        LinuxError::EKEYREJECTED => 129,
        LinuxError::EOWNERDEAD => 130,
        LinuxError::ENOTRECOVERABLE => 131,
        LinuxError::ERFKILL => 132,
        LinuxError::EHWPOISON => 133,
    }
}

/// `LinuxError::code` returns the variant's discriminant, which `axerrno`
/// declares to be the error's number in Linux's `errno.h`.
pub assume_specification[ LinuxError::code ](e: LinuxError) -> (r: i32)
    ensures
        r == errno_of(e),
;

/// Every error number is positive and small.
pub proof fn lemma_errno_range(e: LinuxError)
    ensures
        1 <= errno_of(e) <= 133,
{
}

/// The error that a failed installation of a mapping is reported as: out of
/// memory and invalid input keep their meaning, everything else asks the
/// caller to try again.
pub open spec fn install_error(e: AxError) -> LinuxError {
    match e {
        AxError::NoMemory => LinuxError::ENOMEM,
        AxError::InvalidInput => LinuxError::EINVAL,
        _ => LinuxError::EAGAIN,
    }
}

/// Turns an error of the address space's installer into a Linux error, see
/// [`install_error`].
pub fn map_install_error(e: AxError) -> (r: LinuxError)
    ensures
        r == install_error(e),
{
    match e {
        AxError::NoMemory => LinuxError::ENOMEM,
        AxError::InvalidInput => LinuxError::EINVAL,
        _ => LinuxError::EAGAIN,
    }
}

/// What a handler hands back on success: a value that goes into the
/// caller's register as it is, cut or widened to the register's width.
pub trait AbiPayload: Sized {
    /// The payload as it stands in the register.
    spec fn abi_spec(self) -> isize;

    /// Puts the payload into the register.
    fn into_abi(self) -> (r: isize)
        ensures
            r == self.abi_spec(),
    ;
}

impl AbiPayload for isize {
    open spec fn abi_spec(self) -> isize {
        self
    }

    fn into_abi(self) -> (r: isize) {
        self
    }
}

impl AbiPayload for usize {
    open spec fn abi_spec(self) -> isize {
        self as isize
    }

    fn into_abi(self) -> (r: isize) {
        self as isize
    }
}

impl AbiPayload for i32 {
    open spec fn abi_spec(self) -> isize {
        self as isize
    }

    fn into_abi(self) -> (r: isize) {
        self as isize
    }
}

/// The value that a system call hands back: the payload on success, the
/// negated error number on failure.
pub open spec fn abi_value<T: AbiPayload>(res: Result<T, LinuxError>) -> int {
    match res {
        Ok(v) => v.abi_spec() as int,
        Err(e) => -errno_of(e),
    }
}

/// Turns the outcome of a handler into the integer that goes back to the
/// caller's register.
pub fn abi_return<T: AbiPayload>(res: Result<T, LinuxError>) -> (r: isize)
    ensures
        r == abi_value(res),
        res is Err ==> -133 <= r <= -1,
{
    match res {
        Ok(v) => v.into_abi(),
        Err(e) => {
            let code: i32 = e.code();
            (-code) as isize
        },
    }
}

/// Runs the fallible part `f` of a handler and turns what comes of it into
/// the integer that goes back to the caller's register, whatever the type of
/// the handler's payload.
pub fn syscall_body<T: AbiPayload, F: FnOnce() -> Result<T, LinuxError>>(f: F) -> (r: isize)
    requires
        f.requires(()),
    ensures
        exists|res: Result<T, LinuxError>| f.ensures((), res) && r == abi_value(res),
{
    let res = f();
    abi_return(res)
}

} // verus!
