use axerrno::{AxError, LinuxError};
use axmem_core::{abi_return, map_install_error, syscall_body};

#[test]
fn success_is_handed_back_as_it_is() {
    assert_eq!(abi_return(Ok(0isize)), 0);
    assert_eq!(abi_return(Ok(0x1000isize)), 0x1000);
    assert_eq!(abi_return(Ok(isize::MAX)), isize::MAX);
    assert_eq!(abi_return(Ok(-5isize)), -5);
}

#[test]
fn errors_are_negated_error_numbers() {
    assert_eq!(abi_return::<isize>(Err(LinuxError::EINVAL)), -22);
    assert_eq!(abi_return::<isize>(Err(LinuxError::ENOMEM)), -12);
    assert_eq!(abi_return::<isize>(Err(LinuxError::EBADF)), -9);
    assert_eq!(abi_return::<isize>(Err(LinuxError::EFAULT)), -14);
    assert_eq!(abi_return::<isize>(Err(LinuxError::EAGAIN)), -11);
    assert_eq!(abi_return::<isize>(Err(LinuxError::ENOSYS)), -38);
    assert_eq!(abi_return::<isize>(Err(LinuxError::EPERM)), -1);
    assert_eq!(abi_return::<isize>(Err(LinuxError::EHWPOISON)), -133);
}

#[test]
fn every_error_number_comes_back_negated() {
    let mut seen = 0;
    let mut n = 1i32;
    while n <= 133 {
        if let Ok(e) = LinuxError::try_from(n) {
            assert_eq!(abi_return::<isize>(Err(e)), -(n as isize));
            seen += 1;
        }
        n += 1;
    }
    assert_eq!(seen, 131);
}

#[test]
fn installer_errors_become_linux_errors() {
    assert_eq!(map_install_error(AxError::NoMemory), LinuxError::ENOMEM);
    assert_eq!(map_install_error(AxError::InvalidInput), LinuxError::EINVAL);
    assert_eq!(map_install_error(AxError::AlreadyExists), LinuxError::EAGAIN);
    assert_eq!(map_install_error(AxError::BadAddress), LinuxError::EAGAIN);
    assert_eq!(map_install_error(AxError::BadState), LinuxError::EAGAIN);
    assert_eq!(map_install_error(AxError::InvalidData), LinuxError::EAGAIN);
    assert_eq!(map_install_error(AxError::Unsupported), LinuxError::EAGAIN);
}

#[test]
fn handler_bodies_are_run_and_their_outcome_handed_back() {
    assert_eq!(syscall_body(|| Ok(5isize)), 5);
    assert_eq!(syscall_body(|| Ok(0x7fff_0000usize)), 0x7fff_0000);
    assert_eq!(syscall_body(|| Ok(-3i32)), -3);
    assert_eq!(syscall_body::<isize, _>(|| Err(LinuxError::EINVAL)), -22);
    assert_eq!(syscall_body::<i32, _>(|| Err(LinuxError::EBADF)), -9);
    let mut ran = 0;
    let value = syscall_body::<usize, _>(|| {
        ran += 1;
        Err(LinuxError::ENOMEM)
    });
    assert_eq!((value, ran), (-12, 1));
}

#[test]
fn payloads_of_other_widths_fill_the_register() {
    assert_eq!(abi_return(Ok(7i32)), 7);
    assert_eq!(abi_return(Ok(-1i32)), -1);
    assert_eq!(abi_return(Ok(i32::MIN)), i32::MIN as isize);
    assert_eq!(abi_return(Ok(3usize)), 3);
    assert_eq!(abi_return(Ok(usize::MAX)), -1);
    assert_eq!(abi_return(Ok(usize::MAX - 0xfff)), -4096);
    assert_eq!(abi_return::<i32>(Err(LinuxError::ENOENT)), -2);
    assert_eq!(abi_return::<usize>(Err(LinuxError::EIO)), -5);
}
