//! The bottom of a kernel's memory subsystem: a two-ended early allocator and
//! the decisions of the `mmap` system call.

pub mod align;
pub mod early;
pub mod early_model;
pub mod errno;
pub mod flags;
pub mod mmap;
pub mod mmap_runs;
pub mod syscall;

pub use early::EarlyAllocator;
pub use early_model::{AllocState, Op};
pub use errno::{abi_return, map_install_error, syscall_body, AbiPayload};
pub use flags::{MappingFlags, MmapFlags, MmapProt};
pub use mmap::{
    mmap_begin, mmap_step, page_align_up, MmapAction, MmapCall, MmapEvent, MmapRequest, MmapState,
};
pub use syscall::{dispatch, Dispatch, Syscall};
