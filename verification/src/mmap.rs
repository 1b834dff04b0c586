//! The decisions of the `mmap` system call.
//!
//! The call is a dialogue: the handler names one piece of work on the address
//! space or on the file ([`MmapAction`]), whoever runs it reports how that
//! went ([`MmapEvent`]), and the handler decides what comes next, until it
//! names the value that goes back to the caller.

use crate::align::{checked_align_up, is_pow2, round_up};
use crate::errno::{abi_return, errno_of, install_error, map_install_error};
use crate::flags::{MappingFlags, MmapFlags, MmapProt};
use axerrno::{AxError, LinuxError};
use memory_addr::PAGE_SIZE_4K;
use vstd::arithmetic::power2::{lemma2_to64, pow2};
use vstd::prelude::*;

verus! {

/// The size of a page in bytes.
pub const PAGE_SIZE: usize = 0x1000;

/// `memory_addr::is_aligned_4k` tells whether the low twelve bits of `addr`
/// are clear, that is whether `addr` is a multiple of 4096.
pub assume_specification[ memory_addr::is_aligned_4k ](addr: usize) -> (r: bool)
    ensures
        r == (addr % 4096 == 0),
;

/// `memory_addr::PAGE_SIZE_4K`, the constant 0x1000.
#[verifier::external_body]
fn page_size_4k() -> (r: usize)
    ensures
        r == PAGE_SIZE,
{
    PAGE_SIZE_4K
}

/// The arguments of one `mmap` call, as they come from the caller.
#[derive(Clone, Copy, Debug, PartialEq, Eq, Structural)]
pub struct MmapRequest {
    /// Where to map: a hint, or the address itself under `MAP_FIXED`.
    pub addr: usize,
    /// Number of bytes to map.
    pub length: usize,
    /// Protection bits.
    pub prot: i32,
    /// Mapping flags.
    pub flags: i32,
    /// The file to map, unless the mapping is anonymous.
    pub fd: i32,
    /// Where in the file the mapping starts.
    pub offset: isize,
}

/// A request that passed validation.
#[derive(Clone, Copy, Debug, PartialEq, Eq, Structural)]
pub struct MmapCall {
    /// The requested address.
    pub hint: usize,
    /// Number of bytes asked for.
    pub length: usize,
    /// `length` rounded up to whole pages.
    pub aligned_length: usize,
    /// The flags of the request.
    pub flags: MmapFlags,
    /// The permissions to install the mapping with.
    pub perms: MappingFlags,
    /// The file to map.
    pub fd: i32,
    /// Where in the file the mapping starts.
    pub offset: isize,
}

/// One piece of work that the handler asks for.
#[derive(Clone, Copy, Debug, PartialEq, Eq, Structural)]
pub enum MmapAction {
    /// Report where the address space begins and how many bytes it spans.
    GetSpace,
    /// Find `len` free bytes within the `size` bytes from `base`, looking
    /// from `hint`.
    FindFreeArea { hint: usize, len: usize, base: usize, size: usize },
    /// Look up the file behind `fd`.
    GetFile { fd: i32 },
    /// Install a mapping of `len` bytes at `addr`; with `populate` it is
    /// backed by memory at once, not when it is first touched.
    MapAlloc { addr: usize, len: usize, perms: MappingFlags, populate: bool },
    /// Report where the cursor of `fd` stands, by seeking no byte from it.
    SaveCursor { fd: i32 },
    /// Move the cursor of `fd` to `offset` from the start of the file.
    Seek { fd: i32, offset: isize },
    /// Read at most `max` bytes from `fd` into the staging buffer at `at`.
    Read { fd: i32, at: usize, max: usize },
    /// Move the cursor of `fd` back to `pos` from the start of the file.
    RestoreCursor { fd: i32, pos: isize },
    /// Copy the first `len` bytes of the staging buffer to `addr`.
    Write { addr: usize, len: usize },
    /// Hand `value` back to the caller; the call is over.
    Return { value: isize },
}

/// How a piece of work went.
#[derive(Clone, Copy, Debug)]
pub enum MmapEvent {
    /// The address space begins at `base` and spans `size` bytes.
    SpaceMeasured { base: usize, size: usize },
    /// The search found this address, or nothing.
    AreaFound(Option<usize>),
    /// The file exists, or it does not.
    FileFound(Result<(), LinuxError>),
    /// The mapping was installed, or it was not.
    Mapped(Result<(), AxError>),
    /// The cursor stands here (or this is the error that asking gave).
    CursorSaved(isize),
    /// The cursor was moved to the offset; how that went does not matter.
    Sought,
    /// This many bytes were read, zero at the end of the file.
    ReadDone(Result<usize, LinuxError>),
    /// The cursor was moved back; how that went does not matter.
    Restored,
    /// The bytes were copied to the mapping, or they were not.
    Written(Result<(), AxError>),
}

/// Where a call stands: what was asked for last and has not been answered.
#[derive(Clone, Copy, Debug, PartialEq, Eq)]
pub enum MmapState {
    /// The address space is being measured.
    MeasuringSpace { call: MmapCall },
    /// A free area is being searched.
    FindingArea { call: MmapCall },
    /// The file is being looked up.
    LookingUpFile { call: MmapCall, start: usize },
    /// The mapping is being installed.
    Installing { call: MmapCall, start: usize },
    /// The file's cursor is being asked for.
    SavingCursor { call: MmapCall, start: usize },
    /// The file's cursor is being moved to the offset.
    Seeking { call: MmapCall, start: usize, cursor: isize },
    /// The file is being read; `total` bytes have come so far.
    Reading { call: MmapCall, start: usize, saved: Option<isize>, total: usize },
    /// The file's cursor is being moved back.
    RestoringCursor { call: MmapCall, start: usize, total: usize },
    /// The bytes read are being copied to the mapping.
    Writing { call: MmapCall, start: usize },
    /// The call is over.
    Finished,
}

/// `lseek` from the start of the file.
pub const SEEK_SET: i32 = 0;

/// `lseek` from where the cursor stands.
pub const SEEK_CUR: i32 = 1;

impl MmapAction {
    /// The descriptor, offset and origin of the `lseek` that does this piece
    /// of work, if it is one on the cursor.
    pub open spec fn lseek_of(self) -> Option<(i32, isize, i32)> {
        match self {
            MmapAction::SaveCursor { fd } => Some((fd, 0isize, SEEK_CUR)),
            MmapAction::Seek { fd, offset } => Some((fd, offset, SEEK_SET)),
            MmapAction::RestoreCursor { fd, pos } => Some((fd, pos, SEEK_SET)),
            _ => None,
        }
    }

    /// The arguments of the `lseek` that does this piece of work, see
    /// [`MmapAction::lseek_of`].
    pub fn lseek_call(&self) -> (r: Option<(i32, isize, i32)>)
        ensures
            r == self.lseek_of(),
    {
        match self {
            MmapAction::SaveCursor { fd } => Some((*fd, 0, SEEK_CUR)),
            MmapAction::Seek { fd, offset } => Some((*fd, *offset, SEEK_SET)),
            MmapAction::RestoreCursor { fd, pos } => Some((*fd, *pos, SEEK_SET)),
            _ => None,
        }
    }
}

/// `length` rounded up to whole pages.
pub open spec fn page_span(length: usize) -> int {
    round_up(length as int, PAGE_SIZE as int)
}

/// The value that stands for `e` in the caller's register.
pub open spec fn error_value(e: LinuxError) -> isize {
    (-errno_of(e)) as isize
}

/// The value that stands for the address `start` in the caller's register.
pub open spec fn address_value(start: usize) -> isize {
    start as isize
}

impl MmapRequest {
    /// Flags and protection mean something, and there is at least one byte
    /// to map whose pages can be counted.
    pub open spec fn well_formed(self) -> bool {
        &&& MmapFlags::known(self.flags)
        &&& MmapProt::known(self.prot)
        &&& self.length != 0
        &&& page_span(self.length) <= usize::MAX
    }

    /// The request, validated.
    pub open spec fn call(self) -> MmapCall {
        MmapCall {
            hint: self.addr,
            length: self.length,
            aligned_length: page_span(self.length) as usize,
            flags: MmapFlags::of_bits(self.flags),
            perms: MappingFlags::of_prot(MmapProt::of_bits(self.prot)),
            fd: self.fd,
            offset: self.offset,
        }
    }

    /// Validates the request. An unknown flag or protection bit, a length of
    /// zero and a length whose pages do not fit in the address space are
    /// invalid arguments.
    pub fn validate(&self) -> (r: Result<MmapCall, LinuxError>)
        ensures
            r == if self.well_formed() {
                Ok::<MmapCall, LinuxError>(self.call())
            } else {
                Err::<MmapCall, LinuxError>(LinuxError::EINVAL)
            },
    {
        let flags = match MmapFlags::from_bits(self.flags) {
            Some(f) => f,
            None => {
                return Err(LinuxError::EINVAL);
            },
        };
        let prot = match MmapProt::from_bits(self.prot) {
            Some(p) => p,
            None => {
                return Err(LinuxError::EINVAL);
            },
        };
        let aligned_length: usize = match page_align_up(self.length) {
            Some(l) => l,
            None => {
                return Err(LinuxError::EINVAL);
            },
        };
        if aligned_length == 0 {
            return Err(LinuxError::EINVAL);
        }
        Ok(
            MmapCall {
                hint: self.addr,
                length: self.length,
                aligned_length,
                flags,
                perms: MappingFlags::from(prot),
                fd: self.fd,
                offset: self.offset,
            },
        )
    }
}

/// 4096 is a power of two.
pub proof fn lemma_page_size_pow2()
    ensures
        is_pow2(PAGE_SIZE as int),
{
    lemma2_to64();
    assert(PAGE_SIZE == pow2(12));
}

/// Rounds `length` up to whole pages, if that many bytes fit in `usize`.
pub fn page_align_up(length: usize) -> (r: Option<usize>)
    ensures
        r == if page_span(length) <= usize::MAX {
            Some(page_span(length) as usize)
        } else {
            None
        },
        length == 0 <==> r == Some(0usize),
{
    proof {
        lemma_page_size_pow2();
    }
    checked_align_up(length, page_size_4k())
}

impl MmapCall {
    /// A validated call maps at least one byte, in whole pages.
    pub open spec fn valid(self) -> bool {
        &&& self.length >= 1
        &&& self.aligned_length == page_span(self.length)
    }

    /// Whether the call is as validation leaves it, see [`MmapCall::valid`].
    pub fn is_valid(&self) -> (r: bool)
        ensures
            r == self.valid(),
    {
        self.length >= 1 && match page_align_up(self.length) {
            Some(l) => self.aligned_length == l,
            None => false,
        }
    }

    /// What happens once the address `start` is settled: an anonymous
    /// mapping is installed at once, a file is looked up first, and a
    /// negative descriptor is no file.
    pub open spec fn at_address(self, start: usize) -> (MmapState, MmapAction) {
        if self.flags.anonymous {
            self.install(start)
        } else if self.fd < 0 {
            (MmapState::Finished, MmapAction::Return { value: error_value(LinuxError::EBADF) })
        } else {
            (MmapState::LookingUpFile { call: self, start }, MmapAction::GetFile { fd: self.fd })
        }
    }

    /// Asks for the mapping at `start`.
    pub open spec fn install(self, start: usize) -> (MmapState, MmapAction) {
        (
            MmapState::Installing { call: self, start },
            MmapAction::MapAlloc {
                addr: start,
                len: self.aligned_length,
                perms: self.perms,
                populate: true,
            },
        )
    }

    /// Asks for the next bytes of the file, `total` having come.
    pub open spec fn read_more(self, start: usize, saved: Option<isize>, total: usize) -> (
        MmapState,
        MmapAction,
    ) {
        (
            MmapState::Reading { call: self, start, saved, total },
            MmapAction::Read { fd: self.fd, at: total, max: (self.length - total) as usize },
        )
    }

    /// What happens once reading is over with `total` bytes: the cursor goes
    /// back if it was saved, then the bytes are copied.
    pub open spec fn after_reading(self, start: usize, saved: Option<isize>, total: usize) -> (
        MmapState,
        MmapAction,
    ) {
        match saved {
            Some(pos) => (
                MmapState::RestoringCursor { call: self, start, total },
                MmapAction::RestoreCursor { fd: self.fd, pos },
            ),
            None => self.copy(start, total),
        }
    }

    /// Asks for `total` bytes to be copied to the mapping.
    pub open spec fn copy(self, start: usize, total: usize) -> (MmapState, MmapAction) {
        (MmapState::Writing { call: self, start }, MmapAction::Write { addr: start, len: total })
    }
}

/// The end of a call with the error `e`.
pub open spec fn fail(e: LinuxError) -> (MmapState, MmapAction) {
    (MmapState::Finished, MmapAction::Return { value: error_value(e) })
}

/// The end of a call that mapped at `start`.
pub open spec fn succeed(start: usize) -> (MmapState, MmapAction) {
    (MmapState::Finished, MmapAction::Return { value: address_value(start) })
}

/// How a call begins: an invalid request ends at once; a fixed address must
/// lie on a page boundary and is then taken as it is; otherwise a free area
/// is searched from the hint, in all of the address space.
pub open spec fn mmap_first(req: MmapRequest) -> (MmapState, MmapAction) {
    if !req.well_formed() {
        fail(LinuxError::EINVAL)
    } else if req.call().flags.fixed {
        if req.addr % 4096 != 0 {
            fail(LinuxError::EINVAL)
        } else {
            req.call().at_address(req.addr)
        }
    } else {
        (MmapState::MeasuringSpace { call: req.call() }, MmapAction::GetSpace)
    }
}

impl MmapState {
    /// The call that this state belongs to.
    pub open spec fn call(self) -> MmapCall {
        match self {
            MmapState::MeasuringSpace { call } => call,
            MmapState::FindingArea { call } => call,
            MmapState::LookingUpFile { call, .. } => call,
            MmapState::Installing { call, .. } => call,
            MmapState::SavingCursor { call, .. } => call,
            MmapState::Seeking { call, .. } => call,
            MmapState::Reading { call, .. } => call,
            MmapState::RestoringCursor { call, .. } => call,
            MmapState::Writing { call, .. } => call,
            MmapState::Finished => arbitrary(),
        }
    }

    /// The state can be reached: its call is valid, a file is only touched
    /// for a mapping that has one, and reading goes on only while bytes are
    /// missing.
    pub open spec fn valid(self) -> bool {
        match self {
            MmapState::MeasuringSpace { call } => call.valid() && !call.flags.fixed,
            MmapState::FindingArea { call } => call.valid() && !call.flags.fixed,
            MmapState::LookingUpFile { call, .. } => call.valid() && !call.flags.anonymous
                && call.fd >= 0,
            MmapState::Installing { call, .. } => call.valid() && (call.flags.anonymous || call.fd
                >= 0),
            MmapState::SavingCursor { call, .. } => call.valid() && !call.flags.anonymous
                && call.offset != 0,
            MmapState::Seeking { call, .. } => call.valid() && !call.flags.anonymous && call.offset
                != 0,
            MmapState::Reading { call, saved, total, .. } => call.valid() && !call.flags.anonymous
                && total < call.length && (saved is Some <==> call.offset != 0),
            MmapState::RestoringCursor { call, total, .. } => call.valid() && !call.flags.anonymous
                && total <= call.length && call.offset != 0,
            MmapState::Writing { call, .. } => call.valid() && !call.flags.anonymous,
            MmapState::Finished => true,
        }
    }

    /// `event` answers what this state asked for. A read never reports more
    /// bytes than were asked for.
    pub open spec fn accepts(self, event: MmapEvent) -> bool {
        match (self, event) {
            (MmapState::MeasuringSpace { .. }, MmapEvent::SpaceMeasured { .. }) => true,
            (MmapState::FindingArea { .. }, MmapEvent::AreaFound(_)) => true,
            (MmapState::LookingUpFile { .. }, MmapEvent::FileFound(_)) => true,
            (MmapState::Installing { .. }, MmapEvent::Mapped(_)) => true,
            (MmapState::SavingCursor { .. }, MmapEvent::CursorSaved(_)) => true,
            (MmapState::Seeking { .. }, MmapEvent::Sought) => true,
            (MmapState::Reading { call, total, .. }, MmapEvent::ReadDone(res)) => match res {
                Ok(n) => total <= call.length && n <= call.length - total,
                Err(_) => true,
            },
            (MmapState::RestoringCursor { .. }, MmapEvent::Restored) => true,
            (MmapState::Writing { .. }, MmapEvent::Written(_)) => true,
            _ => false,
        }
    }

    /// An upper bound on the number of answers that the call still needs.
    pub open spec fn rank(self) -> nat {
        match self {
            MmapState::MeasuringSpace { call } => (call.length + 9) as nat,
            MmapState::FindingArea { call } => (call.length + 8) as nat,
            MmapState::LookingUpFile { call, .. } => (call.length + 7) as nat,
            MmapState::Installing { call, .. } => (call.length + 6) as nat,
            MmapState::SavingCursor { call, .. } => (call.length + 5) as nat,
            MmapState::Seeking { call, .. } => (call.length + 4) as nat,
            MmapState::Reading { call, total, .. } => (call.length - total + 3) as nat,
            MmapState::RestoringCursor { .. } => 2,
            MmapState::Writing { .. } => 1,
            MmapState::Finished => 0,
        }
    }

    /// Whether `event` answers what this state asked for, see
    /// [`MmapState::accepts`].
    pub fn can_take(&self, event: &MmapEvent) -> (r: bool)
        ensures
            r == self.accepts(*event),
    {
        match (self, event) {
            (MmapState::MeasuringSpace { .. }, MmapEvent::SpaceMeasured { .. }) => true,
            (MmapState::FindingArea { .. }, MmapEvent::AreaFound(_)) => true,
            (MmapState::LookingUpFile { .. }, MmapEvent::FileFound(_)) => true,
            (MmapState::Installing { .. }, MmapEvent::Mapped(_)) => true,
            (MmapState::SavingCursor { .. }, MmapEvent::CursorSaved(_)) => true,
            (MmapState::Seeking { .. }, MmapEvent::Sought) => true,
            (MmapState::Reading { call, total, .. }, MmapEvent::ReadDone(res)) => match res {
                Ok(n) => *total <= call.length && *n <= call.length - *total,
                Err(_) => true,
            },
            (MmapState::RestoringCursor { .. }, MmapEvent::Restored) => true,
            (MmapState::Writing { .. }, MmapEvent::Written(_)) => true,
            _ => false,
        }
    }

    /// Whether the state can be reached, see [`MmapState::valid`].
    pub fn is_valid(&self) -> (r: bool)
        ensures
            r == self.valid(),
    {
        match self {
            MmapState::MeasuringSpace { call } => call.is_valid() && !call.flags.fixed,
            MmapState::FindingArea { call } => call.is_valid() && !call.flags.fixed,
            MmapState::LookingUpFile { call, .. } => call.is_valid() && !call.flags.anonymous
                && call.fd >= 0,
            MmapState::Installing { call, .. } => call.is_valid() && (call.flags.anonymous
                || call.fd >= 0),
            MmapState::SavingCursor { call, .. } => call.is_valid() && !call.flags.anonymous
                && call.offset != 0,
            MmapState::Seeking { call, .. } => call.is_valid() && !call.flags.anonymous
                && call.offset != 0,
            MmapState::Reading { call, saved, total, .. } => call.is_valid()
                && !call.flags.anonymous && *total < call.length && (saved.is_some() == (
            call.offset != 0)),
            MmapState::RestoringCursor { call, total, .. } => call.is_valid()
                && !call.flags.anonymous && *total <= call.length && call.offset != 0,
            MmapState::Writing { call, .. } => call.is_valid() && !call.flags.anonymous,
            MmapState::Finished => true,
        }
    }

    /// Whether the call is over.
    pub fn is_finished(&self) -> (r: bool)
        ensures
            r == (*self == MmapState::Finished),
    {
        match self {
            MmapState::Finished => true,
            _ => false,
        }
    }
}

/// What follows when `state` gets the answer `event`.
///
/// The search covers the address space as it was measured. No area: out of
/// memory. A file that is not there, or that cannot be
/// read: that error, as it came. A mapping that cannot be installed: the
/// error that [`install_error`] gives. With an offset, the cursor is saved
/// and moved before the first read and moved back after the last one.
/// Reading stops at `length` bytes or at the end of the file, whichever
/// comes first. Bytes that cannot be copied: a bad address.
pub open spec fn mmap_next(state: MmapState, event: MmapEvent) -> (MmapState, MmapAction) {
    match (state, event) {
        (MmapState::MeasuringSpace { call }, MmapEvent::SpaceMeasured { base, size }) => (
            MmapState::FindingArea { call },
            MmapAction::FindFreeArea { hint: call.hint, len: call.aligned_length, base, size },
        ),
        (MmapState::FindingArea { call }, MmapEvent::AreaFound(found)) => match found {
            Some(start) => call.at_address(start),
            None => fail(LinuxError::ENOMEM),
        },
        (MmapState::LookingUpFile { call, start }, MmapEvent::FileFound(res)) => match res {
            Ok(_) => call.install(start),
            Err(e) => fail(e),
        },
        (MmapState::Installing { call, start }, MmapEvent::Mapped(res)) => match res {
            Ok(_) => if call.flags.anonymous {
                succeed(start)
            } else if call.offset != 0 {
                (
                    MmapState::SavingCursor { call, start },
                    MmapAction::SaveCursor { fd: call.fd },
                )
            } else {
                call.read_more(start, None, 0)
            },
            Err(e) => fail(install_error(e)),
        },
        (MmapState::SavingCursor { call, start }, MmapEvent::CursorSaved(pos)) => (
            MmapState::Seeking { call, start, cursor: pos },
            MmapAction::Seek { fd: call.fd, offset: call.offset },
        ),
        (MmapState::Seeking { call, start, cursor }, MmapEvent::Sought) => call.read_more(
            start,
            Some(cursor),
            0,
        ),
        (MmapState::Reading { call, start, saved, total }, MmapEvent::ReadDone(res)) => match res {
            Ok(n) => if n != 0 && total + n < call.length {
                call.read_more(start, saved, (total + n) as usize)
            } else {
                call.after_reading(start, saved, (total + n) as usize)
            },
            Err(e) => fail(e),
        },
        (MmapState::RestoringCursor { call, start, total }, MmapEvent::Restored) => call.copy(
            start,
            total,
        ),
        (MmapState::Writing { call, start }, MmapEvent::Written(res)) => match res {
            Ok(_) => succeed(start),
            Err(_) => fail(LinuxError::EFAULT),
        },
        _ => arbitrary(),
    }
}

/// The end of a call with the error `e`.
fn finish_with(e: LinuxError) -> (r: (MmapState, MmapAction))
    ensures
        r == fail(e),
{
    (MmapState::Finished, MmapAction::Return { value: abi_return::<isize>(Err(e)) })
}

/// The end of a call that mapped at `start`.
fn finish_at(start: usize) -> (r: (MmapState, MmapAction))
    ensures
        r == succeed(start),
{
    (MmapState::Finished, MmapAction::Return { value: abi_return(Ok(start as isize)) })
}

/// What happens once the address `start` is settled.
fn settle(call: MmapCall, start: usize) -> (r: (MmapState, MmapAction))
    ensures
        r == call.at_address(start),
{
    if call.flags.anonymous {
        (
            MmapState::Installing { call, start },
            MmapAction::MapAlloc {
                addr: start,
                len: call.aligned_length,
                perms: call.perms,
                populate: true,
            },
        )
    } else if call.fd < 0 {
        finish_with(LinuxError::EBADF)
    } else {
        (MmapState::LookingUpFile { call, start }, MmapAction::GetFile { fd: call.fd })
    }
}

/// Begins a call: validates the request and names the first piece of work,
/// see [`mmap_first`].
pub fn mmap_begin(req: MmapRequest) -> (r: (MmapState, MmapAction))
    ensures
        r == mmap_first(req),
        r.0.valid(),
        !req.well_formed() ==> r == fail(LinuxError::EINVAL),
{
    let call = match req.validate() {
        Ok(c) => c,
        Err(e) => {
            return finish_with(e);
        },
    };
    if call.flags.fixed {
        if !memory_addr::is_aligned_4k(req.addr) {
            return finish_with(LinuxError::EINVAL);
        }
        settle(call, req.addr)
    } else {
        (MmapState::MeasuringSpace { call }, MmapAction::GetSpace)
    }
}

/// Takes the answer to the work that was asked for last and names the next
/// piece of work, see [`mmap_next`]. Every answer brings the call nearer to
/// its end.
pub fn mmap_step(state: MmapState, event: MmapEvent) -> (r: (MmapState, MmapAction))
    requires
        state.valid(),
        state.accepts(event),
    ensures
        r == mmap_next(state, event),
        r.0.valid(),
        r.0.rank() < state.rank(),
        r.0 != MmapState::Finished ==> r.0.call() == state.call(),
        r.0 == MmapState::Finished <==> r.1 is Return,
{
    match (state, event) {
        (MmapState::MeasuringSpace { call }, MmapEvent::SpaceMeasured { base, size }) => (
            MmapState::FindingArea { call },
            MmapAction::FindFreeArea { hint: call.hint, len: call.aligned_length, base, size },
        ),
        (MmapState::FindingArea { call }, MmapEvent::AreaFound(found)) => match found {
            Some(start) => settle(call, start),
            None => finish_with(LinuxError::ENOMEM),
        },
        (MmapState::LookingUpFile { call, start }, MmapEvent::FileFound(res)) => match res {
            Ok(_) => (
                MmapState::Installing { call, start },
                MmapAction::MapAlloc {
                addr: start,
                len: call.aligned_length,
                perms: call.perms,
                populate: true,
            },
            ),
            Err(e) => finish_with(e),
        },
        (MmapState::Installing { call, start }, MmapEvent::Mapped(res)) => match res {
            Ok(_) => if call.flags.anonymous {
                finish_at(start)
            } else if call.offset != 0 {
                (
                    MmapState::SavingCursor { call, start },
                    MmapAction::SaveCursor { fd: call.fd },
                )
            } else {
                (
                    MmapState::Reading { call, start, saved: None, total: 0 },
                    MmapAction::Read { fd: call.fd, at: 0, max: call.length },
                )
            },
            Err(e) => finish_with(map_install_error(e)),
        },
        (MmapState::SavingCursor { call, start }, MmapEvent::CursorSaved(pos)) => (
            MmapState::Seeking { call, start, cursor: pos },
            MmapAction::Seek { fd: call.fd, offset: call.offset },
        ),
        (MmapState::Seeking { call, start, cursor }, MmapEvent::Sought) => (
            MmapState::Reading { call, start, saved: Some(cursor), total: 0 },
            MmapAction::Read { fd: call.fd, at: 0, max: call.length },
        ),
        (MmapState::Reading { call, start, saved, total }, MmapEvent::ReadDone(res)) => match res {
            Ok(n) => {
                let total: usize = total + n;
                if n != 0 && total < call.length {
                    (
                        MmapState::Reading { call, start, saved, total },
                        MmapAction::Read { fd: call.fd, at: total, max: call.length - total },
                    )
                } else {
                    match saved {
                        Some(pos) => (
                            MmapState::RestoringCursor { call, start, total },
                            MmapAction::RestoreCursor { fd: call.fd, pos },
                        ),
                        None => (
                            MmapState::Writing { call, start },
                            MmapAction::Write { addr: start, len: total },
                        ),
                    }
                }
            },
            Err(e) => finish_with(e),
        },
        (MmapState::RestoringCursor { call, start, total }, MmapEvent::Restored) => (
            MmapState::Writing { call, start },
            MmapAction::Write { addr: start, len: total },
        ),
        (MmapState::Writing { call, start }, MmapEvent::Written(res)) => match res {
            Ok(_) => finish_at(start),
            Err(_) => finish_with(LinuxError::EFAULT),
        },
        _ => finish_with(LinuxError::EINVAL),
    }
}

} // verus!
