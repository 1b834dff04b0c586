//! The early allocator: one extent, bytes handed out upwards from its low
//! end and pages handed out downwards from its high end.
//!
//! ```text
//! [ bytes-used | avail-area | pages-used ]
//! |            | -->    <-- |            |
//! start       b_pos        p_pos       end
//! ```

use crate::align::{align_down, checked_align_up, is_pow2};
use crate::early_model::{AllocState, Op};
use axallocator::AllocError;
use vstd::prelude::*;

verus! {

/// The error type of `axallocator`, an enum without fields; its variants are
/// read from the crate as they are declared there.
#[verifier::external_type_specification]
pub struct ExAllocError(AllocError);

/// Early memory allocator, for use before the byte and page allocators proper
/// can work. `SIZE` is the page size in bytes.
///
/// `count` records the number of live byte allocations; when it goes down to
/// zero the byte zone is freed as a whole.
pub struct EarlyAllocator<const SIZE: usize> {
    start: usize,
    size: usize,
    b_pos: usize,
    p_pos: usize,
    count: usize,
}

impl<const SIZE: usize> View for EarlyAllocator<SIZE> {
    type V = AllocState;

    closed spec fn view(&self) -> AllocState {
        AllocState {
            start: self.start as nat,
            size: self.size as nat,
            b_pos: self.b_pos as nat,
            p_pos: self.p_pos as nat,
            count: self.count as nat,
        }
    }
}

impl<const SIZE: usize> EarlyAllocator<SIZE> {
    /// An allocator over no memory.
    pub fn new() -> (r: Self)
        ensures
            r@ == AllocState::empty(),
            r@.wf(),
    {
        Self { start: 0, size: 0, b_pos: 0, p_pos: 0, count: 0 }
    }

    /// Whether the state is sound, see [`AllocState::sound`].
    pub fn is_sound(&self) -> (r: bool)
        ensures
            r == self@.sound(),
    {
        self.start <= self.b_pos && match self.start.checked_add(self.size) {
            Some(end) => self.b_pos <= end && self.p_pos <= end,
            None => false,
        } && (self.count != 0 || self.b_pos == self.start)
    }

    /// Whether the state is sound and the zones are in order, see
    /// [`AllocState::wf`].
    pub fn is_well_formed(&self) -> (r: bool)
        ensures
            r == self@.wf(),
    {
        self.is_sound() && self.b_pos <= self.p_pos
    }

    /// The number of live byte allocations.
    pub fn live_allocations(&self) -> (r: usize)
        ensures
            r == self@.count,
    {
        self.count
    }

    /// Takes over the extent of `size` bytes at `start` and forgets whatever
    /// was allocated before.
    pub fn init(&mut self, start: usize, size: usize)
        requires
            start + size <= usize::MAX,
        ensures
            final(self)@ == AllocState::initial(start as nat, size as nat),
            final(self)@.wf(),
    {
        self.start = start;
        self.size = size;
        self.b_pos = start;
        self.p_pos = start + size;
        self.count = 0;
    }

    /// Moves the page boundary to the end of the region of `size` bytes at
    /// `start`, unless that end lies beyond the extent's own end.
    ///
    /// The zones are in order afterwards exactly if the new boundary is not
    /// below the byte zone's end.
    pub fn add_memory(&mut self, start: usize, size: usize) -> (r: Result<(), AllocError>)
        requires
            old(self)@.sound(),
        ensures
            old(self)@.accepts_memory(start as nat, size as nat) ==> r == Ok::<(), AllocError>(())
                && final(self)@ == old(self)@.after_add_memory(start as nat, size as nat),
            !old(self)@.accepts_memory(start as nat, size as nat) ==> r == Err::<(), AllocError>(
                AllocError::NoMemory,
            ) && final(self)@ == old(self)@,
            final(self)@.sound(),
            final(self)@.wf() <==> if r is Ok {
                old(self)@.b_pos <= start + size
            } else {
                old(self)@.wf()
            },
    {
        let limit: usize = self.start + self.size;
        match start.checked_add(size) {
            Some(end) => {
                if end > limit {
                    return Err(AllocError::NoMemory);
                }
                self.p_pos = end;
                Ok(())
            },
            None => Err(AllocError::NoMemory),
        }
    }

    /// Allocates `size` bytes at the lowest multiple of `align` in the free
    /// area, and returns where they start. Bytes that do not fit below the
    /// page zone are refused, and so is an allocation that can no longer be
    /// counted; a refusal changes nothing.
    pub fn alloc_bytes(&mut self, size: usize, align: usize) -> (r: Result<usize, AllocError>)
        requires
            is_pow2(align as int),
        ensures
            old(self)@.can_alloc(size as nat, align as nat) ==> r == Ok::<usize, AllocError>(
                old(self)@.alloc_pos(align as nat) as usize,
            ) && final(self)@ == old(self)@.after_alloc(size as nat, align as nat),
            !old(self)@.can_alloc(size as nat, align as nat) ==> r == Err::<usize, AllocError>(
                AllocError::NoMemory,
            ) && final(self)@ == old(self)@,
            final(self)@ == old(self)@.step(
                (Op::AllocBytes { size: size as nat, align: align as nat }),
            ),
            old(self)@.sound() ==> final(self)@.sound(),
            old(self)@.wf() ==> final(self)@.wf(),
            final(self)@.start == old(self)@.start,
            final(self)@.size == old(self)@.size,
            final(self)@.p_pos == old(self)@.p_pos,
            r matches Ok(pos) ==> old(self)@.b_pos <= pos && pos + size == final(self)@.b_pos
                && final(self)@.b_pos <= final(self)@.p_pos && pos % align == 0,
    {
        proof {
            crate::align::lemma_pow2_fits(align);
            crate::align::lemma_round_up_bounds(self.b_pos as int, align as int);
        }
        let aligned_pos: usize = match checked_align_up(self.b_pos, align) {
            Some(p) => p,
            None => {
                return Err(AllocError::NoMemory);
            },
        };
        if aligned_pos > self.p_pos || size > self.p_pos - aligned_pos {
            return Err(AllocError::NoMemory);
        }
        if self.count == usize::MAX {
            return Err(AllocError::NoMemory);
        }
        self.b_pos = aligned_pos + size;
        self.count += 1;
        Ok(aligned_pos)
    }

    /// Gives one byte allocation back. Where it lay does not matter: when the
    /// last live allocation goes, the whole byte zone is free again.
    pub fn dealloc(&mut self, pos: usize, size: usize, align: usize)
        ensures
            final(self)@ == old(self)@.after_dealloc(),
            final(self)@ == old(self)@.step(
                (Op::Dealloc { pos: pos as nat, size: size as nat, align: align as nat }),
            ),
            old(self)@.sound() ==> final(self)@.sound(),
            old(self)@.wf() ==> final(self)@.wf(),
    {
        if self.count > 0 {
            self.count -= 1;
        }
        if self.count == 0 {
            self.b_pos = self.start;
        }
    }

    /// Size of the extent in bytes.
    pub fn total_bytes(&self) -> (r: usize)
        ensures
            r == self@.size,
    {
        self.size
    }

    /// Bytes between the extent's start and the byte zone's end.
    pub fn used_bytes(&self) -> (r: usize)
        requires
            self@.sound(),
        ensures
            r == self@.b_pos - self@.start,
    {
        self.b_pos - self.start
    }

    /// Bytes between the two zones.
    pub fn available_bytes(&self) -> (r: usize)
        requires
            self@.wf(),
        ensures
            r == self@.p_pos - self@.b_pos,
    {
        self.p_pos - self.b_pos
    }

    /// Allocates `num_pages` pages at the highest multiple of `align_pow2`
    /// that leaves room for them below the page boundary, and returns where
    /// they start.
    pub fn alloc_pages(&mut self, num_pages: usize, align_pow2: usize) -> (r: Result<
        usize,
        AllocError,
    >)
        requires
            old(self)@.wf(),
            is_pow2(align_pow2 as int),
        ensures
            old(self)@.can_alloc_pages((num_pages * SIZE) as nat, align_pow2 as nat) ==> r == Ok::<
                usize,
                AllocError,
            >(old(self)@.pages_pos((num_pages * SIZE) as nat, align_pow2 as nat) as usize)
                && final(self)@ == old(self)@.after_alloc_pages(
                (num_pages * SIZE) as nat,
                align_pow2 as nat,
            ),
            !old(self)@.can_alloc_pages((num_pages * SIZE) as nat, align_pow2 as nat) ==> r
                == Err::<usize, AllocError>(AllocError::NoMemory) && final(self)@ == old(self)@,
            final(self)@ == old(self)@.step(
                (Op::AllocPages { bytes: (num_pages * SIZE) as nat, align: align_pow2 as nat }),
            ),
            final(self)@.wf(),
            r matches Ok(pos) ==> old(self)@.b_pos <= pos && pos + num_pages * SIZE <= old(
                self,
            )@.p_pos && pos == final(self)@.p_pos && pos % align_pow2 == 0,
    {
        proof {
            assert(num_pages * SIZE >= 0) by (nonlinear_arith);
        }
        let required_bytes: usize = match num_pages.checked_mul(SIZE) {
            Some(b) => b,
            None => {
                return Err(AllocError::NoMemory);
            },
        };
        if required_bytes > self.p_pos - self.b_pos {
            return Err(AllocError::NoMemory);
        }
        let unaligned_pos: usize = self.p_pos - required_bytes;
        let aligned_pos: usize = align_down(unaligned_pos, align_pow2);
        proof {
            crate::align::lemma_pow2_fits(align_pow2);
            crate::align::lemma_round_down_bounds(unaligned_pos as int, align_pow2 as int);
        }
        if aligned_pos < self.b_pos {
            return Err(AllocError::NoMemory);
        }
        self.p_pos = aligned_pos;
        Ok(aligned_pos)
    }

    /// Gives `num_pages` pages at `pos` back. Only a block that ends exactly
    /// at the page boundary is taken, and the boundary then stands at that
    /// block's end; any other block is ignored.
    pub fn dealloc_pages(&mut self, pos: usize, num_pages: usize)
        ensures
            final(self)@ == old(self)@.after_dealloc_pages(pos as nat, (num_pages * SIZE) as nat),
            final(self)@ == old(self)@.step(
                (Op::DeallocPages { pos: pos as nat, bytes: (num_pages * SIZE) as nat }),
            ),
            final(self)@ == old(self)@,
    {
        proof {
            assert(num_pages * SIZE >= 0) by (nonlinear_arith);
        }
        let required_bytes: usize = match num_pages.checked_mul(SIZE) {
            Some(b) => b,
            None => {
                return ;
            },
        };
        let block_end: usize = match pos.checked_add(required_bytes) {
            Some(e) => e,
            None => {
                return ;
            },
        };
        if block_end == self.p_pos {
            self.p_pos = block_end;
        }
    }

    /// Number of whole pages in the extent.
    pub fn total_pages(&self) -> (r: usize)
        requires
            SIZE > 0,
        ensures
            r == self@.size / (SIZE as nat),
    {
        self.size / SIZE
    }

    /// Number of whole pages between the extent's start and the byte zone's
    /// end: the bytes in use, counted in pages.
    pub fn used_pages(&self) -> (r: usize)
        requires
            SIZE > 0,
            self@.sound(),
        ensures
            r == (self@.b_pos - self@.start) / (SIZE as int),
    {
        (self.b_pos - self.start) / SIZE
    }

    /// Number of whole pages between the two zones.
    pub fn available_pages(&self) -> (r: usize)
        requires
            SIZE > 0,
            self@.wf(),
        ensures
            r == (self@.p_pos - self@.b_pos) / (SIZE as int),
    {
        (self.p_pos - self.b_pos) / SIZE
    }
}

} // verus!
