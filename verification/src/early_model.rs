//! The early allocator as numbers: its state, what each operation does to
//! it, and what holds of every run of operations.

use crate::align::{is_pow2, lemma_round_down_bounds, lemma_round_up_bounds, round_down, round_up};
use vstd::arithmetic::div_mod::{
    lemma_div_is_ordered, lemma_div_multiples_vanish, lemma_fundamental_div_mod,
};
use vstd::arithmetic::power2::lemma_pow2_pos;
use vstd::prelude::*;

verus! {

/// What an [`EarlyAllocator`] is, as numbers.
pub ghost struct AllocState {
    /// Low end of the extent.
    pub start: nat,
    /// Length of the extent in bytes.
    pub size: nat,
    /// Where the next byte allocation starts looking; bytes below are in use.
    pub b_pos: nat,
    /// Low end of the pages in use; everything from here to the end is pages.
    pub p_pos: nat,
    /// Number of byte allocations that are live.
    pub count: nat,
}

impl AllocState {
    /// The extent's upper end.
    pub open spec fn end(self) -> nat {
        self.start + self.size
    }

    /// The byte zone begins at the extent's start, both zones end inside the
    /// extent, the extent lies in the address space, and a byte zone without
    /// live allocations is empty. Every operation keeps this.
    pub open spec fn sound(self) -> bool {
        &&& self.start <= self.b_pos <= self.end()
        &&& self.p_pos <= self.end()
        &&& self.end() <= usize::MAX
        &&& self.count == 0 ==> self.b_pos == self.start
    }

    /// The state is sound and the zones do not cross:
    /// `start <= b_pos <= p_pos <= start + size`.
    pub open spec fn wf(self) -> bool {
        &&& self.sound()
        &&& self.b_pos <= self.p_pos
    }

    /// The state right after construction.
    pub open spec fn empty() -> AllocState {
        AllocState { start: 0, size: 0, b_pos: 0, p_pos: 0, count: 0 }
    }

    /// The state after `init(start, size)`.
    pub open spec fn initial(start: nat, size: nat) -> AllocState {
        AllocState { start, size, b_pos: start, p_pos: start + size, count: 0 }
    }

    /// Whether `add_memory(start, size)` is accepted.
    pub open spec fn accepts_memory(self, start: nat, size: nat) -> bool {
        start + size <= self.end()
    }

    /// The state after an accepted `add_memory(start, size)`.
    pub open spec fn after_add_memory(self, start: nat, size: nat) -> AllocState {
        AllocState { p_pos: start + size, ..self }
    }

    /// Where a byte allocation with alignment `align` would start.
    pub open spec fn alloc_pos(self, align: nat) -> nat {
        round_up(self.b_pos as int, align as int) as nat
    }

    /// Whether a byte allocation of `size` bytes fits below the page zone.
    pub open spec fn fits(self, size: nat, align: nat) -> bool {
        self.alloc_pos(align) + size <= self.p_pos
    }

    /// Whether a byte allocation of `size` bytes succeeds: it fits, and the
    /// count of live allocations can take one more.
    pub open spec fn can_alloc(self, size: nat, align: nat) -> bool {
        &&& self.fits(size, align)
        &&& self.count < usize::MAX
    }

    /// The state after a byte allocation that fits.
    pub open spec fn after_alloc(self, size: nat, align: nat) -> AllocState {
        AllocState { b_pos: self.alloc_pos(align) + size, count: self.count + 1, ..self }
    }

    /// The state after one byte deallocation.
    pub open spec fn after_dealloc(self) -> AllocState {
        let count: nat = if self.count > 0 {
            (self.count - 1) as nat
        } else {
            0
        };
        AllocState { count, b_pos: if count == 0 { self.start } else { self.b_pos }, ..self }
    }

    /// Where an allocation of `bytes` bytes of pages, aligned downwards to
    /// `align`, would start.
    pub open spec fn pages_pos(self, bytes: nat, align: nat) -> int {
        round_down(self.p_pos - bytes, align as int)
    }

    /// Whether `bytes` bytes of pages fit above the byte zone once aligned.
    pub open spec fn can_alloc_pages(self, bytes: nat, align: nat) -> bool {
        &&& bytes <= self.p_pos - self.b_pos
        &&& self.b_pos <= self.pages_pos(bytes, align)
    }

    /// The state after a page allocation that fits.
    pub open spec fn after_alloc_pages(self, bytes: nat, align: nat) -> AllocState {
        AllocState { p_pos: self.pages_pos(bytes, align) as nat, ..self }
    }

    /// The state after `bytes` bytes of pages at `pos` are given back: only a
    /// block that ends at the page boundary is taken, and the boundary then
    /// stands at that block's end.
    pub open spec fn after_dealloc_pages(self, pos: nat, bytes: nat) -> AllocState {
        if pos + bytes == self.p_pos {
            AllocState { p_pos: pos + bytes, ..self }
        } else {
            self
        }
    }
}

/// One call on an allocator that is in use.
pub ghost enum Op {
    /// A byte allocation of `size` bytes aligned to `align`.
    AllocBytes { size: nat, align: nat },
    /// A byte deallocation; none of its arguments matters.
    Dealloc { pos: nat, size: nat, align: nat },
    /// A page allocation of `bytes` bytes aligned downwards to `align`.
    AllocPages { bytes: nat, align: nat },
    /// A page deallocation of `bytes` bytes at `pos`.
    DeallocPages { pos: nat, bytes: nat },
}

impl Op {
    /// Alignments are powers of two.
    pub open spec fn valid(self) -> bool {
        match self {
            Op::AllocBytes { size, align } => is_pow2(align as int),
            Op::AllocPages { bytes, align } => is_pow2(align as int),
            _ => true,
        }
    }
}

impl AllocState {
    /// The state after `op`; an allocation that does not fit changes nothing.
    pub open spec fn step(self, op: Op) -> AllocState {
        match op {
            Op::AllocBytes { size, align } => if self.can_alloc(size, align) {
                self.after_alloc(size, align)
            } else {
                self
            },
            Op::Dealloc { pos, size, align } => self.after_dealloc(),
            Op::AllocPages { bytes, align } => if self.can_alloc_pages(bytes, align) {
                self.after_alloc_pages(bytes, align)
            } else {
                self
            },
            Op::DeallocPages { pos, bytes } => self.after_dealloc_pages(pos, bytes),
        }
    }

    /// The state after the calls `ops`, first to last.
    pub open spec fn run(self, ops: Seq<Op>) -> AllocState
        decreases ops.len(),
    {
        if ops.len() == 0 {
            self
        } else {
            self.run(ops.drop_last()).step(ops.last())
        }
    }
}

/// One call keeps the zones in order, leaves the extent alone, never raises
/// the page boundary and changes the count of live allocations by at most one.
/// A byte allocation that does not fit changes nothing.
pub proof fn lemma_step(s: AllocState, op: Op)
    requires
        s.wf(),
        op.valid(),
    ensures
        s.step(op).wf(),
        op matches Op::AllocBytes { size, align } ==> (!s.fits(size, align) ==> s.step(op) == s),
        s.step(op).start == s.start,
        s.step(op).size == s.size,
        s.step(op).p_pos <= s.p_pos,
        op is AllocBytes ==> s.count <= s.step(op).count <= s.count + 1,
        op is Dealloc ==> s.step(op).count == if s.count > 0 {
            s.count - 1
        } else {
            0
        },
{
    match op {
        Op::AllocBytes { size, align } => {
            lemma_pow2_pos(crate::align::log2_of(align as int));
            lemma_round_up_bounds(s.b_pos as int, align as int);
        },
        Op::AllocPages { bytes, align } => {
            lemma_pow2_pos(crate::align::log2_of(align as int));
            lemma_round_down_bounds(s.p_pos - bytes, align as int);
        },
        _ => {},
    }
}

/// Running `a` and then `b` is running `a + b`.
pub proof fn lemma_run_concat(s: AllocState, a: Seq<Op>, b: Seq<Op>)
    ensures
        s.run(a + b) == s.run(a).run(b),
    decreases b.len(),
{
    if b.len() == 0 {
        assert(a + b =~= a);
    } else {
        lemma_run_concat(s, a, b.drop_last());
        assert((a + b).drop_last() =~= a + b.drop_last());
        assert((a + b).last() == b.last());
    }
}

/// Whatever is called in whatever order, the zones stay in order:
/// `start <= b_pos <= p_pos <= start + size` holds after every call.
pub proof fn lemma_zones_stay_in_order(s: AllocState, ops: Seq<Op>)
    requires
        s.wf(),
        forall|i: int| 0 <= i < ops.len() ==> (#[trigger] ops[i]).valid(),
    ensures
        forall|n: int| 0 <= n <= ops.len() ==> (#[trigger] s.run(ops.take(n))).wf(),
        s.run(ops).wf(),
        s.run(ops).start == s.start,
        s.run(ops).size == s.size,
        s.run(ops).p_pos <= s.p_pos,
    decreases ops.len(),
{
    if ops.len() == 0 {
        assert forall|n: int| 0 <= n <= ops.len() implies (#[trigger] s.run(ops.take(n))).wf() by {
            assert(ops.take(n) =~= ops);
        }
    } else {
        let front = ops.drop_last();
        lemma_zones_stay_in_order(s, front);
        lemma_step(s.run(front), ops.last());
        assert forall|n: int| 0 <= n <= ops.len() implies (#[trigger] s.run(ops.take(n))).wf() by {
            if n == ops.len() {
                assert(ops.take(n) =~= ops);
            } else {
                assert(ops.take(n) =~= front.take(n));
            }
        }
    }
}

/// After a run of byte allocations no more of them are live than were asked
/// for, on top of those that were live before.
pub proof fn lemma_allocs_count(s: AllocState, allocs: Seq<Op>)
    requires
        s.wf(),
        forall|i: int|
            0 <= i < allocs.len() ==> (#[trigger] allocs[i]) is AllocBytes && allocs[i].valid(),
    ensures
        s.run(allocs).wf(),
        s.run(allocs).start == s.start,
        s.count <= s.run(allocs).count <= s.count + allocs.len(),
    decreases allocs.len(),
{
    if allocs.len() > 0 {
        let front = allocs.drop_last();
        lemma_allocs_count(s, front);
        lemma_step(s.run(front), allocs.last());
    }
}

/// A run of byte deallocations takes the count of live allocations down by
/// its length, stopping at zero, and at zero the byte zone is empty.
pub proof fn lemma_deallocs_count(s: AllocState, deallocs: Seq<Op>)
    requires
        s.wf(),
        forall|i: int| 0 <= i < deallocs.len() ==> (#[trigger] deallocs[i]) is Dealloc,
    ensures
        s.run(deallocs).wf(),
        s.run(deallocs).start == s.start,
        s.run(deallocs).count == if s.count >= deallocs.len() {
            s.count - deallocs.len()
        } else {
            0
        },
    decreases deallocs.len(),
{
    if deallocs.len() > 0 {
        let front = deallocs.drop_last();
        lemma_deallocs_count(s, front);
        lemma_step(s.run(front), deallocs.last());
    }
}

/// Byte allocations followed by as many byte deallocations, with whatever
/// arguments and in whatever order, leave an allocator that had no live
/// allocation with none again and with an empty byte zone.
pub proof fn lemma_byte_zone_resets(s: AllocState, allocs: Seq<Op>, deallocs: Seq<Op>)
    requires
        s.wf(),
        s.count == 0,
        allocs.len() == deallocs.len(),
        forall|i: int|
            0 <= i < allocs.len() ==> (#[trigger] allocs[i]) is AllocBytes && allocs[i].valid(),
        forall|i: int| 0 <= i < deallocs.len() ==> (#[trigger] deallocs[i]) is Dealloc,
    ensures
        s.run(allocs + deallocs).count == 0,
        s.run(allocs + deallocs).b_pos == s.start,
        s.run(allocs + deallocs).start == s.start,
{
    lemma_run_concat(s, allocs, deallocs);
    lemma_allocs_count(s, allocs);
    lemma_deallocs_count(s.run(allocs), deallocs);
}

/// A page allocation never starts below the byte zone's end, and one that
/// takes at least a byte starts strictly below every page allocation made
/// before it, whatever was called in between.
pub proof fn lemma_pages_descend(
    s: AllocState,
    bytes1: nat,
    align1: nat,
    between: Seq<Op>,
    bytes2: nat,
    align2: nat,
)
    requires
        s.wf(),
        is_pow2(align1 as int),
        is_pow2(align2 as int),
        forall|i: int| 0 <= i < between.len() ==> (#[trigger] between[i]).valid(),
        s.can_alloc_pages(bytes1, align1),
        s.after_alloc_pages(bytes1, align1).run(between).can_alloc_pages(bytes2, align2),
        bytes2 > 0,
    ensures
        s.b_pos <= s.pages_pos(bytes1, align1),
        ({
            let t = s.after_alloc_pages(bytes1, align1).run(between);
            t.b_pos <= t.pages_pos(bytes2, align2) < s.pages_pos(bytes1, align1)
        }),
{
    let first = Op::AllocPages { bytes: bytes1, align: align1 };
    lemma_step(s, first);
    let s1 = s.after_alloc_pages(bytes1, align1);
    assert(s1 == s.step(first));
    lemma_zones_stay_in_order(s1, between);
    let t = s1.run(between);
    lemma_pow2_pos(crate::align::log2_of(align2 as int));
    lemma_round_down_bounds(t.p_pos - bytes2, align2 as int);
}

/// The pages in use and the pages available together are no more than the
/// pages of the extent, whatever the page size.
pub proof fn lemma_page_counters(s: AllocState, page: nat)
    requires
        s.wf(),
        page > 0,
    ensures
        (s.b_pos - s.start) / (page as int) + (s.p_pos - s.b_pos) / (page as int) <= s.size / page,
{
    let p = page as int;
    let used = s.b_pos - s.start;
    let free = s.p_pos - s.b_pos;
    let q = used / p + free / p;
    lemma_fundamental_div_mod(used, p);
    lemma_fundamental_div_mod(free, p);
    assert(q * p == p * (used / p) + p * (free / p)) by (nonlinear_arith)
        requires
            q == used / p + free / p,
    ;
    lemma_div_multiples_vanish(q, p);
    lemma_div_is_ordered(q * p, used + free, p);
    lemma_div_is_ordered(used + free, s.size as int, p);
}

/// Giving pages back never moves the page boundary.
pub proof fn lemma_dealloc_pages_keeps_state(s: AllocState, pos: nat, bytes: nat)
    ensures
        s.after_dealloc_pages(pos, bytes) == s,
{
}

} // verus!
