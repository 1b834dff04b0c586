//! What holds of every `mmap` call, however the work that it asks for turns
//! out.

use crate::align::{lemma_round_up_bounds, lemma_round_up_least, round_up};
use crate::flags::MmapFlags;
use crate::mmap::{
    address_value, error_value, fail, mmap_first, mmap_next, page_span, MmapAction, MmapCall,
    MmapEvent, MmapRequest, MmapState, PAGE_SIZE,
};
use axerrno::LinuxError;
use vstd::prelude::*;

verus! {

/// The place of a piece of work in the order of a call.
pub open spec fn phase(action: MmapAction) -> nat {
    match action {
        MmapAction::GetSpace => 0,
        MmapAction::FindFreeArea { .. } => 1,
        MmapAction::GetFile { .. } => 2,
        MmapAction::MapAlloc { .. } => 3,
        MmapAction::SaveCursor { .. } => 4,
        MmapAction::Seek { .. } => 5,
        MmapAction::Read { .. } => 6,
        MmapAction::RestoreCursor { .. } => 7,
        MmapAction::Write { .. } => 8,
        MmapAction::Return { .. } => 9,
    }
}

/// The place in the order of a call of the work that `state` waits for.
pub open spec fn awaited(state: MmapState) -> nat {
    match state {
        MmapState::MeasuringSpace { .. } => 0,
        MmapState::FindingArea { .. } => 1,
        MmapState::LookingUpFile { .. } => 2,
        MmapState::Installing { .. } => 3,
        MmapState::SavingCursor { .. } => 4,
        MmapState::Seeking { .. } => 5,
        MmapState::Reading { .. } => 6,
        MmapState::RestoringCursor { .. } => 7,
        MmapState::Writing { .. } => 8,
        MmapState::Finished => 9,
    }
}

/// `action` is work for `call`: it searches and maps the call's pages with
/// the call's permissions, touches the call's file, and reads and copies no
/// more bytes than the call asked for.
pub open spec fn serves(call: MmapCall, action: MmapAction) -> bool {
    match action {
        MmapAction::GetSpace => !call.flags.fixed,
        MmapAction::FindFreeArea { hint, len, .. } => hint == call.hint && len
            == call.aligned_length && !call.flags.fixed,
        MmapAction::GetFile { fd } => fd == call.fd && fd >= 0 && !call.flags.anonymous,
        MmapAction::MapAlloc { addr, len, perms, populate } => len == call.aligned_length
            && perms == call.perms && populate,
        MmapAction::SaveCursor { fd } => fd == call.fd && call.offset != 0,
        MmapAction::Seek { fd, offset } => fd == call.fd && offset == call.offset && offset != 0,
        MmapAction::Read { fd, at, max } => fd == call.fd && max >= 1 && at + max == call.length,
        MmapAction::RestoreCursor { fd, pos } => fd == call.fd && call.offset != 0,
        MmapAction::Write { addr, len } => len <= call.length && !call.flags.anonymous,
        MmapAction::Return { .. } => true,
    }
}

/// The address that `state` maps at, once it is settled.
pub open spec fn start_of(state: MmapState) -> Option<usize> {
    match state {
        MmapState::MeasuringSpace { .. } => None,
        MmapState::FindingArea { .. } => None,
        MmapState::LookingUpFile { start, .. } => Some(start),
        MmapState::Installing { start, .. } => Some(start),
        MmapState::SavingCursor { start, .. } => Some(start),
        MmapState::Seeking { start, .. } => Some(start),
        MmapState::Reading { start, .. } => Some(start),
        MmapState::RestoringCursor { start, .. } => Some(start),
        MmapState::Writing { start, .. } => Some(start),
        MmapState::Finished => None,
    }
}

/// The address that `action` works at, if it works at one.
pub open spec fn target_of(action: MmapAction) -> Option<usize> {
    match action {
        MmapAction::MapAlloc { addr, .. } => Some(addr),
        MmapAction::Write { addr, .. } => Some(addr),
        _ => None,
    }
}

/// The work asked for while `state` is answered by `events` in turn, up to
/// the first answer that does not fit.
pub open spec fn work(state: MmapState, events: Seq<MmapEvent>) -> Seq<MmapAction>
    decreases events.len(),
{
    if events.len() == 0 || !state.accepts(events.first()) {
        Seq::empty()
    } else {
        let next = mmap_next(state, events.first());
        seq![next.1] + work(next.0, events.drop_first())
    }
}

/// All the work of the call `req` when it is answered by `events`.
pub open spec fn asked(req: MmapRequest, events: Seq<MmapEvent>) -> Seq<MmapAction> {
    seq![mmap_first(req).1] + work(mmap_first(req).0, events)
}

/// A request is refused as invalid exactly if a flag or protection bit is
/// unknown, the length is zero or too long to count in pages, or the address
/// is fixed and not on a page boundary.
pub open spec fn refused(req: MmapRequest) -> bool {
    !req.well_formed() || (MmapFlags::of_bits(req.flags).fixed && req.addr % 4096 != 0)
}

/// A length from 1 to 4095 spans exactly one page.
pub proof fn lemma_short_length_spans_one_page(length: usize)
    requires
        1 <= length <= 4095,
    ensures
        page_span(length) == 4096,
{
    lemma_round_up_bounds(length as int, PAGE_SIZE as int);
    lemma_round_up_least(length as int, PAGE_SIZE as int, 4096);
    let u = round_up(length as int, 4096);
    if u < 4096 {
        assert(u % 4096 == u);
    }
}

/// The page span of a length is a whole number of pages and holds the
/// length; it is zero only for the length zero.
pub proof fn lemma_page_span(length: usize)
    ensures
        page_span(length) % 4096 == 0,
        length <= page_span(length) < length + 4096,
        page_span(length) == 0 <==> length == 0,
{
    lemma_round_up_bounds(length as int, PAGE_SIZE as int);
}

/// How a call begins: the first state can be reached and waits for the
/// first piece of work, which serves the request as validated; the call is
/// over at once exactly if a value is handed back at once, and that is the
/// case for every refused request, with "invalid argument".
pub proof fn lemma_first(req: MmapRequest)
    ensures
        mmap_first(req).0.valid(),
        awaited(mmap_first(req).0) == phase(mmap_first(req).1),
        mmap_first(req).0 == MmapState::Finished <==> mmap_first(req).1 is Return,
        mmap_first(req).0 != MmapState::Finished ==> mmap_first(req).0.call() == req.call()
            && req.well_formed() && serves(req.call(), mmap_first(req).1),
        refused(req) ==> mmap_first(req) == fail(LinuxError::EINVAL),
        start_of(mmap_first(req).0) is Some ==> start_of(mmap_first(req).0) == Some(req.addr)
            && req.addr % 4096 == 0,
        target_of(mmap_first(req).1) is Some ==> target_of(mmap_first(req).1) == start_of(
            mmap_first(req).0,
        ),
{
    lemma_page_span(req.length);
}

/// One answer: the next state can be reached and waits for the work that is
/// asked for next; that work serves the same call and comes later in the
/// order of a call than the work just answered, but that one read may follow
/// another; the call is nearer to its end; and the address, once settled,
/// stays.
pub proof fn lemma_next(state: MmapState, event: MmapEvent)
    requires
        state.valid(),
        state.accepts(event),
    ensures
        mmap_next(state, event).0.valid(),
        awaited(mmap_next(state, event).0) == phase(mmap_next(state, event).1),
        mmap_next(state, event).0.rank() < state.rank(),
        mmap_next(state, event).0 == MmapState::Finished <==> mmap_next(state, event).1 is Return,
        mmap_next(state, event).0 != MmapState::Finished ==> mmap_next(state, event).0.call()
            == state.call(),
        serves(state.call(), mmap_next(state, event).1),
        awaited(state) < phase(mmap_next(state, event).1) || (state is Reading && mmap_next(
            state,
            event,
        ).1 is Read),
        start_of(state) is Some && mmap_next(state, event).0 != MmapState::Finished ==> start_of(
            mmap_next(state, event).0,
        ) == start_of(state),
        target_of(mmap_next(state, event).1) is Some ==> target_of(mmap_next(state, event).1)
            == start_of(mmap_next(state, event).0),
{
}

/// A finished call accepts no answer, so no work follows.
pub proof fn lemma_finished_asks_nothing(events: Seq<MmapEvent>)
    ensures
        work(MmapState::Finished, events) == Seq::<MmapAction>::empty(),
{
}

/// A refused request leads to exactly one piece of work, whatever is
/// answered: "invalid argument" is handed back, and nothing is searched,
/// mapped, read or written.
pub proof fn lemma_refused_request_maps_nothing(req: MmapRequest, events: Seq<MmapEvent>)
    requires
        refused(req),
    ensures
        asked(req, events) == seq![MmapAction::Return { value: error_value(LinuxError::EINVAL) }],
        error_value(LinuxError::EINVAL) == -22,
{
    lemma_first(req);
    lemma_finished_asks_nothing(events);
    assert(asked(req, events) =~= seq![
        MmapAction::Return { value: error_value(LinuxError::EINVAL) },
    ]);
}

/// A sequence with one element put in front holds that element first and
/// then the elements of the sequence, each one place later.
pub proof fn lemma_cons<A>(head: A, tail: Seq<A>)
    ensures
        (seq![head] + tail).len() == tail.len() + 1,
        (seq![head] + tail)[0] == head,
        forall|i: int| 1 <= i <= tail.len() ==> #[trigger] (seq![head] + tail)[i] == tail[i - 1],
{
}

/// Along a call every piece of work serves the call, there are no more of
/// them than the state's rank allows, and they come in the order of a call.
pub proof fn lemma_work(state: MmapState, events: Seq<MmapEvent>)
    requires
        state.valid(),
    ensures
        work(state, events).len() <= state.rank(),
        work(state, events).len() <= events.len(),
        forall|i: int|
            0 <= i < work(state, events).len() ==> serves(
                state.call(),
                #[trigger] work(state, events)[i],
            ),
        forall|i: int|
            0 <= i < work(state, events).len() ==> awaited(state) < phase(
                #[trigger] work(state, events)[i],
            ) || (state is Reading && work(state, events)[i] is Read),
        forall|i: int, j: int|
            0 <= i < j < work(state, events).len() ==> phase(#[trigger] work(state, events)[i])
                <= phase(#[trigger] work(state, events)[j]),
        forall|i: int, j: int|
            0 <= i < j < work(state, events).len() && !(work(state, events)[i] is Read) ==> phase(
                #[trigger] work(state, events)[i],
            ) < phase(#[trigger] work(state, events)[j]),
        forall|i: int|
            0 <= i < work(state, events).len() - 1 ==> !(#[trigger] work(state, events)[i]
                is Return),
    decreases events.len(),
{
    if events.len() == 0 || !state.accepts(events.first()) {
    } else {
        let next = mmap_next(state, events.first());
        lemma_next(state, events.first());
        lemma_work(next.0, events.drop_first());
        lemma_cons(next.1, work(next.0, events.drop_first()));
    }
}

/// Whatever is answered, a call asks for its work in this order: measuring
/// the address space, search, file lookup, mapping, cursor saved, cursor
/// moved, reads, cursor moved back, copy, return. Each of these but the read
/// comes at most once, so a call maps at most once; every piece of work
/// serves the request as
/// validated; and nothing follows the return.
pub proof fn lemma_call_in_order(req: MmapRequest, events: Seq<MmapEvent>)
    ensures
        forall|i: int, j: int|
            0 <= i < j < asked(req, events).len() ==> phase(#[trigger] asked(req, events)[i])
                <= phase(#[trigger] asked(req, events)[j]),
        forall|i: int, j: int|
            0 <= i < j < asked(req, events).len() && !(asked(req, events)[i] is Read) ==> phase(
                #[trigger] asked(req, events)[i],
            ) < phase(#[trigger] asked(req, events)[j]),
        forall|i: int|
            0 <= i < asked(req, events).len() - 1 ==> !(#[trigger] asked(req, events)[i]
                is Return),
        forall|i: int|
            0 <= i < asked(req, events).len() ==> (#[trigger] asked(req, events)[i]) is Return
                || (req.well_formed() && serves(req.call(), asked(req, events)[i])),
        asked(req, events).len() <= req.length + 11,
{
    let first = mmap_first(req);
    lemma_first(req);
    lemma_work(first.0, events);
    lemma_cons(first.1, work(first.0, events));
}

/// A call for 1 to 4095 bytes searches for and maps exactly one page,
/// whatever is answered.
pub proof fn lemma_short_length_maps_one_page(req: MmapRequest, events: Seq<MmapEvent>)
    requires
        1 <= req.length <= 4095,
    ensures
        forall|i: int|
            0 <= i < asked(req, events).len() ==> match #[trigger] asked(req, events)[i] {
                MmapAction::MapAlloc { len, .. } => len == 4096,
                MmapAction::FindFreeArea { len, .. } => len == 4096,
                _ => true,
            },
{
    lemma_call_in_order(req, events);
    lemma_short_length_spans_one_page(req.length);
}

/// The number of bytes that the answer `event` reports as read.
pub open spec fn bytes_of(event: MmapEvent) -> nat {
    match event {
        MmapEvent::ReadDone(Ok(n)) => n as nat,
        _ => 0,
    }
}

/// The number of bytes that the answers `events` report as read.
pub open spec fn bytes_read(events: Seq<MmapEvent>) -> nat
    decreases events.len(),
{
    if events.len() == 0 {
        0
    } else {
        bytes_of(events.first()) + bytes_read(events.drop_first())
    }
}

/// The number of bytes that have been read when `state` is reached, as long
/// as the state knows it.
pub open spec fn bytes_so_far(state: MmapState) -> Option<nat> {
    match state {
        MmapState::Reading { total, .. } => Some(total as nat),
        MmapState::RestoringCursor { total, .. } => Some(total as nat),
        MmapState::Writing { .. } => None,
        MmapState::Finished => None,
        _ => Some(0),
    }
}

/// Where the cursor stood, as the first answer about it in `events` says.
pub open spec fn cursor_reported(events: Seq<MmapEvent>) -> Option<isize>
    decreases events.len(),
{
    if events.len() == 0 {
        None
    } else {
        match events.first() {
            MmapEvent::CursorSaved(pos) => Some(pos),
            _ => cursor_reported(events.drop_first()),
        }
    }
}

/// What `state` will do about the cursor: it has not asked where it stands
/// yet, it keeps the place to move it back to, or it leaves it alone.
pub ghost enum CursorPlan {
    NotAsked,
    Kept(isize),
    LeftAlone,
}

/// The plan of `state` for the cursor.
pub open spec fn cursor_plan(state: MmapState) -> CursorPlan {
    match state {
        MmapState::MeasuringSpace { .. } => CursorPlan::NotAsked,
        MmapState::FindingArea { .. } => CursorPlan::NotAsked,
        MmapState::LookingUpFile { .. } => CursorPlan::NotAsked,
        MmapState::Installing { .. } => CursorPlan::NotAsked,
        MmapState::SavingCursor { .. } => CursorPlan::NotAsked,
        MmapState::Seeking { cursor, .. } => CursorPlan::Kept(cursor),
        MmapState::Reading { saved, .. } => match saved {
            Some(pos) => CursorPlan::Kept(pos),
            None => CursorPlan::LeftAlone,
        },
        _ => CursorPlan::LeftAlone,
    }
}

/// One answer adds the bytes that it reports to those read so far, and a
/// read or a copy that is asked for next starts or ends where they end; a
/// search that is asked for next is limited to the space that the answer
/// measured.
pub proof fn lemma_next_counts_bytes(state: MmapState, event: MmapEvent, done: nat)
    requires
        state.valid(),
        state.accepts(event),
        bytes_so_far(state) matches Some(t) ==> t == done,
    ensures
        bytes_so_far(mmap_next(state, event).0) matches Some(t) ==> t == done + bytes_of(event),
        match mmap_next(state, event).1 {
            MmapAction::Read { at, .. } => at == done + bytes_of(event),
            MmapAction::Write { len, .. } => len == done + bytes_of(event),
            MmapAction::FindFreeArea { base, size, .. } => event == (MmapEvent::SpaceMeasured {
                base,
                size,
            }),
            _ => true,
        },
{
}

/// The search is limited to the address space as it was measured, every read
/// is told to go on in the staging buffer where the bytes read so far end,
/// and the copy takes exactly the bytes that were read.
pub proof fn lemma_work_counts_bytes(state: MmapState, events: Seq<MmapEvent>, done: nat)
    requires
        state.valid(),
        bytes_so_far(state) matches Some(t) ==> t == done,
    ensures
        forall|i: int|
            0 <= i < work(state, events).len() ==> match #[trigger] work(state, events)[i] {
                MmapAction::Read { at, .. } => at == done + bytes_read(events.take(i + 1)),
                MmapAction::Write { len, .. } => len == done + bytes_read(events.take(i + 1)),
                MmapAction::FindFreeArea { base, size, .. } => i < events.len() && events[i] == (
                MmapEvent::SpaceMeasured { base, size }),
                _ => true,
            },
    decreases events.len(),
{
    if events.len() == 0 || !state.accepts(events.first()) {
    } else {
        let first = events.first();
        let rest = events.drop_first();
        let next = mmap_next(state, first);
        let all = work(state, events);
        lemma_next(state, first);
        lemma_next_counts_bytes(state, first, done);
        lemma_work_counts_bytes(next.0, rest, done + bytes_of(first));
        lemma_work(state, events);
        lemma_cons(next.1, work(next.0, rest));
        assert forall|i: int| 0 <= i < all.len() implies match #[trigger] all[i] {
            MmapAction::Read { at, .. } => at == done + bytes_read(events.take(i + 1)),
            MmapAction::Write { len, .. } => len == done + bytes_read(events.take(i + 1)),
            MmapAction::FindFreeArea { base, size, .. } => i < events.len() && events[i] == (
            MmapEvent::SpaceMeasured { base, size }),
            _ => true,
        } by {
            let upto = events.take(i + 1);
            assert(upto.first() == first);
            assert(upto.drop_first() =~= rest.take(i));
            assert(bytes_read(upto) == bytes_of(first) + bytes_read(rest.take(i)));
            if i == 0 {
                assert(bytes_read(rest.take(0)) == 0);
            }
        }
    }
}

/// The cursor is moved back to the place where it was first reported to
/// stand, and never when the state leaves it alone.
pub proof fn lemma_work_restores_cursor(state: MmapState, events: Seq<MmapEvent>)
    requires
        state.valid(),
    ensures
        forall|i: int|
            0 <= i < work(state, events).len() ==> match #[trigger] work(state, events)[i] {
                MmapAction::RestoreCursor { pos, .. } => match cursor_plan(state) {
                    CursorPlan::NotAsked => cursor_reported(events) == Some(pos),
                    CursorPlan::Kept(kept) => pos == kept,
                    CursorPlan::LeftAlone => false,
                },
                _ => true,
            },
    decreases events.len(),
{
    if events.len() == 0 || !state.accepts(events.first()) {
    } else {
        let first = events.first();
        let rest = events.drop_first();
        let next = mmap_next(state, first);
        lemma_next(state, first);
        lemma_work_restores_cursor(next.0, rest);
        lemma_cons(next.1, work(next.0, rest));
    }
}

/// Whatever is answered to a call: the search is limited to the address
/// space as it was measured just before; each read goes to the place in the
/// staging buffer where the bytes read before it end; the copy to the mapping
/// takes exactly the bytes that the reads brought, be they fewer than were
/// asked for; and the cursor is moved back to where it was reported to stand
/// before it was moved.
pub proof fn lemma_call_keeps_count(req: MmapRequest, events: Seq<MmapEvent>)
    ensures
        forall|i: int|
            0 <= i < asked(req, events).len() ==> match #[trigger] asked(req, events)[i] {
                MmapAction::Read { at, .. } => at == bytes_read(events.take(i)),
                MmapAction::Write { len, .. } => len == bytes_read(events.take(i)),
                MmapAction::RestoreCursor { pos, .. } => cursor_reported(events) == Some(pos),
                MmapAction::FindFreeArea { base, size, .. } => 1 <= i <= events.len() && events[i
                    - 1] == (MmapEvent::SpaceMeasured { base, size }),
                _ => true,
            },
{
    let first = mmap_first(req);
    lemma_first(req);
    lemma_work_counts_bytes(first.0, events, 0);
    lemma_work_restores_cursor(first.0, events);
    lemma_cons(first.1, work(first.0, events));
}

/// `value` stands for an error.
pub open spec fn is_error_value(value: isize) -> bool {
    -133 <= value <= -1
}

/// `action` installs a mapping at the address that `value` stands for.
pub open spec fn maps_at(action: MmapAction, value: isize) -> bool {
    action matches MmapAction::MapAlloc { addr, .. } && value == address_value(addr)
}

/// A value that is handed back is an error, or it is the address at which
/// the mapping was installed.
pub proof fn lemma_work_returns_mapping(state: MmapState, events: Seq<MmapEvent>)
    requires
        state.valid(),
    ensures
        forall|i: int|
            0 <= i < work(state, events).len() ==> match #[trigger] work(state, events)[i] {
                MmapAction::Return { value } => is_error_value(value) || if awaited(state) >= 3 {
                    (start_of(state) matches Some(s) && value == address_value(s))
                } else {
                    exists|j: int|
                        0 <= j < i && maps_at(#[trigger] work(state, events)[j], value)
                },
                _ => true,
            },
    decreases events.len(),
{
    if events.len() == 0 || !state.accepts(events.first()) {
    } else {
        let first = events.first();
        let rest = events.drop_first();
        let next = mmap_next(state, first);
        let all = work(state, events);
        let tail = work(next.0, rest);
        lemma_next(state, first);
        lemma_work_returns_mapping(next.0, rest);
        lemma_cons(next.1, tail);
        assert forall|i: int| 0 <= i < all.len() implies match #[trigger] all[i] {
            MmapAction::Return { value } => is_error_value(value) || if awaited(state) >= 3 {
                (start_of(state) matches Some(s) && value == address_value(s))
            } else {
                exists|j: int|
                    0 <= j < i && maps_at(#[trigger] all[j], value)
            },
            _ => true,
        } by {
            if i > 0 {
                match all[i] {
                    MmapAction::Return { value } => {
                        if !is_error_value(value) && awaited(state) < 3 {
                            if awaited(next.0) >= 3 {
                                assert(maps_at(all[0], value));
                            } else {
                                let j = choose|j: int|
                                    0 <= j < i - 1 && maps_at(#[trigger] tail[j], value);
                                assert(all[j + 1] == tail[j]);
                            }
                        }
                    },
                    _ => {},
                }
            }
        }
    }
}

/// Whatever is answered to a call, what it hands back is an error or the
/// address at which it had the mapping installed before.
pub proof fn lemma_call_returns_mapping(req: MmapRequest, events: Seq<MmapEvent>)
    ensures
        forall|i: int|
            0 <= i < asked(req, events).len() ==> match #[trigger] asked(req, events)[i] {
                MmapAction::Return { value } => is_error_value(value) || exists|j: int|
                    0 <= j < i && maps_at(#[trigger] asked(req, events)[j], value),
                _ => true,
            },
{
    let first = mmap_first(req);
    let tail = work(first.0, events);
    let all = asked(req, events);
    lemma_first(req);
    lemma_work_returns_mapping(first.0, events);
    lemma_cons(first.1, tail);
    assert forall|i: int| 0 <= i < all.len() implies match #[trigger] all[i] {
        MmapAction::Return { value } => is_error_value(value) || exists|j: int|
            0 <= j < i && maps_at(#[trigger] all[j], value),
        _ => true,
    } by {
        if i > 0 {
            match all[i] {
                MmapAction::Return { value } => {
                    if !is_error_value(value) {
                        if awaited(first.0) >= 3 {
                            assert(maps_at(all[0], value));
                        } else {
                            let j = choose|j: int|
                                0 <= j < i - 1 && maps_at(#[trigger] tail[j], value);
                            assert(all[j + 1] == tail[j]);
                        }
                    }
                },
                _ => {},
            }
        }
    }
}

} // verus!
