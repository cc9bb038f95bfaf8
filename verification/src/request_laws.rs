//! What control requests do, by the bits of their masks.
//!
//! The laws here look at the raw mask of a request on one side, and on the other at the changes
//! that go to the kqueue and at what is registered with it in the end.

use vstd::prelude::*;

use crate::epoll::{add_flags, first_step, ControlOperation, CtlStepView, EpollEvent};
use crate::epoll_laws::{
    law_add, law_delete, law_modify_replaces, registered, requested, step_on, Interests, Refusal,
};
use crate::error::Reply;
use crate::event_set::{holds, known, ALL_BITS, EPOLLET, EPOLLIN, EPOLLONESHOT, EPOLLOUT};
use crate::kqueue::{
    Kevent, EVFILT_READ, EVFILT_WRITE, EV_ADD, EV_CLEAR, EV_DELETE, EV_ONESHOT,
};
use crate::wait_laws::{
    after_wait, brings, brought, law_after_report, law_second_wait, Conditions, Watch,
};

verus! {

/// Whether these are the flags of a change that registers a filter for a mask: the change adds
/// the filter, the filter forgets its state exactly when the mask is edge triggered, it is
/// reported once exactly when the mask is one-shot, and nothing else is asked of the kqueue.
pub open spec fn flags_ask_for(flags: u16, events: u32) -> bool {
    &&& flags & EV_ADD != 0
    &&& flags & EV_CLEAR != 0 <==> events & EPOLLET != 0
    &&& flags & EV_ONESHOT != 0 <==> events & EPOLLONESHOT != 0
    &&& flags & !(EV_ADD | EV_CLEAR | EV_ONESHOT) == 0
}

/// Whether a filter of `fd` is registered as `event` asks.
pub open spec fn registered_for(kq: Interests, fd: i32, filter: i16, event: EpollEvent) -> bool {
    &&& registered(kq, fd, filter)
    &&& kq[(fd as usize, filter)].udata == event.u64 as usize
    &&& flags_ask_for(kq[(fd as usize, filter)].flags, event.events)
}

/// Whether a filter is registered as before: in the same way, or still not at all.
pub open spec fn same(before: Interests, after: Interests, key: (usize, i16)) -> bool {
    &&& after.dom().contains(key) <==> before.dom().contains(key)
    &&& before.dom().contains(key) ==> after[key] == before[key]
}

/// Whether every filter but the two of `fd` is registered as before.
pub open spec fn others_same(before: Interests, after: Interests, fd: i32) -> bool {
    forall|key: (usize, i16)|
        key != (fd as usize, EVFILT_READ) && key != (fd as usize, EVFILT_WRITE)
            ==> #[trigger] same(before, after, key)
}

proof fn lemma_bits(mask: u32)
    ensures
        holds(mask, EPOLLIN) <==> mask & EPOLLIN != 0,
        holds(mask, EPOLLOUT) <==> mask & EPOLLOUT != 0,
        holds(mask, EPOLLET) <==> mask & EPOLLET != 0,
        holds(mask, EPOLLONESHOT) <==> mask & EPOLLONESHOT != 0,
        0u32 & EPOLLIN == 0,
        0u32 & EPOLLOUT == 0,
{
    assert((mask & EPOLLIN == EPOLLIN <==> mask & EPOLLIN != 0) && (mask & EPOLLOUT == EPOLLOUT
        <==> mask & EPOLLOUT != 0) && (mask & EPOLLET == EPOLLET <==> mask & EPOLLET != 0) && (mask
        & EPOLLONESHOT == EPOLLONESHOT <==> mask & EPOLLONESHOT != 0) && 0u32 & EPOLLIN == 0 && 0u32
        & EPOLLOUT == 0) by (bit_vector);
}

proof fn lemma_flags(mask: u32)
    ensures
        flags_ask_for(add_flags(mask), mask),
{
    lemma_bits(mask);
    let (edge, once) = (mask & EPOLLET != 0, mask & EPOLLONESHOT != 0);
    let flags = add_flags(mask);
    assert(flags & EV_ADD != 0 && (flags & EV_CLEAR != 0 <==> edge) && (flags & EV_ONESHOT != 0
        <==> once) && flags & !(EV_ADD | EV_CLEAR | EV_ONESHOT) == 0) by (bit_vector)
        requires
            edge && once ==> flags == EV_ADD | EV_CLEAR | EV_ONESHOT,
            edge && !once ==> flags == EV_ADD | EV_CLEAR,
            !edge && once ==> flags == EV_ADD | EV_ONESHOT,
            !edge && !once ==> flags == EV_ADD,
    ;
}

/// The flags that a mask asks for are determined by it.
pub proof fn law_flags_are_determined(a: u16, b: u16, events: u32)
    requires
        flags_ask_for(a, events),
        flags_ask_for(b, events),
    ensures
        a == b,
{
    let (edge, once) = (events & EPOLLET != 0, events & EPOLLONESHOT != 0);
    assert(a == b) by (bit_vector)
        requires
            a & EV_ADD != 0,
            b & EV_ADD != 0,
            a & EV_CLEAR != 0 <==> edge,
            b & EV_CLEAR != 0 <==> edge,
            a & EV_ONESHOT != 0 <==> once,
            b & EV_ONESHOT != 0 <==> once,
            a & !(EV_ADD | EV_CLEAR | EV_ONESHOT) == 0,
            b & !(EV_ADD | EV_CLEAR | EV_ONESHOT) == 0,
    ;
}

/// An add request with a known mask succeeds. It registers the read filter exactly when the
/// mask has the bit of `IN`, and the write filter exactly when it has the bit of `OUT`,
/// whatever other bits it has: with the user data of the request, and edge triggered or
/// one-shot exactly when the mask says so. Everything else stays as it was.
pub proof fn law_add_by_bits(
    kq: Interests,
    kqueue_fd: i32,
    fd: i32,
    event: EpollEvent,
    refusal: Refusal,
)
    requires
        known(event.events),
    ensures
        ({
            let (after, result) = requested(
                kq,
                kqueue_fd,
                ControlOperation::Add,
                fd,
                event,
                refusal,
            );
            &&& result is Ok
            &&& event.events & EPOLLIN != 0 ==> registered_for(after, fd, EVFILT_READ, event)
            &&& event.events & EPOLLIN == 0 ==> same(kq, after, (fd as usize, EVFILT_READ))
            &&& event.events & EPOLLOUT != 0 ==> registered_for(after, fd, EVFILT_WRITE, event)
            &&& event.events & EPOLLOUT == 0 ==> same(kq, after, (fd as usize, EVFILT_WRITE))
            &&& others_same(kq, after, fd)
        }),
{
    lemma_bits(event.events);
    lemma_flags(event.events);
    law_add(kq, kqueue_fd, fd, event, refusal);
}

/// A modify request with a known mask succeeds. Afterwards the read filter is registered
/// exactly when the mask has the bit of `IN`, and the write filter exactly when it has the bit
/// of `OUT`, whatever other bits it has and whatever was registered before: with the user data
/// of the request, and edge triggered or one-shot exactly when the mask says so. Everything
/// else stays as it was.
pub proof fn law_modify_by_bits(
    kq: Interests,
    kqueue_fd: i32,
    fd: i32,
    event: EpollEvent,
    refusal: Refusal,
)
    requires
        known(event.events),
    ensures
        ({
            let (after, result) = requested(
                kq,
                kqueue_fd,
                ControlOperation::Modify,
                fd,
                event,
                refusal,
            );
            &&& result is Ok
            &&& registered(after, fd, EVFILT_READ) <==> event.events & EPOLLIN != 0
            &&& registered(after, fd, EVFILT_WRITE) <==> event.events & EPOLLOUT != 0
            &&& event.events & EPOLLIN != 0 ==> registered_for(after, fd, EVFILT_READ, event)
            &&& event.events & EPOLLOUT != 0 ==> registered_for(after, fd, EVFILT_WRITE, event)
            &&& others_same(kq, after, fd)
        }),
{
    lemma_bits(event.events);
    lemma_flags(event.events);
    law_modify_replaces(kq, kqueue_fd, fd, event, refusal);
}

/// A delete request with a known mask that is not empty succeeds. It takes the read filter out
/// exactly when the mask has the bit of `IN`, and the write filter exactly when it has the bit
/// of `OUT`; a filter that the mask does not name stays as it was, whatever other bits the
/// mask has. With the empty mask it takes both filters out. Everything else stays as it was.
pub proof fn law_delete_by_bits(
    kq: Interests,
    kqueue_fd: i32,
    fd: i32,
    event: EpollEvent,
    refusal: Refusal,
)
    requires
        known(event.events),
    ensures
        ({
            let (after, result) = requested(
                kq,
                kqueue_fd,
                ControlOperation::Delete,
                fd,
                event,
                refusal,
            );
            let read = event.events & EPOLLIN != 0 || event.events == 0;
            let write = event.events & EPOLLOUT != 0 || event.events == 0;
            &&& result is Ok
            &&& read ==> !registered(after, fd, EVFILT_READ)
            &&& !read ==> same(kq, after, (fd as usize, EVFILT_READ))
            &&& write ==> !registered(after, fd, EVFILT_WRITE)
            &&& !write ==> same(kq, after, (fd as usize, EVFILT_WRITE))
            &&& others_same(kq, after, fd)
        }),
{
    lemma_bits(event.events);
    law_delete(kq, kqueue_fd, fd, event, refusal);
}

/// A request whose mask has a bit that stands for no flag succeeds. An add request leaves
/// everything as it was; the others leave no filter of the descriptor registered, and
/// everything else as it was.
pub proof fn law_unknown_mask(
    kq: Interests,
    kqueue_fd: i32,
    operation: ControlOperation,
    fd: i32,
    event: EpollEvent,
    refusal: Refusal,
)
    requires
        !known(event.events),
    ensures
        ({
            let (after, result) = requested(kq, kqueue_fd, operation, fd, event, refusal);
            &&& result is Ok
            &&& operation is Add ==> after == kq
            &&& !(operation is Add) ==> !registered(after, fd, EVFILT_READ) && !registered(
                after,
                fd,
                EVFILT_WRITE,
            )
            &&& others_same(kq, after, fd)
        }),
{
    lemma_bits(0);
    match operation {
        ControlOperation::Add => {
            law_add(kq, kqueue_fd, fd, event, refusal);
        },
        ControlOperation::Modify => {
            law_modify_replaces(kq, kqueue_fd, fd, event, refusal);
        },
        ControlOperation::Delete => {
            law_delete(kq, kqueue_fd, fd, event, refusal);
        },
    }
}

/// Whether a change takes a filter of `fd` out.
pub open spec fn takes_out(change: Kevent, fd: i32, filter: i16) -> bool {
    &&& change.ident == fd as usize
    &&& change.filter == filter
    &&& change.flags == EV_DELETE
    &&& change.fflags == 0
    &&& change.data == 0
    &&& change.udata == 0
}

/// Whether a change registers a filter of `fd` as `event` asks.
pub open spec fn puts_in(change: Kevent, fd: i32, filter: i16, event: EpollEvent) -> bool {
    &&& change.ident == fd as usize
    &&& change.filter == filter
    &&& flags_ask_for(change.flags, event.events)
    &&& change.fflags == 0
    &&& change.data == 0
    &&& change.udata == event.u64 as usize
}

/// Whether `changes` are the registrations that `event` asks for: one for each of the two
/// filters whose bit is in its mask, the read filter first.
pub open spec fn registers(changes: Seq<Kevent>, fd: i32, event: EpollEvent) -> bool {
    let read = event.events & EPOLLIN != 0;
    let write = event.events & EPOLLOUT != 0;
    if read && write {
        &&& changes.len() == 2
        &&& puts_in(changes[0], fd, EVFILT_READ, event)
        &&& puts_in(changes[1], fd, EVFILT_WRITE, event)
    } else if read {
        changes.len() == 1 && puts_in(changes[0], fd, EVFILT_READ, event)
    } else if write {
        changes.len() == 1 && puts_in(changes[0], fd, EVFILT_WRITE, event)
    } else {
        changes.len() == 0
    }
}

/// Whether a step hands exactly one change to the kqueue `kqueue_fd`, which takes a filter out.
pub open spec fn step_takes_out(step: CtlStepView, kqueue_fd: i32, fd: i32, filter: i16) -> bool {
    step matches CtlStepView::Submit { kqueue_fd: kq, changes, .. } && kq == kqueue_fd
        && changes.len() == 1 && takes_out(changes[0], fd, filter)
}

/// Whether a step hands the registrations for `event` to the kqueue `kqueue_fd`, or is the end
/// where there is none.
pub open spec fn step_registers(
    step: CtlStepView,
    kqueue_fd: i32,
    fd: i32,
    event: EpollEvent,
) -> bool {
    match step {
        CtlStepView::Submit { kqueue_fd: kq, changes, .. } => kq == kqueue_fd && changes.len() > 0
            && registers(changes, fd, event),
        CtlStepView::Done(result) => result is Ok && registers(Seq::empty(), fd, event),
    }
}

/// An add request with a known mask makes one call, with the registrations that the mask asks
/// for, and none where it asks for none. It fails exactly when that call fails, with its error.
pub proof fn law_calls_of_add(kqueue_fd: i32, fd: i32, event: EpollEvent, reply: Reply)
    requires
        known(event.events),
    ensures
        ({
            let first = first_step(kqueue_fd, ControlOperation::Add, fd, event);
            let end = step_on(kqueue_fd, first, reply);
            &&& step_registers(first, kqueue_fd, fd, event)
            &&& end is Done
            &&& first is Submit && reply.ret < 0 ==> end == CtlStepView::Done(
                Err(reply.last_error),
            )
            &&& first is Done || reply.ret >= 0 ==> end == CtlStepView::Done(Ok(()))
        }),
{
    lemma_bits(event.events);
    lemma_flags(event.events);
}

/// A modify request with a known mask takes the read filter out in one call and the write
/// filter in the next, whatever is answered, and then makes the call that registers what the
/// mask asks for, if it asks for any. It fails exactly when this last call fails, with its
/// error.
pub proof fn law_calls_of_modify(
    kqueue_fd: i32,
    fd: i32,
    event: EpollEvent,
    first_reply: Reply,
    second_reply: Reply,
    reply: Reply,
)
    requires
        known(event.events),
    ensures
        ({
            let first = first_step(kqueue_fd, ControlOperation::Modify, fd, event);
            let second = step_on(kqueue_fd, first, first_reply);
            let third = step_on(kqueue_fd, second, second_reply);
            let end = step_on(kqueue_fd, third, reply);
            &&& step_takes_out(first, kqueue_fd, fd, EVFILT_READ)
            &&& step_takes_out(second, kqueue_fd, fd, EVFILT_WRITE)
            &&& step_registers(third, kqueue_fd, fd, event)
            &&& end is Done
            &&& third is Submit && reply.ret < 0 ==> end == CtlStepView::Done(
                Err(reply.last_error),
            )
            &&& third is Done || reply.ret >= 0 ==> end == CtlStepView::Done(Ok(()))
        }),
{
    lemma_bits(event.events);
    lemma_flags(event.events);
}

/// A delete request with a known mask makes one call for each filter that the mask names, the
/// read filter first, and a single call without a change where it names none. The empty mask
/// names both filters. Whatever is answered, the request succeeds.
pub proof fn law_calls_of_delete(
    kqueue_fd: i32,
    fd: i32,
    event: EpollEvent,
    first_reply: Reply,
    second_reply: Reply,
)
    requires
        known(event.events),
    ensures
        ({
            let read = event.events & EPOLLIN != 0 || event.events == 0;
            let write = event.events & EPOLLOUT != 0 || event.events == 0;
            let first = first_step(kqueue_fd, ControlOperation::Delete, fd, event);
            let second = step_on(kqueue_fd, first, first_reply);
            let end = step_on(kqueue_fd, second, second_reply);
            &&& read ==> step_takes_out(first, kqueue_fd, fd, EVFILT_READ)
            &&& read && write ==> step_takes_out(second, kqueue_fd, fd, EVFILT_WRITE)
            &&& !read && write ==> step_takes_out(first, kqueue_fd, fd, EVFILT_WRITE)
            &&& !read && !write ==> (first matches CtlStepView::Submit {
                kqueue_fd: kq,
                changes,
                ..
            } && kq == kqueue_fd && changes.len() == 0)
            &&& !(read && write) ==> second is Done
            &&& end == CtlStepView::Done(Ok(()))
        }),
{
    lemma_bits(event.events);
}

/// A request whose mask has a bit that stands for no flag makes the calls of the same request
/// with the empty mask.
pub proof fn law_unknown_mask_is_empty_mask(
    kqueue_fd: i32,
    operation: ControlOperation,
    fd: i32,
    event: EpollEvent,
    first_reply: Reply,
    second_reply: Reply,
)
    requires
        !known(event.events),
    ensures
        ({
            let empty = EpollEvent { events: 0, u64: event.u64 };
            let first = first_step(kqueue_fd, operation, fd, event);
            let second = step_on(kqueue_fd, first, first_reply);
            let third = step_on(kqueue_fd, second, second_reply);
            let empty_first = first_step(kqueue_fd, operation, fd, empty);
            let empty_second = step_on(kqueue_fd, empty_first, first_reply);
            let empty_third = step_on(kqueue_fd, empty_second, second_reply);
            &&& operation !is Modify ==> first == empty_first
            &&& operation is Modify ==> step_takes_out(first, kqueue_fd, fd, EVFILT_READ)
            &&& operation is Modify ==> step_takes_out(second, kqueue_fd, fd, EVFILT_WRITE)
            &&& third == empty_third
        }),
{
    lemma_bits(0);
    assert(0u32 & !ALL_BITS == 0) by (bit_vector);
}

/// Of two add or modify requests, only the bits of `IN`, `OUT`, `EDGE_TRIGGERED` and `ONE_SHOT`
/// tell apart what they leave registered.
pub proof fn law_other_bits_register_nothing(
    kq: Interests,
    kqueue_fd: i32,
    operation: ControlOperation,
    fd: i32,
    a: u32,
    b: u32,
    data: u64,
    refusal: Refusal,
)
    requires
        operation !is Delete,
        known(a),
        known(b),
        (a ^ b) & (EPOLLIN | EPOLLOUT | EPOLLET | EPOLLONESHOT) == 0,
    ensures
        requested(kq, kqueue_fd, operation, fd, EpollEvent { events: a, u64: data }, refusal)
            == requested(kq, kqueue_fd, operation, fd, EpollEvent { events: b, u64: data }, refusal),
{
    let x = EpollEvent { events: a, u64: data };
    let y = EpollEvent { events: b, u64: data };
    assert((a & EPOLLIN == b & EPOLLIN) && (a & EPOLLOUT == b & EPOLLOUT) && (a & EPOLLET == b
        & EPOLLET) && (a & EPOLLONESHOT == b & EPOLLONESHOT)) by (bit_vector)
        requires
            (a ^ b) & (EPOLLIN | EPOLLOUT | EPOLLET | EPOLLONESHOT) == 0,
    ;
    match operation {
        ControlOperation::Add => {
            law_add(kq, kqueue_fd, fd, x, refusal);
            law_add(kq, kqueue_fd, fd, y, refusal);
        },
        _ => {
            law_modify_replaces(kq, kqueue_fd, fd, x, refusal);
            law_modify_replaces(kq, kqueue_fd, fd, y, refusal);
        },
    }
}

/// Of two delete requests whose masks are not empty, only the bits of `IN` and `OUT` tell apart
/// what they take out.
pub proof fn law_other_bits_take_nothing_out(
    kq: Interests,
    kqueue_fd: i32,
    fd: i32,
    a: EpollEvent,
    b: EpollEvent,
    refusal: Refusal,
)
    requires
        known(a.events),
        known(b.events),
        a.events != 0,
        b.events != 0,
        (a.events ^ b.events) & (EPOLLIN | EPOLLOUT) == 0,
    ensures
        requested(kq, kqueue_fd, ControlOperation::Delete, fd, a, refusal) == requested(
            kq,
            kqueue_fd,
            ControlOperation::Delete,
            fd,
            b,
            refusal,
        ),
{
    let (m, n) = (a.events, b.events);
    assert((m & EPOLLIN == n & EPOLLIN) && (m & EPOLLOUT == n & EPOLLOUT)) by (bit_vector)
        requires
            (m ^ n) & (EPOLLIN | EPOLLOUT) == 0,
    ;
    law_delete(kq, kqueue_fd, fd, a, refusal);
    law_delete(kq, kqueue_fd, fd, b, refusal);
}

/// Adding a descriptor with one mask and then with another, with the same user data and equally
/// edge triggered and one-shot, is adding it with both masks at once.
pub proof fn law_adds_combine(
    kq: Interests,
    kqueue_fd: i32,
    fd: i32,
    a: u32,
    b: u32,
    data: u64,
    refusal: Refusal,
)
    requires
        known(a),
        known(b),
        (a ^ b) & (EPOLLET | EPOLLONESHOT) == 0,
    ensures
        ({
            let first = requested(
                kq,
                kqueue_fd,
                ControlOperation::Add,
                fd,
                EpollEvent { events: a, u64: data },
                refusal,
            );
            requested(
                first.0,
                kqueue_fd,
                ControlOperation::Add,
                fd,
                EpollEvent { events: b, u64: data },
                refusal,
            ) == requested(
                kq,
                kqueue_fd,
                ControlOperation::Add,
                fd,
                EpollEvent { events: a | b, u64: data },
                refusal,
            )
        }),
{
    let both = a | b;
    assert(known(both) && (both & EPOLLIN != 0 <==> a & EPOLLIN != 0 || b & EPOLLIN != 0) && (both
        & EPOLLOUT != 0 <==> a & EPOLLOUT != 0 || b & EPOLLOUT != 0) && both & EPOLLET == a
        & EPOLLET && both & EPOLLET == b & EPOLLET && both & EPOLLONESHOT == a & EPOLLONESHOT
        && both & EPOLLONESHOT == b & EPOLLONESHOT) by (bit_vector)
        requires
            known(a),
            known(b),
            (a ^ b) & (EPOLLET | EPOLLONESHOT) == 0,
            both == a | b,
    ;
    lemma_bits(a);
    lemma_bits(b);
    lemma_bits(both);
    let x = EpollEvent { events: a, u64: data };
    let y = EpollEvent { events: b, u64: data };
    let z = EpollEvent { events: both, u64: data };
    law_add(kq, kqueue_fd, fd, x, refusal);
    let first = requested(kq, kqueue_fd, ControlOperation::Add, fd, x, refusal).0;
    law_add(first, kqueue_fd, fd, y, refusal);
    law_add(kq, kqueue_fd, fd, z, refusal);
    assert(requested(first, kqueue_fd, ControlOperation::Add, fd, y, refusal).0 =~= requested(
        kq,
        kqueue_fd,
        ControlOperation::Add,
        fd,
        z,
        refusal,
    ).0);
}

/// A filter that an add or modify request with a known mask asked for, and that a wait brings,
/// is brought again by a second wait, with nothing read or written between them, exactly when
/// the mask has neither the bit of `EDGE_TRIGGERED` nor that of `ONE_SHOT`. It is still
/// registered after the first wait exactly when the mask does not have the bit of `ONE_SHOT`.
pub proof fn law_second_wait_by_bits(
    kq: Interests,
    kqueue_fd: i32,
    operation: ControlOperation,
    fd: i32,
    event: EpollEvent,
    refusal: Refusal,
    filter: i16,
    spent: Set<(usize, i16)>,
    ready: Conditions,
    first: Seq<Kevent>,
    second: Seq<Kevent>,
)
    requires
        operation !is Delete,
        known(event.events),
        filter == EVFILT_READ && event.events & EPOLLIN != 0 || filter == EVFILT_WRITE
            && event.events & EPOLLOUT != 0,
        ({
            let interests = requested(kq, kqueue_fd, operation, fd, event, refusal).0;
            let watch = Watch { interests, spent };
            &&& brings(watch, ready, first)
            &&& brings(after_wait(watch, first), ready, second)
            &&& brought(first, (fd as usize, filter))
        }),
    ensures
        ({
            let interests = requested(kq, kqueue_fd, operation, fd, event, refusal).0;
            let watch = Watch { interests, spent };
            &&& brought(second, (fd as usize, filter)) <==> event.events & EPOLLET == 0
                && event.events & EPOLLONESHOT == 0
            &&& registered(after_wait(watch, first).interests, fd, filter) <==> event.events
                & EPOLLONESHOT == 0
        }),
{
    let interests = requested(kq, kqueue_fd, operation, fd, event, refusal).0;
    let watch = Watch { interests, spent };
    match operation {
        ControlOperation::Add => {
            law_add_by_bits(kq, kqueue_fd, fd, event, refusal);
        },
        _ => {
            law_modify_by_bits(kq, kqueue_fd, fd, event, refusal);
        },
    }
    law_second_wait(watch, ready, first, second, (fd as usize, filter));
    law_after_report(watch, ready, first, (fd as usize, filter));
}

} // verus!
