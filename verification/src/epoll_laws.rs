//! What control requests do to a kqueue, and what is then reported.
//!
//! The laws speak of a kqueue as the set of filters that are registered with it, on
//! descriptors that are open: registering a filter that is there already updates its flags
//! and user data and leaves every other filter alone, and a change to a filter that is not
//! there fails unless it adds the filter. Whether a change that fails ends the call, so that the changes behind it are
//! not looked at, is left open: the laws hold in either case.

use vstd::prelude::*;

use crate::epoll::{
    add_flags, delete_step, deletion, first_step, names_read, names_write, next_step,
    register_step, registrations, reported_mask, request_mask, time_limit, wants_read,
    wants_write, ControlOperation, CtlPending, CtlStepView, EpollEvent,
};
use crate::error::{Error, Reply};
use crate::event_set::{
    holds, known, ALL_BITS, EPOLLERR, EPOLLET, EPOLLHUP, EPOLLIN, EPOLLONESHOT, EPOLLOUT,
    EPOLLRDHUP,
};
use crate::kqueue::{
    Kevent, EVFILT_READ, EVFILT_WRITE, EV_ADD, EV_CLEAR, EV_DELETE, EV_EOF, EV_ERROR, EV_ONESHOT,
};

verus! {

/// How a kqueue answers a change to a filter that is not there.
pub struct Refusal {
    /// The error that the call ends in.
    pub error: Error,
    /// Whether the changes behind it are left alone.
    pub ends_call: bool,
}

/// How a filter is registered.
pub struct Registration {
    /// The flags that it was last registered with.
    pub flags: u16,
    /// The user data that it was last registered with.
    pub udata: usize,
}

/// The filters that are registered with a kqueue, by identifier and filter.
pub type Interests = Map<(usize, i16), Registration>;

/// The filter that a change or an event is about.
pub open spec fn filter_of(kevent: Kevent) -> (usize, i16) {
    (kevent.ident, kevent.filter)
}

/// Whether a filter of `fd` is registered.
pub open spec fn registered(kq: Interests, fd: i32, filter: i16) -> bool {
    kq.dom().contains((fd as usize, filter))
}

/// Whether a change succeeds. Only a change that adds a filter can be made to one that is not
/// there.
pub open spec fn accepts(kq: Interests, change: Kevent) -> bool {
    change.flags & EV_DELETE != 0 || change.flags & EV_ADD == 0 ==> kq.dom().contains(
        filter_of(change),
    )
}

/// What a change that succeeds leaves registered.
pub open spec fn applied(kq: Interests, change: Kevent) -> Interests {
    if change.flags & EV_DELETE != 0 {
        kq.remove(filter_of(change))
    } else {
        kq.insert(
            filter_of(change),
            Registration { flags: change.flags, udata: change.udata },
        )
    }
}

/// What a call with these changes leaves registered, and whether it succeeds.
pub open spec fn submitted(kq: Interests, changes: Seq<Kevent>, refusal: Refusal) -> (
    Interests,
    bool,
)
    decreases changes.len(),
{
    if changes.len() == 0 {
        (kq, true)
    } else if accepts(kq, changes[0]) {
        submitted(applied(kq, changes[0]), changes.drop_first(), refusal)
    } else if refusal.ends_call {
        (kq, false)
    } else {
        (submitted(kq, changes.drop_first(), refusal).0, false)
    }
}

/// How many calls a control request can still make at a step.
pub open spec fn calls_left(step: CtlStepView) -> nat {
    match step {
        CtlStepView::Done(_) => 0,
        CtlStepView::Submit { pending: CtlPending::ClearingRead { .. }, .. } => 3,
        CtlStepView::Submit { pending: CtlPending::ClearingWrite { .. }, .. } => 2,
        CtlStepView::Submit { pending: CtlPending::DeletingRead { .. }, .. } => 2,
        CtlStepView::Submit { .. } => 1,
    }
}

/// What a control request leaves registered when it goes on from `step` to its end, and its
/// result.
pub open spec fn settled(kq: Interests, kqueue_fd: i32, step: CtlStepView, refusal: Refusal) -> (
    Interests,
    Result<(), Error>,
)
    decreases calls_left(step),
{
    match step {
        CtlStepView::Done(result) => (kq, result),
        CtlStepView::Submit { changes, pending, .. } => {
            let (after, success) = submitted(kq, changes, refusal);
            let ret = if success {
                0i32
            } else {
                (-1) as i32
            };
            let reply = Reply { ret, last_error: refusal.error };
            settled(after, kqueue_fd, next_step(kqueue_fd, pending, reply), refusal)
        },
    }
}

/// What a control request leaves registered, and its result.
pub open spec fn requested(
    kq: Interests,
    kqueue_fd: i32,
    operation: ControlOperation,
    fd: i32,
    event: EpollEvent,
    refusal: Refusal,
) -> (Interests, Result<(), Error>) {
    settled(kq, kqueue_fd, first_step(kqueue_fd, operation, fd, event), refusal)
}

/// The kqueue without the filters of `fd`.
pub open spec fn without(kq: Interests, fd: i32) -> Interests {
    kq.remove((fd as usize, EVFILT_READ)).remove((fd as usize, EVFILT_WRITE))
}

/// The registration that `event` asks for.
pub open spec fn registration(event: EpollEvent) -> Registration {
    Registration { flags: add_flags(request_mask(event)), udata: event.u64 as usize }
}

/// The kqueue with the filters of `fd` that `event` asks for registered as it asks.
pub open spec fn with_interest(kq: Interests, fd: i32, event: EpollEvent) -> Interests {
    let mask = request_mask(event);
    let with_read = if wants_read(mask) {
        kq.insert((fd as usize, EVFILT_READ), registration(event))
    } else {
        kq
    };
    if wants_write(mask) {
        with_read.insert((fd as usize, EVFILT_WRITE), registration(event))
    } else {
        with_read
    }
}

proof fn lemma_change_flags(mask: u32)
    ensures
        add_flags(mask) & EV_DELETE == 0,
        add_flags(mask) & EV_ADD != 0,
        EV_DELETE & EV_DELETE != 0,
{
    assert(EV_ADD & EV_ADD != 0 && (EV_ADD | EV_CLEAR) & EV_ADD != 0 && (EV_ADD | EV_ONESHOT)
        & EV_ADD != 0 && (EV_ADD | EV_CLEAR | EV_ONESHOT) & EV_ADD != 0 && EV_ADD & EV_DELETE == 0
        && (EV_ADD | EV_CLEAR) & EV_DELETE == 0 && (EV_ADD | EV_ONESHOT) & EV_DELETE == 0 && (EV_ADD
        | EV_CLEAR | EV_ONESHOT) & EV_DELETE == 0 && EV_DELETE & EV_DELETE != 0) by (bit_vector);
}

/// A single change leaves what it leaves where it succeeds, and otherwise nothing changes.
proof fn lemma_submit_one(kq: Interests, change: Kevent, refusal: Refusal)
    ensures
        submitted(kq, seq![change], refusal) == if accepts(kq, change) {
            (applied(kq, change), true)
        } else {
            (kq, false)
        },
{
    reveal_with_fuel(submitted, 2);
}

/// How a kqueue answers a call with one change. A filter that is not there is registered by a
/// change that adds it, and by no other: any other change to it fails and leaves everything as
/// it was. A filter that is there is taken out by a change that deletes it, and otherwise has
/// the flags and user data of the change. No change touches another filter.
pub proof fn law_single_change(
    kq: Interests,
    change: Kevent,
    refusal: Refusal,
    other: (usize, i16),
)
    requires
        other != filter_of(change),
    ensures
        ({
            let there = kq.dom().contains(filter_of(change));
            let (after, success) = submitted(kq, seq![change], refusal);
            let adds = change.flags & EV_ADD != 0;
            let deletes = change.flags & EV_DELETE != 0;
            &&& success <==> there || adds && !deletes
            &&& !success ==> after == kq
            &&& success && deletes ==> !after.dom().contains(filter_of(change))
            &&& success && !deletes ==> after.dom().contains(filter_of(change))
                && after[filter_of(change)].flags == change.flags && after[filter_of(
                change,
            )].udata == change.udata
            &&& after.dom().contains(other) <==> kq.dom().contains(other)
            &&& kq.dom().contains(other) ==> after[other] == kq[other]
        }),
{
    lemma_submit_one(kq, change, refusal);
}

/// Registering succeeds and leaves what was asked for.
proof fn lemma_register(kq: Interests, kqueue_fd: i32, fd: i32, event: EpollEvent, refusal: Refusal)
    ensures
        settled(kq, kqueue_fd, register_step(kqueue_fd, fd, event), refusal) == (
            with_interest(kq, fd, event),
            Ok::<(), Error>(()),
        ),
{
    let mask = request_mask(event);
    lemma_change_flags(mask);
    let changes = registrations(fd, event);
    reveal_with_fuel(submitted, 3);
    if changes.len() == 2 {
        assert(changes.drop_first()[0] == changes[1]);
    }
    reveal_with_fuel(settled, 3);
}

/// A request that takes a filter out goes on without it, whether it was there or not.
proof fn lemma_delete_filter(
    kq: Interests,
    kqueue_fd: i32,
    fd: i32,
    filter: i16,
    pending: CtlPending,
    refusal: Refusal,
)
    requires
        pending !is Registering,
    ensures
        forall|reply: Reply|
            settled(kq, kqueue_fd, delete_step(kqueue_fd, fd, filter, pending), refusal)
                == settled(
                kq.remove((fd as usize, filter)),
                kqueue_fd,
                #[trigger] next_step(kqueue_fd, pending, reply),
                refusal,
            ),
{
    lemma_change_flags(0);
    lemma_submit_one(kq, deletion(fd, filter), refusal);
    assert(submitted(kq, seq![deletion(fd, filter)], refusal).0 =~= kq.remove(
        (fd as usize, filter),
    ));
    reveal_with_fuel(settled, 2);
}

proof fn lemma_descriptors_differ(a: i32, b: i32)
    requires
        a != b,
    ensures
        a as usize != b as usize,
{
    assert(a as usize != b as usize) by (bit_vector)
        requires
            a != b,
    ;
}

/// An add request succeeds, and registers exactly the filters that its mask asks for, with
/// its user data, whatever was registered before.
pub proof fn law_add(
    kq: Interests,
    kqueue_fd: i32,
    fd: i32,
    event: EpollEvent,
    refusal: Refusal,
)
    ensures
        requested(kq, kqueue_fd, ControlOperation::Add, fd, event, refusal) == (
            with_interest(kq, fd, event),
            Ok::<(), Error>(()),
        ),
{
    lemma_register(kq, kqueue_fd, fd, event, refusal);
}

/// Adding a descriptor that is in the interest list already succeeds, and adding it again in
/// the same way changes nothing.
pub proof fn law_add_is_idempotent(
    kq: Interests,
    kqueue_fd: i32,
    fd: i32,
    event: EpollEvent,
    refusal: Refusal,
)
    ensures
        ({
            let once = requested(kq, kqueue_fd, ControlOperation::Add, fd, event, refusal);
            let twice = requested(once.0, kqueue_fd, ControlOperation::Add, fd, event, refusal);
            once.1 is Ok && twice == once
        }),
{
    law_add(kq, kqueue_fd, fd, event, refusal);
    let once = with_interest(kq, fd, event);
    law_add(once, kqueue_fd, fd, event, refusal);
    assert(with_interest(once, fd, event) =~= once);
}

/// A modify request succeeds and replaces the event mask and user data of the descriptor:
/// what it asks for is all that remains registered for the descriptor.
pub proof fn law_modify_replaces(
    kq: Interests,
    kqueue_fd: i32,
    fd: i32,
    event: EpollEvent,
    refusal: Refusal,
)
    ensures
        requested(kq, kqueue_fd, ControlOperation::Modify, fd, event, refusal) == (
            with_interest(without(kq, fd), fd, event),
            Ok::<(), Error>(()),
        ),
{
    let reply = Reply { ret: 0, last_error: refusal.error };
    let first = CtlPending::ClearingRead { fd, event };
    let second = CtlPending::ClearingWrite { fd, event };
    let without_read = kq.remove((fd as usize, EVFILT_READ));
    lemma_delete_filter(kq, kqueue_fd, fd, EVFILT_READ, first, refusal);
    assert(next_step(kqueue_fd, first, reply) == delete_step(kqueue_fd, fd, EVFILT_WRITE, second));
    lemma_delete_filter(without_read, kqueue_fd, fd, EVFILT_WRITE, second, refusal);
    assert(next_step(kqueue_fd, second, reply) == register_step(kqueue_fd, fd, event));
    lemma_register(without(kq, fd), kqueue_fd, fd, event, refusal);
}

/// A modify request for a descriptor that was never registered succeeds and does what an
/// add request does.
pub proof fn law_modify_of_unregistered_adds(
    kq: Interests,
    kqueue_fd: i32,
    fd: i32,
    event: EpollEvent,
    refusal: Refusal,
)
    requires
        !registered(kq, fd, EVFILT_READ),
        !registered(kq, fd, EVFILT_WRITE),
    ensures
        requested(kq, kqueue_fd, ControlOperation::Modify, fd, event, refusal) == requested(
            kq,
            kqueue_fd,
            ControlOperation::Add,
            fd,
            event,
            refusal,
        ),
{
    law_modify_replaces(kq, kqueue_fd, fd, event, refusal);
    law_add(kq, kqueue_fd, fd, event, refusal);
    assert(without(kq, fd) =~= kq);
}

/// A modify request that asks for no filter removes all interest in the descriptor.
pub proof fn law_modify_to_nothing_removes(
    kq: Interests,
    kqueue_fd: i32,
    fd: i32,
    event: EpollEvent,
    refusal: Refusal,
)
    requires
        !wants_read(request_mask(event)),
        !wants_write(request_mask(event)),
    ensures
        requested(kq, kqueue_fd, ControlOperation::Modify, fd, event, refusal).0 == without(kq, fd),
{
    law_modify_replaces(kq, kqueue_fd, fd, event, refusal);
}

/// The kqueue without the filters of `fd` that a delete request with this mask names.
pub open spec fn without_named(kq: Interests, fd: i32, mask: u32) -> Interests {
    let without_read = if names_read(mask) {
        kq.remove((fd as usize, EVFILT_READ))
    } else {
        kq
    };
    if names_write(mask) {
        without_read.remove((fd as usize, EVFILT_WRITE))
    } else {
        without_read
    }
}

/// A delete request always succeeds, and takes out exactly the filters that it names.
pub proof fn law_delete(
    kq: Interests,
    kqueue_fd: i32,
    fd: i32,
    event: EpollEvent,
    refusal: Refusal,
)
    ensures
        requested(kq, kqueue_fd, ControlOperation::Delete, fd, event, refusal) == (
            without_named(kq, fd, request_mask(event)),
            Ok::<(), Error>(()),
        ),
{
    let mask = request_mask(event);
    let reply = Reply { ret: 0, last_error: refusal.error };
    let done = CtlPending::Deleting;
    let without_read = kq.remove((fd as usize, EVFILT_READ));
    assert(next_step(kqueue_fd, done, reply) == CtlStepView::Done(Ok(())));
    if names_read(mask) {
        let first = CtlPending::DeletingRead { fd, write: names_write(mask) };
        lemma_delete_filter(kq, kqueue_fd, fd, EVFILT_READ, first, refusal);
        let second = next_step(kqueue_fd, first, reply);
        if names_write(mask) {
            assert(second == delete_step(kqueue_fd, fd, EVFILT_WRITE, done));
            lemma_delete_filter(without_read, kqueue_fd, fd, EVFILT_WRITE, done, refusal);
        }
    } else if names_write(mask) {
        lemma_delete_filter(kq, kqueue_fd, fd, EVFILT_WRITE, done, refusal);
    } else {
        reveal_with_fuel(settled, 2);
    }
}

/// A delete request with an empty mask leaves no filter of the descriptor registered.
pub proof fn law_delete_removes(
    kq: Interests,
    kqueue_fd: i32,
    fd: i32,
    event: EpollEvent,
    refusal: Refusal,
)
    requires
        request_mask(event) == 0,
    ensures
        requested(kq, kqueue_fd, ControlOperation::Delete, fd, event, refusal) == (
            without(kq, fd),
            Ok::<(), Error>(()),
        ),
{
    law_delete(kq, kqueue_fd, fd, event, refusal);
}

/// A delete request for a descriptor that was never registered succeeds and changes nothing,
/// whatever its mask.
pub proof fn law_delete_of_unregistered(
    kq: Interests,
    kqueue_fd: i32,
    fd: i32,
    event: EpollEvent,
    refusal: Refusal,
)
    requires
        !registered(kq, fd, EVFILT_READ),
        !registered(kq, fd, EVFILT_WRITE),
    ensures
        requested(kq, kqueue_fd, ControlOperation::Delete, fd, event, refusal) == (
            kq,
            Ok::<(), Error>(()),
        ),
{
    law_delete(kq, kqueue_fd, fd, event, refusal);
    assert(without_named(kq, fd, request_mask(event)) =~= kq);
}

/// A delete request takes back what an add request with the same event did for a descriptor
/// that was not registered.
pub proof fn law_delete_undoes_add(
    kq: Interests,
    kqueue_fd: i32,
    fd: i32,
    event: EpollEvent,
    refusal: Refusal,
)
    requires
        !registered(kq, fd, EVFILT_READ),
        !registered(kq, fd, EVFILT_WRITE),
    ensures
        ({
            let added = requested(kq, kqueue_fd, ControlOperation::Add, fd, event, refusal).0;
            requested(added, kqueue_fd, ControlOperation::Delete, fd, event, refusal) == (
                kq,
                Ok::<(), Error>(()),
            )
        }),
{
    law_add(kq, kqueue_fd, fd, event, refusal);
    let added = with_interest(kq, fd, event);
    law_delete(added, kqueue_fd, fd, event, refusal);
    assert(without_named(added, fd, request_mask(event)) =~= kq);
}

/// A control request leaves every filter of every other descriptor as it was.
pub proof fn law_other_descriptors_unchanged(
    kq: Interests,
    kqueue_fd: i32,
    operation: ControlOperation,
    fd: i32,
    event: EpollEvent,
    refusal: Refusal,
    other: i32,
    filter: i16,
)
    requires
        other != fd,
    ensures
        ({
            let after = requested(kq, kqueue_fd, operation, fd, event, refusal).0;
            &&& registered(after, other, filter) <==> registered(kq, other, filter)
            &&& registered(kq, other, filter) ==> after[(other as usize, filter)] == kq[(
                other as usize,
                filter,
            )]
        }),
{
    lemma_descriptors_differ(other, fd);
    match operation {
        ControlOperation::Add => {
            law_add(kq, kqueue_fd, fd, event, refusal);
        },
        ControlOperation::Modify => {
            law_modify_replaces(kq, kqueue_fd, fd, event, refusal);
        },
        ControlOperation::Delete => {
            law_delete(kq, kqueue_fd, fd, event, refusal);
        },
    }
}

/// The step that follows `step` on `reply`. A request that is done stays done.
pub open spec fn step_on(kqueue_fd: i32, step: CtlStepView, reply: Reply) -> CtlStepView {
    match step {
        CtlStepView::Done(result) => CtlStepView::Done(result),
        CtlStepView::Submit { pending, .. } => next_step(kqueue_fd, pending, reply),
    }
}

/// Whatever the replies, a control request makes at most three calls. A delete request always
/// succeeds. The others fail exactly where there is something to register and the call that
/// registers it fails, and with its error: the first call of an add request and the third of
/// a modify request.
pub proof fn law_request_result(
    kqueue_fd: i32,
    operation: ControlOperation,
    fd: i32,
    event: EpollEvent,
    first: Reply,
    second: Reply,
    third: Reply,
)
    ensures
        ({
            let start = first_step(kqueue_fd, operation, fd, event);
            let after_two = step_on(kqueue_fd, step_on(kqueue_fd, start, first), second);
            let deciding = match operation {
                ControlOperation::Modify => third,
                _ => first,
            };
            let fails = operation != ControlOperation::Delete && registrations(fd, event).len() > 0
                && deciding.ret < 0;
            step_on(kqueue_fd, after_two, third) == CtlStepView::Done(
                if fails {
                    Err(deciding.last_error)
                } else {
                    Ok(())
                },
            )
        }),
{
}

/// A mask with a bit that stands for no flag is taken for the empty mask: an add request
/// makes no call, a modify request registers nothing, and a delete request names both filters.
pub proof fn law_invalid_mask_is_empty(kqueue_fd: i32, fd: i32, event: EpollEvent)
    requires
        !known(event.events),
    ensures
        register_step(kqueue_fd, fd, event) == CtlStepView::Done(Ok(())),
        first_step(kqueue_fd, ControlOperation::Add, fd, event) == CtlStepView::Done(Ok(())),
        names_read(request_mask(event)) && names_write(request_mask(event)),
{
    assert(0u32 & EPOLLIN != EPOLLIN && 0u32 & EPOLLOUT != EPOLLOUT) by (bit_vector);
}

/// A wish to hear of a read hang-up is ignored: what is registered is the same with it and
/// without it.
pub proof fn law_read_hang_up_wish_is_ignored(fd: i32, events: u32, data: u64)
    requires
        known(events),
    ensures
        registrations(fd, EpollEvent { events: events | EPOLLRDHUP, u64: data }) == registrations(
            fd,
            EpollEvent { events: events & !EPOLLRDHUP, u64: data },
        ),
        registrations(fd, EpollEvent { events: EPOLLRDHUP, u64: data }) == Seq::<Kevent>::empty(),
{
    let more = events | EPOLLRDHUP;
    let less = events & !EPOLLRDHUP;
    assert(known(more) && known(less) && (holds(more, EPOLLIN) <==> holds(less, EPOLLIN)) && (holds(
        more,
        EPOLLOUT,
    ) <==> holds(less, EPOLLOUT)) && (holds(more, EPOLLET) <==> holds(less, EPOLLET)) && (holds(
        more,
        EPOLLONESHOT,
    ) <==> holds(less, EPOLLONESHOT))) by (bit_vector)
        requires
            known(events),
            more == events | EPOLLRDHUP,
            less == events & !EPOLLRDHUP,
    ;
    assert(known(EPOLLRDHUP) && !holds(EPOLLRDHUP, EPOLLIN) && !holds(EPOLLRDHUP, EPOLLOUT))
        by (bit_vector);
}

/// Which flags an event is reported with, each exactly when: `IN` and `OUT` by its filter,
/// `READ_HANG_UP` and `HANG_UP` by its filter at the end of the file, `ERROR` on an error.
/// It is never reported with a bit that stands for no flag.
pub proof fn law_reported_flags(kevent: Kevent)
    ensures
        ({
            let mask = reported_mask(kevent);
            let eof = kevent.flags & EV_EOF != 0;
            &&& known(mask)
            &&& holds(mask, EPOLLIN) <==> kevent.filter == EVFILT_READ
            &&& holds(mask, EPOLLRDHUP) <==> kevent.filter == EVFILT_READ && eof
            &&& holds(mask, EPOLLOUT) <==> kevent.filter == EVFILT_WRITE
            &&& holds(mask, EPOLLHUP) <==> kevent.filter == EVFILT_WRITE && eof
            &&& holds(mask, EPOLLERR) <==> kevent.flags & EV_ERROR != 0
            &&& mask & !(EPOLLIN | EPOLLRDHUP | EPOLLOUT | EPOLLHUP | EPOLLERR) == 0
        }),
{
    let mask = reported_mask(kevent);
    let read = kevent.filter == EVFILT_READ;
    let write = kevent.filter == EVFILT_WRITE;
    let eof = kevent.flags & EV_EOF != 0;
    let error = kevent.flags & EV_ERROR != 0;
    let filter_mask = if read {
        if eof {
            EPOLLIN | EPOLLRDHUP
        } else {
            EPOLLIN
        }
    } else if write {
        if eof {
            EPOLLOUT | EPOLLHUP
        } else {
            EPOLLOUT
        }
    } else {
        0
    };
    assert(mask & !ALL_BITS == 0 && (mask & EPOLLIN == EPOLLIN <==> read) && (mask & EPOLLRDHUP
        == EPOLLRDHUP <==> read && eof) && (mask & EPOLLOUT == EPOLLOUT <==> write) && (mask
        & EPOLLHUP == EPOLLHUP <==> write && eof) && (mask & EPOLLERR == EPOLLERR <==> error)
        && mask & !(EPOLLIN | EPOLLRDHUP | EPOLLOUT | EPOLLHUP | EPOLLERR) == 0) by (bit_vector)
        requires
            !(read && write),
            filter_mask == if read {
                if eof {
                    EPOLLIN | EPOLLRDHUP
                } else {
                    EPOLLIN
                }
            } else if write {
                if eof {
                    EPOLLOUT | EPOLLHUP
                } else {
                    EPOLLOUT
                }
            } else {
                0
            },
            mask == if error {
                filter_mask | EPOLLERR
            } else {
                filter_mask
            },
    ;
}

/// A timeout of zero or more milliseconds is waited for exactly, in seconds and less than a
/// second of nanoseconds; a negative one is no limit.
pub proof fn law_time_limit(timeout: i32)
    ensures
        timeout < 0 <==> time_limit(timeout) is None,
        time_limit(timeout) matches Some(limit) ==> limit.tv_sec * 1_000_000_000 + limit.tv_nsec
            == timeout * 1_000_000 && 0 <= limit.tv_nsec < 1_000_000_000,
{
}

} // verus!
