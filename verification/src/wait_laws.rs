//! What is reported of the events that a kqueue brings, and what it brings again.

use vstd::prelude::*;

use crate::epoll::{
    add_flags, descriptors, ready_data, ready_event, ready_mask, reported, reported_mask,
    request_mask, wants_read, wants_write, ControlOperation, EpollEvent,
};
use crate::epoll_laws::{
    filter_of, law_add, law_modify_replaces, law_reported_flags, requested, Interests, Refusal,
    Registration,
};
use crate::event_set::{
    holds, known, ALL_BITS, EPOLLERR, EPOLLET, EPOLLHUP, EPOLLIN, EPOLLONESHOT, EPOLLOUT,
    EPOLLRDHUP,
};
use crate::kqueue::{
    Kevent, EVFILT_READ, EVFILT_WRITE, EV_ADD, EV_CLEAR, EV_EOF, EV_ERROR, EV_ONESHOT,
};

verus! {

/// Whether an event of the descriptor is among `kevents`.
pub open spec fn has_event(kevents: Seq<Kevent>, ident: usize) -> bool {
    exists|i: int| 0 <= i < kevents.len() && (#[trigger] kevents[i]).ident == ident
}

/// A descriptor is ready exactly when it has an event, and is listed once.
pub proof fn law_ready_descriptors(kevents: Seq<Kevent>)
    ensures
        descriptors(kevents).no_duplicates(),
        forall|ident: usize|
            #[trigger] descriptors(kevents).contains(ident) <==> has_event(kevents, ident),
    decreases kevents.len(),
{
    if kevents.len() > 0 {
        let start = kevents.drop_last();
        let before = descriptors(start);
        let last = kevents.last().ident;
        law_ready_descriptors(start);
        assert forall|ident: usize| #[trigger] descriptors(kevents).contains(ident) <==> has_event(
            kevents,
            ident,
        ) by {
            if descriptors(kevents).contains(ident) {
                if ident == last {
                    assert(kevents[kevents.len() - 1].ident == ident);
                } else {
                    let i = choose|i: int|
                        0 <= i < descriptors(kevents).len() && descriptors(kevents)[i] == ident;
                    assert(before[i] == ident);
                    assert(before.contains(ident));
                    let j = choose|j: int|
                        0 <= j < start.len() && (#[trigger] start[j]).ident == ident;
                    assert(kevents[j].ident == ident);
                }
            }
            if has_event(kevents, ident) {
                let j = choose|j: int|
                    0 <= j < kevents.len() && (#[trigger] kevents[j]).ident == ident;
                if j < start.len() {
                    assert(start[j].ident == ident);
                    assert(before.contains(ident));
                    let i = choose|i: int| 0 <= i < before.len() && before[i] == ident;
                    assert(descriptors(kevents)[i] == ident);
                } else if !before.contains(last) {
                    assert(descriptors(kevents)[before.len() as int] == ident);
                }
            }
        }
    }
}

/// The number of ready descriptors is the number of distinct descriptors among the events.
pub proof fn law_ready_count(kevents: Seq<Kevent>)
    ensures
        descriptors(kevents).len() == kevents.map_values(
            |kevent: Kevent| kevent.ident,
        ).to_set().len(),
{
    let idents = kevents.map_values(|kevent: Kevent| kevent.ident);
    law_ready_descriptors(kevents);
    descriptors(kevents).unique_seq_to_set();
    assert forall|ident: usize| #[trigger]
        descriptors(kevents).to_set().contains(ident) <==> idents.to_set().contains(ident) by {
        assert(descriptors(kevents).to_set().contains(ident) <==> descriptors(kevents).contains(
            ident,
        ));
        assert(idents.to_set().contains(ident) <==> idents.contains(ident));
        if has_event(kevents, ident) {
            let i = choose|i: int| 0 <= i < kevents.len() && (#[trigger] kevents[i]).ident == ident;
            assert(idents[i] == ident);
        }
        if idents.contains(ident) {
            let i = choose|i: int| 0 <= i < idents.len() && idents[i] == ident;
            assert(kevents[i].ident == ident);
        }
    }
    assert(descriptors(kevents).to_set() =~= idents.to_set());
}

/// A descriptor is reported with the user data of its first event.
pub proof fn law_ready_data_is_first(kevents: Seq<Kevent>, ident: usize, first: int)
    requires
        0 <= first < kevents.len(),
        kevents[first].ident == ident,
        forall|i: int| 0 <= i < first ==> (#[trigger] kevents[i]).ident != ident,
    ensures
        ready_data(kevents, ident) == kevents[first].udata as u64,
        ready_event(kevents, ident).u64 == kevents[first].udata,
    decreases kevents.len(),
{
    let start = kevents.drop_last();
    law_ready_descriptors(start);
    if first < start.len() {
        assert(start[first].ident == ident);
        law_ready_data_is_first(start, ident, first);
    } else {
        assert(!has_event(start, ident)) by {
            if has_event(start, ident) {
                let i = choose|i: int| 0 <= i < start.len() && (#[trigger] start[i]).ident == ident;
                assert(kevents[i].ident != ident);
            }
        }
    }
}

/// The user data that a descriptor is reported with is that of one of its events.
proof fn lemma_ready_data_of_some(kevents: Seq<Kevent>, ident: usize)
    requires
        has_event(kevents, ident),
    ensures
        exists|i: int|
            0 <= i < kevents.len() && (#[trigger] kevents[i]).ident == ident && kevents[i].udata as u64
                == ready_data(kevents, ident),
    decreases kevents.len(),
{
    let start = kevents.drop_last();
    law_ready_descriptors(start);
    if has_event(start, ident) {
        lemma_ready_data_of_some(start, ident);
        let i = choose|i: int|
            0 <= i < start.len() && (#[trigger] start[i]).ident == ident && start[i].udata as u64
                == ready_data(start, ident);
        assert(kevents[i].ident == ident);
    } else {
        let i = choose|i: int| 0 <= i < kevents.len() && (#[trigger] kevents[i]).ident == ident;
        assert(i == kevents.len() - 1) by {
            if i < start.len() {
                assert(start[i].ident == ident);
            }
        }
    }
}

/// Whether `flag` is one of the flags that a descriptor can be reported with.
pub open spec fn reportable(flag: u32) -> bool {
    ||| flag == EPOLLIN
    ||| flag == EPOLLRDHUP
    ||| flag == EPOLLOUT
    ||| flag == EPOLLHUP
    ||| flag == EPOLLERR
}

/// A descriptor is reported with a flag exactly when one of its events stands for the flag,
/// and never with a bit that stands for no flag.
pub proof fn law_ready_flags(kevents: Seq<Kevent>, ident: usize, flag: u32)
    requires
        reportable(flag),
    ensures
        known(ready_mask(kevents, ident)),
        holds(ready_mask(kevents, ident), flag) <==> exists|i: int|
            0 <= i < kevents.len() && (#[trigger] kevents[i]).ident == ident && holds(
                reported_mask(kevents[i]),
                flag,
            ),
    decreases kevents.len(),
{
    if kevents.len() == 0 {
        assert(0u32 & !ALL_BITS == 0) by (bit_vector);
        assert(0u32 & flag != flag) by (bit_vector)
            requires
                reportable(flag),
        ;
    } else {
        let start = kevents.drop_last();
        let last = kevents.last();
        let (a, b) = (ready_mask(start, ident), reported_mask(last));
        law_ready_flags(start, ident, flag);
        law_reported_flags(last);
        assert(known(a | b) && (holds(a | b, flag) <==> holds(a, flag) || holds(b, flag)))
            by (bit_vector)
            requires
                reportable(flag),
                known(a),
                known(b),
        ;
        if holds(a, flag) {
            let i = choose|i: int|
                0 <= i < start.len() && (#[trigger] start[i]).ident == ident && holds(
                    reported_mask(start[i]),
                    flag,
                );
            assert(kevents[i].ident == ident);
        }
        if last.ident == ident && holds(b, flag) {
            assert(kevents[kevents.len() - 1].ident == ident);
        }
        assert forall|i: int|
            0 <= i < kevents.len() && (#[trigger] kevents[i]).ident == ident && holds(
                reported_mask(kevents[i]),
                flag,
            ) implies holds(ready_mask(kevents, ident), flag) by {
            if i < start.len() {
                assert(start[i].ident == ident);
            }
        }
    }
}

/// Ready descriptors are listed in the order in which their first events come: wherever there
/// is an event of one, there is an earlier event of each that is listed before it.
pub proof fn law_ready_order(kevents: Seq<Kevent>, i: int, j: int, p: int)
    requires
        0 <= i < j < descriptors(kevents).len(),
        0 <= p < kevents.len(),
        kevents[p].ident == descriptors(kevents)[j],
    ensures
        exists|q: int| 0 <= q < p && (#[trigger] kevents[q]).ident == descriptors(kevents)[i],
    decreases kevents.len(),
{
    let start = kevents.drop_last();
    let before = descriptors(start);
    law_ready_descriptors(start);
    law_ready_descriptors(kevents);
    assert(descriptors(kevents)[i] == before[i]);
    if p < start.len() {
        assert(start[p].ident == kevents[p].ident);
        assert(has_event(start, kevents[p].ident));
        assert(before.contains(kevents[p].ident));
        let k = choose|k: int| 0 <= k < before.len() && before[k] == kevents[p].ident;
        assert(descriptors(kevents)[k] == kevents[p].ident);
        law_ready_order(start, i, j, p);
        let q = choose|q: int| 0 <= q < p && (#[trigger] start[q]).ident == before[i];
        assert(kevents[q].ident == before[i]);
    } else {
        assert(before.contains(before[i]));
        let q = choose|q: int| 0 <= q < start.len() && (#[trigger] start[q]).ident == before[i];
        assert(kevents[q].ident == before[i]);
    }
}

/// A descriptor is reported with one of the bits of `bits` exactly when one of its events
/// stands for one of them: nothing is lost when its events are joined, and nothing is added.
pub proof fn law_ready_mask_is_union(kevents: Seq<Kevent>, ident: usize, bits: u32)
    ensures
        ready_mask(kevents, ident) & bits != 0 <==> exists|i: int|
            0 <= i < kevents.len() && (#[trigger] kevents[i]).ident == ident && reported_mask(
                kevents[i],
            ) & bits != 0,
    decreases kevents.len(),
{
    if kevents.len() == 0 {
        assert(0u32 & bits == 0) by (bit_vector);
    } else {
        let start = kevents.drop_last();
        let last = kevents.last();
        let (a, b) = (ready_mask(start, ident), reported_mask(last));
        law_ready_mask_is_union(start, ident, bits);
        assert((a | b) & bits != 0 <==> a & bits != 0 || b & bits != 0) by (bit_vector);
        if a & bits != 0 {
            let i = choose|i: int|
                0 <= i < start.len() && (#[trigger] start[i]).ident == ident && reported_mask(
                    start[i],
                ) & bits != 0;
            assert(kevents[i].ident == ident);
        }
        if last.ident == ident && b & bits != 0 {
            assert(kevents[kevents.len() - 1].ident == ident);
        }
        assert forall|i: int|
            0 <= i < kevents.len() && (#[trigger] kevents[i]).ident == ident && reported_mask(
                kevents[i],
            ) & bits != 0 implies ready_mask(kevents, ident) & bits != 0 by {
            if i < start.len() {
                assert(start[i].ident == ident);
            }
        }
    }
}

/// Whether a descriptor has an event of this filter, with one of these flags unless they are
/// none.
pub open spec fn has_event_of(
    kevents: Seq<Kevent>,
    ident: usize,
    filter: i16,
    flags: u16,
) -> bool {
    exists|i: int|
        0 <= i < kevents.len() && (#[trigger] kevents[i]).ident == ident && kevents[i].filter
            == filter && (flags == 0 || kevents[i].flags & flags != 0)
}

proof fn lemma_reported_bits(kevent: Kevent)
    ensures
        ({
            let mask = reported_mask(kevent);
            let eof = kevent.flags & EV_EOF != 0;
            &&& mask & EPOLLIN != 0 <==> kevent.filter == EVFILT_READ
            &&& mask & EPOLLRDHUP != 0 <==> kevent.filter == EVFILT_READ && eof
            &&& mask & EPOLLOUT != 0 <==> kevent.filter == EVFILT_WRITE
            &&& mask & EPOLLHUP != 0 <==> kevent.filter == EVFILT_WRITE && eof
            &&& mask & EPOLLERR != 0 <==> kevent.flags & EV_ERROR != 0
            &&& mask & !(EPOLLIN | EPOLLRDHUP | EPOLLOUT | EPOLLHUP | EPOLLERR) == 0
        }),
{
    law_reported_flags(kevent);
    let mask = reported_mask(kevent);
    assert((mask & EPOLLIN == EPOLLIN <==> mask & EPOLLIN != 0) && (mask & EPOLLRDHUP == EPOLLRDHUP
        <==> mask & EPOLLRDHUP != 0) && (mask & EPOLLOUT == EPOLLOUT <==> mask & EPOLLOUT != 0) && (
    mask & EPOLLHUP == EPOLLHUP <==> mask & EPOLLHUP != 0) && (mask & EPOLLERR == EPOLLERR <==> mask
        & EPOLLERR != 0)) by (bit_vector);
}

/// Which bits a descriptor is reported with, each exactly when: that of `IN` on an event of the
/// read filter and that of `OUT` on one of the write filter, those of `READ_HANG_UP` and
/// `HANG_UP` on such an event at the end of the file, that of `ERROR` on any event with an
/// error, and no other bit.
pub proof fn law_ready_bits(kevents: Seq<Kevent>, ident: usize)
    ensures
        ({
            let mask = ready_event(kevents, ident).events;
            &&& mask & EPOLLIN != 0 <==> has_event_of(kevents, ident, EVFILT_READ, 0)
            &&& mask & EPOLLRDHUP != 0 <==> has_event_of(kevents, ident, EVFILT_READ, EV_EOF)
            &&& mask & EPOLLOUT != 0 <==> has_event_of(kevents, ident, EVFILT_WRITE, 0)
            &&& mask & EPOLLHUP != 0 <==> has_event_of(kevents, ident, EVFILT_WRITE, EV_EOF)
            &&& mask & EPOLLERR != 0 <==> exists|i: int|
                0 <= i < kevents.len() && (#[trigger] kevents[i]).ident == ident && kevents[i].flags
                    & EV_ERROR != 0
            &&& mask & !(EPOLLIN | EPOLLRDHUP | EPOLLOUT | EPOLLHUP | EPOLLERR) == 0
        }),
{
    let rest = !(EPOLLIN | EPOLLRDHUP | EPOLLOUT | EPOLLHUP | EPOLLERR);
    law_ready_mask_is_union(kevents, ident, EPOLLIN);
    law_ready_mask_is_union(kevents, ident, EPOLLRDHUP);
    law_ready_mask_is_union(kevents, ident, EPOLLOUT);
    law_ready_mask_is_union(kevents, ident, EPOLLHUP);
    law_ready_mask_is_union(kevents, ident, EPOLLERR);
    law_ready_mask_is_union(kevents, ident, rest);
    assert forall|i: int| 0 <= i < kevents.len() implies ({
        let kevent = #[trigger] kevents[i];
        let mask = reported_mask(kevent);
        let eof = kevent.flags & EV_EOF != 0;
        &&& mask & EPOLLIN != 0 <==> kevent.filter == EVFILT_READ
        &&& mask & EPOLLRDHUP != 0 <==> kevent.filter == EVFILT_READ && eof
        &&& mask & EPOLLOUT != 0 <==> kevent.filter == EVFILT_WRITE
        &&& mask & EPOLLHUP != 0 <==> kevent.filter == EVFILT_WRITE && eof
        &&& mask & EPOLLERR != 0 <==> kevent.flags & EV_ERROR != 0
        &&& mask & rest == 0
    }) by {
        lemma_reported_bits(kevents[i]);
    }
}

/// An event alone is reported with its own user data, and with the bits of the flags that it
/// stands for.
pub proof fn law_report_of_one_event(kevent: Kevent)
    ensures
        reported(kevent).u64 == kevent.udata,
        ({
            let mask = reported(kevent).events;
            let eof = kevent.flags & EV_EOF != 0;
            &&& mask & EPOLLIN != 0 <==> kevent.filter == EVFILT_READ
            &&& mask & EPOLLRDHUP != 0 <==> kevent.filter == EVFILT_READ && eof
            &&& mask & EPOLLOUT != 0 <==> kevent.filter == EVFILT_WRITE
            &&& mask & EPOLLHUP != 0 <==> kevent.filter == EVFILT_WRITE && eof
            &&& mask & EPOLLERR != 0 <==> kevent.flags & EV_ERROR != 0
            &&& mask & !(EPOLLIN | EPOLLRDHUP | EPOLLOUT | EPOLLHUP | EPOLLERR) == 0
        }),
{
    lemma_reported_bits(kevent);
}

/// A descriptor with one event is reported as that event stands for.
pub proof fn law_single_event(kevent: Kevent)
    ensures
        descriptors(seq![kevent]) == seq![kevent.ident],
        ready_event(seq![kevent], kevent.ident) == reported(kevent),
{
    let kevents = seq![kevent];
    let mask = reported_mask(kevent);
    assert(0u32 | mask == mask) by (bit_vector);
    assert(kevents.drop_last() =~= Seq::empty());
    reveal_with_fuel(descriptors, 2);
    reveal_with_fuel(ready_mask, 2);
    reveal_with_fuel(ready_data, 2);
    assert(descriptors(kevents) =~= seq![kevent.ident]);
}

/// Whether a kqueue can bring an event: its filter is registered, and it carries the user
/// data of the registration.
pub open spec fn can_bring(kq: Interests, kevent: Kevent) -> bool {
    kq.dom().contains(filter_of(kevent)) && kq[filter_of(kevent)].udata == kevent.udata
}

/// Whether a mask asks for a filter.
pub open spec fn wants(mask: u32, filter: i16) -> bool {
    if filter == EVFILT_READ {
        wants_read(mask)
    } else {
        filter == EVFILT_WRITE && wants_write(mask)
    }
}

/// After an add request, the descriptor is reported with the user data of the request,
/// wherever its events are of filters that the request asked for. User data that is wider
/// than a pointer of the machine is left out.
pub proof fn law_reported_after_add(
    kq: Interests,
    kqueue_fd: i32,
    fd: i32,
    event: EpollEvent,
    refusal: Refusal,
    kevents: Seq<Kevent>,
)
    requires
        event.u64 <= usize::MAX,
        has_event(kevents, fd as usize),
        forall|i: int|
            0 <= i < kevents.len() && (#[trigger] kevents[i]).ident == fd as usize ==> wants(
                request_mask(event),
                kevents[i].filter,
            ) && can_bring(
                requested(kq, kqueue_fd, ControlOperation::Add, fd, event, refusal).0,
                kevents[i],
            ),
    ensures
        ready_event(kevents, fd as usize).u64 == event.u64,
{
    law_add(kq, kqueue_fd, fd, event, refusal);
    lemma_ready_data_of_some(kevents, fd as usize);
}

/// After a modify request, each event of the two filters of the descriptor is one that the
/// request asked for, and the descriptor is reported with the user data of the request. User
/// data that is wider than a pointer of the machine is left out.
pub proof fn law_reported_after_modify(
    kq: Interests,
    kqueue_fd: i32,
    fd: i32,
    event: EpollEvent,
    refusal: Refusal,
    kevents: Seq<Kevent>,
)
    requires
        event.u64 <= usize::MAX,
        has_event(kevents, fd as usize),
        forall|i: int|
            0 <= i < kevents.len() && (#[trigger] kevents[i]).ident == fd as usize ==> (
            kevents[i].filter == EVFILT_READ || kevents[i].filter == EVFILT_WRITE) && can_bring(
                requested(kq, kqueue_fd, ControlOperation::Modify, fd, event, refusal).0,
                kevents[i],
            ),
    ensures
        forall|i: int|
            0 <= i < kevents.len() && (#[trigger] kevents[i]).ident == fd as usize ==> wants(
                request_mask(event),
                kevents[i].filter,
            ),
        ready_event(kevents, fd as usize).u64 == event.u64,
{
    law_modify_replaces(kq, kqueue_fd, fd, event, refusal);
    lemma_ready_data_of_some(kevents, fd as usize);
}

/// A kqueue between two waits: what is registered with it, and which filters have nothing new
/// to tell since they were last brought.
pub struct Watch {
    /// What is registered.
    pub interests: Interests,
    /// The filters that forget their state once they are brought, and were brought with no
    /// activity since.
    pub spent: Set<(usize, i16)>,
}

/// The filters whose descriptor is ready, each with the flags of its condition. To wait
/// takes nothing from a descriptor: what is ready stays ready until it is read or written.
pub type Conditions = Map<(usize, i16), u16>;

/// Whether a wait brings a filter.
pub open spec fn fires(watch: Watch, ready: Conditions, filter: (usize, i16)) -> bool {
    &&& watch.interests.dom().contains(filter)
    &&& ready.dom().contains(filter)
    &&& !watch.spent.contains(filter)
}

/// Whether an event tells of a filter as it is registered and as its condition is.
pub open spec fn tells(watch: Watch, ready: Conditions, kevent: Kevent) -> bool {
    let filter = filter_of(kevent);
    &&& kevent.udata == watch.interests[filter].udata
    &&& kevent.flags & EV_EOF == ready[filter] & EV_EOF
    &&& kevent.flags & EV_ERROR == ready[filter] & EV_ERROR
}

/// Whether an event of the filter is among `kevents`.
pub open spec fn brought(kevents: Seq<Kevent>, filter: (usize, i16)) -> bool {
    exists|i: int| 0 <= i < kevents.len() && filter_of(#[trigger] kevents[i]) == filter
}

/// Whether a wait with room for every event brings these events: one for each filter that
/// fires, and no other.
pub open spec fn brings(watch: Watch, ready: Conditions, kevents: Seq<Kevent>) -> bool {
    &&& forall|i: int|
        0 <= i < kevents.len() ==> fires(watch, ready, filter_of(#[trigger] kevents[i])) && tells(
            watch,
            ready,
            kevents[i],
        )
    &&& forall|i: int, j: int|
        0 <= i < j < kevents.len() ==> filter_of(#[trigger] kevents[i]) != filter_of(
            #[trigger] kevents[j],
        )
    &&& forall|filter: (usize, i16)| #[trigger]
        fires(watch, ready, filter) ==> brought(kevents, filter)
}

/// The kqueue once an event has been brought: a filter that is reported once is taken out,
/// and one that forgets its state has nothing to tell until there is new activity.
pub open spec fn told(watch: Watch, kevent: Kevent) -> Watch {
    let filter = filter_of(kevent);
    let flags = watch.interests[filter].flags;
    if flags & EV_ONESHOT != 0 {
        Watch { interests: watch.interests.remove(filter), spent: watch.spent }
    } else if flags & EV_CLEAR != 0 {
        Watch { interests: watch.interests, spent: watch.spent.insert(filter) }
    } else {
        watch
    }
}

/// The kqueue once these events have been brought.
pub open spec fn after_wait(watch: Watch, kevents: Seq<Kevent>) -> Watch
    decreases kevents.len(),
{
    if kevents.len() == 0 {
        watch
    } else {
        told(after_wait(watch, kevents.drop_last()), kevents.last())
    }
}

/// The kqueue after new activity on the descriptor of a filter.
pub open spec fn stirred(watch: Watch, filter: (usize, i16)) -> Watch {
    Watch { interests: watch.interests, spent: watch.spent.remove(filter) }
}

/// Whether a filter is reported once.
pub open spec fn once(watch: Watch, filter: (usize, i16)) -> bool {
    watch.interests[filter].flags & EV_ONESHOT != 0
}

/// Whether a filter forgets its state once it is brought.
pub open spec fn forgets(watch: Watch, filter: (usize, i16)) -> bool {
    watch.interests[filter].flags & EV_CLEAR != 0
}

proof fn lemma_after_wait(watch: Watch, kevents: Seq<Kevent>, filter: (usize, i16))
    requires
        watch.interests.dom().contains(filter),
        forall|i: int, j: int|
            0 <= i < j < kevents.len() ==> filter_of(#[trigger] kevents[i]) != filter_of(
                #[trigger] kevents[j],
            ),
    ensures
        ({
            let after = after_wait(watch, kevents);
            if brought(kevents, filter) {
                &&& after.interests.dom().contains(filter) <==> !once(watch, filter)
                &&& !once(watch, filter) ==> after.interests[filter] == watch.interests[filter]
                &&& !once(watch, filter) ==> (after.spent.contains(filter) <==> forgets(
                    watch,
                    filter,
                ) || watch.spent.contains(filter))
            } else {
                &&& after.interests.dom().contains(filter)
                &&& after.interests[filter] == watch.interests[filter]
                &&& after.spent.contains(filter) <==> watch.spent.contains(filter)
            }
        }),
    decreases kevents.len(),
{
    if kevents.len() > 0 {
        let start = kevents.drop_last();
        let last = kevents.last();
        assert forall|i: int, j: int| 0 <= i < j < start.len() implies filter_of(
            #[trigger] start[i],
        ) != filter_of(#[trigger] start[j]) by {
            assert(start[i] == kevents[i] && start[j] == kevents[j]);
        }
        lemma_after_wait(watch, start, filter);
        if brought(start, filter) {
            let i = choose|i: int| 0 <= i < start.len() && filter_of(#[trigger] start[i]) == filter;
            assert(filter_of(kevents[i]) == filter);
            assert(filter_of(kevents[kevents.len() - 1]) != filter);
        } else if brought(kevents, filter) {
            let i = choose|i: int|
                0 <= i < kevents.len() && filter_of(#[trigger] kevents[i]) == filter;
            assert(i == kevents.len() - 1) by {
                if i < start.len() {
                    assert(filter_of(start[i]) == filter);
                }
            }
        } else {
            assert(filter_of(kevents[kevents.len() - 1]) != filter);
        }
    }
}

/// A wait that follows another, with no activity between them, brings exactly those filters
/// again that neither are reported once nor forget their state.
pub proof fn law_second_wait(
    watch: Watch,
    ready: Conditions,
    first: Seq<Kevent>,
    second: Seq<Kevent>,
    filter: (usize, i16),
)
    requires
        brings(watch, ready, first),
        brings(after_wait(watch, first), ready, second),
    ensures
        brought(first, filter) ==> (brought(second, filter) <==> !once(watch, filter) && !forgets(
            watch,
            filter,
        )),
        watch.interests.dom().contains(filter) && !brought(first, filter) ==> !brought(
            second,
            filter,
        ),
{
    let after = after_wait(watch, first);
    if brought(first, filter) {
        let i = choose|i: int| 0 <= i < first.len() && filter_of(#[trigger] first[i]) == filter;
        assert(fires(watch, ready, filter_of(first[i])));
    }
    if watch.interests.dom().contains(filter) {
        lemma_after_wait(watch, first, filter);
        assert(fires(watch, ready, filter) ==> brought(first, filter));
        assert(fires(after, ready, filter) ==> brought(second, filter));
        if brought(second, filter) {
            let i = choose|i: int|
                0 <= i < second.len() && filter_of(#[trigger] second[i]) == filter;
            assert(fires(after, ready, filter_of(second[i])));
        }
    }
}

/// A filter that was reported once is no longer registered after it was brought. One that
/// forgets its state stays registered, and fires again upon new activity.
pub proof fn law_after_report(
    watch: Watch,
    ready: Conditions,
    kevents: Seq<Kevent>,
    filter: (usize, i16),
)
    requires
        brings(watch, ready, kevents),
        brought(kevents, filter),
    ensures
        once(watch, filter) <==> !after_wait(watch, kevents).interests.dom().contains(filter),
        forgets(watch, filter) && !once(watch, filter) ==> !fires(
            after_wait(watch, kevents),
            ready,
            filter,
        ) && fires(stirred(after_wait(watch, kevents), filter), ready, filter),
{
    let i = choose|i: int| 0 <= i < kevents.len() && filter_of(#[trigger] kevents[i]) == filter;
    assert(fires(watch, ready, filter_of(kevents[i])));
    lemma_after_wait(watch, kevents, filter);
}

proof fn lemma_added_flags(mask: u32)
    ensures
        add_flags(mask) & EV_CLEAR != 0 <==> holds(mask, EPOLLET),
        add_flags(mask) & EV_ONESHOT != 0 <==> holds(mask, EPOLLONESHOT),
{
    assert(EV_ADD & EV_CLEAR == 0 && EV_ADD & EV_ONESHOT == 0 && (EV_ADD | EV_CLEAR) & EV_CLEAR != 0
        && (EV_ADD | EV_CLEAR) & EV_ONESHOT == 0 && (EV_ADD | EV_ONESHOT) & EV_CLEAR == 0 && (EV_ADD
        | EV_ONESHOT) & EV_ONESHOT != 0 && (EV_ADD | EV_CLEAR | EV_ONESHOT) & EV_CLEAR != 0 && (
    EV_ADD | EV_CLEAR | EV_ONESHOT) & EV_ONESHOT != 0) by (bit_vector);
}

/// The only filter that fires is brought by one event.
proof fn lemma_only_filter(
    watch: Watch,
    ready: Conditions,
    kevents: Seq<Kevent>,
    filter: (usize, i16),
)
    requires
        brings(watch, ready, kevents),
        forall|f: (usize, i16)| #[trigger] watch.interests.dom().contains(f) ==> f == filter,
    ensures
        fires(watch, ready, filter) ==> kevents.len() == 1 && filter_of(kevents[0]) == filter
            && kevents =~= seq![kevents[0]],
        !fires(watch, ready, filter) ==> kevents.len() == 0,
{
    if kevents.len() > 0 {
        assert(fires(watch, ready, filter_of(kevents[0])));
    }
    if kevents.len() > 1 {
        assert(fires(watch, ready, filter_of(kevents[1])));
        assert(filter_of(kevents[0]) != filter_of(kevents[1]));
    }
    if fires(watch, ready, filter) {
        assert(brought(kevents, filter));
    }
}

/// A descriptor that can be read, and that was added for reading to an epoll with no other
/// interest, is all that a first wait reports, with the user data of the request. A second
/// wait, with nothing read or written between them, reports the same again where the request
/// was level triggered, and nothing where it was edge triggered or one-shot. User data that
/// is wider than a pointer of the machine is left out.
pub proof fn law_wait_twice(
    kqueue_fd: i32,
    fd: i32,
    mode: u32,
    data: u64,
    refusal: Refusal,
    ready: Conditions,
    first: Seq<Kevent>,
    second: Seq<Kevent>,
)
    requires
        mode & !(EPOLLET | EPOLLONESHOT) == 0,
        data <= usize::MAX,
        ready.dom().contains((fd as usize, EVFILT_READ)),
        brings(reading(kqueue_fd, fd, mode, data, refusal), ready, first),
        brings(
            after_wait(reading(kqueue_fd, fd, mode, data, refusal), first),
            ready,
            second,
        ),
    ensures
        descriptors(first) == seq![fd as usize],
        ready_event(first, fd as usize).u64 == data,
        holds(ready_event(first, fd as usize).events, EPOLLIN),
        mode == 0 ==> descriptors(second) == descriptors(first) && ready_event(second, fd as usize)
            == ready_event(first, fd as usize),
        mode != 0 ==> descriptors(second).len() == 0,
{
    let event = EpollEvent { events: EPOLLIN | mode, u64: data };
    let filter = (fd as usize, EVFILT_READ);
    let watch = reading(kqueue_fd, fd, mode, data, refusal);
    let mask = EPOLLIN | mode;
    assert(known(mask) && holds(mask, EPOLLIN) && !holds(mask, EPOLLOUT) && (mode == 0
        <==> !holds(mask, EPOLLET) && !holds(mask, EPOLLONESHOT))) by (bit_vector)
        requires
            mode & !(EPOLLET | EPOLLONESHOT) == 0,
            mask == EPOLLIN | mode,
    ;
    law_add(Map::empty(), kqueue_fd, fd, event, refusal);
    lemma_added_flags(mask);
    let registration = Registration { flags: add_flags(mask), udata: data as usize };
    assert(watch.interests =~= Map::empty().insert(filter, registration));
    assert(fires(watch, ready, filter));
    lemma_only_filter(watch, ready, first, filter);
    law_single_event(first[0]);
    law_reported_flags(first[0]);

    let after = after_wait(watch, first);
    lemma_after_wait(watch, first, filter);
    assert(brought(first, filter));
    assert(after == told(watch, first[0])) by {
        reveal_with_fuel(after_wait, 2);
        assert(first.drop_last() =~= Seq::empty());
    }
    lemma_only_filter(after, ready, second, filter);
    if mode == 0 {
        law_single_event(second[0]);
        assert(tells(watch, ready, first[0]) && tells(after, ready, second[0]));
    }
}

/// An epoll that was made for one descriptor, added for reading.
pub open spec fn reading(
    kqueue_fd: i32,
    fd: i32,
    mode: u32,
    data: u64,
    refusal: Refusal,
) -> Watch {
    let event = EpollEvent { events: EPOLLIN | mode, u64: data };
    Watch {
        interests: requested(
            Map::empty(),
            kqueue_fd,
            ControlOperation::Add,
            fd,
            event,
            refusal,
        ).0,
        spent: Set::empty(),
    }
}

} // verus!
