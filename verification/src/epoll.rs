//! The epoll API on top of a kqueue.
//!
//! A control request is a short exchange: [`Epoll::ctl`] says which changes go to the kqueue
//! first, and [`Epoll::resume_ctl`] takes the reply and says what comes next, until the
//! request is done. Waiting is one call: [`Epoll::wait`] says how to make it, and
//! [`Epoll::complete_wait`] turns what came back into epoll events.

use vstd::prelude::*;

use crate::error::{Error, Reply};
use crate::event_set::{
    holds, known, EPOLLERR, EPOLLET, EPOLLHUP, EPOLLIN, EPOLLONESHOT, EPOLLOUT, EPOLLRDHUP,
};
use crate::kqueue::{
    Kevent, Timespec, EVFILT_READ, EVFILT_WRITE, EV_ADD, EV_CLEAR, EV_DELETE, EV_EOF, EV_ERROR,
    EV_ONESHOT,
};

pub use crate::event::EpollEvent;
pub use crate::event_set::EventSet;

verus! {

/// Wrapper over `EPOLL_CTL_*` operations that can be performed on a file descriptor.
#[derive(Clone, Copy, Debug, PartialEq, Eq, Structural)]
pub enum ControlOperation {
    /// Add a file descriptor to the interest list.
    Add,
    /// Change the settings associated with a file descriptor that is
    /// already in the interest list.
    Modify,
    /// Remove a file descriptor from the interest list.
    Delete,
}

impl ControlOperation {
    /// Returns the number of the operation in the Linux API.
    pub fn code(&self) -> (code: i32)
        ensures
            code == match *self {
                ControlOperation::Add => 1i32,
                ControlOperation::Modify => 3i32,
                ControlOperation::Delete => 2i32,
            },
    {
        match self {
            ControlOperation::Add => 1,
            ControlOperation::Modify => 3,
            ControlOperation::Delete => 2,
        }
    }
}

/// The mask that a control request goes by: that of its event, or the empty mask where a bit
/// of it stands for no flag.
pub open spec fn request_mask(event: EpollEvent) -> u32 {
    if known(event.events) {
        event.events
    } else {
        0
    }
}

/// Whether a mask asks for the read filter. A wish to hear of a read hang-up is ignored: the
/// read filter reports the end of the file, asked or not.
pub open spec fn wants_read(mask: u32) -> bool {
    holds(mask, EPOLLIN)
}

/// Whether a mask asks for the write filter.
pub open spec fn wants_write(mask: u32) -> bool {
    holds(mask, EPOLLOUT)
}

/// The flags with which a mask registers its filters.
pub open spec fn add_flags(mask: u32) -> u16 {
    let edge = if holds(mask, EPOLLET) {
        EV_ADD | EV_CLEAR
    } else {
        EV_ADD
    };
    if holds(mask, EPOLLONESHOT) {
        edge | EV_ONESHOT
    } else {
        edge
    }
}

/// The change that registers a filter of `fd` for `event`.
pub open spec fn addition(fd: i32, filter: i16, event: EpollEvent) -> Kevent {
    Kevent {
        ident: fd as usize,
        filter,
        flags: add_flags(request_mask(event)),
        fflags: 0,
        data: 0,
        udata: event.u64 as usize,
    }
}

/// The change that takes a filter of `fd` out.
pub open spec fn deletion(fd: i32, filter: i16) -> Kevent {
    Kevent { ident: fd as usize, filter, flags: EV_DELETE, fflags: 0, data: 0, udata: 0 }
}

/// The sequence of `kevent` alone where `cond` holds, and the empty sequence otherwise.
pub open spec fn only_if(cond: bool, kevent: Kevent) -> Seq<Kevent> {
    if cond {
        seq![kevent]
    } else {
        Seq::empty()
    }
}

/// The changes that register `fd` for `event`: one for each filter that the mask asks for.
pub open spec fn registrations(fd: i32, event: EpollEvent) -> Seq<Kevent> {
    let mask = request_mask(event);
    only_if(wants_read(mask), addition(fd, EVFILT_READ, event)) + only_if(
        wants_write(mask),
        addition(fd, EVFILT_WRITE, event),
    )
}

/// Whether a delete request with this mask names the read filter. An empty mask names both
/// filters.
pub open spec fn names_read(mask: u32) -> bool {
    mask == 0 || holds(mask, EPOLLIN)
}

/// Whether a delete request with this mask names the write filter.
pub open spec fn names_write(mask: u32) -> bool {
    mask == 0 || holds(mask, EPOLLOUT)
}

/// What a control request waits for, once its changes have gone to the kqueue.
#[derive(Clone, Copy)]
pub enum CtlPending {
    /// The read filter of `fd` was to be taken out; the write filter comes next, and then the
    /// registrations for `event`.
    ClearingRead {
        /// The descriptor of the request.
        fd: i32,
        /// The event of the request.
        event: EpollEvent,
    },
    /// The write filter of `fd` was to be taken out; the registrations for `event` come next.
    ClearingWrite {
        /// The descriptor of the request.
        fd: i32,
        /// The event of the request.
        event: EpollEvent,
    },
    /// Filters were to be registered.
    Registering,
    /// The read filter of `fd` was to be taken out.
    DeletingRead {
        /// The descriptor of the request.
        fd: i32,
        /// Whether the write filter is to be taken out too.
        write: bool,
    },
    /// Nothing comes next, whatever the reply.
    Deleting,
}

/// What is to be done next for a control request.
pub enum CtlStep {
    /// Hand `changes` to the kqueue, with no room for events, and resume with the reply.
    Submit {
        /// The descriptor of the kqueue.
        kqueue_fd: i32,
        /// The changes.
        changes: Vec<Kevent>,
        /// What to resume with the reply.
        pending: CtlPending,
    },
    /// The request is done, with this result.
    Done(Result<(), Error>),
}

/// The view of a [`CtlStep`], with the changes as a sequence.
pub enum CtlStepView {
    /// See [`CtlStep::Submit`].
    Submit {
        /// The descriptor of the kqueue.
        kqueue_fd: i32,
        /// The changes.
        changes: Seq<Kevent>,
        /// What to resume with the reply.
        pending: CtlPending,
    },
    /// See [`CtlStep::Done`].
    Done(Result<(), Error>),
}

impl View for CtlStep {
    type V = CtlStepView;

    open spec fn view(&self) -> CtlStepView {
        match *self {
            CtlStep::Submit { kqueue_fd, changes, pending } => CtlStepView::Submit {
                kqueue_fd,
                changes: changes@,
                pending,
            },
            CtlStep::Done(result) => CtlStepView::Done(result),
        }
    }
}

/// The step that registers `fd` for `event`. Where no filter is asked for, the request is
/// done without a call.
pub open spec fn register_step(kqueue_fd: i32, fd: i32, event: EpollEvent) -> CtlStepView {
    let changes = registrations(fd, event);
    if changes.len() == 0 {
        CtlStepView::Done(Ok(()))
    } else {
        CtlStepView::Submit { kqueue_fd, changes, pending: CtlPending::Registering }
    }
}

/// The step that takes one filter of `fd` out. A filter that is not there makes the call fail,
/// and a call that fails need not look at every change in it: so each filter has a call of its
/// own.
pub open spec fn delete_step(
    kqueue_fd: i32,
    fd: i32,
    filter: i16,
    pending: CtlPending,
) -> CtlStepView {
    CtlStepView::Submit { kqueue_fd, changes: seq![deletion(fd, filter)], pending }
}

/// The first step of a control request. A delete request that names no filter makes a call
/// without a change.
pub open spec fn first_step(
    kqueue_fd: i32,
    operation: ControlOperation,
    fd: i32,
    event: EpollEvent,
) -> CtlStepView {
    let mask = request_mask(event);
    match operation {
        ControlOperation::Add => register_step(kqueue_fd, fd, event),
        ControlOperation::Modify => delete_step(
            kqueue_fd,
            fd,
            EVFILT_READ,
            CtlPending::ClearingRead { fd, event },
        ),
        ControlOperation::Delete => if names_read(mask) {
            delete_step(
                kqueue_fd,
                fd,
                EVFILT_READ,
                CtlPending::DeletingRead { fd, write: names_write(mask) },
            )
        } else {
            CtlStepView::Submit {
                kqueue_fd,
                changes: only_if(names_write(mask), deletion(fd, EVFILT_WRITE)),
                pending: CtlPending::Deleting,
            }
        },
    }
}

/// The step that follows a reply. Only a failure to register is a failure of the request:
/// taking out a filter that was never registered is expected to fail.
pub open spec fn next_step(kqueue_fd: i32, pending: CtlPending, reply: Reply) -> CtlStepView {
    match pending {
        CtlPending::ClearingRead { fd, event } => delete_step(
            kqueue_fd,
            fd,
            EVFILT_WRITE,
            CtlPending::ClearingWrite { fd, event },
        ),
        CtlPending::ClearingWrite { fd, event } => register_step(kqueue_fd, fd, event),
        CtlPending::Registering => CtlStepView::Done(
            if reply.ret < 0 {
                Err(reply.last_error)
            } else {
                Ok(())
            },
        ),
        CtlPending::DeletingRead { fd, write } => if write {
            delete_step(kqueue_fd, fd, EVFILT_WRITE, CtlPending::Deleting)
        } else {
            CtlStepView::Done(Ok(()))
        },
        CtlPending::Deleting => CtlStepView::Done(Ok(())),
    }
}

/// Returns the set that a control request goes by.
fn request_set(event: &EpollEvent) -> (set: EventSet)
    ensures
        set@ == request_mask(*event),
{
    match EventSet::from_bits(event.events) {
        Some(set) => set,
        None => EventSet::empty(),
    }
}

/// How to wait for events: the arguments of the call that does.
#[derive(Clone, Copy, Debug, PartialEq, Eq)]
pub struct WaitRequest {
    /// The descriptor of the kqueue.
    pub kqueue_fd: i32,
    /// How many events there is room for.
    pub max_events: i32,
    /// How long to wait; without it, for as long as it takes.
    pub timeout: Option<Timespec>,
}

/// The time that a timeout in milliseconds stands for. A negative one stands for no limit.
pub open spec fn time_limit(timeout: i32) -> Option<Timespec> {
    if timeout >= 0 {
        Some(
            Timespec {
                tv_sec: (timeout as int / 1000) as i64,
                tv_nsec: ((timeout as int % 1000) * 1_000_000) as i64,
            },
        )
    } else {
        None
    }
}

/// The event mask that a kqueue event stands for.
pub open spec fn reported_mask(kevent: Kevent) -> u32 {
    let eof = kevent.flags & EV_EOF != 0;
    let filter_mask = if kevent.filter == EVFILT_READ {
        if eof {
            EPOLLIN | EPOLLRDHUP
        } else {
            EPOLLIN
        }
    } else if kevent.filter == EVFILT_WRITE {
        if eof {
            EPOLLOUT | EPOLLHUP
        } else {
            EPOLLOUT
        }
    } else {
        0
    };
    if kevent.flags & EV_ERROR != 0 {
        filter_mask | EPOLLERR
    } else {
        filter_mask
    }
}

/// The epoll event that a kqueue event alone is reported as.
pub open spec fn reported(kevent: Kevent) -> EpollEvent {
    EpollEvent { events: reported_mask(kevent), u64: kevent.udata as u64 }
}

/// Returns the epoll event that a kqueue event alone is reported as.
pub fn report(kevent: &Kevent) -> (event: EpollEvent)
    ensures
        event == reported(*kevent),
        known(event.events),
{
    let mut event_bits = EventSet::empty();
    proof {
        assert(0u32 | EPOLLIN == EPOLLIN && 0u32 | EPOLLOUT == EPOLLOUT && 0u32 | EPOLLERR
            == EPOLLERR) by (bit_vector);
    }
    if kevent.filter == EVFILT_READ {
        event_bits.insert(EventSet::IN());
        if kevent.flags & EV_EOF != 0 {
            event_bits.insert(EventSet::READ_HANG_UP());
        }
    } else if kevent.filter == EVFILT_WRITE {
        event_bits.insert(EventSet::OUT());
        if kevent.flags & EV_EOF != 0 {
            event_bits.insert(EventSet::HANG_UP());
        }
    }
    if kevent.flags & EV_ERROR != 0 {
        event_bits.insert(EventSet::ERROR());
    }
    EpollEvent { events: event_bits.bits(), u64: kevent.udata as u64 }
}

/// The descriptors that kqueue events are about, each once, in the order in which they come
/// first.
pub open spec fn descriptors(kevents: Seq<Kevent>) -> Seq<usize>
    decreases kevents.len(),
{
    if kevents.len() == 0 {
        Seq::empty()
    } else {
        let before = descriptors(kevents.drop_last());
        if before.contains(kevents.last().ident) {
            before
        } else {
            before.push(kevents.last().ident)
        }
    }
}

/// The union of the masks that the events of a descriptor stand for.
pub open spec fn ready_mask(kevents: Seq<Kevent>, ident: usize) -> u32
    decreases kevents.len(),
{
    if kevents.len() == 0 {
        0
    } else {
        let before = ready_mask(kevents.drop_last(), ident);
        if kevents.last().ident == ident {
            before | reported_mask(kevents.last())
        } else {
            before
        }
    }
}

/// The user data of the first event of a descriptor, and zero where it has no event.
pub open spec fn ready_data(kevents: Seq<Kevent>, ident: usize) -> u64
    decreases kevents.len(),
{
    if kevents.len() == 0 {
        0
    } else if descriptors(kevents.drop_last()).contains(ident) {
        ready_data(kevents.drop_last(), ident)
    } else if kevents.last().ident == ident {
        kevents.last().udata as u64
    } else {
        0
    }
}

/// The one epoll event that the kqueue events of a descriptor are reported as: with the union
/// of their masks, and the user data of the first of them.
pub open spec fn ready_event(kevents: Seq<Kevent>, ident: usize) -> EpollEvent {
    EpollEvent { events: ready_mask(kevents, ident), u64: ready_data(kevents, ident) }
}

/// The descriptors of kqueue events are distinct, and there are no more of them than events.
proof fn lemma_descriptors(kevents: Seq<Kevent>)
    ensures
        descriptors(kevents).no_duplicates(),
        descriptors(kevents).len() <= kevents.len(),
    decreases kevents.len(),
{
    if kevents.len() > 0 {
        lemma_descriptors(kevents.drop_last());
    }
}

/// A descriptor without an event has the empty mask.
proof fn lemma_no_event(kevents: Seq<Kevent>, ident: usize)
    requires
        !descriptors(kevents).contains(ident),
    ensures
        ready_mask(kevents, ident) == 0,
    decreases kevents.len(),
{
    if kevents.len() > 0 {
        let before = descriptors(kevents.drop_last());
        let last = kevents.last().ident;
        assert(last != ident) by {
            assert(before.push(last)[before.len() as int] == last);
        }
        assert(!before.contains(ident)) by {
            if before.contains(ident) {
                let i = choose|i: int| 0 <= i < before.len() && before[i] == ident;
                assert(before.push(last)[i] == ident);
            }
        }
        lemma_no_event(kevents.drop_last(), ident);
    }
}

/// Returns the place of `ident` in `idents`.
fn find(idents: &Vec<usize>, ident: usize) -> (place: Option<usize>)
    ensures
        match place {
            Some(i) => i < idents@.len() && idents@[i as int] == ident,
            None => !idents@.contains(ident),
        },
{
    let mut i: usize = 0;
    while i < idents.len()
        invariant
            i <= idents@.len(),
            forall|j: int| 0 <= j < i ==> idents@[j] != ident,
        decreases idents@.len() - i,
    {
        if idents[i] == ident {
            return Some(i);
        }
        i = i + 1;
    }
    None
}

/// Wrapper over epoll functionality, backed by kqueue on macOS.
///
/// The view is the descriptor of the kqueue.
#[derive(Debug)]
pub struct Epoll {
    kqueue_fd: i32,
}

impl View for Epoll {
    type V = i32;

    closed spec fn view(&self) -> i32 {
        self.kqueue_fd
    }
}

impl Epoll {
    /// Create a new epoll-like instance backed by kqueue, from the reply to the call that
    /// creates a kqueue.
    pub fn new(reply: Reply) -> (epoll: Result<Epoll, Error>)
        ensures
            reply.ret < 0 ==> epoll == Err::<Epoll, Error>(reply.last_error),
            reply.ret >= 0 ==> epoll is Ok && epoll->Ok_0@ == reply.ret,
    {
        match reply.outcome() {
            Ok(kqueue_fd) => Ok(Epoll { kqueue_fd }),
            Err(error) => Err(error),
        }
    }

    /// Register, modify, or remove interest in events for a file descriptor.
    ///
    /// Maps epoll_ctl semantics to kqueue kevent operations: returns the first step.
    ///
    /// Note: `READ_HANG_UP` (`EPOLLRDHUP`) registration is ignored since kqueue
    /// always reports `EV_EOF` on read hang-up. `READ_HANG_UP` is included in
    /// returned events when EOF is detected on a read filter.
    pub fn ctl(&self, operation: ControlOperation, fd: i32, event: EpollEvent) -> (step: CtlStep)
        ensures
            step@ == first_step(self@, operation, fd, event),
    {
        match operation {
            ControlOperation::Add => self.register(fd, event),
            ControlOperation::Modify => {
                // Linux `epoll_ctl(EPOLL_CTL_MOD)` replaces the event mask and user data for
                // `fd`. kqueue has no equivalent single operation: `EV_ADD` on an existing
                // filter updates its flags and user data, but leaves the unrelated filter
                // registered. So both filters are taken out first, and the registrations that
                // follow are the only ones that remain for `fd`.
                self.delete_filter(fd, EVFILT_READ, CtlPending::ClearingRead { fd, event })
            },
            ControlOperation::Delete => self.remove(fd, event),
        }
    }

    /// Takes the reply to the changes of a control request and returns the next step.
    pub fn resume_ctl(&self, pending: CtlPending, reply: Reply) -> (step: CtlStep)
        ensures
            step@ == next_step(self@, pending, reply),
    {
        match pending {
            CtlPending::ClearingRead { fd, event } => self.delete_filter(
                fd,
                EVFILT_WRITE,
                CtlPending::ClearingWrite { fd, event },
            ),
            CtlPending::ClearingWrite { fd, event } => self.register(fd, event),
            CtlPending::Registering => CtlStep::Done(
                match reply.outcome() {
                    Ok(_) => Ok(()),
                    Err(error) => Err(error),
                },
            ),
            CtlPending::DeletingRead { fd, write } => {
                if write {
                    self.delete_filter(fd, EVFILT_WRITE, CtlPending::Deleting)
                } else {
                    CtlStep::Done(Ok(()))
                }
            },
            CtlPending::Deleting => CtlStep::Done(Ok(())),
        }
    }

    /// Returns the step that takes one filter of `fd` out.
    fn delete_filter(&self, fd: i32, filter: i16, pending: CtlPending) -> (step: CtlStep)
        ensures
            step@ == delete_step(self@, fd, filter, pending),
    {
        let mut changes: Vec<Kevent> = Vec::new();
        changes.push(
            Kevent { ident: fd as usize, filter, flags: EV_DELETE, fflags: 0, data: 0, udata: 0 },
        );
        assert(changes@ =~= seq![deletion(fd, filter)]);
        CtlStep::Submit { kqueue_fd: self.kqueue_fd, changes, pending }
    }

    /// Returns the step that registers `fd` for `event`.
    fn register(&self, fd: i32, event: EpollEvent) -> (step: CtlStep)
        ensures
            step@ == register_step(self@, fd, event),
    {
        let eset = request_set(&event);
        let mut flags: u16 = EV_ADD;
        if eset.contains(EventSet::EDGE_TRIGGERED()) {
            flags = flags | EV_CLEAR;
        }
        if eset.contains(EventSet::ONE_SHOT()) {
            flags = flags | EV_ONESHOT;
        }
        let ident: usize = fd as usize;
        let udata: usize = event.u64 as usize;
        let mut changes: Vec<Kevent> = Vec::new();
        if eset.contains(EventSet::IN()) {
            changes.push(Kevent { ident, filter: EVFILT_READ, flags, fflags: 0, data: 0, udata });
        }
        if eset.contains(EventSet::OUT()) {
            changes.push(Kevent { ident, filter: EVFILT_WRITE, flags, fflags: 0, data: 0, udata });
        }
        assert(changes@ =~= registrations(fd, event));
        if changes.is_empty() {
            CtlStep::Done(Ok(()))
        } else {
            CtlStep::Submit {
                kqueue_fd: self.kqueue_fd,
                changes,
                pending: CtlPending::Registering,
            }
        }
    }

    /// Returns the step that a delete request for `fd` starts with.
    fn remove(&self, fd: i32, event: EpollEvent) -> (step: CtlStep)
        ensures
            step@ == first_step(self@, ControlOperation::Delete, fd, event),
    {
        let eset = request_set(&event);
        // If no specific events, remove both read and write filters.
        let read = eset.is_empty() || eset.contains(EventSet::IN());
        let write = eset.is_empty() || eset.contains(EventSet::OUT());
        if read {
            self.delete_filter(fd, EVFILT_READ, CtlPending::DeletingRead { fd, write })
        } else if write {
            self.delete_filter(fd, EVFILT_WRITE, CtlPending::Deleting)
        } else {
            CtlStep::Submit {
                kqueue_fd: self.kqueue_fd,
                changes: Vec::new(),
                pending: CtlPending::Deleting,
            }
        }
    }

    /// Wait for events, similar to `epoll_wait`: returns how to make the call that waits.
    ///
    /// # Arguments
    ///
    /// * `timeout` - timeout in milliseconds. -1 for infinite wait.
    /// * `max_events` - how many events there is room for.
    pub fn wait(&self, timeout: i32, max_events: usize) -> (request: WaitRequest)
        ensures
            request.kqueue_fd == self@,
            request.max_events == max_events as i32,
            request.timeout == time_limit(timeout),
    {
        let limit = if timeout >= 0 {
            Some(
                Timespec {
                    tv_sec: (timeout / 1000) as i64,
                    tv_nsec: ((timeout % 1000) as i64) * 1_000_000,
                },
            )
        } else {
            None
        };
        WaitRequest { kqueue_fd: self.kqueue_fd, max_events: max_events as i32, timeout: limit }
    }

    /// Takes the reply to the call that waits, with the kqueue events that it brought, and
    /// stores one event for each ready file descriptor in `events`, in the order in which the
    /// descriptors come first. Where both filters of a descriptor are ready, its event has the
    /// flags of both; where they were registered with different user data, it has that of the
    /// filter that comes first.
    ///
    /// Returns the number of ready file descriptors. A kqueue never brings more events than
    /// there is room for.
    pub fn complete_wait(
        &self,
        reply: Reply,
        kevents: &[Kevent],
        events: &mut [EpollEvent],
    ) -> (count: Result<usize, Error>)
        requires
            reply.ret <= kevents@.len(),
            reply.ret <= old(events)@.len(),
        ensures
            reply.ret < 0 ==> count == Err::<usize, Error>(reply.last_error) && final(events)@
                == old(events)@,
            reply.ret >= 0 ==> {
                let brought = kevents@.take(reply.ret as int);
                let ready = descriptors(brought);
                &&& count is Ok
                &&& count->Ok_0 == ready.len()
                &&& count->Ok_0 <= reply.ret
                &&& final(events)@ == Seq::new(
                    old(events)@.len(),
                    |i: int|
                        if i < ready.len() {
                            ready_event(brought, ready[i])
                        } else {
                            old(events)@[i]
                        },
                )
            },
    {
        match reply.outcome() {
            Err(error) => Err(error),
            Ok(ret) => {
                let nevents: usize = ret as usize;
                let mut idents: Vec<usize> = Vec::new();
                let mut i: usize = 0;
                while i < nevents
                    invariant
                        i <= nevents,
                        nevents == reply.ret,
                        nevents <= kevents@.len(),
                        nevents <= events@.len(),
                        idents@ == descriptors(kevents@.take(i as int)),
                        idents@.len() <= i,
                        events@ == Seq::new(
                            old(events)@.len(),
                            |j: int|
                                if j < idents@.len() {
                                    ready_event(kevents@.take(i as int), idents@[j])
                                } else {
                                    old(events)@[j]
                                },
                        ),
                    decreases nevents - i,
                {
                    let kevent: Kevent = kevents[i];
                    let event = report(&kevent);
                    let ghost brought = kevents@.take(i as int);
                    let ghost more = kevents@.take(i + 1);
                    proof {
                        assert(more.drop_last() =~= brought);
                        lemma_descriptors(brought);
                        if !idents@.contains(kevent.ident) {
                            lemma_no_event(brought, kevent.ident);
                        }
                        let mask = reported_mask(kevent);
                        assert(0u32 | mask == mask) by (bit_vector);
                    }
                    match find(&idents, kevent.ident) {
                        Some(place) => {
                            let joined = EpollEvent {
                                events: events[place].events | event.events,
                                u64: events[place].u64,
                            };
                            events[place] = joined;
                        },
                        None => {
                            let place: usize = idents.len();
                            events[place] = event;
                            idents.push(kevent.ident);
                        },
                    }
                    proof {
                        assert forall|j: int| 0 <= j < idents@.len() implies events@[j]
                            == #[trigger] ready_event(more, idents@[j]) by {
                            if j < descriptors(brought).len() {
                                assert(descriptors(brought).contains(idents@[j])) by {
                                    assert(descriptors(brought)[j] == idents@[j]);
                                }
                            }
                        }
                    }
                    i = i + 1;
                }
                Ok(idents.len())
            },
        }
    }

    /// Returns the descriptor of the kqueue.
    pub fn as_raw_fd(&self) -> (fd: i32)
        ensures
            fd == self@,
    {
        self.kqueue_fd
    }
}

} // verus!
