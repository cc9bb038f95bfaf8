//! Single steps: what is asked for, and what each reply means.

use macos_epoll::epoll::{
    report, ControlOperation, CtlPending, CtlStep, Epoll, EpollEvent, EventSet,
};
use macos_epoll::error::{Error, ErrorKind, Reply};
use macos_epoll::eventfd::{
    resume_flags, set_flags, CloneStep, End, EventFd, FlagCall, FlagRequest, FlagStep, NewStep,
    ReadRequest, Released, EFD_CLOEXEC, EFD_NONBLOCK, EFD_SEMAPHORE,
};
use macos_epoll::host::{ByteOrder, Host};
use macos_epoll::kqueue::{
    Kevent, Timespec, EVFILT_READ, EVFILT_WRITE, EV_ADD, EV_CLEAR, EV_DELETE, EV_EOF, EV_ERROR,
    EV_ONESHOT,
};

const FAILURE: Error = Error { kind: ErrorKind::Other, code: Some(9) };
const WOULD_BLOCK: Error = Error { kind: ErrorKind::WouldBlock, code: Some(35) };

fn success(ret: i32) -> Reply {
    Reply { ret, last_error: FAILURE }
}

fn failure() -> Reply {
    Reply { ret: -1, last_error: FAILURE }
}

fn epoll() -> Epoll {
    Epoll::new(success(5)).unwrap()
}

fn host() -> Host {
    Host { nonblock: 0x4, cloexec: 0x1, order: ByteOrder::Little }
}

fn eventfd(order: ByteOrder) -> EventFd {
    match EventFd::new_on(Host { order, ..host() }, 0, success(0), 3, 4) {
        NewStep::Done(Ok(eventfd)) => eventfd,
        _ => panic!("no call is needed"),
    }
}

/// The changes of a step; the pending part is given back with them.
fn submitted(step: CtlStep) -> (Vec<Kevent>, CtlPending) {
    match step {
        CtlStep::Submit { kqueue_fd, changes, pending } => {
            assert_eq!(kqueue_fd, 5);
            (changes, pending)
        }
        CtlStep::Done(_) => panic!("there is something to submit"),
    }
}

fn done(step: CtlStep) -> Result<(), Error> {
    match step {
        CtlStep::Submit { .. } => panic!("there is nothing to submit"),
        CtlStep::Done(result) => result,
    }
}

fn change(filter: i16, flags: u16, udata: usize) -> Kevent {
    Kevent { ident: 8, filter, flags, fflags: 0, data: 0, udata }
}

fn deletion(filter: i16) -> Vec<Kevent> {
    vec![change(filter, EV_DELETE, 0)]
}

#[test]
fn operations_have_the_numbers_of_the_linux_api() {
    assert_eq!(ControlOperation::Add.code(), 1);
    assert_eq!(ControlOperation::Modify.code(), 3);
    assert_eq!(ControlOperation::Delete.code(), 2);
}

#[test]
fn epoll_is_made_of_the_descriptor_of_a_kqueue() {
    assert_eq!(epoll().as_raw_fd(), 5);
    assert_eq!(Epoll::new(success(0)).unwrap().as_raw_fd(), 0);
    assert_eq!(Epoll::new(failure()).unwrap_err(), FAILURE);
}

#[test]
fn add_registers_the_filters_of_the_mask() {
    let both = EventSet::IN() | EventSet::OUT();
    for (set, expected) in [
        (EventSet::IN(), vec![change(EVFILT_READ, EV_ADD, 7)]),
        (EventSet::IN() | EventSet::READ_HANG_UP(), vec![change(EVFILT_READ, EV_ADD, 7)]),
        (EventSet::OUT(), vec![change(EVFILT_WRITE, EV_ADD, 7)]),
        (
            both | EventSet::EDGE_TRIGGERED(),
            vec![
                change(EVFILT_READ, EV_ADD | EV_CLEAR, 7),
                change(EVFILT_WRITE, EV_ADD | EV_CLEAR, 7),
            ],
        ),
        (
            both | EventSet::ONE_SHOT(),
            vec![
                change(EVFILT_READ, EV_ADD | EV_ONESHOT, 7),
                change(EVFILT_WRITE, EV_ADD | EV_ONESHOT, 7),
            ],
        ),
        (
            EventSet::IN() | EventSet::EDGE_TRIGGERED() | EventSet::ONE_SHOT(),
            vec![change(EVFILT_READ, 0x31, 7)],
        ),
    ] {
        let (changes, pending) =
            submitted(epoll().ctl(ControlOperation::Add, 8, EpollEvent::new(set, 7)));
        assert_eq!(changes, expected);
        assert_eq!(done(epoll().resume_ctl(pending, success(0))), Ok(()));
        assert_eq!(done(epoll().resume_ctl(pending, failure())), Err(FAILURE));
    }
}

#[test]
fn add_without_a_filter_makes_no_call() {
    for events in [0, 0x8, 0x2000, 0x8000_0000, 0x20, 0x21] {
        let event = EpollEvent { events, u64: 7 };
        assert_eq!(done(epoll().ctl(ControlOperation::Add, 8, event)), Ok(()));
    }
}

#[test]
fn modify_clears_first_whatever_the_replies() {
    let event = EpollEvent::new(EventSet::OUT(), 7);
    for (first, second) in [(success(0), failure()), (failure(), success(0))] {
        let (changes, pending) = submitted(epoll().ctl(ControlOperation::Modify, 8, event));
        assert_eq!(changes, deletion(EVFILT_READ));
        let (changes, pending) = submitted(epoll().resume_ctl(pending, first));
        assert_eq!(changes, deletion(EVFILT_WRITE));
        let (changes, pending) = submitted(epoll().resume_ctl(pending, second));
        assert_eq!(changes, vec![change(EVFILT_WRITE, EV_ADD, 7)]);
        assert_eq!(done(epoll().resume_ctl(pending, success(0))), Ok(()));
        assert_eq!(done(epoll().resume_ctl(pending, failure())), Err(FAILURE));
    }
    let (_, pending) = submitted(epoll().ctl(ControlOperation::Modify, 8, EpollEvent::default()));
    let (_, pending) = submitted(epoll().resume_ctl(pending, failure()));
    assert_eq!(done(epoll().resume_ctl(pending, failure())), Ok(()));
}

#[test]
fn delete_takes_out_the_filters_of_the_mask() {
    for (events, expected) in [
        (0, vec![deletion(EVFILT_READ), deletion(EVFILT_WRITE)]),
        (0x21, vec![deletion(EVFILT_READ), deletion(EVFILT_WRITE)]),
        (0x1, vec![deletion(EVFILT_READ)]),
        (0x4, vec![deletion(EVFILT_WRITE)]),
        (0x5, vec![deletion(EVFILT_READ), deletion(EVFILT_WRITE)]),
        (0x2000, vec![vec![]]),
        (0x8, vec![vec![]]),
    ] {
        for reply in [success(0), failure()] {
            let event = EpollEvent { events, u64: 7 };
            let mut calls = Vec::new();
            let mut step = epoll().ctl(ControlOperation::Delete, 8, event);
            while let CtlStep::Submit { changes, pending, .. } = step {
                calls.push(changes);
                step = epoll().resume_ctl(pending, reply);
            }
            assert_eq!(calls, expected);
            assert_eq!(done(step), Ok(()));
        }
    }
}

#[test]
fn a_negative_descriptor_is_kept_as_it_is() {
    let event = EpollEvent::new(EventSet::IN(), u64::MAX);
    let (changes, _) = submitted(epoll().ctl(ControlOperation::Add, -1, event));
    assert_eq!(changes[0].ident, usize::MAX);
    assert_eq!(changes[0].udata, usize::MAX);
}

#[test]
fn timeouts_are_split_into_seconds_and_nanoseconds() {
    for (timeout, expected) in [
        (0, Some(Timespec { tv_sec: 0, tv_nsec: 0 })),
        (250, Some(Timespec { tv_sec: 0, tv_nsec: 250_000_000 })),
        (1000, Some(Timespec { tv_sec: 1, tv_nsec: 0 })),
        (61_999, Some(Timespec { tv_sec: 61, tv_nsec: 999_000_000 })),
        (i32::MAX, Some(Timespec { tv_sec: 2_147_483, tv_nsec: 647_000_000 })),
        (-1, None),
        (i32::MIN, None),
    ] {
        let request = epoll().wait(timeout, 16);
        assert_eq!(request.kqueue_fd, 5);
        assert_eq!(request.max_events, 16);
        assert_eq!(request.timeout, expected);
    }
}

#[test]
fn events_are_reported_by_filter_and_flags() {
    for (filter, flags, expected) in [
        (EVFILT_READ, 0, 0x1),
        (EVFILT_READ, EV_EOF, 0x2001),
        (EVFILT_READ, EV_ERROR, 0x9),
        (EVFILT_READ, EV_EOF | EV_ERROR, 0x2009),
        (EVFILT_WRITE, 0, 0x4),
        (EVFILT_WRITE, EV_EOF, 0x14),
        (EVFILT_WRITE, EV_ERROR, 0xc),
        (EVFILT_WRITE, EV_EOF | EV_ERROR, 0x1c),
        (-3, EV_EOF, 0),
        (-3, EV_ERROR, 0x8),
        (EVFILT_READ, EV_ADD | EV_CLEAR | EV_ONESHOT, 0x1),
    ] {
        let event = report(&change(filter, flags, 99));
        assert_eq!(event.events(), expected);
        assert_eq!(event.data(), 99);
        assert_eq!(event.event_set().bits(), expected);
    }
}

/// What is stored in a buffer of three events, and the count, for these kqueue events.
fn stored(kevents: &[(usize, i16, u16, usize)]) -> (Vec<(u32, u64)>, usize) {
    let kevents: Vec<Kevent> = kevents
        .iter()
        .map(|&(ident, filter, flags, udata)| Kevent { ident, ..change(filter, flags, udata) })
        .collect();
    let mut events = vec![EpollEvent { events: 0, u64: 50 }; 3];
    let reply = success(kevents.len() as i32);
    let count = epoll().complete_wait(reply, &kevents, &mut events).unwrap();
    (events.iter().map(|e| (e.events(), e.data())).collect(), count)
}

#[test]
fn each_ready_descriptor_is_stored_once() {
    let (r, w) = (EVFILT_READ, EVFILT_WRITE);
    assert_eq!(stored(&[]), (vec![(0, 50), (0, 50), (0, 50)], 0));
    assert_eq!(
        stored(&[(4, r, 0, 1), (5, w, 0, 2)]),
        (vec![(0x1, 1), (0x4, 2), (0, 50)], 2)
    );
    // One descriptor, ready for reading and for writing.
    assert_eq!(stored(&[(4, r, 0, 7), (4, w, 0, 7)]), (vec![(0x5, 7), (0, 50), (0, 50)], 1));
    assert_eq!(
        stored(&[(4, r, EV_EOF, 1), (5, r, 0, 2), (4, w, EV_ERROR, 1)]),
        (vec![(0x200d, 1), (0x1, 2), (0, 50)], 2)
    );
    // With different user data, that of the first event counts.
    assert_eq!(stored(&[(4, w, 0, 2), (4, r, 0, 1)]), (vec![(0x5, 2), (0, 50), (0, 50)], 1));
}

#[test]
fn only_as_many_events_as_were_brought_are_looked_at() {
    let kevents = [change(EVFILT_READ, 0, 1), change(EVFILT_WRITE, 0, 1)];
    let mut events = vec![EpollEvent { events: 0, u64: 50 }; 2];
    assert_eq!(epoll().complete_wait(success(1), &kevents, &mut events), Ok(1));
    assert_eq!((events[0].events(), events[0].data()), (0x1, 1));
    assert_eq!((events[1].events(), events[1].data()), (0, 50));
    assert_eq!(epoll().complete_wait(failure(), &kevents, &mut events), Err(FAILURE));
    assert_eq!((events[0].events(), events[0].data()), (0x1, 1));
    assert_eq!(epoll().complete_wait(success(0), &[], &mut []), Ok(0));
}

#[test]
fn flags_are_got_and_then_set() {
    let flags = EFD_NONBLOCK | EFD_CLOEXEC;
    let call = |call| FlagStep::Call(FlagRequest { fd: 3, call });
    let resume = |call, reply| resume_flags(host(), flags, FlagRequest { fd: 3, call }, reply);
    assert_eq!(set_flags(3, flags), call(FlagCall::GetStatus));
    assert_eq!(resume(FlagCall::GetStatus, success(0x2)), call(FlagCall::SetStatus(0x6)));
    assert_eq!(resume(FlagCall::SetStatus(0x6), success(0)), call(FlagCall::GetDescriptor));
    assert_eq!(resume(FlagCall::GetDescriptor, success(0x8)), call(FlagCall::SetDescriptor(0x9)));
    assert_eq!(resume(FlagCall::SetDescriptor(0x9), success(0)), FlagStep::Done(Ok(())));
    for c in [
        FlagCall::GetStatus,
        FlagCall::SetStatus(6),
        FlagCall::GetDescriptor,
        FlagCall::SetDescriptor(9),
    ] {
        assert_eq!(resume(c, failure()), FlagStep::Done(Err(FAILURE)));
    }
}

#[test]
fn flags_that_are_not_asked_for_are_left_alone() {
    assert_eq!(set_flags(3, 0), FlagStep::Done(Ok(())));
    assert_eq!(set_flags(3, EFD_SEMAPHORE), FlagStep::Done(Ok(())));
    assert_eq!(
        set_flags(3, EFD_CLOEXEC),
        FlagStep::Call(FlagRequest { fd: 3, call: FlagCall::GetDescriptor })
    );
    let request = FlagRequest { fd: 3, call: FlagCall::SetStatus(4) };
    assert_eq!(
        resume_flags(host(), EFD_NONBLOCK, request, success(0)),
        FlagStep::Done(Ok(()))
    );
}

#[test]
fn the_read_end_gets_its_flags_first() {
    let step = EventFd::new_on(host(), EFD_CLOEXEC, success(0), 3, 4);
    let (pipe, end, request) = match step {
        NewStep::Call { pipe, end, request } => (pipe, end, request),
        NewStep::Done(_) => panic!("a call is needed"),
    };
    assert_eq!((end, request.fd), (End::Read, 3));
    let last = FlagRequest { fd: 3, call: FlagCall::SetDescriptor(1) };
    match EventFd::resume_new(pipe, End::Read, last, success(0)) {
        NewStep::Call { end, request, .. } => {
            assert_eq!((end, request.fd), (End::Write, 4));
            assert_eq!(request.call, FlagCall::GetDescriptor);
        }
        NewStep::Done(_) => panic!("a call is needed"),
    }
    let last = FlagRequest { fd: 4, call: FlagCall::SetDescriptor(1) };
    match EventFd::resume_new(pipe, End::Write, last, success(0)) {
        NewStep::Done(Ok(made)) => {
            assert_eq!(made.as_raw_fd(), 3);
            assert_eq!(made.write(0).fd, 4);
        }
        _ => panic!("the eventfd is made"),
    }
    match EventFd::resume_new(pipe, end, request, failure()) {
        NewStep::Done(Err(error)) => assert_eq!(error, FAILURE),
        _ => panic!("the request has failed"),
    }
    match EventFd::new(EFD_CLOEXEC, failure(), -1, -1) {
        NewStep::Done(Err(error)) => assert_eq!(error, FAILURE),
        _ => panic!("the request has failed"),
    }
}

#[test]
fn numbers_are_written_in_the_given_order() {
    let v = 0x0102_0304_0506_0708;
    let little = eventfd(ByteOrder::Little);
    assert_eq!(little.write(v).bytes, v.to_le_bytes());
    assert_eq!(little.complete_read(Ok(v.to_le_bytes())), Ok(v));
    let big = eventfd(ByteOrder::Big);
    assert_eq!(big.write(v).bytes, v.to_be_bytes());
    assert_eq!(big.complete_read(Ok(v.to_be_bytes())), Ok(v));
    assert_eq!(big.read(), ReadRequest { fd: 3, count: 8 });
}

#[test]
fn the_machine_decides_flags_and_order() {
    let host = Host::current();
    assert_eq!(host.nonblock, libc::O_NONBLOCK);
    assert_eq!(host.cloexec, libc::FD_CLOEXEC);
    let v: u64 = 0x0102_0304_0506_0708;
    assert_eq!(host.order.to_bytes(v), v.to_ne_bytes());
    assert_eq!(host.order.to_number(v.to_ne_bytes()), v);
    let made = EventFd::from_fd(6, 7);
    assert_eq!(made.write(v).bytes, v.to_ne_bytes());
    assert_eq!((made.as_raw_fd(), made.write(v).fd), (6, 7));
}

#[test]
fn the_bytes_of_one_tell_the_order() {
    assert_eq!(ByteOrder::of_one([1, 0, 0, 0, 0, 0, 0, 0]), ByteOrder::Little);
    assert_eq!(ByteOrder::of_one([0, 0, 0, 0, 0, 0, 0, 1]), ByteOrder::Big);
    assert_eq!(ByteOrder::of_one(1u64.to_ne_bytes()), Host::current().order);
}

#[test]
fn only_a_full_pipe_is_ignored() {
    let evt = eventfd(ByteOrder::Little);
    let write_zero = Error { kind: ErrorKind::WriteZero, code: None };
    assert_eq!(evt.complete_write(Ok(())), Ok(()));
    assert_eq!(evt.complete_write(Err(WOULD_BLOCK)), Ok(()));
    assert_eq!(evt.complete_write(Err(FAILURE)), Err(FAILURE));
    assert_eq!(evt.complete_write(Err(write_zero)), Err(write_zero));
}

#[test]
fn every_failed_read_is_reported() {
    let evt = eventfd(ByteOrder::Little);
    let eof = Error { kind: ErrorKind::UnexpectedEof, code: None };
    assert_eq!(evt.complete_read(Err(WOULD_BLOCK)), Err(WOULD_BLOCK));
    assert_eq!(evt.complete_read(Err(eof)), Err(eof));
}

#[test]
fn a_clone_has_the_new_descriptors() {
    let evt = eventfd(ByteOrder::Big);
    match evt.try_clone() {
        CloneStep::Duplicate { fd, read_fd } => assert_eq!((fd, read_fd), (3, None)),
        _ => panic!("the read end is to be duplicated"),
    }
    match evt.resume_clone(None, Ok(10)) {
        CloneStep::Duplicate { fd, read_fd } => assert_eq!((fd, read_fd), (4, Some(10))),
        _ => panic!("the write end is to be duplicated"),
    }
    match evt.resume_clone(Some(10), Ok(11)) {
        CloneStep::Done(Ok(copy)) => {
            assert_eq!(copy.as_raw_fd(), 10);
            assert_eq!(copy.write(1), macos_epoll::eventfd::WriteRequest {
                fd: 11,
                bytes: [0, 0, 0, 0, 0, 0, 0, 1],
            });
            assert_eq!(copy.into_raw_fd(), Released { fd: 10, close: 11 });
        }
        _ => panic!("the copy is made"),
    }
    match evt.resume_clone(None, Err(FAILURE)) {
        CloneStep::Done(Err(error)) => assert_eq!(error, FAILURE),
        _ => panic!("the request has failed"),
    }
    match evt.resume_clone(Some(10), Err(FAILURE)) {
        CloneStep::Abandon { fd, error } => assert_eq!((fd, error), (10, FAILURE)),
        _ => panic!("the new read end is to be closed"),
    }
}
