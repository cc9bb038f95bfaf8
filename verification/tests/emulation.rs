//! Whole exchanges, with a small kernel that answers the calls.

use std::cell::RefCell;
use std::collections::{BTreeMap, VecDeque};
use std::rc::Rc;

use macos_epoll::epoll::{ControlOperation, CtlStep, Epoll, EpollEvent, EventSet};
use macos_epoll::error::{Error, ErrorKind, Reply};
use macos_epoll::eventfd::{
    CloneStep, EventFd, FlagCall, FlagRequest, NewStep, EFD_CLOEXEC, EFD_NONBLOCK,
};
use macos_epoll::host::Host;
use macos_epoll::kqueue::{
    Kevent, EVFILT_READ, EVFILT_WRITE, EV_CLEAR, EV_DELETE, EV_ONESHOT,
};

const EBADF: Error = Error { kind: ErrorKind::Other, code: Some(9) };
const ENOENT: Error = Error { kind: ErrorKind::Other, code: Some(2) };
const EMFILE: Error = Error { kind: ErrorKind::Other, code: Some(24) };
const EAGAIN: Error = Error { kind: ErrorKind::WouldBlock, code: Some(35) };

/// An open end of a pipe.
#[derive(Clone)]
struct Open {
    pipe: usize,
    status: i32,
    descriptor: i32,
}

/// The filters of a kqueue, in the order in which they were registered.
type Filters = Vec<((usize, i16), (u16, usize))>;

/// Pipes, descriptors and kqueues.
struct Kernel {
    next_fd: i32,
    descriptors_left: i32,
    pipe_capacity: usize,
    pipes: Vec<VecDeque<u8>>,
    open: BTreeMap<i32, Open>,
    kqueues: BTreeMap<i32, Filters>,
    /// Filters that were brought, forgot their state, and saw no activity since.
    spent: Vec<(usize, i16)>,
}

type Shared = Rc<RefCell<Kernel>>;

fn kernel() -> Shared {
    Rc::new(RefCell::new(Kernel {
        next_fd: 3,
        descriptors_left: 100,
        pipe_capacity: 65536,
        pipes: Vec::new(),
        open: BTreeMap::new(),
        kqueues: BTreeMap::new(),
        spent: Vec::new(),
    }))
}

fn reply(outcome: Result<i32, Error>) -> Reply {
    match outcome {
        Ok(ret) => Reply { ret, last_error: EBADF },
        Err(last_error) => Reply { ret: -1, last_error },
    }
}

impl Kernel {
    fn new_fd(&mut self) -> Result<i32, Error> {
        if self.descriptors_left == 0 {
            return Err(EMFILE);
        }
        self.descriptors_left -= 1;
        self.next_fd += 1;
        Ok(self.next_fd - 1)
    }

    fn kqueue(&mut self) -> Result<i32, Error> {
        let fd = self.new_fd()?;
        self.kqueues.insert(fd, Vec::new());
        Ok(fd)
    }

    fn pipe(&mut self) -> Result<(i32, i32), Error> {
        let pipe = self.pipes.len();
        self.pipes.push(VecDeque::new());
        let end = Open { pipe, status: 0, descriptor: 0 };
        let read_fd = self.new_fd()?;
        self.open.insert(read_fd, end.clone());
        let write_fd = self.new_fd()?;
        self.open.insert(write_fd, end);
        Ok((read_fd, write_fd))
    }

    fn fcntl(&mut self, request: FlagRequest) -> Result<i32, Error> {
        let end = self.open.get_mut(&request.fd).ok_or(EBADF)?;
        match request.call {
            FlagCall::GetStatus => return Ok(end.status),
            FlagCall::GetDescriptor => return Ok(end.descriptor),
            FlagCall::SetStatus(flags) => end.status = flags,
            FlagCall::SetDescriptor(flags) => end.descriptor = flags,
        }
        Ok(0)
    }

    fn dup(&mut self, fd: i32) -> Result<i32, Error> {
        let mut end = self.open.get(&fd).ok_or(EBADF)?.clone();
        end.descriptor = 0;
        let new = self.new_fd()?;
        self.open.insert(new, end);
        Ok(new)
    }

    fn close(&mut self, fd: i32) {
        assert!(self.open.remove(&fd).is_some());
    }

    fn write(&mut self, fd: i32, bytes: &[u8]) -> Result<(), Error> {
        let end = self.open.get(&fd).ok_or(EBADF)?;
        let pipe = &mut self.pipes[end.pipe];
        if pipe.len() + bytes.len() > self.pipe_capacity {
            return Err(EAGAIN);
        }
        pipe.extend(bytes);
        self.spent.clear();
        Ok(())
    }

    fn read(&mut self, fd: i32, count: usize) -> Result<[u8; 8], Error> {
        let end = self.open.get(&fd).ok_or(EBADF)?;
        let pipe = &mut self.pipes[end.pipe];
        assert_eq!(count, 8);
        if pipe.len() < count {
            return Err(EAGAIN);
        }
        let mut bytes = [0; 8];
        for byte in bytes.iter_mut() {
            *byte = pipe.pop_front().unwrap();
        }
        Ok(bytes)
    }

    /// A change that fails ends the call.
    fn kevent_change(&mut self, kqueue_fd: i32, changes: &[Kevent]) -> Result<i32, Error> {
        for change in changes {
            let key = (change.ident, change.filter);
            if !self.open.contains_key(&(change.ident as i32)) {
                return Err(EBADF);
            }
            let filters = self.kqueues.get_mut(&kqueue_fd).ok_or(EBADF)?;
            let place = filters.iter().position(|(k, _)| *k == key);
            let value = (change.flags, change.udata);
            match (change.flags & EV_DELETE != 0, place) {
                (true, None) => return Err(ENOENT),
                (true, Some(i)) => {
                    filters.remove(i);
                }
                (false, None) => filters.push((key, value)),
                (false, Some(i)) => filters[i].1 = value,
            }
            self.spent.retain(|k| *k != key);
        }
        Ok(0)
    }

    fn kevent_wait(&mut self, kqueue_fd: i32, max_events: i32) -> Result<Vec<Kevent>, Error> {
        let filters = self.kqueues.get(&kqueue_fd).ok_or(EBADF)?.clone();
        let mut events = Vec::new();
        for ((ident, filter), (flags, udata)) in filters {
            let queued = self.pipes[self.open[&(ident as i32)].pipe].len();
            let spent = self.spent.contains(&(ident, filter));
            let ready = !spent && (filter == EVFILT_WRITE || queued > 0);
            if ready && (events.len() as i32) < max_events {
                events.push(Kevent { ident, filter, flags: 0, fflags: 0, data: queued as isize, udata });
                if flags & EV_ONESHOT != 0 {
                    let filters = self.kqueues.get_mut(&kqueue_fd).unwrap();
                    filters.retain(|(k, _)| *k != (ident, filter));
                } else if flags & EV_CLEAR != 0 {
                    self.spent.push((ident, filter));
                }
            }
        }
        Ok(events)
    }
}

/// An epoll instance whose calls the kernel answers.
struct RunningEpoll {
    kernel: Shared,
    epoll: Epoll,
}

impl RunningEpoll {
    fn new(kernel: &Shared) -> Result<RunningEpoll, Error> {
        let outcome = kernel.borrow_mut().kqueue();
        let epoll = Epoll::new(reply(outcome))?;
        Ok(RunningEpoll { kernel: kernel.clone(), epoll })
    }

    fn ctl(&self, operation: ControlOperation, fd: i32, event: EpollEvent) -> Result<(), Error> {
        let mut step = self.epoll.ctl(operation, fd, event);
        loop {
            match step {
                CtlStep::Submit { kqueue_fd, changes, pending } => {
                    assert_eq!(kqueue_fd, self.epoll.as_raw_fd());
                    let outcome = self.kernel.borrow_mut().kevent_change(kqueue_fd, &changes);
                    step = self.epoll.resume_ctl(pending, reply(outcome));
                }
                CtlStep::Done(result) => return result,
            }
        }
    }

    fn wait(&self, timeout: i32, events: &mut [EpollEvent]) -> Result<usize, Error> {
        let request = self.epoll.wait(timeout, events.len());
        let outcome = self.kernel.borrow_mut().kevent_wait(request.kqueue_fd, request.max_events);
        match outcome {
            Ok(kevents) => {
                let reply = reply(Ok(kevents.len() as i32));
                self.epoll.complete_wait(reply, &kevents, events)
            }
            Err(error) => self.epoll.complete_wait(reply(Err(error)), &[], events),
        }
    }

    fn filters(&self) -> Filters {
        self.kernel.borrow().kqueues[&self.epoll.as_raw_fd()].clone()
    }
}

/// An eventfd whose calls the kernel answers.
struct RunningEventFd {
    kernel: Shared,
    eventfd: EventFd,
}

impl RunningEventFd {
    fn new(kernel: &Shared, flag: i32) -> Result<RunningEventFd, Error> {
        let outcome = kernel.borrow_mut().pipe();
        let mut step = match outcome {
            Ok((read_fd, write_fd)) => EventFd::new(flag, reply(Ok(0)), read_fd, write_fd),
            Err(error) => EventFd::new(flag, reply(Err(error)), -1, -1),
        };
        loop {
            match step {
                NewStep::Call { pipe, end, request } => {
                    let outcome = kernel.borrow_mut().fcntl(request);
                    step = EventFd::resume_new(pipe, end, request, reply(outcome));
                }
                NewStep::Done(result) => {
                    return Ok(RunningEventFd { kernel: kernel.clone(), eventfd: result? })
                }
            }
        }
    }

    fn write(&self, v: u64) -> Result<(), Error> {
        let request = self.eventfd.write(v);
        let outcome = self.kernel.borrow_mut().write(request.fd, &request.bytes);
        self.eventfd.complete_write(outcome)
    }

    fn read(&self) -> Result<u64, Error> {
        let request = self.eventfd.read();
        let outcome = self.kernel.borrow_mut().read(request.fd, request.count);
        self.eventfd.complete_read(outcome)
    }

    fn try_clone(&self) -> Result<RunningEventFd, Error> {
        let mut step = self.eventfd.try_clone();
        loop {
            match step {
                CloneStep::Duplicate { fd, read_fd } => {
                    let outcome = self.kernel.borrow_mut().dup(fd);
                    step = self.eventfd.resume_clone(read_fd, outcome);
                }
                CloneStep::Abandon { fd, error } => {
                    self.kernel.borrow_mut().close(fd);
                    return Err(error);
                }
                CloneStep::Done(result) => {
                    return Ok(RunningEventFd { kernel: self.kernel.clone(), eventfd: result? })
                }
            }
        }
    }

    fn as_raw_fd(&self) -> i32 {
        self.eventfd.as_raw_fd()
    }

    fn into_raw_fd(self) -> i32 {
        let released = self.eventfd.into_raw_fd();
        self.kernel.borrow_mut().close(released.close);
        released.fd
    }
}

#[test]
fn test_epoll() {
    const DEFAULT_TIMEOUT: i32 = 250;
    const EVENT_BUFFER_SIZE: usize = 128;

    let kernel = kernel();
    let epoll = RunningEpoll::new(&kernel).unwrap();

    let event_fd_1 = RunningEventFd::new(&kernel, EFD_NONBLOCK).unwrap();
    event_fd_1.write(1).unwrap();

    let event_1 = EpollEvent::new(EventSet::IN(), event_fd_1.as_raw_fd() as u64);

    assert!(epoll
        .ctl(ControlOperation::Add, event_fd_1.as_raw_fd(), event_1)
        .is_ok());

    let event_fd_2 = RunningEventFd::new(&kernel, EFD_NONBLOCK).unwrap();
    event_fd_2.write(1).unwrap();
    assert!(epoll
        .ctl(
            ControlOperation::Add,
            event_fd_2.as_raw_fd(),
            EpollEvent::new(EventSet::IN(), 10)
        )
        .is_ok());

    let mut ready_events = vec![EpollEvent::default(); EVENT_BUFFER_SIZE];
    let ev_count = epoll.wait(DEFAULT_TIMEOUT, &mut ready_events[..]).unwrap();

    assert_eq!(ev_count, 2);
    assert_eq!(ready_events[0].data(), event_fd_1.as_raw_fd() as u64);
    assert_eq!(ready_events[1].data(), 10);

    assert_eq!(ready_events[0].events(), EventSet::IN().bits());
    assert_eq!(ready_events[1].events(), EventSet::IN().bits());

    // Delete a fd from the interest list.
    assert!(epoll
        .ctl(
            ControlOperation::Delete,
            event_fd_2.as_raw_fd(),
            EpollEvent::default()
        )
        .is_ok());

    let ev_count = epoll.wait(DEFAULT_TIMEOUT, &mut ready_events[..]).unwrap();
    assert_eq!(ev_count, 1);
    assert_eq!(ready_events[0].data(), event_fd_1.as_raw_fd() as u64);
    assert_eq!(ready_events[0].events(), EventSet::IN().bits());
}

#[test]
fn test_epoll_modify() {
    const DEFAULT_TIMEOUT: i32 = 250;
    const EVENT_BUFFER_SIZE: usize = 8;

    let kernel = kernel();
    let epoll = RunningEpoll::new(&kernel).unwrap();
    let event_fd = RunningEventFd::new(&kernel, EFD_NONBLOCK).unwrap();
    event_fd.write(1).unwrap();

    epoll
        .ctl(
            ControlOperation::Add,
            event_fd.as_raw_fd(),
            EpollEvent::new(EventSet::IN(), 11),
        )
        .unwrap();

    let mut ready_events = vec![EpollEvent::default(); EVENT_BUFFER_SIZE];
    let ev_count = epoll.wait(DEFAULT_TIMEOUT, &mut ready_events[..]).unwrap();
    assert_eq!(ev_count, 1);
    assert_eq!(ready_events[0].data(), 11);
    assert_eq!(ready_events[0].events(), EventSet::IN().bits());

    // Modify the registration to carry a new user data value.
    epoll
        .ctl(
            ControlOperation::Modify,
            event_fd.as_raw_fd(),
            EpollEvent::new(EventSet::IN(), 42),
        )
        .unwrap();

    let ev_count = epoll.wait(DEFAULT_TIMEOUT, &mut ready_events[..]).unwrap();
    assert_eq!(ev_count, 1);
    assert_eq!(ready_events[0].data(), 42);
    assert_eq!(ready_events[0].events(), EventSet::IN().bits());

    // Modify again to remove all interest; the next wait must not
    // return the previously registered read event.
    epoll
        .ctl(
            ControlOperation::Modify,
            event_fd.as_raw_fd(),
            EpollEvent::default(),
        )
        .unwrap();

    let ev_count = epoll.wait(DEFAULT_TIMEOUT, &mut ready_events[..]).unwrap();
    assert_eq!(ev_count, 0);
}

#[test]
fn test_epoll_timeout() {
    const TIMEOUT_MS: i32 = 100;
    let kernel = kernel();
    let epoll = RunningEpoll::new(&kernel).unwrap();
    let mut ready_events = vec![EpollEvent::default(); 4];
    let ev_count = epoll.wait(TIMEOUT_MS, &mut ready_events[..]).unwrap();
    assert_eq!(ev_count, 0);
}

#[test]
fn test_add_is_idempotent() {
    let kernel = kernel();
    let epoll = RunningEpoll::new(&kernel).unwrap();
    let event_fd = RunningEventFd::new(&kernel, EFD_NONBLOCK).unwrap();
    let ev = EpollEvent::new(EventSet::IN(), event_fd.as_raw_fd() as u64);
    epoll
        .ctl(ControlOperation::Add, event_fd.as_raw_fd(), ev)
        .unwrap();
    let once = epoll.filters();
    epoll
        .ctl(ControlOperation::Add, event_fd.as_raw_fd(), ev)
        .unwrap();
    assert_eq!(epoll.filters(), once);
}

#[test]
fn test_modify_unregistered_succeeds() {
    let kernel = kernel();
    let epoll = RunningEpoll::new(&kernel).unwrap();
    let event_fd = RunningEventFd::new(&kernel, EFD_NONBLOCK).unwrap();
    epoll
        .ctl(
            ControlOperation::Modify,
            event_fd.as_raw_fd(),
            EpollEvent::new(EventSet::IN(), event_fd.as_raw_fd() as u64),
        )
        .unwrap();
    assert_eq!(epoll.filters().len(), 1);
}

#[test]
fn test_delete_unregistered_succeeds() {
    let kernel = kernel();
    let epoll = RunningEpoll::new(&kernel).unwrap();
    let event_fd = RunningEventFd::new(&kernel, EFD_NONBLOCK).unwrap();
    epoll
        .ctl(
            ControlOperation::Delete,
            event_fd.as_raw_fd(),
            EpollEvent::default(),
        )
        .unwrap();
    assert!(epoll.filters().is_empty());
}

#[test]
fn test_new() {
    let kernel = kernel();
    RunningEventFd::new(&kernel, EFD_NONBLOCK).unwrap();
    RunningEventFd::new(&kernel, 0).unwrap();
}

#[test]
fn test_read_write() {
    let kernel = kernel();
    let evt = RunningEventFd::new(&kernel, EFD_NONBLOCK).unwrap();
    evt.write(55).unwrap();
    assert_eq!(evt.read().unwrap(), 55);
}

#[test]
fn test_read_nothing() {
    let kernel = kernel();
    let evt = RunningEventFd::new(&kernel, EFD_NONBLOCK).unwrap();
    let err = evt.read().unwrap_err();
    assert_eq!(err.kind(), ErrorKind::WouldBlock);
}

#[test]
fn test_clone() {
    let kernel = kernel();
    let evt = RunningEventFd::new(&kernel, EFD_NONBLOCK).unwrap();
    let evt_clone = evt.try_clone().unwrap();
    evt.write(923).unwrap();
    assert_eq!(evt_clone.read().unwrap(), 923);
}

#[test]
fn test_cloexec() {
    let kernel = kernel();
    let evt = RunningEventFd::new(&kernel, EFD_CLOEXEC).unwrap();
    let request = FlagRequest { fd: evt.as_raw_fd(), call: FlagCall::GetDescriptor };
    let flags = kernel.borrow_mut().fcntl(request).unwrap();
    assert!(flags >= 0);
    assert_ne!(flags & libc::FD_CLOEXEC, 0);
}

#[test]
fn test_into_raw_fd() {
    let kernel = kernel();
    let evt = RunningEventFd::new(&kernel, EFD_NONBLOCK).unwrap();
    let read_fd = evt.as_raw_fd();
    let raw = evt.into_raw_fd();
    assert_eq!(raw, read_fd);
    // The descriptor is still open (ownership was transferred out of `evt`).
    kernel.borrow_mut().close(raw);
    assert!(kernel.borrow().open.is_empty());
}

#[test]
fn numbers_come_out_in_the_order_in_which_they_went_in() {
    let kernel = kernel();
    let evt = RunningEventFd::new(&kernel, EFD_NONBLOCK).unwrap();
    let copy = evt.try_clone().unwrap();
    for v in [0, 1, u64::MAX, 0x0102_0304_0506_0708] {
        evt.write(v).unwrap();
    }
    copy.write(7).unwrap();
    for v in [0, 1, u64::MAX, 0x0102_0304_0506_0708, 7] {
        assert_eq!(evt.read(), Ok(v));
    }
    assert_eq!(copy.read(), Err(EAGAIN));
}

#[test]
fn a_write_to_a_full_pipe_succeeds_and_is_lost() {
    let kernel = kernel();
    kernel.borrow_mut().pipe_capacity = 16;
    let evt = RunningEventFd::new(&kernel, EFD_NONBLOCK).unwrap();
    assert_eq!(evt.write(1), Ok(()));
    assert_eq!(evt.write(2), Ok(()));
    assert_eq!(evt.write(3), Ok(()));
    assert_eq!(evt.read(), Ok(1));
    assert_eq!(evt.read(), Ok(2));
    assert_eq!(evt.read(), Err(EAGAIN));
}

#[test]
fn flags_are_added_to_both_ends() {
    let kernel = kernel();
    let host = Host::current();
    for (flag, status, descriptor) in [
        (0, 0, 0),
        (EFD_NONBLOCK, host.nonblock, 0),
        (EFD_CLOEXEC, 0, host.cloexec),
        (EFD_NONBLOCK | EFD_CLOEXEC, host.nonblock, host.cloexec),
    ] {
        let evt = RunningEventFd::new(&kernel, flag).unwrap();
        let read_fd = evt.as_raw_fd();
        let write_fd = evt.eventfd.write(0).fd;
        assert_ne!(read_fd, write_fd);
        for fd in [read_fd, write_fd] {
            let open = kernel.borrow().open[&fd].clone();
            assert_eq!((open.status, open.descriptor), (status, descriptor));
        }
    }
}

#[test]
fn the_first_failure_is_the_result() {
    let kernel = kernel();
    kernel.borrow_mut().descriptors_left = 1;
    assert_eq!(RunningEventFd::new(&kernel, 0).err(), Some(EMFILE));
    assert_eq!(RunningEpoll::new(&kernel).err(), Some(EMFILE));
}

#[test]
fn a_clone_that_fails_halfway_closes_what_it_opened() {
    let kernel = kernel();
    let evt = RunningEventFd::new(&kernel, 0).unwrap();
    kernel.borrow_mut().descriptors_left = 1;
    assert_eq!(evt.try_clone().err(), Some(EMFILE));
    assert_eq!(kernel.borrow().open.len(), 2);
    assert_eq!(evt.try_clone().err(), Some(EMFILE));
    assert_eq!(kernel.borrow().open.len(), 2);
}

#[test]
fn a_registration_that_fails_is_reported() {
    let kernel = kernel();
    let epoll = RunningEpoll::new(&kernel).unwrap();
    let event = EpollEvent::new(EventSet::IN(), 1);
    assert_eq!(epoll.ctl(ControlOperation::Add, 77, event), Err(EBADF));
    assert_eq!(epoll.ctl(ControlOperation::Modify, 77, event), Err(EBADF));
    assert_eq!(epoll.ctl(ControlOperation::Delete, 77, event), Ok(()));
    assert_eq!(epoll.ctl(ControlOperation::Add, 77, EpollEvent::default()), Ok(()));
}

#[test]
fn modify_replaces_mask_and_data() {
    let kernel = kernel();
    let epoll = RunningEpoll::new(&kernel).unwrap();
    let evt = RunningEventFd::new(&kernel, EFD_NONBLOCK).unwrap();
    let other = RunningEventFd::new(&kernel, EFD_NONBLOCK).unwrap();
    let fd = evt.as_raw_fd();
    let both = EpollEvent::new(EventSet::IN() | EventSet::OUT(), 1);
    epoll.ctl(ControlOperation::Add, fd, both).unwrap();
    epoll.ctl(ControlOperation::Add, other.as_raw_fd(), both).unwrap();
    let write_only = EpollEvent::new(EventSet::OUT() | EventSet::ONE_SHOT(), 2);
    epoll.ctl(ControlOperation::Modify, fd, write_only).unwrap();
    assert_eq!(
        epoll.filters(),
        vec![
            ((other.as_raw_fd() as usize, EVFILT_READ), (0x1, 1)),
            ((other.as_raw_fd() as usize, EVFILT_WRITE), (0x1, 1)),
            ((fd as usize, EVFILT_WRITE), (0x11, 2)),
        ]
    );
}

#[test]
fn modify_replaces_a_lone_write_filter() {
    let kernel = kernel();
    let epoll = RunningEpoll::new(&kernel).unwrap();
    let evt = RunningEventFd::new(&kernel, EFD_NONBLOCK).unwrap();
    let fd = evt.as_raw_fd();
    epoll.ctl(ControlOperation::Add, fd, EpollEvent::new(EventSet::OUT(), 1)).unwrap();
    epoll.ctl(ControlOperation::Modify, fd, EpollEvent::new(EventSet::IN(), 2)).unwrap();
    assert_eq!(epoll.filters(), vec![((fd as usize, EVFILT_READ), (0x1, 2))]);
}

#[test]
fn delete_removes_a_lone_write_filter() {
    let kernel = kernel();
    let epoll = RunningEpoll::new(&kernel).unwrap();
    let evt = RunningEventFd::new(&kernel, EFD_NONBLOCK).unwrap();
    let fd = evt.as_raw_fd();
    for event in [EpollEvent::default(), EpollEvent::new(EventSet::IN() | EventSet::OUT(), 7)] {
        epoll.ctl(ControlOperation::Add, fd, EpollEvent::new(EventSet::OUT(), 7)).unwrap();
        epoll.ctl(ControlOperation::Delete, fd, event).unwrap();
        assert!(epoll.filters().is_empty());
    }
}

#[test]
fn a_wish_to_hear_of_a_read_hang_up_is_ignored() {
    let kernel = kernel();
    let epoll = RunningEpoll::new(&kernel).unwrap();
    let evt = RunningEventFd::new(&kernel, EFD_NONBLOCK).unwrap();
    let fd = evt.as_raw_fd();
    let wish = EpollEvent::new(EventSet::READ_HANG_UP(), 5);
    for operation in [ControlOperation::Add, ControlOperation::Modify] {
        epoll.ctl(operation, fd, wish).unwrap();
        assert!(epoll.filters().is_empty());
    }
    let set = EventSet::OUT() | EventSet::READ_HANG_UP();
    epoll.ctl(ControlOperation::Add, fd, EpollEvent::new(set, 5)).unwrap();
    assert_eq!(epoll.filters(), vec![((fd as usize, EVFILT_WRITE), (0x1, 5))]);
}

#[test]
fn delete_with_the_same_event_undoes_add() {
    let kernel = kernel();
    let epoll = RunningEpoll::new(&kernel).unwrap();
    let evt = RunningEventFd::new(&kernel, EFD_NONBLOCK).unwrap();
    for set in [
        EventSet::IN(),
        EventSet::OUT(),
        EventSet::IN() | EventSet::OUT(),
        EventSet::IN() | EventSet::READ_HANG_UP(),
        EventSet::READ_HANG_UP(),
        EventSet::ERROR(),
        EventSet::empty(),
    ] {
        let event = EpollEvent::new(set, 5);
        epoll.ctl(ControlOperation::Add, evt.as_raw_fd(), event).unwrap();
        epoll.ctl(ControlOperation::Delete, evt.as_raw_fd(), event).unwrap();
        assert!(epoll.filters().is_empty());
    }
}

#[test]
fn a_descriptor_ready_for_both_counts_once() {
    let kernel = kernel();
    let epoll = RunningEpoll::new(&kernel).unwrap();
    let evt = RunningEventFd::new(&kernel, EFD_NONBLOCK).unwrap();
    evt.write(1).unwrap();
    let both = EventSet::IN() | EventSet::OUT();
    epoll.ctl(ControlOperation::Add, evt.as_raw_fd(), EpollEvent::new(both, 7)).unwrap();
    let mut events = vec![EpollEvent::default(); 2];
    assert_eq!(epoll.wait(0, &mut events), Ok(1));
    assert_eq!((events[0].events(), events[0].data()), (both.bits(), 7));
    assert_eq!((events[1].events(), events[1].data()), (0, 0));
}

#[test]
fn a_second_wait_reports_what_is_level_triggered() {
    for (mode, again) in [
        (EventSet::empty(), 1),
        (EventSet::EDGE_TRIGGERED(), 0),
        (EventSet::ONE_SHOT(), 0),
        (EventSet::EDGE_TRIGGERED() | EventSet::ONE_SHOT(), 0),
    ] {
        let kernel = kernel();
        let epoll = RunningEpoll::new(&kernel).unwrap();
        let evt = RunningEventFd::new(&kernel, EFD_NONBLOCK).unwrap();
        evt.write(9).unwrap();
        let event = EpollEvent::new(EventSet::IN() | mode, 3);
        epoll.ctl(ControlOperation::Add, evt.as_raw_fd(), event).unwrap();
        let mut events = vec![EpollEvent::default(); 2];
        assert_eq!(epoll.wait(0, &mut events), Ok(1));
        assert_eq!((events[0].events(), events[0].data()), (0x1, 3));
        let mut events = vec![EpollEvent::default(); 2];
        assert_eq!(epoll.wait(0, &mut events), Ok(again));
        if again == 1 {
            assert_eq!((events[0].events(), events[0].data()), (0x1, 3));
        }
        evt.write(10).unwrap();
        let woken = if mode.contains(EventSet::ONE_SHOT()) { 0 } else { 1 };
        assert_eq!(epoll.wait(0, &mut events), Ok(woken));
        assert_eq!(evt.read(), Ok(9));
        assert_eq!(evt.read(), Ok(10));
    }
}
