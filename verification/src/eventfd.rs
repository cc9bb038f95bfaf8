//! The eventfd API on top of a pipe.
//!
//! macOS does not have the `eventfd` syscall, so a pipe stands in for it: a write puts the
//! eight bytes of a number into the pipe, and a read takes eight bytes out. Making one, and
//! duplicating one, is a short exchange: the first step says which call to make, and each
//! reply leads to the next step, until the request is done.

use vstd::prelude::*;

use crate::error::{Error, ErrorKind, Reply};
use crate::host::{machine, ByteOrder, Host};

verus! {

/// Equivalent to `libc::EFD_NONBLOCK` for pipe-based emulation.
pub const EFD_NONBLOCK: i32 = 1;

/// Equivalent to `libc::EFD_CLOEXEC` for pipe-based emulation.
pub const EFD_CLOEXEC: i32 = 2;

/// Equivalent to `libc::EFD_SEMAPHORE` for pipe-based emulation.
/// Note: semaphore semantics are not fully implemented; reads do not return 1.
pub const EFD_SEMAPHORE: i32 = 4;

/// A `fcntl` call on the flags of a descriptor.
#[derive(Clone, Copy, Debug, PartialEq, Eq, Structural)]
pub enum FlagCall {
    /// Get the status flags.
    GetStatus,
    /// Set the status flags.
    SetStatus(i32),
    /// Get the flags of the descriptor itself.
    GetDescriptor,
    /// Set the flags of the descriptor itself.
    SetDescriptor(i32),
}

/// A call to be made on the flags of a descriptor.
#[derive(Clone, Copy, Debug, PartialEq, Eq, Structural)]
pub struct FlagRequest {
    /// The descriptor.
    pub fd: i32,
    /// The call.
    pub call: FlagCall,
}

/// What is to be done next to give a descriptor the flags that were asked for.
#[derive(Clone, Copy, Debug, PartialEq, Eq)]
pub enum FlagStep {
    /// Make this call, and resume with the reply.
    Call(FlagRequest),
    /// The descriptor has its flags, or a call failed.
    Done(Result<(), Error>),
}

/// The first step towards the flags `flags` of `fd`.
pub open spec fn flags_first(fd: i32, flags: i32) -> FlagStep {
    if flags & EFD_NONBLOCK != 0 {
        FlagStep::Call(FlagRequest { fd, call: FlagCall::GetStatus })
    } else {
        flags_second(fd, flags)
    }
}

/// The first step towards the flags `flags` of `fd`, once its status flags are as they
/// should be.
pub open spec fn flags_second(fd: i32, flags: i32) -> FlagStep {
    if flags & EFD_CLOEXEC != 0 {
        FlagStep::Call(FlagRequest { fd, call: FlagCall::GetDescriptor })
    } else {
        FlagStep::Done(Ok(()))
    }
}

/// The step that follows the reply to a call. A failed call ends the request; flags are set
/// by adding to those that the descriptor has.
pub open spec fn flags_next(
    host: Host,
    flags: i32,
    request: FlagRequest,
    reply: Reply,
) -> FlagStep {
    let fd = request.fd;
    if reply.ret < 0 {
        FlagStep::Done(Err(reply.last_error))
    } else {
        match request.call {
            FlagCall::GetStatus => FlagStep::Call(
                FlagRequest { fd, call: FlagCall::SetStatus(reply.ret | host.nonblock) },
            ),
            FlagCall::SetStatus(_) => flags_second(fd, flags),
            FlagCall::GetDescriptor => FlagStep::Call(
                FlagRequest { fd, call: FlagCall::SetDescriptor(reply.ret | host.cloexec) },
            ),
            FlagCall::SetDescriptor(_) => FlagStep::Done(Ok(())),
        }
    }
}

/// Returns the first step towards the flags `flags` of `fd`.
pub fn set_flags(fd: i32, flags: i32) -> (step: FlagStep)
    ensures
        step == flags_first(fd, flags),
{
    if flags & EFD_NONBLOCK != 0 {
        FlagStep::Call(FlagRequest { fd, call: FlagCall::GetStatus })
    } else {
        set_descriptor_flags(fd, flags)
    }
}

/// Returns the first step towards the flags `flags` of `fd`, once its status flags are as
/// they should be.
fn set_descriptor_flags(fd: i32, flags: i32) -> (step: FlagStep)
    ensures
        step == flags_second(fd, flags),
{
    if flags & EFD_CLOEXEC != 0 {
        FlagStep::Call(FlagRequest { fd, call: FlagCall::GetDescriptor })
    } else {
        FlagStep::Done(Ok(()))
    }
}

/// Takes the reply to a call on the flags of a descriptor and returns the next step.
pub fn resume_flags(host: Host, flags: i32, request: FlagRequest, reply: Reply) -> (step: FlagStep)
    ensures
        step == flags_next(host, flags, request, reply),
{
    let fd: i32 = request.fd;
    match reply.outcome() {
        Err(error) => FlagStep::Done(Err(error)),
        Ok(ret) => match request.call {
            FlagCall::GetStatus => FlagStep::Call(
                FlagRequest { fd, call: FlagCall::SetStatus(ret | host.nonblock) },
            ),
            FlagCall::SetStatus(_) => set_descriptor_flags(fd, flags),
            FlagCall::GetDescriptor => FlagStep::Call(
                FlagRequest { fd, call: FlagCall::SetDescriptor(ret | host.cloexec) },
            ),
            FlagCall::SetDescriptor(_) => FlagStep::Done(Ok(())),
        },
    }
}

/// One end of a pipe.
#[derive(Clone, Copy, Debug, PartialEq, Eq, Structural)]
pub enum End {
    /// The end that is read from.
    Read,
    /// The end that is written to.
    Write,
}

/// A pipe that is about to become an eventfd.
#[derive(Clone, Copy, Debug, PartialEq, Eq)]
pub struct NewPipe {
    /// What the machine decides.
    pub host: Host,
    /// The flags that were asked for.
    pub flag: i32,
    /// The descriptor of the read end.
    pub read_fd: i32,
    /// The descriptor of the write end.
    pub write_fd: i32,
}

impl NewPipe {
    /// The step of the whole request that a step for the write end amounts to.
    pub open spec fn write_end_step(self, step: FlagStep) -> NewStepView {
        match step {
            FlagStep::Call(request) => NewStepView::Call { pipe: self, end: End::Write, request },
            FlagStep::Done(Err(error)) => NewStepView::Done(Err(error)),
            FlagStep::Done(Ok(_)) => NewStepView::Done(
                Ok(
                    EventFdView {
                        read_fd: self.read_fd,
                        write_fd: self.write_fd,
                        order: self.host.order,
                    },
                ),
            ),
        }
    }

    /// The step of the whole request that a step for the read end amounts to. Once the read
    /// end has its flags, it is the turn of the write end.
    pub open spec fn read_end_step(self, step: FlagStep) -> NewStepView {
        match step {
            FlagStep::Call(request) => NewStepView::Call { pipe: self, end: End::Read, request },
            FlagStep::Done(Err(error)) => NewStepView::Done(Err(error)),
            FlagStep::Done(Ok(_)) => self.write_end_step(flags_first(self.write_fd, self.flag)),
        }
    }

    /// The step that follows the reply to a call on an end.
    pub open spec fn next(self, end: End, request: FlagRequest, reply: Reply) -> NewStepView {
        let step = flags_next(self.host, self.flag, request, reply);
        match end {
            End::Read => self.read_end_step(step),
            End::Write => self.write_end_step(step),
        }
    }

    /// Takes a step for the write end and returns the step of the whole request.
    fn after_write_end(self, step: FlagStep) -> (next: NewStep)
        ensures
            next@ == self.write_end_step(step),
    {
        match step {
            FlagStep::Call(request) => NewStep::Call { pipe: self, end: End::Write, request },
            FlagStep::Done(Err(error)) => NewStep::Done(Err(error)),
            FlagStep::Done(Ok(_)) => NewStep::Done(
                Ok(
                    EventFd {
                        read_fd: self.read_fd,
                        write_fd: self.write_fd,
                        order: self.host.order,
                    },
                ),
            ),
        }
    }

    /// Takes a step for the read end and returns the step of the whole request.
    fn after_read_end(self, step: FlagStep) -> (next: NewStep)
        ensures
            next@ == self.read_end_step(step),
    {
        match step {
            FlagStep::Call(request) => NewStep::Call { pipe: self, end: End::Read, request },
            FlagStep::Done(Err(error)) => NewStep::Done(Err(error)),
            FlagStep::Done(Ok(_)) => self.after_write_end(
                set_flags(self.write_fd, self.flag),
            ),
        }
    }
}

/// What is to be done next to make an eventfd.
#[derive(Debug)]
pub enum NewStep {
    /// Make this call on an end of the pipe, and resume with the reply.
    Call {
        /// The pipe.
        pipe: NewPipe,
        /// The end of the pipe that the call is made on.
        end: End,
        /// The call.
        request: FlagRequest,
    },
    /// The eventfd is made, or a call failed.
    Done(Result<EventFd, Error>),
}

/// The view of a [`NewStep`].
pub enum NewStepView {
    /// See [`NewStep::Call`].
    Call {
        /// The pipe.
        pipe: NewPipe,
        /// The end of the pipe that the call is made on.
        end: End,
        /// The call.
        request: FlagRequest,
    },
    /// See [`NewStep::Done`].
    Done(Result<EventFdView, Error>),
}

impl View for NewStep {
    type V = NewStepView;

    open spec fn view(&self) -> NewStepView {
        match *self {
            NewStep::Call { pipe, end, request } => NewStepView::Call { pipe, end, request },
            NewStep::Done(Ok(eventfd)) => NewStepView::Done(Ok(eventfd@)),
            NewStep::Done(Err(error)) => NewStepView::Done(Err(error)),
        }
    }
}

/// The first step towards an eventfd, on the reply to the call that makes the pipe.
pub open spec fn new_first(
    host: Host,
    flag: i32,
    reply: Reply,
    read_fd: i32,
    write_fd: i32,
) -> NewStepView {
    if reply.ret < 0 {
        NewStepView::Done(Err(reply.last_error))
    } else {
        (NewPipe { host, flag, read_fd, write_fd }).read_end_step(flags_first(read_fd, flag))
    }
}

/// What is to be done next to duplicate an eventfd.
#[derive(Debug)]
pub enum CloneStep {
    /// Duplicate the descriptor, and resume with the new one.
    Duplicate {
        /// The descriptor.
        fd: i32,
        /// The read end of the duplicate, where it is there already.
        read_fd: Option<i32>,
    },
    /// Close the read end of the duplicate: the write end could not be duplicated, and the
    /// request has failed with this error.
    Abandon {
        /// The descriptor to close.
        fd: i32,
        /// The error.
        error: Error,
    },
    /// The duplicate is made, or the read end could not be duplicated.
    Done(Result<EventFd, Error>),
}

/// The view of a [`CloneStep`].
pub enum CloneStepView {
    /// See [`CloneStep::Duplicate`].
    Duplicate {
        /// The descriptor.
        fd: i32,
        /// The read end of the duplicate, where it is there already.
        read_fd: Option<i32>,
    },
    /// See [`CloneStep::Abandon`].
    Abandon {
        /// The descriptor to close.
        fd: i32,
        /// The error.
        error: Error,
    },
    /// See [`CloneStep::Done`].
    Done(Result<EventFdView, Error>),
}

impl View for CloneStep {
    type V = CloneStepView;

    open spec fn view(&self) -> CloneStepView {
        match *self {
            CloneStep::Duplicate { fd, read_fd } => CloneStepView::Duplicate { fd, read_fd },
            CloneStep::Abandon { fd, error } => CloneStepView::Abandon { fd, error },
            CloneStep::Done(Ok(eventfd)) => CloneStepView::Done(Ok(eventfd@)),
            CloneStep::Done(Err(error)) => CloneStepView::Done(Err(error)),
        }
    }
}

/// The step that follows an attempt to duplicate an end of `eventfd`: the read end where
/// there is no `read_fd` yet, and otherwise the write end.
pub open spec fn clone_next(
    eventfd: EventFdView,
    read_fd: Option<i32>,
    outcome: Result<i32, Error>,
) -> CloneStepView {
    match (read_fd, outcome) {
        (None, Ok(fd)) => CloneStepView::Duplicate { fd: eventfd.write_fd, read_fd: Some(fd) },
        (None, Err(error)) => CloneStepView::Done(Err(error)),
        (Some(read), Ok(fd)) => CloneStepView::Done(
            Ok(EventFdView { read_fd: read, write_fd: fd, order: eventfd.order }),
        ),
        (Some(read), Err(error)) => CloneStepView::Abandon { fd: read, error },
    }
}

/// How to write to an eventfd: write all of `bytes` to the descriptor.
#[derive(Clone, Copy, Debug, PartialEq, Eq)]
pub struct WriteRequest {
    /// The descriptor.
    pub fd: i32,
    /// The bytes.
    pub bytes: [u8; 8],
}

/// How to read from an eventfd: read exactly `count` bytes from the descriptor.
#[derive(Clone, Copy, Debug, PartialEq, Eq)]
pub struct ReadRequest {
    /// The descriptor.
    pub fd: i32,
    /// How many bytes.
    pub count: usize,
}

/// The descriptors of an eventfd that is given up.
#[derive(Clone, Copy, Debug, PartialEq, Eq)]
pub struct Released {
    /// The descriptor that is handed over, still open.
    pub fd: i32,
    /// The descriptor that is to be closed.
    pub close: i32,
}

/// A pipe-backed emulation of Linux
/// [`eventfd`](http://man7.org/linux/man-pages/man2/eventfd.2.html).
#[derive(Debug)]
pub struct EventFd {
    read_fd: i32,
    write_fd: i32,
    order: ByteOrder,
}

/// The view of an [`EventFd`].
pub struct EventFdView {
    /// The descriptor of the read end of the pipe.
    pub read_fd: i32,
    /// The descriptor of the write end of the pipe.
    pub write_fd: i32,
    /// The order in which the bytes of a number go through the pipe.
    pub order: ByteOrder,
}

impl View for EventFd {
    type V = EventFdView;

    closed spec fn view(&self) -> EventFdView {
        EventFdView { read_fd: self.read_fd, write_fd: self.write_fd, order: self.order }
    }
}

/// The result of a write, given how the attempt to put the bytes into the pipe went. A full
/// pipe is no failure: the reader will still be notified.
pub open spec fn write_result(outcome: Result<(), Error>) -> Result<(), Error> {
    match outcome {
        Ok(_) => Ok(()),
        Err(error) => if error.kind == ErrorKind::WouldBlock {
            Ok(())
        } else {
            Err(error)
        },
    }
}

impl EventFd {
    /// Create a new EventFd, from the reply to the call that makes a pipe: returns the first
    /// step that follows it.
    ///
    /// # Arguments
    ///
    /// * `flag`: Flags for the EventFd. Supports `EFD_NONBLOCK` and `EFD_CLOEXEC`.
    /// * `reply`: What the call that makes the pipe answered.
    /// * `read_fd`, `write_fd`: The two ends of the pipe.
    pub fn new(flag: i32, reply: Reply, read_fd: i32, write_fd: i32) -> (step: NewStep)
        ensures
            exists|host: Host|
                host.well_formed() && step@ == #[trigger] new_first(
                    host,
                    flag,
                    reply,
                    read_fd,
                    write_fd,
                ),
            step@ == new_first(machine(), flag, reply, read_fd, write_fd),
    {
        EventFd::new_on(Host::current(), flag, reply, read_fd, write_fd)
    }

    /// Like [`EventFd::new`], on a given machine.
    pub fn new_on(host: Host, flag: i32, reply: Reply, read_fd: i32, write_fd: i32) -> (step:
        NewStep)
        ensures
            step@ == new_first(host, flag, reply, read_fd, write_fd),
    {
        match reply.outcome() {
            Err(error) => NewStep::Done(Err(error)),
            Ok(_) => (NewPipe { host, flag, read_fd, write_fd }).after_read_end(
                set_flags(read_fd, flag),
            ),
        }
    }

    /// Takes the reply to a call on an end of a new pipe and returns the next step.
    pub fn resume_new(pipe: NewPipe, end: End, request: FlagRequest, reply: Reply) -> (step: NewStep)
        ensures
            step@ == pipe.next(end, request, reply),
    {
        let step = resume_flags(pipe.host, pipe.flag, request, reply);
        match end {
            End::Read => pipe.after_read_end(step),
            End::Write => pipe.after_write_end(step),
        }
    }

    /// Add a value to the eventfd's counter: returns how to write it.
    ///
    /// On pipe-based emulation, this writes the 8-byte value to the pipe.
    pub fn write(&self, v: u64) -> (request: WriteRequest)
        ensures
            request.fd == self@.write_fd,
            request.bytes@ == self@.order.bytes(v),
    {
        WriteRequest { fd: self.write_fd, bytes: self.order.to_bytes(v) }
    }

    /// Takes the outcome of a write and returns its result.
    ///
    /// That the pipe is full is silently ignored: the reader will still be notified
    /// (matching eventfd overflow behavior).
    pub fn complete_write(&self, outcome: Result<(), Error>) -> (result: Result<(), Error>)
        ensures
            result == write_result(outcome),
    {
        match outcome {
            Ok(()) => Ok(()),
            Err(error) => {
                if error.kind() == ErrorKind::WouldBlock {
                    Ok(())
                } else {
                    Err(error)
                }
            },
        }
    }

    /// Read a value from the eventfd: returns how to read it.
    pub fn read(&self) -> (request: ReadRequest)
        ensures
            request == (ReadRequest { fd: self@.read_fd, count: 8 }),
    {
        ReadRequest { fd: self.read_fd, count: 8 }
    }

    /// Takes the outcome of a read and returns the value that was read.
    ///
    /// If nothing has been written, the read fails with `WouldBlock` (if nonblocking) or
    /// blocks; its error is the result.
    pub fn complete_read(&self, outcome: Result<[u8; 8], Error>) -> (value: Result<u64, Error>)
        ensures
            match outcome {
                Ok(bytes) => value == Ok::<u64, Error>(self@.order.number(bytes@)),
                Err(error) => value == Err::<u64, Error>(error),
            },
    {
        match outcome {
            Ok(bytes) => Ok(self.order.to_number(bytes)),
            Err(error) => Err(error),
        }
    }

    /// Clone this EventFd, duplicating both the read and write file descriptors: returns the
    /// first step.
    pub fn try_clone(&self) -> (step: CloneStep)
        ensures
            step@ == (CloneStepView::Duplicate { fd: self@.read_fd, read_fd: None }),
    {
        CloneStep::Duplicate { fd: self.read_fd, read_fd: None }
    }

    /// Takes the outcome of an attempt to duplicate a descriptor and returns the next step.
    pub fn resume_clone(&self, read_fd: Option<i32>, outcome: Result<i32, Error>) -> (step:
        CloneStep)
        ensures
            step@ == clone_next(self@, read_fd, outcome),
    {
        match (read_fd, outcome) {
            (None, Ok(fd)) => CloneStep::Duplicate { fd: self.write_fd, read_fd: Some(fd) },
            (None, Err(error)) => CloneStep::Done(Err(error)),
            (Some(read), Ok(fd)) => CloneStep::Done(
                Ok(EventFd { read_fd: read, write_fd: fd, order: self.order }),
            ),
            (Some(read), Err(error)) => CloneStep::Abandon { fd: read, error },
        }
    }

    /// Returns the descriptor that becomes readable: the read end of the pipe.
    pub fn as_raw_fd(&self) -> (fd: i32)
        ensures
            fd == self@.read_fd,
    {
        self.read_fd
    }

    /// Create an EventFd from a raw file descriptor and a duplicate of it, which serves as
    /// the write end.
    ///
    /// Write operations will not work correctly unless the descriptor is actually an
    /// eventfd-like one. This is primarily provided for API compatibility.
    pub fn from_fd(fd: i32, duplicate: i32) -> (eventfd: EventFd)
        requires
            fd >= 0,
            duplicate >= 0,
        ensures
            eventfd@.read_fd == fd,
            eventfd@.write_fd == duplicate,
            eventfd@.order == machine().order,
    {
        EventFd::from_fd_on(Host::current(), fd, duplicate)
    }

    /// Like [`EventFd::from_fd`], on a given machine.
    pub fn from_fd_on(host: Host, fd: i32, duplicate: i32) -> (eventfd: EventFd)
        requires
            fd >= 0,
            duplicate >= 0,
        ensures
            eventfd@ == (EventFdView { read_fd: fd, write_fd: duplicate, order: host.order }),
    {
        EventFd { read_fd: fd, write_fd: duplicate, order: host.order }
    }

    /// Gives the eventfd up: its read end is handed over, and its write end is to be closed.
    pub fn into_raw_fd(self) -> (released: Released)
        ensures
            released == (Released { fd: self@.read_fd, close: self@.write_fd }),
    {
        Released { fd: self.read_fd, close: self.write_fd }
    }
}

} // verus!
