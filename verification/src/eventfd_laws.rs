//! What goes through the pipe of an eventfd, and what setting one up does to its descriptors.

use vstd::endian::endianness;
use vstd::prelude::*;

use crate::error::{Error, ErrorKind, Reply};
use crate::eventfd::{
    clone_next, flags_first, flags_next, flags_second, new_first, write_result, CloneStepView, End,
    EventFdView, FlagCall, FlagRequest, FlagStep, NewPipe, NewStepView, EFD_CLOEXEC, EFD_NONBLOCK,
    EFD_SEMAPHORE,
};
use crate::host::{law_machine, law_number_of_bytes, machine, ByteOrder, Host};

verus! {

/// What a pipe holds once the numbers `values` have been written to it and none has been
/// read.
pub open spec fn content(order: ByteOrder, values: Seq<u64>) -> Seq<u8>
    decreases values.len(),
{
    if values.len() == 0 {
        Seq::empty()
    } else {
        order.bytes(values[0]) + content(order, values.drop_first())
    }
}

/// The bytes that a write puts into the pipe go behind those of every number written before.
pub proof fn law_write_comes_last(order: ByteOrder, values: Seq<u64>, v: u64)
    ensures
        content(order, values.push(v)) == content(order, values) + order.bytes(v),
    decreases values.len(),
{
    reveal_with_fuel(content, 2);
    if values.len() == 0 {
        assert(values.push(v).drop_first() =~= Seq::empty());
        assert(content(order, values.push(v)) =~= content(order, values) + order.bytes(v));
    } else {
        law_write_comes_last(order, values.drop_first(), v);
        assert(values.push(v).drop_first() =~= values.drop_first().push(v));
        assert(content(order, values.push(v)) =~= content(order, values) + order.bytes(v));
    }
}

/// A read gives back the number that was written first of those that are in the pipe, and
/// leaves the others there.
pub proof fn law_read_gives_back_first_write(order: ByteOrder, values: Seq<u64>)
    requires
        values.len() > 0,
    ensures
        content(order, values).len() >= 8,
        order.number(content(order, values).take(8)) == values[0],
        content(order, values).skip(8) == content(order, values.drop_first()),
{
    law_number_of_bytes(order, values[0]);
    let rest = content(order, values.drop_first());
    assert((order.bytes(values[0]) + rest).take(8) =~= order.bytes(values[0]));
    assert((order.bytes(values[0]) + rest).skip(8) =~= rest);
}

/// A duplicate has the two new descriptors for its ends, and a number that is written through
/// either eventfd can be read through the other.
pub proof fn law_clone_shares_numbers(eventfd: EventFdView, read_fd: i32, write_fd: i32, v: u64)
    ensures
        ({
            let second = clone_next(eventfd, None, Ok(read_fd));
            let third = clone_next(eventfd, second->read_fd, Ok(write_fd));
            &&& second == CloneStepView::Duplicate {
                fd: eventfd.write_fd,
                read_fd: Some(read_fd),
            }
            &&& third matches CloneStepView::Done(Ok(copy)) && copy.read_fd == read_fd
                && copy.write_fd == write_fd && copy.order.number(eventfd.order.bytes(v)) == v
                && eventfd.order.number(copy.order.bytes(v)) == v
        }),
{
    law_number_of_bytes(eventfd.order, v);
}

/// The flags of a descriptor.
pub struct Flags {
    /// Its status flags.
    pub status: i32,
    /// The flags of the descriptor itself.
    pub descriptor: i32,
}

/// The flags of each open descriptor.
pub type Descriptors = Map<i32, Flags>;

/// What a call on the flags of an open descriptor returns.
pub open spec fn returned(open: Descriptors, request: FlagRequest) -> i32 {
    match request.call {
        FlagCall::GetStatus => open[request.fd].status,
        FlagCall::GetDescriptor => open[request.fd].descriptor,
        _ => 0,
    }
}

/// The flags of the open descriptors after a call.
pub open spec fn called(open: Descriptors, request: FlagRequest) -> Descriptors {
    let flags = open[request.fd];
    match request.call {
        FlagCall::SetStatus(status) => open.insert(request.fd, Flags { status, ..flags }),
        FlagCall::SetDescriptor(descriptor) => open.insert(
            request.fd,
            Flags { descriptor, ..flags },
        ),
        _ => open,
    }
}

/// How many calls on the flags of a descriptor can still follow, this one included.
pub open spec fn flag_calls_left(call: FlagCall) -> nat {
    match call {
        FlagCall::GetStatus => 4,
        FlagCall::SetStatus(_) => 3,
        FlagCall::GetDescriptor => 2,
        FlagCall::SetDescriptor(_) => 1,
    }
}

/// How many calls can still follow at a step towards an eventfd.
pub open spec fn new_calls_left(step: NewStepView) -> nat {
    match step {
        NewStepView::Done(_) => 0,
        NewStepView::Call { end: End::Read, request, .. } => 4 + flag_calls_left(request.call),
        NewStepView::Call { end: End::Write, request, .. } => flag_calls_left(request.call),
    }
}

/// What setting up an eventfd does to the flags of the open descriptors when it goes on from
/// `step` to its end, and its result. `last_error` is the error that the thread holds.
pub open spec fn set_up(open: Descriptors, step: NewStepView, last_error: Error) -> (
    Descriptors,
    Result<EventFdView, Error>,
)
    decreases new_calls_left(step),
{
    match step {
        NewStepView::Done(result) => (open, result),
        NewStepView::Call { pipe, end, request } => {
            let reply = Reply { ret: returned(open, request), last_error };
            set_up(called(open, request), pipe.next(end, request, reply), last_error)
        },
    }
}

/// The flags that a descriptor with the flags `before` is to have for the eventfd flags
/// `flag`.
pub open spec fn wanted(host: Host, flag: i32, before: Flags) -> Flags {
    Flags {
        status: if flag & EFD_NONBLOCK != 0 {
            before.status | host.nonblock
        } else {
            before.status
        },
        descriptor: if flag & EFD_CLOEXEC != 0 {
            before.descriptor | host.cloexec
        } else {
            before.descriptor
        },
    }
}

proof fn lemma_write_end(open: Descriptors, pipe: NewPipe, last_error: Error)
    requires
        open.dom().contains(pipe.write_fd),
        open[pipe.write_fd].status >= 0,
        open[pipe.write_fd].descriptor >= 0,
    ensures
        ({
            let step = pipe.write_end_step(flags_first(pipe.write_fd, pipe.flag));
            let fd = pipe.write_fd;
            set_up(open, step, last_error) == (
                open.insert(fd, wanted(pipe.host, pipe.flag, open[fd])),
                Ok::<EventFdView, Error>(
                    EventFdView {
                        read_fd: pipe.read_fd,
                        write_fd: pipe.write_fd,
                        order: pipe.host.order,
                    },
                ),
            )
        }),
{
    reveal_with_fuel(set_up, 6);
    let fd = pipe.write_fd;
    let step = pipe.write_end_step(flags_first(fd, pipe.flag));
    assert(set_up(open, step, last_error).0 =~= open.insert(
        fd,
        wanted(pipe.host, pipe.flag, open[fd]),
    ));
}

/// Setting up an eventfd on a pipe whose ends are open succeeds: both ends then have the
/// flags that were asked for beside those that they had, the eventfd has the two ends of the
/// pipe, and no other descriptor is touched.
pub proof fn law_new_sets_flags_of_both_ends(
    open: Descriptors,
    host: Host,
    flag: i32,
    read_fd: i32,
    write_fd: i32,
    pipe_reply: Reply,
    last_error: Error,
)
    requires
        pipe_reply.ret >= 0,
        read_fd != write_fd,
        open.dom().contains(read_fd),
        open.dom().contains(write_fd),
        open[read_fd].status >= 0,
        open[read_fd].descriptor >= 0,
        open[write_fd].status >= 0,
        open[write_fd].descriptor >= 0,
    ensures
        set_up(open, new_first(host, flag, pipe_reply, read_fd, write_fd), last_error) == (
            open.insert(read_fd, wanted(host, flag, open[read_fd])).insert(
                write_fd,
                wanted(host, flag, open[write_fd]),
            ),
            Ok::<EventFdView, Error>(EventFdView { read_fd, write_fd, order: host.order }),
        ),
{
    let pipe = NewPipe { host, flag, read_fd, write_fd };
    let middle = open.insert(read_fd, wanted(host, flag, open[read_fd]));
    lemma_write_end(middle, pipe, last_error);
    let write_step = pipe.write_end_step(flags_first(write_fd, flag));
    let step = pipe.read_end_step(flags_first(read_fd, flag));
    assert(set_up(open, step, last_error) == set_up(middle, write_step, last_error)) by {
        lemma_read_end(open, pipe, last_error);
    }
}

proof fn lemma_read_end(open: Descriptors, pipe: NewPipe, last_error: Error)
    requires
        open.dom().contains(pipe.read_fd),
        open[pipe.read_fd].status >= 0,
        open[pipe.read_fd].descriptor >= 0,
    ensures
        ({
            let fd = pipe.read_fd;
            let step = pipe.read_end_step(flags_first(fd, pipe.flag));
            let write_step = pipe.write_end_step(flags_first(pipe.write_fd, pipe.flag));
            set_up(open, step, last_error) == set_up(
                open.insert(fd, wanted(pipe.host, pipe.flag, open[fd])),
                write_step,
                last_error,
            )
        }),
{
    let fd = pipe.read_fd;
    let write_step = pipe.write_end_step(flags_first(pipe.write_fd, pipe.flag));
    let step = pipe.read_end_step(flags_first(fd, pipe.flag));
    let before = open[fd];
    let wanted = wanted(pipe.host, pipe.flag, before);
    let with_status = open.insert(fd, Flags { status: wanted.status, ..before });
    let both = open.insert(fd, wanted);
    let second = pipe.read_end_step(flags_second(fd, pipe.flag));
    assert(set_up(open, step, last_error) == set_up(with_status, second, last_error)) by {
        if pipe.flag & EFD_NONBLOCK != 0 {
            reveal_with_fuel(set_up, 3);
        } else {
            assert(with_status =~= open);
        }
    }
    assert(set_up(with_status, second, last_error) == set_up(both, write_step, last_error)) by {
        if pipe.flag & EFD_CLOEXEC != 0 {
            reveal_with_fuel(set_up, 3);
            assert(with_status.insert(fd, wanted) =~= both);
        } else {
            assert(with_status =~= both);
        }
    }
}

/// A call that fails ends the request, with its error, and no further call is made.
pub proof fn law_failed_call_ends_new(
    pipe: NewPipe,
    end: End,
    request: FlagRequest,
    reply: Reply,
)
    requires
        reply.ret < 0,
    ensures
        pipe.next(end, request, reply) == NewStepView::Done(Err(reply.last_error)),
{
}

/// Each call brings the end of the request nearer: it makes at most eight.
pub proof fn law_new_makes_at_most_eight_calls(
    pipe: NewPipe,
    end: End,
    request: FlagRequest,
    reply: Reply,
)
    ensures
        new_calls_left(pipe.next(end, request, reply)) < new_calls_left(
            NewStepView::Call { pipe, end, request },
        ) <= 8,
{
}

/// The flags of an eventfd are the three lowest bits.
pub proof fn law_flag_values()
    ensures
        EFD_NONBLOCK == 0x1,
        EFD_CLOEXEC == 0x2,
        EFD_SEMAPHORE == 0x4,
{
}

/// The end of a pipe that a step towards an eventfd is about: its descriptor.
pub open spec fn end_fd(pipe: NewPipe, end: End) -> i32 {
    match end {
        End::Read => pipe.read_fd,
        End::Write => pipe.write_fd,
    }
}

/// Whatever is answered, a request for an eventfd stays with its pipe: each call is made on the
/// end that it is for, and the eventfd that comes out in the end has the two ends of the pipe
/// and the byte order of the machine that the request started with.
pub proof fn law_new_stays_with_its_pipe(
    pipe: NewPipe,
    end: End,
    request: FlagRequest,
    reply: Reply,
)
    requires
        request.fd == end_fd(pipe, end),
    ensures
        match pipe.next(end, request, reply) {
            NewStepView::Call { pipe: next_pipe, end: next_end, request: next } => next_pipe == pipe
                && next.fd == end_fd(pipe, next_end) && (end is Write ==> next_end is Write),
            NewStepView::Done(Ok(eventfd)) => eventfd.read_fd == pipe.read_fd && eventfd.write_fd
                == pipe.write_fd && eventfd.order == pipe.host.order && reply.ret >= 0,
            NewStepView::Done(Err(error)) => error == reply.last_error && reply.ret < 0,
        },
{
}

/// A request for an eventfd starts with the pipe that was made, and fails with its error where
/// none was made. Where no flag is asked for that a pipe can have, it ends without a call.
pub proof fn law_new_starts_with_the_pipe(
    host: Host,
    flag: i32,
    reply: Reply,
    read_fd: i32,
    write_fd: i32,
)
    ensures
        reply.ret < 0 ==> new_first(host, flag, reply, read_fd, write_fd) == NewStepView::Done(
            Err(reply.last_error),
        ),
        reply.ret >= 0 ==> match new_first(host, flag, reply, read_fd, write_fd) {
            NewStepView::Call { pipe, end, request } => pipe == (NewPipe {
                host,
                flag,
                read_fd,
                write_fd,
            }) && end is Read && request.fd == read_fd && (flag & EFD_NONBLOCK != 0 || flag
                & EFD_CLOEXEC != 0),
            NewStepView::Done(Ok(eventfd)) => eventfd.read_fd == read_fd && eventfd.write_fd
                == write_fd && eventfd.order == host.order && flag & EFD_NONBLOCK == 0 && flag
                & EFD_CLOEXEC == 0,
            NewStepView::Done(Err(_)) => false,
        },
{
}

/// Flags are set by adding to those that a descriptor has: each call that sets them follows one
/// that got them, on the same descriptor, and hands back what was got with the one flag added.
/// After the status flags come the flags of the descriptor itself, where they are asked for,
/// and after these nothing. A call that fails ends the request with its error.
pub proof fn law_flags_are_added(host: Host, flags: i32, request: FlagRequest, reply: Reply)
    ensures
        ({
            let step = flags_next(host, flags, request, reply);
            if reply.ret < 0 {
                step == FlagStep::Done(Err(reply.last_error))
            } else {
                match request.call {
                    FlagCall::GetStatus => step matches FlagStep::Call(
                        FlagRequest { fd, call: FlagCall::SetStatus(status) },
                    ) && fd == request.fd && status & host.nonblock == host.nonblock && status
                        & !host.nonblock == reply.ret & !host.nonblock,
                    FlagCall::SetStatus(_) => if flags & EFD_CLOEXEC != 0 {
                        step == FlagStep::Call(
                            FlagRequest { fd: request.fd, call: FlagCall::GetDescriptor },
                        )
                    } else {
                        step == FlagStep::Done(Ok(()))
                    },
                    FlagCall::GetDescriptor => step matches FlagStep::Call(
                        FlagRequest { fd, call: FlagCall::SetDescriptor(descriptor) },
                    ) && fd == request.fd && descriptor & host.cloexec == host.cloexec && descriptor
                        & !host.cloexec == reply.ret & !host.cloexec,
                    FlagCall::SetDescriptor(_) => step == FlagStep::Done(Ok(())),
                }
            }
        }),
{
    let (ret, a, b) = (reply.ret, host.nonblock, host.cloexec);
    assert((ret | a) & a == a && (ret | a) & !a == ret & !a && (ret | b) & b == b && (ret | b) & !b
        == ret & !b) by (bit_vector);
}

/// The status flags are asked after first, where the eventfd is not to block, and otherwise the
/// flags of the descriptor itself, where it is to be closed on execution. No other flag asks
/// for anything.
pub proof fn law_first_flag_call(fd: i32, flags: i32)
    ensures
        flags & EFD_NONBLOCK != 0 ==> flags_first(fd, flags) == FlagStep::Call(
            FlagRequest { fd, call: FlagCall::GetStatus },
        ),
        flags & EFD_NONBLOCK == 0 && flags & EFD_CLOEXEC != 0 ==> flags_first(fd, flags)
            == FlagStep::Call(FlagRequest { fd, call: FlagCall::GetDescriptor }),
        flags & EFD_NONBLOCK == 0 && flags & EFD_CLOEXEC == 0 ==> flags_first(fd, flags)
            == FlagStep::Done(Ok(())),
{
}

/// An eventfd that is made on the machine, and one that is put together from descriptors on it,
/// have the byte order of its hardware: a number that is written through either is read
/// unchanged through the other.
pub proof fn law_new_and_from_fd_share_numbers(
    open: Descriptors,
    flag: i32,
    read_fd: i32,
    write_fd: i32,
    pipe_reply: Reply,
    last_error: Error,
    fd: i32,
    duplicate: i32,
    v: u64,
)
    requires
        pipe_reply.ret >= 0,
        read_fd != write_fd,
        open.dom().contains(read_fd),
        open.dom().contains(write_fd),
        open[read_fd].status >= 0,
        open[read_fd].descriptor >= 0,
        open[write_fd].status >= 0,
        open[write_fd].descriptor >= 0,
    ensures
        ({
            let first = new_first(machine(), flag, pipe_reply, read_fd, write_fd);
            let adopted = EventFdView {
                read_fd: fd,
                write_fd: duplicate,
                order: machine().order,
            };
            set_up(open, first, last_error).1 matches Ok(made) && adopted.order.number(
                made.order.bytes(v),
            ) == v && made.order.number(adopted.order.bytes(v)) == v && (made.order is Little
                <==> endianness() is Little) && (adopted.order is Little
                <==> endianness() is Little)
        }),
{
    law_new_sets_flags_of_both_ends(
        open,
        machine(),
        flag,
        read_fd,
        write_fd,
        pipe_reply,
        last_error,
    );
    law_number_of_bytes(machine().order, v);
    law_machine();
}

/// Where an end cannot be duplicated, the request fails with the error of the attempt, and
/// leaves no new descriptor behind: a read end that is there already is closed.
pub proof fn law_clone_failure(eventfd: EventFdView, read_fd: i32, error: Error)
    ensures
        clone_next(eventfd, None, Err(error)) == CloneStepView::Done(Err(error)),
        clone_next(eventfd, Some(read_fd), Err(error)) == (CloneStepView::Abandon {
            fd: read_fd,
            error,
        }),
{
}

/// A write fails exactly when putting the bytes into the pipe failed for another reason than
/// that it would block, and with that error.
pub proof fn law_write_result(outcome: Result<(), Error>)
    ensures
        write_result(outcome) is Err <==> outcome is Err && outcome->Err_0.kind
            != ErrorKind::WouldBlock,
        write_result(outcome) is Err ==> write_result(outcome) == outcome,
{
}

} // verus!
