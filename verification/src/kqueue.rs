//! What is handed to a kqueue and what comes back from it.
//!
//! The constants have the values of the macOS headers.

use vstd::prelude::*;

verus! {

/// The filter that reports a descriptor which can be read.
pub const EVFILT_READ: i16 = -1;

/// The filter that reports a descriptor which can be written.
pub const EVFILT_WRITE: i16 = -2;

/// Register a filter, or change its registration.
pub const EV_ADD: u16 = 0x0001;

/// Take a filter out of the kqueue.
pub const EV_DELETE: u16 = 0x0002;

/// Report a filter once and then take it out of the kqueue.
pub const EV_ONESHOT: u16 = 0x0010;

/// Forget the state of a filter once it is reported.
pub const EV_CLEAR: u16 = 0x0020;

/// The event is an error.
pub const EV_ERROR: u16 = 0x4000;

/// The other side will send no more, or take no more.
pub const EV_EOF: u16 = 0x8000;

/// A change for a kqueue, or an event of one: the fields of `struct kevent`, with the user
/// data pointer as the number that it is made of.
#[derive(Clone, Copy, Debug, PartialEq, Eq, Structural)]
pub struct Kevent {
    /// The identifier: a file descriptor, for the two filters used here.
    pub ident: usize,
    /// The filter.
    pub filter: i16,
    /// What to do with the filter, or what happened.
    pub flags: u16,
    /// Flags of the filter.
    pub fflags: u32,
    /// Data of the filter.
    pub data: isize,
    /// User data, handed back with every event of the filter.
    pub udata: usize,
}

/// A span of time: the fields of `struct timespec`.
#[derive(Clone, Copy, Debug, PartialEq, Eq, Structural)]
pub struct Timespec {
    /// Whole seconds.
    pub tv_sec: i64,
    /// Nanoseconds beyond them.
    pub tv_nsec: i64,
}

/// The filters and flags have the values of the macOS headers.
pub proof fn law_header_values()
    ensures
        EVFILT_READ == -1,
        EVFILT_WRITE == -2,
        EV_ADD == 0x1,
        EV_DELETE == 0x2,
        EV_ONESHOT == 0x10,
        EV_CLEAR == 0x20,
        EV_ERROR == 0x4000,
        EV_EOF == 0x8000,
{
}

} // verus!
