//! The decisions behind an emulation of Linux `epoll` and `eventfd` on macOS.
//!
//! - [`epoll`]: which kqueue changes an `epoll_ctl` request turns into, what the replies to
//!   them mean, and how kqueue events are reported back as epoll events.
//! - [`eventfd`]: how a pipe stands in for an eventfd: which calls set it up, what is
//!   written to it, and how what is read from it is understood.
//!
//! No function here makes a system call. Each says which call is to be made next and takes
//! the reply to it as plain values.

pub mod decimal;
pub mod epoll;
pub mod epoll_laws;
pub mod error;
pub mod event;
pub mod event_set;
pub mod eventfd;
pub mod eventfd_laws;
pub mod host;
pub mod kqueue;
pub mod request_laws;
pub mod wait_laws;
