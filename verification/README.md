# macos_epoll

Linux `epoll` and `eventfd` for macOS, as a library of verified decisions.

- `src/` decides. `epoll` turns control requests into kqueue changes, takes the replies, and
  reports what the kqueue brings as one epoll event for each ready descriptor. `eventfd` sets
  up a pipe, says what is written to it and understands what is read from it. `epoll_laws`,
  `wait_laws` and `eventfd_laws` state what holds of whole exchanges: what a request leaves
  registered, what a wait reports, and what a read gives back of a write. Every function is
  proved against its contract with [Verus](https://github.com/verus-lang/verus).
- `app/` acts. It makes the system calls that `src/` asks for and hands the replies back.
- `tests/` runs the decisions step by step, and as whole exchanges with a small kernel in
  memory.

Three things are believed without proof, all in `src/host.rs`: that `u64::to_ne_bytes` gives
the bytes of a number in one of the two byte orders, and the values that
`O_NONBLOCK` and `FD_CLOEXEC` of libc can have.
