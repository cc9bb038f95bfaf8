//! A single epoll event.

use vstd::prelude::*;

use crate::decimal::{append_decimal, decimal, law_decimal, writes};
use crate::event_set::{known, EventSet};

verus! {

/// Wrapper over an epoll event, backed by kqueue on macOS.
///
/// Fields are public to match the Linux `epoll_event` struct.
#[derive(Clone, Copy)]
pub struct EpollEvent {
    /// Event mask (combination of `EventSet` bits).
    pub events: u32,
    /// User data associated with this event.
    pub u64: u64,
}

impl Default for EpollEvent {
    /// Returns an event with an empty mask and zero as user data.
    fn default() -> (event: EpollEvent)
        ensures
            event == (EpollEvent { events: 0, u64: 0 }),
    {
        EpollEvent { events: 0, u64: 0 }
    }
}

impl EpollEvent {
    /// Create a new EpollEvent instance.
    ///
    /// # Arguments
    ///
    /// `events` - contains an event mask.
    /// `data` - a user data variable.
    pub fn new(events: EventSet, data: u64) -> (event: EpollEvent)
        ensures
            event == (EpollEvent { events: events@, u64: data }),
            known(event.events),
    {
        EpollEvent { events: events.bits(), u64: data }
    }

    /// Returns the raw events bitmask.
    pub fn events(&self) -> (events: u32)
        ensures
            events == self.events,
    {
        self.events
    }

    /// Returns the `EventSet` corresponding to the events.
    ///
    /// The events must not contain invalid bits.
    pub fn event_set(&self) -> (set: EventSet)
        requires
            known(self.events),
        ensures
            set@ == self.events,
    {
        EventSet::from_bits(self.events()).unwrap()
    }

    /// Returns the user data value.
    pub fn data(&self) -> (data: u64)
        ensures
            data == self.u64,
    {
        self.u64
    }

    /// Converts the data to a raw file descriptor.
    ///
    /// This conversion is lossy when the data does not correspond to one: it keeps the
    /// lower half of the data.
    pub fn fd(&self) -> (fd: i32)
        ensures
            fd == self.u64 as i32,
            fd >= 0 ==> fd == self.u64 % 0x1_0000_0000,
            fd < 0 ==> fd + 0x1_0000_0000 == self.u64 % 0x1_0000_0000,
    {
        proof {
            let data = self.u64;
            assert((data as i32 >= 0 ==> data as i32 == data % 0x1_0000_0000) && ((data as i32) < 0
                ==> data as i32 + 0x1_0000_0000 == data % 0x1_0000_0000)) by (bit_vector);
        }
        self.u64 as i32
    }

    /// The text that describes an event.
    pub open spec fn debug_text_spec(self) -> Seq<char> {
        "{ events: "@ + decimal(self.events as nat) + ", data: "@
            + decimal(self.u64 as nat) + " }"@
    }

    /// Returns a text that describes the event.
    pub fn debug_text(&self) -> (text: String)
        ensures
            text@ == self.debug_text_spec(),
    {
        let mut text = String::from_str("{ events: ");
        append_decimal(&mut text, self.events() as u64);
        text.append(", data: ");
        append_decimal(&mut text, self.data());
        text.append(" }");
        text
    }
}

/// The descriptor that went into an event as its user data comes out of it again.
pub proof fn law_descriptor_round_trip(events: u32, fd: i32)
    ensures
        (EpollEvent { events, u64: fd as u64 }).u64 as i32 == fd,
{
    assert((fd as u64) as i32 == fd) by (bit_vector);
}

/// The text of an event holds its mask and its user data, in this order, as they are written.
pub proof fn law_event_text(event: EpollEvent)
    ensures
        exists|events: Seq<char>, data: Seq<char>|
            #[trigger] writes(events, event.events as nat) && #[trigger] writes(
                data,
                event.u64 as nat,
            ) && event.debug_text_spec() == "{ events: "@ + events + ", data: "@ + data + " }"@,
{
    law_decimal(event.events as nat);
    law_decimal(event.u64 as nat);
    assert(writes(decimal(event.events as nat), event.events as nat));
    assert(writes(decimal(event.u64 as nat), event.u64 as nat));
}

} // verus!
