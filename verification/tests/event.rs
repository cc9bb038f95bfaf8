//! Events and sets of event flags.

use macos_epoll::epoll::{EpollEvent, EventSet};
use macos_epoll::event_set::ALL_BITS;

/// Shows an event as a debug formatter would.
struct Shown(EpollEvent);

impl std::fmt::Debug for Shown {
    fn fmt(&self, f: &mut std::fmt::Formatter<'_>) -> std::fmt::Result {
        f.write_str(&self.0.debug_text())
    }
}

/// Compares a set as the set and shows it as a debug formatter would.
#[derive(PartialEq)]
struct Flags(EventSet);

impl std::fmt::Debug for Flags {
    fn fmt(&self, f: &mut std::fmt::Formatter<'_>) -> std::fmt::Result {
        f.write_str(&self.0.debug_text())
    }
}

#[test]
fn test_event_ops() {
    let mut event = EpollEvent::default();
    assert_eq!(event.events(), 0);
    assert_eq!(event.data(), 0);

    event = EpollEvent::new(EventSet::IN(), 2);
    assert_eq!(event.events(), EventSet::IN().bits());
    assert_eq!(Flags(event.event_set()), Flags(EventSet::IN()));

    assert_eq!(event.data(), 2);
    assert_eq!(event.fd(), 2);
}

#[test]
fn test_events_debug() {
    let events = EpollEvent::new(EventSet::IN(), 42);
    assert_eq!(format!("{:?}", Shown(events)), "{ events: 1, data: 42 }")
}

#[test]
fn debug_text_of_largest_and_smallest_numbers() {
    let largest = EpollEvent { events: u32::MAX, u64: u64::MAX };
    assert_eq!(
        largest.debug_text(),
        "{ events: 4294967295, data: 18446744073709551615 }"
    );
    assert_eq!(EpollEvent::default().debug_text(), "{ events: 0, data: 0 }");
    let tens = EpollEvent { events: 10, u64: 100_200 };
    assert_eq!(tens.debug_text(), "{ events: 10, data: 100200 }");
}

#[test]
fn descriptor_in_user_data_round_trip() {
    for fd in [0, 1, 77, i32::MAX, -1, i32::MIN] {
        assert_eq!(EpollEvent::new(EventSet::empty(), fd as u64).fd(), fd);
    }
    assert_eq!(EpollEvent { events: 0, u64: 0x5_0000_0007 }.fd(), 7);
    assert_eq!(EpollEvent { events: 0, u64: 0x5_8000_0000 }.fd(), i32::MIN);
}

#[test]
fn flags_have_the_bits_of_the_linux_api() {
    assert_eq!(EventSet::IN().bits(), 0x001);
    assert_eq!(EventSet::OUT().bits(), 0x004);
    assert_eq!(EventSet::ERROR().bits(), 0x008);
    assert_eq!(EventSet::READ_HANG_UP().bits(), 0x2000);
    assert_eq!(EventSet::EDGE_TRIGGERED().bits(), 1 << 31);
    assert_eq!(EventSet::HANG_UP().bits(), 0x010);
    assert_eq!(EventSet::PRIORITY().bits(), 0x002);
    assert_eq!(EventSet::WAKE_UP().bits(), 1 << 29);
    assert_eq!(EventSet::ONE_SHOT().bits(), 1 << 30);
    assert_eq!(EventSet::EXCLUSIVE().bits(), 1 << 28);
    let all = EventSet::IN() | EventSet::OUT() | EventSet::ERROR() | EventSet::READ_HANG_UP()
        | EventSet::EDGE_TRIGGERED() | EventSet::HANG_UP() | EventSet::PRIORITY()
        | EventSet::WAKE_UP() | EventSet::ONE_SHOT() | EventSet::EXCLUSIVE();
    assert_eq!(Flags(all), Flags(EventSet::all()));
    assert_eq!(all.bits(), ALL_BITS);
}

#[test]
fn a_mask_with_a_bit_of_no_flag_is_no_set() {
    for i in 0..32 {
        let bit: u32 = 1 << i;
        let set = EventSet::from_bits(bit);
        assert_eq!(set.is_some(), ALL_BITS & bit != 0);
        if let Some(set) = set {
            assert_eq!(set.bits(), bit);
        }
    }
    assert_eq!(EventSet::from_bits(0x20 | 0x1).map(Flags), None);
    assert_eq!(EventSet::from_bits(0).map(Flags), Some(Flags(EventSet::empty())));
}

#[test]
fn a_union_contains_its_parts() {
    let mut set = EventSet::empty();
    assert!(set.is_empty());
    set.insert(EventSet::IN());
    set.insert(EventSet::OUT());
    assert_eq!(Flags(set), Flags(EventSet::IN() | EventSet::OUT()));
    assert_eq!(set.bits(), 0x5);
    assert!(!set.is_empty());
    assert!(set.contains(EventSet::IN()));
    assert!(set.contains(EventSet::OUT()));
    assert!(set.contains(EventSet::IN() | EventSet::OUT()));
    assert!(set.contains(EventSet::empty()));
    assert!(!set.contains(EventSet::IN() | EventSet::ERROR()));
    assert_eq!(EventSet::from_bits(set.bits()).map(Flags), Some(Flags(set)));
    assert_eq!(Flags(EpollEvent::new(set, 9).event_set()), Flags(set));
}

#[test]
fn sets_are_combined_flag_by_flag() {
    let read = EventSet::IN() | EventSet::READ_HANG_UP();
    let both = EventSet::IN() | EventSet::OUT();
    assert_eq!((read & both).bits(), 0x1);
    assert_eq!((read - both).bits(), 0x2000);
    assert_eq!((read ^ both).bits(), 0x2004);
    assert_eq!((!both).bits(), ALL_BITS & !0x5);
    assert_eq!(Flags(!!both), Flags(both));
    assert_eq!(Flags(both | !both), Flags(EventSet::all()));
    assert!(read.intersects(both));
    assert!(!EventSet::OUT().intersects(read));
    assert!((!EventSet::empty()).is_all());
    assert!(!both.is_all());
    assert_eq!(Flags(EventSet::from_bits_truncate(0x21)), Flags(EventSet::IN()));
    assert_eq!(Flags(EventSet::from_bits_truncate(u32::MAX)), Flags(EventSet::all()));
}

#[test]
fn sets_are_changed_in_place() {
    let mut set = EventSet::IN() | EventSet::OUT();
    set.remove(EventSet::OUT() | EventSet::ERROR());
    assert_eq!(Flags(set), Flags(EventSet::IN()));
    set.toggle(EventSet::IN() | EventSet::ERROR());
    assert_eq!(Flags(set), Flags(EventSet::ERROR()));
    set.toggle(EventSet::IN() | EventSet::ERROR());
    assert_eq!(Flags(set), Flags(EventSet::IN()));
    set.set(EventSet::OUT(), true);
    assert_eq!(set.bits(), 0x5);
    set.set(EventSet::IN(), false);
    assert_eq!(Flags(set), Flags(EventSet::OUT()));
}

#[test]
fn a_set_is_described_by_the_names_of_its_flags() {
    assert_eq!(EventSet::empty().debug_text(), "(empty)");
    assert_eq!(EventSet::IN().debug_text(), "IN");
    assert_eq!(EventSet::EXCLUSIVE().debug_text(), "EXCLUSIVE");
    assert_eq!((EventSet::OUT() | EventSet::IN()).debug_text(), "IN | OUT");
    assert_eq!(
        EventSet::all().debug_text(),
        "IN | OUT | ERROR | READ_HANG_UP | EDGE_TRIGGERED | HANG_UP | PRIORITY | WAKE_UP \
         | ONE_SHOT | EXCLUSIVE"
    );
}
