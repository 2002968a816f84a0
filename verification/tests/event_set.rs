//! Sets of event flags.

use macos_shims::event_set::EventSet;

fn flags() -> Vec<(EventSet, u32)> {
    vec![
        (EventSet::IN(), 0x001),
        (EventSet::PRIORITY(), 0x002),
        (EventSet::OUT(), 0x004),
        (EventSet::ERROR(), 0x008),
        (EventSet::HANG_UP(), 0x010),
        (EventSet::READ_HANG_UP(), 0x2000),
        (EventSet::EXCLUSIVE(), 1 << 28),
        (EventSet::WAKE_UP(), 1 << 29),
        (EventSet::ONE_SHOT(), 1 << 30),
        (EventSet::EDGE_TRIGGERED(), 1 << 31),
    ]
}

#[test]
fn flags_have_the_bits_of_epoll() {
    let mut union = EventSet::empty();
    for (flag, bits) in flags() {
        assert_eq!(flag.bits(), bits);
        assert!(!union.intersects(flag));
        union.insert(flag);
    }
    assert!(union == EventSet::all());
    assert_eq!(union.bits(), 0xf000_201f);
}

#[test]
fn from_bits_takes_flags_only() {
    for (flag, bits) in flags() {
        assert!(EventSet::from_bits(bits) == Some(flag));
        assert!(EventSet::from_bits(bits | 0x20).is_none());
        assert!(EventSet::from_bits_truncate(bits | 0x20) == flag);
    }
    assert!(EventSet::from_bits(0) == Some(EventSet::empty()));
    assert!(EventSet::from_bits(u32::MAX).is_none());
    assert!(EventSet::from_bits_truncate(u32::MAX) == EventSet::all());
}

#[test]
fn contains_and_intersects() {
    let both = EventSet::IN() | EventSet::OUT();
    assert!(both.contains(EventSet::IN()));
    assert!(both.contains(both));
    assert!(both.contains(EventSet::empty()));
    assert!(!both.contains(EventSet::IN() | EventSet::ERROR()));
    assert!(both.intersects(EventSet::IN() | EventSet::ERROR()));
    assert!(!both.intersects(EventSet::ERROR()));
    assert!(!EventSet::empty().intersects(EventSet::empty()));
}

#[test]
fn empty_and_all() {
    assert!(EventSet::empty().is_empty());
    assert!(!EventSet::IN().is_empty());
    assert!(EventSet::all().is_all());
    assert!(!EventSet::IN().is_all());
    assert!(!EventSet::empty() == EventSet::all());
}

#[test]
fn set_algebra() {
    let a = EventSet::IN() | EventSet::OUT();
    let b = EventSet::OUT() | EventSet::ERROR();
    assert!(a & b == EventSet::OUT());
    assert!(a - b == EventSet::IN());
    assert!(a ^ b == EventSet::IN() | EventSet::ERROR());
    assert!(a.union(b) == a | b);
    assert!(a.intersection(b) == a & b);
    assert!(a.difference(b) == a - b);
    assert!(a.symmetric_difference(b) == a ^ b);
    assert_eq!(a.complement().bits(), 0xf000_201a);
    assert!(a.complement() == !a);
}

#[test]
fn changes_in_place() {
    let mut set = EventSet::IN();
    set.insert(EventSet::OUT());
    assert_eq!(set.bits(), 0x5);
    set.remove(EventSet::IN());
    assert_eq!(set.bits(), 0x4);
    set.toggle(EventSet::IN() | EventSet::OUT());
    assert_eq!(set.bits(), 0x1);
    set.set(EventSet::ERROR(), true);
    assert_eq!(set.bits(), 0x9);
    set.set(EventSet::IN(), false);
    assert_eq!(set.bits(), 0x8);
    set |= EventSet::IN() | EventSet::OUT();
    assert_eq!(set.bits(), 0xd);
    set &= EventSet::IN() | EventSet::ERROR() | EventSet::PRIORITY();
    assert_eq!(set.bits(), 0x9);
    set ^= EventSet::IN() | EventSet::PRIORITY();
    assert_eq!(set.bits(), 0xa);
    set -= EventSet::ERROR() | EventSet::OUT();
    assert_eq!(set.bits(), 0x2);
}
