use recv_buffer::seq_number::{HALF_RANGE, MODULUS};
use recv_buffer::{PacketLocation, SeqNumber};

#[test]
fn seq_number_is_reduced_to_31_bits() {
    assert_eq!(MODULUS, 1 << 31);
    assert_eq!(HALF_RANGE, 1 << 30);
    assert_eq!(SeqNumber::new(5).as_raw(), 5);
    assert_eq!(SeqNumber::new(0x7FFF_FFFF).as_raw(), 0x7FFF_FFFF);
    assert_eq!(SeqNumber::new(0x8000_0000).as_raw(), 0);
    assert_eq!(SeqNumber::new(0x8000_0005), SeqNumber::new(5));
    assert_eq!(SeqNumber::new(u32::MAX).as_raw(), 0x7FFF_FFFF);
}

#[test]
fn seq_number_distance() {
    assert_eq!(SeqNumber::new(7).distance_from(SeqNumber::new(5)), 2);
    assert_eq!(SeqNumber::new(5).distance_from(SeqNumber::new(5)), 0);
    assert_eq!(SeqNumber::new(5).distance_from(SeqNumber::new(7)), 0x7FFF_FFFE);
    assert_eq!(SeqNumber::new(1).distance_from(SeqNumber::new(0x7FFF_FFFF)), 2);
    assert_eq!(SeqNumber::new(0x7FFF_FFFF).distance_from(SeqNumber::new(0)), 0x7FFF_FFFF);
}

#[test]
fn seq_number_order() {
    assert!(SeqNumber::new(4).precedes(SeqNumber::new(5)));
    assert!(!SeqNumber::new(5).precedes(SeqNumber::new(5)));
    assert!(!SeqNumber::new(6).precedes(SeqNumber::new(5)));
    assert!(SeqNumber::new(0x7FFF_FFFF).precedes(SeqNumber::new(0)));
    assert!(!SeqNumber::new(0).precedes(SeqNumber::new(0x7FFF_FFFF)));
    // exactly half way round still counts as in front
    assert!(!SeqNumber::new(0x4000_0000).precedes(SeqNumber::new(0)));
    assert!(SeqNumber::new(0x4000_0001).precedes(SeqNumber::new(0)));
    assert!(!SeqNumber::new(0x4000_0005).precedes(SeqNumber::new(5)));
    assert!(SeqNumber::new(0x4000_0006).precedes(SeqNumber::new(5)));
}

#[test]
fn seq_number_advance() {
    assert_eq!(SeqNumber::new(5).advance(3), SeqNumber::new(8));
    assert_eq!(SeqNumber::new(5).advance(0), SeqNumber::new(5));
    assert_eq!(SeqNumber::new(0x7FFF_FFFF).advance(1), SeqNumber::new(0));
    assert_eq!(SeqNumber::new(0x7FFF_FFFE).advance(5), SeqNumber::new(3));
    assert_eq!(SeqNumber::new(7).advance(0x8000_0000), SeqNumber::new(7));
    assert_eq!(SeqNumber::new(7).advance(u32::MAX), SeqNumber::new(6));
    assert_eq!(SeqNumber::new(9).advance(4).distance_from(SeqNumber::new(9)), 4);
}

#[test]
fn packet_location_marks() {
    assert_eq!(PacketLocation::FIRST, PacketLocation::First);
    assert_eq!(PacketLocation::LAST, PacketLocation::Last);
    assert_eq!(PacketLocation::empty(), PacketLocation::Middle);
    assert_eq!(PacketLocation::FIRST | PacketLocation::LAST, PacketLocation::Only);
    assert_eq!(PacketLocation::LAST | PacketLocation::FIRST, PacketLocation::Only);
    assert_eq!(PacketLocation::FIRST | PacketLocation::FIRST, PacketLocation::First);
    assert_eq!(PacketLocation::empty() | PacketLocation::LAST, PacketLocation::Last);
    assert_eq!(PacketLocation::empty().union(PacketLocation::empty()), PacketLocation::Middle);
    assert_eq!(PacketLocation::Only.union(PacketLocation::Middle), PacketLocation::Only);
}

#[test]
fn packet_location_contains() {
    let all = [
        PacketLocation::Middle,
        PacketLocation::Last,
        PacketLocation::First,
        PacketLocation::Only,
    ];
    for loc in all {
        assert!(loc.contains(PacketLocation::empty()));
        assert!(PacketLocation::Only.contains(loc));
        assert!(loc.contains(loc));
        assert_eq!(loc.contains(PacketLocation::FIRST), loc.has_first());
        assert_eq!(loc.contains(PacketLocation::LAST), loc.has_last());
    }
    assert!(PacketLocation::First.has_first());
    assert!(!PacketLocation::First.has_last());
    assert!(PacketLocation::Last.has_last());
    assert!(!PacketLocation::Last.has_first());
    assert!(PacketLocation::Only.has_first() && PacketLocation::Only.has_last());
    assert!(!PacketLocation::Middle.has_first() && !PacketLocation::Middle.has_last());
    assert!(!PacketLocation::First.contains(PacketLocation::Only));
    assert!(!PacketLocation::Middle.contains(PacketLocation::LAST));
}
