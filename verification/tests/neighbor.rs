//! The neighbor cache: lookup, learning, and the fixed capacity.

use aether::neighbor::{NeighborCache, NEIGHBOR_CACHE_CAP};
use aether::net::{Ieee802154Address, Ipv6Address};

fn ip(tail: u8) -> Ipv6Address {
    let mut bytes = [0u8; 16];
    bytes[0] = 0xfd;
    bytes[15] = tail;
    Ipv6Address(bytes)
}

fn hw(tail: u8) -> Ieee802154Address {
    Ieee802154Address([0, 0, 0, 0, 0, 0, 0, tail])
}

#[test]
fn empty_cache_knows_nobody() {
    let cache = NeighborCache::new();
    assert!(cache.lookup(&ip(1)).is_none());
}

#[test]
fn learned_neighbors_are_found() {
    let mut cache = NeighborCache::new();
    assert!(cache.fill(ip(1), hw(0x11)));
    assert!(cache.fill(ip(2), hw(0x22)));
    assert_eq!(cache.lookup(&ip(1)), Some(hw(0x11)));
    assert_eq!(cache.lookup(&ip(2)), Some(hw(0x22)));
    assert!(cache.lookup(&ip(3)).is_none());
}

#[test]
fn known_neighbor_is_updated_in_place() {
    let mut cache = NeighborCache::new();
    assert!(cache.fill(ip(1), hw(0x11)));
    assert!(cache.fill(ip(1), hw(0x99)));
    assert_eq!(cache.lookup(&ip(1)), Some(hw(0x99)));
}

#[test]
fn full_cache_rejects_new_neighbors() {
    let mut cache = NeighborCache::new();
    for tail in 0..NEIGHBOR_CACHE_CAP as u8 {
        assert!(cache.fill(ip(tail), hw(tail)));
    }
    assert!(!cache.fill(ip(0x77), hw(0x77)));
    // Forgetting one frees its slot for the newcomer.
    assert!(cache.forget(&ip(0)));
    assert!(cache.lookup(&ip(0)).is_none());
    assert!(cache.fill(ip(0x77), hw(0x77)));
    assert_eq!(cache.lookup(&ip(0x77)), Some(hw(0x77)));
}
