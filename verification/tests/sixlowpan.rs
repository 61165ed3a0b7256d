//! Fragmentation, reassembly, and the reassembly timeout.

use aether::net::Ieee802154Address;
use aether::sixlowpan::{
    fragment_datagram, parse_fragment, FragKey, Fragment, ReassemblyCache, LINK_MTU,
    REASSEMBLY_TIMEOUT_MS,
};

fn key(tag: u16, size: u16) -> FragKey {
    FragKey {
        src: Ieee802154Address([1; 8]),
        dst: Ieee802154Address([2; 8]),
        size,
        tag,
    }
}

#[test]
fn small_datagram_is_not_fragmented() {
    let payload = [9u8; 40];
    let frames = fragment_datagram(&payload, 7, 96);
    assert_eq!(frames.len(), 1);
    assert_eq!(frames[0], payload.to_vec());
}

#[test]
fn fragment_headers_round_trip() {
    let payload: Vec<u8> = (0..200u16).map(|b| b as u8).collect();
    let frames = fragment_datagram(&payload, 0x1234, 96);
    assert_eq!(frames.len(), 3);

    match parse_fragment(&frames[0]) {
        Fragment::First { size, tag, payload: head } => {
            assert_eq!(size, 200);
            assert_eq!(tag, 0x1234);
            assert_eq!(head, payload[..96].to_vec());
        },
        other => panic!("expected a first fragment, got {:?}", other),
    }
    match parse_fragment(&frames[1]) {
        Fragment::Later { size, tag, offset_units, payload: chunk } => {
            assert_eq!(size, 200);
            assert_eq!(tag, 0x1234);
            assert_eq!(offset_units, 12);
            assert_eq!(chunk, payload[96..192].to_vec());
        },
        other => panic!("expected a later fragment, got {:?}", other),
    }
    match parse_fragment(&frames[2]) {
        Fragment::Later { offset_units, payload: chunk, .. } => {
            assert_eq!(offset_units, 24);
            assert_eq!(chunk, payload[192..].to_vec());
        },
        other => panic!("expected a later fragment, got {:?}", other),
    }
}

#[test]
fn unfragmented_frame_is_classified_as_such() {
    assert!(matches!(parse_fragment(&[0x60, 1, 2, 3, 4, 5]), Fragment::NotFragmented));
    assert!(matches!(parse_fragment(&[]), Fragment::NotFragmented));
}

#[test]
fn fragmented_inbound_reassembles_whole_payload() {
    // A 400-byte datagram arrives in fragments; the assembler
    // delivers one coherent 400-byte payload.
    let payload: Vec<u8> = (0..400u16).map(|b| (b % 251) as u8).collect();
    let frames = fragment_datagram(&payload, 0xbeef, 96);
    assert!(frames.len() > 1);

    let mut cache = ReassemblyCache::new();
    let k = key(0xbeef, 400);
    let mut delivered = None;
    let mut offset = 0usize;
    for (n, frame) in frames.iter().enumerate() {
        let (chunk, at) = match parse_fragment(frame) {
            Fragment::First { payload, .. } => (payload, 0usize),
            Fragment::Later { payload, offset_units, .. } => {
                (payload, offset_units as usize * 8)
            },
            Fragment::NotFragmented => panic!("fragment expected"),
        };
        assert_eq!(at, offset);
        let r = cache.accept_fragment(k, at, &chunk, 10);
        offset += chunk.len();
        if n + 1 < frames.len() {
            assert!(r.is_none(), "no partial delivery");
        } else {
            delivered = r;
        }
    }
    assert_eq!(delivered.expect("complete datagram"), payload);
}

#[test]
fn out_of_order_fragments_still_assemble() {
    let payload: Vec<u8> = (0..250u16).map(|b| b as u8).collect();
    let k = key(5, 250);
    let mut cache = ReassemblyCache::new();
    assert!(cache.accept_fragment(k, 96, &payload[96..192], 0).is_none());
    assert!(cache.accept_fragment(k, 0, &payload[..96], 1).is_none());
    let out = cache.accept_fragment(k, 192, &payload[192..], 2);
    assert_eq!(out.unwrap(), payload);
}

#[test]
fn reassembly_timeout_frees_slot_without_delivery() {
    // Fragments one and two of three arrive; the third never does.
    // After the timeout the slot is reclaimed, nothing was ever
    // delivered, and a later datagram succeeds.
    let payload: Vec<u8> = (0..288u16).map(|b| b as u8).collect();
    let k = key(0x77, 288);
    let mut cache = ReassemblyCache::new();
    assert!(cache.accept_fragment(k, 0, &payload[..96], 0).is_none());
    assert!(cache.accept_fragment(k, 96, &payload[96..192], 100).is_none());

    cache.expire(REASSEMBLY_TIMEOUT_MS);
    // The slot is free again: the stale tag no longer matches any
    // partial state, and even the final fragment alone produces
    // nothing.
    assert!(cache.accept_fragment(k, 192, &payload[192..], 1001).is_none());
    cache.expire(1001 + REASSEMBLY_TIMEOUT_MS);

    // A fresh, complete datagram on the same pair still assembles.
    let fresh: Vec<u8> = (0..160u8).collect();
    let k2 = key(0x78, 160);
    assert!(cache.accept_fragment(k2, 0, &fresh[..96], 2500).is_none());
    let out = cache.accept_fragment(k2, 96, &fresh[96..], 2510);
    assert_eq!(out.unwrap(), fresh);
}

#[test]
fn expire_before_timeout_keeps_fragments() {
    let payload: Vec<u8> = (0..160u8).collect();
    let k = key(9, 160);
    let mut cache = ReassemblyCache::new();
    assert!(cache.accept_fragment(k, 0, &payload[..96], 0).is_none());
    cache.expire(REASSEMBLY_TIMEOUT_MS - 1);
    let out = cache.accept_fragment(k, 96, &payload[96..], 999);
    assert_eq!(out.unwrap(), payload);
}

#[test]
fn interleaved_datagrams_use_separate_slots() {
    let a: Vec<u8> = vec![0xaa; 160];
    let b: Vec<u8> = vec![0xbb; 160];
    let ka = key(1, 160);
    let kb = key(2, 160);
    let mut cache = ReassemblyCache::new();
    assert!(cache.accept_fragment(ka, 0, &a[..96], 0).is_none());
    assert!(cache.accept_fragment(kb, 0, &b[..96], 0).is_none());
    assert_eq!(cache.accept_fragment(kb, 96, &b[96..], 1).unwrap(), b);
    assert_eq!(cache.accept_fragment(ka, 96, &a[96..], 1).unwrap(), a);
}

#[test]
fn cache_drops_fragments_when_all_slots_busy() {
    let mut cache = ReassemblyCache::new();
    for tag in 0..4u16 {
        let k = key(tag, 160);
        assert!(cache.accept_fragment(k, 0, &[0; 96], 0).is_none());
    }
    // A fifth datagram finds no slot and is dropped silently.
    let k = key(99, 160);
    assert!(cache.accept_fragment(k, 0, &[1; 96], 0).is_none());
    let out = cache.accept_fragment(k, 96, &[1; 64], 1);
    assert!(out.is_none());
}

#[test]
fn link_mtu_bounds_the_datagram() {
    let payload = vec![3u8; LINK_MTU];
    let frames = fragment_datagram(&payload, 1, 120);
    let total: usize = frames
        .iter()
        .map(|f| match parse_fragment(f) {
            Fragment::First { payload, .. } => payload.len(),
            Fragment::Later { payload, .. } => payload.len(),
            Fragment::NotFragmented => 0,
        })
        .sum();
    assert_eq!(total, LINK_MTU);
}
