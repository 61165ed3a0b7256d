//! Ring buffer behavior: counters, capacity boundaries, frame
//! round-trips and arrival order.

use aether::ring::{mask, RingBufferRx, RingBufferTx, MAX_TX_PAYLOAD, PACKET_SIZE};

fn raw_slot(payload: &[u8]) -> Vec<u8> {
    let mut slot = vec![0u8; PACKET_SIZE];
    slot[0] = (payload.len() + 2) as u8;
    slot[1..1 + payload.len()].copy_from_slice(payload);
    slot
}

#[test]
fn mask_reduces_modulo_capacity() {
    assert_eq!(mask(16, 0), 0);
    assert_eq!(mask(16, 15), 15);
    assert_eq!(mask(16, 16), 0);
    assert_eq!(mask(16, 35), 3);
    assert_eq!(mask(8, 9), 1);
}

#[test]
fn tx_ring_starts_empty() {
    let ring = RingBufferTx::new(8);
    assert!(ring.is_empty());
    assert!(!ring.is_full());
    assert_eq!(ring.len(), 0);
}

#[test]
fn tx_ring_write_then_send_round_trip() {
    let mut ring = RingBufferTx::new(8);
    ring.write(&[1, 2, 3]);
    assert_eq!(ring.len(), 1);
    assert!(!ring.is_empty());
    let idx = ring.set_as_buffer();
    assert_eq!(idx, 0);
    ring.sent_packet();
    assert!(ring.is_empty());
}

#[test]
fn tx_ring_fills_at_capacity() {
    let mut ring = RingBufferTx::new(4);
    for i in 0..3 {
        ring.write(&[i as u8]);
        assert!(!ring.is_full());
    }
    // Capacity minus one, then one more write: the next check reports
    // full.
    ring.write(&[9]);
    assert!(ring.is_full());
    assert_eq!(ring.len(), 4);
}

#[test]
fn tx_ring_wraps_around() {
    let mut ring = RingBufferTx::new(2);
    ring.write(&[1]);
    ring.write(&[2]);
    ring.sent_packet();
    ring.sent_packet();
    ring.write(&[3]);
    assert_eq!(ring.len(), 1);
    // Counters keep running; the slot index wraps.
    assert_eq!(ring.set_as_buffer(), 0);
}

#[test]
fn rx_ring_commit_and_read_returns_frame() {
    let mut ring = RingBufferRx::new(8);
    assert!(ring.is_empty());
    let payload = [0xaa, 0xbb, 0xcc];
    ring.fill_write_slot(&raw_slot(&payload));
    ring.got_packet();
    assert_eq!(ring.len(), 1);
    let frame = ring.read().expect("one committed frame");
    assert_eq!(frame, payload.to_vec());
    assert!(ring.is_empty());
    assert!(ring.read().is_none());
}

#[test]
fn rx_ring_preserves_arrival_order() {
    let mut ring = RingBufferRx::new(4);
    for b in [1u8, 2, 3] {
        ring.fill_write_slot(&raw_slot(&[b, b]));
        ring.got_packet();
    }
    assert_eq!(ring.read().unwrap(), vec![1, 1]);
    assert_eq!(ring.read().unwrap(), vec![2, 2]);
    assert_eq!(ring.read().unwrap(), vec![3, 3]);
}

#[test]
fn largest_frame_travels_unchanged() {
    // A frame of the full 127-octet length: 125 payload bytes plus
    // the length byte and the checksum byte the hardware appends.
    let payload: Vec<u8> = (0..MAX_TX_PAYLOAD as u8).map(|b| b ^ 0x5a).collect();
    let mut tx = RingBufferTx::new(2);
    tx.write(&payload);
    assert_eq!(tx.set_as_buffer(), 0);

    let mut rx = RingBufferRx::new(2);
    rx.fill_write_slot(&raw_slot(&payload));
    rx.got_packet();
    assert_eq!(rx.read().unwrap(), payload);
}
