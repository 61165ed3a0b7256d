//! The early variable-stride packet buffers.

use aether::buffer::{PacketBuffer, RecvPacketBuffer, BUF_SIZE};

#[test]
fn recv_buffer_starts_empty() {
    let buf = RecvPacketBuffer::new();
    assert!(!buf.has_packets());
    assert_eq!(buf.set_as_buffer(), 0);
}

#[test]
fn recv_buffer_round_trip() {
    let mut buf = RecvPacketBuffer::new();
    // The DMA engine stores the length byte first, then the frame.
    let raw = [5u8, 0xa, 0xb, 0xc, 0xd];
    buf.fill_at(0, &raw);
    buf.got_packet();
    assert!(buf.has_packets());
    let frame = buf.read();
    // The length byte and the trailing checksum byte are stripped.
    assert_eq!(frame, vec![0xa, 0xb, 0xc]);
    assert!(!buf.has_packets());
}

#[test]
fn recv_buffer_ignores_tiny_frames() {
    let mut buf = RecvPacketBuffer::new();
    buf.fill_at(0, &[2u8, 0xa]);
    buf.got_packet();
    assert!(!buf.has_packets());
}

#[test]
fn recv_buffer_read_offset_wraps_near_the_end() {
    // A frame near the end of the byte ring: after reading it, the
    // next maximum-size packet would no longer fit, so the read
    // offset wraps back to the start.
    let start = BUF_SIZE - 168;
    let mut with_offset = RecvPacketBuffer::new();
    with_offset.fill_at(start, &[5u8, 1, 2, 3, 9]);
    with_offset.read_packet = start;
    let frame = with_offset.read();
    assert_eq!(frame, vec![1, 2, 3]);
    assert_eq!(with_offset.read_packet, 0);
}

#[test]
fn packet_buffer_write_then_read() {
    let mut buf = PacketBuffer::new();
    buf.write(&[1, 2, 3, 4]);
    assert_eq!(buf.data[0], 6);
    buf.mark_completed();
    let frame = buf.read();
    assert_eq!(frame, vec![1, 2, 3, 4]);
    assert_eq!(buf.completed, 0);
}
