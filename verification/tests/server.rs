//! The socket server: ownership, the socket operations, the polling
//! events, and the end-to-end echo scenarios.

use aether::net::{AetherError, Ieee802154Address, Ipv6Address, TcpMetadata, UdpMetadata};
use aether::server::{AetherServer, RequestError, RADIO_IRQ, TIMER_MASK};
use aether::socket::{
    construct_sockets, SocketName, SOCKET_NOTIFICATION, TASK_ECHO, TASK_MDNS, TASK_PING,
    TASK_THROUGHPUT,
};

fn server() -> AetherServer {
    let mut latch = false;
    let table = construct_sockets(&mut latch).expect("first construction");
    AetherServer::new(table, Ieee802154Address([1, 2, 3, 4, 5, 6, 7, 8]))
}

fn peer() -> Ipv6Address {
    Ipv6Address([0xfd, 0, 0x1e, 0xaf, 0, 0, 0, 0, 0, 0, 0, 0, 0, 0, 0, 0x42])
}

#[test]
fn constructor_latch_is_one_shot() {
    let mut latch = false;
    assert!(construct_sockets(&mut latch).is_some());
    assert!(latch);
    assert!(construct_sockets(&mut latch).is_none());
}

#[test]
fn non_owner_gets_wrong_owner_on_every_operation() {
    let mut s = server();
    let intruder = 77;
    let meta = UdpMetadata { addr: peer(), port: 8, payload_len: 1 };
    let wrong = Err(RequestError::Runtime(AetherError::WrongOwner));
    assert_eq!(s.recv_udp_packet(intruder, SocketName::ping, 64).err(), wrong.clone().err());
    assert_eq!(s.send_udp_packet(intruder, SocketName::ping, meta, &[1]), wrong);
    assert_eq!(s.tcp_listen(intruder, SocketName::echo, 7), wrong);
    assert_eq!(
        s.tcp_connect(intruder, SocketName::mqtt, TcpMetadata { addr: peer(), port: 1883 }, 9),
        wrong
    );
    assert_eq!(s.close_tcp(intruder, SocketName::echo), wrong);
    assert_eq!(s.is_tcp_active(intruder, SocketName::echo).err(), wrong.err());
    assert_eq!(s.send_tcp_data(intruder, SocketName::echo, &[1]).err(), wrong.err());
    assert_eq!(s.recv_tcp_data(intruder, SocketName::echo, 64).err(), wrong.err());
}

#[test]
fn owner_table_never_changes() {
    let mut s = server();
    let owners_before = s.owners.clone();
    let meta = UdpMetadata { addr: peer(), port: 8, payload_len: 3 };
    let _ = s.send_udp_packet(TASK_PING, SocketName::ping, meta, &[1, 2, 3]);
    let _ = s.tcp_listen(TASK_ECHO, SocketName::echo, 7);
    let _ = s.udp_datagram_arrived(SocketName::ping, meta, &[1, 2, 3]);
    let _ = s.recv_udp_packet(TASK_PING, SocketName::ping, 64);
    assert_eq!(s.owners, owners_before);
}

#[test]
fn udp_on_tcp_socket_is_wrong_socket_type() {
    let mut s = server();
    let r = s.recv_udp_packet(TASK_ECHO, SocketName::echo, 64);
    assert_eq!(r.err(), Some(RequestError::Runtime(AetherError::WrongSocketType)));
    let r = s.tcp_listen(TASK_PING, SocketName::ping, 7);
    assert_eq!(r, Err(RequestError::Runtime(AetherError::WrongSocketType)));
}

#[test]
fn empty_udp_payload_is_rejected_not_fatal() {
    let mut s = server();
    let meta = UdpMetadata { addr: peer(), port: 8, payload_len: 0 };
    let r = s.send_udp_packet(TASK_PING, SocketName::ping, meta, &[]);
    assert_eq!(r, Err(RequestError::BadLease));
}

#[test]
fn udp_recv_on_empty_queue_is_queue_empty() {
    let mut s = server();
    let r = s.recv_udp_packet(TASK_PING, SocketName::ping, 64);
    assert_eq!(r.err(), Some(RequestError::Runtime(AetherError::QueueEmpty)));
}

#[test]
fn udp_send_queue_full_marks_client_waiting() {
    let mut s = server();
    let meta = UdpMetadata { addr: peer(), port: 8, payload_len: 1 };
    for _ in 0..8 {
        s.send_udp_packet(TASK_PING, SocketName::ping, meta, &[9]).unwrap();
    }
    let r = s.send_udp_packet(TASK_PING, SocketName::ping, meta, &[9]);
    assert_eq!(r, Err(RequestError::Runtime(AetherError::QueueFull)));
    // The interface drains one datagram; the owner is then on the
    // wake list because it waits to send.
    s.take_udp_outbound(SocketName::ping).unwrap();
    let woken = s.wake_sockets();
    assert!(woken.contains(&(TASK_PING, SOCKET_NOTIFICATION)));
}

#[test]
fn udp_round_trip_preserves_metadata_and_bytes() {
    let mut s = server();
    let body = [0xde, 0xad, 0xbe, 0xef];
    let meta = UdpMetadata { addr: peer(), port: 8, payload_len: 4 };
    s.send_udp_packet(TASK_PING, SocketName::ping, meta, &body).unwrap();
    let (out_meta, out_body) = s.take_udp_outbound(SocketName::ping).unwrap();
    assert_eq!(out_meta.addr, meta.addr);
    assert_eq!(out_meta.port, 8);
    assert_eq!(out_body, body.to_vec());

    assert!(s.udp_datagram_arrived(SocketName::ping, out_meta, &out_body));
    let (rx_meta, rx_body) = s.recv_udp_packet(TASK_PING, SocketName::ping, 64).unwrap();
    assert_eq!(rx_meta.addr, meta.addr);
    assert_eq!(rx_meta.port, 8);
    assert_eq!(rx_meta.payload_len, 4);
    assert_eq!(rx_body, body.to_vec());
}

#[test]
fn udp_recv_lease_too_small_is_bad_lease() {
    let mut s = server();
    let meta = UdpMetadata { addr: peer(), port: 8, payload_len: 4 };
    assert!(s.udp_datagram_arrived(SocketName::ping, meta, &[1, 2, 3, 4]));
    let r = s.recv_udp_packet(TASK_PING, SocketName::ping, 2);
    assert_eq!(r.err(), Some(RequestError::BadLease));
}

#[test]
fn ping_scenario_echoes_eight_bytes() {
    // Task A sends an 8-byte datagram to ff02::1 port 8 from the
    // ping socket; the peer echoes it back; A observes the peer's
    // endpoint and the original bytes.
    let mut s = server();
    let all_nodes = Ipv6Address([0xff, 0x02, 0, 0, 0, 0, 0, 0, 0, 0, 0, 0, 0, 0, 0, 0x01]);
    let body = [1, 2, 3, 4, 5, 6, 7, 8];
    let meta = UdpMetadata { addr: all_nodes, port: 8, payload_len: 8 };
    s.send_udp_packet(TASK_PING, SocketName::ping, meta, &body).unwrap();

    // The interface takes the datagram for the radio; no
    // fragmentation is needed below the link maximum.
    let (out_meta, out_body) = s.take_udp_outbound(SocketName::ping).unwrap();
    assert_eq!(out_meta.port, 8);
    assert_eq!(out_body.len(), 8);

    // The peer replies with the same bytes.
    let reply_meta = UdpMetadata { addr: peer(), port: 8, payload_len: 8 };
    assert!(s.udp_datagram_arrived(SocketName::ping, reply_meta, &out_body));
    let woken = s.wake_sockets();
    assert!(woken.contains(&(TASK_PING, SOCKET_NOTIFICATION)));

    let (rx_meta, rx_body) = s.recv_udp_packet(TASK_PING, SocketName::ping, 128).unwrap();
    assert_eq!(rx_meta.addr, peer());
    assert_eq!(rx_meta.port, 8);
    assert_eq!(rx_meta.payload_len, 8);
    assert_eq!(rx_body, body.to_vec());
}

#[test]
fn throughput_scenario_echoes_every_datagram() {
    // The peer streams datagrams; the owner loops receive-then-send;
    // afterwards the echo count equals the number streamed.
    let mut s = server();
    let n = 5;
    let mut echo_count = 0u32;
    for k in 0..n {
        let body: Vec<u8> = (0..32).map(|b| (b + k) as u8).collect();
        let meta = UdpMetadata { addr: peer(), port: 2000, payload_len: 32 };
        assert!(s.udp_datagram_arrived(SocketName::throughput, meta, &body));
        let (m, p) = s.recv_udp_packet(TASK_THROUGHPUT, SocketName::throughput, 2048).unwrap();
        assert_eq!(p, body);
        s.send_udp_packet(TASK_THROUGHPUT, SocketName::throughput, m, &p).unwrap();
        let (_, echoed) = s.take_udp_outbound(SocketName::throughput).unwrap();
        assert_eq!(echoed, body);
        echo_count += 1;
    }
    assert_eq!(echo_count, n);
}

#[test]
fn tcp_echo_scenario() {
    // Task E listens on port 7; a client connects and writes
    // "hello"; E reads five bytes and echoes them; the client closes
    // and E sees RemoteTcpClose, closes, and listens again.
    let mut s = server();
    s.tcp_listen(TASK_ECHO, SocketName::echo, 7).unwrap();
    assert!(s.tcp_established(SocketName::echo, TcpMetadata { addr: peer(), port: 50_000 }));
    assert_eq!(s.is_tcp_active(TASK_ECHO, SocketName::echo), Ok(true));

    assert_eq!(s.tcp_data_arrived(SocketName::echo, b"hello"), 5);
    let data = s.recv_tcp_data(TASK_ECHO, SocketName::echo, 1280).unwrap();
    assert_eq!(data, b"hello".to_vec());

    let sent = s.send_tcp_data(TASK_ECHO, SocketName::echo, &data).unwrap();
    assert_eq!(sent, 5);
    let wire = s.take_tcp_outbound(SocketName::echo, 1280);
    assert_eq!(wire, b"hello".to_vec());

    assert!(s.tcp_remote_closed(SocketName::echo));
    let r = s.recv_tcp_data(TASK_ECHO, SocketName::echo, 1280);
    assert_eq!(r.err(), Some(RequestError::Runtime(AetherError::RemoteTcpClose)));

    s.close_tcp(TASK_ECHO, SocketName::echo).unwrap();
    s.tcp_listen(TASK_ECHO, SocketName::echo, 7).unwrap();
}

#[test]
fn tcp_bytes_arrive_in_order() {
    let mut s = server();
    s.tcp_listen(TASK_ECHO, SocketName::echo, 7).unwrap();
    s.tcp_established(SocketName::echo, TcpMetadata { addr: peer(), port: 40_000 });
    assert_eq!(s.send_tcp_data(TASK_ECHO, SocketName::echo, b"abc").unwrap(), 3);
    assert_eq!(s.send_tcp_data(TASK_ECHO, SocketName::echo, b"def").unwrap(), 3);
    assert_eq!(s.take_tcp_outbound(SocketName::echo, 1280), b"abcdef".to_vec());
}

#[test]
fn close_tcp_is_idempotent() {
    let mut s = server();
    s.close_tcp(TASK_ECHO, SocketName::echo).unwrap();
    let snapshot = format!("{:?}", s.is_tcp_active(TASK_ECHO, SocketName::echo));
    s.close_tcp(TASK_ECHO, SocketName::echo).unwrap();
    assert_eq!(format!("{:?}", s.is_tcp_active(TASK_ECHO, SocketName::echo)), snapshot);
    assert_eq!(s.is_tcp_active(TASK_ECHO, SocketName::echo), Ok(false));
}

#[test]
fn tcp_listen_rejects_port_zero_and_busy_socket() {
    let mut s = server();
    assert_eq!(
        s.tcp_listen(TASK_ECHO, SocketName::echo, 0),
        Err(RequestError::Runtime(AetherError::Unknown))
    );
    s.tcp_listen(TASK_ECHO, SocketName::echo, 7).unwrap();
    assert_eq!(
        s.tcp_listen(TASK_ECHO, SocketName::echo, 7),
        Err(RequestError::Runtime(AetherError::Unknown))
    );
}

#[test]
fn tcp_connect_picks_local_port_in_range() {
    let mut s = server();
    let r = s.tcp_connect(
        aether::socket::TASK_MQTT,
        SocketName::mqtt,
        TcpMetadata { addr: peer(), port: 1883 },
        0xffff_ffff,
    );
    assert!(r.is_ok());
    // A second connect on an open socket fails.
    let r = s.tcp_connect(
        aether::socket::TASK_MQTT,
        SocketName::mqtt,
        TcpMetadata { addr: peer(), port: 1883 },
        1,
    );
    assert_eq!(r, Err(RequestError::Runtime(AetherError::TcpFailConnect)));
}

#[test]
fn tcp_connect_rejects_bad_remote() {
    let mut s = server();
    let r = s.tcp_connect(
        aether::socket::TASK_MQTT,
        SocketName::mqtt,
        TcpMetadata { addr: peer(), port: 0 },
        1,
    );
    assert_eq!(r, Err(RequestError::Runtime(AetherError::TcpFailConnect)));
    let r = s.tcp_connect(
        aether::socket::TASK_MQTT,
        SocketName::mqtt,
        TcpMetadata { addr: Ipv6Address([0; 16]), port: 1883 },
        1,
    );
    assert_eq!(r, Err(RequestError::Runtime(AetherError::TcpFailConnect)));
}

#[test]
fn send_tcp_without_connection_is_unknown() {
    let mut s = server();
    let r = s.send_tcp_data(TASK_ECHO, SocketName::echo, b"x");
    assert_eq!(r.err(), Some(RequestError::Runtime(AetherError::Unknown)));
}

#[test]
fn recv_tcp_without_connection_is_queue_empty() {
    let mut s = server();
    let r = s.recv_tcp_data(TASK_ECHO, SocketName::echo, 64);
    assert_eq!(r.err(), Some(RequestError::Runtime(AetherError::QueueEmpty)));
}

#[test]
fn dns_single_query_lifecycle() {
    let mut s = server();
    assert_eq!(
        s.resolve_query().err(),
        Some(RequestError::Runtime(AetherError::NoPendingDnsQuery))
    );
    s.start_resolve_query(b"portal.local").unwrap();
    assert_eq!(
        s.start_resolve_query(b"portal.local"),
        Err(RequestError::Runtime(AetherError::DnsQueryAlreadyInflight))
    );
    // Still pending: the poll reports an empty queue so the client
    // retries.
    assert_eq!(
        s.resolve_query().err(),
        Some(RequestError::Runtime(AetherError::QueueEmpty))
    );
    assert!(s.dns_answer_arrived(Some(peer())));
    let addr = s.resolve_query().unwrap();
    assert_eq!(addr, peer());
    // Consumed: a new query may start.
    s.start_resolve_query(b"other.local").unwrap();
    assert!(s.dns_answer_arrived(None));
    assert_eq!(
        s.resolve_query().err(),
        Some(RequestError::Runtime(AetherError::DnsFailure))
    );
}

#[test]
fn wake_list_covers_readable_sockets() {
    let mut s = server();
    assert!(s.wake_sockets().is_empty());
    let meta = UdpMetadata { addr: peer(), port: 5353, payload_len: 2 };
    assert!(s.udp_datagram_arrived(SocketName::mdns, meta, &[1, 2]));
    assert_eq!(s.wake_sockets(), vec![(TASK_MDNS, SOCKET_NOTIFICATION)]);
}

#[test]
fn notification_decisions() {
    let s = server();
    let (rearm, deadline) = s.handle_notification(RADIO_IRQ, 1000);
    assert!(rearm);
    assert_eq!(deadline, None);
    let (rearm, deadline) = s.handle_notification(TIMER_MASK, 1000);
    assert!(!rearm);
    assert_eq!(deadline, Some(1100));
    let (rearm, deadline) = s.handle_notification(RADIO_IRQ | TIMER_MASK, 0);
    assert!(rearm);
    assert_eq!(deadline, Some(100));
}

#[test]
fn get_addr_returns_the_link_address() {
    let s = server();
    assert_eq!(s.get_addr().0, [1, 2, 3, 4, 5, 6, 7, 8]);
}

#[test]
fn udp_send_to_unaddressable_endpoint_is_send_error() {
    let mut s = server();
    let no_port = UdpMetadata { addr: peer(), port: 0, payload_len: 1 };
    assert_eq!(
        s.send_udp_packet(TASK_PING, SocketName::ping, no_port, &[1]),
        Err(RequestError::Runtime(AetherError::SendError))
    );
    let no_addr = UdpMetadata { addr: Ipv6Address([0; 16]), port: 8, payload_len: 1 };
    assert_eq!(
        s.send_udp_packet(TASK_PING, SocketName::ping, no_addr, &[1]),
        Err(RequestError::Runtime(AetherError::SendError))
    );
}

#[test]
fn notification_mask_covers_radio_and_timer() {
    let s = server();
    let mask = s.current_notification_mask();
    assert_eq!(mask & RADIO_IRQ, RADIO_IRQ);
    assert_eq!(mask & TIMER_MASK, TIMER_MASK);
}

#[test]
fn bytes_buffered_before_remote_close_are_still_delivered() {
    // Data that arrived before the peer's close is drained first; the
    // close surfaces only once the buffer is empty.
    let mut s = server();
    s.tcp_listen(TASK_ECHO, SocketName::echo, 7).unwrap();
    s.tcp_established(SocketName::echo, TcpMetadata { addr: peer(), port: 50_000 });
    assert_eq!(s.tcp_data_arrived(SocketName::echo, b"tail"), 4);
    assert!(s.tcp_remote_closed(SocketName::echo));
    // Still readable: the socket counts as active and its owner is
    // woken while the bytes remain.
    assert_eq!(s.is_tcp_active(TASK_ECHO, SocketName::echo), Ok(true));
    assert!(s.wake_sockets().contains(&(TASK_ECHO, SOCKET_NOTIFICATION)));
    let data = s.recv_tcp_data(TASK_ECHO, SocketName::echo, 1280).unwrap();
    assert_eq!(data, b"tail".to_vec());
    // Drained: now the close is reported.
    let r = s.recv_tcp_data(TASK_ECHO, SocketName::echo, 1280);
    assert_eq!(r.err(), Some(RequestError::Runtime(AetherError::RemoteTcpClose)));
    assert_eq!(s.is_tcp_active(TASK_ECHO, SocketName::echo), Ok(false));
}

#[test]
fn inbound_datagrams_resolve_to_the_bound_port() {
    let s = server();
    assert_eq!(s.udp_socket_for_port(8), Some(SocketName::ping));
    assert_eq!(s.udp_socket_for_port(5353), Some(SocketName::mdns));
    assert_eq!(s.udp_socket_for_port(2000), Some(SocketName::throughput));
    // An unbound port has no socket; the datagram is dropped.
    assert_eq!(s.udp_socket_for_port(7777), None);
    // TCP ports are not UDP destinations.
    assert_eq!(s.udp_socket_for_port(7), None);
}
