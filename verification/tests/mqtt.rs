//! The MQTT adapter: address checks, would-block mapping, the clock,
//! and the publish scenario.

use aether::mdns::{HostName, MdnsServer};
use aether::mqtt::{socket_addr_to_metadata, ClockLayer, NbError, NetworkLayer, SocketAddress};
use aether::net::{AetherError, Ieee802154Address, Ipv6Address, TcpMetadata};
use aether::server::AetherServer;
use aether::socket::{construct_sockets, SocketName, TASK_MQTT};

fn server() -> AetherServer {
    let mut latch = false;
    let table = construct_sockets(&mut latch).unwrap();
    AetherServer::new(table, Ieee802154Address([8; 8]))
}

fn layer() -> NetworkLayer {
    NetworkLayer { socket: SocketName::mqtt, task: TASK_MQTT }
}

#[test]
fn socket_returns_the_preconfigured_name() {
    assert_eq!(layer().socket(), SocketName::mqtt);
}

#[test]
fn ipv4_addresses_are_refused() {
    let r = socket_addr_to_metadata(SocketAddress::V4([127, 0, 0, 1], 1883));
    assert_eq!(r, Err(AetherError::NotIpv6));
    let mut s = server();
    match layer().connect(&mut s, SocketAddress::V4([10, 0, 0, 1], 1883), 5) {
        Err(NbError::Other(e)) => assert_eq!(e, AetherError::NotIpv6),
        other => panic!("expected NotIpv6, got {:?}", other),
    }
}

#[test]
fn clock_truncates_to_thirtytwo_bits() {
    let clock = ClockLayer {};
    assert_eq!(clock.try_now(0), 0);
    assert_eq!(clock.try_now(64_000), 64_000);
    assert_eq!(clock.try_now(0x1_0000_0001), 1);
}

#[test]
fn send_never_returns_more_than_offered() {
    let mut s = server();
    let nl = layer();
    nl.connect(
        &mut s,
        SocketAddress::V6([0xfd, 0, 0x1e, 0xaf, 0, 0, 0, 0, 0, 0, 0, 0, 0, 0, 0, 1], 1883),
        42,
    )
    .unwrap();
    s.tcp_established(SocketName::mqtt, TcpMetadata { addr: Ipv6Address([1; 16]), port: 1883 });
    let payload = vec![7u8; 100];
    let n = nl.send(&mut s, &payload).unwrap();
    assert!(n <= payload.len());
    assert_eq!(n, 100);
}

#[test]
fn full_send_buffer_would_block() {
    let mut s = server();
    let nl = layer();
    nl.connect(
        &mut s,
        SocketAddress::V6([0xfd, 0, 0x1e, 0xaf, 0, 0, 0, 0, 0, 0, 0, 0, 0, 0, 0, 1], 1883),
        42,
    )
    .unwrap();
    s.tcp_established(SocketName::mqtt, TcpMetadata { addr: Ipv6Address([1; 16]), port: 1883 });
    // Fill the whole send buffer, then one more byte must wait.
    let big = vec![1u8; 1280];
    assert_eq!(nl.send(&mut s, &big).unwrap(), 1280);
    match nl.send(&mut s, &[2]) {
        Err(NbError::WouldBlock) => {},
        other => panic!("expected WouldBlock, got {:?}", other),
    }
}

#[test]
fn empty_receive_buffer_would_block() {
    let mut s = server();
    let nl = layer();
    nl.connect(
        &mut s,
        SocketAddress::V6([0xfd, 0, 0x1e, 0xaf, 0, 0, 0, 0, 0, 0, 0, 0, 0, 0, 0, 1], 1883),
        42,
    )
    .unwrap();
    s.tcp_established(SocketName::mqtt, TcpMetadata { addr: Ipv6Address([1; 16]), port: 1883 });
    match nl.receive(&mut s, 64) {
        Err(NbError::WouldBlock) => {},
        other => panic!("expected WouldBlock, got {:?}", other),
    }
}

#[test]
fn loopback_send_then_receive_returns_the_bytes() {
    let mut s = server();
    let nl = layer();
    nl.connect(
        &mut s,
        SocketAddress::V6([0xfd, 0, 0x1e, 0xaf, 0, 0, 0, 0, 0, 0, 0, 0, 0, 0, 0, 1], 1883),
        42,
    )
    .unwrap();
    s.tcp_established(SocketName::mqtt, TcpMetadata { addr: Ipv6Address([1; 16]), port: 1883 });
    let payload = b"loopback";
    assert_eq!(nl.send(&mut s, payload).unwrap(), payload.len());
    let wire = s.take_tcp_outbound(SocketName::mqtt, 1280);
    assert_eq!(s.tcp_data_arrived(SocketName::mqtt, &wire), payload.len());
    let received = nl.receive(&mut s, 1280).unwrap();
    assert_eq!(received, payload.to_vec());
}

#[test]
fn publish_scenario_over_the_broker_socket() {
    // Resolve the portal, connect to it on the MQTT port, publish a
    // 64-byte record: the transport accepts all 64 bytes.
    let mut s = server();
    let resolver = MdnsServer::new(&[0], Ipv6Address([9; 16]));
    let broker = resolver
        .resolve(&HostName::from_bytes(b"portal.local"))
        .expect("portal is primed");
    assert_eq!(
        broker.0,
        [0xfd, 0x00, 0x1e, 0xaf, 0, 0, 0, 0, 0, 0, 0, 0, 0, 0, 0, 0x01]
    );

    let nl = layer();
    nl.connect(&mut s, SocketAddress::V6(broker.0, 1883), 0xcafe).unwrap();
    // The handshake completes on a later poll.
    assert_eq!(nl.is_connected(&mut s).unwrap(), false);
    s.tcp_established(SocketName::mqtt, TcpMetadata { addr: broker, port: 1883 });
    assert_eq!(nl.is_connected(&mut s).unwrap(), true);

    let record = vec![0x42u8; 64];
    let sent = s.send_tcp_data(TASK_MQTT, SocketName::mqtt, &record).unwrap();
    assert_eq!(sent, 64);
    // The broker's side of the wire sees the full record.
    assert_eq!(s.take_tcp_outbound(SocketName::mqtt, 1280).len(), 64);

    nl.close(&mut s).unwrap();
    assert_eq!(nl.is_connected(&mut s).unwrap(), false);
}

#[test]
fn connect_forwards_to_the_tcp_socket() {
    let mut s = server();
    let nl = layer();
    // A bad endpoint is the interface task's rejection, wrapped.
    match nl.connect(&mut s, SocketAddress::V6([0; 16], 1883), 3) {
        Err(NbError::Other(e)) => assert_eq!(e, AetherError::TcpFailConnect),
        other => panic!("expected TcpFailConnect, got {:?}", other),
    }
    // A usable endpoint opens the connection.
    nl.connect(
        &mut s,
        SocketAddress::V6([0xfd, 0, 0x1e, 0xaf, 0, 0, 0, 0, 0, 0, 0, 0, 0, 0, 0, 1], 1883),
        3,
    )
    .unwrap();
    // A second connect finds the socket already open.
    match nl.connect(
        &mut s,
        SocketAddress::V6([0xfd, 0, 0x1e, 0xaf, 0, 0, 0, 0, 0, 0, 0, 0, 0, 0, 0, 1], 1883),
        4,
    ) {
        Err(NbError::Other(e)) => assert_eq!(e, AetherError::TcpFailConnect),
        other => panic!("expected TcpFailConnect, got {:?}", other),
    }
}

#[test]
fn receive_drains_before_reporting_the_close() {
    let mut s = server();
    let nl = layer();
    nl.connect(
        &mut s,
        SocketAddress::V6([0xfd, 0, 0x1e, 0xaf, 0, 0, 0, 0, 0, 0, 0, 0, 0, 0, 0, 1], 1883),
        42,
    )
    .unwrap();
    s.tcp_established(SocketName::mqtt, TcpMetadata { addr: Ipv6Address([1; 16]), port: 1883 });
    assert_eq!(s.tcp_data_arrived(SocketName::mqtt, b"bye"), 3);
    assert!(s.tcp_remote_closed(SocketName::mqtt));
    assert_eq!(nl.receive(&mut s, 64).unwrap(), b"bye".to_vec());
    match nl.receive(&mut s, 64) {
        Err(NbError::Other(e)) => assert_eq!(e, AetherError::RemoteTcpClose),
        other => panic!("expected RemoteTcpClose, got {:?}", other),
    }
}

#[test]
fn adapter_rejects_a_non_owner() {
    let mut s = server();
    let intruder = NetworkLayer { socket: SocketName::mqtt, task: 99 };
    match intruder.send(&mut s, &[1]) {
        Err(NbError::Other(e)) => assert_eq!(e, AetherError::WrongOwner),
        other => panic!("expected WrongOwner, got {:?}", other),
    }
}
