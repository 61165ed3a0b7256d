//! The node's socket table.
//!
//! Sockets are declared at build time: a closed set of names, each
//! with its kind, its owning task, the notification bit that task
//! listens on, and fixed buffer capacities.  The table is built once
//! through a one-shot latch; afterwards every socket is owned by
//! exactly one task for the life of the system.

use vstd::prelude::*;
use crate::net::{TcpMetadata, UdpMetadata};

verus! {

/// Number of sockets in the table (the DNS endpoint is kept apart).
pub const SOCKET_COUNT: usize = 5;

/// The compile-time socket names.
#[allow(non_camel_case_types)]
#[derive(Clone, Copy, Debug, PartialEq, Eq, Structural)]
pub enum SocketName {
    echo,
    mdns,
    mqtt,
    ping,
    throughput,
}

impl SocketName {
    /// This name's slot in the socket table.
    pub open spec fn spec_index(self) -> int {
        match self {
            SocketName::echo => 0,
            SocketName::mdns => 1,
            SocketName::mqtt => 2,
            SocketName::ping => 3,
            SocketName::throughput => 4,
        }
    }

    /// The name of the socket table slot `i`.
    pub open spec fn spec_from_index(i: int) -> SocketName {
        if i == 0 {
            SocketName::echo
        } else if i == 1 {
            SocketName::mdns
        } else if i == 2 {
            SocketName::mqtt
        } else if i == 3 {
            SocketName::ping
        } else {
            SocketName::throughput
        }
    }

    /// The name of the socket table slot `i`.
    pub fn from_index(i: usize) -> (r: SocketName)
        requires
            i < SOCKET_COUNT,
        ensures
            r == SocketName::spec_from_index(i as int),
            r.spec_index() == i,
    {
        if i == 0 {
            SocketName::echo
        } else if i == 1 {
            SocketName::mdns
        } else if i == 2 {
            SocketName::mqtt
        } else if i == 3 {
            SocketName::ping
        } else {
            SocketName::throughput
        }
    }

    /// This name's slot in the socket table.
    pub fn index(&self) -> (r: usize)
        ensures
            r == self.spec_index(),
            r < SOCKET_COUNT,
    {
        match self {
            SocketName::echo => 0,
            SocketName::mdns => 1,
            SocketName::mqtt => 2,
            SocketName::ping => 3,
            SocketName::throughput => 4,
        }
    }
}

/// The abstract state of a UDP socket.
#[verifier::ext_equal]
pub struct UdpView {
    pub port: u16,
    pub rx: Seq<(UdpMetadata, Seq<u8>)>,
    pub tx: Seq<(UdpMetadata, Seq<u8>)>,
    pub rx_cap: int,
    pub tx_cap: int,
}

/// The abstract state of a TCP socket.
#[verifier::ext_equal]
pub struct TcpView {
    pub state: TcpState,
    pub rx: Seq<u8>,
    pub tx: Seq<u8>,
    pub rx_cap: int,
    pub tx_cap: int,
}

/// The abstract state of one socket.
#[verifier::ext_equal]
pub enum SockView {
    Udp(UdpView),
    Tcp(TcpView),
}

/// A UDP socket: a bound port and bounded datagram queues in both
/// directions.
pub struct UdpSock {
    pub port: u16,
    pub rx: Vec<(UdpMetadata, Vec<u8>)>,
    pub tx: Vec<(UdpMetadata, Vec<u8>)>,
    pub rx_cap: usize,
    pub tx_cap: usize,
}

/// The lifecycle of a TCP socket.
#[derive(Clone, Copy, Debug)]
pub enum TcpState {
    /// Not listening and not connected.
    Closed,
    /// Waiting for an inbound connection on this port.
    Listen { port: u16 },
    /// A connection, from the three-way handshake until both sides
    /// closed.
    Active {
        remote: TcpMetadata,
        local_port: u16,
        established: bool,
        local_closed: bool,
        remote_closed: bool,
    },
}

/// The send half is open: data can still be handed to the peer.
pub open spec fn tcp_may_send(s: TcpState) -> bool {
    s matches TcpState::Active { established, local_closed, .. } && established && !local_closed
}

/// The receive half is open: the peer has not closed its side.
pub open spec fn tcp_may_recv(s: TcpState) -> bool {
    s matches TcpState::Active { established, remote_closed, .. } && established && !remote_closed
}

/// The socket can still be read: the receive half is open, or bytes
/// that arrived before the peer's close are still buffered.  The
/// close is reported only once the buffer is drained.
pub open spec fn tcp_readable(t: TcpView) -> bool {
    tcp_may_recv(t.state) || (t.state matches TcpState::Active { established, .. } && established
        && t.rx.len() > 0)
}

/// A TCP socket: its connection state and bounded byte buffers in
/// both directions.
pub struct TcpSock {
    pub state: TcpState,
    pub rx: Vec<u8>,
    pub tx: Vec<u8>,
    pub rx_cap: usize,
    pub tx_cap: usize,
}

/// One entry of the socket table.
pub enum Socket {
    Udp(UdpSock),
    Tcp(TcpSock),
}

/// The datagram queue as a sequence of (endpoint, bytes) pairs.
pub open spec fn dgrams(q: Seq<(UdpMetadata, Vec<u8>)>) -> Seq<(UdpMetadata, Seq<u8>)> {
    Seq::new(q.len(), |i: int| (q[i].0, q[i].1@))
}

impl View for UdpSock {
    type V = UdpView;

    open spec fn view(&self) -> UdpView {
        UdpView {
            port: self.port,
            rx: dgrams(self.rx@),
            tx: dgrams(self.tx@),
            rx_cap: self.rx_cap as int,
            tx_cap: self.tx_cap as int,
        }
    }
}

impl View for TcpSock {
    type V = TcpView;

    open spec fn view(&self) -> TcpView {
        TcpView {
            state: self.state,
            rx: self.rx@,
            tx: self.tx@,
            rx_cap: self.rx_cap as int,
            tx_cap: self.tx_cap as int,
        }
    }
}

impl View for Socket {
    type V = SockView;

    open spec fn view(&self) -> SockView {
        match self {
            Socket::Udp(u) => SockView::Udp(u@),
            Socket::Tcp(t) => SockView::Tcp(t@),
        }
    }
}

/// Every queued datagram's metadata describes its bytes.
pub open spec fn dgram_queue_wf(q: Seq<(UdpMetadata, Seq<u8>)>) -> bool {
    forall|i: int| 0 <= i < q.len() ==> (#[trigger] q[i]).0.payload_len == q[i].1.len()
}

impl UdpSock {
    pub open spec fn wf(self) -> bool {
        &&& 0 < self.rx_cap
        &&& 0 < self.tx_cap
        &&& self.rx@.len() <= self.rx_cap
        &&& self.tx@.len() <= self.tx_cap
        &&& dgram_queue_wf(dgrams(self.rx@))
        &&& dgram_queue_wf(dgrams(self.tx@))
    }
}

impl TcpSock {
    pub open spec fn wf(self) -> bool {
        &&& 0 < self.rx_cap
        &&& 0 < self.tx_cap
        &&& self.rx@.len() <= self.rx_cap
        &&& self.tx@.len() <= self.tx_cap
        &&& !(self.state is Active) ==> self.rx@.len() == 0 && self.tx@.len() == 0
    }
}

impl Socket {
    pub open spec fn wf(self) -> bool {
        match self {
            Socket::Udp(u) => u.wf(),
            Socket::Tcp(t) => t.wf(),
        }
    }
}

/// Datagram queue capacity of each UDP socket, in packets.
pub const UDP_QUEUE_CAP: usize = 8;

/// Byte capacity of each TCP socket buffer.
pub const TCP_BUF_CAP: usize = 1280;

/// Task indexes of the socket owners.
pub const TASK_ECHO: usize = 1;

pub const TASK_MDNS: usize = 2;

pub const TASK_MQTT: usize = 3;

pub const TASK_PING: usize = 4;

pub const TASK_THROUGHPUT: usize = 5;

/// The notification bit posted to a socket's owner when the socket
/// becomes ready.
pub const SOCKET_NOTIFICATION: u32 = 1;

/// UDP port of the mDNS socket.
pub const MDNS_PORT: u16 = 5353;

/// UDP port of the ping socket.
pub const PING_PORT: u16 = 8;

/// UDP port of the throughput socket.
pub const THROUGHPUT_PORT: u16 = 2000;

/// The socket table and its owner table, built together.
pub struct Sockets {
    pub sockets: Vec<Socket>,
    pub owners: Vec<(usize, u32)>,
}

/// The owner table: task index and notification bit per socket.
pub open spec fn spec_owners() -> Seq<(usize, u32)> {
    seq![
        (TASK_ECHO, SOCKET_NOTIFICATION),
        (TASK_MDNS, SOCKET_NOTIFICATION),
        (TASK_MQTT, SOCKET_NOTIFICATION),
        (TASK_PING, SOCKET_NOTIFICATION),
        (TASK_THROUGHPUT, SOCKET_NOTIFICATION),
    ]
}

fn empty_udp(port: u16) -> (r: Socket)
    ensures
        r.wf(),
        (r matches Socket::Udp(u) && u@.port == port && u@.rx.len() == 0 && u@.tx.len() == 0
            && u@.rx_cap == UDP_QUEUE_CAP && u@.tx_cap == UDP_QUEUE_CAP),
{
    Socket::Udp(
        UdpSock {
            port,
            rx: Vec::new(),
            tx: Vec::new(),
            rx_cap: UDP_QUEUE_CAP,
            tx_cap: UDP_QUEUE_CAP,
        },
    )
}

fn empty_tcp() -> (r: Socket)
    ensures
        r.wf(),
        (r matches Socket::Tcp(t) && t@.state is Closed && t@.rx.len() == 0 && t@.tx.len() == 0
            && t@.rx_cap == TCP_BUF_CAP && t@.tx_cap == TCP_BUF_CAP),
{
    Socket::Tcp(
        TcpSock {
            state: TcpState::Closed,
            rx: Vec::new(),
            tx: Vec::new(),
            rx_cap: TCP_BUF_CAP,
            tx_cap: TCP_BUF_CAP,
        },
    )
}

/// Build the socket table.  The latch enforces single initialization:
/// once it has been taken the table is never handed out again, and
/// the caller treats that as fatal.
pub fn construct_sockets(latch: &mut bool) -> (r: Option<Sockets>)
    ensures
        *final(latch) == true,
        *old(latch) ==> r is None,
        !*old(latch) ==> (r matches Some(s) && {
            &&& s.sockets@.len() == SOCKET_COUNT
            &&& s.owners@.len() == SOCKET_COUNT
            &&& s.owners@ =~= spec_owners()
            &&& forall|i: int| 0 <= i < SOCKET_COUNT ==> (#[trigger] s.sockets@[i]).wf()
            &&& s.sockets@[SocketName::echo.spec_index()] is Tcp
            &&& s.sockets@[SocketName::mqtt.spec_index()] is Tcp
            &&& (s.sockets@[SocketName::mdns.spec_index()] matches Socket::Udp(u) && u@.port
                == MDNS_PORT && u@.rx.len() == 0 && u@.tx.len() == 0)
            &&& (s.sockets@[SocketName::ping.spec_index()] matches Socket::Udp(u) && u@.port
                == PING_PORT && u@.rx.len() == 0 && u@.tx.len() == 0)
            &&& (s.sockets@[SocketName::throughput.spec_index()] matches Socket::Udp(u) && u@.port
                == THROUGHPUT_PORT && u@.rx.len() == 0 && u@.tx.len() == 0)
            &&& (s.sockets@[SocketName::echo.spec_index()] matches Socket::Tcp(t) && t@.state
                is Closed)
            &&& (s.sockets@[SocketName::mqtt.spec_index()] matches Socket::Tcp(t) && t@.state
                is Closed)
        }),
{
    if *latch {
        return None;
    }
    *latch = true;
    let mut sockets: Vec<Socket> = Vec::new();
    sockets.push(empty_tcp());
    sockets.push(empty_udp(MDNS_PORT));
    sockets.push(empty_tcp());
    sockets.push(empty_udp(PING_PORT));
    sockets.push(empty_udp(THROUGHPUT_PORT));
    let mut owners: Vec<(usize, u32)> = Vec::new();
    owners.push((TASK_ECHO, SOCKET_NOTIFICATION));
    owners.push((TASK_MDNS, SOCKET_NOTIFICATION));
    owners.push((TASK_MQTT, SOCKET_NOTIFICATION));
    owners.push((TASK_PING, SOCKET_NOTIFICATION));
    owners.push((TASK_THROUGHPUT, SOCKET_NOTIFICATION));
    Some(Sockets { sockets, owners })
}

} // verus!
