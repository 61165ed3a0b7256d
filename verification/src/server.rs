//! The socket server of the interface task.
//!
//! Client tasks reach their sockets through typed requests; every
//! per-socket request is checked against the owner table before
//! anything else, so a non-owning caller always gets `WrongOwner` and
//! the owner table itself never changes.  The other side of each
//! socket is the protocol stack: the polling loop delivers inbound
//! datagrams, bytes and connection events with the `*_arrived` and
//! `take_*` operations, and wakes socket owners by the list
//! `wake_sockets` computes.

use vstd::prelude::*;
use crate::net::{AetherError, Ieee802154Address, Ipv6Address, TcpMetadata, UdpMetadata};
use crate::socket::{
    dgrams, tcp_may_recv, tcp_may_send, tcp_readable, SockView, Socket, SocketName, Sockets,
    TcpState, TcpView, UdpView, SOCKET_COUNT,
};

verus! {

/// Notification bit relaying the radio interrupt.
pub const RADIO_IRQ: u32 = 1;

/// Notification bit of the periodic re-poll timer.
pub const TIMER_MASK: u32 = 4;

/// Period of the re-poll timer, in milliseconds.
pub const TIMER_INTERVAL: u64 = 100;

/// How a request fails: a protocol error code for the caller, or an
/// IPC-level fault.
#[derive(Clone, Copy, Debug, PartialEq, Eq, Structural)]
pub enum RequestError {
    /// A protocol error code returned to the caller.
    Runtime(AetherError),
    /// The caller's lease is unusable (wrong size or attributes).
    BadLease,
    /// The request record itself is malformed.
    BadMessageContents,
    /// The caller died while the request was being served.
    WentAway,
}

/// The state of the single in-flight DNS query.
#[derive(Clone, Copy, Debug)]
pub enum DnsQueryState {
    /// Sent; no answer yet.
    Pending,
    /// Answered with the first AAAA record.
    Done(Ipv6Address),
    /// The resolver gave up.
    Failed,
}

/// The single in-flight DNS query: the name asked about and where the
/// answer stands.
pub struct DnsQuery {
    pub hostname: Vec<u8>,
    pub state: DnsQueryState,
}

/// The interface task's server state.
pub struct AetherServer {
    pub sockets: Vec<Socket>,
    pub owners: Vec<(usize, u32)>,
    pub client_waiting_to_send: Vec<bool>,
    pub dns_query: Option<DnsQuery>,
    pub addr: Ieee802154Address,
}

impl AetherServer {
    pub open spec fn wf(self) -> bool {
        &&& self.sockets@.len() == SOCKET_COUNT
        &&& self.owners@.len() == SOCKET_COUNT
        &&& self.client_waiting_to_send@.len() == SOCKET_COUNT
        &&& forall|i: int| 0 <= i < SOCKET_COUNT ==> (#[trigger] self.sockets@[i]).wf()
    }

    /// The abstract state of socket `i`.
    pub open spec fn sock(self, i: int) -> SockView {
        self.sockets@[i]@
    }

    /// The task owning socket `i`.
    pub open spec fn owner_of(self, i: int) -> usize {
        self.owners@[i].0
    }

    /// The notification bit of socket `i`'s owner.
    pub open spec fn notification_of(self, i: int) -> u32 {
        self.owners@[i].1
    }

    /// A client of socket `i` hit a full send buffer and waits for
    /// room.
    pub open spec fn waiting(self, i: int) -> bool {
        self.client_waiting_to_send@[i]
    }

    /// Nothing outside socket `i` and its waiting flag changed.
    pub open spec fn frame_except(pre: AetherServer, post: AetherServer, i: int) -> bool {
        &&& post.owners@ == pre.owners@
        &&& post.addr == pre.addr
        &&& post.dns_query == pre.dns_query
        &&& post.sockets@.len() == pre.sockets@.len()
        &&& post.client_waiting_to_send@.len() == pre.client_waiting_to_send@.len()
        &&& forall|j: int|
            0 <= j < pre.sockets@.len() && j != i ==> post.sockets@[j] == pre.sockets@[j]
        &&& forall|j: int|
            0 <= j < pre.client_waiting_to_send@.len() && j != i
                ==> post.client_waiting_to_send@[j] == pre.client_waiting_to_send@[j]
    }

    /// Assemble the server around the constructed socket table.
    pub fn new(table: Sockets, addr: Ieee802154Address) -> (r: AetherServer)
        requires
            table.sockets@.len() == SOCKET_COUNT,
            table.owners@.len() == SOCKET_COUNT,
            forall|i: int| 0 <= i < SOCKET_COUNT ==> (#[trigger] table.sockets@[i]).wf(),
        ensures
            r.wf(),
            r.sockets@ == table.sockets@,
            r.owners@ == table.owners@,
            r.dns_query is None,
            r.addr == addr,
            forall|i: int| 0 <= i < SOCKET_COUNT ==> !(#[trigger] r.waiting(i)),
    {
        let mut waiting: Vec<bool> = Vec::new();
        let mut i: usize = 0;
        while i < SOCKET_COUNT
            invariant
                i <= SOCKET_COUNT,
                waiting@.len() == i,
                forall|j: int| 0 <= j < i ==> !(#[trigger] waiting@[j]),
            decreases SOCKET_COUNT - i,
        {
            waiting.push(false);
            i += 1;
        }
        AetherServer {
            sockets: table.sockets,
            owners: table.owners,
            client_waiting_to_send: waiting,
            dns_query: None,
            addr,
        }
    }

    /// The node's extended link-layer address.
    pub fn get_addr(&self) -> (r: Ieee802154Address)
        ensures
            r == self.addr,
    {
        self.addr
    }

    /// Serve `recv_udp_packet`: hand the caller the oldest queued
    /// datagram on its socket.  The datagram is dequeued first, as the
    /// kernel copy happens after the socket read; a lease smaller than
    /// the datagram therefore fails with `BadLease` and the datagram
    /// is gone.
    pub fn recv_udp_packet(&mut self, caller: usize, socket: SocketName, lease_cap: usize) -> (r:
        Result<(UdpMetadata, Vec<u8>), RequestError>)
        requires
            old(self).wf(),
        ensures
            final(self).wf(),
            final(self).owners@ == old(self).owners@,
            ({
                let i = socket.spec_index();
                if old(self).owner_of(i) != caller {
                    &&& r matches Err(e) && e == RequestError::Runtime(AetherError::WrongOwner)
                    &&& *final(self) == *old(self)
                } else {
                    match old(self).sock(i) {
                        SockView::Tcp(_) => {
                            &&& r matches Err(e) && e == RequestError::Runtime(
                                AetherError::WrongSocketType,
                            )
                            &&& *final(self) == *old(self)
                        },
                        SockView::Udp(u) => if u.rx.len() == 0 {
                            &&& r matches Err(e) && e == RequestError::Runtime(
                                AetherError::QueueEmpty,
                            )
                            &&& *final(self) == *old(self)
                        } else {
                            &&& AetherServer::frame_except(*old(self), *final(self), i)
                            &&& final(self).waiting(i) == old(self).waiting(i)
                            &&& final(self).sock(i) =~~= SockView::Udp(
                                UdpView { rx: u.rx.subrange(1, u.rx.len() as int), ..u },
                            )
                            &&& if lease_cap < u.rx[0].1.len() {
                                r matches Err(e) && e == RequestError::BadLease
                            } else {
                                r matches Ok(out) && out.0 == u.rx[0].0 && out.1@ == u.rx[0].1
                            }
                        },
                    }
                }
            }),
    {
        let i = socket.index();
        if self.owners[i].0 != caller {
            return Err(RequestError::Runtime(AetherError::WrongOwner));
        }
        match &self.sockets[i] {
            Socket::Tcp(_) => {
                return Err(RequestError::Runtime(AetherError::WrongSocketType));
            },
            Socket::Udp(u) => {
                if u.rx.len() == 0 {
                    return Err(RequestError::Runtime(AetherError::QueueEmpty));
                }
            },
        }
        let s = &mut self.sockets[i];
        match s {
            Socket::Udp(u) => {
                let (m, p) = u.rx.remove(0);
                proof {
                    let uv = old(self).sock(i as int)->Udp_0;
                    assert(dgrams(u.rx@) =~~= uv.rx.subrange(1, uv.rx.len() as int));
                }
                if lease_cap < p.len() {
                    Err(RequestError::BadLease)
                } else {
                    Ok((m, p))
                }
            },
            Socket::Tcp(_) => {
                proof {
                    assert(false);
                }
                Err(RequestError::WentAway)
            },
        }
    }
    /// Serve `send_udp_packet`: queue one datagram for the network.
    /// An empty payload is rejected as a bad lease; an unaddressable
    /// destination (port zero or the unspecified address) fails with
    /// `SendError`; a full queue returns `QueueFull` and records that
    /// the client waits for room, so the polling loop wakes it once
    /// the queue drains.
    pub fn send_udp_packet(
        &mut self,
        caller: usize,
        socket: SocketName,
        metadata: UdpMetadata,
        payload: &[u8],
    ) -> (r: Result<(), RequestError>)
        requires
            old(self).wf(),
            payload@.len() <= u32::MAX,
        ensures
            final(self).wf(),
            final(self).owners@ == old(self).owners@,
            ({
                let i = socket.spec_index();
                if old(self).owner_of(i) != caller {
                    &&& r matches Err(e) && e == RequestError::Runtime(AetherError::WrongOwner)
                    &&& *final(self) == *old(self)
                } else {
                    match old(self).sock(i) {
                        SockView::Tcp(_) => {
                            &&& r matches Err(e) && e == RequestError::Runtime(
                                AetherError::WrongSocketType,
                            )
                            &&& *final(self) == *old(self)
                        },
                        SockView::Udp(u) => if payload@.len() == 0 {
                            &&& r matches Err(e) && e == RequestError::BadLease
                            &&& *final(self) == *old(self)
                        } else if metadata.port == 0 || metadata.addr.spec_is_unspecified() {
                            &&& r matches Err(e) && e == RequestError::Runtime(
                                AetherError::SendError,
                            )
                            &&& *final(self) == *old(self)
                        } else if u.tx.len() == u.tx_cap {
                            &&& r matches Err(e) && e == RequestError::Runtime(
                                AetherError::QueueFull,
                            )
                            &&& AetherServer::frame_except(*old(self), *final(self), i)
                            &&& final(self).sock(i) =~~= old(self).sock(i)
                            &&& final(self).waiting(i)
                        } else {
                            &&& r matches Ok(_)
                            &&& AetherServer::frame_except(*old(self), *final(self), i)
                            &&& final(self).sock(i) =~~= SockView::Udp(
                                UdpView {
                                    tx: u.tx.push(
                                        (
                                            UdpMetadata {
                                                payload_len: payload@.len() as u32,
                                                ..metadata
                                            },
                                            payload@,
                                        ),
                                    ),
                                    ..u
                                },
                            )
                            &&& !final(self).waiting(i)
                        },
                    }
                }
            }),
    {
        let i = socket.index();
        if self.owners[i].0 != caller {
            return Err(RequestError::Runtime(AetherError::WrongOwner));
        }
        let tx_full: bool;
        match &self.sockets[i] {
            Socket::Tcp(_) => {
                return Err(RequestError::Runtime(AetherError::WrongSocketType));
            },
            Socket::Udp(u) => {
                if payload.len() == 0 {
                    return Err(RequestError::BadLease);
                }
                if metadata.port == 0 || metadata.addr.is_unspecified() {
                    return Err(RequestError::Runtime(AetherError::SendError));
                }
                tx_full = u.tx.len() == u.tx_cap;
            },
        }
        if tx_full {
            self.client_waiting_to_send[i] = true;
            return Err(RequestError::Runtime(AetherError::QueueFull));
        }
        let body = copy_bytes(payload);
        let meta = UdpMetadata { payload_len: payload.len() as u32, ..metadata };
        let s = &mut self.sockets[i];
        match s {
            Socket::Udp(u) => {
                u.tx.push((meta, body));
                proof {
                    let uv = old(self).sock(i as int)->Udp_0;
                    assert(dgrams(u.tx@) =~~= uv.tx.push(
                        (UdpMetadata { payload_len: payload@.len() as u32, ..metadata }, payload@),
                    ));
                }
            },
            Socket::Tcp(_) => {
                proof {
                    assert(false);
                }
                return Err(RequestError::WentAway);
            },
        }
        self.client_waiting_to_send[i] = false;
        Ok(())
    }

    /// The polling loop delivers one inbound datagram to its socket.
    /// It is accepted unless the socket is not UDP, the metadata does
    /// not describe the bytes, or the receive queue is full — a full
    /// queue drops the datagram silently.
    pub fn udp_datagram_arrived(&mut self, socket: SocketName, meta: UdpMetadata, payload: &[u8])
        -> (accepted: bool)
        requires
            old(self).wf(),
        ensures
            final(self).wf(),
            final(self).owners@ == old(self).owners@,
            ({
                let i = socket.spec_index();
                match old(self).sock(i) {
                    SockView::Tcp(_) => !accepted && *final(self) == *old(self),
                    SockView::Udp(u) => if meta.payload_len != payload@.len() || u.rx.len()
                        == u.rx_cap {
                        !accepted && *final(self) == *old(self)
                    } else {
                        &&& accepted
                        &&& AetherServer::frame_except(*old(self), *final(self), i)
                        &&& final(self).waiting(i) == old(self).waiting(i)
                        &&& final(self).sock(i) =~~= SockView::Udp(
                            UdpView { rx: u.rx.push((meta, payload@)), ..u },
                        )
                    },
                }
            }),
    {
        let i = socket.index();
        match &self.sockets[i] {
            Socket::Tcp(_) => {
                return false;
            },
            Socket::Udp(u) => {
                if meta.payload_len as usize != payload.len() || u.rx.len() == u.rx_cap {
                    return false;
                }
            },
        }
        let body = copy_bytes(payload);
        let s = &mut self.sockets[i];
        match s {
            Socket::Udp(u) => {
                u.rx.push((meta, body));
                proof {
                    let uv = old(self).sock(i as int)->Udp_0;
                    assert(dgrams(u.rx@) =~~= uv.rx.push((meta, payload@)));
                }
                true
            },
            Socket::Tcp(_) => {
                proof {
                    assert(false);
                }
                false
            },
        }
    }

    /// The first table slot holding a UDP socket bound to `port`,
    /// searching from `i`.
    pub open spec fn find_udp_port(self, port: u16, i: int) -> Option<int>
        decreases SOCKET_COUNT - i when 0 <= i <= SOCKET_COUNT
    {
        if i >= SOCKET_COUNT {
            None
        } else if self.sock(i) matches SockView::Udp(u) && u.port == port {
            Some(i)
        } else {
            self.find_udp_port(port, i + 1)
        }
    }

    /// Resolve an inbound datagram's destination: the socket bound to
    /// its UDP port, if any.  The polling loop calls this before
    /// `udp_datagram_arrived`; a datagram for an unbound port has no
    /// socket and is dropped.
    pub fn udp_socket_for_port(&self, port: u16) -> (r: Option<SocketName>)
        requires
            self.wf(),
        ensures
            match self.find_udp_port(port, 0) {
                Some(i) => r matches Some(name) && name.spec_index() == i,
                None => r is None,
            },
    {
        let mut i: usize = 0;
        while i < SOCKET_COUNT
            invariant
                self.wf(),
                i <= SOCKET_COUNT,
                self.find_udp_port(port, 0) == self.find_udp_port(port, i as int),
            decreases SOCKET_COUNT - i,
        {
            let found: bool;
            match &self.sockets[i] {
                Socket::Udp(u) => {
                    found = u.port == port;
                },
                Socket::Tcp(_) => {
                    found = false;
                },
            }
            if found {
                assert(self.find_udp_port(port, i as int) == Some(i as int));
                return Some(SocketName::from_index(i));
            }
            assert(!(self.sock(i as int) matches SockView::Udp(u) && u.port == port));
            i += 1;
        }
        None
    }

    /// The polling loop takes the oldest outbound datagram of a
    /// socket for transmission.
    pub fn take_udp_outbound(&mut self, socket: SocketName) -> (r: Option<(UdpMetadata, Vec<u8>)>)
        requires
            old(self).wf(),
        ensures
            final(self).wf(),
            final(self).owners@ == old(self).owners@,
            ({
                let i = socket.spec_index();
                match old(self).sock(i) {
                    SockView::Tcp(_) => r is None && *final(self) == *old(self),
                    SockView::Udp(u) => if u.tx.len() == 0 {
                        r is None && *final(self) == *old(self)
                    } else {
                        &&& r matches Some(out) && out.0 == u.tx[0].0 && out.1@ == u.tx[0].1
                        &&& AetherServer::frame_except(*old(self), *final(self), i)
                        &&& final(self).waiting(i) == old(self).waiting(i)
                        &&& final(self).sock(i) =~~= SockView::Udp(
                            UdpView { tx: u.tx.subrange(1, u.tx.len() as int), ..u },
                        )
                    },
                }
            }),
    {
        let i = socket.index();
        match &self.sockets[i] {
            Socket::Tcp(_) => {
                return None;
            },
            Socket::Udp(u) => {
                if u.tx.len() == 0 {
                    return None;
                }
            },
        }
        let s = &mut self.sockets[i];
        match s {
            Socket::Udp(u) => {
                let (m, p) = u.tx.remove(0);
                proof {
                    let uv = old(self).sock(i as int)->Udp_0;
                    assert(dgrams(u.tx@) =~~= uv.tx.subrange(1, uv.tx.len() as int));
                }
                Some((m, p))
            },
            Socket::Tcp(_) => {
                proof {
                    assert(false);
                }
                None
            },
        }
    }
}

impl AetherServer {
    /// Serve `tcp_listen`: open the socket for one inbound connection
    /// on `port`.  Only a closed socket can listen, and port zero is
    /// unusable; everything else is reported as `Unknown`.
    pub fn tcp_listen(&mut self, caller: usize, socket: SocketName, port: u16) -> (r: Result<
        (),
        RequestError,
    >)
        requires
            old(self).wf(),
        ensures
            final(self).wf(),
            final(self).owners@ == old(self).owners@,
            ({
                let i = socket.spec_index();
                if old(self).owner_of(i) != caller {
                    &&& r matches Err(e) && e == RequestError::Runtime(AetherError::WrongOwner)
                    &&& *final(self) == *old(self)
                } else {
                    match old(self).sock(i) {
                        SockView::Udp(_) => {
                            &&& r matches Err(e) && e == RequestError::Runtime(
                                AetherError::WrongSocketType,
                            )
                            &&& *final(self) == *old(self)
                        },
                        SockView::Tcp(t) => if t.state is Closed && port != 0 {
                            &&& r matches Ok(_)
                            &&& AetherServer::frame_except(*old(self), *final(self), i)
                            &&& final(self).waiting(i) == old(self).waiting(i)
                            &&& final(self).sock(i) =~~= SockView::Tcp(
                                TcpView { state: TcpState::Listen { port }, ..t },
                            )
                        } else {
                            &&& r matches Err(e) && e == RequestError::Runtime(
                                AetherError::Unknown,
                            )
                            &&& *final(self) == *old(self)
                        },
                    }
                }
            }),
    {
        let i = socket.index();
        if self.owners[i].0 != caller {
            return Err(RequestError::Runtime(AetherError::WrongOwner));
        }
        match &self.sockets[i] {
            Socket::Udp(_) => {
                return Err(RequestError::Runtime(AetherError::WrongSocketType));
            },
            Socket::Tcp(t) => {
                match t.state {
                    TcpState::Closed => {},
                    _ => {
                        return Err(RequestError::Runtime(AetherError::Unknown));
                    },
                }
                if port == 0 {
                    return Err(RequestError::Runtime(AetherError::Unknown));
                }
            },
        }
        let s = &mut self.sockets[i];
        match s {
            Socket::Tcp(t) => {
                t.state = TcpState::Listen { port };
                Ok(())
            },
            Socket::Udp(_) => {
                proof {
                    assert(false);
                }
                Err(RequestError::WentAway)
            },
        }
    }

    /// Serve `tcp_connect`: open a connection to `metadata` from a
    /// closed socket.  The local port is drawn uniformly from
    /// `[1024, 65535)` out of the entropy word the random-number
    /// driver supplied.  A socket that is not closed, a zero remote
    /// port or an unspecified remote address fail with
    /// `TcpFailConnect`.
    pub fn tcp_connect(
        &mut self,
        caller: usize,
        socket: SocketName,
        metadata: TcpMetadata,
        entropy: u32,
    ) -> (r: Result<(), RequestError>)
        requires
            old(self).wf(),
        ensures
            final(self).wf(),
            final(self).owners@ == old(self).owners@,
            ({
                let i = socket.spec_index();
                if old(self).owner_of(i) != caller {
                    &&& r matches Err(e) && e == RequestError::Runtime(AetherError::WrongOwner)
                    &&& *final(self) == *old(self)
                } else {
                    match old(self).sock(i) {
                        SockView::Udp(_) => {
                            &&& r matches Err(e) && e == RequestError::Runtime(
                                AetherError::WrongSocketType,
                            )
                            &&& *final(self) == *old(self)
                        },
                        SockView::Tcp(t) => if t.state is Closed && metadata.port != 0
                            && !metadata.addr.spec_is_unspecified() {
                            &&& r matches Ok(_)
                            &&& AetherServer::frame_except(*old(self), *final(self), i)
                            &&& final(self).waiting(i) == old(self).waiting(i)
                            &&& final(self).sock(i) =~~= SockView::Tcp(
                                TcpView {
                                    state: TcpState::Active {
                                        remote: metadata,
                                        local_port: (1024 + (entropy % 64511)) as u16,
                                        established: false,
                                        local_closed: false,
                                        remote_closed: false,
                                    },
                                    ..t
                                },
                            )
                        } else {
                            &&& r matches Err(e) && e == RequestError::Runtime(
                                AetherError::TcpFailConnect,
                            )
                            &&& *final(self) == *old(self)
                        },
                    }
                }
            }),
    {
        let i = socket.index();
        if self.owners[i].0 != caller {
            return Err(RequestError::Runtime(AetherError::WrongOwner));
        }
        match &self.sockets[i] {
            Socket::Udp(_) => {
                return Err(RequestError::Runtime(AetherError::WrongSocketType));
            },
            Socket::Tcp(t) => {
                match t.state {
                    TcpState::Closed => {},
                    _ => {
                        return Err(RequestError::Runtime(AetherError::TcpFailConnect));
                    },
                }
                if metadata.port == 0 || metadata.addr.is_unspecified() {
                    return Err(RequestError::Runtime(AetherError::TcpFailConnect));
                }
            },
        }
        let local_port: u16 = (1024 + (entropy % 64511)) as u16;
        let s = &mut self.sockets[i];
        match s {
            Socket::Tcp(t) => {
                t.state = TcpState::Active {
                    remote: metadata,
                    local_port,
                    established: false,
                    local_closed: false,
                    remote_closed: false,
                };
                Ok(())
            },
            Socket::Udp(_) => {
                proof {
                    assert(false);
                }
                Err(RequestError::WentAway)
            },
        }
    }

    /// Serve `close_tcp`: abort the connection, discarding both
    /// buffers.  Closing an already-closed socket succeeds and
    /// changes nothing.
    pub fn close_tcp(&mut self, caller: usize, socket: SocketName) -> (r: Result<
        (),
        RequestError,
    >)
        requires
            old(self).wf(),
        ensures
            final(self).wf(),
            final(self).owners@ == old(self).owners@,
            ({
                let i = socket.spec_index();
                if old(self).owner_of(i) != caller {
                    &&& r matches Err(e) && e == RequestError::Runtime(AetherError::WrongOwner)
                    &&& *final(self) == *old(self)
                } else {
                    match old(self).sock(i) {
                        SockView::Udp(_) => {
                            &&& r matches Err(e) && e == RequestError::Runtime(
                                AetherError::WrongSocketType,
                            )
                            &&& *final(self) == *old(self)
                        },
                        SockView::Tcp(t) => {
                            &&& r matches Ok(_)
                            &&& AetherServer::frame_except(*old(self), *final(self), i)
                            &&& final(self).waiting(i) == old(self).waiting(i)
                            &&& final(self).sock(i) =~~= SockView::Tcp(
                                TcpView {
                                    state: TcpState::Closed,
                                    rx: Seq::<u8>::empty(),
                                    tx: Seq::<u8>::empty(),
                                    ..t
                                },
                            )
                            &&& t.state is Closed ==> final(self).sock(i) =~~= old(self).sock(i)
                        },
                    }
                }
            }),
    {
        let i = socket.index();
        if self.owners[i].0 != caller {
            return Err(RequestError::Runtime(AetherError::WrongOwner));
        }
        match &self.sockets[i] {
            Socket::Udp(_) => {
                return Err(RequestError::Runtime(AetherError::WrongSocketType));
            },
            Socket::Tcp(_) => {},
        }
        let s = &mut self.sockets[i];
        match s {
            Socket::Tcp(t) => {
                t.state = TcpState::Closed;
                t.rx.clear();
                t.tx.clear();
                Ok(())
            },
            Socket::Udp(_) => {
                proof {
                    assert(false);
                }
                Err(RequestError::WentAway)
            },
        }
    }

    /// Serve `is_tcp_active`: the connection can still send, and can
    /// still be read (its receive half open, or bytes buffered from
    /// before the peer's close).
    pub fn is_tcp_active(&mut self, caller: usize, socket: SocketName) -> (r: Result<
        bool,
        RequestError,
    >)
        requires
            old(self).wf(),
        ensures
            final(self).wf(),
            *final(self) == *old(self),
            ({
                let i = socket.spec_index();
                if old(self).owner_of(i) != caller {
                    r matches Err(e) && e == RequestError::Runtime(AetherError::WrongOwner)
                } else {
                    match old(self).sock(i) {
                        SockView::Udp(_) => r matches Err(e) && e == RequestError::Runtime(
                            AetherError::WrongSocketType,
                        ),
                        SockView::Tcp(t) => r matches Ok(b) && b == (tcp_may_send(t.state)
                            && tcp_readable(t)),
                    }
                }
            }),
    {
        let i = socket.index();
        if self.owners[i].0 != caller {
            return Err(RequestError::Runtime(AetherError::WrongOwner));
        }
        match &self.sockets[i] {
            Socket::Udp(_) => Err(RequestError::Runtime(AetherError::WrongSocketType)),
            Socket::Tcp(t) => {
                match t.state {
                    TcpState::Active { established, local_closed, remote_closed, .. } => {
                        Ok(established && !local_closed && (!remote_closed || t.rx.len() > 0))
                    },
                    _ => Ok(false),
                }
            },
        }
    }

    /// Serve `send_tcp_data`: append as much of the payload as the
    /// send buffer holds and return how many bytes were taken.  With
    /// no room at all the call fails with `QueueFull` and the client
    /// is recorded as waiting; on a socket whose send half is not
    /// open the stack's rejection surfaces as `Unknown`.
    pub fn send_tcp_data(&mut self, caller: usize, socket: SocketName, payload: &[u8]) -> (r:
        Result<u32, RequestError>)
        requires
            old(self).wf(),
            payload@.len() <= u32::MAX,
        ensures
            final(self).wf(),
            final(self).owners@ == old(self).owners@,
            ({
                let i = socket.spec_index();
                if old(self).owner_of(i) != caller {
                    &&& r matches Err(e) && e == RequestError::Runtime(AetherError::WrongOwner)
                    &&& *final(self) == *old(self)
                } else {
                    match old(self).sock(i) {
                        SockView::Udp(_) => {
                            &&& r matches Err(e) && e == RequestError::Runtime(
                                AetherError::WrongSocketType,
                            )
                            &&& *final(self) == *old(self)
                        },
                        SockView::Tcp(t) => if !tcp_may_send(t.state) {
                            &&& r matches Err(e) && e == RequestError::Runtime(
                                AetherError::Unknown,
                            )
                            &&& *final(self) == *old(self)
                        } else {
                            let room = t.tx_cap - t.tx.len();
                            let n = if payload@.len() <= room {
                                payload@.len() as int
                            } else {
                                room
                            };
                            if n == 0 {
                                &&& r matches Err(e) && e == RequestError::Runtime(
                                    AetherError::QueueFull,
                                )
                                &&& AetherServer::frame_except(*old(self), *final(self), i)
                                &&& final(self).sock(i) =~~= old(self).sock(i)
                                &&& final(self).waiting(i)
                            } else {
                                &&& r matches Ok(len) && len == n
                                &&& AetherServer::frame_except(*old(self), *final(self), i)
                                &&& final(self).sock(i) =~~= SockView::Tcp(
                                    TcpView { tx: t.tx + payload@.subrange(0, n), ..t },
                                )
                                &&& !final(self).waiting(i)
                            }
                        },
                    }
                }
            }),
    {
        let i = socket.index();
        if self.owners[i].0 != caller {
            return Err(RequestError::Runtime(AetherError::WrongOwner));
        }
        let room: usize;
        match &self.sockets[i] {
            Socket::Udp(_) => {
                return Err(RequestError::Runtime(AetherError::WrongSocketType));
            },
            Socket::Tcp(t) => {
                let may_send: bool;
                match t.state {
                    TcpState::Active { established, local_closed, .. } => {
                        may_send = established && !local_closed;
                    },
                    _ => {
                        may_send = false;
                    },
                }
                if !may_send {
                    return Err(RequestError::Runtime(AetherError::Unknown));
                }
                room = t.tx_cap - t.tx.len();
            },
        }
        let n = if payload.len() <= room {
            payload.len()
        } else {
            room
        };
        if n == 0 {
            self.client_waiting_to_send[i] = true;
            return Err(RequestError::Runtime(AetherError::QueueFull));
        }
        let s = &mut self.sockets[i];
        match s {
            Socket::Tcp(t) => {
                let ghost pre_tx = t.tx@;
                let mut j: usize = 0;
                while j < n
                    invariant
                        j <= n,
                        n <= payload@.len(),
                        t.tx@.len() == pre_tx.len() + j,
                        t.tx@ =~= pre_tx + payload@.subrange(0, j as int),
                        pre_tx.len() + n <= t.tx_cap,
                        t.state == old(self).sock(i as int)->Tcp_0.state,
                        t.rx@ == old(self).sock(i as int)->Tcp_0.rx,
                        t.rx_cap == old(self).sock(i as int)->Tcp_0.rx_cap,
                        t.tx_cap == old(self).sock(i as int)->Tcp_0.tx_cap,
                    decreases n - j,
                {
                    t.tx.push(payload[j]);
                    proof {
                        assert(t.tx@ =~= pre_tx + payload@.subrange(0, j + 1));
                    }
                    j += 1;
                }
            },
            Socket::Udp(_) => {
                proof {
                    assert(false);
                }
                return Err(RequestError::WentAway);
            },
        }
        self.client_waiting_to_send[i] = false;
        Ok(n as u32)
    }

    /// Serve `recv_tcp_data`: drain everything the receive buffer
    /// holds.  The buffer is drained before the kernel copy, so a
    /// lease smaller than the buffered data fails with `BadLease` and
    /// the data is gone.  Bytes that arrived before the peer's close
    /// are still delivered; only once the buffer is empty does a
    /// closed remote half report `RemoteTcpClose`.  A socket with
    /// nothing buffered and both halves open (or no connection at
    /// all) reports `QueueEmpty`.
    pub fn recv_tcp_data(&mut self, caller: usize, socket: SocketName, lease_cap: usize) -> (r:
        Result<Vec<u8>, RequestError>)
        requires
            old(self).wf(),
        ensures
            final(self).wf(),
            final(self).owners@ == old(self).owners@,
            ({
                let i = socket.spec_index();
                if old(self).owner_of(i) != caller {
                    &&& r matches Err(e) && e == RequestError::Runtime(AetherError::WrongOwner)
                    &&& *final(self) == *old(self)
                } else {
                    match old(self).sock(i) {
                        SockView::Udp(_) => {
                            &&& r matches Err(e) && e == RequestError::Runtime(
                                AetherError::WrongSocketType,
                            )
                            &&& *final(self) == *old(self)
                        },
                        SockView::Tcp(t) => if tcp_readable(t) {
                            if t.rx.len() == 0 {
                                &&& r matches Err(e) && e == RequestError::Runtime(
                                    AetherError::QueueEmpty,
                                )
                                &&& *final(self) == *old(self)
                            } else {
                                &&& AetherServer::frame_except(*old(self), *final(self), i)
                                &&& final(self).waiting(i) == old(self).waiting(i)
                                &&& final(self).sock(i) =~~= SockView::Tcp(
                                    TcpView { rx: Seq::<u8>::empty(), ..t },
                                )
                                &&& if lease_cap < t.rx.len() {
                                    r matches Err(e) && e == RequestError::BadLease
                                } else {
                                    r matches Ok(data) && data@ == t.rx
                                }
                            }
                        } else if tcp_may_send(t.state) {
                            &&& r matches Err(e) && e == RequestError::Runtime(
                                AetherError::RemoteTcpClose,
                            )
                            &&& *final(self) == *old(self)
                        } else {
                            &&& r matches Err(e) && e == RequestError::Runtime(
                                AetherError::QueueEmpty,
                            )
                            &&& *final(self) == *old(self)
                        },
                    }
                }
            }),
    {
        let i = socket.index();
        if self.owners[i].0 != caller {
            return Err(RequestError::Runtime(AetherError::WrongOwner));
        }
        match &self.sockets[i] {
            Socket::Udp(_) => {
                return Err(RequestError::Runtime(AetherError::WrongSocketType));
            },
            Socket::Tcp(t) => {
                let readable: bool;
                let may_send: bool;
                match t.state {
                    TcpState::Active { established, local_closed, remote_closed, .. } => {
                        readable = established && (!remote_closed || t.rx.len() > 0);
                        may_send = established && !local_closed;
                    },
                    _ => {
                        readable = false;
                        may_send = false;
                    },
                }
                if !readable {
                    if may_send {
                        return Err(RequestError::Runtime(AetherError::RemoteTcpClose));
                    }
                    return Err(RequestError::Runtime(AetherError::QueueEmpty));
                }
                if t.rx.len() == 0 {
                    return Err(RequestError::Runtime(AetherError::QueueEmpty));
                }
            },
        }
        let s = &mut self.sockets[i];
        match s {
            Socket::Tcp(t) => {
                let mut data: Vec<u8> = Vec::new();
                std::mem::swap(&mut data, &mut t.rx);
                if lease_cap < data.len() {
                    Err(RequestError::BadLease)
                } else {
                    Ok(data)
                }
            },
            Socket::Udp(_) => {
                proof {
                    assert(false);
                }
                Err(RequestError::WentAway)
            },
        }
    }
}

impl AetherServer {
    /// The polling loop reports a finished handshake.  A listening
    /// socket becomes the accepted connection; a connecting socket
    /// becomes established with its stored endpoint.
    pub fn tcp_established(&mut self, socket: SocketName, remote: TcpMetadata) -> (accepted: bool)
        requires
            old(self).wf(),
        ensures
            final(self).wf(),
            final(self).owners@ == old(self).owners@,
            ({
                let i = socket.spec_index();
                match old(self).sock(i) {
                    SockView::Udp(_) => !accepted && *final(self) == *old(self),
                    SockView::Tcp(t) => match t.state {
                        TcpState::Listen { port } => {
                            &&& accepted
                            &&& AetherServer::frame_except(*old(self), *final(self), i)
                            &&& final(self).waiting(i) == old(self).waiting(i)
                            &&& final(self).sock(i) =~~= SockView::Tcp(
                                TcpView {
                                    state: TcpState::Active {
                                        remote,
                                        local_port: port,
                                        established: true,
                                        local_closed: false,
                                        remote_closed: false,
                                    },
                                    ..t
                                },
                            )
                        },
                        TcpState::Active {
                            remote: r0,
                            local_port,
                            established: false,
                            local_closed,
                            remote_closed,
                        } => {
                            &&& accepted
                            &&& AetherServer::frame_except(*old(self), *final(self), i)
                            &&& final(self).waiting(i) == old(self).waiting(i)
                            &&& final(self).sock(i) =~~= SockView::Tcp(
                                TcpView {
                                    state: TcpState::Active {
                                        remote: r0,
                                        local_port,
                                        established: true,
                                        local_closed,
                                        remote_closed,
                                    },
                                    ..t
                                },
                            )
                        },
                        _ => !accepted && *final(self) == *old(self),
                    },
                }
            }),
    {
        let i = socket.index();
        let next: TcpState;
        match &self.sockets[i] {
            Socket::Udp(_) => {
                return false;
            },
            Socket::Tcp(t) => {
                match t.state {
                    TcpState::Listen { port } => {
                        next = TcpState::Active {
                            remote,
                            local_port: port,
                            established: true,
                            local_closed: false,
                            remote_closed: false,
                        };
                    },
                    TcpState::Active {
                        remote: r0,
                        local_port,
                        established: false,
                        local_closed,
                        remote_closed,
                    } => {
                        next = TcpState::Active {
                            remote: r0,
                            local_port,
                            established: true,
                            local_closed,
                            remote_closed,
                        };
                    },
                    _ => {
                        return false;
                    },
                }
            },
        }
        let s = &mut self.sockets[i];
        match s {
            Socket::Tcp(t) => {
                t.state = next;
                true
            },
            Socket::Udp(_) => {
                proof {
                    assert(false);
                }
                false
            },
        }
    }

    /// The polling loop delivers inbound connection bytes: as many as
    /// the receive buffer holds are appended, in order, and the count
    /// taken is returned (the stack's receive window holds the rest).
    /// A socket whose receive half is not open takes nothing.
    pub fn tcp_data_arrived(&mut self, socket: SocketName, bytes: &[u8]) -> (taken: usize)
        requires
            old(self).wf(),
        ensures
            final(self).wf(),
            final(self).owners@ == old(self).owners@,
            ({
                let i = socket.spec_index();
                match old(self).sock(i) {
                    SockView::Udp(_) => taken == 0 && *final(self) == *old(self),
                    SockView::Tcp(t) => if !tcp_may_recv(t.state) {
                        taken == 0 && *final(self) == *old(self)
                    } else {
                        let room = t.rx_cap - t.rx.len();
                        let n = if bytes@.len() <= room {
                            bytes@.len() as int
                        } else {
                            room
                        };
                        &&& taken == n
                        &&& AetherServer::frame_except(*old(self), *final(self), i)
                        &&& final(self).waiting(i) == old(self).waiting(i)
                        &&& final(self).sock(i) =~~= SockView::Tcp(
                            TcpView { rx: t.rx + bytes@.subrange(0, n), ..t },
                        )
                    },
                }
            }),
    {
        let i = socket.index();
        let room: usize;
        match &self.sockets[i] {
            Socket::Udp(_) => {
                return 0;
            },
            Socket::Tcp(t) => {
                let may_recv: bool;
                match t.state {
                    TcpState::Active { established, remote_closed, .. } => {
                        may_recv = established && !remote_closed;
                    },
                    _ => {
                        may_recv = false;
                    },
                }
                if !may_recv {
                    return 0;
                }
                room = t.rx_cap - t.rx.len();
            },
        }
        let n = if bytes.len() <= room {
            bytes.len()
        } else {
            room
        };
        let s = &mut self.sockets[i];
        match s {
            Socket::Tcp(t) => {
                let ghost pre_rx = t.rx@;
                let mut j: usize = 0;
                while j < n
                    invariant
                        j <= n,
                        n <= bytes@.len(),
                        t.rx@ =~= pre_rx + bytes@.subrange(0, j as int),
                        pre_rx.len() + n <= t.rx_cap,
                        t.state == old(self).sock(i as int)->Tcp_0.state,
                        t.tx@ == old(self).sock(i as int)->Tcp_0.tx,
                        t.rx_cap == old(self).sock(i as int)->Tcp_0.rx_cap,
                        t.tx_cap == old(self).sock(i as int)->Tcp_0.tx_cap,
                    decreases n - j,
                {
                    t.rx.push(bytes[j]);
                    proof {
                        assert(t.rx@ =~= pre_rx + bytes@.subrange(0, j + 1));
                    }
                    j += 1;
                }
                n
            },
            Socket::Udp(_) => {
                proof {
                    assert(false);
                }
                0
            },
        }
    }

    /// The polling loop reports that the peer closed its half of the
    /// connection.
    pub fn tcp_remote_closed(&mut self, socket: SocketName) -> (accepted: bool)
        requires
            old(self).wf(),
        ensures
            final(self).wf(),
            final(self).owners@ == old(self).owners@,
            ({
                let i = socket.spec_index();
                match old(self).sock(i) {
                    SockView::Udp(_) => !accepted && *final(self) == *old(self),
                    SockView::Tcp(t) => match t.state {
                        TcpState::Active {
                            remote,
                            local_port,
                            established,
                            local_closed,
                            remote_closed,
                        } => {
                            &&& accepted
                            &&& AetherServer::frame_except(*old(self), *final(self), i)
                            &&& final(self).waiting(i) == old(self).waiting(i)
                            &&& final(self).sock(i) =~~= SockView::Tcp(
                                TcpView {
                                    state: TcpState::Active {
                                        remote,
                                        local_port,
                                        established,
                                        local_closed,
                                        remote_closed: true,
                                    },
                                    ..t
                                },
                            )
                        },
                        _ => !accepted && *final(self) == *old(self),
                    },
                }
            }),
    {
        let i = socket.index();
        let next: TcpState;
        match &self.sockets[i] {
            Socket::Udp(_) => {
                return false;
            },
            Socket::Tcp(t) => {
                match t.state {
                    TcpState::Active {
                        remote,
                        local_port,
                        established,
                        local_closed,
                        remote_closed: _,
                    } => {
                        next = TcpState::Active {
                            remote,
                            local_port,
                            established,
                            local_closed,
                            remote_closed: true,
                        };
                    },
                    _ => {
                        return false;
                    },
                }
            },
        }
        let s = &mut self.sockets[i];
        match s {
            Socket::Tcp(t) => {
                t.state = next;
                true
            },
            Socket::Udp(_) => {
                proof {
                    assert(false);
                }
                false
            },
        }
    }

    /// The polling loop drains up to `max` outbound bytes for
    /// transmission, in order.
    pub fn take_tcp_outbound(&mut self, socket: SocketName, max: usize) -> (r: Vec<u8>)
        requires
            old(self).wf(),
        ensures
            final(self).wf(),
            final(self).owners@ == old(self).owners@,
            ({
                let i = socket.spec_index();
                match old(self).sock(i) {
                    SockView::Udp(_) => r@.len() == 0 && *final(self) == *old(self),
                    SockView::Tcp(t) => {
                        let n = if max <= t.tx.len() {
                            max as int
                        } else {
                            t.tx.len() as int
                        };
                        &&& r@ == t.tx.subrange(0, n)
                        &&& AetherServer::frame_except(*old(self), *final(self), i)
                        &&& final(self).waiting(i) == old(self).waiting(i)
                        &&& final(self).sock(i) =~~= SockView::Tcp(
                            TcpView { tx: t.tx.subrange(n, t.tx.len() as int), ..t },
                        )
                    },
                }
            }),
    {
        let i = socket.index();
        match &self.sockets[i] {
            Socket::Udp(_) => {
                return Vec::new();
            },
            Socket::Tcp(_) => {},
        }
        let s = &mut self.sockets[i];
        match s {
            Socket::Tcp(t) => {
                let ghost t0 = *t;
                let n = if max <= t.tx.len() {
                    max
                } else {
                    t.tx.len()
                };
                let mut out: Vec<u8> = Vec::new();
                let mut j: usize = 0;
                while j < n
                    invariant
                        j <= n,
                        n <= t.tx@.len(),
                        *t == t0,
                        out@.len() == j,
                        forall|k: int| 0 <= k < j ==> out@[k] == t.tx@[k],
                    decreases n - j,
                {
                    out.push(t.tx[j]);
                    j += 1;
                }
                let mut rest: Vec<u8> = Vec::new();
                let mut k: usize = n;
                while k < t.tx.len()
                    invariant
                        n <= k <= t.tx@.len(),
                        *t == t0,
                        rest@.len() == k - n,
                        forall|m: int| 0 <= m < k - n ==> rest@[m] == t.tx@[n + m],
                    decreases t.tx@.len() - k,
                {
                    rest.push(t.tx[k]);
                    k += 1;
                }
                proof {
                    assert(rest@ =~= t.tx@.subrange(n as int, t.tx@.len() as int));
                    assert(out@ =~= t.tx@.subrange(0, n as int));
                }
                std::mem::swap(&mut t.tx, &mut rest);
                out
            },
            Socket::Udp(_) => {
                proof {
                    assert(false);
                }
                Vec::new()
            },
        }
    }

    /// Everything but the DNS query is unchanged.
    pub open spec fn frame_dns(pre: AetherServer, post: AetherServer) -> bool {
        &&& post.sockets@ == pre.sockets@
        &&& post.owners@ == pre.owners@
        &&& post.client_waiting_to_send@ == pre.client_waiting_to_send@
        &&& post.addr == pre.addr
    }

    /// Serve `start_resolve_query`: begin resolving a hostname.  Only
    /// one query may be in flight.
    pub fn start_resolve_query(&mut self, hostname: &[u8]) -> (r: Result<(), RequestError>)
        requires
            old(self).wf(),
        ensures
            final(self).wf(),
            AetherServer::frame_dns(*old(self), *final(self)),
            ({
                if old(self).dns_query is Some {
                    &&& r matches Err(e) && e == RequestError::Runtime(
                        AetherError::DnsQueryAlreadyInflight,
                    )
                    &&& *final(self) == *old(self)
                } else {
                    &&& r matches Ok(_)
                    &&& final(self).dns_query matches Some(q) && q.hostname@ == hostname@
                        && q.state is Pending
                }
            }),
    {
        if self.dns_query.is_some() {
            return Err(RequestError::Runtime(AetherError::DnsQueryAlreadyInflight));
        }
        let name = copy_bytes(hostname);
        self.dns_query = Some(DnsQuery { hostname: name, state: DnsQueryState::Pending });
        Ok(())
    }

    /// Serve `resolve_query`: poll the in-flight query.  A pending
    /// query reports `QueueEmpty` so the caller retries; an answered
    /// or failed query is consumed.
    pub fn resolve_query(&mut self) -> (r: Result<Ipv6Address, RequestError>)
        requires
            old(self).wf(),
        ensures
            final(self).wf(),
            AetherServer::frame_dns(*old(self), *final(self)),
            ({
                match old(self).dns_query {
                    None => {
                        &&& r matches Err(e) && e == RequestError::Runtime(
                            AetherError::NoPendingDnsQuery,
                        )
                        &&& *final(self) == *old(self)
                    },
                    Some(q) => match q.state {
                        DnsQueryState::Pending => {
                            &&& r matches Err(e) && e == RequestError::Runtime(
                                AetherError::QueueEmpty,
                            )
                            &&& *final(self) == *old(self)
                        },
                        DnsQueryState::Done(a) => {
                            &&& r matches Ok(out) && out@ == a@
                            &&& final(self).dns_query is None
                        },
                        DnsQueryState::Failed => {
                            &&& r matches Err(e) && e == RequestError::Runtime(
                                AetherError::DnsFailure,
                            )
                            &&& final(self).dns_query is None
                        },
                    },
                }
            }),
    {
        match &self.dns_query {
            None => Err(RequestError::Runtime(AetherError::NoPendingDnsQuery)),
            Some(q) => {
                match q.state {
                    DnsQueryState::Pending => Err(RequestError::Runtime(AetherError::QueueEmpty)),
                    DnsQueryState::Done(a) => {
                        self.dns_query = None;
                        Ok(a)
                    },
                    DnsQueryState::Failed => {
                        self.dns_query = None;
                        Err(RequestError::Runtime(AetherError::DnsFailure))
                    },
                }
            },
        }
    }

    /// The polling loop reports the outcome of the in-flight query:
    /// the first AAAA record, or failure.
    pub fn dns_answer_arrived(&mut self, answer: Option<Ipv6Address>) -> (accepted: bool)
        requires
            old(self).wf(),
        ensures
            final(self).wf(),
            AetherServer::frame_dns(*old(self), *final(self)),
            ({
                match old(self).dns_query {
                    Some(q) => if q.state is Pending {
                        &&& accepted
                        &&& final(self).dns_query matches Some(q2) && q2.hostname@ == q.hostname@
                            && match answer {
                            Some(a) => q2.state matches DnsQueryState::Done(b) && a@ == b@,
                            None => q2.state is Failed,
                        }
                    } else {
                        !accepted && *final(self) == *old(self)
                    },
                    None => !accepted && *final(self) == *old(self),
                }
            }),
    {
        let pending = match &self.dns_query {
            Some(q) => matches!(q.state, DnsQueryState::Pending),
            None => false,
        };
        if !pending {
            return false;
        }
        let name = match &mut self.dns_query {
            Some(q) => {
                let mut taken: Vec<u8> = Vec::new();
                std::mem::swap(&mut taken, &mut q.hostname);
                taken
            },
            None => {
                proof {
                    assert(false);
                }
                Vec::new()
            },
        };
        let state = match answer {
            Some(a) => DnsQueryState::Done(a),
            None => DnsQueryState::Failed,
        };
        self.dns_query = Some(DnsQuery { hostname: name, state });
        true
    }
}

impl AetherServer {
    /// Socket `i` has work for its owner: something to read, or room
    /// to send while its client waits for room.
    pub open spec fn should_wake(self, i: int) -> bool {
        match self.sock(i) {
            SockView::Udp(u) => u.rx.len() > 0 || (self.waiting(i) && u.tx.len() < u.tx_cap),
            SockView::Tcp(t) => (tcp_readable(t) && t.rx.len() > 0) || (self.waiting(i)
                && tcp_may_send(t.state) && t.tx.len() < t.tx_cap),
        }
    }

    /// The owners to notify, in table order, starting at socket `i`.
    pub open spec fn wake_list(self, i: int) -> Seq<(usize, u32)>
        decreases SOCKET_COUNT - i when 0 <= i <= SOCKET_COUNT
    {
        if i >= SOCKET_COUNT {
            Seq::empty()
        } else {
            (if self.should_wake(i) {
                seq![self.owners@[i]]
            } else {
                Seq::empty()
            }) + self.wake_list(i + 1)
        }
    }

    /// After a poll found activity, list every socket owner to wake:
    /// those whose socket is readable, and those waiting to send
    /// whose socket has room again.
    pub fn wake_sockets(&self) -> (r: Vec<(usize, u32)>)
        requires
            self.wf(),
        ensures
            r@ == self.wake_list(0),
    {
        let mut out: Vec<(usize, u32)> = Vec::new();
        let mut i: usize = 0;
        while i < SOCKET_COUNT
            invariant
                self.wf(),
                i <= SOCKET_COUNT,
                self.wake_list(0) == out@ + self.wake_list(i as int),
            decreases SOCKET_COUNT - i,
        {
            let wake: bool;
            match &self.sockets[i] {
                Socket::Udp(u) => {
                    wake = u.rx.len() > 0 || (self.client_waiting_to_send[i] && u.tx.len()
                        < u.tx_cap);
                },
                Socket::Tcp(t) => {
                    let readable: bool;
                    let may_send: bool;
                    match t.state {
                        TcpState::Active { established, local_closed, remote_closed, .. } => {
                            readable = established && (!remote_closed || t.rx.len() > 0);
                            may_send = established && !local_closed;
                        },
                        _ => {
                            readable = false;
                            may_send = false;
                        },
                    }
                    wake = (readable && t.rx.len() > 0) || (self.client_waiting_to_send[i]
                        && may_send && t.tx.len() < t.tx_cap);
                },
            }
            proof {
                assert(wake == self.should_wake(i as int));
            }
            let ghost pre = out@;
            if wake {
                out.push(self.owners[i]);
                proof {
                    assert(pre + self.wake_list(i as int) =~= (pre + seq![self.owners@[i as int]])
                        + self.wake_list(i + 1));
                }
            }
            i += 1;
        }
        proof {
            assert(out@ + self.wake_list(SOCKET_COUNT as int) =~= out@);
        }
        out
    }

    /// The notification bits the interface task listens on: the
    /// radio interrupt and the re-poll timer.
    pub fn current_notification_mask(&self) -> (r: u32)
        ensures
            r == RADIO_IRQ | TIMER_MASK,
    {
        RADIO_IRQ | TIMER_MASK
    }

    /// Decide what a kernel notification asks for: re-arm the radio
    /// interrupt when its bit is set, and set the next re-poll
    /// deadline when the timer bit is set.
    pub fn handle_notification(&self, bits: u32, now: u64) -> (r: (bool, Option<u64>))
        requires
            now + TIMER_INTERVAL <= u64::MAX,
        ensures
            r.0 == ((bits & RADIO_IRQ) != 0),
            r.1 == if (bits & TIMER_MASK) != 0 {
                Some((now + TIMER_INTERVAL) as u64)
            } else {
                None::<u64>
            },
    {
        let rearm = (bits & RADIO_IRQ) != 0;
        let deadline = if (bits & TIMER_MASK) != 0 {
            Some(now + TIMER_INTERVAL)
        } else {
            None
        };
        (rearm, deadline)
    }
}

/// Law: a UDP datagram sent on a lone socket is observed exactly
/// once, with its metadata and its bytes intact.  On the inputs where
/// `send_udp_packet` succeeds — a nonempty payload the metadata
/// describes, an addressable destination, room in the queue — it
/// appends the pair to the sender's queue; `take_udp_outbound` hands
/// the interface exactly the queue head; delivery appends that pair
/// to the receiver's queue; and `recv_udp_packet` returns the
/// receiver's queue head — the very metadata and payload that were
/// sent.
pub proof fn lemma_udp_round_trip(sender: UdpView, receiver: UdpView, m: UdpMetadata, p: Seq<u8>)
    requires
        sender.tx.len() == 0,
        sender.tx_cap > 0,
        receiver.rx.len() == 0,
        receiver.rx_cap > 0,
        m.payload_len == p.len(),
        p.len() > 0,
        m.port != 0,
        !m.addr.spec_is_unspecified(),
    ensures
        ({
            let sent = UdpView { tx: sender.tx.push((m, p)), ..sender };
            let forwarded = sent.tx[0];
            let delivered = UdpView { rx: receiver.rx.push(forwarded), ..receiver };
            delivered.rx[0] == (m, p)
        }),
{
}

/// Law: TCP bytes arrive in the order they were written.  Two writes
/// that the send buffer accepted in full sit in the buffer as the
/// first payload followed by the second.
pub proof fn lemma_tcp_send_order(b: TcpView, first: Seq<u8>, second: Seq<u8>)
    requires
        b.tx.len() == 0,
    ensures
        ({
            let s1 = TcpView { tx: b.tx + first.subrange(0, first.len() as int), ..b };
            let s2 = TcpView { tx: s1.tx + second.subrange(0, second.len() as int), ..s1 };
            s2.tx =~= first + second
        }),
{
    assert(first.subrange(0, first.len() as int) =~= first);
    assert(second.subrange(0, second.len() as int) =~= second);
}

/// Law: a loopback round trip returns what was sent.  A payload that
/// `send_tcp_data` accepted in full, drained by `take_tcp_outbound`
/// and delivered whole into an empty receive buffer, is exactly what
/// `recv_tcp_data` then drains.
pub proof fn lemma_tcp_round_trip(a: TcpView, b: TcpView, payload: Seq<u8>)
    requires
        b.tx.len() == 0,
        a.rx.len() == 0,
    ensures
        ({
            let sent = TcpView { tx: b.tx + payload.subrange(0, payload.len() as int), ..b };
            let wire = sent.tx.subrange(0, sent.tx.len() as int);
            let delivered = TcpView { rx: a.rx + wire.subrange(0, wire.len() as int), ..a };
            delivered.rx =~= payload
        }),
{
    assert(payload.subrange(0, payload.len() as int) =~= payload);
}

/// Law: a close on one side surfaces as `RemoteTcpClose` on the
/// other.  Once the peer's close is recorded on an established
/// connection and the receive buffer has been drained, the socket is
/// no longer readable while its send half is still open — exactly the
/// condition under which `recv_tcp_data` reports `RemoteTcpClose`.
pub proof fn lemma_remote_close_surfaces(
    remote: TcpMetadata,
    local_port: u16,
    local_closed: bool,
    tx: Seq<u8>,
    rx_cap: int,
    tx_cap: int,
)
    requires
        !local_closed,
    ensures
        ({
            let closed = TcpState::Active {
                remote,
                local_port,
                established: true,
                local_closed,
                remote_closed: true,
            };
            let drained = TcpView { state: closed, rx: Seq::empty(), tx, rx_cap, tx_cap };
            !tcp_readable(drained) && tcp_may_send(drained.state)
        }),
{
}

/// Copy a byte slice into an owned vector.
fn copy_bytes(src: &[u8]) -> (r: Vec<u8>)
    ensures
        r@ =~= src@,
{
    let mut out: Vec<u8> = Vec::new();
    let mut i: usize = 0;
    while i < src.len()
        invariant
            i <= src@.len(),
            out@.len() == i,
            forall|j: int| 0 <= j < i ==> out@[j] == src@[j],
        decreases src@.len() - i,
    {
        out.push(src[i]);
        i += 1;
    }
    out
}

} // verus!
