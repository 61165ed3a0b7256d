//! The blocking TCP facade and clock an MQTT client runs on.
//!
//! The client library expects a socket-style network stack and a
//! monotonic clock.  `NetworkLayer` maps the interface task's socket
//! operations onto that expectation — in particular a full send
//! buffer or an empty receive buffer surface as "would block", so the
//! client retries instead of failing — and `ClockLayer` derives the
//! client's instant from the kernel tick counter.

use vstd::prelude::*;
use crate::net::{AetherError, Ipv6Address, TcpMetadata};
use crate::server::{AetherServer, RequestError};
use crate::socket::{tcp_may_send, tcp_readable, SockView, SocketName, TcpState, TcpView};

verus! {

/// A socket address as the MQTT client hands it down: the adapter
/// itself speaks IPv6 only.
#[derive(Clone, Copy, Debug)]
pub enum SocketAddress {
    V4([u8; 4], u16),
    V6([u8; 16], u16),
}

/// A non-blocking result: retry later, or a real error.
#[derive(Clone, Copy, Debug)]
pub enum NbError {
    /// Nothing to do now; retry.
    WouldBlock,
    /// A protocol failure.
    Other(AetherError),
}

/// Map a socket address onto the interface task's endpoint record.
/// Anything but IPv6 is refused.
pub fn socket_addr_to_metadata(addr: SocketAddress) -> (r: Result<TcpMetadata, AetherError>)
    ensures
        match addr {
            SocketAddress::V6(bytes, port) => r matches Ok(m) && m == (TcpMetadata {
                addr: Ipv6Address(bytes),
                port,
            }),
            SocketAddress::V4(_, _) => r matches Err(e) && e == AetherError::NotIpv6,
        },
{
    match addr {
        SocketAddress::V6(bytes, port) => Ok(TcpMetadata { addr: Ipv6Address(bytes), port }),
        SocketAddress::V4(_, _) => Err(AetherError::NotIpv6),
    }
}

/// The clock scaling: kernel ticks per client-clock unit on the
/// 64 MHz core.
pub const CLOCK_SCALING_DENOMINATOR: u32 = 64000;

/// The monotonic clock handed to the MQTT client.
pub struct ClockLayer {}

impl ClockLayer {
    /// The client's instant: the kernel tick counter, wrapping at 32
    /// bits.
    pub fn try_now(&self, ticks: u64) -> (r: u32)
        ensures
            r == ticks as u32,
    {
        #[verifier::truncate]
        let t = ticks as u32;
        t
    }
}

/// The MQTT client's view of the network: one preconfigured TCP
/// socket served by the interface task on behalf of one client task.
pub struct NetworkLayer {
    pub socket: SocketName,
    pub task: usize,
}

impl NetworkLayer {
    /// The preconfigured socket.
    pub fn socket(&self) -> (r: SocketName)
        ensures
            r == self.socket,
    {
        self.socket
    }

    /// Connect the socket to `addr`, which must be IPv6; anything
    /// else is rejected as `NotIpv6` with no connection attempted.
    /// An IPv6 address is forwarded to the interface task's TCP
    /// connect: on a closed socket with a usable endpoint the socket
    /// enters its connecting state, with the local port drawn from
    /// the random-number driver's entropy word; otherwise the
    /// interface task's error comes back wrapped.
    pub fn connect(&self, server: &mut AetherServer, addr: SocketAddress, entropy: u32) -> (r:
        Result<(), NbError>)
        requires
            old(server).wf(),
        ensures
            final(server).wf(),
            final(server).owners@ == old(server).owners@,
            (addr matches SocketAddress::V4(_, _)) ==> (r matches Err(e) && e == NbError::Other(
                AetherError::NotIpv6,
            ) && *final(server) == *old(server)),
            (addr matches SocketAddress::V6(bytes, port) ==> ({
                let i = self.socket.spec_index();
                let remote = TcpMetadata { addr: Ipv6Address(bytes), port };
                if old(server).owner_of(i) != self.task {
                    (r matches Err(e) && e == NbError::Other(AetherError::WrongOwner)) && *final(server) == *old(server)
                } else {
                    match old(server).sock(i) {
                        SockView::Udp(_) => (r matches Err(e) && e == NbError::Other(
                            AetherError::WrongSocketType,
                        )) && *final(server) == *old(server),
                        SockView::Tcp(t) => if t.state is Closed && port != 0
                            && !remote.addr.spec_is_unspecified() {
                            &&& r matches Ok(_)
                            &&& AetherServer::frame_except(*old(server), *final(server), i)
                            &&& final(server).waiting(i) == old(server).waiting(i)
                            &&& final(server).sock(i) =~~= SockView::Tcp(
                                TcpView {
                                    state: TcpState::Active {
                                        remote,
                                        local_port: (1024 + (entropy % 64511)) as u16,
                                        established: false,
                                        local_closed: false,
                                        remote_closed: false,
                                    },
                                    ..t
                                },
                            )
                        } else {
                            (r matches Err(e) && e == NbError::Other(AetherError::TcpFailConnect))
                                && *final(server) == *old(server)
                        },
                    }
                }
            })),
    {
        let metadata = match socket_addr_to_metadata(addr) {
            Ok(m) => m,
            Err(e) => {
                return Err(NbError::Other(e));
            },
        };
        match server.tcp_connect(self.task, self.socket, metadata, entropy) {
            Ok(_) => Ok(()),
            Err(RequestError::Runtime(e)) => Err(NbError::Other(e)),
            Err(_) => Err(NbError::Other(AetherError::Unknown)),
        }
    }

    /// The connection can still send and still be read.  The caller
    /// sleeps briefly between polls to avoid busy-looping during the
    /// handshake.
    pub fn is_connected(&self, server: &mut AetherServer) -> (r: Result<bool, NbError>)
        requires
            old(server).wf(),
        ensures
            final(server).wf(),
            *final(server) == *old(server),
            ({
                let i = self.socket.spec_index();
                if old(server).owner_of(i) != self.task {
                    r matches Err(e) && e == NbError::Other(AetherError::WrongOwner)
                } else {
                    match old(server).sock(i) {
                        SockView::Tcp(t) => r matches Ok(b) && b == (tcp_may_send(t.state)
                            && tcp_readable(t)),
                        SockView::Udp(_) => r matches Err(e) && e == NbError::Other(
                            AetherError::WrongSocketType,
                        ),
                    }
                }
            }),
    {
        match server.is_tcp_active(self.task, self.socket) {
            Ok(b) => Ok(b),
            Err(RequestError::Runtime(e)) => Err(NbError::Other(e)),
            Err(_) => Err(NbError::Other(AetherError::Unknown)),
        }
    }

    /// Send bytes on the socket.  The count actually accepted comes
    /// back and never exceeds the payload; a full send buffer is
    /// `WouldBlock` so the client retries.
    pub fn send(&self, server: &mut AetherServer, bytes: &[u8]) -> (r: Result<usize, NbError>)
        requires
            old(server).wf(),
            bytes@.len() <= u32::MAX,
        ensures
            final(server).wf(),
            final(server).owners@ == old(server).owners@,
            r matches Ok(n) ==> n <= bytes@.len(),
            ({
                let i = self.socket.spec_index();
                if old(server).owner_of(i) != self.task {
                    (r matches Err(e) && e == NbError::Other(AetherError::WrongOwner)) && *final(server) == *old(server)
                } else {
                    match old(server).sock(i) {
                        SockView::Udp(_) => (r matches Err(e) && e == NbError::Other(
                            AetherError::WrongSocketType,
                        )) && *final(server) == *old(server),
                        SockView::Tcp(t) => if !tcp_may_send(t.state) {
                            (r matches Err(e) && e == NbError::Other(AetherError::Unknown))
                                && *final(server) == *old(server)
                        } else {
                            let room = t.tx_cap - t.tx.len();
                            let n = if bytes@.len() <= room {
                                bytes@.len() as int
                            } else {
                                room
                            };
                            if n == 0 {
                                &&& r matches Err(e) && e is WouldBlock
                                &&& AetherServer::frame_except(*old(server), *final(server), i)
                                &&& final(server).sock(i) =~~= old(server).sock(i)
                                &&& final(server).waiting(i)
                            } else {
                                &&& r matches Ok(accepted) && accepted == n
                                &&& AetherServer::frame_except(*old(server), *final(server), i)
                                &&& final(server).sock(i) =~~= SockView::Tcp(
                                    TcpView { tx: t.tx + bytes@.subrange(0, n), ..t },
                                )
                                &&& !final(server).waiting(i)
                            }
                        },
                    }
                }
            }),
    {
        match server.send_tcp_data(self.task, self.socket, bytes) {
            Ok(n) => Ok(n as usize),
            Err(RequestError::Runtime(AetherError::QueueFull)) => Err(NbError::WouldBlock),
            Err(RequestError::Runtime(e)) => Err(NbError::Other(e)),
            Err(_) => Err(NbError::Other(AetherError::Unknown)),
        }
    }

    /// Receive bytes from the socket.  An empty receive buffer (or no
    /// connection) is `WouldBlock` so the client retries; a closed
    /// remote half surfaces as `RemoteTcpClose` once the buffer is
    /// drained.  A client buffer smaller than the drained data is an
    /// IPC-level fault the adapter reports as `Unknown`, the data
    /// being consumed.
    pub fn receive(&self, server: &mut AetherServer, buffer_len: usize) -> (r: Result<
        Vec<u8>,
        NbError,
    >)
        requires
            old(server).wf(),
        ensures
            final(server).wf(),
            final(server).owners@ == old(server).owners@,
            r matches Ok(data) ==> data@.len() <= buffer_len,
            ({
                let i = self.socket.spec_index();
                if old(server).owner_of(i) != self.task {
                    (r matches Err(e) && e == NbError::Other(AetherError::WrongOwner)) && *final(server) == *old(server)
                } else {
                    match old(server).sock(i) {
                        SockView::Udp(_) => (r matches Err(e) && e == NbError::Other(
                            AetherError::WrongSocketType,
                        )) && *final(server) == *old(server),
                        SockView::Tcp(t) => if tcp_readable(t) {
                            if t.rx.len() == 0 {
                                (r matches Err(e) && e is WouldBlock) && *final(server) == *old(server)
                            } else {
                                &&& AetherServer::frame_except(*old(server), *final(server), i)
                                &&& final(server).waiting(i) == old(server).waiting(i)
                                &&& final(server).sock(i) =~~= SockView::Tcp(
                                    TcpView { rx: Seq::<u8>::empty(), ..t },
                                )
                                &&& if t.rx.len() <= buffer_len {
                                    r matches Ok(data) && data@ == t.rx
                                } else {
                                    r matches Err(e) && e == NbError::Other(AetherError::Unknown)
                                }
                            }
                        } else if tcp_may_send(t.state) {
                            (r matches Err(e) && e == NbError::Other(AetherError::RemoteTcpClose))
                                && *final(server) == *old(server)
                        } else {
                            (r matches Err(e) && e is WouldBlock) && *final(server) == *old(server)
                        },
                    }
                }
            }),
    {
        match server.recv_tcp_data(self.task, self.socket, buffer_len) {
            Ok(data) => Ok(data),
            Err(RequestError::Runtime(AetherError::QueueEmpty)) => Err(NbError::WouldBlock),
            Err(RequestError::Runtime(e)) => Err(NbError::Other(e)),
            Err(_) => Err(NbError::Other(AetherError::Unknown)),
        }
    }

    /// Close the socket.
    pub fn close(&self, server: &mut AetherServer) -> (r: Result<(), NbError>)
        requires
            old(server).wf(),
        ensures
            final(server).wf(),
            final(server).owners@ == old(server).owners@,
            ({
                let i = self.socket.spec_index();
                if old(server).owner_of(i) != self.task {
                    (r matches Err(e) && e == NbError::Other(AetherError::WrongOwner)) && *final(server) == *old(server)
                } else {
                    match old(server).sock(i) {
                        SockView::Udp(_) => (r matches Err(e) && e == NbError::Other(
                            AetherError::WrongSocketType,
                        )) && *final(server) == *old(server),
                        SockView::Tcp(t) => {
                            &&& r matches Ok(_)
                            &&& AetherServer::frame_except(*old(server), *final(server), i)
                            &&& final(server).waiting(i) == old(server).waiting(i)
                            &&& final(server).sock(i) =~~= SockView::Tcp(
                                TcpView {
                                    state: TcpState::Closed,
                                    rx: Seq::<u8>::empty(),
                                    tx: Seq::<u8>::empty(),
                                    ..t
                                },
                            )
                        },
                    }
                }
            }),
    {
        match server.close_tcp(self.task, self.socket) {
            Ok(_) => Ok(()),
            Err(RequestError::Runtime(e)) => Err(NbError::Other(e)),
            Err(_) => Err(NbError::Other(AetherError::Unknown)),
        }
    }
}

} // verus!
