//! Shared network value types: addresses, per-socket metadata, and the
//! error codes the interface task returns to its clients.

use vstd::prelude::*;

verus! {

/// Personal-area-network identifier shared by cooperating nodes.
pub const PAN_ID: u16 = 0x1EAF;

/// An extended (64-bit) IEEE 802.15.4 address.
#[derive(Clone, Copy, Debug)]
pub struct Ieee802154Address(pub [u8; 8]);

impl View for Ieee802154Address {
    type V = Seq<u8>;

    open spec fn view(&self) -> Seq<u8> {
        self.0@
    }
}

impl PartialEq for Ieee802154Address {
    fn eq(&self, other: &Self) -> (r: bool) {
        let mut i: usize = 0;
        while i < 8
            invariant
                i <= 8,
                forall|j: int| 0 <= j < i ==> self.0@[j] == other.0@[j],
            decreases 8 - i,
        {
            if self.0[i] != other.0[i] {
                assert(self.0@ != other.0@);
                return false;
            }
            i += 1;
        }
        assert(self.0@ =~= other.0@);
        true
    }
}

impl vstd::std_specs::cmp::PartialEqSpecImpl for Ieee802154Address {
    open spec fn obeys_eq_spec() -> bool {
        true
    }

    open spec fn eq_spec(&self, other: &Self) -> bool {
        self.0@ == other.0@
    }
}

/// A 16-byte IPv6 address.
#[derive(Clone, Copy, Debug)]
pub struct Ipv6Address(pub [u8; 16]);

impl View for Ipv6Address {
    type V = Seq<u8>;

    open spec fn view(&self) -> Seq<u8> {
        self.0@
    }
}

impl PartialEq for Ipv6Address {
    fn eq(&self, other: &Self) -> (r: bool) {
        let mut i: usize = 0;
        while i < 16
            invariant
                i <= 16,
                forall|j: int| 0 <= j < i ==> self.0@[j] == other.0@[j],
            decreases 16 - i,
        {
            if self.0[i] != other.0[i] {
                assert(self.0@ != other.0@);
                return false;
            }
            i += 1;
        }
        assert(self.0@ =~= other.0@);
        true
    }
}

impl vstd::std_specs::cmp::PartialEqSpecImpl for Ipv6Address {
    open spec fn obeys_eq_spec() -> bool {
        true
    }

    open spec fn eq_spec(&self, other: &Self) -> bool {
        self.0@ == other.0@
    }
}

impl Ipv6Address {
    /// True when every byte is zero (the unspecified address `::`).
    pub open spec fn spec_is_unspecified(&self) -> bool {
        forall|i: int| 0 <= i < 16 ==> self.0@[i] == 0u8
    }

    /// Check for the unspecified address `::`.
    pub fn is_unspecified(&self) -> (r: bool)
        ensures
            r == self.spec_is_unspecified(),
    {
        let mut i: usize = 0;
        while i < 16
            invariant
                i <= 16,
                forall|j: int| 0 <= j < i ==> self.0@[j] == 0u8,
            decreases 16 - i,
        {
            if self.0[i] != 0 {
                assert(!self.spec_is_unspecified());
                return false;
            }
            i += 1;
        }
        true
    }
}

/// Metadata accompanying one UDP datagram: the remote address and port,
/// and the length of the payload carried beside it.
#[derive(Clone, Copy, Debug, PartialEq)]
pub struct UdpMetadata {
    pub addr: Ipv6Address,
    pub port: u16,
    pub payload_len: u32,
}

/// The remote endpoint of a TCP connection.
#[derive(Clone, Copy, Debug, PartialEq)]
pub struct TcpMetadata {
    pub addr: Ipv6Address,
    pub port: u16,
}

/// Error codes the interface task returns to socket clients.
#[derive(Clone, Copy, Debug, PartialEq, Eq, Structural)]
pub enum AetherError {
    /// No packets to receive.
    QueueEmpty,
    /// Cannot transmit because the queue is full.
    QueueFull,
    /// No space in the transmit buffer.
    NoTransmitSlot,
    /// The socket is owned by a different task.
    WrongOwner,
    /// A TCP operation was attempted on a UDP socket, or vice versa.
    WrongSocketType,
    /// The remote side of the TCP connection was closed.
    RemoteTcpClose,
    /// Failed to connect a TCP socket.
    TcpFailConnect,
    /// Error when attempting to send the packet.
    SendError,
    /// Only IPv6 endpoints are supported.
    NotIpv6,
    /// DNS resolution failed.
    DnsFailure,
    /// No DNS query has been started.
    NoPendingDnsQuery,
    /// Only a single DNS query may be in flight at a time.
    DnsQueryAlreadyInflight,
    /// An unclassified protocol failure.
    Unknown,
}

/// The EUI-64 derived from the two device-identity words: the first
/// word big-endian, the marker `FF FE`, then the high half of the
/// second word big-endian.
pub open spec fn eui64_bytes(word0: u32, word1: u32) -> Seq<u8> {
    seq![
        ((word0 >> 24) & 0xff) as u8,
        ((word0 >> 16) & 0xff) as u8,
        ((word0 >> 8) & 0xff) as u8,
        (word0 & 0xff) as u8,
        0xffu8,
        0xfeu8,
        ((word1 >> 24) & 0xff) as u8,
        ((word1 >> 16) & 0xff) as u8,
    ]
}

/// Derive the EUI-64 interface identifier from the two 32-bit
/// device-identity words read out of the factory registers.
pub fn eui64_from_device_id(word0: u32, word1: u32) -> (r: Ieee802154Address)
    ensures
        r@ =~= eui64_bytes(word0, word1),
{
    let mut bytes: [u8; 8] = [0; 8];
    bytes[0] = ((word0 >> 24) & 0xff) as u8;
    bytes[1] = ((word0 >> 16) & 0xff) as u8;
    bytes[2] = ((word0 >> 8) & 0xff) as u8;
    bytes[3] = (word0 & 0xff) as u8;
    bytes[4] = 0xff;
    bytes[5] = 0xfe;
    bytes[6] = ((word1 >> 24) & 0xff) as u8;
    bytes[7] = ((word1 >> 16) & 0xff) as u8;
    Ieee802154Address(bytes)
}

/// Build the node's site-local address: `fd00:PAN_ID::/64` with the
/// EUI-64 as the interface identifier.  The PAN identifier is placed
/// big-endian so the printed address shows it verbatim.
pub fn site_local_address(pan_id: u16, eui64: &Ieee802154Address) -> (r: Ipv6Address)
    ensures
        r@ =~= seq![
            0xfdu8,
            0x00u8,
            ((pan_id >> 8) & 0xff) as u8,
            (pan_id & 0xff) as u8,
            0u8,
            0u8,
            0u8,
            0u8,
        ] + eui64@,
{
    let mut bytes: [u8; 16] = [0; 16];
    bytes[0] = 0xfd;
    bytes[1] = 0x00;
    bytes[2] = ((pan_id >> 8) & 0xff) as u8;
    bytes[3] = (pan_id & 0xff) as u8;
    let mut i: usize = 0;
    while i < 8
        invariant
            i <= 8,
            bytes@.len() == 16,
            bytes@[0] == 0xfdu8,
            bytes@[1] == 0x00u8,
            bytes@[2] == ((pan_id >> 8) & 0xff) as u8,
            bytes@[3] == (pan_id & 0xff) as u8,
            forall|j: int| 4 <= j < 8 ==> bytes@[j] == 0u8,
            forall|j: int| 0 <= j < i ==> bytes@[8 + j] == eui64@[j],
        decreases 8 - i,
    {
        bytes[8 + i] = eui64.0[i];
        i += 1;
    }
    Ipv6Address(bytes)
}

/// The bytes of the default gateway address, `fd00:1eaf::1`.
pub open spec fn default_gateway_bytes() -> Seq<u8> {
    seq![
        0xfdu8, 0x00u8, 0x1eu8, 0xafu8, 0u8, 0u8, 0u8, 0u8,
        0u8, 0u8, 0u8, 0u8, 0u8, 0u8, 0u8, 0x01u8,
    ]
}

/// The statically configured upstream gateway, `fd00:1eaf::1`, used as
/// the default IPv6 route.
pub fn default_gateway() -> (r: Ipv6Address)
    ensures
        r@ =~= default_gateway_bytes(),
{
    Ipv6Address([
        0xfd, 0x00, 0x1e, 0xaf, 0, 0, 0, 0, 0, 0, 0, 0, 0, 0, 0, 0x01,
    ])
}

} // verus!
