//! A small multicast-DNS responder and hostname cache.
//!
//! The resolver listens on its UDP socket; each inbound datagram is
//! parsed as a DNS message, and an AAAA question whose name matches
//! the node's configured hostname is answered with the node's
//! address, echoing the query's transaction identifier with the
//! response flag and a no-error code.  Malformed messages are ignored
//! silently.  A small hostname cache, primed at boot with the
//! well-known upstream portal, serves the one resolver request other
//! tasks may make.

use vstd::prelude::*;
use crate::net::Ipv6Address;

verus! {

/// Record type of an IPv6 host address question or answer.
pub const DNS_TYPE_AAAA: u16 = 28;

/// The Internet class.
pub const DNS_CLASS_IN: u16 = 1;

/// Bytes in a DNS message header.
pub const DNS_HEADER_LEN: usize = 12;

/// Entries the hostname cache holds at most.
pub const MDNS_CACHE_CAP: usize = 4;

/// Resolver failures reported to clients.
#[derive(Clone, Copy, Debug, PartialEq, Eq, Structural)]
pub enum MdnsError {
    /// The hostname is not in the cache.
    HostNotFound,
}

/// Longest hostname the cache stores.
pub const MAX_HOSTNAME_LEN: usize = 16;

/// A hostname, zero-padded to the fixed cache width.
#[derive(Clone, Copy, Debug)]
pub struct HostName(pub [u8; 16]);

impl View for HostName {
    type V = Seq<u8>;

    open spec fn view(&self) -> Seq<u8> {
        self.0@
    }
}

impl PartialEq for HostName {
    fn eq(&self, other: &Self) -> (r: bool) {
        let mut i: usize = 0;
        while i < 16
            invariant
                i <= 16,
                forall|j: int| 0 <= j < i ==> self.0@[j] == other.0@[j],
            decreases 16 - i,
        {
            if self.0[i] != other.0[i] {
                assert(self.0@ != other.0@);
                return false;
            }
            i += 1;
        }
        assert(self.0@ =~= other.0@);
        true
    }
}

impl vstd::std_specs::cmp::PartialEqSpecImpl for HostName {
    open spec fn obeys_eq_spec() -> bool {
        true
    }

    open spec fn eq_spec(&self, other: &Self) -> bool {
        self.0@ == other.0@
    }
}

impl HostName {
    /// A hostname from its text, zero-padded.
    pub fn from_bytes(text: &[u8]) -> (r: HostName)
        requires
            text@.len() <= MAX_HOSTNAME_LEN,
        ensures
            r@ =~= text@ + Seq::new((MAX_HOSTNAME_LEN - text@.len()) as nat, |i: int| 0u8),
    {
        let mut bytes: [u8; 16] = [0; 16];
        let mut i: usize = 0;
        while i < text.len()
            invariant
                i <= text@.len() <= 16,
                bytes@.len() == 16,
                forall|j: int| 0 <= j < i ==> bytes@[j] == text@[j],
                forall|j: int| i <= j < 16 ==> bytes@[j] == 0u8,
            decreases text@.len() - i,
        {
            bytes[i] = text[i];
            i += 1;
        }
        HostName(bytes)
    }
}

/// A 16-bit big-endian field of a message.
pub open spec fn be16(b: Seq<u8>, i: int) -> u16 {
    (((b[i] as u16) << 8) | (b[i + 1] as u16)) as u16
}

/// Where the name starting at `i` ends (one past its terminating
/// zero), or nothing when the labels run off the message.  Compressed
/// names are not accepted.
pub open spec fn qname_end(b: Seq<u8>, i: int) -> Option<int>
    decreases b.len() - i when 0 <= i <= b.len()
{
    if i >= b.len() {
        None
    } else if b[i] == 0 {
        Some(i + 1)
    } else if b[i] <= 63 && i + 1 + b[i] <= b.len() {
        qname_end(b, i + 1 + b[i])
    } else {
        None
    }
}

/// The question a well-formed inbound query carries.
#[derive(Clone, Copy, Debug)]
pub struct ParsedQuestion {
    /// The query's transaction identifier.
    pub id: u16,
    /// One past the end of the question name.
    pub name_end: usize,
    /// The question type.
    pub qtype: u16,
    /// The question class.
    pub qclass: u16,
}

/// A message parses as a query with at least one question whose name
/// is well formed and whose fixed fields fit.
pub open spec fn is_query(b: Seq<u8>) -> bool {
    &&& b.len() >= DNS_HEADER_LEN
    &&& be16(b, 2) & 0x8000 == 0
    &&& (be16(b, 2) >> 11) & 0xf == 0
    &&& be16(b, 4) >= 1
    &&& qname_end(b, DNS_HEADER_LEN as int) is Some
    &&& qname_end(b, DNS_HEADER_LEN as int)->Some_0 + 4 <= b.len()
}

/// Walk one name.
fn find_qname_end(bytes: &[u8], start: usize) -> (r: Option<usize>)
    requires
        start <= bytes@.len(),
    ensures
        match r {
            Some(e) => qname_end(bytes@, start as int) == Some(e as int) && start < e <= bytes@.len(),
            None => qname_end(bytes@, start as int) is None,
        },
{
    let mut i: usize = start;
    loop
        invariant
            start <= i <= bytes@.len(),
            qname_end(bytes@, start as int) == qname_end(bytes@, i as int),
        ensures
            match qname_end(bytes@, start as int) {
                Some(e) => start < e <= bytes@.len(),
                None => true,
            },
        decreases bytes@.len() - i,
    {
        if i >= bytes.len() {
            return None;
        }
        let l = bytes[i];
        if l == 0 {
            return Some(i + 1);
        }
        if l > 63 || (l as usize) > bytes.len() - i - 1 {
            return None;
        }
        i = i + 1 + (l as usize);
    }
}

/// Parse an inbound message as a query and return its identifier and
/// first question.
pub fn parse_query(bytes: &[u8]) -> (r: Option<ParsedQuestion>)
    ensures
        is_query(bytes@) <==> r is Some,
        r matches Some(q) ==> {
            &&& q.id == be16(bytes@, 0)
            &&& qname_end(bytes@, DNS_HEADER_LEN as int) == Some(q.name_end as int)
            &&& DNS_HEADER_LEN < q.name_end && q.name_end + 4 <= bytes@.len()
            &&& q.qtype == be16(bytes@, q.name_end as int)
            &&& q.qclass == be16(bytes@, q.name_end + 2)
        },
{
    if bytes.len() < DNS_HEADER_LEN {
        return None;
    }
    let flags: u16 = ((bytes[2] as u16) << 8) | (bytes[3] as u16);
    if flags & 0x8000 != 0 {
        return None;
    }
    if (flags >> 11) & 0xf != 0 {
        return None;
    }
    let qdcount: u16 = ((bytes[4] as u16) << 8) | (bytes[5] as u16);
    if qdcount < 1 {
        return None;
    }
    match find_qname_end(bytes, DNS_HEADER_LEN) {
        None => None,
        Some(e) => {
            if e > bytes.len() - 4 {
                return None;
            }
            let id: u16 = ((bytes[0] as u16) << 8) | (bytes[1] as u16);
            let qtype: u16 = ((bytes[e] as u16) << 8) | (bytes[e + 1] as u16);
            let qclass: u16 = ((bytes[e + 2] as u16) << 8) | (bytes[e + 3] as u16);
            Some(ParsedQuestion { id, name_end: e, qtype, qclass })
        },
    }
}

/// The hostname text `portal.local`, the well-known upstream the
/// cache is primed with.
pub open spec fn portal_name() -> Seq<u8> {
    seq![
        0x70u8, 0x6fu8, 0x72u8, 0x74u8, 0x61u8, 0x6cu8, 0x2eu8, 0x6cu8, 0x6fu8, 0x63u8, 0x61u8,
        0x6cu8,
    ]
}

/// The first cache entry holding this hostname, searching from `i`.
pub open spec fn cache_lookup(c: Seq<(HostName, Ipv6Address)>, h: Seq<u8>, i: int) -> Option<int>
    decreases c.len() - i when 0 <= i <= c.len()
{
    if i >= c.len() {
        None
    } else if c[i].0@ == h {
        Some(i)
    } else {
        cache_lookup(c, h, i + 1)
    }
}

/// The mDNS responder: the node's hostname in wire form (as
/// length-prefixed labels), the node's address it answers with, and
/// the hostname cache.
pub struct MdnsServer {
    pub hostname_labels: Vec<u8>,
    pub node_addr: Ipv6Address,
    pub cache: Vec<(HostName, Ipv6Address)>,
}

impl MdnsServer {
    pub open spec fn wf(self) -> bool {
        self.cache@.len() <= MDNS_CACHE_CAP
    }

    /// The cache as (hostname text, address) pairs.
    pub open spec fn cache_view(self) -> Seq<(HostName, Ipv6Address)> {
        self.cache@
    }

    /// A responder for `hostname_labels` (the node's hostname in wire
    /// form), answering with `node_addr`.  The cache is primed with
    /// `portal.local` at the configured upstream gateway.
    pub fn new(hostname_labels: &[u8], node_addr: Ipv6Address) -> (r: MdnsServer)
        ensures
            r.wf(),
            r.hostname_labels@ == hostname_labels@,
            r.node_addr == node_addr,
            r.cache@.len() == 1,
            r.cache@[0].0@ =~= portal_name() + Seq::new(4, |i: int| 0u8),
            r.cache@[0].1@ =~= crate::net::default_gateway_bytes(),
    {
        let labels = copy_label_bytes(hostname_labels);
        let portal: [u8; 12] = [
            0x70, 0x6f, 0x72, 0x74, 0x61, 0x6c, 0x2e, 0x6c, 0x6f, 0x63, 0x61, 0x6c,
        ];
        let mut cache: Vec<(HostName, Ipv6Address)> = Vec::new();
        let host = HostName::from_bytes(portal.as_slice());
        proof {
            assert(portal@ =~= portal_name());
        }
        cache.push((host, crate::net::default_gateway()));
        MdnsServer { hostname_labels: labels, node_addr, cache }
    }

    /// Serve `resolve`: look a hostname up in the cache.
    pub fn resolve(&self, hostname: &HostName) -> (r: Result<Ipv6Address, MdnsError>)
        requires
            self.wf(),
        ensures
            match cache_lookup(self.cache@, hostname@, 0) {
                Some(i) => r matches Ok(a) && a@ == self.cache@[i].1@,
                None => r matches Err(e) && e == MdnsError::HostNotFound,
            },
    {
        let mut i: usize = 0;
        while i < self.cache.len()
            invariant
                i <= self.cache@.len(),
                cache_lookup(self.cache@, hostname@, 0) == cache_lookup(
                    self.cache@,
                    hostname@,
                    i as int,
                ),
            decreases self.cache@.len() - i,
        {
            if self.cache[i].0 == *hostname {
                assert(self.cache@[i as int].0@ == hostname@);
                return Ok(self.cache[i].1);
            }
            assert(self.cache@[i as int].0@ != hostname@);
            i += 1;
        }
        Err(MdnsError::HostNotFound)
    }

    /// Remember a hostname.  An existing entry is updated in place; a
    /// full cache rejects new names.
    pub fn add_cache_entry(&mut self, hostname: HostName, addr: Ipv6Address) -> (accepted: bool)
        requires
            old(self).wf(),
        ensures
            final(self).wf(),
            final(self).hostname_labels@ == old(self).hostname_labels@,
            final(self).node_addr == old(self).node_addr,
            match cache_lookup(old(self).cache@, hostname@, 0) {
                Some(i) => accepted && final(self).cache@ =~= old(self).cache@.update(
                    i,
                    (hostname, addr),
                ),
                None => if old(self).cache@.len() < MDNS_CACHE_CAP {
                    accepted && final(self).cache@ =~= old(self).cache@.push((hostname, addr))
                } else {
                    !accepted && final(self).cache@ == old(self).cache@
                },
            },
    {
        let mut i: usize = 0;
        while i < self.cache.len()
            invariant
                old(self).wf(),
                *self == *old(self),
                i <= self.cache@.len(),
                cache_lookup(self.cache@, hostname@, 0) == cache_lookup(
                    self.cache@,
                    hostname@,
                    i as int,
                ),
            decreases self.cache@.len() - i,
        {
            if self.cache[i].0 == hostname {
                assert(self.cache@[i as int].0@ == hostname@);
                self.cache[i] = (hostname, addr);
                return true;
            }
            assert(self.cache@[i as int].0@ != hostname@);
            i += 1;
        }
        if self.cache.len() < MDNS_CACHE_CAP {
            self.cache.push((hostname, addr));
            true
        } else {
            false
        }
    }

    /// The name a question carries matches the node's hostname.
    pub open spec fn name_matches(self, b: Seq<u8>, name_end: int) -> bool {
        b.subrange(DNS_HEADER_LEN as int, name_end - 1) == self.hostname_labels@
    }

    /// Handle a parsed question: an AAAA question for the node's own
    /// hostname is answered; anything else is ignored.
    pub fn process_query(&self, bytes: &[u8], q: &ParsedQuestion) -> (r: Option<Vec<u8>>)
        requires
            DNS_HEADER_LEN < q.name_end && q.name_end + 4 <= bytes@.len(),
        ensures
            ({
                if q.qtype == DNS_TYPE_AAAA && self.name_matches(bytes@, q.name_end as int) {
                    r matches Some(v) && v@ =~= response_bytes(
                        q.id,
                        bytes@.subrange(DNS_HEADER_LEN as int, q.name_end as int),
                        self.node_addr@,
                    )
                } else {
                    r is None
                }
            }),
    {
        if q.qtype != DNS_TYPE_AAAA {
            return None;
        }
        // Compare the question's name region (without its terminating
        // zero) against the node's hostname labels.
        if q.name_end - 1 - DNS_HEADER_LEN != self.hostname_labels.len() {
            proof {
                assert(bytes@.subrange(DNS_HEADER_LEN as int, q.name_end - 1).len()
                    != self.hostname_labels@.len());
            }
            return None;
        }
        let mut i: usize = 0;
        while i < self.hostname_labels.len()
            invariant
                i <= self.hostname_labels@.len(),
                DNS_HEADER_LEN + self.hostname_labels@.len() == q.name_end - 1,
                q.name_end + 4 <= bytes@.len(),
                forall|j: int|
                    0 <= j < i ==> bytes@[DNS_HEADER_LEN + j] == self.hostname_labels@[j],
            decreases self.hostname_labels@.len() - i,
        {
            if bytes[DNS_HEADER_LEN + i] != self.hostname_labels[i] {
                proof {
                    assert(bytes@.subrange(DNS_HEADER_LEN as int, q.name_end - 1)[i as int]
                        != self.hostname_labels@[i as int]);
                }
                return None;
            }
            i += 1;
        }
        proof {
            assert(bytes@.subrange(DNS_HEADER_LEN as int, q.name_end - 1)
                =~= self.hostname_labels@);
        }
        Some(build_response(q.id, bytes, q.name_end, &self.node_addr))
    }

    /// Handle one inbound datagram: parse it as a query and answer
    /// its first question.  Malformed messages yield nothing.
    pub fn process_msg(&self, bytes: &[u8]) -> (r: Option<Vec<u8>>)
        ensures
            ({
                if is_query(bytes@) {
                    let name_end = qname_end(bytes@, DNS_HEADER_LEN as int)->Some_0;
                    if be16(bytes@, name_end) == DNS_TYPE_AAAA && self.name_matches(
                        bytes@,
                        name_end,
                    ) {
                        r matches Some(v) && v@ =~= response_bytes(
                            be16(bytes@, 0),
                            bytes@.subrange(DNS_HEADER_LEN as int, name_end),
                            self.node_addr@,
                        )
                    } else {
                        r is None
                    }
                } else {
                    r is None
                }
            }),
    {
        match parse_query(bytes) {
            None => None,
            Some(q) => self.process_query(bytes, &q),
        }
    }
}

/// The response header: the query identifier, the response flag
/// with a no-error code, and one answer record announced.
pub open spec fn response_header(id: u16) -> Seq<u8> {
    seq![
        ((id >> 8) & 0xff) as u8,
        (id & 0xff) as u8,
        0x84u8,
        0x00u8,
        0u8,
        0u8,
        0u8,
        1u8,
        0u8,
        0u8,
        0u8,
        0u8,
    ]
}

/// The fixed fields of the answer record: type AAAA, class IN, a
/// two-minute time to live, and a sixteen-byte record.
pub open spec fn response_fixed() -> Seq<u8> {
    seq![0u8, 28u8, 0u8, 1u8, 0u8, 0u8, 0u8, 120u8, 0u8, 16u8]
}

/// The answer to an AAAA question: a response header echoing the
/// query identifier, the question name, and one AAAA record carrying
/// the address.
pub open spec fn response_bytes(id: u16, name: Seq<u8>, addr: Seq<u8>) -> Seq<u8> {
    response_header(id) + name + response_fixed() + addr
}

/// Build the response to an AAAA question for the node itself.
fn build_response(id: u16, bytes: &[u8], name_end: usize, addr: &Ipv6Address) -> (r: Vec<u8>)
    requires
        DNS_HEADER_LEN < name_end <= bytes@.len(),
    ensures
        r@ =~= response_bytes(id, bytes@.subrange(DNS_HEADER_LEN as int, name_end as int), addr@),
{
    let ghost name = bytes@.subrange(DNS_HEADER_LEN as int, name_end as int);
    let mut out: Vec<u8> = Vec::new();
    out.push(((id >> 8) & 0xff) as u8);
    out.push((id & 0xff) as u8);
    out.push(0x84);
    out.push(0x00);
    out.push(0);
    out.push(0);
    out.push(0);
    out.push(1);
    out.push(0);
    out.push(0);
    out.push(0);
    out.push(0);
    proof {
        assert(out@ =~= response_header(id));
    }
    let mut i: usize = DNS_HEADER_LEN;
    while i < name_end
        invariant
            DNS_HEADER_LEN <= i <= name_end <= bytes@.len(),
            name == bytes@.subrange(DNS_HEADER_LEN as int, name_end as int),
            out@ =~= response_header(id) + bytes@.subrange(DNS_HEADER_LEN as int, i as int),
        decreases name_end - i,
    {
        out.push(bytes[i]);
        proof {
            assert(out@ =~= response_header(id) + bytes@.subrange(DNS_HEADER_LEN as int, i + 1));
        }
        i += 1;
    }
    out.push(0);
    out.push(28);
    out.push(0);
    out.push(1);
    out.push(0);
    out.push(0);
    out.push(0);
    out.push(120);
    out.push(0);
    out.push(16);
    proof {
        assert(out@ =~= response_header(id) + name + response_fixed());
    }
    let mut k: usize = 0;
    while k < 16
        invariant
            k <= 16,
            name == bytes@.subrange(DNS_HEADER_LEN as int, name_end as int),
            out@ =~= response_header(id) + name + response_fixed() + addr.0@.subrange(
                0,
                k as int,
            ),
        decreases 16 - k,
    {
        out.push(addr.0[k]);
        proof {
            assert(out@ =~= response_header(id) + name + response_fixed() + addr.0@.subrange(
                0,
                k + 1,
            ));
        }
        k += 1;
    }
    proof {
        assert(addr.0@.subrange(0, 16) =~= addr@);
    }
    out
}

/// The resolver's request codes.
#[derive(Clone, Copy, Debug, PartialEq, Eq, Structural)]
pub enum MdnsOperation {
    /// Look a hostname up.
    Resolve,
}

/// Bytes a `Resolve` reply needs: one IPv6 address.
pub const RESOLVE_REPLY_SIZE: usize = 16;

/// Why a request is answered with a fault instead of being served.
#[derive(Clone, Copy, Debug, PartialEq, Eq, Structural)]
pub enum ReplyFaultReason {
    /// The operation code names no operation.
    UndefinedOperation,
    /// The message is larger than the server's receive buffer.
    BadMessageSize,
    /// The caller's reply buffer cannot hold the answer.
    ReplyBufferTooSmall,
    /// The caller attached the wrong number of leases.
    BadLeases,
}

/// What the server does with one received message.
#[derive(Clone, Copy, Debug, PartialEq, Eq, Structural)]
pub enum DispatchDecision {
    /// A kernel notification, not a request: return to the main loop
    /// so it can poll the network socket.
    ReturnToLoop,
    /// Answer with a fault.
    Fault(ReplyFaultReason),
    /// Serve the operation.
    Handle(MdnsOperation),
}

/// Decide what to do with one received message: kernel notifications
/// bounce back to the polling loop, malformed requests are answered
/// with the matching fault, and well-formed requests are served.
pub fn dispatch(
    sender_is_kernel: bool,
    operation: u32,
    message_len: usize,
    buffer_len: usize,
    response_capacity: usize,
    lease_count: usize,
) -> (r: DispatchDecision)
    ensures
        r == if sender_is_kernel {
            DispatchDecision::ReturnToLoop
        } else if operation != 1 {
            DispatchDecision::Fault(ReplyFaultReason::UndefinedOperation)
        } else if message_len > buffer_len {
            DispatchDecision::Fault(ReplyFaultReason::BadMessageSize)
        } else if response_capacity < RESOLVE_REPLY_SIZE {
            DispatchDecision::Fault(ReplyFaultReason::ReplyBufferTooSmall)
        } else if lease_count != 0 {
            DispatchDecision::Fault(ReplyFaultReason::BadLeases)
        } else {
            DispatchDecision::Handle(MdnsOperation::Resolve)
        },
{
    if sender_is_kernel {
        return DispatchDecision::ReturnToLoop;
    }
    if operation != 1 {
        return DispatchDecision::Fault(ReplyFaultReason::UndefinedOperation);
    }
    if message_len > buffer_len {
        return DispatchDecision::Fault(ReplyFaultReason::BadMessageSize);
    }
    if response_capacity < RESOLVE_REPLY_SIZE {
        return DispatchDecision::Fault(ReplyFaultReason::ReplyBufferTooSmall);
    }
    if lease_count != 0 {
        return DispatchDecision::Fault(ReplyFaultReason::BadLeases);
    }
    DispatchDecision::Handle(MdnsOperation::Resolve)
}

/// Copy the hostname's wire-form labels.
fn copy_label_bytes(src: &[u8]) -> (r: Vec<u8>)
    ensures
        r@ =~= src@,
{
    let mut out: Vec<u8> = Vec::new();
    let mut i: usize = 0;
    while i < src.len()
        invariant
            i <= src@.len(),
            out@.len() == i,
            forall|j: int| 0 <= j < i ==> out@[j] == src@[j],
        decreases src@.len() - i,
    {
        out.push(src[i]);
        i += 1;
    }
    out
}

} // verus!
