//! 6LoWPAN fragmentation and reassembly.
//!
//! An IPv6 datagram of up to 1280 bytes that does not fit one
//! 802.15.4 frame travels as fragments.  The first fragment carries a
//! four-byte header (dispatch `11000`, the 11-bit datagram size and a
//! 16-bit tag); every later fragment carries a five-byte header
//! (dispatch `11100`, size, tag and the fragment's offset in
//! eight-byte units).  The receiver gathers fragments keyed by
//! source, destination, size and tag in a fixed set of assemblers; a
//! datagram is delivered only once every byte arrived, and a slot
//! whose datagram stays incomplete for a second is reclaimed with its
//! fragments silently discarded.

use vstd::prelude::*;
use crate::net::Ieee802154Address;

verus! {

/// The IPv6 link maximum transmission unit: no datagram is larger.
pub const LINK_MTU: usize = 1280;

/// Number of reassembly slots held at once.
pub const MAX_FRAGMENTS: usize = 4;

/// How long an incomplete datagram may sit in its slot, in
/// milliseconds, before it is reclaimed.
pub const REASSEMBLY_TIMEOUT_MS: u64 = 1000;

/// The four header bytes of a first fragment.
pub open spec fn frag1_header(size: u16, tag: u16) -> Seq<u8> {
    seq![
        (0xc0u16 | ((size >> 8) & 0x07)) as u8,
        (size & 0xff) as u8,
        ((tag >> 8) & 0xff) as u8,
        (tag & 0xff) as u8,
    ]
}

/// The five header bytes of a later fragment; the offset is counted
/// in eight-byte units.
pub open spec fn fragn_header(size: u16, tag: u16, offset_units: u8) -> Seq<u8> {
    seq![
        (0xe0u16 | ((size >> 8) & 0x07)) as u8,
        (size & 0xff) as u8,
        ((tag >> 8) & 0xff) as u8,
        (tag & 0xff) as u8,
        offset_units,
    ]
}

/// The datagram size a fragment header declares.
pub open spec fn header_size(h: Seq<u8>) -> u16 {
    (((h[0] & 0x07) as u16) << 8) | (h[1] as u16)
}

/// The tag a fragment header declares.
pub open spec fn header_tag(h: Seq<u8>) -> u16 {
    ((h[2] as u16) << 8) | (h[3] as u16)
}

/// A parsed inbound frame: not fragmented, a first fragment, or a
/// later fragment.
#[derive(Debug)]
pub enum Fragment {
    /// The frame carries a whole datagram.
    NotFragmented,
    /// The first fragment of a datagram.
    First { size: u16, tag: u16, payload: Vec<u8> },
    /// A later fragment, at `offset_units * 8` bytes.
    Later { size: u16, tag: u16, offset_units: u8, payload: Vec<u8> },
}

/// Build the first fragment of a datagram of `size` bytes: header,
/// then the chunk.
pub fn build_frag1(size: u16, tag: u16, chunk: &[u8]) -> (r: Vec<u8>)
    requires
        size < 2048,
        chunk@.len() + 4 <= LINK_MTU,
    ensures
        r@ =~= frag1_header(size, tag) + chunk@,
{
    let mut out: Vec<u8> = Vec::new();
    out.push((0xc0u16 | ((size >> 8) & 0x07)) as u8);
    out.push((size & 0xff) as u8);
    out.push(((tag >> 8) & 0xff) as u8);
    out.push((tag & 0xff) as u8);
    let mut i: usize = 0;
    while i < chunk.len()
        invariant
            i <= chunk@.len(),
            out@.len() == 4 + i,
            out@.subrange(0, 4) =~= frag1_header(size, tag),
            forall|j: int| 0 <= j < i ==> out@[4 + j] == chunk@[j],
        decreases chunk@.len() - i,
    {
        out.push(chunk[i]);
        i += 1;
    }
    out
}

/// Build a later fragment: header with the offset in eight-byte
/// units, then the chunk.
pub fn build_fragn(size: u16, tag: u16, offset_units: u8, chunk: &[u8]) -> (r: Vec<u8>)
    requires
        size < 2048,
        chunk@.len() + 5 <= LINK_MTU,
    ensures
        r@ =~= fragn_header(size, tag, offset_units) + chunk@,
{
    let mut out: Vec<u8> = Vec::new();
    out.push((0xe0u16 | ((size >> 8) & 0x07)) as u8);
    out.push((size & 0xff) as u8);
    out.push(((tag >> 8) & 0xff) as u8);
    out.push((tag & 0xff) as u8);
    out.push(offset_units);
    let mut i: usize = 0;
    while i < chunk.len()
        invariant
            i <= chunk@.len(),
            out@.len() == 5 + i,
            out@.subrange(0, 5) =~= fragn_header(size, tag, offset_units),
            forall|j: int| 0 <= j < i ==> out@[5 + j] == chunk@[j],
        decreases chunk@.len() - i,
    {
        out.push(chunk[i]);
        i += 1;
    }
    out
}

/// Classify an inbound frame by its dispatch bits and split the
/// fragment header off.
pub fn parse_fragment(bytes: &[u8]) -> (r: Fragment)
    ensures
        ({
            if bytes@.len() >= 4 && (bytes@[0] & 0xf8) == 0xc0 {
                r matches Fragment::First { size, tag, payload } && size == header_size(bytes@)
                    && tag == header_tag(bytes@) && payload@ =~= bytes@.subrange(
                    4,
                    bytes@.len() as int,
                )
            } else if bytes@.len() >= 5 && (bytes@[0] & 0xf8) == 0xe0 {
                r matches Fragment::Later { size, tag, offset_units, payload } && size
                    == header_size(bytes@) && tag == header_tag(bytes@) && offset_units
                    == bytes@[4] && payload@ =~= bytes@.subrange(5, bytes@.len() as int)
            } else {
                r is NotFragmented
            }
        }),
{
    if bytes.len() >= 4 && (bytes[0] & 0xf8) == 0xc0 {
        let size: u16 = (((bytes[0] & 0x07) as u16) << 8) | (bytes[1] as u16);
        let tag: u16 = ((bytes[2] as u16) << 8) | (bytes[3] as u16);
        let mut payload: Vec<u8> = Vec::new();
        let mut i: usize = 4;
        while i < bytes.len()
            invariant
                4 <= i <= bytes@.len(),
                payload@.len() == i - 4,
                forall|j: int| 0 <= j < i - 4 ==> payload@[j] == bytes@[4 + j],
            decreases bytes@.len() - i,
        {
            payload.push(bytes[i]);
            i += 1;
        }
        Fragment::First { size, tag, payload }
    } else if bytes.len() >= 5 && (bytes[0] & 0xf8) == 0xe0 {
        let size: u16 = (((bytes[0] & 0x07) as u16) << 8) | (bytes[1] as u16);
        let tag: u16 = ((bytes[2] as u16) << 8) | (bytes[3] as u16);
        let offset_units: u8 = bytes[4];
        let mut payload: Vec<u8> = Vec::new();
        let mut i: usize = 5;
        while i < bytes.len()
            invariant
                5 <= i <= bytes@.len(),
                payload@.len() == i - 5,
                forall|j: int| 0 <= j < i - 5 ==> payload@[j] == bytes@[5 + j],
            decreases bytes@.len() - i,
        {
            payload.push(bytes[i]);
            i += 1;
        }
        Fragment::Later { size, tag, offset_units, payload }
    } else {
        Fragment::NotFragmented
    }
}

/// Law: fragment headers round-trip.  A first-fragment header built
/// from a size under 2048 and a tag is classified as a first
/// fragment and declares the same size and tag; likewise for a later
/// fragment and its offset.
pub proof fn lemma_fragment_header_round_trip(size: u16, tag: u16, offset_units: u8)
    requires
        size < 2048,
    ensures
        (frag1_header(size, tag)[0] & 0xf8) == 0xc0,
        header_size(frag1_header(size, tag)) == size,
        header_tag(frag1_header(size, tag)) == tag,
        (fragn_header(size, tag, offset_units)[0] & 0xf8) == 0xe0,
        header_size(fragn_header(size, tag, offset_units)) == size,
        header_tag(fragn_header(size, tag, offset_units)) == tag,
        fragn_header(size, tag, offset_units)[4] == offset_units,
{
    let b0: u8 = (0xc0u16 | ((size >> 8) & 0x07)) as u8;
    let c0: u8 = (0xe0u16 | ((size >> 8) & 0x07)) as u8;
    let b1: u8 = (size & 0xff) as u8;
    assert((b0 & 0xf8) == 0xc0 && (c0 & 0xf8) == 0xe0 && ((((b0 & 0x07) as u16) << 8) | (
    b1 as u16)) == size && ((((c0 & 0x07) as u16) << 8) | (b1 as u16)) == size) by (bit_vector)
        requires
            size < 2048,
            b0 == (0xc0u16 | ((size >> 8) & 0x07)) as u8,
            c0 == (0xe0u16 | ((size >> 8) & 0x07)) as u8,
            b1 == (size & 0xff) as u8,
    ;
    let t0: u8 = ((tag >> 8) & 0xff) as u8;
    let t1: u8 = (tag & 0xff) as u8;
    assert((((t0 as u16) << 8) | (t1 as u16)) == tag) by (bit_vector)
        requires
            t0 == ((tag >> 8) & 0xff) as u8,
            t1 == (tag & 0xff) as u8,
    ;
}

/// Copy `src[lo..hi]` out.
fn copy_range(src: &[u8], lo: usize, hi: usize) -> (r: Vec<u8>)
    requires
        lo <= hi <= src@.len(),
    ensures
        r@ =~= src@.subrange(lo as int, hi as int),
{
    let mut out: Vec<u8> = Vec::new();
    let mut i: usize = lo;
    while i < hi
        invariant
            lo <= i <= hi <= src@.len(),
            out@.len() == i - lo,
            forall|j: int| 0 <= j < i - lo ==> out@[j] == src@[lo + j],
        decreases hi - i,
    {
        out.push(src[i]);
        i += 1;
    }
    out
}

/// Split an outbound datagram into link frames.  A datagram that fits
/// one chunk travels unfragmented; a larger one becomes a first
/// fragment followed by later fragments of `chunk_len` bytes each
/// (the last possibly shorter), offsets counted in eight-byte units.
pub fn fragment_datagram(payload: &[u8], tag: u16, chunk_len: usize) -> (r: Vec<Vec<u8>>)
    requires
        payload@.len() <= LINK_MTU,
        chunk_len % 8 == 0,
        0 < chunk_len <= 120,
    ensures
        payload@.len() <= chunk_len ==> r@.len() == 1 && r@[0]@ =~= payload@,
        payload@.len() > chunk_len ==> {
            &&& (r@.len() - 1) * chunk_len < payload@.len() <= r@.len() * chunk_len
            &&& r@[0]@ =~= frag1_header(payload@.len() as u16, tag) + payload@.subrange(
                0,
                chunk_len as int,
            )
            &&& forall|k: int|
                1 <= k < r@.len() ==> r@[k]@ =~= fragn_header(
                    payload@.len() as u16,
                    tag,
                    ((k * chunk_len) / 8) as u8,
                ) + payload@.subrange(
                    k * chunk_len,
                    if (k + 1) * chunk_len <= payload@.len() {
                        (k + 1) * chunk_len
                    } else {
                        payload@.len() as int
                    },
                )
        },
{
    let mut out: Vec<Vec<u8>> = Vec::new();
    if payload.len() <= chunk_len {
        out.push(copy_range(payload, 0, payload.len()));
        proof {
            assert(payload@.subrange(0, payload@.len() as int) =~= payload@);
        }
        return out;
    }
    let size: u16 = payload.len() as u16;
    let first = copy_range(payload, 0, chunk_len);
    out.push(build_frag1(size, tag, first.as_slice()));
    let mut off: usize = chunk_len;
    let mut k: usize = 1;
    while off < payload.len()
        invariant
            0 < chunk_len <= 120,
            chunk_len % 8 == 0,
            chunk_len < payload@.len() <= LINK_MTU,
            size == payload@.len() as u16,
            1 <= k <= off,
            off == k * chunk_len,
            off - chunk_len < payload@.len(),
            out@.len() == k,
            out@[0]@ =~= frag1_header(payload@.len() as u16, tag) + payload@.subrange(
                0,
                chunk_len as int,
            ),
            forall|j: int|
                1 <= j < k ==> out@[j]@ =~= fragn_header(
                    payload@.len() as u16,
                    tag,
                    ((j * chunk_len) / 8) as u8,
                ) + payload@.subrange(
                    j * chunk_len,
                    if (j + 1) * chunk_len <= payload@.len() {
                        (j + 1) * chunk_len
                    } else {
                        payload@.len() as int
                    },
                ),
        decreases payload@.len() + chunk_len - off,
    {
        let hi = if off + chunk_len <= payload.len() {
            off + chunk_len
        } else {
            payload.len()
        };
        let chunk = copy_range(payload, off, hi);
        let units: u8 = (off / 8) as u8;
        out.push(build_fragn(size, tag, units, chunk.as_slice()));
        proof {
            assert((k + 1) * chunk_len == k * chunk_len + chunk_len) by (nonlinear_arith);
            assert(out@[k as int]@ =~= fragn_header(
                payload@.len() as u16,
                tag,
                ((k * chunk_len) / 8) as u8,
            ) + payload@.subrange(
                k * chunk_len,
                if (k + 1) * chunk_len <= payload@.len() {
                    (k + 1) * chunk_len as int
                } else {
                    payload@.len() as int
                },
            ));
        }
        off = off + chunk_len;
        k = k + 1;
    }
    proof {
        assert((k as int - 1) * chunk_len == k as int * chunk_len - chunk_len) by (nonlinear_arith);
    }
    out
}

/// Identifies one in-flight datagram: the link-layer endpoints it
/// travels between, its declared size and its tag.
#[derive(Clone, Copy, Debug)]
pub struct FragKey {
    pub src: Ieee802154Address,
    pub dst: Ieee802154Address,
    pub size: u16,
    pub tag: u16,
}

/// Two keys name the same datagram.
pub open spec fn key_matches(a: FragKey, b: FragKey) -> bool {
    &&& a.src@ == b.src@
    &&& a.dst@ == b.dst@
    &&& a.size == b.size
    &&& a.tag == b.tag
}

impl FragKey {
    /// Compare with another key.
    pub fn matches(&self, other: &FragKey) -> (r: bool)
        ensures
            r == key_matches(*self, *other),
    {
        self.src == other.src && self.dst == other.dst && self.size == other.size && self.tag
            == other.tag
    }
}

/// The abstract state of one assembler slot.
#[verifier::ext_equal]
pub struct AssemblerView {
    pub busy: bool,
    pub key: FragKey,
    pub bytes: Seq<u8>,
    pub recvd: Seq<bool>,
    pub started_at: u64,
}

/// `s` with `c` written at offset `off`.
pub open spec fn overwrite(s: Seq<u8>, off: int, c: Seq<u8>) -> Seq<u8> {
    Seq::new(
        s.len(),
        |i: int|
            if off <= i < off + c.len() {
                c[i - off]
            } else {
                s[i]
            },
    )
}

/// `s` with positions `off` to `off + n` marked received.
pub open spec fn mark(s: Seq<bool>, off: int, n: int) -> Seq<bool> {
    Seq::new(
        s.len(),
        |i: int|
            if off <= i < off + n {
                true
            } else {
                s[i]
            },
    )
}

impl AssemblerView {
    /// The slot after one fragment landed.
    pub open spec fn with_chunk(self, off: int, c: Seq<u8>) -> AssemblerView {
        AssemblerView {
            bytes: overwrite(self.bytes, off, c),
            recvd: mark(self.recvd, off, c.len() as int),
            ..self
        }
    }

    /// The slot freshly claimed for a new datagram: nothing received
    /// yet, the timeout clock started now.
    pub open spec fn claimed(self, key: FragKey, now: u64) -> AssemblerView {
        AssemblerView {
            busy: true,
            key,
            recvd: Seq::new(self.recvd.len(), |i: int| false),
            started_at: now,
            ..self
        }
    }

    /// Every byte of the datagram arrived.
    pub open spec fn complete(self) -> bool {
        forall|i: int| 0 <= i < self.key.size ==> self.recvd[i]
    }

    /// The assembled datagram.
    pub open spec fn assembled(self) -> Seq<u8> {
        self.bytes.subrange(0, self.key.size as int)
    }
}

/// One reassembly slot: a fixed scratch buffer, a received mark per
/// byte, and the key and arrival time of the datagram it holds.
pub struct PacketAssembler {
    pub busy: bool,
    pub key: FragKey,
    pub buffer: Vec<u8>,
    pub received: Vec<bool>,
    pub started_at: u64,
}

impl View for PacketAssembler {
    type V = AssemblerView;

    open spec fn view(&self) -> AssemblerView {
        AssemblerView {
            busy: self.busy,
            key: self.key,
            bytes: self.buffer@,
            recvd: self.received@,
            started_at: self.started_at,
        }
    }
}

impl PacketAssembler {
    pub open spec fn wf(self) -> bool {
        &&& self.buffer@.len() == LINK_MTU
        &&& self.received@.len() == LINK_MTU
        &&& self.busy ==> 0 < self.key.size <= LINK_MTU
    }

    /// A free slot.
    pub fn new() -> (r: PacketAssembler)
        ensures
            r.wf(),
            !r@.busy,
    {
        PacketAssembler {
            busy: false,
            key: FragKey {
                src: Ieee802154Address([0; 8]),
                dst: Ieee802154Address([0; 8]),
                size: 0,
                tag: 0,
            },
            buffer: vec![0u8; LINK_MTU],
            received: vec![false; LINK_MTU],
            started_at: 0,
        }
    }

    /// Claim the slot for a new datagram.
    pub fn claim(&mut self, key: FragKey, now: u64)
        requires
            old(self).wf(),
            0 < key.size <= LINK_MTU,
        ensures
            final(self).wf(),
            final(self)@ =~~= old(self)@.claimed(key, now),
    {
        self.busy = true;
        self.key = key;
        self.started_at = now;
        let mut i: usize = 0;
        while i < self.received.len()
            invariant
                i <= self.received@.len(),
                self.received@.len() == LINK_MTU,
                self.busy == true,
                self.key == key,
                self.started_at == now,
                self.buffer == old(self).buffer,
                forall|j: int| 0 <= j < i ==> self.received@[j] == false,
            decreases self.received@.len() - i,
        {
            self.received[i] = false;
            i += 1;
        }
    }

    /// Record one fragment's bytes.
    pub fn add_chunk(&mut self, offset: usize, chunk: &[u8])
        requires
            old(self).wf(),
            offset + chunk@.len() <= LINK_MTU,
        ensures
            final(self).wf(),
            final(self)@ =~~= old(self)@.with_chunk(offset as int, chunk@),
    {
        let mut i: usize = 0;
        while i < chunk.len()
            invariant
                i <= chunk@.len(),
                offset + chunk@.len() <= LINK_MTU,
                old(self).buffer@.len() == LINK_MTU,
                old(self).received@.len() == LINK_MTU,
                self.buffer@.len() == LINK_MTU,
                self.received@.len() == LINK_MTU,
                self.busy == old(self).busy,
                self.key == old(self).key,
                self.started_at == old(self).started_at,
                forall|j: int|
                    0 <= j < LINK_MTU ==> self.buffer@[j] == if offset <= j < offset + i {
                        chunk@[j - offset]
                    } else {
                        old(self).buffer@[j]
                    },
                forall|j: int|
                    0 <= j < LINK_MTU ==> self.received@[j] == if offset <= j < offset + i {
                        true
                    } else {
                        old(self).received@[j]
                    },
            decreases chunk@.len() - i,
        {
            self.buffer[offset + i] = chunk[i];
            self.received[offset + i] = true;
            i += 1;
        }
    }

    /// Every byte of the datagram arrived.
    pub fn is_complete(&self) -> (r: bool)
        requires
            self.wf(),
            self.busy,
        ensures
            r == self@.complete(),
    {
        let size = self.key.size as usize;
        let mut i: usize = 0;
        while i < size
            invariant
                i <= size,
                size == self.key.size,
                self.wf(),
                self.busy,
                forall|j: int| 0 <= j < i ==> self@.recvd[j],
            decreases size - i,
        {
            if !self.received[i] {
                assert(!self@.recvd[i as int]);
                return false;
            }
            i += 1;
        }
        true
    }

    /// Free the slot if its datagram has been incomplete for the full
    /// timeout.
    pub fn expire_one(&mut self, now: u64)
        requires
            old(self).wf(),
        ensures
            final(self).wf(),
            final(self)@ =~~= ({
                let v = old(self)@;
                if v.busy && v.started_at <= now && now - v.started_at >= REASSEMBLY_TIMEOUT_MS {
                    AssemblerView { busy: false, ..v }
                } else {
                    v
                }
            }),
    {
        if self.busy && self.started_at <= now && now - self.started_at >= REASSEMBLY_TIMEOUT_MS {
            self.busy = false;
        }
    }

    /// Hand the assembled datagram out and free the slot.
    pub fn take_payload(&mut self) -> (r: Vec<u8>)
        requires
            old(self).wf(),
            old(self).busy,
        ensures
            final(self).wf(),
            r@ =~= old(self)@.assembled(),
            final(self)@ =~~= (AssemblerView { busy: false, ..old(self)@ }),
    {
        let size = self.key.size as usize;
        let mut out: Vec<u8> = Vec::new();
        let mut i: usize = 0;
        while i < size
            invariant
                i <= size,
                size == self.key.size,
                self.wf(),
                self.busy,
                *self == *old(self),
                out@.len() == i,
                forall|j: int| 0 <= j < i ==> out@[j] == self.buffer@[j],
            decreases size - i,
        {
            out.push(self.buffer[i]);
            i += 1;
        }
        self.busy = false;
        out
    }
}

/// Chunk `k` of a payload split every `c` bytes.
pub open spec fn chunk_of(payload: Seq<u8>, c: int, k: int) -> Seq<u8> {
    payload.subrange(
        k * c,
        if (k + 1) * c <= payload.len() {
            (k + 1) * c
        } else {
            payload.len() as int
        },
    )
}

/// The slot after chunks `k` to `n` of the payload are recorded, each
/// at its own offset.
pub open spec fn with_chunks(
    v: AssemblerView,
    payload: Seq<u8>,
    c: int,
    k: int,
    n: int,
) -> AssemblerView
    decreases n - k when k <= n
{
    if k >= n {
        v
    } else {
        with_chunks(v.with_chunk(k * c, chunk_of(payload, c, k)), payload, c, k + 1, n)
    }
}

/// Once the chunks from `k` on land, every payload byte below the
/// datagram size is recorded correctly, provided the bytes below
/// `k * c` already were.
proof fn lemma_chunks_cover(v: AssemblerView, payload: Seq<u8>, c: int, k: int, n: int)
    requires
        c > 0,
        0 <= k <= n,
        v.bytes.len() == LINK_MTU,
        v.recvd.len() == LINK_MTU,
        payload.len() <= LINK_MTU,
        n * c >= payload.len(),
        (n - 1) * c < payload.len(),
        forall|i: int|
            0 <= i < payload.len() && i < k * c ==> v.bytes[i] == payload[i] && v.recvd[i],
    ensures
        ({
            let w = with_chunks(v, payload, c, k, n);
            &&& w.bytes.len() == LINK_MTU
            &&& w.recvd.len() == LINK_MTU
            &&& forall|i: int| 0 <= i < payload.len() ==> w.bytes[i] == payload[i] && w.recvd[i]
            &&& w.busy == v.busy
            &&& w.key == v.key
            &&& w.started_at == v.started_at
        }),
    decreases n - k,
{
    if k < n {
        let chunk = chunk_of(payload, c, k);
        let v2 = v.with_chunk(k * c, chunk);
        vstd::arithmetic::mul::lemma_mul_inequality(k, n - 1, c);
        assert((k + 1) * c == k * c + c) by (nonlinear_arith);
        assert(k * c < payload.len());
        assert forall|i: int|
            0 <= i < payload.len() && i < (k + 1) * c implies v2.bytes[i] == payload[i]
            && v2.recvd[i] by {
            if i < k * c {
                assert(v.bytes[i] == payload[i] && v.recvd[i]);
            } else {
                assert(v2.bytes[i] == chunk[i - k * c]);
                assert(v2.recvd[i]);
            }
        }
        lemma_chunks_cover(v2, payload, c, k + 1, n);
    }
}

/// Law: a fragmented datagram reassembles exactly.  Recording every
/// chunk of a payload into a freshly claimed slot — `n` chunks of `c`
/// bytes covering the whole datagram — completes the slot, and the
/// assembled datagram is the payload itself.
pub proof fn lemma_fragmentation_reassembles(
    slot: AssemblerView,
    key: FragKey,
    payload: Seq<u8>,
    c: int,
    n: int,
    now: u64,
)
    requires
        c > 0,
        n >= 0,
        key.size == payload.len(),
        0 < payload.len() <= LINK_MTU,
        n * c >= payload.len(),
        (n - 1) * c < payload.len(),
        slot.bytes.len() == LINK_MTU,
        slot.recvd.len() == LINK_MTU,
    ensures
        ({
            let w = with_chunks(slot.claimed(key, now), payload, c, 0, n);
            w.complete() && w.assembled() =~= payload
        }),
{
    let claimed = slot.claimed(key, now);
    assert(claimed.bytes.len() == LINK_MTU && claimed.recvd.len() == LINK_MTU);
    lemma_chunks_cover(claimed, payload, c, 0, n);
    let w = with_chunks(claimed, payload, c, 0, n);
    assert(w.key == key);
    assert forall|i: int| 0 <= i < w.key.size implies w.recvd[i] by {
        assert(0 <= i < payload.len());
        assert(w.bytes[i] == payload[i] && w.recvd[i]);
    }
    assert forall|i: int| 0 <= i < payload.len() implies w.assembled()[i] == payload[i] by {
        assert(w.bytes[i] == payload[i]);
    }
    assert(w.assembled() =~= payload);
}

/// The first busy slot holding this datagram, searching from `i`.
pub open spec fn find_busy(s: Seq<AssemblerView>, key: FragKey, i: int) -> Option<int>
    decreases s.len() - i when 0 <= i <= s.len()
{
    if i >= s.len() {
        None
    } else if s[i].busy && key_matches(s[i].key, key) {
        Some(i)
    } else {
        find_busy(s, key, i + 1)
    }
}

/// The first free slot, searching from `i`.
pub open spec fn find_free(s: Seq<AssemblerView>, i: int) -> Option<int>
    decreases s.len() - i when 0 <= i <= s.len()
{
    if i >= s.len() {
        None
    } else if !s[i].busy {
        Some(i)
    } else {
        find_free(s, i + 1)
    }
}

/// What `find_busy` finds is in range, busy and matching.
pub proof fn lemma_find_busy_ok(s: Seq<AssemblerView>, key: FragKey, i: int)
    requires
        0 <= i <= s.len(),
    ensures
        match find_busy(s, key, i) {
            Some(j) => i <= j < s.len() && s[j].busy && key_matches(s[j].key, key),
            None => true,
        },
    decreases s.len() - i,
{
    if i < s.len() && !(s[i].busy && key_matches(s[i].key, key)) {
        lemma_find_busy_ok(s, key, i + 1);
    }
}

/// What `find_free` finds is in range and free.
pub proof fn lemma_find_free_ok(s: Seq<AssemblerView>, i: int)
    requires
        0 <= i <= s.len(),
    ensures
        match find_free(s, i) {
            Some(j) => i <= j < s.len() && !s[j].busy,
            None => true,
        },
    decreases s.len() - i,
{
    if i < s.len() && s[i].busy {
        lemma_find_free_ok(s, i + 1);
    }
}

/// The fixed set of reassembly slots the interface task owns.
pub struct ReassemblyCache {
    pub slots: Vec<PacketAssembler>,
}

impl ReassemblyCache {
    /// The abstract state of every slot.
    pub open spec fn views(self) -> Seq<AssemblerView> {
        Seq::new(self.slots@.len(), |i: int| self.slots@[i]@)
    }

    pub open spec fn wf(self) -> bool {
        &&& self.slots@.len() == MAX_FRAGMENTS
        &&& forall|i: int| 0 <= i < self.slots@.len() ==> (#[trigger] self.slots@[i]).wf()
    }

    /// All slots free.
    pub fn new() -> (r: ReassemblyCache)
        ensures
            r.wf(),
            forall|i: int| 0 <= i < r.views().len() ==> !(#[trigger] r.views()[i]).busy,
    {
        let mut slots: Vec<PacketAssembler> = Vec::new();
        let mut i: usize = 0;
        while i < MAX_FRAGMENTS
            invariant
                i <= MAX_FRAGMENTS,
                slots@.len() == i,
                forall|j: int| 0 <= j < i ==> (#[trigger] slots@[j]).wf() && !slots@[j]@.busy,
            decreases MAX_FRAGMENTS - i,
        {
            slots.push(PacketAssembler::new());
            i += 1;
        }
        ReassemblyCache { slots }
    }

    /// The first busy slot holding this datagram.
    fn find_busy_index(&self, key: &FragKey) -> (r: Option<usize>)
        requires
            self.wf(),
        ensures
            match r {
                Some(u) => find_busy(self.views(), *key, 0) == Some(u as int),
                None => find_busy(self.views(), *key, 0) is None,
            },
    {
        let mut i: usize = 0;
        while i < self.slots.len()
            invariant
                self.wf(),
                i <= self.slots@.len(),
                find_busy(self.views(), *key, 0) == find_busy(self.views(), *key, i as int),
            decreases self.slots@.len() - i,
        {
            if self.slots[i].busy && self.slots[i].key.matches(key) {
                assert(self.views()[i as int].busy && key_matches(self.views()[i as int].key, *key));
                return Some(i);
            }
            assert(!(self.views()[i as int].busy && key_matches(self.views()[i as int].key, *key)));
            i += 1;
        }
        None
    }

    /// The first free slot.
    fn find_free_index(&self) -> (r: Option<usize>)
        requires
            self.wf(),
        ensures
            match r {
                Some(u) => find_free(self.views(), 0) == Some(u as int),
                None => find_free(self.views(), 0) is None,
            },
    {
        let mut i: usize = 0;
        while i < self.slots.len()
            invariant
                self.wf(),
                i <= self.slots@.len(),
                find_free(self.views(), 0) == find_free(self.views(), i as int),
            decreases self.slots@.len() - i,
        {
            if !self.slots[i].busy {
                assert(!self.views()[i as int].busy);
                return Some(i);
            }
            assert(self.views()[i as int].busy);
            i += 1;
        }
        None
    }

    /// Take one inbound fragment.  The fragment joins the slot
    /// already assembling its datagram, or claims a free slot for a
    /// new datagram; with no slot available it is dropped silently.
    /// The datagram is handed out exactly when every one of its bytes
    /// has arrived, and its slot is freed with it.
    pub fn accept_fragment(&mut self, key: FragKey, offset: usize, chunk: &[u8], now: u64) -> (r:
        Option<Vec<u8>>)
        requires
            old(self).wf(),
            0 < key.size <= LINK_MTU,
            offset + chunk@.len() <= key.size,
        ensures
            final(self).wf(),
            ({
                let vs = old(self).views();
                let target = if find_busy(vs, key, 0) is Some {
                    find_busy(vs, key, 0)
                } else {
                    find_free(vs, 0)
                };
                match target {
                    None => r is None && final(self).views() =~~= vs,
                    Some(i) => {
                        let base = if find_busy(vs, key, 0) is Some {
                            vs[i]
                        } else {
                            vs[i].claimed(key, now)
                        };
                        let marked = base.with_chunk(offset as int, chunk@);
                        &&& forall|j: int|
                            0 <= j < vs.len() && j != i ==> final(self).views()[j] =~~= vs[j]
                        &&& if marked.complete() {
                            &&& r matches Some(p) && p@ =~= marked.assembled()
                            &&& final(self).views()[i] =~~= (AssemblerView { busy: false, ..marked })
                        } else {
                            r is None && final(self).views()[i] =~~= marked
                        }
                    },
                }
            }),
    {
        proof {
            lemma_find_busy_ok(self.views(), key, 0);
            lemma_find_free_ok(self.views(), 0);
        }
        let i: usize;
        match self.find_busy_index(&key) {
            Some(b) => {
                i = b;
            },
            None => {
                match self.find_free_index() {
                    Some(f) => {
                        i = f;
                        let slot = &mut self.slots[f];
                        slot.claim(key, now);
                    },
                    None => {
                        return None;
                    },
                }
            },
        }
        let slot = &mut self.slots[i];
        slot.add_chunk(offset, chunk);
        if slot.is_complete() {
            let payload = slot.take_payload();
            Some(payload)
        } else {
            None
        }
    }

    /// Reclaim every slot whose datagram has been incomplete for the
    /// full timeout; its fragments are discarded silently.
    pub fn expire(&mut self, now: u64)
        requires
            old(self).wf(),
        ensures
            final(self).wf(),
            final(self).views().len() == old(self).views().len(),
            forall|i: int|
                0 <= i < old(self).views().len() ==> final(self).views()[i] =~~= ({
                    let v = old(self).views()[i];
                    if v.busy && v.started_at <= now && now - v.started_at
                        >= REASSEMBLY_TIMEOUT_MS {
                        AssemblerView { busy: false, ..v }
                    } else {
                        v
                    }
                }),
    {
        let mut i: usize = 0;
        while i < self.slots.len()
            invariant
                self.wf(),
                self.slots@.len() == old(self).slots@.len(),
                i <= self.slots@.len(),
                forall|j: int|
                    i <= j < old(self).views().len() ==> self.views()[j] =~~= old(self).views()[j],
                forall|j: int|
                    0 <= j < i ==> self.views()[j] =~~= ({
                        let v = old(self).views()[j];
                        if v.busy && v.started_at <= now && now - v.started_at
                            >= REASSEMBLY_TIMEOUT_MS {
                            AssemblerView { busy: false, ..v }
                        } else {
                            v
                        }
                    }),
            decreases self.slots@.len() - i,
        {
            let ghost prev = *self;
            let slot = &mut self.slots[i];
            slot.expire_one(now);
            proof {
                assert forall|j: int|
                    0 <= j < i + 1 implies self.views()[j] =~~= ({
                        let v = old(self).views()[j];
                        if v.busy && v.started_at <= now && now - v.started_at
                            >= REASSEMBLY_TIMEOUT_MS {
                            AssemblerView { busy: false, ..v }
                        } else {
                            v
                        }
                    }) by {
                    let v = old(self).views()[j];
                    if j == i {
                        assert(prev.views()[j] =~~= v);
                        assert(self.slots@[j]@ =~~= ({
                            if v.busy && v.started_at <= now && now - v.started_at
                                >= REASSEMBLY_TIMEOUT_MS {
                                AssemblerView { busy: false, ..v }
                            } else {
                                v
                            }
                        }));
                    } else {
                        assert(self.slots@[j] == prev.slots@[j]);
                        assert(prev.views()[j] =~~= ({
                            if v.busy && v.started_at <= now && now - v.started_at
                                >= REASSEMBLY_TIMEOUT_MS {
                                AssemblerView { busy: false, ..v }
                            } else {
                                v
                            }
                        }));
                    }
                }
                assert forall|j: int|
                    i + 1 <= j < old(self).views().len() implies self.views()[j] =~~= old(
                    self,
                ).views()[j] by {
                    assert(self.slots@[j] == prev.slots@[j]);
                    assert(prev.views()[j] =~~= old(self).views()[j]);
                }
            }
            i += 1;
        }
    }
}

} // verus!
