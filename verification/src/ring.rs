//! Power-of-two packet rings shared between the radio driver and the
//! DMA engine.
//!
//! Each ring is a fixed set of 255-byte slots addressed by free-running
//! read and write counters that are reduced modulo the capacity on use.
//! Exactly one side advances each counter: on the receive ring the
//! interrupt handler commits slots the DMA engine filled, on the
//! transmit ring the driver consumes slots the producer wrote.  A slot
//! stores the physical-layer length byte first; the frame carried by a
//! slot is everything between that length byte and the trailing
//! checksum byte.

use vstd::prelude::*;
use vstd::arithmetic::div_mod::lemma_fundamental_div_mod;
use vstd::arithmetic::power2::pow2;
use vstd::bits::{low_bits_mask, lemma_usize_low_bits_mask_is_mod};

verus! {

/// The size of one ring slot: the largest physical-layer packet, one
/// length byte followed by up to 254 further bytes.
pub const PACKET_SIZE: usize = 255;

/// The largest payload `RingBufferTx::write` accepts: the stored
/// length byte is `len + 2` and must fit the 127-octet frame limit.
pub const MAX_TX_PAYLOAD: usize = 125;

/// True when `n` is a (nonzero) power of two.
pub open spec fn is_pow2(n: usize) -> bool {
    exists|k: nat| k < usize::BITS && n == pow2(k)
}

/// Two distinct counters less than one capacity apart never share a
/// slot.
proof fn lemma_mod_distinct_in_window(a: int, b: int, cap: int)
    requires
        cap > 0,
        a < b,
        b - a < cap,
    ensures
        a % cap != b % cap,
{
    if a % cap == b % cap {
        lemma_fundamental_div_mod(a, cap);
        lemma_fundamental_div_mod(b, cap);
        let qa = a / cap;
        let qb = b / cap;
        let r = a % cap;
        assert(false) by (nonlinear_arith)
            requires
                a == cap * qa + r,
                b == cap * qb + r,
                cap > 0,
                a < b,
                b - a < cap,
        ;
    }
}

/// Reduce a free-running counter to a slot index: `index & (cap - 1)`,
/// which equals `index % cap` because the capacity is a power of two.
pub fn mask(cap: usize, index: usize) -> (r: usize)
    requires
        is_pow2(cap),
    ensures
        r == index % cap,
        r < cap,
{
    proof {
        let k = choose|k: nat| k < usize::BITS && cap == pow2(k);
        vstd::arithmetic::power2::lemma_pow2_pos(k);
        lemma_usize_low_bits_mask_is_mod(index, k);
        assert(low_bits_mask(k) == cap - 1);
    }
    let m: usize = cap - 1;
    index & m
}

/// The frame stored in a slot: everything between the length byte and
/// the trailing checksum byte.
pub open spec fn slot_frame(slot: Seq<u8>) -> Seq<u8> {
    slot.subrange(1, slot[0] - 1)
}

/// A slot image is well formed when it has the fixed slot size and its
/// length byte describes a nonempty frame that fits the slot.
pub open spec fn slot_wf(slot: Seq<u8>) -> bool {
    &&& slot.len() == PACKET_SIZE
    &&& 2 <= slot[0] < PACKET_SIZE
}

/// The receive ring: the DMA engine fills the slot under the write
/// counter; the driver commits it on a good checksum and readers
/// consume committed slots in arrival order.
pub struct RingBufferRx {
    pub buf: Vec<Vec<u8>>,
    pub read_idx: usize,
    pub write_idx: usize,
}

impl RingBufferRx {
    /// Number of slots.
    pub open spec fn cap(self) -> int {
        self.buf@.len() as int
    }

    /// Committed packets not yet read.
    pub open spec fn len_spec(self) -> int {
        self.write_idx - self.read_idx
    }

    pub open spec fn read_counter(self) -> int {
        self.read_idx as int
    }

    pub open spec fn write_counter(self) -> int {
        self.write_idx as int
    }

    /// The slot image a free-running counter position refers to.
    pub open spec fn slot_at(self, pos: int) -> Seq<u8> {
        self.buf@[pos % self.cap()]@
    }

    /// Ring invariant: power-of-two capacity, counters at most one
    /// capacity apart, full-size slots, and a well-formed length byte
    /// in every committed slot.
    pub open spec fn wf(self) -> bool {
        &&& is_pow2(self.buf@.len() as usize)
        &&& self.read_idx <= self.write_idx
        &&& self.write_idx - self.read_idx <= self.cap()
        &&& forall|i: int| 0 <= i < self.cap() ==> (#[trigger] self.buf@[i])@.len() == PACKET_SIZE
        &&& forall|p: int|
            self.read_idx <= p < self.write_idx ==> slot_wf(#[trigger] self.slot_at(p))
    }

    /// The committed frames awaiting readers, oldest first.
    pub open spec fn frames(self) -> Seq<Seq<u8>> {
        Seq::new((self.write_idx - self.read_idx) as nat, |n: int| slot_frame(self.slot_at(self.read_idx + n)))
    }

    /// Build a ring of `cap` zeroed slots.
    pub fn new(cap: usize) -> (r: RingBufferRx)
        requires
            is_pow2(cap),
        ensures
            r.wf(),
            r.cap() == cap,
            r.read_counter() == 0,
            r.write_counter() == 0,
            r.frames() =~= Seq::<Seq<u8>>::empty(),
            forall|i: int|
                0 <= i < cap ==> (#[trigger] r.buf@[i])@ =~= Seq::new(
                    PACKET_SIZE as nat,
                    |j: int| 0u8,
                ),
    {
        let mut buf: Vec<Vec<u8>> = Vec::new();
        let mut i: usize = 0;
        while i < cap
            invariant
                i <= cap,
                buf@.len() == i,
                forall|j: int| 0 <= j < i ==> (#[trigger] buf@[j])@.len() == PACKET_SIZE,
                forall|j: int|
                    0 <= j < i ==> (#[trigger] buf@[j])@ =~= Seq::new(
                        PACKET_SIZE as nat,
                        |k: int| 0u8,
                    ),
            decreases cap - i,
        {
            let slot: Vec<u8> = vec![0u8; PACKET_SIZE];
            buf.push(slot);
            i += 1;
        }
        RingBufferRx { buf, read_idx: 0, write_idx: 0 }
    }

    /// Committed packets not yet read.
    pub fn len(&self) -> (r: usize)
        requires
            self.wf(),
        ensures
            r == self.len_spec(),
    {
        self.write_idx - self.read_idx
    }

    pub fn is_empty(&self) -> (r: bool)
        requires
            self.wf(),
        ensures
            r == (self.len_spec() == 0),
    {
        self.len() == 0
    }

    /// The slot index the DMA engine must be pointed at for the next
    /// reception: the slot under the write counter.
    pub fn set_as_buffer(&self) -> (idx: usize)
        requires
            self.wf(),
        ensures
            idx == self.write_counter() % self.cap(),
            idx < self.cap(),
    {
        mask(self.buf.len(), self.write_idx)
    }

    /// Record the raw slot image the DMA engine stored into the armed
    /// slot.  This stands in for the hardware write; the harness that
    /// owns the peripheral calls it with the captured bytes before the
    /// interrupt handler commits the packet.
    pub fn fill_write_slot(&mut self, raw: &[u8])
        requires
            old(self).wf(),
            old(self).len_spec() < old(self).cap(),
            raw@.len() == PACKET_SIZE,
            2 <= raw@[0] < PACKET_SIZE,
        ensures
            final(self).wf(),
            final(self).cap() == old(self).cap(),
            final(self).read_counter() == old(self).read_counter(),
            final(self).write_counter() == old(self).write_counter(),
            final(self).frames() =~= old(self).frames(),
            final(self).slot_at(final(self).write_counter()) == raw@,
    {
        let idx = mask(self.buf.len(), self.write_idx);
        let mut slot: Vec<u8> = Vec::new();
        let mut i: usize = 0;
        while i < raw.len()
            invariant
                i <= raw@.len(),
                slot@.len() == i,
                forall|j: int| 0 <= j < i ==> slot@[j] == raw@[j],
            decreases raw@.len() - i,
        {
            slot.push(raw[i]);
            i += 1;
        }
        assert(slot@ =~= raw@);
        self.buf[idx] = slot;
        proof {
            assert forall|p: int|
                old(self).read_counter() <= p < old(self).write_counter() implies self.slot_at(p)
                == old(self).slot_at(p) by {
                lemma_mod_distinct_in_window(p, old(self).write_counter(), old(self).cap());
                vstd::arithmetic::div_mod::lemma_mod_bound(p, old(self).cap());
            }
            vstd::arithmetic::div_mod::lemma_mod_bound(
                old(self).write_counter(),
                old(self).cap(),
            );
        }
    }

    /// Commit the filled slot: advance the write counter by one.  Only
    /// the interrupt handler calls this, on a successful reception.
    pub fn got_packet(&mut self)
        requires
            old(self).wf(),
            old(self).len_spec() < old(self).cap(),
            old(self).write_counter() < usize::MAX,
            slot_wf(old(self).slot_at(old(self).write_counter())),
        ensures
            final(self).wf(),
            final(self).buf == old(self).buf,
            final(self).cap() == old(self).cap(),
            final(self).read_counter() == old(self).read_counter(),
            final(self).write_counter() == old(self).write_counter() + 1,
            final(self).frames() =~= old(self).frames().push(
                slot_frame(old(self).slot_at(old(self).write_counter())),
            ),
    {
        self.write_idx = self.write_idx + 1;
        proof {
            assert forall|p: int|
                self.read_idx <= p < self.write_idx implies slot_wf(#[trigger] self.slot_at(p)) by {
                if p < old(self).write_counter() {
                    assert(slot_wf(old(self).slot_at(p)));
                }
                assert(self.slot_at(p) == old(self).slot_at(p));
            }
        }
    }

    /// Consume the oldest committed frame, returning a copy of its
    /// bytes (length byte and trailing checksum byte stripped), and
    /// advance the read counter.
    pub fn read(&mut self) -> (r: Option<Vec<u8>>)
        requires
            old(self).wf(),
            old(self).read_counter() < usize::MAX,
        ensures
            final(self).wf(),
            final(self).buf == old(self).buf,
            final(self).cap() == old(self).cap(),
            old(self).len_spec() == 0 ==> r is None && *final(self) == *old(self),
            old(self).len_spec() > 0 ==> {
                &&& r matches Some(frame) && frame@ == old(self).frames()[0]
                &&& final(self).read_counter() == old(self).read_counter() + 1
                &&& final(self).write_counter() == old(self).write_counter()
                &&& final(self).frames() =~= old(self).frames().subrange(
                    1,
                    old(self).frames().len() as int,
                )
            },
    {
        if self.is_empty() {
            return None;
        }
        let idx = mask(self.buf.len(), self.read_idx);
        proof {
            assert(slot_wf(self.slot_at(self.read_counter())));
        }
        let packet_len: usize = self.buf[idx][0] as usize;
        let mut out: Vec<u8> = Vec::new();
        let mut i: usize = 1;
        while i < packet_len - 1
            invariant
                1 <= i <= packet_len - 1,
                self.wf(),
                self.len_spec() > 0,
                idx == self.read_counter() % self.cap(),
                idx < self.cap(),
                packet_len == self.slot_at(self.read_counter())[0],
                2 <= packet_len < PACKET_SIZE,
                out@.len() == i - 1,
                forall|j: int| 0 <= j < i - 1 ==> out@[j] == self.slot_at(self.read_counter())[1 + j],
            decreases packet_len - i,
        {
            out.push(self.buf[idx][i]);
            i += 1;
        }
        assert(out@ =~= slot_frame(self.slot_at(self.read_counter())));
        self.read_idx = self.read_idx + 1;
        proof {
            assert forall|p: int|
                self.read_idx <= p < self.write_idx implies slot_wf(#[trigger] self.slot_at(p)) by {
                assert(slot_wf(old(self).slot_at(p)));
                assert(self.slot_at(p) == old(self).slot_at(p));
            }
        }
        Some(out)
    }
}

/// The transmit ring: the producer writes frames under the write
/// counter; the DMA engine reads the slot under the read counter and
/// the driver advances it once a frame leaves the antenna.
pub struct RingBufferTx {
    pub buf: Vec<Vec<u8>>,
    pub read_idx: usize,
    pub write_idx: usize,
}

impl RingBufferTx {
    pub open spec fn cap(self) -> int {
        self.buf@.len() as int
    }

    pub open spec fn len_spec(self) -> int {
        self.write_idx - self.read_idx
    }

    pub open spec fn read_counter(self) -> int {
        self.read_idx as int
    }

    pub open spec fn write_counter(self) -> int {
        self.write_idx as int
    }

    pub open spec fn slot_at(self, pos: int) -> Seq<u8> {
        self.buf@[pos % self.cap()]@
    }

    /// Ring invariant; in addition to the receive-ring shape, every
    /// pending slot's length byte fits the 127-octet frame limit so it
    /// can be handed to the radio unchanged.
    pub open spec fn wf(self) -> bool {
        &&& is_pow2(self.buf@.len() as usize)
        &&& self.read_idx <= self.write_idx
        &&& self.write_idx - self.read_idx <= self.cap()
        &&& forall|i: int| 0 <= i < self.cap() ==> (#[trigger] self.buf@[i])@.len() == PACKET_SIZE
        &&& forall|p: int|
            self.read_idx <= p < self.write_idx
                ==> slot_wf(#[trigger] self.slot_at(p)) && self.slot_at(p)[0] <= 127
    }

    /// The pending frames awaiting transmission, oldest first.
    pub open spec fn frames(self) -> Seq<Seq<u8>> {
        Seq::new((self.write_idx - self.read_idx) as nat, |n: int| slot_frame(self.slot_at(self.read_idx + n)))
    }

    /// Build a ring of `cap` zeroed slots.
    pub fn new(cap: usize) -> (r: RingBufferTx)
        requires
            is_pow2(cap),
        ensures
            r.wf(),
            r.cap() == cap,
            r.read_counter() == 0,
            r.write_counter() == 0,
            r.frames() =~= Seq::<Seq<u8>>::empty(),
            forall|i: int|
                0 <= i < cap ==> (#[trigger] r.buf@[i])@ =~= Seq::new(
                    PACKET_SIZE as nat,
                    |j: int| 0u8,
                ),
    {
        let mut buf: Vec<Vec<u8>> = Vec::new();
        let mut i: usize = 0;
        while i < cap
            invariant
                i <= cap,
                buf@.len() == i,
                forall|j: int| 0 <= j < i ==> (#[trigger] buf@[j])@.len() == PACKET_SIZE,
                forall|j: int|
                    0 <= j < i ==> (#[trigger] buf@[j])@ =~= Seq::new(
                        PACKET_SIZE as nat,
                        |k: int| 0u8,
                    ),
            decreases cap - i,
        {
            let slot: Vec<u8> = vec![0u8; PACKET_SIZE];
            buf.push(slot);
            i += 1;
        }
        RingBufferTx { buf, read_idx: 0, write_idx: 0 }
    }

    pub fn len(&self) -> (r: usize)
        requires
            self.wf(),
        ensures
            r == self.len_spec(),
    {
        self.write_idx - self.read_idx
    }

    pub fn is_full(&self) -> (r: bool)
        requires
            self.wf(),
        ensures
            r == (self.len_spec() == self.cap()),
    {
        self.len() == self.buf.len()
    }

    pub fn is_empty(&self) -> (r: bool)
        requires
            self.wf(),
        ensures
            r == (self.len_spec() == 0),
    {
        self.len() == 0
    }

    /// The slot index the DMA engine must be pointed at for the next
    /// transmission: the slot under the read counter, whose length
    /// byte is already checked against the 127-octet limit.
    pub fn set_as_buffer(&self) -> (idx: usize)
        requires
            self.wf(),
            self.len_spec() > 0,
        ensures
            idx == self.read_counter() % self.cap(),
            idx < self.cap(),
            self.slot_at(self.read_counter())[0] <= 127,
    {
        mask(self.buf.len(), self.read_idx)
    }

    /// A frame left the antenna: advance the read counter.
    pub fn sent_packet(&mut self)
        requires
            old(self).wf(),
            old(self).len_spec() > 0,
            old(self).read_counter() < usize::MAX,
        ensures
            final(self).wf(),
            final(self).buf == old(self).buf,
            final(self).cap() == old(self).cap(),
            final(self).read_counter() == old(self).read_counter() + 1,
            final(self).write_counter() == old(self).write_counter(),
            final(self).frames() =~= old(self).frames().subrange(
                1,
                old(self).frames().len() as int,
            ),
    {
        self.read_idx = self.read_idx + 1;
        proof {
            assert forall|p: int|
                self.read_idx <= p < self.write_idx implies slot_wf(#[trigger] self.slot_at(p))
                    && self.slot_at(p)[0] <= 127 by {
                assert(slot_wf(old(self).slot_at(p)) && old(self).slot_at(p)[0] <= 127);
                assert(self.slot_at(p) == old(self).slot_at(p));
            }
        }
    }

    /// Store a frame in the next free slot: length byte `len + 2`
    /// first (reserving room for the checksum the hardware appends),
    /// then the payload.  The caller must check `is_full` first; the
    /// ring itself holds that as a precondition rather than a runtime
    /// test.
    pub fn write(&mut self, payload: &[u8])
        requires
            old(self).wf(),
            old(self).len_spec() < old(self).cap(),
            old(self).write_counter() < usize::MAX,
            payload@.len() <= MAX_TX_PAYLOAD,
        ensures
            final(self).wf(),
            final(self).cap() == old(self).cap(),
            final(self).read_counter() == old(self).read_counter(),
            final(self).write_counter() == old(self).write_counter() + 1,
            final(self).frames() =~= old(self).frames().push(payload@),
    {
        let idx = mask(self.buf.len(), self.write_idx);
        let mut slot: Vec<u8> = vec![0u8; PACKET_SIZE];
        slot[0] = (payload.len() + 2) as u8;
        let mut i: usize = 0;
        while i < payload.len()
            invariant
                i <= payload@.len(),
                payload@.len() <= MAX_TX_PAYLOAD,
                slot@.len() == PACKET_SIZE,
                slot@[0] == (payload@.len() + 2) as u8,
                forall|j: int| 0 <= j < i ==> slot@[1 + j] == payload@[j],
            decreases payload@.len() - i,
        {
            slot[i + 1] = payload[i];
            i += 1;
        }
        self.buf[idx] = slot;
        self.write_idx = self.write_idx + 1;
        proof {
            assert forall|p: int|
                old(self).read_counter() <= p < old(self).write_counter() implies self.slot_at(p)
                == old(self).slot_at(p) by {
                lemma_mod_distinct_in_window(p, old(self).write_counter(), old(self).cap());
                vstd::arithmetic::div_mod::lemma_mod_bound(p, old(self).cap());
            }
            vstd::arithmetic::div_mod::lemma_mod_bound(
                old(self).write_counter(),
                old(self).cap(),
            );
            assert(self.slot_at(old(self).write_counter()).subrange(
                1,
                payload@.len() as int + 1,
            ) =~= payload@);
        }
    }
}

} // verus!
