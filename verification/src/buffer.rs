//! Early, variable-stride packet buffers for the radio's DMA engine.
//!
//! These predate the power-of-two rings in `ring` and pack frames
//! back to back in one byte array, each slot starting with its
//! physical-layer length byte.  A slot's offset advances by the frame
//! length and wraps to the start whenever a further maximum-size
//! packet would no longer fit.

use vstd::prelude::*;

verus! {

/// The largest physical-layer packet, length byte included.
pub const MAX_PACKET_SIZE: usize = 256;

/// Total bytes in the receive buffer: room for three maximum-size
/// packets.
pub const BUF_SIZE: usize = 768;

/// Where the offset after `from` lands, once a frame with length byte
/// `len` is accounted for: past the frame, or back at the start when
/// a maximum-size packet would no longer fit.
pub open spec fn next_offset(from: int, len: int) -> int {
    if from + len + 1 + MAX_PACKET_SIZE >= BUF_SIZE {
        0
    } else {
        from + len + 1
    }
}

/// A byte ring of received packets, packed back to back.  The DMA
/// engine writes at `next_packet`; the reader consumes at
/// `read_packet`.
pub struct RecvPacketBuffer {
    pub data: Vec<u8>,
    /// Offset of the packet being read out.
    pub read_packet: usize,
    /// Offset the DMA engine writes the next packet to.
    pub next_packet: usize,
}

impl RecvPacketBuffer {
    pub open spec fn wf(self) -> bool {
        &&& self.data@.len() == BUF_SIZE
        &&& self.read_packet < BUF_SIZE
        &&& self.next_packet < BUF_SIZE
    }

    /// A zeroed buffer with both offsets at the start.
    pub fn new() -> (r: RecvPacketBuffer)
        ensures
            r.wf(),
            r.read_packet == 0,
            r.next_packet == 0,
            forall|i: int| 0 <= i < BUF_SIZE ==> r.data@[i] == 0u8,
    {
        RecvPacketBuffer { data: vec![0u8; BUF_SIZE], read_packet: 0, next_packet: 0 }
    }

    /// Offsets differ, so at least one committed packet waits.  (A
    /// full wrap-around to the same offset is indistinguishable from
    /// empty; the buffer drops packets at that point, best effort.)
    pub fn has_packets(&self) -> (r: bool)
        ensures
            r == (self.read_packet != self.next_packet),
    {
        self.next_packet != self.read_packet
    }

    /// The offset the DMA engine must be pointed at.
    pub fn set_as_buffer(&self) -> (r: usize)
        ensures
            r == self.read_packet,
    {
        self.read_packet
    }

    /// Record the raw packet the DMA engine stored at the write
    /// offset.  Stands in for the hardware write, as the harness that
    /// owns the peripheral performs it.
    pub fn fill_at(&mut self, offset: usize, raw: &[u8])
        requires
            old(self).wf(),
            offset + raw@.len() <= BUF_SIZE,
        ensures
            final(self).wf(),
            final(self).read_packet == old(self).read_packet,
            final(self).next_packet == old(self).next_packet,
            final(self).data@.len() == BUF_SIZE,
            forall|i: int|
                0 <= i < BUF_SIZE ==> final(self).data@[i] == if offset <= i < offset + raw@.len() {
                    raw@[i - offset]
                } else {
                    old(self).data@[i]
                },
    {
        let mut i: usize = 0;
        while i < raw.len()
            invariant
                i <= raw@.len(),
                offset + raw@.len() <= BUF_SIZE,
                self.data@.len() == BUF_SIZE,
                self.read_packet == old(self).read_packet,
                self.next_packet == old(self).next_packet,
                forall|j: int|
                    0 <= j < BUF_SIZE ==> self.data@[j] == if offset <= j < offset + i {
                        raw@[j - offset]
                    } else {
                        old(self).data@[j]
                    },
            decreases raw@.len() - i,
        {
            self.data[offset + i] = raw[i];
            i += 1;
        }
    }

    /// A packet landed: advance the write offset past it, by the
    /// length byte found at the current read offset.  Frames shorter
    /// than three bytes are ignored.
    pub fn got_packet(&mut self)
        requires
            old(self).wf(),
        ensures
            final(self).wf(),
            final(self).data == old(self).data,
            final(self).read_packet == old(self).read_packet,
            ({
                let len = old(self).data@[old(self).read_packet as int] as int;
                if len >= 3 {
                    final(self).next_packet == next_offset(old(self).next_packet as int, len)
                } else {
                    final(self).next_packet == old(self).next_packet
                }
            }),
    {
        let len: usize = self.data[self.read_packet] as usize;
        if len >= 3 {
            let candidate = self.next_packet + len + 1;
            self.next_packet = if candidate + MAX_PACKET_SIZE >= BUF_SIZE {
                0
            } else {
                candidate
            };
        }
    }

    /// Copy out the packet at the read offset (length byte and
    /// trailing checksum byte stripped) and advance the read offset
    /// past it.
    pub fn read(&mut self) -> (r: Vec<u8>)
        requires
            old(self).wf(),
            ({
                let len = old(self).data@[old(self).read_packet as int] as int;
                &&& 2 <= len < MAX_PACKET_SIZE
                &&& old(self).read_packet + len <= BUF_SIZE
            }),
        ensures
            final(self).wf(),
            final(self).data == old(self).data,
            final(self).next_packet == old(self).next_packet,
            ({
                let start = old(self).read_packet as int;
                let len = old(self).data@[start] as int;
                &&& r@ =~= old(self).data@.subrange(start + 1, start + len - 1)
                &&& final(self).read_packet == next_offset(start, len)
            }),
    {
        let start = self.read_packet;
        let len: usize = self.data[start] as usize;
        let mut out: Vec<u8> = Vec::new();
        let mut i: usize = 1;
        while i < len - 1
            invariant
                1 <= i <= len - 1,
                2 <= len < MAX_PACKET_SIZE,
                start + len <= BUF_SIZE,
                *self == *old(self),
                self.data@.len() == BUF_SIZE,
                start == self.read_packet,
                len == self.data@[start as int],
                out@.len() == i - 1,
                forall|j: int| 0 <= j < i - 1 ==> out@[j] == self.data@[start + 1 + j],
            decreases len - i,
        {
            out.push(self.data[start + i]);
            i += 1;
        }
        let candidate = start + len + 1;
        self.read_packet = if candidate + MAX_PACKET_SIZE >= BUF_SIZE {
            0
        } else {
            candidate
        };
        proof {
            assert(out@ =~= old(self).data@.subrange(
                old(self).read_packet as int + 1,
                old(self).read_packet + old(self).data@[old(self).read_packet as int] - 1,
            ));
        }
        out
    }
}

/// A single-packet buffer used on the transmit side: one 128-byte
/// slot and a count of completed transfers.
pub struct PacketBuffer {
    pub data: Vec<u8>,
    pub completed: usize,
}

impl PacketBuffer {
    pub open spec fn wf(self) -> bool {
        self.data@.len() == 128
    }

    /// A zeroed slot with no completed transfer.
    pub fn new() -> (r: PacketBuffer)
        ensures
            r.wf(),
            r.completed == 0,
            forall|i: int| 0 <= i < 128 ==> r.data@[i] == 0u8,
    {
        PacketBuffer { data: vec![0u8; 128], completed: 0 }
    }

    /// Store a frame: its length byte (`len + 2`, reserving room for
    /// the hardware checksum) first, then the payload.
    pub fn write(&mut self, payload: &[u8])
        requires
            old(self).wf(),
            payload@.len() + 2 <= 128,
        ensures
            final(self).wf(),
            final(self).completed == old(self).completed,
            final(self).data@[0] == (payload@.len() + 2) as u8,
            forall|j: int| 0 <= j < payload@.len() ==> final(self).data@[1 + j] == payload@[j],
    {
        self.data[0] = (payload.len() + 2) as u8;
        let mut i: usize = 0;
        while i < payload.len()
            invariant
                i <= payload@.len(),
                payload@.len() + 2 <= 128,
                self.data@.len() == 128,
                self.completed == old(self).completed,
                self.data@[0] == (payload@.len() + 2) as u8,
                forall|j: int| 0 <= j < i ==> self.data@[1 + j] == payload@[j],
            decreases payload@.len() - i,
        {
            self.data[i + 1] = payload[i];
            i += 1;
        }
    }

    /// Take the one completed packet: exactly one transfer must have
    /// completed, else the caller has dropped packets and must treat
    /// that as fatal.
    pub fn read(&mut self) -> (r: Vec<u8>)
        requires
            old(self).wf(),
            old(self).completed == 1,
            2 <= old(self).data@[0] <= 128,
        ensures
            final(self).wf(),
            final(self).data == old(self).data,
            final(self).completed == 0,
            r@ =~= old(self).data@.subrange(1, old(self).data@[0] - 1),
    {
        self.completed = self.completed - 1;
        let len: usize = self.data[0] as usize;
        let mut out: Vec<u8> = Vec::new();
        let mut i: usize = 1;
        while i < len - 1
            invariant
                1 <= i <= len - 1,
                2 <= len <= 128,
                self.data@.len() == 128,
                len == self.data@[0],
                out@.len() == i - 1,
                forall|j: int| 0 <= j < i - 1 ==> out@[j] == self.data@[1 + j],
            decreases len - i,
        {
            out.push(self.data[i]);
            i += 1;
        }
        out
    }

    /// One more transfer completed; the interrupt path records it.
    pub fn mark_completed(&mut self)
        requires
            old(self).completed < usize::MAX,
        ensures
            final(self).wf() == old(self).wf(),
            final(self).data == old(self).data,
            final(self).completed == old(self).completed + 1,
    {
        self.completed = self.completed + 1;
    }
}

} // verus!
