//! The interface task's neighbor cache.
//!
//! Outbound frames need the link-layer address an IPv6 neighbor
//! answers to; the interface keeps the few most recently learned
//! pairs in a fixed set of entries.  The eviction policy is
//! deliberately the simplest that serves (the design leaves the
//! choice open): a known address is updated in place, a new one takes
//! a free slot, and with every slot taken new neighbors are not
//! recorded.

use vstd::prelude::*;
use crate::net::{Ieee802154Address, Ipv6Address};

verus! {

/// Entries the neighbor cache holds at most.
pub const NEIGHBOR_CACHE_CAP: usize = 4;

/// The first entry for this IPv6 address, searching from `i`.
pub open spec fn neighbor_lookup(
    c: Seq<(Ipv6Address, Ieee802154Address)>,
    addr: Seq<u8>,
    i: int,
) -> Option<int>
    decreases c.len() - i when 0 <= i <= c.len()
{
    if i >= c.len() {
        None
    } else if c[i].0@ == addr {
        Some(i)
    } else {
        neighbor_lookup(c, addr, i + 1)
    }
}

/// The neighbor cache: IPv6 address to link-layer address.
pub struct NeighborCache {
    pub entries: Vec<(Ipv6Address, Ieee802154Address)>,
}

impl NeighborCache {
    pub open spec fn wf(self) -> bool {
        self.entries@.len() <= NEIGHBOR_CACHE_CAP
    }

    /// An empty cache.
    pub fn new() -> (r: NeighborCache)
        ensures
            r.wf(),
            r.entries@.len() == 0,
    {
        NeighborCache { entries: Vec::new() }
    }

    /// The link-layer address of a neighbor, if it is known.
    pub fn lookup(&self, addr: &Ipv6Address) -> (r: Option<Ieee802154Address>)
        requires
            self.wf(),
        ensures
            match neighbor_lookup(self.entries@, addr@, 0) {
                Some(i) => r matches Some(hw) && hw@ == self.entries@[i].1@,
                None => r is None,
            },
    {
        let mut i: usize = 0;
        while i < self.entries.len()
            invariant
                i <= self.entries@.len(),
                neighbor_lookup(self.entries@, addr@, 0) == neighbor_lookup(
                    self.entries@,
                    addr@,
                    i as int,
                ),
            decreases self.entries@.len() - i,
        {
            if self.entries[i].0 == *addr {
                assert(self.entries@[i as int].0@ == addr@);
                return Some(self.entries[i].1);
            }
            assert(self.entries@[i as int].0@ != addr@);
            i += 1;
        }
        None
    }

    /// Learn a neighbor.  A known address is updated in place; a new
    /// one takes a free slot; a full cache rejects new neighbors.
    pub fn fill(&mut self, addr: Ipv6Address, hw: Ieee802154Address) -> (accepted: bool)
        requires
            old(self).wf(),
        ensures
            final(self).wf(),
            match neighbor_lookup(old(self).entries@, addr@, 0) {
                Some(i) => accepted && final(self).entries@ =~= old(self).entries@.update(
                    i,
                    (addr, hw),
                ),
                None => if old(self).entries@.len() < NEIGHBOR_CACHE_CAP {
                    accepted && final(self).entries@ =~= old(self).entries@.push((addr, hw))
                } else {
                    !accepted && final(self).entries@ == old(self).entries@
                },
            },
    {
        let mut i: usize = 0;
        while i < self.entries.len()
            invariant
                old(self).wf(),
                *self == *old(self),
                i <= self.entries@.len(),
                neighbor_lookup(self.entries@, addr@, 0) == neighbor_lookup(
                    self.entries@,
                    addr@,
                    i as int,
                ),
            decreases self.entries@.len() - i,
        {
            if self.entries[i].0 == addr {
                assert(self.entries@[i as int].0@ == addr@);
                self.entries[i] = (addr, hw);
                return true;
            }
            assert(self.entries@[i as int].0@ != addr@);
            i += 1;
        }
        if self.entries.len() < NEIGHBOR_CACHE_CAP {
            self.entries.push((addr, hw));
            true
        } else {
            false
        }
    }

    /// Drop a neighbor, freeing its slot.
    pub fn forget(&mut self, addr: &Ipv6Address) -> (removed: bool)
        requires
            old(self).wf(),
        ensures
            final(self).wf(),
            match neighbor_lookup(old(self).entries@, addr@, 0) {
                Some(i) => removed && final(self).entries@ =~= old(self).entries@.remove(i),
                None => !removed && final(self).entries@ == old(self).entries@,
            },
    {
        let mut i: usize = 0;
        while i < self.entries.len()
            invariant
                old(self).wf(),
                *self == *old(self),
                i <= self.entries@.len(),
                neighbor_lookup(self.entries@, addr@, 0) == neighbor_lookup(
                    self.entries@,
                    addr@,
                    i as int,
                ),
            decreases self.entries@.len() - i,
        {
            if self.entries[i].0 == *addr {
                assert(self.entries@[i as int].0@ == addr@);
                self.entries.remove(i);
                return true;
            }
            assert(self.entries@[i as int].0@ != addr@);
            i += 1;
        }
        false
    }
}

} // verus!
