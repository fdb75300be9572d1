//! Committee parameters and replica identities.

use vstd::prelude::*;

verus! {

/// Identity of a replica: an integer in `[0, num_nodes)`.
pub type Replica = usize;

/// Epoch counter.  The leader of epoch `e` is `e % num_nodes`.
pub type Epoch = u64;

/// Height of a block in the committed chain.
pub type Height = u64;

/// A replica id is valid for a committee of `n` nodes exactly when it lies
/// below `n`.  The broadcast address `n` itself is deliberately not a valid
/// replica.
pub fn is_valid_replica(r: Replica, n: usize) -> (b: bool)
    ensures
        b == (r < n),
{
    n > r
}

/// Static configuration of one replica: its own id, the committee size and
/// the synchrony bound `delta` (in milliseconds).
pub struct Node {
    pub id: Replica,
    pub num_nodes: usize,
    pub delta: u64,
}

impl Node {
    /// Well-formedness: the id addresses a committee member, the committee is
    /// non-empty, and `delta` is small enough that every multiple of it armed
    /// by the protocol (at most `11 * delta` from an epoch start) fits in a
    /// `u64` tick counter.
    pub open spec fn wf(self) -> bool {
        &&& self.id < self.num_nodes
        &&& 1 <= self.num_nodes
        &&& self.num_nodes < 0x1_0000_0000
        &&& 1 <= self.delta <= 0xffff_ffff
    }

    /// `f = (n - 1) / 2`: the number of faults the committee tolerates.
    pub open spec fn spec_num_faults(self) -> int {
        (self.num_nodes - 1) / 2
    }

    pub fn num_faults(&self) -> (f: usize)
        requires
            self.wf(),
        ensures
            f == self.spec_num_faults(),
    {
        (self.num_nodes - 1) / 2
    }

    /// Reconstruction threshold `t = f`; any `t + 1` correct decryption
    /// shares suffice to rebuild the beacon.
    pub open spec fn spec_threshold(self) -> int {
        self.spec_num_faults()
    }

    pub fn threshold(&self) -> (t: usize)
        requires
            self.wf(),
        ensures
            t == self.spec_threshold(),
    {
        (self.num_nodes - 1) / 2
    }

    /// Round-robin leader of epoch `e`.
    pub open spec fn spec_leader_of(self, e: Epoch) -> Replica {
        (e % (self.num_nodes as u64)) as Replica
    }

    pub fn leader_of(&self, e: Epoch) -> (l: Replica)
        requires
            self.wf(),
        ensures
            l == self.spec_leader_of(e),
            l < self.num_nodes,
    {
        (e % (self.num_nodes as u64)) as usize
    }
}

} // verus!
