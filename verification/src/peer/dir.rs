//! Directory-rendezvous peer discovery: each node claims the lowest free
//! node rank by creating the file named after it, writes its address
//! there, and reads its peers' files.
use vstd::prelude::*;
use vstd::string::StringExecFns;

use crate::strings::{push_u32_dec, spec_udec};

verus! {

/// Peers that meet in a shared directory.
pub struct DirectoryPeers {
    pub dir: String,
    pub nnodes: u32,
    /// The node rank this node registered under, once registered.
    pub node_rank: Option<u32>,
}

impl DirectoryPeers {
    pub fn new(dir: String, nnodes: u32) -> (r: Self)
        ensures
            r.dir == dir,
            r.nnodes == nnodes,
            r.node_rank is None,
    {
        DirectoryPeers { dir, nnodes, node_rank: None }
    }

    /// Choose the node rank to register under: the lowest rank whose
    /// file does not exist, per the given existence flags (one per
    /// rank).  Records the choice.
    pub fn register_choice(&mut self, taken: &Vec<bool>) -> (r: Option<u32>)
        requires
            old(self).node_rank is None,
            taken@.len() == old(self).nnodes,
            taken@.len() <= u32::MAX,
        ensures
            final(self).dir == old(self).dir,
            final(self).nnodes == old(self).nnodes,
            (match r {
                Some(k) => k < taken@.len() && !taken@[k as int] && (forall|j: int|
                    0 <= j < k ==> taken@[j]) && final(self).node_rank == Some(k),
                None => (forall|j: int| 0 <= j < taken@.len() ==> taken@[j])
                    && final(self).node_rank is None,
            }),
    {
        let n = taken.len();
        let mut i: usize = 0;
        while i < n
            invariant
                n == taken@.len(),
                n <= u32::MAX,
                i <= n,
                forall|j: int| 0 <= j < i ==> taken@[j],
                self == old(self),
            decreases n - i,
        {
            if !taken[i] {
                self.node_rank = Some(i as u32);
                return Some(i as u32);
            }
            i = i + 1;
        }
        None
    }

    /// The global ranks hosted on this node: a block of `nprocs` ranks
    /// starting at `node_rank * nprocs`.
    pub fn local_ranks(&self, nprocs: u16) -> (r: Vec<u32>)
        requires
            self.node_rank is Some,
            (self.node_rank->0 + 1) * nprocs <= u32::MAX,
        ensures
            r@.len() == nprocs,
            forall|i: int|
                0 <= i < nprocs ==> r@[i] == self.node_rank->0 * nprocs + i,
    {
        let node_rank = match self.node_rank {
            Some(k) => k,
            None => {
                proof {
                    assert(false);
                }
                0
            },
        };
        proof {
            vstd::arithmetic::mul::lemma_mul_is_distributive_add_other_way(
                nprocs as int,
                node_rank as int,
                1,
            );
            vstd::arithmetic::mul::lemma_mul_nonnegative(node_rank as int, nprocs as int);
        }
        let base: u32 = node_rank * (nprocs as u32);
        let mut r: Vec<u32> = Vec::new();
        let mut i: u32 = 0;
        while i < nprocs as u32
            invariant
                base == self.node_rank->0 * nprocs,
                base + nprocs <= u32::MAX,
                i <= nprocs,
                r@.len() == i,
                forall|j: int| 0 <= j < i ==> r@[j] == self.node_rank->0 * nprocs + j,
            decreases nprocs - i,
        {
            r.push(base + i);
            i = i + 1;
        }
        r
    }

    /// The hostnames the namespace descriptor reports: `mpi-<rank>` for
    /// each node rank.  These names need not resolve.
    pub fn hostnames(&self) -> (r: Vec<String>)
        ensures
            r@.len() == self.nnodes,
            forall|i: int|
                0 <= i < self.nnodes ==> (#[trigger] r@[i])@ == "mpi-"@ + spec_udec(i as nat),
    {
        let n = self.nnodes;
        let mut r: Vec<String> = Vec::new();
        let mut i: u32 = 0;
        while i < n
            invariant
                i <= n,
                r@.len() == i,
                forall|j: int| 0 <= j < i ==> (#[trigger] r@[j])@ == "mpi-"@ + spec_udec(j as nat),
            decreases n - i,
        {
            let mut name = String::from_str("mpi-");
            push_u32_dec(&mut name, i);
            let ghost nv = name@;
            r.push(name);
            proof {
                assert(r@.last()@ == nv);
            }
            i = i + 1;
        }
        r
    }
}

} // verus!
