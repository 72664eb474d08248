//! Peer discovery: resolving node ranks to transport addresses.
//!
//! Two backends exist: a shared directory for tests, where each node
//! writes its address under its node rank, and the Kubernetes API.  The
//! file and network I/O is the caller's business; the rank arithmetic,
//! the names, and the registration choice live here.
use vstd::prelude::*;

use crate::strings::{push_u32_dec, spec_udec};

pub mod dir;
pub mod k8s;

verus! {

/// Directory-based peer discovery: each node writes its address to a
/// file named after its node rank under a shared directory.
pub struct DirPeerDiscovery {
    pub dir: String,
    pub nnodes: u32,
}

impl DirPeerDiscovery {
    pub fn new(dir: String, nnodes: u32) -> (r: Self)
        ensures
            r.dir == dir,
            r.nnodes == nnodes,
    {
        DirPeerDiscovery { dir, nnodes }
    }

    /// The file name a node rank registers under.
    pub fn peer_file_name(&self, node_rank: u32) -> (r: String)
        ensures
            r@ == spec_udec(node_rank as nat),
    {
        let mut s = String::new();
        push_u32_dec(&mut s, node_rank);
        proof {
            assert(s@ =~= spec_udec(node_rank as nat));
        }
        s
    }
}

} // verus!
