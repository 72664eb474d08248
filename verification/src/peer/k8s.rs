//! Kubernetes peer discovery: which pods belong to the job, by the job
//! name and completion-index labels.  Watching the API is the caller's
//! business; the selectors and rank arithmetic live here.
use vstd::prelude::*;
use vstd::string::StringExecFns;

use crate::strings::{push_u32_dec, spec_udec};

verus! {

pub const NAME_LABEL: &'static str = "batch.kubernetes.io/job-name";

pub const RANK_LABEL: &'static str = "batch.kubernetes.io/job-completion-index";

/// The port every peer's coordination services use.
pub const PORT: u16 = 5000;

/// Peers discovered through the Kubernetes API.
pub struct KubernetesPeers {
    pub job_name: String,
    pub nnodes: u32,
    pub node_rank: u32,
}

impl KubernetesPeers {
    /// The label selector for the job's pods: all of them, or the one
    /// with the given node rank.
    pub fn label_selector(&self, node_rank: Option<u32>) -> (r: String)
        ensures
            (match node_rank {
                Some(k) => r@ == NAME_LABEL@ + "="@ + self.job_name@ + ","@ + RANK_LABEL@ + "="@
                    + spec_udec(k as nat),
                None => r@ == NAME_LABEL@ + "="@ + self.job_name@,
            }),
    {
        let mut s = String::from_str(NAME_LABEL);
        s.append("=");
        s.append(self.job_name.as_str());
        match node_rank {
            Some(k) => {
                s.append(",");
                s.append(RANK_LABEL);
                s.append("=");
                push_u32_dec(&mut s, k);
                s
            },
            None => s,
        }
    }

    /// The global ranks hosted on this node: a block of `nproc` ranks
    /// starting at `node_rank * nproc`.
    pub fn local_ranks(&self, nproc: u16) -> (r: Vec<u32>)
        requires
            (self.node_rank + 1) * nproc <= u32::MAX,
        ensures
            r@.len() == nproc,
            forall|i: int| 0 <= i < nproc ==> r@[i] == self.node_rank * nproc + i,
    {
        proof {
            vstd::arithmetic::mul::lemma_mul_is_distributive_add_other_way(
                nproc as int,
                self.node_rank as int,
                1,
            );
            vstd::arithmetic::mul::lemma_mul_nonnegative(self.node_rank as int, nproc as int);
        }
        let base: u32 = self.node_rank * (nproc as u32);
        let mut r: Vec<u32> = Vec::new();
        let mut i: u32 = 0;
        while i < nproc as u32
            invariant
                base == self.node_rank * nproc,
                base + nproc <= u32::MAX,
                i <= nproc,
                r@.len() == i,
                forall|j: int| 0 <= j < i ==> r@[j] == self.node_rank * nproc + j,
            decreases nproc - i,
        {
            r.push(base + i);
            i = i + 1;
        }
        r
    }

    /// The hostnames the namespace descriptor reports:
    /// `<job_name>-<rank>` for each node rank.
    pub fn hostnames(&self) -> (r: Vec<String>)
        ensures
            r@.len() == self.nnodes,
            forall|i: int|
                0 <= i < self.nnodes ==> (#[trigger] r@[i])@ == self.job_name@ + "-"@ + spec_udec(
                    i as nat,
                ),
    {
        let n = self.nnodes;
        let mut r: Vec<String> = Vec::new();
        let mut i: u32 = 0;
        while i < n
            invariant
                i <= n,
                r@.len() == i,
                forall|j: int|
                    0 <= j < i ==> (#[trigger] r@[j])@ == self.job_name@ + "-"@ + spec_udec(
                        j as nat,
                    ),
            decreases n - i,
        {
            let mut name = self.job_name.clone();
            name.append("-");
            push_u32_dec(&mut name, i);
            let ghost nv = name@;
            r.push(name);
            proof {
                assert(r@.last()@ == nv);
            }
            i = i + 1;
        }
        r
    }
}

} // verus!
