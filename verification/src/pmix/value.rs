//! Typed PMIx info records, as submitted to the embedded library when a
//! namespace is registered: a key, flags, and a typed value, where a value
//! may itself be an array of info records.
use vstd::prelude::*;

verus! {

pub const PMIX_JOB_SIZE: &'static str = "pmix.job.size";

pub const PMIX_UNIV_SIZE: &'static str = "pmix.univ.size";

pub const PMIX_LOCAL_SIZE: &'static str = "pmix.local.size";

pub const PMIX_LOCAL_RANK: &'static str = "pmix.lrank";

pub const PMIX_RANK_KEY: &'static str = "pmix.rank";

pub const PMIX_NODEID: &'static str = "pmix.nodeid";

pub const PMIX_HOSTNAME: &'static str = "pmix.hname";

pub const PMIX_NODE_INFO_ARRAY: &'static str = "pmix.node.arr";

pub const PMIX_PROC_INFO_ARRAY: &'static str = "pmix.proc.arr";

pub const PMIX_SERVER_TMPDIR: &'static str = "pmix.srvr.tmpdir";

pub const PMIX_SYSTEM_TMPDIR: &'static str = "pmix.sys.tmpdir";

pub const PMIX_SERVER_SYSTEM_SUPPORT: &'static str = "pmix.srvr.sys";

/// A typed PMIx value.
pub enum InfoValue {
    Bool(bool),
    U16(u16),
    U32(u32),
    U64(u64),
    Str(String),
    Rank(u32),
    InfoArray(Vec<InfoRecord>),
}

/// One key-value record of a namespace or server descriptor.
pub struct InfoRecord {
    pub key: String,
    pub flags: u32,
    pub value: InfoValue,
}

impl InfoRecord {
    /// A record with the given key and value and no flags set.
    pub fn new(key: String, value: InfoValue) -> (r: Self)
        ensures
            r.key == key,
            r.flags == 0,
            r.value == value,
    {
        Self { key, flags: 0, value }
    }
}

/// The per-node info array of the namespace descriptor: the node's
/// hostname and its node id.
pub open spec fn is_node_info(r: InfoRecord, hostname: Seq<char>, nodeid: u32) -> bool {
    &&& r.key@ == PMIX_NODE_INFO_ARRAY@
    &&& r.value matches InfoValue::InfoArray(a) && a@.len() == 2 && (a@[0].key@ == PMIX_HOSTNAME@
        && (a@[0].value matches InfoValue::Str(h) && h@ == hostname)) && (a@[1].key@
        == PMIX_NODEID@ && a@[1].value == InfoValue::U32(nodeid))
}

/// The per-proc info array of the namespace descriptor: the proc's rank,
/// its local rank on its node, and its node id.
pub open spec fn is_proc_info(r: InfoRecord, rank: u32, local_rank: u16, nodeid: u32) -> bool {
    &&& r.key@ == PMIX_PROC_INFO_ARRAY@
    &&& r.value matches InfoValue::InfoArray(a) && a@.len() == 3 && (a@[0].key@ == PMIX_RANK_KEY@
        && a@[0].value == InfoValue::Rank(rank)) && (a@[1].key@ == PMIX_LOCAL_RANK@ && a@[1].value
        == InfoValue::U16(local_rank)) && (a@[2].key@ == PMIX_NODEID@ && a@[2].value
        == InfoValue::U32(nodeid))
}

/// The full namespace descriptor of a job of `hostnames.len()` nodes with
/// `nprocs` procs per node: one global job-size record equal to
/// `hostnames.len() * nprocs`, one per-node info array per host, and one
/// per-proc info array per global rank, where global rank `g` lives on
/// node `g / nprocs` as local rank `g % nprocs`.
pub open spec fn is_namespace_descriptor(
    infos: Seq<InfoRecord>,
    hostnames: Seq<String>,
    nprocs: u16,
) -> bool {
    &&& infos.len() == 1 + hostnames.len() + hostnames.len() * nprocs
    &&& infos[0].key@ == PMIX_JOB_SIZE@
    &&& infos[0].value == InfoValue::U32((hostnames.len() * nprocs) as u32)
    &&& forall|i: int|
        0 <= i < hostnames.len() ==> is_node_info(#[trigger] infos[1 + i], hostnames[i]@, i as u32)
    &&& forall|g: int|
        0 <= g < hostnames.len() * nprocs ==> is_proc_info(
            #[trigger] infos[1 + hostnames.len() + g],
            g as u32,
            (g % (nprocs as int)) as u16,
            (g / (nprocs as int)) as u32,
        )
}

/// Encode the namespace descriptor, per `is_namespace_descriptor`.
pub fn namespace_descriptor(hostnames: &Vec<String>, nprocs: u16) -> (r: Vec<InfoRecord>)
    requires
        nprocs > 0,
        hostnames@.len() * nprocs <= u32::MAX,
    ensures
        is_namespace_descriptor(r@, hostnames@, nprocs),
{
    let nnodes = hostnames.len();
    let total: usize = nnodes * (nprocs as usize);
    let mut r: Vec<InfoRecord> = Vec::new();
    r.push(
        InfoRecord::new(String::from_str(PMIX_JOB_SIZE), InfoValue::U32(total as u32)),
    );
    let mut i: usize = 0;
    while i < nnodes
        invariant
            nnodes == hostnames@.len(),
            i <= nnodes,
            r@.len() == 1 + i,
            r@[0].key@ == PMIX_JOB_SIZE@,
            r@[0].value == InfoValue::U32((hostnames@.len() * nprocs) as u32),
            forall|j: int|
                0 <= j < i ==> is_node_info(#[trigger] r@[1 + j], hostnames@[j]@, j as u32),
            nnodes * nprocs <= u32::MAX,
        decreases nnodes - i,
    {
        let mut a: Vec<InfoRecord> = Vec::new();
        a.push(InfoRecord::new(String::from_str(PMIX_HOSTNAME), InfoValue::Str(hostnames[i].clone())));
        a.push(InfoRecord::new(String::from_str(PMIX_NODEID), InfoValue::U32(i as u32)));
        r.push(InfoRecord::new(String::from_str(PMIX_NODE_INFO_ARRAY), InfoValue::InfoArray(a)));
        i = i + 1;
    }
    let mut g: usize = 0;
    while g < total
        invariant
            nnodes == hostnames@.len(),
            nprocs > 0,
            total == nnodes * nprocs,
            total <= u32::MAX,
            g <= total,
            r@.len() == 1 + nnodes + g,
            r@[0].key@ == PMIX_JOB_SIZE@,
            r@[0].value == InfoValue::U32((hostnames@.len() * nprocs) as u32),
            forall|j: int|
                0 <= j < nnodes ==> is_node_info(#[trigger] r@[1 + j], hostnames@[j]@, j as u32),
            forall|h: int|
                0 <= h < g ==> is_proc_info(
                    #[trigger] r@[1 + nnodes + h],
                    h as u32,
                    (h % (nprocs as int)) as u16,
                    (h / (nprocs as int)) as u32,
                ),
        decreases total - g,
    {
        let local_rank: u16 = (g % (nprocs as usize)) as u16;
        let nodeid: u32 = (g / (nprocs as usize)) as u32;
        let mut a: Vec<InfoRecord> = Vec::new();
        a.push(InfoRecord::new(String::from_str(PMIX_RANK_KEY), InfoValue::Rank(g as u32)));
        a.push(InfoRecord::new(String::from_str(PMIX_LOCAL_RANK), InfoValue::U16(local_rank)));
        a.push(InfoRecord::new(String::from_str(PMIX_NODEID), InfoValue::U32(nodeid)));
        r.push(InfoRecord::new(String::from_str(PMIX_PROC_INFO_ARRAY), InfoValue::InfoArray(a)));
        g = g + 1;
    }
    r
}

/// A global rank is its node's rank times the procs per node, plus its
/// local rank; the descriptor's node id and local rank fields recover
/// exactly that decomposition.
pub proof fn lemma_global_rank_decomposition(g: int, nprocs: int)
    requires
        nprocs > 0,
        g >= 0,
    ensures
        g == (g / nprocs) * nprocs + g % nprocs,
        0 <= g % nprocs < nprocs,
{
    vstd::arithmetic::div_mod::lemma_fundamental_div_mod(g, nprocs);
    vstd::arithmetic::div_mod::lemma_mod_bound(g, nprocs);
    vstd::arithmetic::mul::lemma_mul_is_commutative(g / nprocs, nprocs);
}

} // verus!
