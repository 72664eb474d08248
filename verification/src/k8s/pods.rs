//! Peer pods: reading a pod's readiness and rank out of the fields the
//! orchestrator publishes, sorting peers, and folding a stream of pod
//! watch events into the set of ready peers.
use vstd::prelude::*;
use vstd::multiset::Multiset;
use vstd::string::StringExecFns;

use crate::strings::{parse_u32, push_u32_dec, spec_parse_u32, spec_udec, str_eq};

verus! {

/// The label carrying the pod's completion index.
pub const COMPLETION_INDEX_LABEL: &'static str = "batch.kubernetes.io/job-completion-index";

/// The fallback label carrying the pod's completion index.
pub const ALT_COMPLETION_INDEX_LABEL: &'static str = "job-completion-index";

/// Information about a peer pod.
#[derive(Debug, Clone)]
pub struct PeerPod {
    /// Pod name
    pub name: String,
    /// Pod IP address
    pub ip: String,
    /// MPI rank (from completion index)
    pub rank: u32,
    /// Coordination port
    pub coord_port: u16,
}

impl PeerPod {
    /// The coordination address of this peer: its IP and port.
    pub fn coord_addr(&self) -> (r: String)
        ensures
            r@ == self.ip@ + ":"@ + spec_udec(self.coord_port as nat),
    {
        let mut addr = self.ip.clone();
        addr.append(":");
        push_u32_dec(&mut addr, self.coord_port as u32);
        addr
    }
}

/// What the orchestrator reports of one pod: the fields `pod_to_peer`
/// reads.
#[derive(Debug, Clone)]
pub struct PodRecord {
    pub name: Option<String>,
    /// Label key-value pairs.
    pub labels: Vec<(String, String)>,
    /// The pod phase, e.g. "Running".
    pub phase: Option<String>,
    /// Condition (type, status) pairs, e.g. ("Ready", "True").
    pub conditions: Vec<(String, String)>,
    pub pod_ip: Option<String>,
}

/// The value under the first pair whose key equals `key`.
pub open spec fn spec_find_label(labels: Seq<(String, String)>, key: Seq<char>) -> Option<String>
    decreases labels.len(),
{
    if labels.len() == 0 {
        None
    } else if labels.first().0@ == key {
        Some(labels.first().1)
    } else {
        spec_find_label(labels.drop_first(), key)
    }
}

fn find_label(labels: &Vec<(String, String)>, key: &str) -> (r: Option<String>)
    ensures
        (match spec_find_label(labels@, key@) {
            Some(v) => r matches Some(s) && s@ == v@,
            None => r is None,
        }),
{
    let n = labels.len();
    let mut i: usize = 0;
    proof {
        assert(labels@.skip(0) =~= labels@);
    }
    while i < n
        invariant
            n == labels@.len(),
            i <= n,
            spec_find_label(labels@, key@) == spec_find_label(labels@.skip(i as int), key@),
        decreases n - i,
    {
        proof {
            assert(labels@.skip(i as int).first() == labels@[i as int]);
            assert(labels@.skip(i as int).drop_first() =~= labels@.skip(i + 1));
        }
        if str_eq(labels[i].0.as_str(), key) {
            return Some(labels[i].1.clone());
        }
        i = i + 1;
    }
    proof {
        assert(labels@.skip(n as int) =~= Seq::<(String, String)>::empty());
    }
    None
}

/// Some condition pair has type "Ready" and status "True".
pub open spec fn spec_is_ready(conditions: Seq<(String, String)>) -> bool {
    exists|i: int|
        0 <= i < conditions.len() && (#[trigger] conditions[i]).0@ == "Ready"@ && conditions[i].1@
            == "True"@
}

fn is_ready(conditions: &Vec<(String, String)>) -> (r: bool)
    ensures
        r == spec_is_ready(conditions@),
{
    let n = conditions.len();
    let mut i: usize = 0;
    while i < n
        invariant
            n == conditions@.len(),
            i <= n,
            forall|j: int|
                0 <= j < i ==> !((#[trigger] conditions@[j]).0@ == "Ready"@ && conditions@[j].1@
                    == "True"@),
        decreases n - i,
    {
        if str_eq(conditions[i].0.as_str(), "Ready") && str_eq(conditions[i].1.as_str(), "True") {
            return true;
        }
        i = i + 1;
    }
    false
}

/// The completion index a pod's labels report: the main label, or the
/// fallback where the main one is absent.
pub open spec fn spec_completion_index(labels: Seq<(String, String)>) -> Option<u32> {
    let v = match spec_find_label(labels, COMPLETION_INDEX_LABEL@) {
        Some(v) => Some(v),
        None => spec_find_label(labels, ALT_COMPLETION_INDEX_LABEL@),
    };
    match v {
        Some(s) => spec_parse_u32(s@),
        None => None,
    }
}

/// The peer a pod record denotes, if the pod is a ready peer: it must be
/// named, carry a numeric completion index label, be in phase "Running",
/// have a "Ready"/"True" condition, and have an IP.
pub open spec fn spec_pod_is_peer(pod: PodRecord) -> bool {
    &&& pod.name is Some
    &&& spec_completion_index(pod.labels@) is Some
    &&& pod.phase matches Some(p) && p@ == "Running"@
    &&& spec_is_ready(pod.conditions@)
    &&& pod.pod_ip is Some
}

/// Convert a pod record to a peer if it is ready, per `spec_pod_is_peer`;
/// the peer carries the pod's name, IP, completion index as its rank, and
/// the given coordination port.
pub fn pod_to_peer(pod: &PodRecord, coord_port: u16) -> (r: Option<PeerPod>)
    ensures
        spec_pod_is_peer(*pod) ==> (r matches Some(p) && p.name@ == pod.name->0@ && p.ip@
            == pod.pod_ip->0@ && Some(p.rank) == spec_completion_index(pod.labels@)
            && p.coord_port == coord_port),
        !spec_pod_is_peer(*pod) ==> r is None,
{
    let name = match &pod.name {
        Some(n) => n.clone(),
        None => {
            return None;
        },
    };
    let index_label = match find_label(&pod.labels, COMPLETION_INDEX_LABEL) {
        Some(v) => Some(v),
        None => find_label(&pod.labels, ALT_COMPLETION_INDEX_LABEL),
    };
    let completion_index: u32 = match index_label {
        Some(v) => match parse_u32(v.as_str()) {
            Some(n) => n,
            None => {
                return None;
            },
        },
        None => {
            return None;
        },
    };
    match &pod.phase {
        Some(p) => {
            if !str_eq(p.as_str(), "Running") {
                return None;
            }
        },
        None => {
            return None;
        },
    }
    if !is_ready(&pod.conditions) {
        return None;
    }
    let pod_ip = match &pod.pod_ip {
        Some(ip) => ip.clone(),
        None => {
            return None;
        },
    };
    Some(PeerPod { name, ip: pod_ip, rank: completion_index, coord_port })
}

/// The peers' ranks are ascending.
pub open spec fn spec_sorted_by_rank(peers: Seq<PeerPod>) -> bool {
    forall|i: int, j: int| 0 <= i < j < peers.len() ==> peers[i].rank <= peers[j].rank
}

/// Sort peers by rank: the result holds exactly the given peers, ordered
/// by ascending rank.
pub fn sort_peers_by_rank(peers: Vec<PeerPod>) -> (r: Vec<PeerPod>)
    ensures
        spec_sorted_by_rank(r@),
        r@.to_multiset() == peers@.to_multiset(),
{
    broadcast use {vstd::seq_lib::group_to_multiset_ensures, vstd::multiset::group_multiset_axioms};

    let ghost orig = peers@;
    let n = peers.len();
    let mut input = peers;
    let mut out: Vec<PeerPod> = Vec::new();
    let mut i: usize = 0;
    while i < n
        invariant
            n == orig.len(),
            i <= n,
            input@ == orig.skip(i as int),
            spec_sorted_by_rank(out@),
            out@.to_multiset() == orig.take(i as int).to_multiset(),
        decreases n - i,
    {
        let ghost input_before = input@;
        let p = input.remove(0);
        proof {
            assert(p == input_before[0]);
            assert(input_before[0] == orig[i as int]);
            assert(input@ =~= orig.skip(i + 1));
        }
        let ghost before = out@;
        let ghost pv = p;
        let m = out.len();
        let mut k: usize = 0;
        while k < m && out[k].rank <= p.rank
            invariant
                m == out@.len(),
                k <= m,
                forall|j: int| 0 <= j < k ==> out@[j].rank <= pv.rank,
                out@ == before,
                p == pv,
            decreases m - k,
        {
            k = k + 1;
        }
        proof {
            assert(forall|j: int| 0 <= j < k ==> before[j].rank <= pv.rank);
            assert(k < m ==> before[k as int].rank > pv.rank);
        }
        out.insert(k, p);
        proof {
            let after = out@;
            assert(after =~= before.take(k as int) + seq![pv] + before.skip(k as int));
            assert forall|x: int, y: int| 0 <= x < y < after.len() implies after[x].rank
                <= after[y].rank by {
                assert(spec_sorted_by_rank(before));
                let kk = k as int;
                if x < kk {
                    assert(after[x] == before[x]);
                } else if x == kk {
                    assert(after[x] == pv);
                } else {
                    assert(after[x] == before[x - 1]);
                }
                if y < kk {
                    assert(after[y] == before[y]);
                } else if y == kk {
                    assert(after[y] == pv);
                } else {
                    assert(after[y] == before[y - 1]);
                    assert(kk <= y - 1 < before.len());
                    assert(kk < before.len() ==> before[kk].rank > pv.rank);
                    assert(before[kk].rank <= before[y - 1].rank);
                }
            }
            assert(before.take(k as int) + seq![pv] + before.skip(k as int) =~= (before.take(
                k as int,
            ) + seq![pv]) + before.skip(k as int));
            vstd::seq_lib::lemma_multiset_commutative(
                before.take(k as int) + seq![pv],
                before.skip(k as int),
            );
            vstd::seq_lib::lemma_multiset_commutative(before.take(k as int), seq![pv]);
            vstd::seq_lib::lemma_multiset_commutative(before.take(k as int), before.skip(k as int));
            assert(before.take(k as int) + before.skip(k as int) =~= before);
            assert(seq![pv].to_multiset() =~= Multiset::<PeerPod>::empty().insert(pv)) by {
                let e = Seq::<PeerPod>::empty();
                e.to_multiset_ensures();
                assert(e.push(pv).to_multiset() =~= e.to_multiset().insert(pv));
                assert(e.to_multiset().len() == 0);
                assert(e.to_multiset() =~= Multiset::<PeerPod>::empty());
                assert(e.push(pv) =~= seq![pv]);
            }
            assert(after.to_multiset() =~= before.to_multiset().insert(pv));
            orig.take(i as int).to_multiset_ensures();
            assert(orig.take(i as int).push(orig[i as int]).to_multiset() =~= orig.take(
                i as int,
            ).to_multiset().insert(orig[i as int]));
            assert(orig.take(i + 1) =~= orig.take(i as int).push(orig[i as int]));
            assert(after.to_multiset() == orig.take(i + 1).to_multiset());
        }
        i = i + 1;
    }
    proof {
        assert(orig.take(n as int) =~= orig);
    }
    out
}


/// The view of a peer pod: name, IP, rank, coordination port.
impl View for PeerPod {
    type V = (Seq<char>, Seq<char>, u32, u16);

    open spec fn view(&self) -> (Seq<char>, Seq<char>, u32, u16) {
        (self.name@, self.ip@, self.rank, self.coord_port)
    }
}

/// One event of the pod watch stream.
#[derive(Debug)]
pub enum PodEvent {
    Apply(PodRecord),
    InitApply(PodRecord),
    Delete(PodRecord),
    Init,
    InitDone,
    /// The watch reported an error; the set of ready pods is unchanged.
    WatchError,
}

/// The view of the peer a ready pod becomes.
pub open spec fn spec_peer_of(pod: PodRecord, coord_port: u16) -> (Seq<char>, Seq<char>, u32, u16)
    recommends
        spec_pod_is_peer(pod),
{
    (pod.name->0@, pod.pod_ip->0@, spec_completion_index(pod.labels@)->0, coord_port)
}

/// `s` with the peer `p` replacing the entry of the same pod name, or
/// appended if no entry carries it.
pub open spec fn spec_upsert_peer(
    s: Seq<(Seq<char>, Seq<char>, u32, u16)>,
    p: (Seq<char>, Seq<char>, u32, u16),
) -> Seq<(Seq<char>, Seq<char>, u32, u16)>
    decreases s.len(),
{
    if s.len() == 0 {
        seq![p]
    } else if s.first().0 == p.0 {
        seq![p] + s.drop_first()
    } else {
        seq![s.first()] + spec_upsert_peer(s.drop_first(), p)
    }
}

/// `s` without the first entry of the given pod name.
pub open spec fn spec_remove_peer(
    s: Seq<(Seq<char>, Seq<char>, u32, u16)>,
    name: Seq<char>,
) -> Seq<(Seq<char>, Seq<char>, u32, u16)>
    decreases s.len(),
{
    if s.len() == 0 {
        s
    } else if s.first().0 == name {
        s.drop_first()
    } else {
        seq![s.first()] + spec_remove_peer(s.drop_first(), name)
    }
}

/// What one watch event does to the set of ready peers: a pod that
/// applies as ready enters (replacing a same-named entry), a deleted pod
/// leaves, and everything else changes nothing.
pub open spec fn spec_apply_pod_event(
    s: Seq<(Seq<char>, Seq<char>, u32, u16)>,
    event: PodEvent,
    coord_port: u16,
) -> Seq<(Seq<char>, Seq<char>, u32, u16)> {
    match event {
        PodEvent::Apply(pod) => if spec_pod_is_peer(pod) {
            spec_upsert_peer(s, spec_peer_of(pod, coord_port))
        } else {
            s
        },
        PodEvent::InitApply(pod) => if spec_pod_is_peer(pod) {
            spec_upsert_peer(s, spec_peer_of(pod, coord_port))
        } else {
            s
        },
        PodEvent::Delete(pod) => match pod.name {
            Some(n) => spec_remove_peer(s, n@),
            None => s,
        },
        _ => s,
    }
}

proof fn lemma_upsert_peer_skip(
    s: Seq<(Seq<char>, Seq<char>, u32, u16)>,
    i: int,
    p: (Seq<char>, Seq<char>, u32, u16),
)
    requires
        0 <= i <= s.len(),
        forall|j: int| 0 <= j < i ==> (#[trigger] s[j]).0 != p.0,
    ensures
        spec_upsert_peer(s, p) == s.take(i) + spec_upsert_peer(s.skip(i), p),
    decreases i,
{
    if i == 0 {
        assert(s.skip(0) =~= s);
        assert(s.take(0) + spec_upsert_peer(s, p) =~= spec_upsert_peer(s, p));
    } else {
        assert(forall|j: int|
            0 <= j < i - 1 ==> (#[trigger] s.drop_first()[j]) == s[j + 1]);
        lemma_upsert_peer_skip(s.drop_first(), i - 1, p);
        assert(s.drop_first().take(i - 1) =~= s.take(i).drop_first());
        assert(s.drop_first().skip(i - 1) =~= s.skip(i));
        assert(seq![s.first()] + (s.take(i).drop_first() + spec_upsert_peer(s.skip(i), p))
            =~= s.take(i) + spec_upsert_peer(s.skip(i), p));
    }
}

proof fn lemma_remove_peer_skip(s: Seq<(Seq<char>, Seq<char>, u32, u16)>, i: int, name: Seq<char>)
    requires
        0 <= i <= s.len(),
        forall|j: int| 0 <= j < i ==> (#[trigger] s[j]).0 != name,
    ensures
        spec_remove_peer(s, name) == s.take(i) + spec_remove_peer(s.skip(i), name),
    decreases i,
{
    if i == 0 {
        assert(s.skip(0) =~= s);
        assert(s.take(0) + spec_remove_peer(s, name) =~= spec_remove_peer(s, name));
    } else {
        assert(forall|j: int|
            0 <= j < i - 1 ==> (#[trigger] s.drop_first()[j]) == s[j + 1]);
        lemma_remove_peer_skip(s.drop_first(), i - 1, name);
        assert(s.drop_first().take(i - 1) =~= s.take(i).drop_first());
        assert(s.drop_first().skip(i - 1) =~= s.skip(i));
        assert(seq![s.first()] + (s.take(i).drop_first() + spec_remove_peer(s.skip(i), name))
            =~= s.take(i) + spec_remove_peer(s.skip(i), name));
    }
}

/// The set of peers the watch has reported ready, by pod name.
pub struct ReadyPods {
    entries: Vec<PeerPod>,
}

impl ReadyPods {
    /// The views of the ready peers, in arrival order.
    pub closed spec fn peers_view(&self) -> Seq<(Seq<char>, Seq<char>, u32, u16)> {
        Seq::new(self.entries@.len(), |i: int| self.entries@[i]@)
    }

    pub fn new() -> (r: Self)
        ensures
            r.peers_view().len() == 0,
    {
        let r = ReadyPods { entries: Vec::new() };
        proof {
            assert(r.peers_view() =~= Seq::<(Seq<char>, Seq<char>, u32, u16)>::empty());
        }
        r
    }

    /// How many pods are ready.
    pub fn count(&self) -> (r: usize)
        ensures
            r == self.peers_view().len(),
    {
        self.entries.len()
    }

    /// Whether every expected pod is ready.
    pub fn is_complete(&self, world_size: u32) -> (r: bool)
        ensures
            r == (self.peers_view().len() >= world_size),
    {
        self.entries.len() >= world_size as usize
    }

    /// The ready peers, in arrival order.
    pub fn into_peers(self) -> (r: Vec<PeerPod>)
        ensures
            r@.len() == self.peers_view().len(),
            forall|i: int| 0 <= i < r@.len() ==> (#[trigger] r@[i])@ == self.peers_view()[i],
    {
        self.entries
    }

    fn upsert(&mut self, p: PeerPod)
        ensures
            final(self).peers_view() == spec_upsert_peer(old(self).peers_view(), p@),
    {
        let ghost s = self.peers_view();
        let ghost pv = p@;
        let n = self.entries.len();
        let mut i: usize = 0;
        while i < n
            invariant
                n == self.entries@.len(),
                self == old(self),
                s == self.peers_view(),
                pv == p@,
                i <= n,
                forall|j: int| 0 <= j < i ==> (#[trigger] s[j]).0 != pv.0,
            decreases n - i,
        {
            proof {
                assert(s[i as int] == self.entries@[i as int]@);
            }
            if str_eq(self.entries[i].name.as_str(), p.name.as_str()) {
                proof {
                    lemma_upsert_peer_skip(s, i as int, pv);
                    assert(spec_upsert_peer(s.skip(i as int), pv) == seq![pv] + s.skip(
                        i as int,
                    ).drop_first());
                    assert(s.skip(i as int).drop_first() =~= s.skip(i + 1));
                }
                self.entries.remove(i);
                let ghost entval = p;
                self.entries.insert(i, p);
                proof {
                    let dv = self.peers_view();
                    let target = s.take(i as int) + seq![pv] + s.skip(i + 1);
                    assert(self.entries@[i as int] == entval);
                    assert(dv.len() == target.len());
                    assert forall|j: int| 0 <= j < dv.len() implies dv[j] == target[j] by {
                        if j < i {
                            assert(self.entries@[j] == old(self).entries@[j]);
                            assert(s[j] == old(self).entries@[j]@);
                        } else if j == i {
                            assert(dv[j] == entval@);
                        } else {
                            assert(self.entries@[j] == old(self).entries@[j]);
                            assert(s[j] == old(self).entries@[j]@);
                        }
                    }
                    assert(dv =~= target);
                    assert(target =~= s.take(i as int) + (seq![pv] + s.skip(i + 1)));
                }
                return ;
            }
            i = i + 1;
        }
        let ghost entval = p;
        self.entries.push(p);
        proof {
            lemma_upsert_peer_skip(s, n as int, pv);
            assert(s.skip(n as int) =~= Seq::<(Seq<char>, Seq<char>, u32, u16)>::empty());
            assert(spec_upsert_peer(s.skip(n as int), pv) == seq![pv]);
            let dv = self.peers_view();
            let target = s + seq![pv];
            assert(self.entries@[n as int] == entval);
            assert(dv.len() == target.len());
            assert forall|j: int| 0 <= j < dv.len() implies dv[j] == target[j] by {
                if j < n {
                    assert(self.entries@[j] == old(self).entries@[j]);
                    assert(s[j] == old(self).entries@[j]@);
                } else {
                    assert(dv[j] == entval@);
                }
            }
            assert(dv =~= target);
            assert(s.take(n as int) =~= s);
        }
    }

    fn remove_name(&mut self, name: &str)
        ensures
            final(self).peers_view() == spec_remove_peer(old(self).peers_view(), name@),
    {
        let ghost s = self.peers_view();
        let n = self.entries.len();
        let mut i: usize = 0;
        while i < n
            invariant
                n == self.entries@.len(),
                self == old(self),
                s == self.peers_view(),
                i <= n,
                forall|j: int| 0 <= j < i ==> (#[trigger] s[j]).0 != name@,
            decreases n - i,
        {
            proof {
                assert(s[i as int] == self.entries@[i as int]@);
            }
            if str_eq(self.entries[i].name.as_str(), name) {
                proof {
                    lemma_remove_peer_skip(s, i as int, name@);
                    assert(spec_remove_peer(s.skip(i as int), name@) =~= s.skip(i + 1));
                }
                self.entries.remove(i);
                proof {
                    let dv = self.peers_view();
                    let target = s.take(i as int) + s.skip(i + 1);
                    assert(dv.len() == target.len());
                    assert forall|j: int| 0 <= j < dv.len() implies dv[j] == target[j] by {
                        if j < i {
                            assert(self.entries@[j] == old(self).entries@[j]);
                            assert(s[j] == old(self).entries@[j]@);
                        } else {
                            assert(self.entries@[j] == old(self).entries@[j + 1]);
                            assert(s[j + 1] == old(self).entries@[j + 1]@);
                        }
                    }
                    assert(dv =~= target);
                }
                return ;
            }
            i = i + 1;
        }
        proof {
            lemma_remove_peer_skip(s, n as int, name@);
            assert(s.skip(n as int) =~= Seq::<(Seq<char>, Seq<char>, u32, u16)>::empty());
            assert(spec_remove_peer(s.skip(n as int), name@)
                =~= Seq::<(Seq<char>, Seq<char>, u32, u16)>::empty());
            assert(s.take(n as int) + spec_remove_peer(s.skip(n as int), name@) =~= s);
        }
    }

    /// Fold one watch event into the set of ready peers.
    pub fn apply(&mut self, event: &PodEvent, coord_port: u16)
        ensures
            final(self).peers_view() == spec_apply_pod_event(
                old(self).peers_view(),
                *event,
                coord_port,
            ),
    {
        match event {
            PodEvent::Apply(pod) | PodEvent::InitApply(pod) => {
                match pod_to_peer(pod, coord_port) {
                    Some(p) => {
                        proof {
                            assert(p@ == spec_peer_of(*pod, coord_port));
                        }
                        self.upsert(p);
                    },
                    None => {},
                }
            },
            PodEvent::Delete(pod) => {
                match &pod.name {
                    Some(n) => {
                        self.remove_name(n.as_str());
                    },
                    None => {},
                }
            },
            _ => {},
        }
    }
}

} // verus!
