//! Coordinator for distributed fence operations.
//!
//! A fence gathers every participant's blob.  The local blob is sent to
//! every peer as a `FenceData` message; blobs received from peers are
//! collected per fence id; when as many blobs are present as participants
//! are expected, the fence completes: the collected blobs are combined
//! into one buffer and the library's continuation is invoked with it.
//! The continuations are consumed by value, so each result buffer is
//! handed over exactly once.
use vstd::prelude::*;
use vstd::bytes::{spec_u32_to_le_bytes, u32_to_le_bytes};

use crate::k8s::pods::PeerPod;
use crate::kv::{spec_bulk_insert, KvStore};
use crate::pmix::server::{CallbackInvocation, FenceCallback};
use crate::pmix::sys::PMIX_SUCCESS;
use crate::protocol::{CoordMessage, MsgV, ProtocolError};
use crate::strings::spec_udec;
use crate::wire::push_slice;

verus! {

/// A fence request from the local PMIx client.
#[derive(Debug)]
pub struct FenceRequest {
    /// Participating processes: (nspace, rank)
    pub participants: Vec<(String, u32)>,
}

#[derive(Debug)]
pub enum FenceError {
    Protocol(ProtocolError),
    Timeout,
}

/// The mathematical value of an ongoing fence: how many blobs are
/// expected, which (rank, blob) pairs have arrived, and the token of the
/// continuation to invoke on completion.
pub struct FenceStateV {
    pub expected_count: int,
    pub received: Seq<(u32, Seq<u8>)>,
    pub callback: Option<u64>,
}

/// State of an ongoing fence operation.
struct FenceState {
    /// Number of participants expected
    expected_count: usize,
    /// Data received so far, one entry per rank
    received: Vec<(u32, Vec<u8>)>,
    /// Callback to invoke when the fence completes
    callback: Option<FenceCallback>,
}

impl View for FenceState {
    type V = FenceStateV;

    closed spec fn view(&self) -> FenceStateV {
        FenceStateV {
            expected_count: self.expected_count as int,
            received: self.received.deep_view(),
            callback: match self.callback {
                Some(cb) => Some(cb.spec_token()),
                None => None,
            },
        }
    }
}

/// Every received blob fits a 32-bit length field.
pub open spec fn received_wf(s: Seq<(u32, Seq<u8>)>) -> bool {
    forall|i: int| 0 <= i < s.len() ==> (#[trigger] s[i]).1.len() <= u32::MAX
}

/// The wire form of one collected entry in the combined result buffer:
/// the rank and the blob length as little-endian words, then the blob.
pub open spec fn spec_combined_entry(e: (u32, Seq<u8>)) -> Seq<u8> {
    spec_u32_to_le_bytes(e.0) + spec_u32_to_le_bytes(e.1.len() as u32) + e.1
}

/// The combined result buffer a completed fence hands to the library:
/// the collected entries, in collection order.
pub open spec fn spec_combined(received: Seq<(u32, Seq<u8>)>) -> Seq<u8>
    decreases received.len(),
{
    if received.len() == 0 {
        Seq::empty()
    } else {
        spec_combined(received.drop_last()) + spec_combined_entry(received.last())
    }
}

/// `received` with the blob of `rank` replaced, or appended if `rank`
/// has no entry yet.
pub open spec fn spec_upsert_received(s: Seq<(u32, Seq<u8>)>, rank: u32, d: Seq<u8>) -> Seq<
    (u32, Seq<u8>),
>
    decreases s.len(),
{
    if s.len() == 0 {
        seq![(rank, d)]
    } else if s.first().0 == rank {
        seq![(rank, d)] + s.drop_first()
    } else {
        seq![s.first()] + spec_upsert_received(s.drop_first(), rank, d)
    }
}

proof fn lemma_upsert_skip(s: Seq<(u32, Seq<u8>)>, i: int, rank: u32, d: Seq<u8>)
    requires
        0 <= i <= s.len(),
        forall|j: int| 0 <= j < i ==> (#[trigger] s[j]).0 != rank,
    ensures
        spec_upsert_received(s, rank, d) == s.take(i) + spec_upsert_received(
            s.skip(i),
            rank,
            d,
        ),
    decreases i,
{
    if i == 0 {
        assert(s.take(0) =~= Seq::<(u32, Seq<u8>)>::empty());
        assert(s.skip(0) =~= s);
        assert(s.take(0) + spec_upsert_received(s, rank, d) =~= spec_upsert_received(s, rank, d));
    } else {
        assert(s.len() > 0 && s.first().0 != rank);
        assert(forall|j: int|
            0 <= j < i - 1 ==> (#[trigger] s.drop_first()[j]).0 == s[j + 1].0 && s[j + 1].0
                != rank);
        lemma_upsert_skip(s.drop_first(), i - 1, rank, d);
        assert(s.drop_first().take(i - 1) =~= s.take(i).drop_first());
        assert(s.drop_first().skip(i - 1) =~= s.skip(i));
        assert(seq![s.first()] + (s.take(i).drop_first() + spec_upsert_received(s.skip(i), rank, d))
            =~= s.take(i) + spec_upsert_received(s.skip(i), rank, d));
    }
}

proof fn lemma_upsert_wf(s: Seq<(u32, Seq<u8>)>, rank: u32, d: Seq<u8>)
    requires
        received_wf(s),
        d.len() <= u32::MAX,
    ensures
        received_wf(spec_upsert_received(s, rank, d)),
    decreases s.len(),
{
    if s.len() == 0 {
    } else if s.first().0 == rank {
        assert(forall|j: int|
            0 <= j < s.drop_first().len() ==> (#[trigger] s.drop_first()[j]) == s[j + 1]);
    } else {
        assert(forall|j: int|
            0 <= j < s.drop_first().len() ==> (#[trigger] s.drop_first()[j]) == s[j + 1]);
        lemma_upsert_wf(s.drop_first(), rank, d);
    }
}

/// Replace or append the blob of `rank`.
fn upsert_received(v: &mut Vec<(u32, Vec<u8>)>, rank: u32, data: Vec<u8>)
    ensures
        final(v).deep_view() == spec_upsert_received(old(v).deep_view(), rank, data@),
{
    let ghost v0 = v@;
    let ghost s = v.deep_view();
    let ghost dval = data;
    let ghost d = data@;
    let n = v.len();
    let mut i: usize = 0;
    while i < n
        invariant
            n == v@.len(),
            v@ == v0,
            v0 == old(v)@,
            s == v.deep_view(),
            s == old(v).deep_view(),
            d == data@,
            dval == data,
            i <= n,
            forall|j: int| 0 <= j < i ==> (#[trigger] s[j]).0 != rank,
        decreases n - i,
    {
        proof {
            assert(s[i as int] == (v@[i as int].0, v@[i as int].1.deep_view()));
        }
        if v[i].0 == rank {
            proof {
                lemma_upsert_skip(s, i as int, rank, d);
                assert(s.skip(i as int).first().0 == rank);
                assert(spec_upsert_received(s.skip(i as int), rank, d) == seq![(rank, d)]
                    + s.skip(i as int).drop_first());
                assert(s.skip(i as int).drop_first() =~= s.skip(i + 1));
            }
            v.remove(i);
            let ghost mid = v@;
            let pair = (rank, data);
            let ghost pval = pair;
            proof {
                assert(pval.0 == rank && pval.1@ == d);
            }
            v.insert(i, pair);
            proof {
                let target = s.take(i as int) + seq![(rank, d)] + s.skip(i + 1);
                let dv = v.deep_view();
                assert(mid =~= v0.take(i as int) + v0.skip(i + 1));
                assert(v@ == mid.insert(i as int, pval));
                mid.insert_ensures(i as int, pval);
                assert(v@[i as int] == pval);
                assert(v@[i as int].0 == rank);
                assert(v@[i as int].1@ == d);
                assert(v@.len() == v0.len());
                assert(forall|j: int| 0 <= j < i ==> #[trigger] v@[j] == v0[j]);
                assert(forall|j: int| i < j < v@.len() ==> #[trigger] v@[j] == v0[j]);
                assert(dv.len() == target.len());
                assert forall|j: int| 0 <= j < dv.len() implies dv[j] == target[j] by {
                    if j < i {
                        assert(dv[j] == (v0[j].0, v0[j].1.deep_view()));
                        assert(s[j] == (v0[j].0, v0[j].1.deep_view()));
                    } else if j == i {
                        assert(dv[j] == (v@[j].0, v@[j].1.deep_view()));
                        assert(v@[j].1.deep_view() =~= v@[j].1@);
                        assert(target[j] == (rank, d));
                    } else {
                        assert(dv[j] == (v0[j].0, v0[j].1.deep_view()));
                        assert(s[j] == (v0[j].0, v0[j].1.deep_view()));
                    }
                }
                assert(dv =~= target);
                assert(target =~= s.take(i as int) + (seq![(rank, d)] + s.skip(i + 1)));
            }
            return ;
        }
        i = i + 1;
    }
    let pair = (rank, data);
    let ghost pval = pair;
    proof {
        assert(pval.0 == rank && pval.1@ == d);
    }
    v.push(pair);
    proof {
        lemma_upsert_skip(s, n as int, rank, d);
        assert(s.skip(n as int) =~= Seq::<(u32, Seq<u8>)>::empty());
        assert(spec_upsert_received(s.skip(n as int), rank, d) == seq![(rank, d)]);
        let target = s + seq![(rank, d)];
        let dv = v.deep_view();
        assert(v@ == v0.push(pval));
        assert(v@[n as int] == pval);
        assert(v@[n as int].0 == rank && v@[n as int].1@ == d);
        assert(v@.len() == v0.len() + 1);
        assert(forall|j: int| 0 <= j < n ==> #[trigger] v@[j] == v0[j]);
        assert(dv.len() == target.len());
        assert forall|j: int| 0 <= j < dv.len() implies dv[j] == target[j] by {
            if j < n {
                assert(dv[j] == (v0[j].0, v0[j].1.deep_view()));
                assert(s[j] == (v0[j].0, v0[j].1.deep_view()));
            } else {
                assert(dv[j] == (v@[j].0, v@[j].1.deep_view()));
                assert(v@[j].1.deep_view() =~= v@[j].1@);
                assert(target[j] == (rank, d));
            }
        }
        assert(dv =~= target);
        assert(s.take(n as int) =~= s);
    }
}

/// Build the combined result buffer of a completed fence.
fn combined_blob(received: &Vec<(u32, Vec<u8>)>) -> (r: Vec<u8>)
    requires
        received_wf(received.deep_view()),
    ensures
        r@ == spec_combined(received.deep_view()),
{
    let n = received.len();
    let mut out: Vec<u8> = Vec::new();
    let mut i: usize = 0;
    while i < n
        invariant
            n == received@.len(),
            i <= n,
            received_wf(received.deep_view()),
            received.deep_view().len() == n,
            out@ == spec_combined(received.deep_view().take(i as int)),
        decreases n - i,
    {
        let ghost dv = received.deep_view();
        proof {
            assert(dv[i as int] == (received@[i as int].0, received@[i as int].1.deep_view()));
            assert(received@[i as int].1.deep_view() =~= received@[i as int].1@);
        }
        let rank_bytes = u32_to_le_bytes(received[i].0);
        push_slice(&mut out, rank_bytes.as_slice());
        let len_bytes = u32_to_le_bytes(received[i].1.len() as u32);
        push_slice(&mut out, len_bytes.as_slice());
        push_slice(&mut out, received[i].1.as_slice());
        proof {
            assert(dv.take(i + 1).drop_last() =~= dv.take(i as int));
            assert(dv.take(i + 1).last() == dv[i as int]);
            assert(out@ =~= spec_combined(dv.take(i + 1)));
        }
        i = i + 1;
    }
    proof {
        assert(received.deep_view().take(n as int) =~= received.deep_view());
    }
    out
}

/// Complete a fence: store every collected blob in the KV store, and
/// invoke the continuation, if one is pending, with the combined buffer
/// and success.
fn complete_fence(state: FenceState, nspace: &str, kv: &mut KvStore) -> (r: Option<
    CallbackInvocation,
>)
    requires
        received_wf(state@.received),
    ensures
        final(kv).modex() == spec_bulk_insert(old(kv).modex(), nspace@, state@.received),
        final(kv).kv() == old(kv).kv(),
        old(kv).wf() ==> final(kv).wf(),
        (match state@.callback {
            Some(tok) => r matches Some(inv) && inv.token == tok && inv.status == PMIX_SUCCESS
                && inv.data@ == spec_combined(state@.received),
            None => r is None,
        }),
{
    let combined = combined_blob(&state.received);
    kv.put_bulk_modex_data(nspace, &state.received);
    match state.callback {
        Some(cb) => Some(cb.complete(PMIX_SUCCESS, combined)),
        None => None,
    }
}

/// What `handle_fence_data` does to the active-fence table: nothing if
/// the fence is unknown; otherwise the rank's blob is recorded, and when
/// as many blobs are present as expected the fence leaves the table and
/// is returned for completion.
pub open spec fn spec_handle_fence_data(
    active: Seq<(u64, FenceStateV)>,
    fence_id: u64,
    rank: u32,
    data: Seq<u8>,
) -> (Seq<(u64, FenceStateV)>, Option<FenceStateV>)
    decreases active.len(),
{
    if active.len() == 0 {
        (active, None)
    } else if active.first().0 == fence_id {
        let st = active.first().1;
        let new_received = spec_upsert_received(st.received, rank, data);
        if new_received.len() >= st.expected_count {
            (
                active.drop_first(),
                Some(
                    FenceStateV {
                        expected_count: st.expected_count,
                        received: new_received,
                        callback: st.callback,
                    },
                ),
            )
        } else {
            (
                seq![
                    (
                        fence_id,
                        FenceStateV {
                            expected_count: st.expected_count,
                            received: new_received,
                            callback: st.callback,
                        },
                    ),
                ] + active.drop_first(),
                None,
            )
        }
    } else {
        let rec = spec_handle_fence_data(active.drop_first(), fence_id, rank, data);
        (seq![active.first()] + rec.0, rec.1)
    }
}

proof fn lemma_handle_skip(
    active: Seq<(u64, FenceStateV)>,
    i: int,
    fence_id: u64,
    rank: u32,
    data: Seq<u8>,
)
    requires
        0 <= i <= active.len(),
        forall|j: int| 0 <= j < i ==> (#[trigger] active[j]).0 != fence_id,
    ensures
        spec_handle_fence_data(active, fence_id, rank, data).0 == active.take(i)
            + spec_handle_fence_data(active.skip(i), fence_id, rank, data).0,
        spec_handle_fence_data(active, fence_id, rank, data).1 == spec_handle_fence_data(
            active.skip(i),
            fence_id,
            rank,
            data,
        ).1,
    decreases i,
{
    if i == 0 {
        assert(active.take(0) =~= Seq::<(u64, FenceStateV)>::empty());
        assert(active.skip(0) =~= active);
        assert(active.take(0) + spec_handle_fence_data(active, fence_id, rank, data).0
            =~= spec_handle_fence_data(active, fence_id, rank, data).0);
    } else {
        assert(active.len() > 0 && active.first().0 != fence_id);
        assert(forall|j: int|
            0 <= j < i - 1 ==> (#[trigger] active.drop_first()[j]) == active[j + 1]);
        lemma_handle_skip(active.drop_first(), i - 1, fence_id, rank, data);
        assert(active.drop_first().take(i - 1) =~= active.take(i).drop_first());
        assert(active.drop_first().skip(i - 1) =~= active.skip(i));
        assert(seq![active.first()] + (active.take(i).drop_first() + spec_handle_fence_data(
            active.skip(i),
            fence_id,
            rank,
            data,
        ).0) =~= active.take(i) + spec_handle_fence_data(active.skip(i), fence_id, rank, data).0);
    }
}


/// What failing a fence does to the active-fence table: the fence, if
/// known, leaves the table and is returned so its continuation can be
/// invoked with the failure status.
pub open spec fn spec_remove_fence(active: Seq<(u64, FenceStateV)>, fence_id: u64) -> (
    Seq<(u64, FenceStateV)>,
    Option<FenceStateV>,
)
    decreases active.len(),
{
    if active.len() == 0 {
        (active, None)
    } else if active.first().0 == fence_id {
        (active.drop_first(), Some(active.first().1))
    } else {
        let rec = spec_remove_fence(active.drop_first(), fence_id);
        (seq![active.first()] + rec.0, rec.1)
    }
}

proof fn lemma_remove_fence_skip(active: Seq<(u64, FenceStateV)>, i: int, fence_id: u64)
    requires
        0 <= i <= active.len(),
        forall|j: int| 0 <= j < i ==> (#[trigger] active[j]).0 != fence_id,
    ensures
        spec_remove_fence(active, fence_id).0 == active.take(i) + spec_remove_fence(
            active.skip(i),
            fence_id,
        ).0,
        spec_remove_fence(active, fence_id).1 == spec_remove_fence(active.skip(i), fence_id).1,
    decreases i,
{
    if i == 0 {
        assert(active.take(0) =~= Seq::<(u64, FenceStateV)>::empty());
        assert(active.skip(0) =~= active);
        assert(active.take(0) + spec_remove_fence(active, fence_id).0 =~= spec_remove_fence(
            active,
            fence_id,
        ).0);
    } else {
        assert(forall|j: int|
            0 <= j < i - 1 ==> (#[trigger] active.drop_first()[j]) == active[j + 1]);
        lemma_remove_fence_skip(active.drop_first(), i - 1, fence_id);
        assert(active.drop_first().take(i - 1) =~= active.take(i).drop_first());
        assert(active.drop_first().skip(i - 1) =~= active.skip(i));
        assert(seq![active.first()] + (active.take(i).drop_first() + spec_remove_fence(
            active.skip(i),
            fence_id,
        ).0) =~= active.take(i) + spec_remove_fence(active.skip(i), fence_id).0);
    }
}

/// The counter value after one more fence.
pub open spec fn spec_next_counter(c: u64) -> u64 {
    if c == u64::MAX {
        0
    } else {
        (c + 1) as u64
    }
}

/// The coordination addresses of the peers other than the local rank, in
/// table order.
pub open spec fn spec_peer_addrs(peers: Seq<(u32, Seq<char>)>, local_rank: u32) -> Seq<Seq<char>>
    decreases peers.len(),
{
    if peers.len() == 0 {
        Seq::empty()
    } else {
        spec_peer_addrs(peers.drop_last(), local_rank) + (if peers.last().0 != local_rank {
            seq![peers.last().1]
        } else {
            Seq::empty()
        })
    }
}

/// What starting or advancing a fence asks the caller to do: invoke a
/// completed continuation, and send messages to peers.
pub struct FenceOutcome {
    /// The continuation to invoke now, for a fence that completed.
    pub completed: Option<CallbackInvocation>,
    /// `FenceData` messages to send, one per peer address.
    pub sends: Vec<(String, CoordMessage)>,
}

/// Coordinator for distributed fence operations.
pub struct FenceCoordinator {
    /// Our rank
    local_rank: u32,
    /// World size
    world_size: u32,
    /// Peer pod addresses by rank
    peers: Vec<(u32, String)>,
    /// Active fence operations
    active_fences: Vec<(u64, FenceState)>,
    /// Counter for fence IDs
    fence_counter: u64,
}

impl FenceCoordinator {
    pub closed spec fn spec_local_rank(&self) -> u32 {
        self.local_rank
    }

    pub closed spec fn spec_world_size(&self) -> u32 {
        self.world_size
    }

    pub closed spec fn spec_peers(&self) -> Seq<(u32, Seq<char>)> {
        self.peers.deep_view()
    }

    pub closed spec fn spec_counter(&self) -> u64 {
        self.fence_counter
    }

    /// The active fences: ids and their states, in table order.
    pub closed spec fn spec_active(&self) -> Seq<(u64, FenceStateV)> {
        Seq::new(self.active_fences@.len(), |i: int| (self.active_fences@[i].0, self.active_fences@[i].1@))
    }

    /// Every collected blob of every active fence fits its length field.
    pub open spec fn wf(&self) -> bool {
        forall|i: int|
            0 <= i < self.spec_active().len() ==> received_wf(
                (#[trigger] self.spec_active()[i]).1.received,
            )
    }

    /// A coordinator for `world_size` ranks, where this pod is
    /// `local_rank` and each peer pod is reachable at its coordination
    /// address.
    pub fn new(local_rank: u32, world_size: u32, peers: Vec<PeerPod>) -> (r: Self)
        ensures
            r.spec_local_rank() == local_rank,
            r.spec_world_size() == world_size,
            r.spec_counter() == 0,
            r.spec_active().len() == 0,
            r.wf(),
            r.spec_peers().len() == peers@.len(),
            forall|i: int|
                0 <= i < peers@.len() ==> (#[trigger] r.spec_peers()[i]).0 == peers@[i].rank
                    && r.spec_peers()[i].1 == peers@[i].ip@ + ":"@ + spec_udec(
                    peers@[i].coord_port as nat,
                ),
    {
        let n = peers.len();
        let mut peer_addrs: Vec<(u32, String)> = Vec::new();
        let mut i: usize = 0;
        while i < n
            invariant
                n == peers@.len(),
                i <= n,
                peer_addrs.deep_view().len() == i,
                forall|j: int|
                    0 <= j < i ==> (#[trigger] peer_addrs.deep_view()[j]).0 == peers@[j].rank
                        && peer_addrs.deep_view()[j].1 == peers@[j].ip@ + ":"@ + spec_udec(
                        peers@[j].coord_port as nat,
                    ),
            decreases n - i,
        {
            let addr = peers[i].coord_addr();
            let rank = peers[i].rank;
            let ghost before = peer_addrs.deep_view();
            peer_addrs.push((rank, addr));
            proof {
                assert(peer_addrs.deep_view() =~~= before.push((rank, addr@)));
            }
            i = i + 1;
        }
        let r = FenceCoordinator {
            local_rank,
            world_size,
            peers: peer_addrs,
            active_fences: Vec::new(),
            fence_counter: 0,
        };
        proof {
            assert(r.spec_active() =~= Seq::<(u64, FenceStateV)>::empty());
        }
        r
    }

    /// Start a new fence operation.
    ///
    /// This is called when the local PMIx client initiates a fence.  The
    /// local blob is stored in the KV store under the local rank.  With a
    /// single participant the fence completes at once; otherwise its
    /// state enters the table under a fresh fence id and the local blob
    /// goes out to every peer as a `FenceData` message.
    pub fn start_fence(
        &mut self,
        _request: FenceRequest,
        local_data: Vec<u8>,
        callback: FenceCallback,
        nspace: &str,
        kv: &mut KvStore,
    ) -> (r: Result<FenceOutcome, FenceError>)
        requires
            old(self).wf(),
            local_data@.len() <= u32::MAX,
        ensures
            final(self).wf(),
            r is Ok,
            final(self).spec_local_rank() == old(self).spec_local_rank(),
            final(self).spec_world_size() == old(self).spec_world_size(),
            final(self).spec_peers() == old(self).spec_peers(),
            final(self).spec_counter() == spec_next_counter(old(self).spec_counter()),
            final(kv).kv() == old(kv).kv(),
            old(kv).wf() ==> final(kv).wf(),
            ({
                let id = old(self).spec_counter();
                let lr = old(self).spec_local_rank();
                let mine = seq![(lr, local_data@)];
                if old(self).spec_world_size() == 1 {
                    &&& final(self).spec_active() == old(self).spec_active()
                    &&& final(kv).modex() == spec_bulk_insert(
                        old(kv).modex().insert((nspace@, lr), local_data@),
                        nspace@,
                        mine,
                    )
                    &&& (r->Ok_0.completed matches Some(inv) && inv.token == callback.spec_token()
                        && inv.status == PMIX_SUCCESS && inv.data@ == spec_combined(mine))
                    &&& r->Ok_0.sends@.len() == 0
                } else {
                    &&& final(self).spec_active() == old(self).spec_active().push(
                        (
                            id,
                            FenceStateV {
                                expected_count: old(self).spec_world_size() as int,
                                received: mine,
                                callback: Some(callback.spec_token()),
                            },
                        ),
                    )
                    &&& final(kv).modex() == old(kv).modex().insert((nspace@, lr), local_data@)
                    &&& r->Ok_0.completed is None
                    &&& ({
                        let addrs = spec_peer_addrs(old(self).spec_peers(), lr);
                        &&& r->Ok_0.sends@.len() == addrs.len()
                        &&& forall|i: int|
                            0 <= i < addrs.len() ==> (#[trigger] r->Ok_0.sends@[i]).0@ == addrs[i]
                                && (r->Ok_0.sends@[i].1 matches CoordMessage::FenceData {
                                fence_id,
                                rank,
                                data,
                            } && fence_id == id && rank == lr && data@ == local_data@)
                    })
                }
            }),
    {
        let fence_id = self.fence_counter;
        self.fence_counter = if self.fence_counter == 0xffffffffffffffff {
            0
        } else {
            self.fence_counter + 1
        };

        // For a global fence, we expect data from all ranks
        let expected_count = self.world_size as usize;

        // Store local data in KV store
        kv.put_modex_data(nspace, self.local_rank, clone_bytes(&local_data));

        // Initialize fence state with our own data
        let mut received: Vec<(u32, Vec<u8>)> = Vec::new();
        let ghost mine = seq![(self.local_rank, local_data@)];
        received.push((self.local_rank, clone_bytes(&local_data)));
        proof {
            assert(received.deep_view() =~~= mine);
        }
        let state = FenceState { expected_count, received, callback: Some(callback) };

        // If we're the only participant, complete immediately
        if expected_count == 1 {
            let completed = complete_fence(state, nspace, kv);
            return Ok(FenceOutcome { completed, sends: Vec::new() });
        }
        // Store state
        let ghost active_before = self.spec_active();
        let ghost statev = state@;
        self.active_fences.push((fence_id, state));
        proof {
            assert(self.spec_active() =~= active_before.push((fence_id, statev)));
        }
        // Send our data to all peers
        let np = self.peers.len();
        let mut sends: Vec<(String, CoordMessage)> = Vec::new();
        let mut i: usize = 0;
        while i < np
            invariant
                np == self.peers@.len(),
                i <= np,
                self.wf(),
                self.spec_local_rank() == old(self).spec_local_rank(),
                self.spec_world_size() == old(self).spec_world_size(),
                old(self).spec_world_size() != 1,
                self.spec_peers() == old(self).spec_peers(),
                fence_id == old(self).spec_counter(),
                self.spec_counter() == spec_next_counter(old(self).spec_counter()),
                statev == (FenceStateV {
                    expected_count: old(self).spec_world_size() as int,
                    received: seq![(old(self).spec_local_rank(), local_data@)],
                    callback: Some(callback.spec_token()),
                }),
                self.spec_active() == old(self).spec_active().push((fence_id, statev)),
                kv.modex() == old(kv).modex().insert(
                    (nspace@, old(self).spec_local_rank()),
                    local_data@,
                ),
                kv.kv() == old(kv).kv(),
                old(kv).wf() ==> kv.wf(),
                local_data@.len() <= u32::MAX,
                sends@.len() == spec_peer_addrs(self.spec_peers().take(i as int), self.local_rank).len(),
                forall|j: int|
                    0 <= j < sends@.len() ==> (#[trigger] sends@[j]).0@ == spec_peer_addrs(
                        self.spec_peers().take(i as int),
                        self.local_rank,
                    )[j] && (sends@[j].1 matches CoordMessage::FenceData {
                        fence_id: f,
                        rank,
                        data,
                    } && f == fence_id && rank == self.local_rank && data@ == local_data@),
            decreases np - i,
        {
            let ghost pv = self.spec_peers();
            proof {
                assert(pv[i as int] == (self.peers@[i as int].0, self.peers@[i as int].1@));
                assert(pv.take(i + 1).drop_last() =~= pv.take(i as int));
                assert(pv.take(i + 1).last() == pv[i as int]);
            }
            let peer_rank = self.peers[i].0;
            if peer_rank != self.local_rank {
                let addr = self.peers[i].1.clone();
                let msg = CoordMessage::FenceData {
                    fence_id,
                    rank: self.local_rank,
                    data: clone_bytes(&local_data),
                };
                sends.push((addr, msg));
            }
            i = i + 1;
        }
        proof {
            assert(self.spec_peers().take(np as int) =~= self.spec_peers());
        }
        Ok(FenceOutcome { completed: None, sends })
    }

    /// Handle fence data received from a peer: record the blob in the KV
    /// store and under its fence, completing the fence when every
    /// expected blob is present.  Data for a fence that has not started
    /// locally yet only reaches the KV store.
    pub fn handle_fence_data(
        &mut self,
        fence_id: u64,
        rank: u32,
        data: Vec<u8>,
        nspace: &str,
        kv: &mut KvStore,
    ) -> (r: Option<CallbackInvocation>)
        requires
            old(self).wf(),
            data@.len() <= u32::MAX,
        ensures
            final(self).wf(),
            final(self).spec_local_rank() == old(self).spec_local_rank(),
            final(self).spec_world_size() == old(self).spec_world_size(),
            final(self).spec_peers() == old(self).spec_peers(),
            final(self).spec_counter() == old(self).spec_counter(),
            final(kv).kv() == old(kv).kv(),
            old(kv).wf() ==> final(kv).wf(),
            ({
                let step = spec_handle_fence_data(old(self).spec_active(), fence_id, rank, data@);
                &&& final(self).spec_active() == step.0
                &&& (match step.1 {
                    Some(st) => (match st.callback {
                        Some(tok) => r matches Some(inv) && inv.token == tok && inv.status
                            == PMIX_SUCCESS && inv.data@ == spec_combined(st.received),
                        None => r is None,
                    }) && final(kv).modex() == spec_bulk_insert(
                        old(kv).modex().insert((nspace@, rank), data@),
                        nspace@,
                        st.received,
                    ),
                    None => r is None && final(kv).modex() == old(kv).modex().insert(
                        (nspace@, rank),
                        data@,
                    ),
                })
            }),
    {
        // Store in KV store
        kv.put_modex_data(nspace, rank, clone_bytes(&data));

        let ghost active0 = old(self).spec_active();
        let ghost step = spec_handle_fence_data(active0, fence_id, rank, data@);
        let n = self.active_fences.len();
        let mut i: usize = 0;
        while i < n
            invariant
                n == self.active_fences@.len(),
                i <= n,
                self.wf(),
                active0 == self.spec_active(),
                active0 == old(self).spec_active(),
                step == spec_handle_fence_data(active0, fence_id, rank, data@),
                self.spec_local_rank() == old(self).spec_local_rank(),
                self.spec_world_size() == old(self).spec_world_size(),
                self.spec_peers() == old(self).spec_peers(),
                self.spec_counter() == old(self).spec_counter(),
                kv.modex() == old(kv).modex().insert((nspace@, rank), data@),
                kv.kv() == old(kv).kv(),
                old(kv).wf() ==> kv.wf(),
                data@.len() <= u32::MAX,
                forall|j: int| 0 <= j < i ==> (#[trigger] active0[j]).0 != fence_id,
            decreases n - i,
        {
            proof {
                assert(active0[i as int].0 == self.active_fences@[i as int].0);
            }
            if self.active_fences[i].0 == fence_id {
                proof {
                    lemma_handle_skip(active0, i as int, fence_id, rank, data@);
                    assert(active0.skip(i as int).first() == active0[i as int]);
                }
                let ghost vec_before = self.active_fences@;
                let (id, mut st) = self.active_fences.remove(i);
                let ghost st0 = st@;
                proof {
                    assert((active0[i as int].0, active0[i as int].1) == (id, st0));
                    assert(received_wf(st0.received));
                }
                upsert_received(&mut st.received, rank, data);
                proof {
                    lemma_upsert_wf(st0.received, rank, data@);
                    assert(st@.received == spec_upsert_received(st0.received, rank, data@));
                    assert(st@.expected_count == st0.expected_count);
                    assert(st@.callback == st0.callback);
                }
                let ghost stv = st@;
                if st.received.len() >= st.expected_count {
                    // Every expected blob is present: complete the fence
                    proof {
                        assert(stv.received.len() >= stv.expected_count);
                        assert(step.1 == Some(stv));
                        assert(step.0 == active0.take(i as int) + active0.skip(i + 1));
                        assert(self.spec_active() =~= active0.take(i as int) + active0.skip(i + 1));
                    }
                    let inv = complete_fence(st, nspace, kv);
                    return inv;
                } else {
                    self.active_fences.insert(i, (id, st));
                    proof {
                        assert(step.1 is None);
                        assert(step.0 == active0.take(i as int) + (seq![(fence_id, stv)]
                            + active0.skip(i + 1)));
                        assert(self.spec_active() =~= active0.take(i as int) + (seq![
                            (fence_id, stv),
                        ] + active0.skip(i + 1)));
                    }
                    return None;
                }
            }
            i = i + 1;
        }
        proof {
            lemma_handle_skip(active0, n as int, fence_id, rank, data@);
            assert(active0.skip(n as int) =~= Seq::<(u64, FenceStateV)>::empty());
            assert(active0.take(n as int) =~= active0);
            assert(active0.take(n as int) + active0.skip(n as int) =~= active0);
        }
        None
    }


    /// Dispatch one coordination message: fence data advances its fence,
    /// every other message is an acknowledgment or reply that changes
    /// nothing here.
    pub fn handle_coord_message(&mut self, msg: CoordMessage, nspace: &str, kv: &mut KvStore) -> (r:
        Option<CallbackInvocation>)
        requires
            old(self).wf(),
            msg@.wf(),
        ensures
            final(self).wf(),
            final(self).spec_local_rank() == old(self).spec_local_rank(),
            final(self).spec_world_size() == old(self).spec_world_size(),
            final(self).spec_peers() == old(self).spec_peers(),
            final(self).spec_counter() == old(self).spec_counter(),
            final(kv).kv() == old(kv).kv(),
            old(kv).wf() ==> final(kv).wf(),
            (match msg@ {
                MsgV::FenceData { fence_id, rank, data } => {
                    let step = spec_handle_fence_data(old(self).spec_active(), fence_id, rank, data);
                    &&& final(self).spec_active() == step.0
                    &&& (match step.1 {
                        Some(st) => (match st.callback {
                            Some(tok) => r matches Some(inv) && inv.token == tok && inv.status
                                == PMIX_SUCCESS && inv.data@ == spec_combined(st.received),
                            None => r is None,
                        }) && final(kv).modex() == spec_bulk_insert(
                            old(kv).modex().insert((nspace@, rank), data),
                            nspace@,
                            st.received,
                        ),
                        None => r is None && final(kv).modex() == old(kv).modex().insert(
                            (nspace@, rank),
                            data,
                        ),
                    })
                },
                _ => r is None && final(self).spec_active() == old(self).spec_active()
                    && final(kv).modex() == old(kv).modex(),
            }),
    {
        match msg {
            CoordMessage::FenceData { fence_id, rank, data } => {
                self.handle_fence_data(fence_id, rank, data, nspace, kv)
            },
            _ => None,
        }
    }


    /// Fail an active fence: a fatal peer-connection error removes the
    /// fence from the table and delivers the non-success status to the
    /// library's continuation, with an empty result buffer.  A fence id
    /// that is not in the table changes nothing.
    pub fn fail_fence(&mut self, fence_id: u64, status: i32) -> (r: Option<CallbackInvocation>)
        requires
            old(self).wf(),
            status != PMIX_SUCCESS,
        ensures
            final(self).wf(),
            final(self).spec_local_rank() == old(self).spec_local_rank(),
            final(self).spec_world_size() == old(self).spec_world_size(),
            final(self).spec_peers() == old(self).spec_peers(),
            final(self).spec_counter() == old(self).spec_counter(),
            ({
                let step = spec_remove_fence(old(self).spec_active(), fence_id);
                &&& final(self).spec_active() == step.0
                &&& (match step.1 {
                    Some(st) => (match st.callback {
                        Some(tok) => r matches Some(inv) && inv.token == tok && inv.status
                            == status && inv.data@ == Seq::<u8>::empty(),
                        None => r is None,
                    }),
                    None => r is None,
                })
            }),
    {
        let ghost active0 = old(self).spec_active();
        let ghost step = spec_remove_fence(active0, fence_id);
        let n = self.active_fences.len();
        let mut i: usize = 0;
        while i < n
            invariant
                n == self.active_fences@.len(),
                i <= n,
                self.wf(),
                active0 == self.spec_active(),
                active0 == old(self).spec_active(),
                step == spec_remove_fence(active0, fence_id),
                self.spec_local_rank() == old(self).spec_local_rank(),
                self.spec_world_size() == old(self).spec_world_size(),
                self.spec_peers() == old(self).spec_peers(),
                self.spec_counter() == old(self).spec_counter(),
                forall|j: int| 0 <= j < i ==> (#[trigger] active0[j]).0 != fence_id,
            decreases n - i,
        {
            proof {
                assert(active0[i as int].0 == self.active_fences@[i as int].0);
            }
            if self.active_fences[i].0 == fence_id {
                proof {
                    lemma_remove_fence_skip(active0, i as int, fence_id);
                    assert(active0.skip(i as int).first() == active0[i as int]);
                    assert(step.0 == active0.take(i as int) + active0.skip(i + 1));
                    assert(step.1 == Some(active0[i as int].1));
                }
                let (_, st) = self.active_fences.remove(i);
                proof {
                    assert(st@ == active0[i as int].1);
                    assert(self.spec_active() =~= active0.take(i as int) + active0.skip(i + 1));
                }
                return (match st.callback {
                    Some(cb) => Some(cb.complete(status, Vec::new())),
                    None => None,
                });
            }
            i = i + 1;
        }
        proof {
            lemma_remove_fence_skip(active0, n as int, fence_id);
            assert(active0.skip(n as int) =~= Seq::<(u64, FenceStateV)>::empty());
            assert(active0.take(n as int) =~= active0);
            assert(active0.take(n as int) + active0.skip(n as int) =~= active0);
        }
        None
    }

    /// Get the number of active fence operations.
    pub fn active_fence_count(&self) -> (r: usize)
        ensures
            r == self.spec_active().len(),
    {
        self.active_fences.len()
    }
}

/// An owned copy of a byte buffer.
fn clone_bytes(v: &Vec<u8>) -> (r: Vec<u8>)
    ensures
        r@ == v@,
{
    let mut r: Vec<u8> = Vec::new();
    push_slice(&mut r, v.as_slice());
    assert(r@ =~= v@);
    r
}

} // verus!
