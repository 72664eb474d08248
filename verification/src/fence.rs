//! The fence all-gather: deciding which peer nodes take part, and
//! aggregating the blobs that arrive.
//!
//! The fence protocol sends the local modex blob to every participating
//! peer and concatenates the blobs received until EOF, in arrival order.
//! Arrival order is arbitrary, so the laws here speak of byte multisets:
//! every arrival order yields the same multiset, namely the union of the
//! participants' blobs.
use vstd::prelude::*;
use vstd::multiset::Multiset;
use vstd::seq_lib::{commutative_foldr, lemma_fold_right_permutation, lemma_multiset_commutative};

use crate::pmix::sys::{PmixProc, PMIX_RANK_WILDCARD};
use crate::wire::push_slice;

verus! {

broadcast use {vstd::seq_lib::group_to_multiset_ensures, vstd::multiset::group_multiset_axioms};

/// The byte concatenation of a sequence of blobs, in order.
pub open spec fn flatten_blobs(blobs: Seq<Seq<u8>>) -> Seq<u8>
    decreases blobs.len(),
{
    if blobs.len() == 0 {
        Seq::empty()
    } else {
        blobs.first() + flatten_blobs(blobs.drop_first())
    }
}

/// Adding one blob's bytes to an accumulated multiset.
pub open spec fn add_blob_bytes() -> spec_fn(Seq<u8>, Multiset<u8>) -> Multiset<u8> {
    |b: Seq<u8>, acc: Multiset<u8>| acc.add(b.to_multiset())
}

/// The union of the blobs' bytes, as a multiset.
pub open spec fn blobs_byte_multiset(blobs: Seq<Seq<u8>>) -> Multiset<u8> {
    blobs.fold_right(add_blob_bytes(), Multiset::empty())
}

proof fn lemma_add_blob_bytes_commutative()
    ensures
        commutative_foldr(add_blob_bytes()),
{
    let f = add_blob_bytes();
    assert forall|x: Seq<u8>, y: Seq<u8>, v: Multiset<u8>| #[trigger]
        f(x, f(y, v)) == f(y, f(x, v)) by {
        assert(v.add(y.to_multiset()).add(x.to_multiset()) =~= v.add(x.to_multiset()).add(
            y.to_multiset(),
        ));
    }
}

/// The bytes of the concatenation are the union of the blobs' bytes.
pub proof fn lemma_flatten_blobs_multiset(blobs: Seq<Seq<u8>>)
    ensures
        flatten_blobs(blobs).to_multiset() == blobs_byte_multiset(blobs),
    decreases blobs.len(),
{
    let f = add_blob_bytes();
    if blobs.len() == 0 {
        assert(flatten_blobs(blobs).to_multiset() =~= Multiset::<u8>::empty());
    } else {
        let rest = blobs.drop_first();
        lemma_flatten_blobs_multiset(rest);
        lemma_multiset_commutative(blobs.first(), flatten_blobs(rest));
        blobs.lemma_fold_right_alt(f, Multiset::empty());
        assert(blobs.subrange(1, blobs.len() as int) =~= rest);
        rest.lemma_fold_right_alt(f, Multiset::empty());
        assert(blobs.fold_right_alt(f, Multiset::empty()) == f(
            blobs[0],
            rest.fold_right_alt(f, Multiset::empty()),
        ));
        assert(blobs_byte_multiset(blobs) == blobs_byte_multiset(rest).add(
            blobs.first().to_multiset(),
        ));
        assert(blobs.first().to_multiset().add(blobs_byte_multiset(rest))
            =~= blobs_byte_multiset(rest).add(blobs.first().to_multiset()));
    }
}

/// At every participant, a fence over the blobs `inputs` yields a result
/// whose byte multiset is the union of all participants' input blobs,
/// whatever the order `arrival` in which the blobs arrived.
pub proof fn lemma_fence_aggregate_multiset(inputs: Seq<Seq<u8>>, arrival: Seq<Seq<u8>>)
    requires
        arrival.to_multiset() == inputs.to_multiset(),
    ensures
        flatten_blobs(arrival).to_multiset() == blobs_byte_multiset(inputs),
{
    lemma_add_blob_bytes_commutative();
    lemma_fold_right_permutation(arrival, inputs, add_blob_bytes(), Multiset::empty());
    lemma_flatten_blobs_multiset(arrival);
}

/// Two participants of one fence agree on the result's byte multiset, in
/// whatever orders the blobs arrived at each.
pub proof fn lemma_fence_result_agreement(
    inputs: Seq<Seq<u8>>,
    arrival_a: Seq<Seq<u8>>,
    arrival_b: Seq<Seq<u8>>,
)
    requires
        arrival_a.to_multiset() == inputs.to_multiset(),
        arrival_b.to_multiset() == inputs.to_multiset(),
    ensures
        flatten_blobs(arrival_a).to_multiset() == flatten_blobs(arrival_b).to_multiset(),
{
    lemma_fence_aggregate_multiset(inputs, arrival_a);
    lemma_fence_aggregate_multiset(inputs, arrival_b);
}

/// Two overlapping fences with participant blob sets `inputs_a` and
/// `inputs_b` do not contaminate each other: each participant's result
/// holds exactly its own fence's bytes, whatever the arrival orders.
pub proof fn lemma_overlapping_fences_isolated(
    inputs_a: Seq<Seq<u8>>,
    arrival_a: Seq<Seq<u8>>,
    inputs_b: Seq<Seq<u8>>,
    arrival_b: Seq<Seq<u8>>,
)
    requires
        arrival_a.to_multiset() == inputs_a.to_multiset(),
        arrival_b.to_multiset() == inputs_b.to_multiset(),
    ensures
        flatten_blobs(arrival_a).to_multiset() == blobs_byte_multiset(inputs_a),
        flatten_blobs(arrival_b).to_multiset() == blobs_byte_multiset(inputs_b),
{
    lemma_fence_aggregate_multiset(inputs_a, arrival_a);
    lemma_fence_aggregate_multiset(inputs_b, arrival_b);
}

/// A single-node fence returns the local blob alone.
pub proof fn lemma_single_node_fence(blob: Seq<u8>)
    ensures
        flatten_blobs(seq![blob]) == blob,
{
    assert(seq![blob].drop_first() =~= Seq::<Seq<u8>>::empty());
    assert(flatten_blobs(Seq::<Seq<u8>>::empty()) == Seq::<u8>::empty());
    assert(flatten_blobs(seq![blob]) =~= blob);
}

/// A fence whose local blob is empty still completes and returns only the
/// peers' blobs.
pub proof fn lemma_fence_empty_local(peers: Seq<Seq<u8>>)
    ensures
        flatten_blobs(seq![Seq::<u8>::empty()] + peers) == flatten_blobs(peers),
{
    let s = seq![Seq::<u8>::empty()] + peers;
    assert(s.first() =~= Seq::<u8>::empty());
    assert(s.drop_first() =~= peers);
    assert(flatten_blobs(s) =~= flatten_blobs(peers));
}

proof fn lemma_flatten_blobs_push(blobs: Seq<Seq<u8>>, b: Seq<u8>)
    ensures
        flatten_blobs(blobs.push(b)) == flatten_blobs(blobs) + b,
    decreases blobs.len(),
{
    if blobs.len() == 0 {
        assert(blobs.push(b).drop_first() =~= Seq::<Seq<u8>>::empty());
        assert(flatten_blobs(Seq::<Seq<u8>>::empty()) == Seq::<u8>::empty());
        assert(blobs.push(b).first() == b);
        assert(flatten_blobs(blobs.push(b)) =~= flatten_blobs(blobs) + b);
    } else {
        lemma_flatten_blobs_push(blobs.drop_first(), b);
        assert(blobs.push(b).drop_first() =~= blobs.drop_first().push(b));
        assert(blobs.push(b).first() == blobs.first());
        assert(flatten_blobs(blobs.push(b)) == blobs.first() + (flatten_blobs(blobs.drop_first())
            + b));
        assert(blobs.first() + (flatten_blobs(blobs.drop_first()) + b) =~= (blobs.first()
            + flatten_blobs(blobs.drop_first())) + b);
    }
}

/// Which peers a fence reaches: every node of the job, or an enumerated
/// set of node ranks.
pub enum FencePeers {
    /// One wildcard proc was named: every node takes part.
    All,
    /// The distinct node ranks of the named procs.
    Nodes(Vec<u32>),
}

/// True iff the procs list names the whole namespace: a single proc with
/// the wildcard rank.
pub fn is_global_fence(procs: &Vec<PmixProc>) -> (r: bool)
    ensures
        r == (procs@.len() == 1 && procs@[0].rank == PMIX_RANK_WILDCARD),
{
    procs.len() == 1 && procs[0].rank == PMIX_RANK_WILDCARD
}

fn vec_contains_u32(v: &Vec<u32>, x: u32) -> (r: bool)
    ensures
        r == v@.contains(x),
{
    let n = v.len();
    let mut i: usize = 0;
    while i < n
        invariant
            n == v@.len(),
            i <= n,
            forall|j: int| 0 <= j < i ==> v@[j] != x,
        decreases n - i,
    {
        if v[i] == x {
            return true;
        }
        i = i + 1;
    }
    false
}

/// The distinct node ranks that host the named procs, with
/// `node_rank = rank / nprocs`.
pub fn fence_node_ranks(procs: &Vec<PmixProc>, nprocs: u16) -> (r: Vec<u32>)
    requires
        nprocs > 0,
    ensures
        r@.no_duplicates(),
        forall|x: u32|
            r@.contains(x) <==> exists|j: int|
                0 <= j < procs@.len() && #[trigger] procs@[j].rank / (nprocs as u32) == x,
{
    let n = procs.len();
    let mut out: Vec<u32> = Vec::new();
    let mut i: usize = 0;
    while i < n
        invariant
            nprocs > 0,
            n == procs@.len(),
            i <= n,
            out@.no_duplicates(),
            forall|x: u32|
                out@.contains(x) <==> exists|j: int|
                    0 <= j < i && #[trigger] procs@[j].rank / (nprocs as u32) == x,
        decreases n - i,
    {
        let node_rank = procs[i].rank / (nprocs as u32);
        let ghost before = out@;
        if !vec_contains_u32(&out, node_rank) {
            out.push(node_rank);
            proof {
                assert(out@ =~= before.push(node_rank));
                assert(out@[out@.len() - 1] == node_rank);
            }
        }
        proof {
            assert(out@ == before || out@ == before.push(node_rank));
            assert(out@.contains(node_rank));
            assert forall|x: u32| #[trigger] out@.contains(x) implies exists|j: int|
                0 <= j < i + 1 && #[trigger] procs@[j].rank / (nprocs as u32) == x by {
                if before.contains(x) {
                    let j = choose|j: int|
                        0 <= j < i && #[trigger] procs@[j].rank / (nprocs as u32) == x;
                    assert(0 <= j < i + 1 && procs@[j].rank / (nprocs as u32) == x);
                } else {
                    assert(x == node_rank);
                    assert(procs@[i as int].rank / (nprocs as u32) == x);
                }
            }
            assert forall|x: u32|
                (exists|j: int| 0 <= j < i + 1 && #[trigger] procs@[j].rank / (nprocs as u32) == x)
                implies #[trigger] out@.contains(x) by {
                let j = choose|j: int|
                    0 <= j < i + 1 && #[trigger] procs@[j].rank / (nprocs as u32) == x;
                if j < i {
                    assert(before.contains(x));
                    let k = choose|k: int| 0 <= k < before.len() && before[k] == x;
                    assert(out@[k] == x);
                } else {
                    assert(x == node_rank);
                }
            }
        }
        i = i + 1;
    }
    out
}

/// The peers a fence over `procs` reaches.
pub fn fence_peer_plan(procs: &Vec<PmixProc>, nprocs: u16) -> (r: FencePeers)
    requires
        nprocs > 0,
    ensures
        (procs@.len() == 1 && procs@[0].rank == PMIX_RANK_WILDCARD) ==> r is All,
        !(procs@.len() == 1 && procs@[0].rank == PMIX_RANK_WILDCARD) ==> (r matches FencePeers::Nodes(v)
            && v@.no_duplicates() && (forall|x: u32|
            v@.contains(x) <==> exists|j: int|
                0 <= j < procs@.len() && #[trigger] procs@[j].rank / (nprocs as u32) == x)),
{
    if is_global_fence(procs) {
        FencePeers::All
    } else {
        FencePeers::Nodes(fence_node_ranks(procs, nprocs))
    }
}

/// Concatenate the blobs in arrival order: the aggregated fence buffer.
pub fn aggregate_blobs(blobs: &Vec<Vec<u8>>) -> (r: Vec<u8>)
    ensures
        r@ == flatten_blobs(blobs.deep_view()),
{
    let n = blobs.len();
    let mut out: Vec<u8> = Vec::new();
    let mut i: usize = 0;
    while i < n
        invariant
            n == blobs@.len(),
            i <= n,
            out@ == flatten_blobs(blobs.deep_view().take(i as int)),
        decreases n - i,
    {
        push_slice(&mut out, blobs[i].as_slice());
        proof {
            let dv = blobs.deep_view();
            assert(dv[i as int] =~= blobs@[i as int]@);
            assert(dv.take(i + 1) =~= dv.take(i as int).push(dv[i as int]));
            lemma_flatten_blobs_push(dv.take(i as int), dv[i as int]);
        }
        i = i + 1;
    }
    proof {
        assert(blobs.deep_view().take(n as int) =~= blobs.deep_view());
    }
    out
}

} // verus!
