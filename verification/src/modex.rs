//! Direct modex over TCP: the fixed-size request wire format, the choice
//! of the owning node, and the response a responder owes.
//!
//! A request is the 256 NUL-padded namespace bytes followed by the rank
//! in big-endian; the response is the owning node's blob for that proc,
//! written back raw until EOF.
use vstd::prelude::*;

use crate::pmix::sys::{PmixProc, PMIX_RANK_VALID};
use crate::wire::{push_slice, push_u32_be, read_u32_be, spec_u32_be, spec_u32_from_be};

verus! {

/// The length of a modex request on the wire: 256 namespace bytes and a
/// 4-byte rank.
pub const MODEX_REQUEST_LEN: usize = 260;

/// The wire bytes of a modex request for `proc`.
pub open spec fn spec_serialize_proc(proc: PmixProc) -> Seq<u8> {
    proc.nspace@ + spec_u32_be(proc.rank)
}

/// Serialize a modex request: the namespace bytes, then the rank.
pub fn serialize_proc(proc: &PmixProc) -> (r: Vec<u8>)
    ensures
        r@ == spec_serialize_proc(*proc),
        r@.len() == MODEX_REQUEST_LEN,
{
    let mut r: Vec<u8> = Vec::new();
    push_slice(&mut r, proc.nspace.as_slice());
    push_u32_be(&mut r, proc.rank);
    r
}

/// Parse a modex request back into the proc it names: the first 256
/// bytes are the namespace, the last 4 the big-endian rank.
pub fn parse_proc(buf: &Vec<u8>) -> (r: PmixProc)
    requires
        buf@.len() == MODEX_REQUEST_LEN,
    ensures
        r.nspace@ == buf@.take(256),
        r.rank == spec_u32_from_be(buf@.skip(256)),
{
    let mut nspace = [0u8; 256];
    let mut i: usize = 0;
    while i < 256
        invariant
            i <= 256,
            buf@.len() == MODEX_REQUEST_LEN,
            nspace@.len() == 256,
            forall|j: int| 0 <= j < i ==> nspace@[j] == buf@[j],
        decreases 256 - i,
    {
        nspace[i] = buf[i];
        i = i + 1;
    }
    let rank = read_u32_be(buf, 256);
    proof {
        assert(nspace@ =~= buf@.take(256));
        assert(buf@.subrange(256, 260) =~= buf@.skip(256));
    }
    PmixProc { nspace, rank }
}

/// Serializing a proc lays down exactly its namespace bytes and rank, so
/// parsing the request recovers the proc: the modex request round-trip
/// law.
pub proof fn lemma_proc_round_trip(proc: PmixProc)
    ensures
        spec_serialize_proc(proc).len() == MODEX_REQUEST_LEN,
        spec_serialize_proc(proc).take(256) == proc.nspace@,
        spec_u32_from_be(spec_serialize_proc(proc).skip(256)) == proc.rank,
{
    let b = spec_serialize_proc(proc);
    assert(b.take(256) =~= proc.nspace@);
    assert(b.skip(256) =~= spec_u32_be(proc.rank));
    crate::wire::lemma_u32_be_round_trip(proc.rank);
}

/// The node rank that owns a global rank: `rank / nproc`.
pub fn owner_node(rank: u32, nproc: u16) -> (r: u32)
    requires
        nproc > 0,
        rank <= PMIX_RANK_VALID,
    ensures
        r == rank / (nproc as u32),
{
    rank / (nproc as u32)
}

/// Whether a modex request for `rank` must go to a remote node.
pub fn needs_remote(rank: u32, nproc: u16, local_node_rank: u32) -> (r: bool)
    requires
        nproc > 0,
        rank <= PMIX_RANK_VALID,
    ensures
        r == (rank / (nproc as u32) != local_node_rank),
{
    rank / (nproc as u32) != local_node_rank
}

/// The response a responder owes for a request: exactly the blob its
/// library returned for the parsed proc, unchanged.  Together with
/// `lemma_proc_round_trip` this is the modex round-trip law: the
/// requester receives the owning node's blob for the proc it asked
/// about.
pub fn respond_bytes(request: &Vec<u8>, library_blob: Vec<u8>) -> (r: (PmixProc, Vec<u8>))
    requires
        request@.len() == MODEX_REQUEST_LEN,
    ensures
        r.0.nspace@ == request@.take(256),
        r.0.rank == spec_u32_from_be(request@.skip(256)),
        r.1@ == library_blob@,
{
    let proc = parse_proc(request);
    (proc, library_blob)
}

} // verus!
