//! Plain-value model of the embedded PMIx library's C-level types: status
//! codes, rank constants, process identities, and the fixed-size namespace
//! and key strings.
use vstd::prelude::*;
use vstd::string::StringSliceAdditionalSpecFns;
use vstd::utf8::{encode_utf8, valid_utf8};

use crate::strings::string_from_utf8_lossy;

verus! {

pub const PMIX_SUCCESS: i32 = 0;

pub const PMIX_ERROR: i32 = -1;

pub const PMIX_OPERATION_SUCCEEDED: i32 = -115;

pub const PMIX_ERR_TIMEOUT: i32 = -25;

pub const PMIX_ERR_BAD_PARAM: i32 = -27;

pub const PMIX_ERR_INIT: i32 = -31;

pub const PMIX_ERR_NOMEM: i32 = -32;

pub const PMIX_ERR_NOT_FOUND: i32 = -46;

pub const PMIX_ERR_NOT_SUPPORTED: i32 = -47;

/// Any rank in the namespace.
pub const PMIX_RANK_WILDCARD: u32 = 0xfffffffe;

/// No rank at all.
pub const PMIX_RANK_UNDEF: u32 = 0xffffffff;

/// The largest value that denotes a single rank.
pub const PMIX_RANK_VALID: u32 = 0xffffffcd;

/// The longest namespace name, not counting the NUL byte.
pub const PMIX_MAX_NSLEN: usize = 255;

/// The longest key, not counting the NUL byte.
pub const PMIX_MAX_KEYLEN: usize = 511;

/// The "required" bit of an info record's flags.
pub const PMIX_INFO_REQD: u32 = 0x00000001;

/// The bit saying a required info record has been processed.
pub const PMIX_INFO_REQD_PROCESSED: u32 = 0x00000002;

/// A process identity: a NUL-padded namespace name and a rank.
#[derive(Debug, Clone, Copy, PartialEq, Eq)]
pub struct PmixProc {
    pub nspace: [u8; 256],
    pub rank: u32,
}

impl View for PmixProc {
    type V = (Seq<u8>, u32);

    open spec fn view(&self) -> (Seq<u8>, u32) {
        (self.nspace@, self.rank)
    }
}

/// `bytes` truncated to at most `n - 1` bytes and NUL-padded to length `n`.
pub open spec fn spec_nul_padded(bytes: Seq<u8>, n: nat) -> Seq<u8> {
    Seq::new(
        n,
        |i: int|
            if i < bytes.len() && i < n - 1 {
                bytes[i]
            } else {
                0u8
            },
    )
}

/// The bytes of `s` before its first NUL, or all of them if it has none.
pub open spec fn spec_nul_prefix(s: Seq<u8>) -> Seq<u8> {
    s.take(spec_first_nul(s))
}

/// The index of the first NUL byte of `s`, or its length if it has none.
pub open spec fn spec_first_nul(s: Seq<u8>) -> int
    decreases s.len(),
{
    if s.len() == 0 {
        0
    } else if s.first() == 0 {
        0
    } else {
        1 + spec_first_nul(s.drop_first())
    }
}

/// `spec_first_nul` is the smallest index holding 0, or the length.
pub proof fn lemma_first_nul_characterization(s: Seq<u8>, k: int)
    requires
        0 <= k <= s.len(),
        forall|j: int| 0 <= j < k ==> s[j] != 0,
        k == s.len() || s[k] == 0,
    ensures
        spec_first_nul(s) == k,
    decreases s.len(),
{
    if s.len() == 0 {
    } else if s.first() == 0 {
    } else {
        assert(forall|j: int| 0 <= j < k - 1 ==> s.drop_first()[j] == s[j + 1] && s[j + 1] != 0);
        lemma_first_nul_characterization(s.drop_first(), k - 1);
    }
}

/// Convert a string to a NUL-padded namespace name of 256 bytes; at most
/// the first 255 bytes of the string are kept.
pub fn str_to_nspace(s: &str) -> (r: [u8; 256])
    ensures
        r@ == spec_nul_padded(s.spec_bytes(), 256),
{
    let bytes = s.as_bytes();
    let mut nspace = [0u8; 256];
    let len = if bytes.len() < 255 {
        bytes.len()
    } else {
        255
    };
    let mut i: usize = 0;
    while i < len
        invariant
            len <= 255,
            len <= bytes@.len(),
            i <= len,
            nspace@.len() == 256,
            forall|j: int| 0 <= j < i ==> nspace@[j] == bytes@[j],
            forall|j: int| i <= j < 256 ==> nspace@[j] == 0,
        decreases len - i,
    {
        nspace[i] = bytes[i];
        i = i + 1;
    }
    assert(nspace@ =~= spec_nul_padded(s.spec_bytes(), 256));
    nspace
}

/// Convert a string to a NUL-padded key of 512 bytes; at most the first 511
/// bytes of the string are kept.
pub fn str_to_key(s: &str) -> (r: [u8; 512])
    ensures
        r@ == spec_nul_padded(s.spec_bytes(), 512),
{
    let bytes = s.as_bytes();
    let mut key = [0u8; 512];
    let len = if bytes.len() < 511 {
        bytes.len()
    } else {
        511
    };
    let mut i: usize = 0;
    while i < len
        invariant
            len <= 511,
            len <= bytes@.len(),
            i <= len,
            key@.len() == 512,
            forall|j: int| 0 <= j < i ==> key@[j] == bytes@[j],
            forall|j: int| i <= j < 512 ==> key@[j] == 0,
        decreases len - i,
    {
        key[i] = bytes[i];
        i = i + 1;
    }
    assert(key@ =~= spec_nul_padded(s.spec_bytes(), 512));
    key
}

/// The bytes of `s` before its first NUL, copied out.
fn nul_prefix(s: &[u8]) -> (r: Vec<u8>)
    ensures
        r@ == spec_nul_prefix(s@),
{
    let n: usize = s.len();
    let mut i: usize = 0;
    let mut out: Vec<u8> = Vec::new();
    while i < n
        invariant
            n == s@.len(),
            i <= n,
            forall|j: int| 0 <= j < i ==> s@[j] != 0,
            out@ == s@.take(i as int),
        decreases n - i,
    {
        if s[i] == 0 {
            proof {
                lemma_first_nul_characterization(s@, i as int);
            }
            return out;
        }
        out.push(s[i]);
        assert(out@ =~= s@.take(i + 1));
        i = i + 1;
    }
    proof {
        lemma_first_nul_characterization(s@, n as int);
    }
    out
}

/// Convert a NUL-padded namespace name back to a string: the bytes before
/// the first NUL, decoded as UTF-8 (invalid sequences are replaced).
pub fn nspace_to_string(nspace: &[u8; 256]) -> (r: String)
    ensures
        valid_utf8(spec_nul_prefix(nspace@)) ==> encode_utf8(r@) == spec_nul_prefix(nspace@),
{
    let prefix = nul_prefix(nspace.as_slice());
    string_from_utf8_lossy(prefix.as_slice())
}

/// Convert a NUL-padded key back to a string: the bytes before the first
/// NUL, decoded as UTF-8 (invalid sequences are replaced).
pub fn key_to_string(key: &[u8; 512]) -> (r: String)
    ensures
        valid_utf8(spec_nul_prefix(key@)) ==> encode_utf8(r@) == spec_nul_prefix(key@),
{
    let prefix = nul_prefix(key.as_slice());
    string_from_utf8_lossy(prefix.as_slice())
}

/// Create a process identity from a namespace name and a rank.
pub fn make_proc(nspace: &str, rank: u32) -> (r: PmixProc)
    ensures
        r.nspace@ == spec_nul_padded(nspace.spec_bytes(), 256),
        r.rank == rank,
{
    PmixProc { nspace: str_to_nspace(nspace), rank }
}

/// Whether a PMIx status is the success status.
pub fn is_success(status: i32) -> (r: bool)
    ensures
        r == (status == PMIX_SUCCESS),
{
    status == PMIX_SUCCESS
}

/// A human-readable name for a PMIx status.
pub fn status_string(status: i32) -> (r: &'static str)
    ensures
        status == PMIX_SUCCESS ==> r@ == "PMIX_SUCCESS"@,
        status == PMIX_ERR_NOT_SUPPORTED ==> r@ == "PMIX_ERR_NOT_SUPPORTED"@,
        status == PMIX_ERR_NOT_FOUND ==> r@ == "PMIX_ERR_NOT_FOUND"@,
        status == PMIX_ERR_TIMEOUT ==> r@ == "PMIX_ERR_TIMEOUT"@,
        status == PMIX_ERR_BAD_PARAM ==> r@ == "PMIX_ERR_BAD_PARAM"@,
        status == PMIX_ERR_INIT ==> r@ == "PMIX_ERR_INIT"@,
        status == PMIX_ERR_NOMEM ==> r@ == "PMIX_ERR_NOMEM"@,
        !(status == PMIX_SUCCESS || status == PMIX_ERR_NOT_SUPPORTED || status
            == PMIX_ERR_NOT_FOUND || status == PMIX_ERR_TIMEOUT || status == PMIX_ERR_BAD_PARAM
            || status == PMIX_ERR_INIT || status == PMIX_ERR_NOMEM) ==> r@ == "PMIX_ERR_UNKNOWN"@,
{
    if status == PMIX_SUCCESS {
        "PMIX_SUCCESS"
    } else if status == PMIX_ERR_NOT_SUPPORTED {
        "PMIX_ERR_NOT_SUPPORTED"
    } else if status == PMIX_ERR_NOT_FOUND {
        "PMIX_ERR_NOT_FOUND"
    } else if status == PMIX_ERR_TIMEOUT {
        "PMIX_ERR_TIMEOUT"
    } else if status == PMIX_ERR_BAD_PARAM {
        "PMIX_ERR_BAD_PARAM"
    } else if status == PMIX_ERR_INIT {
        "PMIX_ERR_INIT"
    } else if status == PMIX_ERR_NOMEM {
        "PMIX_ERR_NOMEM"
    } else {
        "PMIX_ERR_UNKNOWN"
    }
}

} // verus!
