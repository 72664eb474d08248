//! Environment variables for forked clients: the library yields raw
//! `NAME=value` strings; splitting them into pairs happens here.
use vstd::prelude::*;
use vstd::string::{StrSliceExecFns, StringExecFns};

verus! {

/// The index of the first `=` of `s`, or its length if it has none.
pub open spec fn spec_first_eq(s: Seq<char>) -> int
    decreases s.len(),
{
    if s.len() == 0 {
        0
    } else if s.first() == '=' {
        0
    } else {
        1 + spec_first_eq(s.drop_first())
    }
}

/// `spec_first_eq` is the smallest index holding `=`, or the length.
proof fn lemma_first_eq_characterization(s: Seq<char>, k: int)
    requires
        0 <= k <= s.len(),
        forall|j: int| 0 <= j < k ==> s[j] != '=',
        k == s.len() || s[k] == '=',
    ensures
        spec_first_eq(s) == k,
    decreases s.len(),
{
    if s.len() == 0 {
    } else if s.first() == '=' {
    } else {
        assert(forall|j: int| 0 <= j < k - 1 ==> s.drop_first()[j] == s[j + 1] && s[j + 1] != '=');
        lemma_first_eq_characterization(s.drop_first(), k - 1);
    }
}

/// The name and value of an environment entry: what stands before and
/// after its first `=`, or nothing for an entry without `=`.
pub open spec fn spec_split_env(s: Seq<char>) -> Option<(Seq<char>, Seq<char>)> {
    let j = spec_first_eq(s);
    if j < s.len() {
        Some((s.take(j), s.skip(j + 1)))
    } else {
        None
    }
}

/// Split one `NAME=value` entry at its first `=`.
pub fn split_env_entry(s: &str) -> (r: Option<(String, String)>)
    ensures
        (match spec_split_env(s@) {
            Some(p) => r matches Some(kv) && kv.0@ == p.0 && kv.1@ == p.1,
            None => r is None,
        }),
{
    let n = s.unicode_len();
    let mut i: usize = 0;
    while i < n
        invariant
            n == s@.len(),
            i <= n,
            forall|j: int| 0 <= j < i ==> s@[j] != '=',
        decreases n - i,
    {
        if s.get_char(i) == '=' {
            proof {
                lemma_first_eq_characterization(s@, i as int);
            }
            let k = s.substring_char(0, i).to_owned();
            let v = s.substring_char(i + 1, n).to_owned();
            return Some((k, v));
        }
        i = i + 1;
    }
    proof {
        lemma_first_eq_characterization(s@, n as int);
    }
    None
}

/// The pairs the raw entries denote, entries without `=` dropped.
pub open spec fn spec_env_pairs(entries: Seq<Seq<char>>) -> Seq<(Seq<char>, Seq<char>)>
    decreases entries.len(),
{
    if entries.len() == 0 {
        Seq::empty()
    } else {
        spec_env_pairs(entries.drop_last()) + (match spec_split_env(entries.last()) {
            Some(p) => seq![p],
            None => Seq::empty(),
        })
    }
}

/// Split every raw entry at its first `=`, dropping entries without one.
pub fn parse_env_entries(entries: &Vec<String>) -> (r: Vec<(String, String)>)
    ensures
        r.deep_view() == spec_env_pairs(entries.deep_view()),
{
    let n = entries.len();
    let mut r: Vec<(String, String)> = Vec::new();
    let mut i: usize = 0;
    while i < n
        invariant
            n == entries@.len(),
            i <= n,
            r.deep_view() == spec_env_pairs(entries.deep_view().take(i as int)),
        decreases n - i,
    {
        let ghost before = r.deep_view();
        let ghost dv = entries.deep_view();
        proof {
            assert(dv[i as int] == entries@[i as int]@);
            assert(dv.take(i + 1).drop_last() =~= dv.take(i as int));
            assert(dv.take(i + 1).last() == dv[i as int]);
        }
        match split_env_entry(entries[i].as_str()) {
            Some(kv) => {
                r.push(kv);
                proof {
                    let p = spec_split_env(dv[i as int])->0;
                    assert(r.deep_view() =~~= before.push(p));
                    assert(before.push(p) =~= before + seq![p]);
                }
            },
            None => {},
        }
        proof {
            assert(r.deep_view() =~= spec_env_pairs(entries.deep_view().take(i + 1)));
        }
        i = i + 1;
    }
    proof {
        assert(entries.deep_view().take(n as int) =~= entries.deep_view());
    }
    r
}

} // verus!
