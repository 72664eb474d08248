//! Key-value store for PMIx data.
//!
//! The store keeps two maps: a general map from `KvKey` to a byte value, and
//! a dedicated map from `(namespace, rank)` to that rank's modex blob (the
//! payload exchanged during fence).  Both maps are `dashmap::DashMap`s; the
//! store's contracts speak about their contents through the uninterpreted
//! contents functions below, and every method of the outside maps that the
//! store calls goes through a trusted wrapper.
use vstd::prelude::*;

use crate::strings::str_eq;

verus! {

/// Key for the KV store: (namespace, rank, key).
#[derive(Debug, Clone, Hash, Eq, PartialEq)]
pub struct KvKey {
    pub nspace: String,
    pub rank: u32,
    pub key: String,
}

impl View for KvKey {
    type V = (Seq<char>, u32, Seq<char>);

    open spec fn view(&self) -> (Seq<char>, u32, Seq<char>) {
        (self.nspace@, self.rank, self.key@)
    }
}

impl KvKey {
    pub fn new(nspace: String, rank: u32, key: String) -> (r: Self)
        ensures
            r@ == (nspace@, rank, key@),
    {
        Self { nspace, rank, key }
    }

    /// Create a key for modex data (the blob exchanged during fence).
    pub fn modex(nspace: String, rank: u32) -> (r: Self)
        ensures
            r@ == (nspace@, rank, "__modex__"@),
    {
        Self::new(nspace, rank, String::from_str("__modex__"))
    }
}

/// Declares `dashmap::DashMap` so it can stand in fields and wrapper
/// signatures; its values are opaque, and the store's contracts reach
/// its contents only through the two contents functions below.
#[verifier::external_type_specification]
#[verifier::external_body]
#[verifier::reject_recursive_types(K)]
#[verifier::reject_recursive_types(V)]
#[verifier::reject_recursive_types(S)]
pub struct ExDashMap<K, V, S>(dashmap::DashMap<K, V, S>);

/// The general map and the modex map as the store holds them.
pub type KvMap = dashmap::DashMap<KvKey, Vec<u8>>;

/// The modex-blob map as the store holds it.
pub type ModexMap = dashmap::DashMap<(String, u32), Vec<u8>>;

/// The contents of the general map, as a mathematical map keyed by the view
/// of `KvKey`.
pub uninterp spec fn kv_contents(m: dashmap::DashMap<KvKey, Vec<u8>>) -> Map<
    (Seq<char>, u32, Seq<char>),
    Seq<u8>,
>;

/// The empty contents of a fresh general map.
pub open spec fn kv_empty() -> Map<(Seq<char>, u32, Seq<char>), Seq<u8>> {
    Map::empty()
}

/// The empty contents of a fresh modex map.
pub open spec fn modex_empty() -> Map<(Seq<char>, u32), Seq<u8>> {
    Map::empty()
}

/// The contents of the modex map, keyed by namespace and rank.
pub uninterp spec fn modex_contents(m: dashmap::DashMap<(String, u32), Vec<u8>>) -> Map<
    (Seq<char>, u32),
    Seq<u8>,
>;

/// Relies on `dashmap::DashMap::new`: the new map is empty.
#[verifier::external_body]
fn kv_map_new() -> (m: KvMap)
    ensures
        kv_contents(m) == kv_empty(),
{
    dashmap::DashMap::new()
}

/// Relies on `dashmap::DashMap::new`: the new map is empty.
#[verifier::external_body]
fn modex_map_new() -> (m: ModexMap)
    ensures
        modex_contents(m) == modex_empty(),
{
    dashmap::DashMap::new()
}

/// Relies on `dashmap::DashMap::insert`: the entry is added, replacing any
/// entry under an equal key (`KvKey`'s derived `Eq` compares all fields).
#[verifier::external_body]
fn kv_map_insert(m: &mut dashmap::DashMap<KvKey, Vec<u8>>, key: KvKey, value: Vec<u8>)
    ensures
        kv_contents(*final(m)) == kv_contents(*old(m)).insert(key@, value@),
{
    m.insert(key, value);
}

/// Relies on `dashmap::DashMap::insert`.
#[verifier::external_body]
fn modex_map_insert(m: &mut dashmap::DashMap<(String, u32), Vec<u8>>, key: (String, u32), value: Vec<u8>)
    ensures
        modex_contents(*final(m)) == modex_contents(*old(m)).insert((key.0@, key.1), value@),
{
    m.insert(key, value);
}

/// Relies on `dashmap::DashMap::get`: returns the value stored under an
/// equal key, if any.
#[verifier::external_body]
fn kv_map_get(m: &dashmap::DashMap<KvKey, Vec<u8>>, key: &KvKey) -> (r: Option<Vec<u8>>)
    ensures
        match r {
            Some(v) => kv_contents(*m).contains_key(key@) && v@ == kv_contents(*m)[key@],
            None => !kv_contents(*m).contains_key(key@),
        },
{
    m.get(key).map(|v| v.clone())
}

/// Relies on `dashmap::DashMap::get`.
#[verifier::external_body]
fn modex_map_get(m: &dashmap::DashMap<(String, u32), Vec<u8>>, nspace: &str, rank: u32) -> (r:
    Option<Vec<u8>>)
    ensures
        match r {
            Some(v) => modex_contents(*m).contains_key((nspace@, rank)) && v@ == modex_contents(*m)[
                (nspace@, rank)
            ],
            None => !modex_contents(*m).contains_key((nspace@, rank)),
        },
{
    m.get(&(nspace.to_string(), rank)).map(|v| v.clone())
}

/// Relies on `dashmap::DashMap::remove`: removes and returns the value
/// stored under an equal key, if any.
#[verifier::external_body]
fn kv_map_remove(m: &mut dashmap::DashMap<KvKey, Vec<u8>>, key: &KvKey) -> (r: Option<Vec<u8>>)
    ensures
        kv_contents(*final(m)) == kv_contents(*old(m)).remove(key@),
        match r {
            Some(v) => kv_contents(*old(m)).contains_key(key@) && v@ == kv_contents(*old(m))[key@],
            None => !kv_contents(*old(m)).contains_key(key@),
        },
{
    m.remove(key).map(|(_, v)| v)
}

/// Relies on `dashmap::DashMap::len`: the number of entries in the map.
#[verifier::external_body]
fn kv_map_len(m: &dashmap::DashMap<KvKey, Vec<u8>>) -> (n: usize)
    ensures
        n == kv_contents(*m).dom().len(),
{
    m.len()
}

/// Relies on `dashmap::DashMap::len`.
#[verifier::external_body]
fn modex_map_len(m: &dashmap::DashMap<(String, u32), Vec<u8>>) -> (n: usize)
    ensures
        n == modex_contents(*m).dom().len(),
{
    m.len()
}

/// The entries of `m` whose namespace differs from `nspace`.
pub open spec fn kv_other_nspace(
    m: Map<(Seq<char>, u32, Seq<char>), Seq<u8>>,
    nspace: Seq<char>,
) -> Map<(Seq<char>, u32, Seq<char>), Seq<u8>> {
    m.restrict(m.dom().filter(|k: (Seq<char>, u32, Seq<char>)| k.0 != nspace))
}

/// The entries of `m` whose namespace differs from `nspace`.
pub open spec fn modex_other_nspace(m: Map<(Seq<char>, u32), Seq<u8>>, nspace: Seq<char>) -> Map<
    (Seq<char>, u32),
    Seq<u8>,
> {
    m.restrict(m.dom().filter(|k: (Seq<char>, u32)| k.0 != nspace))
}

/// True iff the key's namespace differs from `nspace`.
fn kv_key_other_nspace(key: &KvKey, nspace: &str) -> (r: bool)
    ensures
        r == (key@.0 != nspace@),
{
    !str_eq(key.nspace.as_str(), nspace)
}

/// True iff the key's namespace differs from `nspace`.
fn pair_other_nspace(key: &(String, u32), nspace: &str) -> (r: bool)
    ensures
        r == (key.0@ != nspace@),
{
    !str_eq(key.0.as_str(), nspace)
}

/// Relies on `dashmap::DashMap::retain`: keeps exactly the entries the
/// predicate accepts; the predicate here is the verified
/// `kv_key_other_nspace`.
#[verifier::external_body]
fn kv_map_retain_other_nspace(m: &mut dashmap::DashMap<KvKey, Vec<u8>>, nspace: &str)
    ensures
        kv_contents(*final(m)) == kv_other_nspace(kv_contents(*old(m)), nspace@),
{
    m.retain(|k, _| kv_key_other_nspace(k, nspace));
}

/// Relies on `dashmap::DashMap::retain`; the predicate is the verified
/// `pair_other_nspace`.
#[verifier::external_body]
fn modex_map_retain_other_nspace(m: &mut dashmap::DashMap<(String, u32), Vec<u8>>, nspace: &str)
    ensures
        modex_contents(*final(m)) == modex_other_nspace(modex_contents(*old(m)), nspace@),
{
    m.retain(|k, _| pair_other_nspace(k, nspace));
}

/// Key-value store for PMIx data.
pub struct KvStore {
    /// Main data store.
    data: dashmap::DashMap<KvKey, Vec<u8>>,
    /// Store for modex blobs (data exchanged during fence).
    modex_data: dashmap::DashMap<(String, u32), Vec<u8>>,
}

impl KvStore {
    /// The contents of the main data store.
    pub closed spec fn kv(&self) -> Map<(Seq<char>, u32, Seq<char>), Seq<u8>> {
        kv_contents(self.data)
    }

    /// The contents of the modex blob store.
    pub closed spec fn modex(&self) -> Map<(Seq<char>, u32), Seq<u8>> {
        modex_contents(self.modex_data)
    }

    /// Both maps hold finitely many entries.
    pub open spec fn wf(&self) -> bool {
        self.kv().dom().finite() && self.modex().dom().finite()
    }

    pub fn new() -> (s: Self)
        ensures
            s.kv() == kv_empty(),
            s.modex() == modex_empty(),
            s.wf(),
    {
        Self { data: kv_map_new(), modex_data: modex_map_new() }
    }

    /// Store a value.
    pub fn put(&mut self, key: KvKey, value: Vec<u8>)
        ensures
            final(self).kv() == old(self).kv().insert(key@, value@),
            final(self).modex() == old(self).modex(),
            old(self).wf() ==> final(self).wf(),
    {
        let ghost k = key@;
        kv_map_insert(&mut self.data, key, value);
        proof {
            if old(self).wf() {
                assert(final(self).kv().dom() =~= old(self).kv().dom().insert(k));
            }
        }
    }

    /// Get a value.
    pub fn get(&self, key: &KvKey) -> (r: Option<Vec<u8>>)
        ensures
            match r {
                Some(v) => self.kv().contains_key(key@) && v@ == self.kv()[key@],
                None => !self.kv().contains_key(key@),
            },
    {
        kv_map_get(&self.data, key)
    }

    /// Remove a value.
    pub fn remove(&mut self, key: &KvKey) -> (r: Option<Vec<u8>>)
        ensures
            final(self).kv() == old(self).kv().remove(key@),
            final(self).modex() == old(self).modex(),
            old(self).wf() ==> final(self).wf(),
            match r {
                Some(v) => old(self).kv().contains_key(key@) && v@ == old(self).kv()[key@],
                None => !old(self).kv().contains_key(key@),
            },
    {
        let r = kv_map_remove(&mut self.data, key);
        proof {
            if old(self).wf() {
                assert(final(self).kv().dom() =~= old(self).kv().dom().remove(key@));
            }
        }
        r
    }

    /// Store modex data for a process.
    pub fn put_modex_data(&mut self, nspace: &str, rank: u32, data: Vec<u8>)
        ensures
            final(self).modex() == old(self).modex().insert((nspace@, rank), data@),
            final(self).kv() == old(self).kv(),
            old(self).wf() ==> final(self).wf(),
    {
        modex_map_insert(&mut self.modex_data, (nspace.to_owned(), rank), data);
        proof {
            if old(self).wf() {
                assert(final(self).modex().dom() =~= old(self).modex().dom().insert(
                    (nspace@, rank),
                ));
            }
        }
    }

    /// Get modex data for a process.
    pub fn get_modex_data(&self, nspace: &str, rank: u32) -> (r: Option<Vec<u8>>)
        ensures
            match r {
                Some(v) => self.modex().contains_key((nspace@, rank)) && v@ == self.modex()[
                    (nspace@, rank)
                ],
                None => !self.modex().contains_key((nspace@, rank)),
            },
    {
        modex_map_get(&self.modex_data, nspace, rank)
    }

    /// Store modex data from multiple ranks (during fence completion).
    pub fn put_bulk_modex_data(&mut self, nspace: &str, data: &Vec<(u32, Vec<u8>)>)
        ensures
            final(self).modex() == spec_bulk_insert(old(self).modex(), nspace@, data.deep_view()),
            final(self).kv() == old(self).kv(),
            old(self).wf() ==> final(self).wf(),
    {
        let n = data.len();
        let mut i: usize = 0;
        while i < n
            invariant
                n == data.len(),
                i <= n,
                self.modex() == spec_bulk_insert(
                    old(self).modex(),
                    nspace@,
                    data.deep_view().take(i as int),
                ),
                self.kv() == old(self).kv(),
                old(self).wf() ==> self.wf(),
            decreases n - i,
        {
            let (rank, blob) = (data[i].0, data[i].1.clone());
            self.put_modex_data(nspace, rank, blob);
            proof {
                let dv = data.deep_view();
                assert(dv[i as int] == (data@[i as int].0, data@[i as int].1.deep_view()));
                assert(data@[i as int].1.deep_view() =~= data@[i as int].1@);
                assert(blob@ =~= data@[i as int].1@);
                assert(dv.take(i + 1).drop_last() =~= dv.take(i as int));
                assert(dv.take(i + 1).last() == dv[i as int]);
                lemma_bulk_insert_push(old(self).modex(), nspace@, dv.take(i + 1));
            }
            i = i + 1;
        }
        proof {
            assert(data.deep_view().take(n as int) =~= data.deep_view());
        }
    }

    /// Get all local data for a namespace as a serialized blob.
    pub fn get_local_data_blob(&self, nspace: &str, local_rank: u32) -> (r: Vec<u8>)
        ensures
            self.modex().contains_key((nspace@, local_rank)) ==> r@ == self.modex()[
                (nspace@, local_rank)
            ],
            !self.modex().contains_key((nspace@, local_rank)) ==> r@ == Seq::<u8>::empty(),
    {
        match self.get_modex_data(nspace, local_rank) {
            Some(v) => v,
            None => Vec::new(),
        }
    }

    /// Clear all data for a namespace.
    pub fn clear_namespace(&mut self, nspace: &str)
        ensures
            final(self).kv() == kv_other_nspace(old(self).kv(), nspace@),
            final(self).modex() == modex_other_nspace(old(self).modex(), nspace@),
            old(self).wf() ==> final(self).wf(),
    {
        kv_map_retain_other_nspace(&mut self.data, nspace);
        modex_map_retain_other_nspace(&mut self.modex_data, nspace);
        proof {
            if old(self).wf() {
                vstd::set_lib::lemma_len_subset(final(self).kv().dom(), old(self).kv().dom());
                vstd::set_lib::lemma_len_subset(
                    final(self).modex().dom(),
                    old(self).modex().dom(),
                );
            }
        }
    }

    /// Get statistics.
    pub fn stats(&self) -> (r: KvStoreStats)
        ensures
            r.num_keys == self.kv().dom().len(),
            r.num_modex_entries == self.modex().dom().len(),
    {
        KvStoreStats {
            num_keys: kv_map_len(&self.data),
            num_modex_entries: modex_map_len(&self.modex_data),
        }
    }
}

/// `m` with every `(nspace, rank) -> blob` pair of `data` inserted in order.
pub open spec fn spec_bulk_insert(
    m: Map<(Seq<char>, u32), Seq<u8>>,
    nspace: Seq<char>,
    data: Seq<(u32, Seq<u8>)>,
) -> Map<(Seq<char>, u32), Seq<u8>>
    decreases data.len(),
{
    if data.len() == 0 {
        m
    } else {
        spec_bulk_insert(m, nspace, data.drop_last()).insert(
            (nspace, data.last().0),
            data.last().1,
        )
    }
}

proof fn lemma_bulk_insert_push(
    m: Map<(Seq<char>, u32), Seq<u8>>,
    nspace: Seq<char>,
    data: Seq<(u32, Seq<u8>)>,
)
    requires
        data.len() > 0,
    ensures
        spec_bulk_insert(m, nspace, data) == spec_bulk_insert(m, nspace, data.drop_last()).insert(
            (nspace, data.last().0),
            data.last().1,
        ),
{
}

#[derive(Debug)]
pub struct KvStoreStats {
    pub num_keys: usize,
    pub num_modex_entries: usize,
}

} // verus!
