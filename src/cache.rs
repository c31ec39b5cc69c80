//! A bounded store of followed redirects, evicting by generation.
use vstd::prelude::*;
use vstd::set_lib::*;
use vstd::relations::injective_on;
use crate::element::Url;

verus! {

#[verifier::external_type_specification]
#[verifier::external_body]
#[verifier::reject_recursive_types(K)]
#[verifier::reject_recursive_types(V)]
#[verifier::reject_recursive_types(S)]
pub struct ExDashMap<K, V, S>(dashmap::DashMap<K, V, S>);

/// The concurrent map that holds a cache's entries, keyed by serialization.
pub type Store = dashmap::DashMap<String, CacheEntry<Url>>;

/// A stored value and the generation at which it was stored.
#[derive(Debug)]
pub struct CacheEntry<V> {
    value: V,
    id: usize,
}

impl<V> CacheEntry<V> {
    pub closed spec fn stored(&self) -> V {
        self.value
    }

    pub fn value(&self) -> (r: &V)
        ensures
            *r == self.stored(),
    {
        &self.value
    }
}

/// What the map holds: for each key's serialization, the value's serialization
/// and its generation.
pub uninterp spec fn contents_of(
    m: Store,
) -> Map<Seq<char>, (Seq<char>, usize)>;

/// Relies on `dashmap::DashMap::new`: a new map is empty.
#[verifier::external_body]
fn map_new() -> (r: Store)
    ensures
        contents_of(r).dom().finite(),
        contents_of(r).dom().len() == 0,
{
    dashmap::DashMap::new()
}

/// Relies on `dashmap::DashMap::insert`: the key now maps to the entry.
#[verifier::external_body]
fn map_insert(m: &mut Store, key: String, value: Url, id: usize)
    ensures
        contents_of(*final(m)) == contents_of(*old(m)).insert(key@, (value@, id)),
{
    m.insert(key, CacheEntry { value, id });
}

/// Relies on `dashmap::DashMap::len`: the number of keys.
#[verifier::external_body]
fn map_len(m: &Store) -> (r: usize)
    ensures
        r == contents_of(*m).dom().len(),
{
    m.len()
}

/// Relies on `dashmap::DashMap::get`: the entry stored under the key, if any.
#[verifier::external_body]
fn map_get(m: &Store, key: &str) -> (r: Option<Url>)
    ensures
        match r {
            Some(u) => contents_of(*m).contains_key(key@) && contents_of(*m)[key@].0 == u@,
            None => !contents_of(*m).contains_key(key@),
        },
{
    m.get(key).map(|entry| entry.value.duplicate())
}

/// Relies on `dashmap::DashMap::retain`: the entries that the predicate keeps stay
/// unchanged, the others leave.
#[verifier::external_body]
fn map_retain_recent(m: &mut Store, newest: usize, bound: usize)
    ensures
        forall|k: Seq<char>|
            #![trigger contents_of(*final(m)).contains_key(k)]
            contents_of(*final(m)).contains_key(k) <==> (contents_of(*old(m)).contains_key(k)
                && recent(newest, contents_of(*old(m))[k].1, bound)),
        forall|k: Seq<char>|
            #[trigger] contents_of(*final(m)).contains_key(k) ==> contents_of(*final(m))[k]
                == contents_of(*old(m))[k],
{
    m.retain(|_k, v| is_recent(newest, v.id, bound));
}

/// The age of generation `id` when `newest` is the current one, counted modulo
/// the word size.
pub open spec fn age(newest: usize, id: usize) -> int {
    if id <= newest {
        newest - id
    } else {
        newest + (usize::MAX - id) + 1
    }
}

pub open spec fn recent(newest: usize, id: usize, bound: usize) -> bool {
    age(newest, id) < bound
}

/// Whether an entry of generation `id` is younger than `bound`.
pub fn is_recent(newest: usize, id: usize, bound: usize) -> (r: bool)
    ensures
        r == recent(newest, id, bound),
{
    if id <= newest {
        newest - id < bound
    } else {
        let wrapped: usize = (usize::MAX - id) + newest + 1;
        wrapped < bound
    }
}

/// A redirect cache of at most `N` entries: on an insert that leaves `N` or more
/// entries, every entry `N` or more generations old is removed.
pub struct Cache<const N: usize> {
    data: Store,
    last_id: usize,
}

impl<const N: usize> Cache<N> {
    /// For each key, the stored value and its generation.
    pub closed spec fn entries(&self) -> Map<Seq<char>, (Seq<char>, usize)> {
        contents_of(self.data)
    }

    /// The generation that the next insert takes.
    pub closed spec fn next_id(&self) -> usize {
        self.last_id
    }

    pub open spec fn wf(&self) -> bool {
        &&& N > 0
        &&& self.entries().dom().finite()
        &&& self.entries().dom().len() <= N
        &&& forall|k: Seq<char>| #[trigger]
            self.entries().contains_key(k) ==> self.entries()[k].1 < self.next_id()
        &&& forall|k1: Seq<char>, k2: Seq<char>|
            #[trigger] self.entries().contains_key(k1) && #[trigger] self.entries().contains_key(k2)
                && k1 != k2 ==> self.entries()[k1].1 != self.entries()[k2].1
    }

    pub fn new() -> (r: Self)
        requires
            N > 0,
        ensures
            r.wf(),
            r.entries().dom().len() == 0,
            r.next_id() == 0,
    {
        Cache { data: map_new(), last_id: 0 }
    }

    /// Whether another insert can take a fresh generation.
    pub fn can_insert(&self) -> (r: bool)
        ensures
            r == (self.next_id() < usize::MAX),
    {
        self.last_id < usize::MAX
    }

    /// The number of entries.
    pub fn len(&self) -> (r: usize)
        ensures
            r == self.entries().dom().len(),
    {
        map_len(&self.data)
    }

    /// The value stored for the key, if any.
    pub fn get(&self, key: &Url) -> (r: Option<Url>)
        ensures
            match r {
                Some(u) => self.entries().contains_key(key@) && self.entries()[key@].0 == u@,
                None => !self.entries().contains_key(key@),
            },
    {
        map_get(&self.data, key.as_str())
    }

    /// Stores `value` under `key` at the next generation, then evicts the old
    /// entries if the cache has reached `N` entries.
    pub fn insert(&mut self, key: Url, value: Url)
        requires
            old(self).wf(),
            old(self).next_id() < usize::MAX,
        ensures
            final(self).wf(),
            final(self).entries().dom().len() <= N,
            final(self).next_id() == old(self).next_id() + 1,
            final(self).entries().contains_key(key@),
            final(self).entries()[key@] == (value@, old(self).next_id()),
            ({
                let mid = old(self).entries().insert(key@, (value@, old(self).next_id()));
                if mid.dom().len() >= N {
                    forall|k: Seq<char>| #[trigger] final(self).entries().contains_key(k)
                        <==> mid.contains_key(k) && age(old(self).next_id(), mid[k].1) < N
                } else {
                    final(self).entries() == mid
                }
            }),
            forall|k: Seq<char>| #[trigger] final(self).entries().contains_key(k)
                ==> final(self).entries()[k] == old(self).entries().insert(
                    key@, (value@, old(self).next_id()))[k],
    {
        let id = self.last_id;
        self.last_id = id + 1;
        let ghost before = self.entries();
        let key_text = key.as_str().to_owned();
        map_insert(&mut self.data, key_text, value, id);
        let ghost mid = self.entries();
        assert(mid.dom().finite());
        assert forall|k1: Seq<char>, k2: Seq<char>|
            #[trigger] mid.contains_key(k1) && #[trigger] mid.contains_key(k2) && k1 != k2
            implies mid[k1].1 != mid[k2].1 by {
            if k1 != key@ && k2 != key@ {
                assert(before.contains_key(k1) && before.contains_key(k2));
            }
        }
        let len = map_len(&self.data);
        if len >= N {
            map_retain_recent(&mut self.data, id, N);
            proof {
                let fin = self.entries();
                assert(mid.contains_key(key@) && recent(id, mid[key@].1, N));
                assert(fin.contains_key(key@));
                assert(fin[key@] == mid[key@]);
                assert(fin.dom().subset_of(mid.dom()));
                lemma_len_subset(fin.dom(), mid.dom());
                let f = |k: Seq<char>| fin[k].1 as int;
                let ids = fin.dom().map(f);
                let window = set_int_range(id - N + 1, id + 1);
                assert forall|k1: Seq<char>, k2: Seq<char>|
                    fin.dom().contains(k1) && fin.dom().contains(k2) && #[trigger] f(k1) == #[trigger] f(k2)
                    implies k1 == k2 by {
                    assert(mid.contains_key(k1) && mid.contains_key(k2));
                }
                assert(injective_on(f, fin.dom()));
                lemma_map_size(fin.dom(), ids, f);
                assert forall|i: int| ids.contains(i) implies window.contains(i) by {
                    let k = choose|k: Seq<char>| fin.dom().contains(k) && f(k) == i;
                    assert(mid.contains_key(k));
                }
                lemma_int_range(id - N + 1, id + 1);
                lemma_len_subset(ids, window);
            }
        }
    }
}

} // verus!
