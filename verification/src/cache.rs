//! The in-memory LRU cache in front of the durable session store.
//!
//! The cache is the `lru` crate's `LruCache`, modelled by the sequence of
//! its entries in recency order: the entry at index 0 is the most recently
//! used one, the last entry is the one an insertion at capacity evicts.

use vstd::prelude::*;

use crate::session::{SessionRecord, SessionRecordView};

verus! {

#[verifier::external_type_specification]
#[verifier::external_body]
#[verifier::reject_recursive_types(K)]
#[verifier::reject_recursive_types(V)]
#[verifier::reject_recursive_types(S)]
pub struct ExLruCache<K, V, S>(lru::LruCache<K, V, S>);

/// The entries the cache holds, most recently used first.
pub uninterp spec fn lru_entries(c: lru::LruCache<String, SessionRecord>) -> Seq<
    (Seq<char>, SessionRecordView),
>;

/// The capacity the cache was created with.
pub uninterp spec fn lru_cap(c: lru::LruCache<String, SessionRecord>) -> nat;

/// First index at which a key occurs, or -1.
pub open spec fn index_of_key(es: Seq<(Seq<char>, SessionRecordView)>, k: Seq<char>) -> int
    decreases es.len(),
{
    if es.len() == 0 {
        -1
    } else if es[0].0 == k {
        0
    } else {
        let r = index_of_key(es.drop_first(), k);
        if r == -1 {
            -1
        } else {
            r + 1
        }
    }
}

/// Relies on `lru::LruCache::new`: a fresh cache is empty and holds at most
/// `cap` entries.
#[verifier::external_body]
pub fn cache_new(cap: usize) -> (c: lru::LruCache<String, SessionRecord>)
    requires
        cap >= 1,
    ensures
        lru_entries(c) == Seq::<(Seq<char>, SessionRecordView)>::empty(),
        lru_cap(c) == cap,
{
    lru::LruCache::new(std::num::NonZeroUsize::new(cap).unwrap())
}

/// Relies on `lru::LruCache::put`: an existing key is updated and moved to
/// the front, returning the old value; a fresh key is inserted at the front,
/// evicting the last entry when the cache is full.
#[verifier::external_body]
pub fn cache_put(c: &mut lru::LruCache<String, SessionRecord>, k: String, v: SessionRecord) -> (r:
    Option<SessionRecord>)
    requires
        lru_entries(*old(c)).len() <= lru_cap(*old(c)),
    ensures
        lru_cap(*final(c)) == lru_cap(*old(c)),
        index_of_key(lru_entries(*old(c)), k@) >= 0 ==> {
            &&& lru_entries(*final(c)) == seq![(k@, v@)] + lru_entries(*old(c)).remove(
                index_of_key(lru_entries(*old(c)), k@),
            )
            &&& r is Some
            &&& r->0@ == lru_entries(*old(c))[index_of_key(lru_entries(*old(c)), k@)].1
        },
        index_of_key(lru_entries(*old(c)), k@) < 0 && lru_entries(*old(c)).len() < lru_cap(
            *old(c),
        ) ==> {
            &&& lru_entries(*final(c)) == seq![(k@, v@)] + lru_entries(*old(c))
            &&& r is None
        },
        index_of_key(lru_entries(*old(c)), k@) < 0 && lru_entries(*old(c)).len() >= lru_cap(
            *old(c),
        ) ==> {
            &&& lru_entries(*final(c)) == seq![(k@, v@)] + lru_entries(*old(c)).drop_last()
            &&& r is None
        },
{
    c.put(k, v)
}

/// Relies on `lru::LruCache::get`: a hit hands back the entry's value and
/// moves the entry to the front; a miss changes nothing.
#[verifier::external_body]
pub fn cache_get(c: &mut lru::LruCache<String, SessionRecord>, k: &String) -> (r: Option<
    SessionRecord,
>)
    ensures
        lru_cap(*final(c)) == lru_cap(*old(c)),
        index_of_key(lru_entries(*old(c)), k@) >= 0 ==> {
            &&& r is Some
            &&& r->0@ == lru_entries(*old(c))[index_of_key(lru_entries(*old(c)), k@)].1
            &&& lru_entries(*final(c)) == seq![
                lru_entries(*old(c))[index_of_key(lru_entries(*old(c)), k@)],
            ] + lru_entries(*old(c)).remove(index_of_key(lru_entries(*old(c)), k@))
        },
        index_of_key(lru_entries(*old(c)), k@) < 0 ==> {
            &&& r is None
            &&& lru_entries(*final(c)) == lru_entries(*old(c))
        },
{
    c.get(k).cloned()
}

/// Relies on `lru::LruCache::pop`: removes the key's entry, if any, leaving
/// the others in their order.
#[verifier::external_body]
pub fn cache_pop(c: &mut lru::LruCache<String, SessionRecord>, k: &String) -> (r: Option<
    SessionRecord,
>)
    ensures
        lru_cap(*final(c)) == lru_cap(*old(c)),
        index_of_key(lru_entries(*old(c)), k@) >= 0 ==> {
            &&& r is Some
            &&& r->0@ == lru_entries(*old(c))[index_of_key(lru_entries(*old(c)), k@)].1
            &&& lru_entries(*final(c)) == lru_entries(*old(c)).remove(
                index_of_key(lru_entries(*old(c)), k@),
            )
        },
        index_of_key(lru_entries(*old(c)), k@) < 0 ==> {
            &&& r is None
            &&& lru_entries(*final(c)) == lru_entries(*old(c))
        },
{
    c.pop(k)
}

/// Relies on `lru::LruCache::len`.
#[verifier::external_body]
pub fn cache_len(c: &lru::LruCache<String, SessionRecord>) -> (n: usize)
    ensures
        n == lru_entries(*c).len(),
{
    c.len()
}

// ---------------------------------------------------------------------------
// Facts about the entry model
// ---------------------------------------------------------------------------

pub proof fn lemma_index_of_key_bounds(es: Seq<(Seq<char>, SessionRecordView)>, k: Seq<char>)
    ensures
        index_of_key(es, k) == -1 || (0 <= index_of_key(es, k) < es.len()),
        index_of_key(es, k) >= 0 ==> es[index_of_key(es, k)].0 == k,
        index_of_key(es, k) == -1 ==> forall|i: int| 0 <= i < es.len() ==> es[i].0 != k,
        forall|i: int| 0 <= i < index_of_key(es, k) ==> es[i].0 != k,
    decreases es.len(),
{
    if es.len() > 0 && es[0].0 != k {
        lemma_index_of_key_bounds(es.drop_first(), k);
        assert(forall|i: int| 1 <= i < es.len() ==> es[i] == es.drop_first()[i - 1]);
    }
}

pub proof fn lemma_index_of_key_found(es: Seq<(Seq<char>, SessionRecordView)>, k: Seq<char>, i: int)
    requires
        0 <= i < es.len(),
        es[i].0 == k,
        forall|j: int| 0 <= j < i ==> es[j].0 != k,
    ensures
        index_of_key(es, k) == i,
    decreases i,
{
    if i > 0 {
        lemma_index_of_key_found(es.drop_first(), k, i - 1);
    }
}

} // verus!
