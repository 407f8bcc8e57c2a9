//! The session store: durable rows fronted by the LRU cache.
//!
//! The durable half is a table of rows keyed by session id, with an `online`
//! switch standing for the backend's reachability: every operation on an
//! offline store fails with `Backend`, as an unreachable database would.
//! The cache half is the bounded LRU cache; `load` trusts a cache hit and
//! reads durable storage only on a miss.

use vstd::prelude::*;
use vstd::string::*;

use crate::cache::{
    cache_get, cache_len, cache_new, cache_pop, cache_put, index_of_key, lru_cap, lru_entries,
};
use crate::codec::{dec_data, decode_data, enc_data, encode_data};
use crate::errors::StoreError;
use crate::session::{convert_time, SessionRecord, SessionRecordView};

verus! {

// ---------------------------------------------------------------------------
// Durable rows
// ---------------------------------------------------------------------------

pub struct DurableRowView {
    pub id: Seq<char>,
    pub data: Seq<char>,
    pub expires_at: i64,
    pub refreshed_at: i64,
    pub created_at: i64,
}

/// One stored session row: the serialized payload and its timestamps.
#[derive(Clone, Debug)]
pub struct DurableRow {
    pub id: String,
    pub data: String,
    pub expires_at: i64,
    pub refreshed_at: i64,
    pub created_at: i64,
}

impl View for DurableRow {
    type V = DurableRowView;

    open spec fn view(&self) -> DurableRowView {
        DurableRowView {
            id: self.id@,
            data: self.data@,
            expires_at: self.expires_at,
            refreshed_at: self.refreshed_at,
            created_at: self.created_at,
        }
    }
}

impl DurableRow {
    pub fn duplicate(&self) -> (r: DurableRow)
        ensures
            r@ == self@,
    {
        DurableRow {
            id: self.id.clone(),
            data: self.data.clone(),
            expires_at: self.expires_at,
            refreshed_at: self.refreshed_at,
            created_at: self.created_at,
        }
    }
}

/// First index of a row with the given id, or -1.
pub open spec fn row_index(rows: Seq<DurableRowView>, id: Seq<char>) -> int
    decreases rows.len(),
{
    if rows.len() == 0 {
        -1
    } else if rows[0].id == id {
        0
    } else {
        let r = row_index(rows.drop_first(), id);
        if r == -1 {
            -1
        } else {
            r + 1
        }
    }
}

pub proof fn lemma_row_index_bounds(rows: Seq<DurableRowView>, id: Seq<char>)
    ensures
        row_index(rows, id) == -1 || (0 <= row_index(rows, id) < rows.len()),
        row_index(rows, id) >= 0 ==> rows[row_index(rows, id)].id == id,
        row_index(rows, id) == -1 ==> forall|i: int| 0 <= i < rows.len() ==> rows[i].id != id,
        forall|i: int| 0 <= i < row_index(rows, id) ==> rows[i].id != id,
    decreases rows.len(),
{
    if rows.len() > 0 && rows[0].id != id {
        lemma_row_index_bounds(rows.drop_first(), id);
        assert(forall|i: int| 1 <= i < rows.len() ==> rows[i] == rows.drop_first()[i - 1]);
    }
}

pub proof fn lemma_row_index_found(rows: Seq<DurableRowView>, id: Seq<char>, i: int)
    requires
        0 <= i < rows.len(),
        rows[i].id == id,
        forall|j: int| 0 <= j < i ==> rows[j].id != id,
    ensures
        row_index(rows, id) == i,
    decreases i,
{
    if i > 0 {
        lemma_row_index_found(rows.drop_first(), id, i - 1);
    }
}

// ---------------------------------------------------------------------------
// The durable store
// ---------------------------------------------------------------------------

pub struct DurableStoreView {
    pub rows: Seq<DurableRowView>,
    pub online: bool,
}

/// The durable half of the session store. `online == false` stands for an
/// unreachable backend: every operation then fails with `Backend`.
pub struct DurableStore {
    rows: Vec<DurableRow>,
    online: bool,
}

impl View for DurableStore {
    type V = DurableStoreView;

    closed spec fn view(&self) -> DurableStoreView {
        DurableStoreView { rows: Seq::new(self.rows@.len(), |i: int| self.rows@[i]@), online: self.online }
    }
}

/// Row ids are unique.
pub open spec fn rows_wf(rows: Seq<DurableRowView>) -> bool {
    forall|i: int, j: int| 0 <= i < j < rows.len() ==> rows[i].id != rows[j].id
}

impl DurableStore {
    pub open spec fn wf(&self) -> bool {
        rows_wf(self@.rows)
    }

    /// A fresh, empty, reachable store.
    pub fn new() -> (s: DurableStore)
        ensures
            s@.rows.len() == 0,
            s@.online,
            s.wf(),
    {
        let s = DurableStore { rows: Vec::new(), online: true };
        assert(s@.rows =~= Seq::<DurableRowView>::empty());
        s
    }

    /// Makes the backend reachable or unreachable; the rows are untouched.
    pub fn set_online(&mut self, online: bool)
        ensures
            final(self)@.rows == old(self)@.rows,
            final(self)@.online == online,
            final(self).wf() == old(self).wf(),
    {
        self.online = online;
        assert(final(self)@.rows =~= old(self)@.rows);
    }

    /// Finds the position of a row by id.
    fn position(&self, id: &String) -> (r: Option<usize>)
        ensures
            r is Some ==> r->0 < self@.rows.len() && row_index(self@.rows, id@) == r->0,
            r is None ==> row_index(self@.rows, id@) == -1,
    {
        let n = self.rows.len();
        let mut i: usize = 0;
        while i < n
            invariant
                i <= n,
                n == self@.rows.len(),
                self@.rows.len() == self.rows@.len(),
                forall|j: int| 0 <= j < i ==> self@.rows[j].id != id@,
                forall|j: int| 0 <= j < n ==> self@.rows[j] == self.rows@[j]@,
            decreases n - i,
        {
            if self.rows[i].id == *id {
                proof {
                    lemma_row_index_found(self@.rows, id@, i as int);
                }
                return Some(i);
            }
            i = i + 1;
        }
        proof {
            lemma_row_index_bounds(self@.rows, id@);
            if row_index(self@.rows, id@) >= 0 {
                assert(self@.rows[row_index(self@.rows, id@)].id == id@);
            }
        }
        None
    }

    /// Inserts a new row; refuses an id that is already present, and any
    /// operation while unreachable.
    pub fn insert(&mut self, row: DurableRow) -> (r: Result<(), StoreError>)
        requires
            old(self).wf(),
        ensures
            final(self).wf(),
            final(self)@.online == old(self)@.online,
            r is Ok <==> old(self)@.online && row_index(old(self)@.rows, row.id@) < 0,
            r is Ok ==> final(self)@.rows == old(self)@.rows.push(row@),
            r is Err ==> final(self)@.rows == old(self)@.rows && r->Err_0 == StoreError::Backend,
    {
        if !self.online {
            return Err(StoreError::Backend);
        }
        match self.position(&row.id) {
            Some(_) => Err(StoreError::Backend),
            None => {
                proof {
                    lemma_row_index_bounds(self@.rows, row.id@);
                }
                let ghost old_rows = self@.rows;
                let ghost rv = row@;
                self.rows.push(row);
                assert(self@.rows =~= old_rows.push(rv));
                Ok(())
            },
        }
    }

    /// Overwrites an existing row's payload and expiry and bumps its
    /// `refreshed_at`; refuses an absent id, and any operation while
    /// unreachable.
    pub fn update(&mut self, id: &String, data: String, expires_at: i64, refreshed_at: i64) -> (r:
        Result<(), StoreError>)
        requires
            old(self).wf(),
        ensures
            final(self).wf(),
            final(self)@.online == old(self)@.online,
            r is Ok <==> old(self)@.online && row_index(old(self)@.rows, id@) >= 0,
            r is Ok ==> final(self)@.rows == old(self)@.rows.update(
                row_index(old(self)@.rows, id@),
                DurableRowView {
                    id: id@,
                    data: data@,
                    expires_at: expires_at,
                    refreshed_at: refreshed_at,
                    created_at: old(self)@.rows[row_index(old(self)@.rows, id@)].created_at,
                },
            ),
            r is Err ==> final(self)@.rows == old(self)@.rows && r->Err_0 == StoreError::Backend,
    {
        if !self.online {
            return Err(StoreError::Backend);
        }
        match self.position(id) {
            None => Err(StoreError::Backend),
            Some(i) => {
                let ghost old_rows = self@.rows;
                let old_row = self.rows.remove(i);
                let new_row = DurableRow {
                    id: id.clone(),
                    data,
                    expires_at,
                    refreshed_at,
                    created_at: old_row.created_at,
                };
                let ghost nv = new_row@;
                self.rows.insert(i, new_row);
                assert(self@.rows =~= old_rows.update(i as int, nv));
                proof {
                    lemma_row_index_bounds(old_rows, id@);
                }
                Ok(())
            },
        }
    }

    /// Reads a row by id; an absent id is no error, an unreachable backend
    /// is.
    pub fn fetch(&self, id: &String) -> (r: Result<Option<DurableRow>, StoreError>)
        ensures
            r is Ok <==> self@.online,
            r is Err ==> r->Err_0 == StoreError::Backend,
            r is Ok ==> match r->Ok_0 {
                Some(row) => row_index(self@.rows, id@) >= 0 && row@ == self@.rows[row_index(
                    self@.rows,
                    id@,
                )],
                None => row_index(self@.rows, id@) < 0,
            },
    {
        if !self.online {
            return Err(StoreError::Backend);
        }
        match self.position(id) {
            None => Ok(None),
            Some(i) => Ok(Some(self.rows[i].duplicate())),
        }
    }

    /// Removes a row by id; removing an absent id succeeds (idempotent
    /// delete), an unreachable backend fails.
    pub fn remove(&mut self, id: &String) -> (r: Result<(), StoreError>)
        requires
            old(self).wf(),
        ensures
            final(self).wf(),
            final(self)@.online == old(self)@.online,
            r is Ok <==> old(self)@.online,
            r is Err ==> final(self)@.rows == old(self)@.rows && r->Err_0 == StoreError::Backend,
            r is Ok && row_index(old(self)@.rows, id@) >= 0 ==> final(self)@.rows == old(
                self,
            )@.rows.remove(row_index(old(self)@.rows, id@)),
            r is Ok && row_index(old(self)@.rows, id@) < 0 ==> final(self)@.rows == old(
                self,
            )@.rows,
    {
        if !self.online {
            return Err(StoreError::Backend);
        }
        match self.position(id) {
            None => Ok(()),
            Some(i) => {
                let ghost old_rows = self@.rows;
                self.rows.remove(i);
                assert(self@.rows =~= old_rows.remove(i as int));
                proof {
                    lemma_rows_wf_remove(old_rows, i as int);
                }
                Ok(())
            },
        }
    }

    /// Plants a raw row, standing for a write by another process; a test of
    /// decode failures needs one. Replaces any row with the same id.
    pub fn put_row(&mut self, row: DurableRow)
        requires
            old(self).wf(),
        ensures
            final(self).wf(),
            final(self)@.online == old(self)@.online,
            row_index(final(self)@.rows, row.id@) >= 0,
            final(self)@.rows[row_index(final(self)@.rows, row.id@)] == row@,
    {
        let ghost rv = row@;
        match self.position(&row.id) {
            Some(i) => {
                let ghost old_rows = self@.rows;
                self.rows.remove(i);
                self.rows.insert(i, row);
                assert(self@.rows =~= old_rows.update(i as int, rv));
                proof {
                    lemma_row_index_bounds(old_rows, rv.id);
                    lemma_row_index_found(self@.rows, rv.id, i as int);
                }
            },
            None => {
                let ghost old_rows = self@.rows;
                self.rows.push(row);
                assert(self@.rows =~= old_rows.push(rv));
                proof {
                    lemma_row_index_bounds(old_rows, rv.id);
                    lemma_row_index_found(self@.rows, rv.id, old_rows.len() as int);
                }
            },
        }
    }
}

proof fn lemma_rows_wf_remove(rows: Seq<DurableRowView>, i: int)
    requires
        rows_wf(rows),
        0 <= i < rows.len(),
    ensures
        rows_wf(rows.remove(i)),
{
    let r = rows.remove(i);
    assert(forall|a: int| 0 <= a < r.len() ==> r[a] == (if a < i {
        rows[a]
    } else {
        rows[a + 1]
    }));
}

// ---------------------------------------------------------------------------
// Cache transition model
// ---------------------------------------------------------------------------

/// Cache keys are unique.
pub open spec fn keys_distinct(es: Seq<(Seq<char>, SessionRecordView)>) -> bool {
    forall|i: int, j: int| 0 <= i < j < es.len() ==> es[i].0 != es[j].0
}

/// A well-formed cache: a positive capacity that the entries respect, and
/// no key twice.
pub open spec fn cache_wf(es: Seq<(Seq<char>, SessionRecordView)>, cap: nat) -> bool {
    cap >= 1 && es.len() <= cap && keys_distinct(es)
}

/// What a `put` leaves in the cache: the new entry in front; an old entry
/// under the same key gone; the least recently used entry gone when a fresh
/// key arrives at capacity.
pub open spec fn put_model(
    es: Seq<(Seq<char>, SessionRecordView)>,
    cap: nat,
    k: Seq<char>,
    v: SessionRecordView,
) -> Seq<(Seq<char>, SessionRecordView)> {
    let i = index_of_key(es, k);
    if i >= 0 {
        seq![(k, v)] + es.remove(i)
    } else if es.len() < cap {
        seq![(k, v)] + es
    } else {
        seq![(k, v)] + es.drop_last()
    }
}

/// What a cache hit leaves: the touched entry moved to the front.
pub open spec fn touch_model(es: Seq<(Seq<char>, SessionRecordView)>, k: Seq<char>) -> Seq<
    (Seq<char>, SessionRecordView),
> {
    let i = index_of_key(es, k);
    if i >= 0 {
        seq![es[i]] + es.remove(i)
    } else {
        es
    }
}

/// What an eviction by key leaves.
pub open spec fn pop_model(es: Seq<(Seq<char>, SessionRecordView)>, k: Seq<char>) -> Seq<
    (Seq<char>, SessionRecordView),
> {
    let i = index_of_key(es, k);
    if i >= 0 {
        es.remove(i)
    } else {
        es
    }
}

/// Writing through the cache keeps it well formed and leaves the written
/// record at the front under its id: a load immediately after a save finds
/// exactly the saved record, and finds it in the cache, so it is answered
/// without a durable round trip — even when durable storage has failed
/// since the save.
pub proof fn lemma_put_model_wf(
    es: Seq<(Seq<char>, SessionRecordView)>,
    cap: nat,
    k: Seq<char>,
    v: SessionRecordView,
)
    requires
        cache_wf(es, cap),
    ensures
        cache_wf(put_model(es, cap, k, v), cap),
        put_model(es, cap, k, v).len() >= 1,
        put_model(es, cap, k, v)[0] == (k, v),
        index_of_key(put_model(es, cap, k, v), k) == 0,
{
    let i = index_of_key(es, k);
    crate::cache::lemma_index_of_key_bounds(es, k);
    let es2 = put_model(es, cap, k, v);
    assert(es2[0] == (k, v));
    crate::cache::lemma_index_of_key_found(es2, k, 0);
    if i >= 0 {
        let r = es.remove(i);
        assert(forall|a: int| 0 <= a < r.len() ==> r[a] == (if a < i {
            es[a]
        } else {
            es[a + 1]
        }));
        assert(forall|a: int| 0 <= a < r.len() ==> r[a].0 != k);
        assert(forall|a: int, b: int| 0 <= a < b < r.len() ==> r[a].0 != r[b].0);
        assert(forall|a: int, b: int| 0 <= a < b < es2.len() ==> es2[a].0 != es2[b].0);
    } else if es.len() < cap {
        assert(forall|a: int| 0 <= a < es.len() ==> es[a].0 != k);
        assert(forall|a: int, b: int| 0 <= a < b < es2.len() ==> es2[a].0 != es2[b].0);
    } else {
        let r = es.drop_last();
        assert(forall|a: int| 0 <= a < r.len() ==> r[a] == es[a]);
        assert(forall|a: int| 0 <= a < es.len() ==> es[a].0 != k);
        assert(forall|a: int, b: int| 0 <= a < b < es2.len() ==> es2[a].0 != es2[b].0);
    }
}

/// A cache hit only reorders: the same entries remain, the hit one in
/// front.
pub proof fn lemma_touch_model_wf(es: Seq<(Seq<char>, SessionRecordView)>, cap: nat, k: Seq<char>)
    requires
        cache_wf(es, cap),
    ensures
        cache_wf(touch_model(es, k), cap),
        touch_model(es, k).len() == es.len(),
        index_of_key(es, k) >= 0 ==> touch_model(es, k)[0] == es[index_of_key(es, k)],
{
    let i = index_of_key(es, k);
    crate::cache::lemma_index_of_key_bounds(es, k);
    if i >= 0 {
        let es2 = touch_model(es, k);
        let r = es.remove(i);
        assert(forall|a: int| 0 <= a < r.len() ==> r[a] == (if a < i {
            es[a]
        } else {
            es[a + 1]
        }));
        assert(forall|a: int| 0 <= a < r.len() ==> r[a].0 != k);
        assert(forall|a: int, b: int| 0 <= a < b < es2.len() ==> es2[a].0 != es2[b].0);
    }
}

/// Filling a full cache with a fresh key evicts exactly the least recently
/// used entry: the new entry stands in front, every other entry survives one
/// place further back, and the evicted id is no longer cached — a later
/// load of it must fall through to durable storage.
pub proof fn lemma_eviction_lru(
    es: Seq<(Seq<char>, SessionRecordView)>,
    cap: nat,
    k: Seq<char>,
    v: SessionRecordView,
)
    requires
        cache_wf(es, cap),
        es.len() == cap,
        index_of_key(es, k) < 0,
    ensures
        put_model(es, cap, k, v).len() == cap,
        put_model(es, cap, k, v)[0] == (k, v),
        forall|j: int| 0 <= j < cap - 1 ==> put_model(es, cap, k, v)[j + 1] == es[j],
        index_of_key(put_model(es, cap, k, v), es.last().0) == -1,
{
    crate::cache::lemma_index_of_key_bounds(es, k);
    let es2 = put_model(es, cap, k, v);
    assert(es2 == seq![(k, v)] + es.drop_last());
    assert(forall|j: int| 0 <= j < cap - 1 ==> es2[j + 1] == es[j]);
    let evicted = es.last().0;
    assert(forall|a: int| 0 <= a < es.len() ==> es[a].0 != k);
    assert(evicted != k);
    assert(forall|j: int| 0 <= j < cap - 1 ==> es[j].0 != evicted);
    crate::cache::lemma_index_of_key_bounds(es2, evicted);
    if index_of_key(es2, evicted) >= 0 {
        assert(es2[index_of_key(es2, evicted)].0 == evicted);
    }
}

/// Evicting by key keeps the cache well formed and removes the key.
pub proof fn lemma_pop_model_wf(es: Seq<(Seq<char>, SessionRecordView)>, cap: nat, k: Seq<char>)
    requires
        cache_wf(es, cap),
    ensures
        cache_wf(pop_model(es, k), cap),
        index_of_key(pop_model(es, k), k) == -1,
{
    let i = index_of_key(es, k);
    crate::cache::lemma_index_of_key_bounds(es, k);
    if i >= 0 {
        let r = es.remove(i);
        assert(forall|a: int| 0 <= a < r.len() ==> r[a] == (if a < i {
            es[a]
        } else {
            es[a + 1]
        }));
        assert(forall|a: int| 0 <= a < r.len() ==> r[a].0 != k);
        assert(forall|a: int, b: int| 0 <= a < b < r.len() ==> r[a].0 != r[b].0);
        crate::cache::lemma_index_of_key_bounds(r, k);
        if index_of_key(r, k) >= 0 {
            assert(r[index_of_key(r, k)].0 == k);
        }
    }
}

// ---------------------------------------------------------------------------
// The cache-fronted session store
// ---------------------------------------------------------------------------

/// How many sessions the cache holds before evicting.
pub const LRU_CAPACITY: usize = 1000;

/// The durable row a `create` writes.
pub open spec fn create_row(rv: SessionRecordView, now: i64) -> DurableRowView {
    DurableRowView {
        id: rv.id,
        data: enc_data(rv.data),
        expires_at: rv.expiry_nanos as i64,
        refreshed_at: now,
        created_at: now,
    }
}

/// The record a durable row decodes to.
pub open spec fn loaded_record(row: DurableRowView) -> SessionRecordView {
    SessionRecordView {
        id: row.id,
        data: dec_data(row.data)->0,
        expiry_nanos: row.expires_at as i128,
    }
}

/// A record written to durable storage is read back identically: decoding
/// the row a `create` (or `save`) writes yields exactly the record that was
/// stored — so a load that falls through to durable storage, after an
/// eviction or in a fresh process, returns the same data that was saved.
pub proof fn lemma_durable_round_trip(rv: SessionRecordView, refreshed_at: i64, created_at: i64)
    requires
        crate::session::time_ok(rv.expiry_nanos),
    ensures
        loaded_record(create_row(rv, created_at)) == rv,
        loaded_record(
            DurableRowView {
                id: rv.id,
                data: enc_data(rv.data),
                expires_at: rv.expiry_nanos as i64,
                refreshed_at: refreshed_at,
                created_at: created_at,
            },
        ) == rv,
{
    crate::codec::lemma_codec_round_trip(rv.data);
}

/// The session store: a durable table of serialized rows behind a bounded
/// LRU cache of decoded records.
pub struct SessionBackend {
    pub durable: DurableStore,
    pub cache: lru::LruCache<String, SessionRecord>,
}

impl SessionBackend {
    /// The cache's entries, most recently used first.
    pub open spec fn cache_entries(&self) -> Seq<(Seq<char>, SessionRecordView)> {
        lru_entries(self.cache)
    }

    /// The cache's capacity.
    pub open spec fn capacity(&self) -> nat {
        lru_cap(self.cache)
    }

    pub open spec fn wf(&self) -> bool {
        self.durable.wf() && cache_wf(self.cache_entries(), self.capacity())
    }

    /// A fresh store with the fixed cache capacity.
    pub fn new() -> (s: SessionBackend)
        ensures
            s.wf(),
            s.cache_entries().len() == 0,
            s.capacity() == LRU_CAPACITY,
            s.durable@.rows.len() == 0,
            s.durable@.online,
    {
        SessionBackend::with_capacity(LRU_CAPACITY)
    }

    /// A fresh store with a chosen cache capacity.
    pub fn with_capacity(cap: usize) -> (s: SessionBackend)
        requires
            cap >= 1,
        ensures
            s.wf(),
            s.cache_entries().len() == 0,
            s.capacity() == cap,
            s.durable@.rows.len() == 0,
            s.durable@.online,
    {
        SessionBackend { durable: DurableStore::new(), cache: cache_new(cap) }
    }

    /// How many records the cache currently holds.
    pub fn cached_len(&self) -> (n: usize)
        ensures
            n == self.cache_entries().len(),
    {
        cache_len(&self.cache)
    }

    /// Stores a new session: writes through to durable storage and, only
    /// once that write succeeded, populates the cache. Fails with `Encode`
    /// on an unrepresentable expiry and with `Backend` when the id already
    /// exists or the backend is unreachable; a failed write leaves the
    /// cache alone, so a later load cannot be answered with a record that
    /// durable storage refused.
    pub fn create(&mut self, record: &SessionRecord, now: i64) -> (r: Result<(), StoreError>)
        requires
            old(self).wf(),
        ensures
            final(self).wf(),
            final(self).capacity() == old(self).capacity(),
            final(self).durable@.online == old(self).durable@.online,
            r is Ok <==> crate::session::time_ok(record.expiry_nanos) && old(
                self,
            ).durable@.online && row_index(old(self).durable@.rows, record.id@) < 0,
            r is Ok ==> final(self).durable@.rows == old(self).durable@.rows.push(
                create_row(record@, now),
            ),
            r is Ok ==> final(self).cache_entries() == put_model(
                old(self).cache_entries(),
                old(self).capacity(),
                record.id@,
                record@,
            ),
            r is Err ==> final(self).durable@.rows == old(self).durable@.rows
                && final(self).cache_entries() == old(self).cache_entries(),
            !crate::session::time_ok(record.expiry_nanos) ==> r is Err && r->Err_0
                == StoreError::Encode,
            crate::session::time_ok(record.expiry_nanos) && r is Err ==> r->Err_0
                == StoreError::Backend,
    {
        let expires_at = match convert_time(record.expiry_nanos) {
            Ok(e) => e,
            Err(e) => {
                return Err(e);
            },
        };
        let data = encode_data(&record.data);
        let row = DurableRow {
            id: record.id.clone(),
            data,
            expires_at,
            refreshed_at: now,
            created_at: now,
        };
        match self.durable.insert(row) {
            Err(e) => Err(e),
            Ok(()) => {
                let copy = record.duplicate();
                let _ = cache_put(&mut self.cache, record.id.clone(), copy);
                proof {
                    lemma_put_model_wf(
                        old(self).cache_entries(),
                        old(self).capacity(),
                        record.id@,
                        record@,
                    );
                }
                Ok(())
            },
        }
    }

    /// Overwrites an existing session: writes through to durable storage
    /// and, on success, updates the cache. Fails with `Encode` on an
    /// unrepresentable expiry and with `Backend` when the id is absent or
    /// the backend unreachable; a failed write leaves the cache alone.
    pub fn save(&mut self, record: &SessionRecord, now: i64) -> (r: Result<(), StoreError>)
        requires
            old(self).wf(),
        ensures
            final(self).wf(),
            final(self).capacity() == old(self).capacity(),
            final(self).durable@.online == old(self).durable@.online,
            !crate::session::time_ok(record.expiry_nanos) ==> r is Err && r->Err_0
                == StoreError::Encode && final(self).durable@.rows == old(self).durable@.rows
                && final(self).cache_entries() == old(self).cache_entries(),
            crate::session::time_ok(record.expiry_nanos) ==> (r is Ok <==> old(
                self,
            ).durable@.online && row_index(old(self).durable@.rows, record.id@) >= 0),
            r is Ok ==> final(self).durable@.rows == old(self).durable@.rows.update(
                row_index(old(self).durable@.rows, record.id@),
                DurableRowView {
                    id: record.id@,
                    data: enc_data(record@.data),
                    expires_at: record.expiry_nanos as i64,
                    refreshed_at: now,
                    created_at: old(self).durable@.rows[row_index(
                        old(self).durable@.rows,
                        record.id@,
                    )].created_at,
                },
            ),
            r is Ok ==> final(self).cache_entries() == put_model(
                old(self).cache_entries(),
                old(self).capacity(),
                record.id@,
                record@,
            ),
            crate::session::time_ok(record.expiry_nanos) && r is Err ==> r->Err_0
                == StoreError::Backend && final(self).durable@.rows == old(self).durable@.rows
                && final(self).cache_entries() == old(self).cache_entries(),
    {
        let expires_at = match convert_time(record.expiry_nanos) {
            Ok(e) => e,
            Err(e) => {
                return Err(e);
            },
        };
        let data = encode_data(&record.data);
        match self.durable.update(&record.id, data, expires_at, now) {
            Err(e) => Err(e),
            Ok(()) => {
                let copy = record.duplicate();
                let _ = cache_put(&mut self.cache, record.id.clone(), copy);
                proof {
                    lemma_put_model_wf(
                        old(self).cache_entries(),
                        old(self).capacity(),
                        record.id@,
                        record@,
                    );
                }
                Ok(())
            },
        }
    }

    /// Looks a session up. A cache hit is trusted and answered without
    /// consulting durable storage (and without an expiry check — the read
    /// path deliberately leaves expiry enforcement to the durable store's
    /// owner). On a miss the durable row, if any, is decoded and the cache
    /// populated. An absent id is `Ok(None)`, not an error.
    pub fn load(&mut self, id: &String) -> (r: Result<Option<SessionRecord>, StoreError>)
        requires
            old(self).wf(),
        ensures
            final(self).wf(),
            final(self).capacity() == old(self).capacity(),
            final(self).durable@ == old(self).durable@,
            index_of_key(old(self).cache_entries(), id@) >= 0 ==> {
                &&& r is Ok
                &&& r->Ok_0 is Some
                &&& (r->Ok_0)->0@ == old(self).cache_entries()[index_of_key(
                    old(self).cache_entries(),
                    id@,
                )].1
                &&& final(self).cache_entries() == touch_model(old(self).cache_entries(), id@)
            },
            index_of_key(old(self).cache_entries(), id@) < 0 && !old(self).durable@.online ==> {
                &&& r is Err
                &&& r->Err_0 == StoreError::Backend
                &&& final(self).cache_entries() == old(self).cache_entries()
            },
            index_of_key(old(self).cache_entries(), id@) < 0 && old(self).durable@.online
                && row_index(old(self).durable@.rows, id@) < 0 ==> {
                &&& r is Ok
                &&& r->Ok_0 is None
                &&& final(self).cache_entries() == old(self).cache_entries()
            },
            index_of_key(old(self).cache_entries(), id@) < 0 && old(self).durable@.online
                && row_index(old(self).durable@.rows, id@) >= 0 && dec_data(
                old(self).durable@.rows[row_index(old(self).durable@.rows, id@)].data,
            ) is None ==> {
                &&& r is Err
                &&& r->Err_0 == StoreError::Decode
                &&& final(self).cache_entries() == old(self).cache_entries()
            },
            index_of_key(old(self).cache_entries(), id@) < 0 && old(self).durable@.online
                && row_index(old(self).durable@.rows, id@) >= 0 && dec_data(
                old(self).durable@.rows[row_index(old(self).durable@.rows, id@)].data,
            ) is Some ==> {
                &&& r is Ok
                &&& r->Ok_0 is Some
                &&& (r->Ok_0)->0@ == loaded_record(
                    old(self).durable@.rows[row_index(old(self).durable@.rows, id@)],
                )
                &&& final(self).cache_entries() == put_model(
                    old(self).cache_entries(),
                    old(self).capacity(),
                    id@,
                    loaded_record(
                        old(self).durable@.rows[row_index(old(self).durable@.rows, id@)],
                    ),
                )
            },
    {
        match cache_get(&mut self.cache, id) {
            Some(rec) => {
                proof {
                    lemma_touch_model_wf(old(self).cache_entries(), old(self).capacity(), id@);
                }
                return Ok(Some(rec));
            },
            None => {},
        }
        let row = match self.durable.fetch(id) {
            Err(e) => {
                return Err(e);
            },
            Ok(None) => {
                return Ok(None);
            },
            Ok(Some(row)) => row,
        };
        let data = match decode_data(row.data.as_str()) {
            None => {
                return Err(StoreError::Decode);
            },
            Some(d) => d,
        };
        let rec = SessionRecord { id: id.clone(), data, expiry_nanos: row.expires_at as i128 };
        proof {
            lemma_row_index_bounds(old(self).durable@.rows, id@);
            assert(rec@ == loaded_record(
                old(self).durable@.rows[row_index(old(self).durable@.rows, id@)],
            ));
        }
        let copy = rec.duplicate();
        let _ = cache_put(&mut self.cache, id.clone(), copy);
        proof {
            lemma_put_model_wf(
                old(self).cache_entries(),
                old(self).capacity(),
                id@,
                rec@,
            );
        }
        Ok(Some(rec))
    }

    /// Removes a session from durable storage and evicts its cached copy.
    /// Removing an absent session succeeds; only an unreachable backend
    /// fails, and then the cached copy stays.
    pub fn delete(&mut self, id: &String) -> (r: Result<(), StoreError>)
        requires
            old(self).wf(),
        ensures
            final(self).wf(),
            final(self).capacity() == old(self).capacity(),
            final(self).durable@.online == old(self).durable@.online,
            r is Ok <==> old(self).durable@.online,
            r is Err ==> r->Err_0 == StoreError::Backend && final(self).durable@.rows == old(
                self,
            ).durable@.rows && final(self).cache_entries() == old(self).cache_entries(),
            r is Ok ==> final(self).cache_entries() == pop_model(old(self).cache_entries(), id@),
            r is Ok && row_index(old(self).durable@.rows, id@) >= 0 ==> final(self).durable@.rows
                == old(self).durable@.rows.remove(row_index(old(self).durable@.rows, id@)),
            r is Ok && row_index(old(self).durable@.rows, id@) < 0 ==> final(self).durable@.rows
                == old(self).durable@.rows,
    {
        match self.durable.remove(id) {
            Err(e) => Err(e),
            Ok(()) => {
                let _ = cache_pop(&mut self.cache, id);
                proof {
                    lemma_pop_model_wf(old(self).cache_entries(), old(self).capacity(), id@);
                }
                Ok(())
            },
        }
    }
}

} // verus!
