//! The embedded canonical store: one record per id, in insertion order.
//!
//! Reads are scope-filtered: a record is visible from a scope exactly
//! when the scope contains the record's scope, so an invisible record
//! behaves as an absent one.
use crate::error::{MemoryError, MemoryResult};
use crate::id::MemoryId;
use crate::query::{self, MemoryQuery, QueryView};
use crate::record::{self, MemoryRecord, RecordView};
use crate::scope::{self, MemoryScope};
use crate::subject;
use crate::temporal;
use crate::text;
use vstd::prelude::*;
use vstd::string::*;

verus! {

/// Views of a sequence of records.
pub open spec fn record_views(v: Seq<MemoryRecord>) -> Seq<RecordView> {
    v.map_values(|r: MemoryRecord| r@)
}

/// No two records share an id.
pub open spec fn ids_unique(rs: Seq<RecordView>) -> bool {
    forall|i: int, j: int|
        0 <= i < rs.len() && 0 <= j < rs.len() && i != j ==> (#[trigger] rs[i]).id != (#[trigger] rs[j]).id
}

/// Position of the record with `id`, if stored.
pub open spec fn position_of(rs: Seq<RecordView>, id: MemoryId) -> Option<int> {
    if exists|i: int| 0 <= i < rs.len() && (#[trigger] rs[i]).id == id {
        Some(choose|i: int| 0 <= i < rs.len() && (#[trigger] rs[i]).id == id)
    } else {
        None
    }
}

/// The stored record with `id`, if any, regardless of scope.
pub open spec fn stored_record(rs: Seq<RecordView>, id: MemoryId) -> Option<RecordView> {
    match position_of(rs, id) {
        Some(i) => Some(rs[i]),
        None => None,
    }
}

/// Writing a record replaces the one with the same id, or adds it.
pub open spec fn upsert_spec(rs: Seq<RecordView>, r: RecordView) -> Seq<RecordView> {
    match position_of(rs, r.id) {
        Some(i) => rs.update(i, r),
        None => rs.push(r),
    }
}

/// The record with `id`, if stored and visible from `scope`.
pub open spec fn get_spec(rs: Seq<RecordView>, id: MemoryId, scope: MemoryScope) -> Option<RecordView> {
    match position_of(rs, id) {
        Some(i) => if scope::scope_contains(scope@, rs[i].scope@) {
            Some(rs[i])
        } else {
            None
        },
        None => None,
    }
}

/// Deleting removes the record with `id` when it is visible from
/// `scope`; anything else is left alone.
pub open spec fn delete_spec(rs: Seq<RecordView>, id: MemoryId, scope: MemoryScope) -> Seq<RecordView> {
    match position_of(rs, id) {
        Some(i) => if scope::scope_contains(scope@, rs[i].scope@) {
            rs.remove(i)
        } else {
            rs
        },
        None => rs,
    }
}

/// A record passes a query at instant `at`: visible from the query's
/// scope, of an accepted type and status, on the queried subject (same
/// canonical key), mentioning the keyword (case-insensitively), and
/// valid at `at`.
pub open spec fn record_matches(q: QueryView, r: RecordView, at: int) -> bool {
    &&& scope::scope_contains(q.scope@, r.scope@)
    &&& query::accepts_type_spec(q, r.memory_type)
    &&& query::accepts_status_spec(q, r.status)
    &&& (q.subject matches Some(s) ==> (r.subject matches Some(rs) && rs.key() == s.key()))
    &&& (q.text matches Some(t) ==> text::contains_spec(
        text::str_lowercase(r.content.text@),
        text::str_lowercase(t@),
    ))
    &&& temporal::window_contains(record::validity_of(r), at)
}

/// The records that pass the query at `at`, in storage order.
pub open spec fn matching(rs: Seq<RecordView>, q: QueryView, at: int) -> Seq<RecordView>
    decreases rs.len(),
{
    if rs.len() == 0 {
        Seq::empty()
    } else {
        let m = matching(rs.drop_last(), q, at);
        if record_matches(q, rs.last(), at) {
            m.push(rs.last())
        } else {
            m
        }
    }
}

/// What a query returns at `at`: the matching records in storage order,
/// at most `limit` of them.
pub open spec fn query_spec(rs: Seq<RecordView>, q: QueryView, at: int) -> Seq<RecordView> {
    let m = matching(rs, q, at);
    if m.len() > q.limit {
        m.take(q.limit as int)
    } else {
        m
    }
}

/// With unique ids, the position of an id is the index holding it.
pub proof fn lemma_position_unique(rs: Seq<RecordView>, id: MemoryId, i: int)
    requires
        ids_unique(rs),
        0 <= i < rs.len(),
        rs[i].id == id,
    ensures
        position_of(rs, id) == Some(i),
{
}

/// Writing keeps ids unique, and the written record is what is stored
/// under its id afterwards.
pub proof fn lemma_upsert_stores(rs: Seq<RecordView>, r: RecordView)
    requires
        ids_unique(rs),
    ensures
        ids_unique(upsert_spec(rs, r)),
        stored_record(upsert_spec(rs, r), r.id) == Some(r),
        forall|id: MemoryId| id != r.id ==> #[trigger] stored_record(upsert_spec(rs, r), id) == stored_record(rs, id),
{
    let a = upsert_spec(rs, r);
    match position_of(rs, r.id) {
        Some(i) => {
            assert(rs[i].id == r.id);
            assert forall|x: int, y: int| 0 <= x < a.len() && 0 <= y < a.len() && x != y implies (
            #[trigger] a[x]).id != (#[trigger] a[y]).id by {
                if x != i && y != i {
                    assert(a[x] == rs[x] && a[y] == rs[y]);
                } else if x == i {
                    assert(a[y] == rs[y]);
                } else {
                    assert(a[x] == rs[x]);
                }
            }
            lemma_position_unique(a, r.id, i);
            assert forall|id: MemoryId| id != r.id implies #[trigger] stored_record(a, id) == stored_record(rs, id) by {
                if exists|k: int| 0 <= k < rs.len() && (#[trigger] rs[k]).id == id {
                    let k = choose|k: int| 0 <= k < rs.len() && (#[trigger] rs[k]).id == id;
                    lemma_position_unique(rs, id, k);
                    assert(a[k] == rs[k]);
                    lemma_position_unique(a, id, k);
                } else {
                    assert forall|k: int| 0 <= k < a.len() implies (#[trigger] a[k]).id != id by {
                        if k != i {
                            assert(a[k] == rs[k]);
                        }
                    }
                }
            }
        },
        None => {
            assert forall|x: int, y: int| 0 <= x < a.len() && 0 <= y < a.len() && x != y implies (
            #[trigger] a[x]).id != (#[trigger] a[y]).id by {
                if x < rs.len() && y < rs.len() {
                    assert(a[x] == rs[x] && a[y] == rs[y]);
                } else if x < rs.len() {
                    assert(a[x] == rs[x]);
                    assert(rs[x].id != r.id);
                } else {
                    assert(a[y] == rs[y]);
                    assert(rs[y].id != r.id);
                }
            }
            lemma_position_unique(a, r.id, rs.len() as int);
            assert forall|id: MemoryId| id != r.id implies #[trigger] stored_record(a, id) == stored_record(rs, id) by {
                if exists|k: int| 0 <= k < rs.len() && (#[trigger] rs[k]).id == id {
                    let k = choose|k: int| 0 <= k < rs.len() && (#[trigger] rs[k]).id == id;
                    lemma_position_unique(rs, id, k);
                    assert(a[k] == rs[k]);
                    lemma_position_unique(a, id, k);
                } else {
                    assert forall|k: int| 0 <= k < a.len() implies (#[trigger] a[k]).id != id by {
                        if k < rs.len() {
                            assert(a[k] == rs[k]);
                        }
                    }
                }
            }
        },
    }
}

/// Deleting keeps ids unique.
pub proof fn lemma_delete_keeps_unique(rs: Seq<RecordView>, id: MemoryId, scope: MemoryScope)
    requires
        ids_unique(rs),
    ensures
        ids_unique(delete_spec(rs, id, scope)),
{
    match position_of(rs, id) {
        Some(i) => {
            if scope::scope_contains(scope@, rs[i].scope@) {
                let r = rs.remove(i);
                assert forall|a: int, b: int| 0 <= a < r.len() && 0 <= b < r.len() && a != b implies (
                #[trigger] r[a]).id != (#[trigger] r[b]).id by {
                    let a2 = if a < i { a } else { a + 1 };
                    let b2 = if b < i { b } else { b + 1 };
                    assert(r[a] == rs[a2] && r[b] == rs[b2]);
                }
            }
        },
        None => {},
    }
}

/// The embedded canonical store.
#[derive(Debug)]
pub struct InMemoryStore {
    namespace: String,
    records: Vec<MemoryRecord>,
}

impl InMemoryStore {
    /// The stored records, in insertion order.
    pub closed spec fn records(&self) -> Seq<RecordView> {
        record_views(self.records@)
    }

    /// The namespace the store was opened for.
    pub closed spec fn namespace_view(&self) -> Seq<char> {
        self.namespace@
    }

    /// Record ids are unique.
    pub open spec fn wf(&self) -> bool {
        ids_unique(self.records())
    }

    /// An empty store for `namespace`.
    pub fn new(namespace: &str) -> (s: Self)
        ensures
            s.wf(),
            s.records().len() == 0,
            s.namespace_view() == namespace@,
    {
        let s = InMemoryStore { namespace: String::from_str(namespace), records: Vec::new() };
        assert(s.records() =~= Seq::empty());
        s
    }

    /// Provider name for logs.
    pub fn name(&self) -> (n: &'static str)
        ensures
            n@ == "in-memory"@,
    {
        "in-memory"
    }

    /// Number of stored records.
    pub fn len(&self) -> (n: usize)
        ensures
            n == self.records().len(),
    {
        self.records.len()
    }

    /// True when nothing is stored.
    pub fn is_empty(&self) -> (b: bool)
        ensures
            b == (self.records().len() == 0),
    {
        self.records.len() == 0
    }

    fn find(&self, id: &MemoryId) -> (r: Option<usize>)
        requires
            self.wf(),
        ensures
            match r {
                Some(i) => i < self.records().len() && position_of(self.records(), *id) == Some(i as int),
                None => position_of(self.records(), *id) is None,
            },
    {
        let ghost rs = self.records();
        let mut i: usize = 0;
        while i < self.records.len()
            invariant
                i <= self.records@.len(),
                rs == record_views(self.records@),
                ids_unique(rs),
                forall|k: int| 0 <= k < i ==> (#[trigger] rs[k]).id != *id,
            decreases self.records@.len() - i,
        {
            assert(rs[i as int] == self.records@[i as int]@);
            if self.records[i].id == *id {
                proof {
                    lemma_position_unique(rs, *id, i as int);
                }
                return Some(i);
            }
            i = i + 1;
        }
        None
    }

    /// Writes a record, replacing any record with the same id, and
    /// returns what was stored.
    pub fn put(&mut self, record: &MemoryRecord) -> (r: MemoryResult<MemoryRecord>)
        requires
            old(self).wf(),
        ensures
            final(self).wf(),
            final(self).records() == upsert_spec(old(self).records(), record@),
            final(self).namespace_view() == old(self).namespace_view(),
            r matches Ok(saved) && saved@ == record@,
    {
        let ghost before = self.records();
        proof {
            lemma_upsert_stores(before, record@);
        }
        match self.find(&record.id) {
            Some(i) => {
                self.records.set(i, record.clone());
                assert(self.records() =~= before.update(i as int, record@));
            },
            None => {
                self.records.push(record.clone());
                assert(self.records() =~= before.push(record@));
            },
        }
        Ok(record.clone())
    }

    /// The record with `id`, when it is visible from `scope`.
    pub fn get(&self, id: &MemoryId, scope: &MemoryScope) -> (r: MemoryResult<Option<MemoryRecord>>)
        requires
            self.wf(),
        ensures
            r matches Ok(o) && match o {
                Some(rec) => get_spec(self.records(), *id, *scope) == Some(rec@),
                None => get_spec(self.records(), *id, *scope) is None,
            },
    {
        match self.find(id) {
            Some(i) => {
                let rec = &self.records[i];
                assert(self.records()[i as int] == rec@);
                if scope.contains(&rec.scope) {
                    Ok(Some(rec.clone()))
                } else {
                    Ok(None)
                }
            },
            None => Ok(None),
        }
    }

    /// Replaces the stored record with the same id; a record that is not
    /// stored is not found.
    pub fn update(&mut self, record: &MemoryRecord) -> (r: MemoryResult<MemoryRecord>)
        requires
            old(self).wf(),
        ensures
            final(self).wf(),
            final(self).namespace_view() == old(self).namespace_view(),
            position_of(old(self).records(), record.id) is Some ==> (r matches Ok(saved) && saved@ == record@)
                && final(self).records() == upsert_spec(old(self).records(), record@),
            position_of(old(self).records(), record.id) is None ==> r == MemoryResult::<MemoryRecord>::Err(
                MemoryError::NotFound { memory_id: record.id },
            ) && final(self).records() == old(self).records(),
    {
        let ghost before = self.records();
        proof {
            lemma_upsert_stores(before, record@);
        }
        match self.find(&record.id) {
            Some(i) => {
                self.records.set(i, record.clone());
                assert(self.records() =~= before.update(i as int, record@));
                Ok(record.clone())
            },
            None => Err(MemoryError::NotFound { memory_id: record.id }),
        }
    }

    /// Physically removes the record with `id` when it is visible from
    /// `scope`; deleting an absent or invisible record changes nothing.
    pub fn delete(&mut self, id: &MemoryId, scope: &MemoryScope) -> (r: MemoryResult<()>)
        requires
            old(self).wf(),
        ensures
            r is Ok,
            final(self).wf(),
            final(self).namespace_view() == old(self).namespace_view(),
            final(self).records() == delete_spec(old(self).records(), *id, *scope),
    {
        let ghost before = self.records();
        proof {
            lemma_delete_keeps_unique(before, *id, *scope);
        }
        match self.find(id) {
            Some(i) => {
                assert(before[i as int] == self.records@[i as int]@);
                if scope.contains(&self.records[i].scope) {
                    self.records.remove(i);
                    assert(self.records() =~= before.remove(i as int));
                }
            },
            None => {},
        }
        Ok(())
    }

    /// Records passing the query at instant `at`, in storage order, at
    /// most `limit` of them.
    pub fn query_at(&self, q: &MemoryQuery, at: i64) -> (r: MemoryResult<Vec<MemoryRecord>>)
        ensures
            r matches Ok(v) && record_views(v@) == query_spec(self.records(), q@, at as int),
    {
        let ghost rs = self.records();
        let needle: Option<String> = match &q.text {
            Some(t) => Some(text::lowercase(t.as_str())),
            None => None,
        };
        let subject_key: Option<String> = match &q.subject {
            Some(s) => Some(s.canonical_key()),
            None => None,
        };
        let mut hits: Vec<MemoryRecord> = Vec::new();
        let mut i: usize = 0;
        while i < self.records.len()
            invariant
                i <= self.records@.len(),
                rs == record_views(self.records@),
                needle matches Some(n) ==> q.text matches Some(t) && n@ == text::str_lowercase(t@),
                needle is None ==> q.text is None,
                subject_key matches Some(k) ==> q.subject matches Some(s) && k@ == s.key(),
                subject_key is None ==> q.subject is None,
                record_views(hits@) == matching(rs.take(i as int), q@, at as int),
            decreases self.records@.len() - i,
        {
            let rec = &self.records[i];
            assert(rs[i as int] == rec@);
            assert(rs.take(i + 1).drop_last() =~= rs.take(i as int));
            assert(rs.take(i + 1).last() == rec@);
            let keep = record_passes(q, rec, &needle, &subject_key, at);
            let ghost h0 = record_views(hits@);
            if keep {
                hits.push(rec.clone());
                assert(record_views(hits@) =~= h0.push(rec@));
            }
            i = i + 1;
        }
        assert(rs.take(self.records@.len() as int) =~= rs);
        if hits.len() > q.limit as usize {
            let ghost h0 = record_views(hits@);
            hits.truncate(q.limit as usize);
            assert(record_views(hits@) =~= h0.take(q.limit as int));
        }
        Ok(hits)
    }

    /// Records passing the query now, or at the query's pinned instant.
    pub fn query(&self, q: &MemoryQuery) -> (r: MemoryResult<Vec<MemoryRecord>>)
        ensures
            r matches Ok(v) && exists|at: int|
                record_views(v@) == query_spec(self.records(), q@, at) && (q.valid_at matches Some(t) ==> at == t),
    {
        let at = q.effective_valid_at();
        let r = self.query_at(q, at);
        assert(r matches Ok(v) && record_views(v@) == query_spec(self.records(), q@, at as int));
        r
    }
}

fn record_passes(
    q: &MemoryQuery,
    rec: &MemoryRecord,
    needle: &Option<String>,
    subject_key: &Option<String>,
    at: i64,
) -> (b: bool)
    requires
        needle matches Some(n) ==> q.text matches Some(t) && n@ == text::str_lowercase(t@),
        needle is None ==> q.text is None,
        subject_key matches Some(k) ==> q.subject matches Some(s) && k@ == s.key(),
        subject_key is None ==> q.subject is None,
    ensures
        b == record_matches(q@, rec@, at as int),
{
    if !q.scope.contains(&rec.scope) {
        return false;
    }
    if !q.accepts_type(rec.memory_type) {
        return false;
    }
    if !q.accepts_status(rec.status) {
        return false;
    }
    if let Some(k) = subject_key {
        match &rec.subject {
            Some(s) => {
                let rk = s.canonical_key();
                if !text::str_eq(rk.as_str(), k.as_str()) {
                    return false;
                }
            },
            None => {
                return false;
            },
        }
    }
    if let Some(n) = needle {
        let hay = text::lowercase(rec.content.text.as_str());
        if !text::contains(hay.as_str(), n.as_str()) {
            return false;
        }
    }
    rec.validity().contains(at)
}

} // verus!
