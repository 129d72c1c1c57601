//! Volatile session state with time-to-live.
//!
//! Working memory mirrors live sessions: an entry vanishes once its
//! time-to-live has run out, whether or not anyone deleted it.
use crate::error::MemoryResult;
use crate::text;
use vstd::prelude::*;
use vstd::string::*;

verus! {

/// Session state: the session it belongs to and its data as JSON text.
#[derive(Debug, PartialEq, Eq)]
pub struct WorkingMemoryState {
    pub session_id: String,
    /// Caller data, as JSON text the engine does not interpret.
    pub data: String,
}

impl WorkingMemoryState {
    /// Fresh state for a session.
    pub fn initial(session_id: &str, data: &str) -> (s: Self)
        ensures
            s.session_id@ == session_id@,
            s.data@ == data@,
    {
        WorkingMemoryState { session_id: String::from_str(session_id), data: String::from_str(data) }
    }
}

impl Clone for WorkingMemoryState {
    fn clone(&self) -> (r: Self)
        ensures
            r == *self,
    {
        WorkingMemoryState { session_id: self.session_id.clone(), data: self.data.clone() }
    }
}

/// A stored entry: session, data and the instant it expires.
pub struct WorkingEntry {
    pub session: Seq<char>,
    pub data: Seq<char>,
    pub expires_at: int,
}

/// The entry for `session`, if stored.
pub open spec fn entry_of(entries: Seq<WorkingEntry>, session: Seq<char>) -> Option<WorkingEntry> {
    if exists|i: int| 0 <= i < entries.len() && (#[trigger] entries[i]).session == session {
        Some(entries[choose|i: int| 0 <= i < entries.len() && (#[trigger] entries[i]).session == session])
    } else {
        None
    }
}

/// No two entries share a session.
pub open spec fn sessions_unique(entries: Seq<WorkingEntry>) -> bool {
    forall|i: int, j: int|
        0 <= i < entries.len() && 0 <= j < entries.len() && i != j ==> (#[trigger] entries[i]).session
            != (#[trigger] entries[j]).session
}

/// The live state of `session` at `now`: stored and not yet expired.
pub open spec fn live_state(entries: Seq<WorkingEntry>, session: Seq<char>, now: int) -> Option<Seq<char>> {
    match entry_of(entries, session) {
        Some(e) => if now < e.expires_at {
            Some(e.data)
        } else {
            None
        },
        None => None,
    }
}

/// Expiry instant for a time-to-live, saturating at the largest instant.
pub open spec fn expiry(now: int, ttl_ms: int) -> int {
    if now + ttl_ms > i64::MAX {
        i64::MAX as int
    } else {
        now + ttl_ms
    }
}

/// In-process working-memory storage, one entry per session.
#[derive(Debug)]
pub struct InProcessWorkingStore {
    namespace: String,
    states: Vec<WorkingMemoryState>,
    expires: Vec<i64>,
}

proof fn lemma_entry_at(entries: Seq<WorkingEntry>, session: Seq<char>, i: int)
    requires
        sessions_unique(entries),
        0 <= i < entries.len(),
        entries[i].session == session,
    ensures
        entry_of(entries, session) == Some(entries[i]),
{
}

proof fn lemma_replace_entry(before: Seq<WorkingEntry>, i: int, e: WorkingEntry)
    requires
        sessions_unique(before),
        0 <= i < before.len(),
        before[i].session == e.session,
    ensures
        sessions_unique(before.update(i, e)),
        forall|s: Seq<char>| #[trigger] entry_of(before.update(i, e), s) == (if s == e.session {
            Some(e)
        } else {
            entry_of(before, s)
        }),
{
    let after = before.update(i, e);
    assert forall|a: int, b: int| 0 <= a < after.len() && 0 <= b < after.len() && a != b implies (
    #[trigger] after[a]).session != (#[trigger] after[b]).session by {
        assert(after[a].session == before[a].session);
        assert(after[b].session == before[b].session);
    }
    assert forall|s: Seq<char>| #[trigger] entry_of(after, s) == (if s == e.session {
        Some(e)
    } else {
        entry_of(before, s)
    }) by {
        if s == e.session {
            lemma_entry_at(after, s, i);
        } else if exists|k: int| 0 <= k < before.len() && (#[trigger] before[k]).session == s {
            let k = choose|k: int| 0 <= k < before.len() && (#[trigger] before[k]).session == s;
            lemma_entry_at(before, s, k);
            assert(k != i);
            assert(after[k] == before[k]);
            lemma_entry_at(after, s, k);
        } else {
            assert forall|k: int| 0 <= k < after.len() implies (#[trigger] after[k]).session != s by {
                assert(after[k].session == before[k].session);
            }
        }
    }
}

proof fn lemma_add_entry(before: Seq<WorkingEntry>, e: WorkingEntry)
    requires
        sessions_unique(before),
        entry_of(before, e.session) is None,
    ensures
        sessions_unique(before.push(e)),
        forall|s: Seq<char>| #[trigger] entry_of(before.push(e), s) == (if s == e.session {
            Some(e)
        } else {
            entry_of(before, s)
        }),
{
    let after = before.push(e);
    assert forall|a: int, b: int| 0 <= a < after.len() && 0 <= b < after.len() && a != b implies (
    #[trigger] after[a]).session != (#[trigger] after[b]).session by {
        if a < before.len() {
            assert(after[a] == before[a]);
        }
        if b < before.len() {
            assert(after[b] == before[b]);
        }
    }
    assert forall|s: Seq<char>| #[trigger] entry_of(after, s) == (if s == e.session {
        Some(e)
    } else {
        entry_of(before, s)
    }) by {
        if s == e.session {
            lemma_entry_at(after, s, before.len() as int);
        } else if exists|k: int| 0 <= k < before.len() && (#[trigger] before[k]).session == s {
            let k = choose|k: int| 0 <= k < before.len() && (#[trigger] before[k]).session == s;
            lemma_entry_at(before, s, k);
            assert(after[k] == before[k]);
            lemma_entry_at(after, s, k);
        } else {
            assert forall|k: int| 0 <= k < after.len() implies (#[trigger] after[k]).session != s by {
                if k < before.len() {
                    assert(after[k] == before[k]);
                }
            }
        }
    }
}

proof fn lemma_remove_entry(before: Seq<WorkingEntry>, i: int)
    requires
        sessions_unique(before),
        0 <= i < before.len(),
    ensures
        sessions_unique(before.remove(i)),
        forall|s: Seq<char>| #[trigger] entry_of(before.remove(i), s) == (if s == before[i].session {
            None
        } else {
            entry_of(before, s)
        }),
{
    let after = before.remove(i);
    assert forall|a: int, b: int| 0 <= a < after.len() && 0 <= b < after.len() && a != b implies (
    #[trigger] after[a]).session != (#[trigger] after[b]).session by {
        let a2 = if a < i { a } else { a + 1 };
        let b2 = if b < i { b } else { b + 1 };
        assert(after[a] == before[a2] && after[b] == before[b2]);
    }
    assert forall|s: Seq<char>| #[trigger] entry_of(after, s) == (if s == before[i].session {
        None
    } else {
        entry_of(before, s)
    }) by {
        if s == before[i].session {
            assert forall|k: int| 0 <= k < after.len() implies (#[trigger] after[k]).session != s by {
                let k2 = if k < i { k } else { k + 1 };
                assert(after[k] == before[k2]);
            }
        } else if exists|k: int| 0 <= k < before.len() && (#[trigger] before[k]).session == s {
            let k = choose|k: int| 0 <= k < before.len() && (#[trigger] before[k]).session == s;
            lemma_entry_at(before, s, k);
            let k2 = if k < i { k } else { k - 1 };
            assert(after[k2] == before[k]);
            lemma_entry_at(after, s, k2);
        } else {
            assert forall|k: int| 0 <= k < after.len() implies (#[trigger] after[k]).session != s by {
                let k2 = if k < i { k } else { k + 1 };
                assert(after[k] == before[k2]);
            }
        }
    }
}

impl InProcessWorkingStore {
    /// The stored entries.
    pub closed spec fn entries(&self) -> Seq<WorkingEntry> {
        Seq::new(
            self.states@.len(),
            |i: int|
                WorkingEntry {
                    session: self.states@[i].session_id@,
                    data: self.states@[i].data@,
                    expires_at: self.expires@[i] as int,
                },
        )
    }

    /// The namespace the store was opened for.
    pub closed spec fn namespace_view(&self) -> Seq<char> {
        self.namespace@
    }

    /// Parallel vectors of equal length, one entry per session.
    pub closed spec fn wf(&self) -> bool {
        self.states@.len() == self.expires@.len() && sessions_unique(self.entries())
    }

    /// An empty store for `namespace`.
    pub fn new(namespace: &str) -> (s: Self)
        ensures
            s.wf(),
            s.entries().len() == 0,
            s.namespace_view() == namespace@,
    {
        let s = InProcessWorkingStore { namespace: String::from_str(namespace), states: Vec::new(), expires: Vec::new() };
        assert(s.entries() =~= Seq::<WorkingEntry>::empty());
        s
    }

    /// Provider name for logs.
    pub fn name(&self) -> (n: &'static str)
        ensures
            n@ == "in-process"@,
    {
        "in-process"
    }

    fn find(&self, session_id: &str) -> (r: Option<usize>)
        requires
            self.wf(),
        ensures
            match r {
                Some(i) => i < self.entries().len() && self.entries()[i as int].session == session_id@,
                None => entry_of(self.entries(), session_id@) is None,
            },
    {
        let ghost es = self.entries();
        let mut i: usize = 0;
        while i < self.states.len()
            invariant
                i <= self.states@.len(),
                es == self.entries(),
                es.len() == self.states@.len(),
                forall|k: int| 0 <= k < i ==> (#[trigger] es[k]).session != session_id@,
            decreases self.states@.len() - i,
        {
            if text::str_eq(self.states[i].session_id.as_str(), session_id) {
                return Some(i);
            }
            i = i + 1;
        }
        None
    }

    /// Writes session state that expires `ttl_ms` milliseconds after
    /// `now`, replacing any earlier state of the session.
    pub fn set_at(&mut self, state: &WorkingMemoryState, ttl_ms: u64, now: i64) -> (r: MemoryResult<()>)
        requires
            old(self).wf(),
        ensures
            r is Ok,
            final(self).wf(),
            forall|t: int| #[trigger] live_state(final(self).entries(), state.session_id@, t) == (if t < expiry(now as int, ttl_ms as int) {
                Some(state.data@)
            } else {
                None::<Seq<char>>
            }),
            forall|s: Seq<char>, t: int| s != state.session_id@ ==> #[trigger] live_state(final(self).entries(), s, t)
                == live_state(old(self).entries(), s, t),
    {
        let sum: i128 = now as i128 + ttl_ms as i128;
        let until: i64 = if sum > i64::MAX as i128 {
            i64::MAX
        } else {
            sum as i64
        };
        let ghost before = self.entries();
        let ghost e = WorkingEntry { session: state.session_id@, data: state.data@, expires_at: until as int };
        match self.find(state.session_id.as_str()) {
            Some(i) => {
                self.states.set(i, state.clone());
                self.expires.set(i, until);
                assert(self.entries() =~= before.update(i as int, e));
                proof {
                    lemma_replace_entry(before, i as int, e);
                }
            },
            None => {
                self.states.push(state.clone());
                self.expires.push(until);
                assert(self.entries() =~= before.push(e));
                proof {
                    lemma_add_entry(before, e);
                }
            },
        }
        Ok(())
    }

    /// The state of a session, if stored and not expired at `now`.
    pub fn get_at(&self, session_id: &str, now: i64) -> (r: MemoryResult<Option<WorkingMemoryState>>)
        requires
            self.wf(),
        ensures
            r matches Ok(o) && match o {
                Some(s) => s.session_id@ == session_id@ && live_state(self.entries(), session_id@, now as int)
                    == Some(s.data@),
                None => live_state(self.entries(), session_id@, now as int) is None,
            },
    {
        match self.find(session_id) {
            Some(i) => {
                proof {
                    lemma_entry_at(self.entries(), session_id@, i as int);
                }
                if now < self.expires[i] {
                    Ok(Some(self.states[i].clone()))
                } else {
                    Ok(None)
                }
            },
            None => Ok(None),
        }
    }

    /// Drops a session's state immediately.
    pub fn delete(&mut self, session_id: &str) -> (r: MemoryResult<()>)
        requires
            old(self).wf(),
        ensures
            r is Ok,
            final(self).wf(),
            forall|t: int| #[trigger] live_state(final(self).entries(), session_id@, t) is None,
            forall|s: Seq<char>, t: int| s != session_id@ ==> #[trigger] live_state(final(self).entries(), s, t)
                == live_state(old(self).entries(), s, t),
    {
        let ghost before = self.entries();
        match self.find(session_id) {
            Some(i) => {
                self.states.remove(i);
                self.expires.remove(i);
                assert(self.entries() =~= before.remove(i as int));
                proof {
                    lemma_remove_entry(before, i as int);
                }
            },
            None => {},
        }
        Ok(())
    }
}

} // verus!
