//! Reconciling a derived index with canonical truth.
//!
//! An index entry whose record is no longer canonically active is a
//! ghost and is deleted; an active record the index never saw (or lost)
//! is re-indexed. Repairs are safe to run repeatedly: once applied, the
//! plan for the repaired index is empty.
use crate::id::MemoryId;
use vstd::prelude::*;

verus! {

/// The ids of `active` missing from `indexed`, in the order of `active`.
pub open spec fn missing_spec(active: Seq<MemoryId>, indexed: Seq<MemoryId>) -> Seq<MemoryId>
    decreases active.len(),
{
    if active.len() == 0 {
        Seq::empty()
    } else {
        let r = missing_spec(active.drop_last(), indexed);
        if indexed.contains(active.last()) {
            r
        } else {
            r.push(active.last())
        }
    }
}

/// The entries of `indexed` whose records are in `active`, in order: what
/// deleting the ghosts leaves.
pub open spec fn kept_spec(indexed: Seq<MemoryId>, active: Seq<MemoryId>) -> Seq<MemoryId>
    decreases indexed.len(),
{
    if indexed.len() == 0 {
        Seq::empty()
    } else {
        let r = kept_spec(indexed.drop_last(), active);
        if active.contains(indexed.last()) {
            r.push(indexed.last())
        } else {
            r
        }
    }
}

/// The index after a repair: ghosts deleted, missing records added.
pub open spec fn repaired(active: Seq<MemoryId>, indexed: Seq<MemoryId>) -> Seq<MemoryId> {
    kept_spec(indexed, active) + missing_spec(active, indexed)
}

/// An id is missing exactly when it is active and not indexed.
pub proof fn lemma_missing_members(active: Seq<MemoryId>, indexed: Seq<MemoryId>, x: MemoryId)
    ensures
        missing_spec(active, indexed).contains(x) <==> active.contains(x) && !indexed.contains(x),
    decreases active.len(),
{
    if active.len() > 0 {
        let p = active.drop_last();
        lemma_missing_members(p, indexed, x);
        let m = missing_spec(p, indexed);
        if active.contains(x) && x != active.last() {
            let i = choose|i: int| 0 <= i < active.len() && active[i] == x;
            assert(p[i] == x);
        }
        if p.contains(x) {
            let i = choose|i: int| 0 <= i < p.len() && p[i] == x;
            assert(active[i] == x);
        }
        assert(active[active.len() - 1] == active.last());
        if !indexed.contains(active.last()) {
            assert(m.push(active.last())[m.len() as int] == active.last());
            if m.push(active.last()).contains(x) && x != active.last() {
                let i = choose|i: int| 0 <= i < m.len() + 1 && m.push(active.last())[i] == x;
                assert(m[i] == x);
            }
            if m.contains(x) {
                let i = choose|i: int| 0 <= i < m.len() && m[i] == x;
                assert(m.push(active.last())[i] == x);
            }
        }
    }
}

/// An entry is kept exactly when it is indexed and active.
pub proof fn lemma_kept_members(indexed: Seq<MemoryId>, active: Seq<MemoryId>, x: MemoryId)
    ensures
        kept_spec(indexed, active).contains(x) <==> indexed.contains(x) && active.contains(x),
    decreases indexed.len(),
{
    if indexed.len() > 0 {
        let p = indexed.drop_last();
        lemma_kept_members(p, active, x);
        let k = kept_spec(p, active);
        if indexed.contains(x) && x != indexed.last() {
            let i = choose|i: int| 0 <= i < indexed.len() && indexed[i] == x;
            assert(p[i] == x);
        }
        if p.contains(x) {
            let i = choose|i: int| 0 <= i < p.len() && p[i] == x;
            assert(indexed[i] == x);
        }
        assert(indexed[indexed.len() - 1] == indexed.last());
        if active.contains(indexed.last()) {
            assert(k.push(indexed.last())[k.len() as int] == indexed.last());
            if k.push(indexed.last()).contains(x) && x != indexed.last() {
                let i = choose|i: int| 0 <= i < k.len() + 1 && k.push(indexed.last())[i] == x;
                assert(k[i] == x);
            }
            if k.contains(x) {
                let i = choose|i: int| 0 <= i < k.len() && k[i] == x;
                assert(k.push(indexed.last())[i] == x);
            }
        }
    }
}

proof fn lemma_missing_empty(active: Seq<MemoryId>, indexed: Seq<MemoryId>)
    requires
        forall|x: MemoryId| active.contains(x) ==> indexed.contains(x),
    ensures
        missing_spec(active, indexed).len() == 0,
    decreases active.len(),
{
    if active.len() > 0 {
        let p = active.drop_last();
        assert forall|x: MemoryId| p.contains(x) implies indexed.contains(x) by {
            let i = choose|i: int| 0 <= i < p.len() && p[i] == x;
            assert(active[i] == x);
        }
        lemma_missing_empty(p, indexed);
        assert(active[active.len() - 1] == active.last());
        assert(active.contains(active.last()));
    }
}

/// Repair is idempotent: the repaired index holds exactly the active
/// records, so planning again finds no ghost (every entry is active) and
/// nothing missing.
pub proof fn lemma_repair_idempotent(active: Seq<MemoryId>, indexed: Seq<MemoryId>)
    ensures
        forall|x: MemoryId| #[trigger] repaired(active, indexed).contains(x) <==> active.contains(x),
        missing_spec(active, repaired(active, indexed)).len() == 0,
{
    let k = kept_spec(indexed, active);
    let m = missing_spec(active, indexed);
    let r = repaired(active, indexed);
    assert forall|x: MemoryId| #[trigger] r.contains(x) <==> active.contains(x) by {
        lemma_kept_members(indexed, active, x);
        lemma_missing_members(active, indexed, x);
        if r.contains(x) {
            let i = choose|i: int| 0 <= i < r.len() && r[i] == x;
            if i < k.len() {
                assert(k[i] == x);
            } else {
                assert(m[i - k.len()] == x);
            }
        }
        if active.contains(x) {
            if indexed.contains(x) {
                let i = choose|i: int| 0 <= i < k.len() && k[i] == x;
                assert(r[i] == x);
            } else {
                let i = choose|i: int| 0 <= i < m.len() && m[i] == x;
                assert(r[k.len() + i] == x);
            }
        }
    }
    lemma_missing_empty(active, r);
}

fn contains_id(v: &Vec<MemoryId>, x: MemoryId) -> (b: bool)
    ensures
        b == v@.contains(x),
{
    let mut i: usize = 0;
    while i < v.len()
        invariant
            i <= v@.len(),
            forall|j: int| 0 <= j < i ==> v@[j] != x,
        decreases v@.len() - i,
    {
        if v[i] == x {
            assert(v@[i as int] == x);
            return true;
        }
        i = i + 1;
    }
    false
}

/// Plans an index repair from the canonically active record ids and the
/// ids the index holds: the ghosts to delete (indexed but not active,
/// each once) and the records to re-index (active but not indexed, in
/// the order of `active`).
pub fn index_repair_plan(active: &Vec<MemoryId>, indexed: &Vec<MemoryId>) -> (p: (Vec<MemoryId>, Vec<MemoryId>))
    ensures
        forall|x: MemoryId| #[trigger] p.0@.contains(x) <==> indexed@.contains(x) && !active@.contains(x),
        p.0@.no_duplicates(),
        p.1@ == missing_spec(active@, indexed@),
{
    let mut ghosts: Vec<MemoryId> = Vec::new();
    let mut i: usize = 0;
    while i < indexed.len()
        invariant
            i <= indexed@.len(),
            ghosts@.no_duplicates(),
            forall|x: MemoryId| #[trigger] ghosts@.contains(x) <==> indexed@.take(i as int).contains(x)
                && !active@.contains(x),
        decreases indexed@.len() - i,
    {
        let x = indexed[i];
        let ghost t0 = indexed@.take(i as int);
        let ghost t1 = indexed@.take(i + 1);
        assert(t1 =~= t0.push(x));
        assert forall|y: MemoryId| t1.contains(y) <==> t0.contains(y) || y == x by {
            if t1.contains(y) && y != x {
                let j = choose|j: int| 0 <= j < t1.len() && t1[j] == y;
                assert(t0[j] == y);
            }
            if t0.contains(y) {
                let j = choose|j: int| 0 <= j < t0.len() && t0[j] == y;
                assert(t1[j] == y);
            }
            if y == x {
                assert(t1[i as int] == y);
            }
        }
        let in_active = contains_id(active, x);
        let seen = contains_id(&ghosts, x);
        let ghost gpre = ghosts@;
        assert forall|y: MemoryId| gpre.contains(y) <==> t0.contains(y) && !active@.contains(y) by {
            assert(ghosts@.contains(y) <==> indexed@.take(i as int).contains(y) && !active@.contains(y));
        }
        if !in_active && !seen {
            let ghost g0 = ghosts@;
            ghosts.push(x);
            assert forall|y: MemoryId| ghosts@.contains(y) <==> g0.contains(y) || y == x by {
                if ghosts@.contains(y) && y != x {
                    let j = choose|j: int| 0 <= j < ghosts@.len() && ghosts@[j] == y;
                    assert(g0[j] == y);
                }
                if g0.contains(y) {
                    let j = choose|j: int| 0 <= j < g0.len() && g0[j] == y;
                    assert(ghosts@[j] == y);
                }
                if y == x {
                    assert(ghosts@[g0.len() as int] == y);
                }
            }
            assert forall|a: int, b: int| 0 <= a < b < ghosts@.len() implies ghosts@[a] != ghosts@[b] by {
                if b == g0.len() {
                    assert(g0[a] == ghosts@[a]);
                    assert(g0.contains(ghosts@[a]));
                } else {
                    assert(ghosts@[a] == g0[a] && ghosts@[b] == g0[b]);
                }
            }
        }
        assert(in_active || seen ==> ghosts@ == gpre);
        assert(!in_active && !seen ==> forall|y: MemoryId| ghosts@.contains(y) <==> gpre.contains(y) || y == x);
        assert forall|y: MemoryId| #[trigger] ghosts@.contains(y) <==> t1.contains(y) && !active@.contains(y) by {
            assert(t1.contains(y) <==> t0.contains(y) || y == x);
            assert(gpre.contains(y) <==> t0.contains(y) && !active@.contains(y));
            if !in_active && !seen {
                assert(ghosts@.contains(y) <==> gpre.contains(y) || y == x);
            }
        }
        i = i + 1;
    }
    assert(indexed@.take(indexed@.len() as int) =~= indexed@);
    let mut missing: Vec<MemoryId> = Vec::new();
    let mut j: usize = 0;
    while j < active.len()
        invariant
            j <= active@.len(),
            missing@ == missing_spec(active@.take(j as int), indexed@),
        decreases active@.len() - j,
    {
        let x = active[j];
        assert(active@.take(j + 1).drop_last() =~= active@.take(j as int));
        assert(active@.take(j + 1).last() == x);
        if !contains_id(indexed, x) {
            missing.push(x);
        }
        j = j + 1;
    }
    assert(active@.take(active@.len() as int) =~= active@);
    (ghosts, missing)
}

} // verus!
