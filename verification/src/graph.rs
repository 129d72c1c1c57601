//! Entities, relations and the embedded graph store.
//!
//! Every edge points at the canonical memory that justifies it; edges
//! without evidence are unverifiable and rejected at write time.
use crate::error::{self, MemoryError, MemoryResult};
use crate::id::MemoryId;
use crate::subject::{self, MemorySubject};
use crate::text;
use vstd::prelude::*;
use vstd::string::*;

verus! {

/// Stable key for an entity: `type:id`, mirroring the canonical keys
/// of subjects so that subjects resolve to entities without a mapping
/// table.
#[derive(Debug, PartialEq, Eq, Hash)]
pub struct EntityKey(pub String);

impl EntityKey {
    /// Builds a key from parts: the type is trimmed and lowercased, the
    /// id trimmed but case-preserved.
    pub fn new(entity_type: Option<&str>, id: &str) -> (k: Self)
        ensures
            k.0@ == subject::canonical_key_of(
                match entity_type {
                    Some(t) => Some(t@),
                    None => None,
                },
                id@,
            ),
    {
        match entity_type {
            Some(t) => {
                let tt = text::trim(t);
                let lt = text::lowercase(tt.as_str());
                let i = text::trim(id);
                EntityKey(text::concat3(lt.as_str(), ":", i.as_str()))
            },
            None => EntityKey(text::trim(id)),
        }
    }

    /// Key from a canonical subject; equal to the subject's canonical key.
    pub fn from_subject(subject: &MemorySubject) -> (k: Self)
        ensures
            k.0@ == subject.key(),
    {
        match &subject.entity_type {
            Some(t) => EntityKey::new(Some(t.as_str()), subject.entity_id.as_str()),
            None => EntityKey::new(None, subject.entity_id.as_str()),
        }
    }

    /// The key's text.
    pub fn to_display(&self) -> (s: String)
        ensures
            s@ == self.0@,
    {
        self.0.clone()
    }
}

impl Clone for EntityKey {
    fn clone(&self) -> (r: Self)
        ensures
            r == *self,
    {
        EntityKey(self.0.clone())
    }
}

/// A node in the entity graph.
#[derive(Debug, PartialEq)]
pub struct Entity {
    pub key: EntityKey,
    pub display_name: String,
}

impl Clone for Entity {
    fn clone(&self) -> (r: Self)
        ensures
            r == *self,
    {
        Entity { key: self.key.clone(), display_name: self.display_name.clone() }
    }
}

/// A directed, typed edge between entities, backed by the canonical
/// memory given as evidence.
#[derive(Debug, PartialEq)]
pub struct Relation {
    /// Canonical memory this edge is backed by.
    pub evidence: MemoryId,
    pub from: EntityKey,
    pub relation_type: String,
    pub to: EntityKey,
}

/// Mathematical view of a relation.
pub struct RelationView {
    pub evidence: MemoryId,
    pub from: Seq<char>,
    pub relation_type: Seq<char>,
    pub to: Seq<char>,
}

impl View for Relation {
    type V = RelationView;

    open spec fn view(&self) -> RelationView {
        RelationView {
            evidence: self.evidence,
            from: self.from.0@,
            relation_type: self.relation_type@,
            to: self.to.0@,
        }
    }
}

impl Clone for Relation {
    fn clone(&self) -> (r: Self)
        ensures
            r == *self,
    {
        Relation {
            evidence: self.evidence,
            from: self.from.clone(),
            relation_type: self.relation_type.clone(),
            to: self.to.clone(),
        }
    }
}

/// Why a relation is refused, if it is: empty endpoints or a blank
/// type, then self-relations.
pub open spec fn relation_problem(from: Seq<char>, relation_type: Seq<char>, to: Seq<char>) -> Option<Seq<char>> {
    if from.len() == 0 || to.len() == 0 || text::blank_spec(relation_type) {
        Some("entities and relation type must not be empty"@)
    } else if from == to {
        Some("self-relations carry no information"@)
    } else {
        None
    }
}

impl Relation {
    /// Creates a validated relation ("Atlas" -USES-> "PostgreSQL"); the
    /// type is uppercased.
    pub fn new(evidence: MemoryId, from: EntityKey, relation_type: &str, to: EntityKey) -> (r: Result<
        Self,
        MemoryError,
    >)
        ensures
            match relation_problem(from.0@, relation_type@, to.0@) {
                Some(reason) => r matches Err(e) && error::is_validation(e, "relation"@, reason),
                None => r matches Ok(rel) && rel@ == (RelationView {
                    evidence,
                    from: from.0@,
                    relation_type: text::str_uppercase(relation_type@),
                    to: to.0@,
                }),
            },
    {
        if from.0.as_str().unicode_len() == 0 || to.0.as_str().unicode_len() == 0 || text::is_blank(
            relation_type,
        ) {
            return Err(MemoryError::validation("relation", "entities and relation type must not be empty"));
        }
        if text::str_eq(from.0.as_str(), to.0.as_str()) {
            return Err(MemoryError::validation("relation", "self-relations carry no information"));
        }
        Ok(Relation { evidence, from, relation_type: text::uppercase(relation_type), to })
    }
}

/// Edge direction relative to the queried entity.
#[derive(Clone, Copy, Debug, PartialEq, Eq, Structural)]
pub enum Direction {
    Outgoing,
    Incoming,
}

/// Views of a sequence of relations.
pub open spec fn relation_views(v: Seq<Relation>) -> Seq<RelationView> {
    v.map_values(|r: Relation| r@)
}

/// The edges leaving `key`, in insertion order.
pub open spec fn edges_from(edges: Seq<RelationView>, key: Seq<char>) -> Seq<RelationView>
    decreases edges.len(),
{
    if edges.len() == 0 {
        Seq::empty()
    } else {
        let r = edges_from(edges.drop_last(), key);
        if edges.last().from == key {
            r.push(edges.last())
        } else {
            r
        }
    }
}

/// The edges entering `key`, in insertion order.
pub open spec fn edges_to(edges: Seq<RelationView>, key: Seq<char>) -> Seq<RelationView>
    decreases edges.len(),
{
    if edges.len() == 0 {
        Seq::empty()
    } else {
        let r = edges_to(edges.drop_last(), key);
        if edges.last().to == key {
            r.push(edges.last())
        } else {
            r
        }
    }
}

/// The edges not justified by `evidence`, in insertion order.
pub open spec fn edges_without(edges: Seq<RelationView>, evidence: MemoryId) -> Seq<RelationView>
    decreases edges.len(),
{
    if edges.len() == 0 {
        Seq::empty()
    } else {
        let r = edges_without(edges.drop_last(), evidence);
        if edges.last().evidence != evidence {
            r.push(edges.last())
        } else {
            r
        }
    }
}

/// Adding an edge: appended unless an equal edge is already stored.
pub open spec fn with_edge(edges: Seq<RelationView>, r: RelationView) -> Seq<RelationView> {
    if edges.contains(r) {
        edges
    } else {
        edges.push(r)
    }
}

/// The entities after upserting `e`: any entity with the same key is
/// replaced in place, otherwise `e` is appended.
pub open spec fn with_entity(entities: Seq<(Seq<char>, Seq<char>)>, e: (Seq<char>, Seq<char>)) -> Seq<
    (Seq<char>, Seq<char>),
> {
    if exists|i: int| 0 <= i < entities.len() && (#[trigger] entities[i]).0 == e.0 {
        entities.update(choose|i: int| 0 <= i < entities.len() && (#[trigger] entities[i]).0 == e.0, e)
    } else {
        entities.push(e)
    }
}

/// No two entities share a key.
pub open spec fn keys_unique(entities: Seq<(Seq<char>, Seq<char>)>) -> bool {
    forall|i: int, j: int|
        0 <= i < entities.len() && 0 <= j < entities.len() && i != j ==> (#[trigger] entities[i]).0
            != (#[trigger] entities[j]).0
}

/// No edge is stored twice.
pub open spec fn edges_distinct(edges: Seq<RelationView>) -> bool {
    forall|i: int, j: int|
        0 <= i < edges.len() && 0 <= j < edges.len() && i != j ==> edges[i] != edges[j]
}

/// Thread-confined adjacency-list graph: entities keyed uniquely, edges
/// stored once each, in insertion order.
#[derive(Debug)]
pub struct InMemoryGraphStore {
    entities: Vec<Entity>,
    edges: Vec<Relation>,
}

impl InMemoryGraphStore {
    /// The stored entities as (key, display name) pairs.
    pub closed spec fn entity_views(&self) -> Seq<(Seq<char>, Seq<char>)> {
        self.entities@.map_values(|e: Entity| (e.key.0@, e.display_name@))
    }

    /// The stored edges, in insertion order.
    pub closed spec fn edge_views(&self) -> Seq<RelationView> {
        relation_views(self.edges@)
    }

    /// Keys unique and edges distinct.
    pub open spec fn wf(&self) -> bool {
        keys_unique(self.entity_views()) && edges_distinct(self.edge_views())
    }

    /// An empty graph.
    pub fn new() -> (g: Self)
        ensures
            g.wf(),
            g.entity_views().len() == 0,
            g.edge_views().len() == 0,
    {
        let g = InMemoryGraphStore { entities: Vec::new(), edges: Vec::new() };
        assert(g.entity_views() =~= Seq::empty());
        assert(g.edge_views() =~= Seq::empty());
        g
    }

    /// Provider name for logs.
    pub fn name(&self) -> (n: &'static str)
        ensures
            n@ == "in-memory"@,
    {
        "in-memory"
    }

    /// Number of edges.
    pub fn edge_count(&self) -> (n: usize)
        ensures
            n == self.edge_views().len(),
    {
        self.edges.len()
    }

    /// Inserts or updates an entity node; a blank display name is
    /// refused.
    pub fn upsert_entity(&mut self, entity: &Entity) -> (r: MemoryResult<()>)
        requires
            old(self).wf(),
        ensures
            final(self).wf(),
            final(self).edge_views() == old(self).edge_views(),
            text::blank_spec(entity.display_name@) ==> (r matches Err(e) && error::is_validation(
                e,
                "display_name"@,
                "must not be empty"@,
            )) && final(self).entity_views() == old(self).entity_views(),
            !text::blank_spec(entity.display_name@) ==> r is Ok && final(self).entity_views()
                == with_entity(old(self).entity_views(), (entity.key.0@, entity.display_name@)),
    {
        if text::is_blank(entity.display_name.as_str()) {
            return Err(MemoryError::validation("display_name", "must not be empty"));
        }
        let ghost before = self.entity_views();
        let ghost e = (entity.key.0@, entity.display_name@);
        let mut i: usize = 0;
        while i < self.entities.len()
            invariant
                i <= self.entities@.len(),
                self.entity_views() == before,
                self.edge_views() == old(self).edge_views(),
                before == old(self).entity_views(),
                old(self).wf(),
                e == (entity.key.0@, entity.display_name@),
                !text::blank_spec(entity.display_name@),
                keys_unique(before),
                forall|k: int| 0 <= k < i ==> (#[trigger] before[k]).0 != e.0,
            decreases self.entities@.len() - i,
        {
            assert(before[i as int] == (self.entities@[i as int].key.0@, self.entities@[i as int].display_name@));
            let same = text::str_eq(self.entities[i].key.0.as_str(), entity.key.0.as_str());
            assert(same == (self.entities@[i as int].key.0@ == entity.key.0@));
            if same {
                assert(before[i as int].0 == e.0);
                let ghost w = choose|j: int| 0 <= j < before.len() && (#[trigger] before[j]).0 == e.0;
                assert(w == i);
                self.entities.set(i, entity.clone());
                assert(self.entity_views() =~= before.update(i as int, e));
                return Ok(());
            }
            i = i + 1;
        }
        self.entities.push(entity.clone());
        assert(self.entity_views() =~= before.push(e));
        Ok(())
    }

    /// Adds a relation edge; adding an edge that is already stored
    /// changes nothing.
    pub fn add_relation(&mut self, relation: &Relation) -> (r: MemoryResult<()>)
        requires
            old(self).wf(),
        ensures
            r is Ok,
            final(self).wf(),
            final(self).entity_views() == old(self).entity_views(),
            final(self).edge_views() == with_edge(old(self).edge_views(), relation@),
    {
        let ghost before = self.edge_views();
        let mut i: usize = 0;
        while i < self.edges.len()
            invariant
                i <= self.edges@.len(),
                before == relation_views(self.edges@),
                before == old(self).edge_views(),
                old(self).wf(),
                self.entity_views() == old(self).entity_views(),
                forall|k: int| 0 <= k < i ==> before[k] != relation@,
            decreases self.edges@.len() - i,
        {
            let e = &self.edges[i];
            if e.evidence == relation.evidence && text::str_eq(e.from.0.as_str(), relation.from.0.as_str())
                && text::str_eq(e.relation_type.as_str(), relation.relation_type.as_str()) && text::str_eq(
                e.to.0.as_str(),
                relation.to.0.as_str(),
            ) {
                assert(before[i as int] == relation@);
                assert(before.contains(relation@));
                return Ok(());
            }
            i = i + 1;
        }
        assert(!before.contains(relation@));
        self.edges.push(relation.clone());
        assert(self.edge_views() =~= before.push(relation@));
        Ok(())
    }

    /// Outgoing relations from an entity, in insertion order.
    pub fn relations_from(&self, key: &EntityKey) -> (r: MemoryResult<Vec<Relation>>)
        ensures
            r matches Ok(v) && relation_views(v@) == edges_from(self.edge_views(), key.0@),
    {
        let mut out: Vec<Relation> = Vec::new();
        let mut i: usize = 0;
        while i < self.edges.len()
            invariant
                i <= self.edges@.len(),
                relation_views(out@) == edges_from(relation_views(self.edges@).take(i as int), key.0@),
            decreases self.edges@.len() - i,
        {
            let ghost all = relation_views(self.edges@);
            assert(all.take(i + 1).drop_last() =~= all.take(i as int));
            let ghost o0 = relation_views(out@);
            if text::str_eq(self.edges[i].from.0.as_str(), key.0.as_str()) {
                out.push(self.edges[i].clone());
                assert(relation_views(out@) =~= o0.push(all[i as int]));
            }
            i = i + 1;
        }
        assert(relation_views(self.edges@).take(self.edges@.len() as int) =~= relation_views(self.edges@));
        Ok(out)
    }

    /// Incoming relations to an entity, in insertion order.
    pub fn relations_to(&self, key: &EntityKey) -> (r: MemoryResult<Vec<Relation>>)
        ensures
            r matches Ok(v) && relation_views(v@) == edges_to(self.edge_views(), key.0@),
    {
        let mut out: Vec<Relation> = Vec::new();
        let mut i: usize = 0;
        while i < self.edges.len()
            invariant
                i <= self.edges@.len(),
                relation_views(out@) == edges_to(relation_views(self.edges@).take(i as int), key.0@),
            decreases self.edges@.len() - i,
        {
            let ghost all = relation_views(self.edges@);
            assert(all.take(i + 1).drop_last() =~= all.take(i as int));
            let ghost o0 = relation_views(out@);
            if text::str_eq(self.edges[i].to.0.as_str(), key.0.as_str()) {
                out.push(self.edges[i].clone());
                assert(relation_views(out@) =~= o0.push(all[i as int]));
            }
            i = i + 1;
        }
        assert(relation_views(self.edges@).take(self.edges@.len() as int) =~= relation_views(self.edges@));
        Ok(out)
    }

    /// Removes all edges justified by one canonical memory (used when
    /// that memory is forgotten or purged); the others keep their order.
    pub fn remove_evidence(&mut self, evidence: &MemoryId) -> (r: MemoryResult<()>)
        requires
            old(self).wf(),
        ensures
            r is Ok,
            final(self).wf(),
            final(self).entity_views() == old(self).entity_views(),
            final(self).edge_views() == edges_without(old(self).edge_views(), *evidence),
    {
        let ghost before = self.edge_views();
        let mut kept: Vec<Relation> = Vec::new();
        let mut i: usize = 0;
        while i < self.edges.len()
            invariant
                i <= self.edges@.len(),
                before == relation_views(self.edges@),
                edges_distinct(before),
                relation_views(kept@) == edges_without(before.take(i as int), *evidence),
                forall|a: int| 0 <= a < kept@.len() ==> exists|b: int| 0 <= b < i && before[b] == #[trigger] relation_views(kept@)[a],
                edges_distinct(relation_views(kept@)),
            decreases self.edges@.len() - i,
        {
            assert(before.take(i + 1).drop_last() =~= before.take(i as int));
            let ghost k0 = relation_views(kept@);
            if self.edges[i].evidence != *evidence {
                kept.push(self.edges[i].clone());
                assert(relation_views(kept@) =~= k0.push(before[i as int]));
                assert forall|a: int| 0 <= a < kept@.len() implies exists|b: int| 0 <= b < i + 1 && before[b] == #[trigger] relation_views(kept@)[a] by {
                    if a == k0.len() {
                        assert(before[i as int] == relation_views(kept@)[a]);
                    } else {
                        assert(relation_views(kept@)[a] == k0[a]);
                    }
                }
                assert forall|a: int, c: int| 0 <= a < kept@.len() && 0 <= c < kept@.len() && a != c implies relation_views(kept@)[a] != relation_views(kept@)[c] by {
                    if a == k0.len() || c == k0.len() {
                        let o = if a == k0.len() { c } else { a };
                        assert(relation_views(kept@)[o] == k0[o]);
                        let b = choose|b: int| 0 <= b < i && before[b] == #[trigger] k0[o];
                        assert(before[b] != before[i as int]);
                    } else {
                        assert(relation_views(kept@)[a] == k0[a]);
                        assert(relation_views(kept@)[c] == k0[c]);
                    }
                }
            }
            i = i + 1;
        }
        assert(before.take(before.len() as int) =~= before);
        let ghost ents = self.entity_views();
        self.edges = kept;
        assert(self.entity_views() == ents);
        Ok(())
    }
}

/// Each relation tagged with direction `d`.
pub open spec fn tag_all(s: Seq<RelationView>, d: Direction) -> Seq<(RelationView, Direction)> {
    s.map_values(|r: RelationView| (r, d))
}

/// The neighbourhood of `key`: outgoing edges first, then incoming ones,
/// each with its direction.
pub open spec fn neighbors_spec(edges: Seq<RelationView>, key: Seq<char>) -> Seq<(RelationView, Direction)> {
    tag_all(edges_from(edges, key), Direction::Outgoing) + tag_all(edges_to(edges, key), Direction::Incoming)
}

/// Views of direction-tagged relations.
pub open spec fn tagged_views(v: Seq<(Relation, Direction)>) -> Seq<(RelationView, Direction)> {
    v.map_values(|p: (Relation, Direction)| (p.0@, p.1))
}

/// One-hop neighbourhood query composed from the two directions.
pub fn neighbors(graph: &InMemoryGraphStore, key: &EntityKey) -> (r: MemoryResult<Vec<(Relation, Direction)>>)
    ensures
        r matches Ok(v) && tagged_views(v@) == neighbors_spec(graph.edge_views(), key.0@),
{
    let mut out: Vec<(Relation, Direction)> = Vec::new();
    let from = match graph.relations_from(key) {
        Ok(v) => v,
        Err(e) => return Err(e),
    };
    let to = match graph.relations_to(key) {
        Ok(v) => v,
        Err(e) => return Err(e),
    };
    let ghost fv = relation_views(from@);
    let ghost tv = relation_views(to@);
    let mut i: usize = 0;
    while i < from.len()
        invariant
            i <= from@.len(),
            fv == relation_views(from@),
            tagged_views(out@) == tag_all(fv.take(i as int), Direction::Outgoing),
        decreases from@.len() - i,
    {
        let ghost o0 = tagged_views(out@);
        out.push((from[i].clone(), Direction::Outgoing));
        assert(tagged_views(out@) =~= o0.push((fv[i as int], Direction::Outgoing)));
        assert(tag_all(fv.take(i + 1), Direction::Outgoing) =~= tag_all(fv.take(i as int), Direction::Outgoing).push(
            (fv[i as int], Direction::Outgoing),
        ));
        i = i + 1;
    }
    assert(fv.take(fv.len() as int) =~= fv);
    let ghost head = tagged_views(out@);
    let mut j: usize = 0;
    while j < to.len()
        invariant
            j <= to@.len(),
            tv == relation_views(to@),
            tagged_views(out@) == head + tag_all(tv.take(j as int), Direction::Incoming),
        decreases to@.len() - j,
    {
        let ghost o0 = tagged_views(out@);
        out.push((to[j].clone(), Direction::Incoming));
        assert(tagged_views(out@) =~= o0.push((tv[j as int], Direction::Incoming)));
        assert(tag_all(tv.take(j + 1), Direction::Incoming) =~= tag_all(tv.take(j as int), Direction::Incoming).push(
            (tv[j as int], Direction::Incoming),
        ));
        assert(tagged_views(out@) =~= head + tag_all(tv.take(j + 1), Direction::Incoming));
        j = j + 1;
    }
    assert(tv.take(tv.len() as int) =~= tv);
    Ok(out)
}

/// An edge is listed from `key` exactly when it is stored and leaves
/// `key`.
pub proof fn lemma_edges_from_members(edges: Seq<RelationView>, key: Seq<char>, r: RelationView)
    ensures
        edges_from(edges, key).contains(r) <==> edges.contains(r) && r.from == key,
    decreases edges.len(),
{
    if edges.len() > 0 {
        lemma_edges_from_members(edges.drop_last(), key, r);
        assert(edges =~= edges.drop_last().push(edges.last()));
        if edges.contains(r) && r != edges.last() {
            let i = choose|i: int| 0 <= i < edges.len() && edges[i] == r;
            assert(edges.drop_last()[i] == r);
        }
        if edges.drop_last().contains(r) {
            let i = choose|i: int| 0 <= i < edges.drop_last().len() && edges.drop_last()[i] == r;
            assert(edges[i] == r);
        }
        let t = edges_from(edges.drop_last(), key);
        if edges.last().from == key {
            assert(t.push(edges.last())[t.len() as int] == edges.last());
            if t.push(edges.last()).contains(r) && r != edges.last() {
                let i = choose|i: int| 0 <= i < t.len() + 1 && t.push(edges.last())[i] == r;
                assert(t[i] == r);
            }
            if t.contains(r) {
                let i = choose|i: int| 0 <= i < t.len() && t[i] == r;
                assert(t.push(edges.last())[i] == r);
            }
        }
        assert(edges[edges.len() - 1] == edges.last());
    }
}

/// An edge is listed to `key` exactly when it is stored and enters
/// `key`.
pub proof fn lemma_edges_to_members(edges: Seq<RelationView>, key: Seq<char>, r: RelationView)
    ensures
        edges_to(edges, key).contains(r) <==> edges.contains(r) && r.to == key,
    decreases edges.len(),
{
    if edges.len() > 0 {
        lemma_edges_to_members(edges.drop_last(), key, r);
        if edges.contains(r) && r != edges.last() {
            let i = choose|i: int| 0 <= i < edges.len() && edges[i] == r;
            assert(edges.drop_last()[i] == r);
        }
        if edges.drop_last().contains(r) {
            let i = choose|i: int| 0 <= i < edges.drop_last().len() && edges.drop_last()[i] == r;
            assert(edges[i] == r);
        }
        let t = edges_to(edges.drop_last(), key);
        if edges.last().to == key {
            assert(t.push(edges.last())[t.len() as int] == edges.last());
            if t.push(edges.last()).contains(r) && r != edges.last() {
                let i = choose|i: int| 0 <= i < t.len() + 1 && t.push(edges.last())[i] == r;
                assert(t[i] == r);
            }
            if t.contains(r) {
                let i = choose|i: int| 0 <= i < t.len() && t[i] == r;
                assert(t.push(edges.last())[i] == r);
            }
        }
        assert(edges[edges.len() - 1] == edges.last());
    }
}

/// An edge survives the removal of `evidence` exactly when it was
/// stored and is justified by other evidence.
pub proof fn lemma_edges_without_members(edges: Seq<RelationView>, evidence: MemoryId, r: RelationView)
    ensures
        edges_without(edges, evidence).contains(r) <==> edges.contains(r) && r.evidence != evidence,
    decreases edges.len(),
{
    if edges.len() > 0 {
        lemma_edges_without_members(edges.drop_last(), evidence, r);
        if edges.contains(r) && r != edges.last() {
            let i = choose|i: int| 0 <= i < edges.len() && edges[i] == r;
            assert(edges.drop_last()[i] == r);
        }
        if edges.drop_last().contains(r) {
            let i = choose|i: int| 0 <= i < edges.drop_last().len() && edges.drop_last()[i] == r;
            assert(edges[i] == r);
        }
        let t = edges_without(edges.drop_last(), evidence);
        if edges.last().evidence != evidence {
            assert(t.push(edges.last())[t.len() as int] == edges.last());
            if t.push(edges.last()).contains(r) && r != edges.last() {
                let i = choose|i: int| 0 <= i < t.len() + 1 && t.push(edges.last())[i] == r;
                assert(t[i] == r);
            }
            if t.contains(r) {
                let i = choose|i: int| 0 <= i < t.len() && t[i] == r;
                assert(t.push(edges.last())[i] == r);
            }
        }
        assert(edges[edges.len() - 1] == edges.last());
    }
}

/// Adding a relation is idempotent, and an added relation is indexed in
/// both directions: it is listed from its source and to its target.
pub proof fn lemma_add_relation_roundtrip(edges: Seq<RelationView>, r: RelationView)
    ensures
        with_edge(with_edge(edges, r), r) == with_edge(edges, r),
        edges_from(with_edge(edges, r), r.from).contains(r),
        edges_to(with_edge(edges, r), r.to).contains(r),
{
    let e = with_edge(edges, r);
    if !edges.contains(r) {
        assert(e[edges.len() as int] == r);
    }
    assert(e.contains(r));
    lemma_edges_from_members(e, r.from, r);
    lemma_edges_to_members(e, r.to, r);
}

/// Forgetting a memory removes every edge it justified and keeps every
/// other edge.
pub proof fn lemma_remove_evidence_exact(edges: Seq<RelationView>, evidence: MemoryId, r: RelationView)
    ensures
        r.evidence == evidence ==> !edges_without(edges, evidence).contains(r),
        r.evidence != evidence && edges.contains(r) ==> edges_without(edges, evidence).contains(r),
{
    lemma_edges_without_members(edges, evidence, r);
}

} // verus!
