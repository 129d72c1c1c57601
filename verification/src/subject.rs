//! The entity a memory is about.
use crate::text;
use vstd::prelude::*;
use vstd::string::*;

verus! {

/// View of an optional string.
pub open spec fn opt_seq(o: Option<String>) -> Option<Seq<char>> {
    match o {
        Some(s) => Some(s@),
        None => None,
    }
}

/// Clones an optional string, keeping its content.
pub fn clone_opt_string(o: &Option<String>) -> (r: Option<String>)
    ensures
        opt_seq(r) == opt_seq(*o),
        r == *o,
{
    match o {
        Some(s) => Some(s.clone()),
        None => None,
    }
}

/// Names the subject of a memory, e.g. "Project Atlas" or a user.
///
/// Subjects give structured lookups an anchor: the retrieval planner can
/// try an exact subject match before falling back to vector search.
#[derive(Debug, PartialEq, Eq)]
pub struct MemorySubject {
    /// Coarse category of the subject ("project", "person", "tool", ...).
    pub entity_type: Option<String>,
    /// Stable identifier of the subject within its category.
    pub entity_id: String,
    /// Human-friendly label used for display and keyword search.
    pub display_name: Option<String>,
}

/// Canonical lookup key of a subject: `lower(trim(type)):trim(id)` when
/// typed, `trim(id)` otherwise.
pub open spec fn canonical_key_of(entity_type: Option<Seq<char>>, id: Seq<char>) -> Seq<char> {
    match entity_type {
        Some(t) => text::str_lowercase(text::trim_spec(t)) + ":"@ + text::trim_spec(id),
        None => text::trim_spec(id),
    }
}

impl MemorySubject {
    /// Canonical key of this subject.
    pub open spec fn key(&self) -> Seq<char> {
        canonical_key_of(opt_seq(self.entity_type), self.entity_id@)
    }

    /// Creates a subject with only its identifier.
    pub fn new(entity_id: &str) -> (s: Self)
        ensures
            s.entity_type is None,
            s.entity_id@ == entity_id@,
            s.display_name is None,
    {
        MemorySubject {
            entity_type: None,
            entity_id: String::from_str(entity_id),
            display_name: None,
        }
    }

    /// Attaches a category to the subject.
    pub fn with_type(self, entity_type: &str) -> (s: Self)
        ensures
            opt_seq(s.entity_type) == Some(entity_type@),
            s.entity_id == self.entity_id,
            s.display_name == self.display_name,
    {
        MemorySubject { entity_type: Some(String::from_str(entity_type)), ..self }
    }

    /// Attaches a display name to the subject.
    pub fn with_display_name(self, display_name: &str) -> (s: Self)
        ensures
            opt_seq(s.display_name) == Some(display_name@),
            s.entity_id == self.entity_id,
            s.entity_type == self.entity_type,
    {
        MemorySubject { display_name: Some(String::from_str(display_name)), ..self }
    }

    /// Canonical lookup key: `type:id` when typed, bare `id` otherwise.
    ///
    /// The type is trimmed and lowercased; the id is trimmed but keeps
    /// its case.
    pub fn canonical_key(&self) -> (k: String)
        ensures
            k@ == self.key(),
    {
        match &self.entity_type {
            Some(t) => {
                let tt = text::trim(t.as_str());
                let lt = text::lowercase(tt.as_str());
                let id = text::trim(self.entity_id.as_str());
                text::concat3(lt.as_str(), ":", id.as_str())
            },
            None => text::trim(self.entity_id.as_str()),
        }
    }

    /// Rendering used for display: `name (key)` when a display name is
    /// set, the canonical key otherwise.
    pub fn to_display(&self) -> (r: String)
        ensures
            r@ == match self.display_name {
                Some(n) => n@ + " ("@ + self.key() + ")"@,
                None => self.key(),
            },
    {
        let key = self.canonical_key();
        match &self.display_name {
            Some(n) => {
                let head = text::concat3(n.as_str(), " (", key.as_str());
                text::concat2(head.as_str(), ")")
            },
            None => key,
        }
    }
}

impl Clone for MemorySubject {
    fn clone(&self) -> (r: Self)
        ensures
            r == *self,
    {
        MemorySubject {
            entity_type: clone_opt_string(&self.entity_type),
            entity_id: self.entity_id.clone(),
            display_name: clone_opt_string(&self.display_name),
        }
    }
}

/// Equality of two optional subjects by canonical key; `false` unless
/// both are present.
pub open spec fn subject_keys_match(a: Option<MemorySubject>, b: Option<MemorySubject>) -> bool {
    match (a, b) {
        (Some(x), Some(y)) => x.key() == y.key(),
        _ => false,
    }
}

/// Compares two optional subjects by canonical key.
pub fn subject_keys_equal(a: &Option<MemorySubject>, b: &Option<MemorySubject>) -> (r: bool)
    ensures
        r == subject_keys_match(*a, *b),
{
    match (a, b) {
        (Some(x), Some(y)) => {
            let kx = x.canonical_key();
            let ky = y.canonical_key();
            kx == ky
        },
        _ => false,
    }
}

} // verus!
