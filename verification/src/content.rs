//! Memory payload value types.
use crate::procedural::ProcedureMetadata;
use crate::prospective::{GoalMetadata, GoalMetadataView};
use crate::text;
use vstd::prelude::*;
use vstd::string::*;

verus! {

/// Caller-supplied structure carried next to the text.
///
/// Governed documents keep their lifecycle metadata here; any other
/// structure travels as JSON text that the engine never interprets.
#[derive(Debug, PartialEq, Eq)]
pub enum StructuredPayload {
    /// Opaque JSON text.
    Json(String),
    /// Lifecycle metadata of a procedure document.
    Procedure(ProcedureMetadata),
    /// Lifecycle metadata of a goal.
    Goal(GoalMetadata),
}

/// Mathematical view of a structured payload.
pub enum PayloadView {
    Json(String),
    Procedure(ProcedureMetadata),
    Goal(GoalMetadataView),
}

impl View for StructuredPayload {
    type V = PayloadView;

    open spec fn view(&self) -> PayloadView {
        match self {
            StructuredPayload::Json(s) => PayloadView::Json(*s),
            StructuredPayload::Procedure(m) => PayloadView::Procedure(*m),
            StructuredPayload::Goal(m) => PayloadView::Goal(m@),
        }
    }
}

/// View of an optional payload.
pub open spec fn opt_payload(o: Option<StructuredPayload>) -> Option<PayloadView> {
    match o {
        Some(p) => Some(p@),
        None => None,
    }
}

impl Clone for StructuredPayload {
    fn clone(&self) -> (r: Self)
        ensures
            r@ == self@,
    {
        match self {
            StructuredPayload::Json(s) => StructuredPayload::Json(s.clone()),
            StructuredPayload::Procedure(m) => StructuredPayload::Procedure(m.clone()),
            StructuredPayload::Goal(m) => StructuredPayload::Goal(m.clone()),
        }
    }
}

/// Clones a vector of strings, keeping every element.
pub fn clone_strings(v: &Vec<String>) -> (r: Vec<String>)
    ensures
        r@ == v@,
{
    let mut r: Vec<String> = Vec::new();
    let mut i: usize = 0;
    while i < v.len()
        invariant
            i <= v@.len(),
            r@ == v@.subrange(0, i as int),
        decreases v@.len() - i,
    {
        r.push(v[i].clone());
        i = i + 1;
    }
    assert(v@.subrange(0, v@.len() as int) =~= v@);
    r
}

/// The payload of a memory record.
#[derive(Debug, PartialEq, Eq)]
pub struct MemoryContent {
    /// Natural-language text of the memory.
    pub text: String,
    /// Optional structured representation supplied by the caller.
    pub structured: Option<StructuredPayload>,
    /// Free-form labels used by filtering; not part of the text itself.
    pub tags: Vec<String>,
}

/// Mathematical view of a content payload.
pub struct ContentView {
    pub text: String,
    pub structured: Option<PayloadView>,
    pub tags: Seq<String>,
}

impl View for MemoryContent {
    type V = ContentView;

    open spec fn view(&self) -> ContentView {
        ContentView { text: self.text, structured: opt_payload(self.structured), tags: self.tags@ }
    }
}

/// Nothing meaningful to remember: blank text and no structure.
pub open spec fn content_empty(c: ContentView) -> bool {
    text::blank_spec(c.text@) && c.structured is None
}

impl MemoryContent {
    /// Text-only content.
    pub fn from_text(text: &str) -> (c: Self)
        ensures
            c.text@ == text@,
            c.structured is None,
            c.tags@.len() == 0,
    {
        MemoryContent { text: String::from_str(text), structured: None, tags: Vec::new() }
    }

    /// Text plus structured payload.
    pub fn with_structured(self, structured: StructuredPayload) -> (c: Self)
        ensures
            c@ == (ContentView { structured: Some(structured@), ..self@ }),
    {
        MemoryContent { structured: Some(structured), ..self }
    }

    /// Replaces the tags.
    pub fn with_tags(self, tags: Vec<String>) -> (c: Self)
        ensures
            c@ == (ContentView { tags: tags@, ..self@ }),
    {
        MemoryContent { tags, ..self }
    }

    /// Length of the text in characters, for budgeting prompts.
    pub fn char_len(&self) -> (n: usize)
        ensures
            n == self.text@.len(),
    {
        self.text.as_str().unicode_len()
    }

    /// True when there is nothing meaningful to remember.
    pub fn is_empty(&self) -> (b: bool)
        ensures
            b == content_empty(self@),
    {
        text::is_blank(self.text.as_str()) && self.structured.is_none()
    }
}

impl Clone for MemoryContent {
    fn clone(&self) -> (r: Self)
        ensures
            r@ == self@,
    {
        let structured = match &self.structured {
            Some(s) => Some(s.clone()),
            None => None,
        };
        let tags = clone_strings(&self.tags);
        assert(tags@ =~= self.tags@);
        MemoryContent { text: self.text.clone(), structured, tags }
    }
}

impl Default for MemoryContent {
    fn default() -> (c: Self)
        ensures
            c.text@.len() == 0,
            c.structured is None,
            c.tags@.len() == 0,
    {
        MemoryContent { text: String::new(), structured: None, tags: Vec::new() }
    }
}

} // verus!
