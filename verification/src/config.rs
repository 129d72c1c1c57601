//! Engine configuration schema.
//!
//! The same schema drives embedded mode and server mode. Parsing is
//! provider neutral: unknown-yet backends parse fine but fail assembly.
use crate::error::{self, MemoryError, MemoryResult};
use crate::scope::{self, MemoryScope};
use crate::text;
use vstd::prelude::*;
use vstd::string::*;

verus! {

/// Default TTL applied to working-memory state when none is given
/// (thirty minutes, in milliseconds).
pub const DEFAULT_WORKING_MEMORY_TTL: u64 = 1_800_000;

/// Canonical record store backends.
#[derive(Debug, PartialEq, Eq)]
pub enum StoreConfig {
    /// Volatile in-process store; tests and ephemeral agents.
    Memory,
    /// Single-file embedded store surviving restarts.
    Local {
        /// Database file path.
        path: String,
    },
    /// PostgreSQL authoritative store.
    Postgres {
        /// Connection URL.
        url: String,
        /// Pool size cap.
        max_connections: u32,
    },
}

/// Vector index backends.
#[derive(Debug, PartialEq, Eq)]
pub enum VectorStoreConfig {
    /// pgvector sharing the PostgreSQL connection.
    PgVector {
        /// Same connection URL as the canonical store.
        url: String,
    },
    /// In-process flat index.
    InMemory,
}

/// Working-state backends.
#[derive(Debug, PartialEq, Eq)]
pub enum WorkingStoreConfig {
    /// Redis-backed session state.
    Redis {
        /// redis:// connection URL.
        url: String,
    },
    /// In-process map; embedded fallback.
    InProcess,
}

/// Guardrail limits shared across stores.
#[derive(Clone, Copy, Debug, PartialEq, Eq, Structural)]
pub struct LimitsConfig {
    /// Maximum characters accepted in a single memory text payload.
    pub max_content_chars: usize,
    /// Maximum records per batch write (also the result budget).
    pub max_batch_size: usize,
}

/// Top-level engine configuration.
#[derive(Debug, PartialEq, Eq)]
pub struct EngineConfig {
    /// Logical namespace prepended to provider keys/tables.
    pub namespace: String,
    /// Scope stamped onto writes when the caller supplies none.
    pub default_scope: MemoryScope,
    /// Working-memory TTL used when callers omit one, in milliseconds.
    pub working_memory_ttl: u64,
    /// Canonical record store selection.
    pub store: StoreConfig,
    /// Vector index selection; absent disables semantic recall.
    pub vector: Option<VectorStoreConfig>,
    /// Working-state store selection; defaults to the in-process store.
    pub working: Option<WorkingStoreConfig>,
    /// Engine limits.
    pub limits: LimitsConfig,
}

/// Default connection pool size for PostgreSQL stores.
pub fn default_max_connections() -> (n: u32)
    ensures
        n == 10,
{
    10
}

/// `c` is in `[a-zA-Z0-9_-]`.
pub open spec fn namespace_char(c: char) -> bool {
    ('a' <= c && c <= 'z') || ('A' <= c && c <= 'Z') || ('0' <= c && c <= '9') || c == '-' || c
        == '_'
}

/// Every character of the namespace is allowed.
pub open spec fn namespace_chars_ok(s: Seq<char>) -> bool {
    forall|i: int| 0 <= i < s.len() ==> namespace_char(#[trigger] s[i])
}

/// A connection URL starts with one of two schemes.
pub open spec fn has_scheme(url: Seq<char>, a: Seq<char>, b: Seq<char>) -> bool {
    text::starts_with_spec(url, a) || text::starts_with_spec(url, b)
}

/// The first problem of a store configuration, as `(field, reason)`.
pub open spec fn store_problem(s: StoreConfig) -> Option<(Seq<char>, Seq<char>)> {
    match s {
        StoreConfig::Postgres { url, .. } => if has_scheme(url@, "postgres://"@, "postgresql://"@) {
            None
        } else {
            Some(("store.url"@, "must start with postgres:// or postgresql://"@))
        },
        StoreConfig::Local { path } => if path@.len() == 0 {
            Some(("store.path"@, "must not be empty"@))
        } else {
            None
        },
        StoreConfig::Memory => None,
    }
}

/// The first problem of a vector configuration.
pub open spec fn vector_problem(v: VectorStoreConfig) -> Option<(Seq<char>, Seq<char>)> {
    match v {
        VectorStoreConfig::PgVector { url } => if has_scheme(url@, "postgres://"@, "postgresql://"@) {
            None
        } else {
            Some(("vector.url"@, "must be a postgres:// URL"@))
        },
        VectorStoreConfig::InMemory => None,
    }
}

/// The first problem of a working-store configuration.
pub open spec fn working_problem(w: WorkingStoreConfig) -> Option<(Seq<char>, Seq<char>)> {
    match w {
        WorkingStoreConfig::Redis { url } => if has_scheme(url@, "redis://"@, "rediss://"@) {
            None
        } else {
            Some(("working.url"@, "must start with redis:// or rediss://"@))
        },
        WorkingStoreConfig::InProcess => None,
    }
}

/// The first problem of the limits.
pub open spec fn limits_problem(l: LimitsConfig) -> Option<(Seq<char>, Seq<char>)> {
    if l.max_content_chars == 0 {
        Some(("limits.max_content_chars"@, "must be greater than zero"@))
    } else if l.max_batch_size == 0 {
        Some(("limits.max_batch_size"@, "must be greater than zero"@))
    } else {
        None
    }
}

/// The first problem of a whole configuration, checked in order:
/// namespace, store, vector, working, limits.
pub open spec fn config_problem(c: EngineConfig) -> Option<(Seq<char>, Seq<char>)> {
    if text::blank_spec(c.namespace@) {
        Some(("namespace"@, "must not be blank"@))
    } else if !namespace_chars_ok(c.namespace@) {
        Some(("namespace"@, "only [a-zA-Z0-9_-] allowed"@))
    } else if store_problem(c.store) is Some {
        store_problem(c.store)
    } else if c.vector matches Some(v) && vector_problem(v) is Some {
        vector_problem(c.vector->0)
    } else if c.working matches Some(w) && working_problem(w) is Some {
        working_problem(c.working->0)
    } else {
        limits_problem(c.limits)
    }
}

fn is_namespace_char(c: char) -> (b: bool)
    ensures
        b == namespace_char(c),
{
    ('a' <= c && c <= 'z') || ('A' <= c && c <= 'Z') || ('0' <= c && c <= '9') || c == '-' || c
        == '_'
}

fn namespace_chars_valid(s: &str) -> (b: bool)
    ensures
        b == namespace_chars_ok(s@),
{
    let v = text::chars_of(s);
    let mut i: usize = 0;
    while i < v.len()
        invariant
            v@ == s@,
            i <= v@.len(),
            forall|k: int| 0 <= k < i ==> namespace_char(#[trigger] v@[k]),
        decreases v@.len() - i,
    {
        if !is_namespace_char(v[i]) {
            return false;
        }
        i = i + 1;
    }
    true
}

fn scheme_ok(url: &str, a: &str, b: &str) -> (r: bool)
    ensures
        r == has_scheme(url@, a@, b@),
{
    text::starts_with(url, a) || text::starts_with(url, b)
}

impl StoreConfig {
    fn validate(&self) -> (r: MemoryResult<()>)
        ensures
            match r {
                Ok(_) => store_problem(*self) is None,
                Err(e) => store_problem(*self) matches Some(p) && error::is_validation(e, p.0, p.1),
            },
    {
        match self {
            StoreConfig::Postgres { url, .. } => {
                if !scheme_ok(url.as_str(), "postgres://", "postgresql://") {
                    return Err(
                        MemoryError::validation(
                            "store.url",
                            "must start with postgres:// or postgresql://",
                        ),
                    );
                }
                Ok(())
            },
            StoreConfig::Local { path } => {
                if path.as_str().unicode_len() == 0 {
                    return Err(MemoryError::validation("store.path", "must not be empty"));
                }
                Ok(())
            },
            StoreConfig::Memory => Ok(()),
        }
    }
}

/// Label of a store backend.
pub open spec fn store_label(s: StoreConfig) -> Seq<char> {
    match s {
        StoreConfig::Memory => "memory"@,
        StoreConfig::Local { .. } => "local"@,
        StoreConfig::Postgres { .. } => "postgres"@,
    }
}

impl VectorStoreConfig {
    fn validate(&self) -> (r: MemoryResult<()>)
        ensures
            match r {
                Ok(_) => vector_problem(*self) is None,
                Err(e) => vector_problem(*self) matches Some(p) && error::is_validation(e, p.0, p.1),
            },
    {
        match self {
            VectorStoreConfig::PgVector { url } => {
                if !scheme_ok(url.as_str(), "postgres://", "postgresql://") {
                    return Err(MemoryError::validation("vector.url", "must be a postgres:// URL"));
                }
                Ok(())
            },
            VectorStoreConfig::InMemory => Ok(()),
        }
    }
}

impl WorkingStoreConfig {
    fn validate(&self) -> (r: MemoryResult<()>)
        ensures
            match r {
                Ok(_) => working_problem(*self) is None,
                Err(e) => working_problem(*self) matches Some(p) && error::is_validation(
                    e,
                    p.0,
                    p.1,
                ),
            },
    {
        match self {
            WorkingStoreConfig::Redis { url } => {
                if !scheme_ok(url.as_str(), "redis://", "rediss://") {
                    return Err(
                        MemoryError::validation("working.url", "must start with redis:// or rediss://"),
                    );
                }
                Ok(())
            },
            WorkingStoreConfig::InProcess => Ok(()),
        }
    }
}

impl LimitsConfig {
    fn validate(&self) -> (r: MemoryResult<()>)
        ensures
            match r {
                Ok(_) => limits_problem(*self) is None,
                Err(e) => limits_problem(*self) matches Some(p) && error::is_validation(e, p.0, p.1),
            },
    {
        if self.max_content_chars == 0 {
            return Err(
                MemoryError::validation("limits.max_content_chars", "must be greater than zero"),
            );
        }
        if self.max_batch_size == 0 {
            return Err(MemoryError::validation("limits.max_batch_size", "must be greater than zero"));
        }
        Ok(())
    }
}

impl Default for LimitsConfig {
    fn default() -> (l: Self)
        ensures
            l.max_content_chars == 100_000,
            l.max_batch_size == 256,
    {
        LimitsConfig { max_content_chars: 100_000, max_batch_size: 256 }
    }
}

impl EngineConfig {
    /// Validates cross-field invariants; the error names the first
    /// offending field.
    pub fn validated(&self) -> (r: MemoryResult<()>)
        ensures
            match r {
                Ok(_) => config_problem(*self) is None,
                Err(e) => config_problem(*self) matches Some(p) && error::is_validation(e, p.0, p.1),
            },
    {
        if text::is_blank(self.namespace.as_str()) {
            return Err(MemoryError::validation("namespace", "must not be blank"));
        }
        if !namespace_chars_valid(self.namespace.as_str()) {
            return Err(MemoryError::validation("namespace", "only [a-zA-Z0-9_-] allowed"));
        }
        self.store.validate()?;
        if let Some(v) = &self.vector {
            v.validate()?;
        }
        if let Some(w) = &self.working {
            w.validate()?;
        }
        self.limits.validate()?;
        Ok(())
    }

    /// True when no external infrastructure is configured.
    pub fn is_embedded(&self) -> (b: bool)
        ensures
            b <==> (self.store is Memory || self.store is Local),
    {
        match self.store {
            StoreConfig::Memory | StoreConfig::Local { .. } => true,
            _ => false,
        }
    }
}

impl Default for EngineConfig {
    fn default() -> (c: Self)
        ensures
            c.namespace@ == "barq"@,
            scope::scope_is_empty(c.default_scope@),
            c.working_memory_ttl == DEFAULT_WORKING_MEMORY_TTL,
            c.store == StoreConfig::Memory,
            c.vector is None,
            c.working is None,
            c.limits == (LimitsConfig { max_content_chars: 100_000, max_batch_size: 256 }),
    {
        EngineConfig {
            namespace: String::from_str("barq"),
            default_scope: MemoryScope::empty(),
            working_memory_ttl: DEFAULT_WORKING_MEMORY_TTL,
            store: StoreConfig::Memory,
            vector: None,
            working: None,
            limits: LimitsConfig::default(),
        }
    }
}

/// The default configuration is fully embedded and valid.
pub proof fn lemma_default_config_valid(c: EngineConfig)
    requires
        c.namespace@ == "barq"@,
        c.store == StoreConfig::Memory,
        c.vector is None,
        c.working is None,
        c.limits == (LimitsConfig { max_content_chars: 100_000, max_batch_size: 256 }),
    ensures
        config_problem(c) is None,
{
    reveal_strlit("barq");
    assert(c.namespace@ =~= seq!['b', 'a', 'r', 'q']);
    assert(!text::is_ws(c.namespace@[0]));
    text::lemma_blank_iff_all_ws(c.namespace@);
    assert(namespace_chars_ok(c.namespace@));
}

} // verus!
