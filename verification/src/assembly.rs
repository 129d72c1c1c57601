//! Configuration-driven assembly planning.
//!
//! An [`AssemblyPlan`] names the capabilities a configuration requires,
//! so an engine builder can fail fast when a configured backend has no
//! registered provider.
use crate::config::{self, EngineConfig, StoreConfig, VectorStoreConfig, WorkingStoreConfig};
use crate::error::{self, MemoryError, MemoryResult};
use crate::registry::{self, ProviderCapability, ProviderRegistry};
use vstd::prelude::*;

verus! {

/// The capabilities a configuration requires at assembly time.
#[derive(Debug, PartialEq, Eq)]
pub struct AssemblyPlan {
    /// Capabilities that must resolve from the registry.
    pub required: Vec<ProviderCapability>,
    /// Capabilities that are optional and degrade gracefully.
    pub optional: Vec<ProviderCapability>,
}

/// What a configuration requires: the canonical store always, then a
/// vector index and working storage when configured. Silently ignoring
/// declared infrastructure would make recall differ between
/// environments for no visible reason.
pub open spec fn required_for(config: EngineConfig) -> Seq<ProviderCapability> {
    let base = seq![ProviderCapability::Store];
    let with_vector = if config.vector is Some {
        base.push(ProviderCapability::Vector)
    } else {
        base
    };
    if config.working is Some {
        with_vector.push(ProviderCapability::Working)
    } else {
        with_vector
    }
}

/// The required capabilities that do not resolve, in order.
pub open spec fn missing_from<S, V, W>(required: Seq<ProviderCapability>, reg: ProviderRegistry<S, V, W>) -> Seq<ProviderCapability>
    decreases required.len(),
{
    if required.len() == 0 {
        Seq::empty()
    } else {
        let r = missing_from(required.drop_last(), reg);
        if reg.resolves(required.last()) {
            r
        } else {
            r.push(required.last())
        }
    }
}

impl AssemblyPlan {
    /// Derives the plan for a configuration.
    pub fn from_config(config: &EngineConfig) -> (p: Self)
        ensures
            p.required@ == required_for(*config),
            p.optional@.len() == 0,
    {
        let mut required: Vec<ProviderCapability> = Vec::new();
        required.push(ProviderCapability::Store);
        if config.vector.is_some() {
            required.push(ProviderCapability::Vector);
        }
        if config.working.is_some() {
            required.push(ProviderCapability::Working);
        }
        assert(required@ =~= required_for(*config));
        AssemblyPlan { required, optional: Vec::new() }
    }

    /// Required capabilities that do not resolve in `registry`, in
    /// order.
    pub fn missing<S, V, W>(&self, registry: &ProviderRegistry<S, V, W>) -> (m: Vec<ProviderCapability>)
        requires
            registry.wf(),
        ensures
            m@ == missing_from(self.required@, *registry),
    {
        let mut out: Vec<ProviderCapability> = Vec::new();
        let mut i: usize = 0;
        while i < self.required.len()
            invariant
                i <= self.required@.len(),
                registry.wf(),
                out@ == missing_from(self.required@.take(i as int), *registry),
            decreases self.required@.len() - i,
        {
            let c = self.required[i];
            assert(self.required@.take(i + 1).drop_last() =~= self.required@.take(i as int));
            if !registry.resolves_capability(c) {
                out.push(c);
            }
            i = i + 1;
        }
        assert(self.required@.take(self.required@.len() as int) =~= self.required@);
        out
    }

    /// True when every required capability resolves in `registry`.
    pub fn is_satisfiable<S, V, W>(&self, registry: &ProviderRegistry<S, V, W>) -> (b: bool)
        requires
            registry.wf(),
        ensures
            b == (missing_from(self.required@, *registry).len() == 0),
    {
        self.missing(registry).len() == 0
    }
}

/// Nothing required is missing exactly when every required capability
/// resolves.
pub proof fn lemma_missing_exact<S, V, W>(required: Seq<ProviderCapability>, reg: ProviderRegistry<S, V, W>)
    ensures
        missing_from(required, reg).len() == 0 <==> forall|i: int| 0 <= i < required.len() ==> reg.resolves(
            #[trigger] required[i],
        ),
    decreases required.len(),
{
    if required.len() > 0 {
        let p = required.drop_last();
        lemma_missing_exact(p, reg);
        if forall|i: int| 0 <= i < required.len() ==> reg.resolves(#[trigger] required[i]) {
            assert forall|i: int| 0 <= i < p.len() implies reg.resolves(#[trigger] p[i]) by {
                assert(p[i] == required[i]);
            }
            assert(reg.resolves(required[required.len() - 1]));
        }
        if missing_from(required, reg).len() == 0 {
            assert forall|i: int| 0 <= i < required.len() implies reg.resolves(#[trigger] required[i]) by {
                if i < p.len() {
                    assert(p[i] == required[i]);
                }
            }
        }
    }
}

/// Backend kind named by a store configuration.
pub fn describe_store(config: &StoreConfig) -> (s: &'static str)
    ensures
        s@ == config::store_label(*config),
{
    match config {
        StoreConfig::Memory => "memory",
        StoreConfig::Local { .. } => "local",
        StoreConfig::Postgres { .. } => "postgres",
    }
}

/// Backend kind of a vector configuration.
pub fn describe_vector(config: &VectorStoreConfig) -> (s: &'static str)
    ensures
        s@ == match *config {
            VectorStoreConfig::PgVector { .. } => "pgvector"@,
            VectorStoreConfig::InMemory => "in-memory"@,
        },
{
    match config {
        VectorStoreConfig::PgVector { .. } => "pgvector",
        VectorStoreConfig::InMemory => "in-memory",
    }
}

/// Backend kind of a working-memory configuration.
pub fn describe_working(config: &WorkingStoreConfig) -> (s: &'static str)
    ensures
        s@ == match *config {
            WorkingStoreConfig::Redis { .. } => "redis"@,
            WorkingStoreConfig::InProcess => "in-process"@,
        },
{
    match config {
        WorkingStoreConfig::Redis { .. } => "redis",
        WorkingStoreConfig::InProcess => "in-process",
    }
}

/// Checks the configuration, then that every capability it requires
/// resolves; the error names the first missing capability.
pub fn ensure_satisfiable<S, V, W>(config: &EngineConfig, registry: &ProviderRegistry<S, V, W>) -> (r: MemoryResult<()>)
    requires
        registry.wf(),
    ensures
        config::config_problem(*config) matches Some(p) ==> (r matches Err(e) && error::is_validation(e, p.0, p.1)),
        config::config_problem(*config) is None && missing_from(required_for(*config), *registry).len() == 0 ==> r is Ok,
        config::config_problem(*config) is None && missing_from(required_for(*config), *registry).len() > 0 ==> (r matches Err(
            e,
        ) && registry::missing(missing_from(required_for(*config), *registry)[0], e)),
{
    match config.validated() {
        Ok(_) => {},
        Err(e) => return Err(e),
    }
    let plan = AssemblyPlan::from_config(config);
    let missing = plan.missing(registry);
    if missing.len() == 0 {
        Ok(())
    } else {
        Err(MemoryError::ProviderMissing { capability: missing[0].as_str() })
    }
}

} // verus!
