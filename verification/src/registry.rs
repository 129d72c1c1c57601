//! Named lookup of providers by capability.
//!
//! Registration is explicit rather than global, so two engines can
//! coexist in one process with different backends, and tests can wire
//! fakes without environment tricks. The registry is generic over the
//! provider handles it hands out.
use crate::error::{MemoryError, MemoryResult};
use crate::text;
use vstd::prelude::*;
use vstd::string::*;

verus! {

/// Capabilities an engine instance can draw from its registry.
#[derive(Clone, Copy, Debug, PartialEq, Eq, Structural, PartialOrd, Ord, Hash)]
pub enum ProviderCapability {
    /// Canonical record storage.
    Store,
    /// Semantic similarity index.
    Vector,
    /// Volatile session state.
    Working,
}

/// Name of a capability in errors and logs.
pub open spec fn capability_name(c: ProviderCapability) -> Seq<char> {
    match c {
        ProviderCapability::Store => "store"@,
        ProviderCapability::Vector => "vector"@,
        ProviderCapability::Working => "working"@,
    }
}

impl ProviderCapability {
    /// Capability name used in errors and logs.
    pub fn as_str(&self) -> (s: &'static str)
        ensures
            s@ == capability_name(*self),
    {
        match self {
            ProviderCapability::Store => "store",
            ProviderCapability::Vector => "vector",
            ProviderCapability::Working => "working",
        }
    }
}

/// The error for a capability that has no provider to serve it.
pub open spec fn missing(c: ProviderCapability, e: MemoryError) -> bool {
    e matches MemoryError::ProviderMissing { capability } && capability@ == capability_name(c)
}

/// The provider registered under `name`, if any.
pub open spec fn lookup<T>(entries: Seq<(Seq<char>, T)>, name: Seq<char>) -> Option<T> {
    if exists|i: int| 0 <= i < entries.len() && (#[trigger] entries[i]).0 == name {
        Some(entries[choose|i: int| 0 <= i < entries.len() && (#[trigger] entries[i]).0 == name].1)
    } else {
        None
    }
}

/// No name is registered twice.
pub open spec fn names_unique<T>(entries: Seq<(Seq<char>, T)>) -> bool {
    forall|i: int, j: int|
        0 <= i < entries.len() && 0 <= j < entries.len() && i != j ==> (#[trigger] entries[i]).0
            != (#[trigger] entries[j]).0
}

/// Registering `p` under `name` replaces any provider of that name.
pub open spec fn with_entry<T>(entries: Seq<(Seq<char>, T)>, name: Seq<char>, p: T) -> Seq<(Seq<char>, T)> {
    if exists|i: int| 0 <= i < entries.len() && (#[trigger] entries[i]).0 == name {
        entries.update(choose|i: int| 0 <= i < entries.len() && (#[trigger] entries[i]).0 == name, (name, p))
    } else {
        entries.push((name, p))
    }
}

/// The provider a capability resolves to: its default name, registered.
pub open spec fn resolved<T>(entries: Seq<(Seq<char>, T)>, default: Option<Seq<char>>) -> Option<T> {
    match default {
        Some(n) => lookup(entries, n),
        None => None,
    }
}

/// One capability's providers, keyed by name, with the default name.
#[derive(Debug)]
struct Slot<T> {
    entries: Vec<(String, T)>,
    default: Option<String>,
}

/// Views of named entries.
pub open spec fn entry_views<T>(v: Seq<(String, T)>) -> Seq<(Seq<char>, T)> {
    v.map_values(|e: (String, T)| (e.0@, e.1))
}

proof fn lemma_lookup_at<T>(entries: Seq<(Seq<char>, T)>, name: Seq<char>, i: int)
    requires
        names_unique(entries),
        0 <= i < entries.len(),
        entries[i].0 == name,
    ensures
        lookup(entries, name) == Some(entries[i].1),
{
}

impl<T> Slot<T> {
    spec fn view_entries(&self) -> Seq<(Seq<char>, T)> {
        entry_views(self.entries@)
    }

    spec fn view_default(&self) -> Option<Seq<char>> {
        crate::subject::opt_seq(self.default)
    }

    fn new() -> (s: Self)
        ensures
            s.view_entries().len() == 0,
            s.view_default() is None,
    {
        let s = Slot { entries: Vec::new(), default: None };
        assert(s.view_entries() =~= Seq::<(Seq<char>, T)>::empty());
        s
    }

    fn find(&self, name: &str) -> (r: Option<usize>)
        requires
            names_unique(self.view_entries()),
        ensures
            match r {
                Some(i) => i < self.entries@.len() && self.view_entries()[i as int].0 == name@ && lookup(
                    self.view_entries(),
                    name@,
                ) == Some(self.view_entries()[i as int].1),
                None => lookup(self.view_entries(), name@) is None && !(exists|i: int|
                    0 <= i < self.view_entries().len() && (#[trigger] self.view_entries()[i]).0 == name@),
            },
    {
        let ghost es = self.view_entries();
        let mut i: usize = 0;
        while i < self.entries.len()
            invariant
                i <= self.entries@.len(),
                es == self.view_entries(),
                names_unique(es),
                forall|k: int| 0 <= k < i ==> (#[trigger] es[k]).0 != name@,
            decreases self.entries@.len() - i,
        {
            assert(es[i as int].0 == self.entries@[i as int].0@);
            if text::str_eq(self.entries[i].0.as_str(), name) {
                proof {
                    lemma_lookup_at(es, name@, i as int);
                }
                return Some(i);
            }
            i = i + 1;
        }
        None
    }

    fn register(&mut self, name: &str, provider: T)
        requires
            names_unique(old(self).view_entries()),
        ensures
            names_unique(final(self).view_entries()),
            final(self).view_entries() == with_entry(old(self).view_entries(), name@, provider),
            final(self).view_default() == match old(self).view_default() {
                Some(d) => Some(d),
                None => Some(name@),
            },
    {
        if self.default.is_none() {
            self.default = Some(String::from_str(name));
        }
        let ghost before = self.view_entries();
        let ghost e = (name@, provider);
        match self.find(name) {
            Some(i) => {
                let ghost w = choose|j: int| 0 <= j < before.len() && (#[trigger] before[j]).0 == name@;
                assert(w == i) by {
                    if w != i {
                        assert(before[w].0 == before[i as int].0);
                    }
                }
                self.entries.set(i, (String::from_str(name), provider));
                assert(self.view_entries() =~= before.update(i as int, e));
                let ghost after = self.view_entries();
                assert forall|a: int, b: int| 0 <= a < after.len() && 0 <= b < after.len() && a != b implies (
                #[trigger] after[a]).0 != (#[trigger] after[b]).0 by {
                    assert(after[a].0 == before[a].0);
                    assert(after[b].0 == before[b].0);
                }
            },
            None => {
                self.entries.push((String::from_str(name), provider));
                assert(self.view_entries() =~= before.push(e));
                let ghost after = self.view_entries();
                assert forall|a: int, b: int| 0 <= a < after.len() && 0 <= b < after.len() && a != b implies (
                #[trigger] after[a]).0 != (#[trigger] after[b]).0 by {
                    if a < before.len() {
                        assert(after[a] == before[a]);
                    }
                    if b < before.len() {
                        assert(after[b] == before[b]);
                    }
                }
            },
        }
    }

    fn resolve(&self, capability: ProviderCapability) -> (r: MemoryResult<&T>)
        requires
            names_unique(self.view_entries()),
        ensures
            match resolved(self.view_entries(), self.view_default()) {
                Some(p) => r matches Ok(x) && *x == p,
                None => r matches Err(e) && missing(capability, e),
            },
    {
        let name = match &self.default {
            Some(n) => n,
            None => return Err(MemoryError::ProviderMissing { capability: capability.as_str() }),
        };
        match self.find(name.as_str()) {
            Some(i) => Ok(&self.entries[i].1),
            None => Err(MemoryError::ProviderMissing { capability: capability.as_str() }),
        }
    }
}

/// Registry mapping names to providers per capability; the first
/// provider registered for a capability becomes its default.
#[derive(Debug)]
pub struct ProviderRegistry<S, V, W> {
    stores: Slot<S>,
    vectors: Slot<V>,
    working: Slot<W>,
}

impl<S, V, W> ProviderRegistry<S, V, W> {
    /// Registered stores, by name.
    pub closed spec fn stores(&self) -> Seq<(Seq<char>, S)> {
        self.stores.view_entries()
    }

    /// Registered vector indexes, by name.
    pub closed spec fn vectors(&self) -> Seq<(Seq<char>, V)> {
        self.vectors.view_entries()
    }

    /// Registered working-memory providers, by name.
    pub closed spec fn workings(&self) -> Seq<(Seq<char>, W)> {
        self.working.view_entries()
    }

    /// The default name of each capability.
    pub closed spec fn default_name(&self, c: ProviderCapability) -> Option<Seq<char>> {
        match c {
            ProviderCapability::Store => self.stores.view_default(),
            ProviderCapability::Vector => self.vectors.view_default(),
            ProviderCapability::Working => self.working.view_default(),
        }
    }

    /// Whether a provider is registered for `c` under `name`.
    pub open spec fn has_name(&self, c: ProviderCapability, name: Seq<char>) -> bool {
        match c {
            ProviderCapability::Store => lookup(self.stores(), name) is Some,
            ProviderCapability::Vector => lookup(self.vectors(), name) is Some,
            ProviderCapability::Working => lookup(self.workings(), name) is Some,
        }
    }

    /// Whether capability `c` resolves to a provider.
    pub open spec fn resolves(&self, c: ProviderCapability) -> bool {
        match self.default_name(c) {
            Some(n) => self.has_name(c, n),
            None => false,
        }
    }

    /// Names are unique within each capability.
    pub open spec fn wf(&self) -> bool {
        names_unique(self.stores()) && names_unique(self.vectors()) && names_unique(self.workings())
    }

    /// An empty registry.
    pub fn new() -> (r: Self)
        ensures
            r.wf(),
            r.stores().len() == 0,
            r.vectors().len() == 0,
            r.workings().len() == 0,
            r.default_name(ProviderCapability::Store) is None,
            r.default_name(ProviderCapability::Vector) is None,
            r.default_name(ProviderCapability::Working) is None,
    {
        ProviderRegistry { stores: Slot::new(), vectors: Slot::new(), working: Slot::new() }
    }

    /// Registers a store under `name`; it becomes the default when no
    /// store is.
    pub fn register_store(&mut self, name: &str, provider: S)
        requires
            old(self).wf(),
        ensures
            final(self).wf(),
            final(self).stores() == with_entry(old(self).stores(), name@, provider),
            final(self).vectors() == old(self).vectors(),
            final(self).workings() == old(self).workings(),
            final(self).default_name(ProviderCapability::Store) == match old(self).default_name(
                ProviderCapability::Store,
            ) {
                Some(d) => Some(d),
                None => Some(name@),
            },
            final(self).default_name(ProviderCapability::Vector) == old(self).default_name(ProviderCapability::Vector),
            final(self).default_name(ProviderCapability::Working) == old(self).default_name(
                ProviderCapability::Working,
            ),
    {
        self.stores.register(name, provider);
    }

    /// Registers a vector index under `name`; it becomes the default
    /// when no vector index is.
    pub fn register_vector(&mut self, name: &str, provider: V)
        requires
            old(self).wf(),
        ensures
            final(self).wf(),
            final(self).vectors() == with_entry(old(self).vectors(), name@, provider),
            final(self).stores() == old(self).stores(),
            final(self).workings() == old(self).workings(),
            final(self).default_name(ProviderCapability::Vector) == match old(self).default_name(
                ProviderCapability::Vector,
            ) {
                Some(d) => Some(d),
                None => Some(name@),
            },
            final(self).default_name(ProviderCapability::Store) == old(self).default_name(ProviderCapability::Store),
            final(self).default_name(ProviderCapability::Working) == old(self).default_name(
                ProviderCapability::Working,
            ),
    {
        self.vectors.register(name, provider);
    }

    /// Registers working-memory storage under `name`; it becomes the
    /// default when none is.
    pub fn register_working(&mut self, name: &str, provider: W)
        requires
            old(self).wf(),
        ensures
            final(self).wf(),
            final(self).workings() == with_entry(old(self).workings(), name@, provider),
            final(self).stores() == old(self).stores(),
            final(self).vectors() == old(self).vectors(),
            final(self).default_name(ProviderCapability::Working) == match old(self).default_name(
                ProviderCapability::Working,
            ) {
                Some(d) => Some(d),
                None => Some(name@),
            },
            final(self).default_name(ProviderCapability::Store) == old(self).default_name(ProviderCapability::Store),
            final(self).default_name(ProviderCapability::Vector) == old(self).default_name(ProviderCapability::Vector),
    {
        self.working.register(name, provider);
    }

    /// Overrides which registered provider serves a capability; a name
    /// that is not registered for it is refused.
    pub fn set_default(&mut self, capability: ProviderCapability, name: &str) -> (r: MemoryResult<()>)
        requires
            old(self).wf(),
        ensures
            final(self).wf(),
            final(self).stores() == old(self).stores(),
            final(self).vectors() == old(self).vectors(),
            final(self).workings() == old(self).workings(),
            old(self).has_name(capability, name@) ==> r is Ok && final(self).default_name(capability) == Some(name@),
            !old(self).has_name(capability, name@) ==> (r matches Err(e) && missing(capability, e))
                && final(self).default_name(capability) == old(self).default_name(capability),
            forall|c: ProviderCapability| c != capability ==> #[trigger] final(self).default_name(c) == old(self).default_name(c),
    {
        let exists = match capability {
            ProviderCapability::Store => self.stores.find(name).is_some(),
            ProviderCapability::Vector => self.vectors.find(name).is_some(),
            ProviderCapability::Working => self.working.find(name).is_some(),
        };
        if !exists {
            return Err(MemoryError::ProviderMissing { capability: capability.as_str() });
        }
        match capability {
            ProviderCapability::Store => self.stores.default = Some(String::from_str(name)),
            ProviderCapability::Vector => self.vectors.default = Some(String::from_str(name)),
            ProviderCapability::Working => self.working.default = Some(String::from_str(name)),
        }
        Ok(())
    }

    /// Resolves the default store.
    pub fn default_store(&self) -> (r: MemoryResult<&S>)
        requires
            self.wf(),
        ensures
            match resolved(self.stores(), self.default_name(ProviderCapability::Store)) {
                Some(p) => r matches Ok(x) && *x == p,
                None => r matches Err(e) && missing(ProviderCapability::Store, e),
            },
    {
        self.stores.resolve(ProviderCapability::Store)
    }

    /// Resolves the default vector index.
    pub fn default_vector(&self) -> (r: MemoryResult<&V>)
        requires
            self.wf(),
        ensures
            match resolved(self.vectors(), self.default_name(ProviderCapability::Vector)) {
                Some(p) => r matches Ok(x) && *x == p,
                None => r matches Err(e) && missing(ProviderCapability::Vector, e),
            },
    {
        self.vectors.resolve(ProviderCapability::Vector)
    }

    /// Resolves the default working-memory storage.
    pub fn default_working(&self) -> (r: MemoryResult<&W>)
        requires
            self.wf(),
        ensures
            match resolved(self.workings(), self.default_name(ProviderCapability::Working)) {
                Some(p) => r matches Ok(x) && *x == p,
                None => r matches Err(e) && missing(ProviderCapability::Working, e),
            },
    {
        self.working.resolve(ProviderCapability::Working)
    }

    /// Resolves a named store.
    pub fn named_store(&self, name: &str) -> (r: MemoryResult<&S>)
        requires
            self.wf(),
        ensures
            match lookup(self.stores(), name@) {
                Some(p) => r matches Ok(x) && *x == p,
                None => r matches Err(e) && missing(ProviderCapability::Store, e),
            },
    {
        match self.stores.find(name) {
            Some(i) => Ok(&self.stores.entries[i].1),
            None => Err(MemoryError::ProviderMissing { capability: ProviderCapability::Store.as_str() }),
        }
    }

    /// Whether a capability resolves to a provider.
    pub fn resolves_capability(&self, capability: ProviderCapability) -> (b: bool)
        requires
            self.wf(),
        ensures
            b == self.resolves(capability),
    {
        match capability {
            ProviderCapability::Store => self.stores.resolve(capability).is_ok(),
            ProviderCapability::Vector => self.vectors.resolve(capability).is_ok(),
            ProviderCapability::Working => self.working.resolve(capability).is_ok(),
        }
    }

    /// Number of registered providers across all capabilities.
    pub fn len(&self) -> (n: usize)
        requires
            self.stores().len() + self.vectors().len() + self.workings().len() <= usize::MAX,
        ensures
            n == self.stores().len() + self.vectors().len() + self.workings().len(),
    {
        self.stores.entries.len() + self.vectors.entries.len() + self.working.entries.len()
    }

    /// True when nothing is registered.
    pub fn is_empty(&self) -> (b: bool)
        ensures
            b == (self.stores().len() + self.vectors().len() + self.workings().len() == 0),
    {
        self.stores.entries.len() == 0 && self.vectors.entries.len() == 0 && self.working.entries.len() == 0
    }
}

/// The first provider registered for a capability becomes its default
/// and keeps that role through later registrations; a registered name
/// always resolves to the provider last registered under it.
pub proof fn lemma_first_registration_wins<T>(entries: Seq<(Seq<char>, T)>, default: Option<Seq<char>>, name: Seq<char>, p: T)
    requires
        names_unique(entries),
    ensures
        lookup(with_entry(entries, name, p), name) == Some(p),
        default is None ==> resolved(
            with_entry(entries, name, p),
            Some(name),
        ) == Some(p),
        forall|other: Seq<char>| other != name ==> #[trigger] lookup(with_entry(entries, name, p), other) == lookup(entries, other),
{
    let after = with_entry(entries, name, p);
    if exists|i: int| 0 <= i < entries.len() && (#[trigger] entries[i]).0 == name {
        let i = choose|i: int| 0 <= i < entries.len() && (#[trigger] entries[i]).0 == name;
        assert forall|a: int, b: int| 0 <= a < after.len() && 0 <= b < after.len() && a != b implies (
        #[trigger] after[a]).0 != (#[trigger] after[b]).0 by {
            assert(after[a].0 == entries[a].0);
            assert(after[b].0 == entries[b].0);
        }
        lemma_lookup_at(after, name, i);
        assert forall|other: Seq<char>| other != name implies #[trigger] lookup(after, other) == lookup(entries, other) by {
            if exists|k: int| 0 <= k < entries.len() && (#[trigger] entries[k]).0 == other {
                let k = choose|k: int| 0 <= k < entries.len() && (#[trigger] entries[k]).0 == other;
                lemma_lookup_at(entries, other, k);
                assert(after[k] == entries[k]);
                lemma_lookup_at(after, other, k);
            } else {
                assert forall|k: int| 0 <= k < after.len() implies (#[trigger] after[k]).0 != other by {
                    assert(after[k].0 == entries[k].0);
                }
            }
        }
    } else {
        assert forall|a: int, b: int| 0 <= a < after.len() && 0 <= b < after.len() && a != b implies (
        #[trigger] after[a]).0 != (#[trigger] after[b]).0 by {
            if a < entries.len() {
                assert(after[a] == entries[a]);
            }
            if b < entries.len() {
                assert(after[b] == entries[b]);
            }
        }
        lemma_lookup_at(after, name, entries.len() as int);
        assert forall|other: Seq<char>| other != name implies #[trigger] lookup(after, other) == lookup(entries, other) by {
            if exists|k: int| 0 <= k < entries.len() && (#[trigger] entries[k]).0 == other {
                let k = choose|k: int| 0 <= k < entries.len() && (#[trigger] entries[k]).0 == other;
                lemma_lookup_at(entries, other, k);
                assert(after[k] == entries[k]);
                lemma_lookup_at(after, other, k);
            } else {
                assert forall|k: int| 0 <= k < after.len() implies (#[trigger] after[k]).0 != other by {
                    if k < entries.len() {
                        assert(after[k] == entries[k]);
                    }
                }
            }
        }
    }
}

} // verus!
