//! The registry of service descriptors: registration under ids and
//! aliases, lookup, queries, statistics, validation and the analysis of
//! what a service depends on, directly or not.

use vstd::prelude::*;
use crate::assoc::{
    as_map, find_key, lemma_unique_keys_len, get_value, has_key, index_of_key, insert_value, key_seq, keys_unique, lemma_index_of_key,
    remove_value,
};
use crate::clock::now_millis;
use crate::di::lifetime::Lifetime;
use crate::di::service_descriptor::{DescriptorView, ServiceDescriptor, descriptor_problem};
use crate::error::types::AppError;
use crate::text::{char_len, owned, push_str, string_views, str_eq};

verus! {

/// When the registry last changed and how many services it holds.
#[derive(Debug, Clone, Copy, PartialEq, Eq, Structural)]
pub struct RegistryMetadata {
    pub total_services: usize,
    /// Milliseconds since the Unix epoch.
    pub last_updated_ms: i64,
}

/// Service descriptors by id, and aliases from other ids to registered
/// ones.
pub struct ServiceRegistry<F> {
    services: Vec<(String, ServiceDescriptor<F>)>,
    aliases: Vec<(String, String)>,
    metadata: RegistryMetadata,
}

/// The descriptor an id resolves to: the one registered under it, else
/// the one its alias names.
pub open spec fn resolve_in<F>(services: Map<Seq<char>, ServiceDescriptor<F>>, aliases: Map<Seq<char>, String>, id: Seq<char>) -> Option<ServiceDescriptor<F>> {
    if services.contains_key(id) {
        Some(services[id])
    } else if aliases.contains_key(id) && services.contains_key(aliases[id]@) {
        Some(services[aliases[id]@])
    } else {
        None
    }
}

/// The `Dependency injection` error raised by the registry.
pub open spec fn di_error(r: AppError, message: Seq<char>, service_id: Seq<char>) -> bool {
    r matches AppError::DependencyInjection { message: m, service_id: s } && m@ == message && s@ == service_id
}

impl<F> ServiceRegistry<F> {
    /// The descriptors by id.
    pub closed spec fn services(&self) -> Map<Seq<char>, ServiceDescriptor<F>> {
        as_map(self.services@)
    }

    /// The ids, in order of registration.
    pub closed spec fn ids(&self) -> Seq<Seq<char>> {
        key_seq(self.services@)
    }

    /// The aliases: the id each one names.
    pub closed spec fn aliases(&self) -> Map<Seq<char>, String> {
        as_map(self.aliases@)
    }

    /// The metadata.
    pub closed spec fn meta(&self) -> RegistryMetadata {
        self.metadata
    }

    /// Ids and aliases are held once each; the metadata counts the
    /// services.
    pub closed spec fn wf(&self) -> bool {
        &&& keys_unique(self.services@)
        &&& keys_unique(self.aliases@)
    }

    /// The descriptor an id resolves to.
    pub open spec fn resolve(&self, id: Seq<char>) -> Option<ServiceDescriptor<F>> {
        resolve_in(self.services(), self.aliases(), id)
    }

    /// An empty registry, updated now.
    pub fn new() -> (r: ServiceRegistry<F>)
        ensures
            r.wf(),
            r.services() == Map::<Seq<char>, ServiceDescriptor<F>>::empty(),
            r.aliases() == Map::<Seq<char>, String>::empty(),
            r.meta().total_services == 0,
    {
        let r = ServiceRegistry {
            services: Vec::new(),
            aliases: Vec::new(),
            metadata: RegistryMetadata { total_services: 0, last_updated_ms: now_millis() },
        };
        assert(as_map(r.services@) =~= Map::<Seq<char>, ServiceDescriptor<F>>::empty());
        assert(as_map(r.aliases@) =~= Map::<Seq<char>, String>::empty());
        r
    }

    /// Registers `descriptor` under `service_id`, which must be non-empty
    /// and not registered yet.
    pub fn register(&mut self, service_id: &str, descriptor: ServiceDescriptor<F>) -> (r: Result<(), AppError>)
        requires
            old(self).wf(),
        ensures
            final(self).wf(),
            final(self).aliases() == old(self).aliases(),
            service_id@.len() == 0 ==> (r matches Err(e) && di_error(e, "Service ID cannot be empty"@, "registry"@)),
            service_id@.len() != 0 && old(self).services().contains_key(service_id@) ==> (r matches Err(e)
                && di_error(e, "Service '"@ + service_id@ + "' already registered"@, service_id@)),
            r is Ok <==> service_id@.len() != 0 && !old(self).services().contains_key(service_id@),
            r is Ok ==> final(self).services() == old(self).services().insert(service_id@, descriptor),
            r is Err ==> final(self).services() == old(self).services() && final(self).meta() == old(self).meta(),
    {
        if char_len(service_id) == 0 {
            return Err(AppError::DependencyInjection { message: owned("Service ID cannot be empty"), service_id: owned("registry") });
        }
        if get_value(&self.services, service_id).is_some() {
            let mut message = owned("Service '");
            push_str(&mut message, service_id);
            push_str(&mut message, "' already registered");
            return Err(AppError::DependencyInjection { message, service_id: owned(service_id) });
        }
        insert_value(&mut self.services, owned(service_id), descriptor);
        proof {
            assert(key_seq(self.services@).len() == self.services@.len());
        }
        self.metadata = RegistryMetadata { total_services: self.services.len(), last_updated_ms: now_millis() };
        Ok(())
    }

    /// Registers `alias` for the registered service `service_id`.
    pub fn register_alias(&mut self, alias: &str, service_id: &str) -> (r: Result<(), AppError>)
        requires
            old(self).wf(),
        ensures
            final(self).wf(),
            final(self).services() == old(self).services(),
            final(self).meta() == old(self).meta(),
            old(self).aliases().contains_key(alias@) ==> (r matches Err(e)
                && di_error(e, "Alias '"@ + alias@ + "' already exists"@, "registry"@)),
            !old(self).aliases().contains_key(alias@) && !old(self).services().contains_key(service_id@) ==> (r matches Err(e)
                && di_error(e, "Cannot create alias '"@ + alias@ + "' for non-existent service '"@ + service_id@ + "'"@, "registry"@)),
            r is Ok <==> !old(self).aliases().contains_key(alias@) && old(self).services().contains_key(service_id@),
            r is Ok ==> final(self).aliases().dom() == old(self).aliases().dom().insert(alias@)
                && final(self).aliases()[alias@]@ == service_id@
                && forall|a: Seq<char>| a != alias@ && old(self).aliases().contains_key(a) ==> #[trigger] final(self).aliases()[a] == old(self).aliases()[a],
            r is Err ==> final(self).aliases() == old(self).aliases(),
    {
        if get_value(&self.aliases, alias).is_some() {
            let mut message = owned("Alias '");
            push_str(&mut message, alias);
            push_str(&mut message, "' already exists");
            return Err(AppError::DependencyInjection { message, service_id: owned("registry") });
        }
        if get_value(&self.services, service_id).is_none() {
            let mut message = owned("Cannot create alias '");
            push_str(&mut message, alias);
            push_str(&mut message, "' for non-existent service '");
            push_str(&mut message, service_id);
            push_str(&mut message, "'");
            return Err(AppError::DependencyInjection { message, service_id: owned("registry") });
        }
        insert_value(&mut self.aliases, owned(alias), owned(service_id));
        Ok(())
    }

    /// The descriptor an id resolves to: the one registered under it,
    /// else the one its alias names.
    pub fn get(&self, service_id: &str) -> (r: Option<&ServiceDescriptor<F>>)
        requires
            self.wf(),
        ensures
            match r {
                Some(d) => self.resolve(service_id@) == Some(*d),
                None => self.resolve(service_id@) is None,
            },
    {
        match get_value(&self.services, service_id) {
            Some(d) => Some(d),
            None => match get_value(&self.aliases, service_id) {
                Some(actual) => get_value(&self.services, actual.as_str()),
                None => None,
            },
        }
    }

    /// The descriptor an id resolves to, with the id it is registered
    /// under.
    pub fn get_with_alias_resolution(&self, service_id: &str) -> (r: Option<(&ServiceDescriptor<F>, String)>)
        requires
            self.wf(),
        ensures
            match r {
                Some((d, id)) => self.resolve(service_id@) == Some(*d) && self.services().contains_key(id@)
                    && self.services()[id@] == *d
                    && id@ == if self.services().contains_key(service_id@) { service_id@ } else { self.aliases()[service_id@]@ },
                None => self.resolve(service_id@) is None,
            },
    {
        match get_value(&self.services, service_id) {
            Some(d) => Some((d, owned(service_id))),
            None => match get_value(&self.aliases, service_id) {
                Some(actual) => match get_value(&self.services, actual.as_str()) {
                    Some(d) => Some((d, actual.clone())),
                    None => None,
                },
                None => None,
            },
        }
    }

    /// Removes a service and every alias naming it; whether it was
    /// registered.
    pub fn unregister(&mut self, service_id: &str) -> (r: Result<bool, AppError>)
        requires
            old(self).wf(),
        ensures
            final(self).wf(),
            r == Ok::<bool, AppError>(old(self).services().contains_key(service_id@)),
            final(self).services() == old(self).services().remove(service_id@),
            old(self).services().contains_key(service_id@) ==>
                final(self).aliases() == old(self).aliases().restrict(
                    old(self).aliases().dom().filter(|a: Seq<char>| old(self).aliases()[a]@ != service_id@)),
            !old(self).services().contains_key(service_id@) ==> final(self).aliases() == old(self).aliases()
                && final(self).meta() == old(self).meta(),
    {
        let removed = remove_value(&mut self.services, service_id);
        match removed {
            None => Ok(false),
            Some(_) => {
                let ghost old_aliases = self.aliases@;
                let mut kept: Vec<(String, String)> = Vec::new();
                let mut i: usize = 0;
                while i < self.aliases.len()
                    invariant
                        i <= self.aliases@.len(),
                        self.aliases@ == old_aliases,
                        keys_unique(old_aliases),
                        keys_unique(kept@),
                        forall|k: int| #![trigger kept@[k]] 0 <= k < kept@.len() ==> exists|q: int| 0 <= q < i && #[trigger] old_aliases[q].0@ == kept@[k].0@,
                        as_map(kept@) == as_map(old_aliases.subrange(0, i as int)).restrict(
                            as_map(old_aliases.subrange(0, i as int)).dom().filter(|a: Seq<char>| as_map(old_aliases.subrange(0, i as int))[a]@ != service_id@)),
                    decreases self.aliases@.len() - i,
                {
                    proof {
                        let pre = old_aliases.subrange(0, i as int);
                        let nxt = old_aliases.subrange(0, i + 1);
                        assert(nxt =~= pre.push(old_aliases[i as int]));
                        assert(keys_unique(nxt));
                        assert(!has_key(pre, old_aliases[i as int].0@));
                        assert(as_map(nxt) =~= as_map(pre).insert(old_aliases[i as int].0@, old_aliases[i as int].1)) by {
                            assert forall|k: Seq<char>| #[trigger] as_map(nxt).contains_key(k) == as_map(pre).insert(old_aliases[i as int].0@, old_aliases[i as int].1).contains_key(k) by {
                                if has_key(nxt, k) {
                                    let q = choose|q: int| 0 <= q < nxt.len() && #[trigger] nxt[q].0@ == k;
                                    if q < i { assert(pre[q].0@ == k); }
                                }
                                if has_key(pre, k) {
                                    let q = choose|q: int| 0 <= q < pre.len() && #[trigger] pre[q].0@ == k;
                                    assert(nxt[q].0@ == k);
                                }
                                if k == old_aliases[i as int].0@ { assert(nxt[i as int].0@ == k); }
                            }
                            assert forall|k: Seq<char>| #[trigger] as_map(nxt).contains_key(k) implies as_map(nxt)[k] == as_map(pre).insert(old_aliases[i as int].0@, old_aliases[i as int].1)[k] by {
                                let q = index_of_key(nxt, k);
                                lemma_index_of_key(nxt, q);
                                if q < i {
                                    lemma_index_of_key(pre, q);
                                } else {
                                    assert(q == i);
                                }
                            }
                        }
                    }
                    let entry = &self.aliases[i];
                    if !str_eq(entry.1.as_str(), service_id) {
                        let ghost before = kept@;
                        proof {
                            if has_key(kept@, entry.0@) {
                                let k = choose|k: int| 0 <= k < kept@.len() && #[trigger] kept@[k].0@ == entry.0@;
                                let q = choose|q: int| 0 <= q < i && #[trigger] old_aliases[q].0@ == kept@[k].0@;
                                assert(false);
                            }
                        }
                        insert_value(&mut kept, entry.0.clone(), entry.1.clone());
                        proof {
                            assert forall|k: int| #![trigger kept@[k]] 0 <= k < kept@.len() implies exists|q: int| 0 <= q < i + 1 && #[trigger] old_aliases[q].0@ == kept@[k].0@ by {
                                if kept@[k].0@ != entry.0@ {
                                    assert(has_key(kept@, kept@[k].0@));
                                    assert(as_map(kept@).contains_key(kept@[k].0@));
                                    assert(as_map(before).contains_key(kept@[k].0@));
                                    let kk = index_of_key(before, kept@[k].0@);
                                    let q = choose|q: int| 0 <= q < i && #[trigger] old_aliases[q].0@ == before[kk].0@;
                                    assert(old_aliases[q].0@ == kept@[k].0@);
                                } else {
                                    assert(old_aliases[i as int].0@ == kept@[k].0@);
                                }
                            }
                        }
                    }
                    proof {
                        let nxt = old_aliases.subrange(0, i + 1);
                        let m = as_map(nxt);
                        assert(as_map(kept@) =~= m.restrict(m.dom().filter(|a: Seq<char>| m[a]@ != service_id@)));
                    }
                    i = i + 1;
                }
                assert(old_aliases.subrange(0, i as int) =~= old_aliases);
                self.aliases = kept;
                self.metadata = RegistryMetadata { total_services: self.services.len(), last_updated_ms: now_millis() };
                Ok(true)
            },
        }
    }

    /// Removes an alias; whether it existed.
    pub fn unregister_alias(&mut self, alias: &str) -> (r: Result<bool, AppError>)
        requires
            old(self).wf(),
        ensures
            final(self).wf(),
            final(self).services() == old(self).services(),
            final(self).meta() == old(self).meta(),
            final(self).aliases() == old(self).aliases().remove(alias@),
            r == Ok::<bool, AppError>(old(self).aliases().contains_key(alias@)),
    {
        let removed = remove_value(&mut self.aliases, alias);
        Ok(removed.is_some())
    }

    /// Whether an id resolves to a descriptor.
    pub fn is_registered(&self, service_id: &str) -> (r: bool)
        requires
            self.wf(),
        ensures
            r == self.resolve(service_id@) is Some,
    {
        self.get(service_id).is_some()
    }

    /// The number of services.
    pub fn count(&self) -> (r: usize)
        requires
            self.wf(),
        ensures
            r == self.services().dom().len(),
    {
        proof {
            lemma_unique_keys_len(self.services@);
        }
        self.services.len()
    }

    /// Whether no service is registered.
    pub fn is_empty(&self) -> (r: bool)
        requires
            self.wf(),
        ensures
            r == (self.services().dom().len() == 0),
    {
        self.count() == 0
    }
}


/// A problem found when validating the registry.
#[derive(Debug, Clone)]
pub enum ValidationError {
    DuplicateService { id: String },
    InvalidDescriptor { id: String, error: String },
    MissingDependency { service_id: String, dependency_id: String },
    InvalidAlias { alias: String, target_id: String },
}

/// The text of a validation problem.
pub open spec fn validation_error_text(e: ValidationError) -> Seq<char> {
    match e {
        ValidationError::DuplicateService { id } => "Duplicate service registration: "@ + id@,
        ValidationError::InvalidDescriptor { id, error } => "Invalid descriptor for '"@ + id@ + "': "@ + error@,
        ValidationError::MissingDependency { service_id, dependency_id } =>
            "Service '"@ + service_id@ + "' has missing dependency: "@ + dependency_id@,
        ValidationError::InvalidAlias { alias, target_id } =>
            "Invalid alias '"@ + alias@ + "' pointing to non-existent service '"@ + target_id@ + "'"@,
    }
}

impl ValidationError {
    /// The problem as text, as `Display` shows it.
    pub fn to_string(&self) -> (r: String)
        ensures
            r@ == validation_error_text(*self),
    {
        match self {
            ValidationError::DuplicateService { id } => {
                let mut out = owned("Duplicate service registration: ");
                push_str(&mut out, id.as_str());
                out
            },
            ValidationError::InvalidDescriptor { id, error } => {
                let mut out = owned("Invalid descriptor for '");
                push_str(&mut out, id.as_str());
                push_str(&mut out, "': ");
                push_str(&mut out, error.as_str());
                out
            },
            ValidationError::MissingDependency { service_id, dependency_id } => {
                let mut out = owned("Service '");
                push_str(&mut out, service_id.as_str());
                push_str(&mut out, "' has missing dependency: ");
                push_str(&mut out, dependency_id.as_str());
                out
            },
            ValidationError::InvalidAlias { alias, target_id } => {
                let mut out = owned("Invalid alias '");
                push_str(&mut out, alias.as_str());
                push_str(&mut out, "' pointing to non-existent service '");
                push_str(&mut out, target_id.as_str());
                push_str(&mut out, "'");
                out
            },
        }
    }
}

/// The problem as plain values: its kind (0 duplicate, 1 invalid
/// descriptor, 2 missing dependency, 3 invalid alias) and its two texts.
pub open spec fn problem_view(e: ValidationError) -> (u8, Seq<char>, Seq<char>) {
    match e {
        ValidationError::DuplicateService { id } => (0u8, id@, Seq::empty()),
        ValidationError::InvalidDescriptor { id, error } => (1u8, id@, error@),
        ValidationError::MissingDependency { service_id, dependency_id } => (2u8, service_id@, dependency_id@),
        ValidationError::InvalidAlias { alias, target_id } => (3u8, alias@, target_id@),
    }
}

/// The problems of one service, in order: each dependency that is not
/// registered, then the descriptor's own problem, if any.
pub open spec fn service_problems<F>(services: Map<Seq<char>, ServiceDescriptor<F>>, id: Seq<char>, d: DescriptorView) -> Seq<(u8, Seq<char>, Seq<char>)> {
    d.dependencies.filter(|dep: Seq<char>| !services.contains_key(dep)).map_values(|dep: Seq<char>| (2u8, id, dep))
        + match descriptor_problem(d) {
            Some(m) => seq![(1u8, id, "Dependency injection error: "@ + m)],
            None => Seq::empty(),
        }
}

/// The problems of the services in `entries`, service by service.
pub open spec fn all_service_problems<F>(services: Map<Seq<char>, ServiceDescriptor<F>>, entries: Seq<(String, ServiceDescriptor<F>)>) -> Seq<(u8, Seq<char>, Seq<char>)>
    decreases entries.len(),
{
    if entries.len() == 0 {
        Seq::empty()
    } else {
        all_service_problems(services, entries.drop_last())
            + service_problems(services, entries.last().0@, entries.last().1.dv())
    }
}

/// The aliases in `entries` whose target is not registered.
pub open spec fn alias_problems<F>(services: Map<Seq<char>, ServiceDescriptor<F>>, entries: Seq<(String, String)>) -> Seq<(u8, Seq<char>, Seq<char>)> {
    entries.filter(|e: (String, String)| !services.contains_key(e.1@)).map_values(|e: (String, String)| (3u8, e.0@, e.1@))
}

impl<F> ServiceRegistry<F> {
    /// The services in order of registration.
    pub closed spec fn entries(&self) -> Seq<(String, ServiceDescriptor<F>)> {
        self.services@
    }

    /// The aliases in order of registration.
    pub closed spec fn alias_entries(&self) -> Seq<(String, String)> {
        self.aliases@
    }

    /// The registered ids, in order of registration.
    pub fn get_service_ids(&self) -> (r: Vec<String>)
        ensures
            string_views(r@) == self.ids(),
    {
        let mut out: Vec<String> = Vec::new();
        let mut i: usize = 0;
        while i < self.services.len()
            invariant
                i <= self.services@.len(),
                string_views(out@) == key_seq(self.services@.subrange(0, i as int)),
            decreases self.services@.len() - i,
        {
            let ghost before = out@;
            out.push(self.services[i].0.clone());
            assert(string_views(out@) =~= string_views(before).push(self.services@[i as int].0@));
            assert(key_seq(self.services@.subrange(0, i + 1)) =~= key_seq(self.services@.subrange(0, i as int)).push(self.services@[i as int].0@));
            i = i + 1;
        }
        assert(self.services@.subrange(0, i as int) =~= self.services@);
        out
    }

    /// The aliases with the ids they name, in order of registration.
    pub fn get_aliases(&self) -> (r: Vec<(String, String)>)
        ensures
            r@.len() == self.alias_entries().len(),
            forall|k: int| 0 <= k < r@.len() ==> #[trigger] r@[k].0@ == self.alias_entries()[k].0@ && r@[k].1@ == self.alias_entries()[k].1@,
    {
        let mut out: Vec<(String, String)> = Vec::new();
        let mut i: usize = 0;
        while i < self.aliases.len()
            invariant
                i <= self.aliases@.len(),
                out@.len() == i,
                forall|k: int| 0 <= k < i ==> #[trigger] out@[k].0@ == self.aliases@[k].0@ && out@[k].1@ == self.aliases@[k].1@,
            decreases self.aliases@.len() - i,
        {
            out.push((self.aliases[i].0.clone(), self.aliases[i].1.clone()));
            i = i + 1;
        }
        out
    }

    /// The ids of the services of a type, in order of registration.
    pub fn get_services_by_type(&self, service_type: &str) -> (r: Vec<String>)
        ensures
            string_views(r@) == key_seq(self.entries().filter(|e: (String, ServiceDescriptor<F>)| e.1.dv().service_type == service_type@)),
    {
        let ghost p = |e: (String, ServiceDescriptor<F>)| e.1.dv().service_type == service_type@;
        let mut out: Vec<String> = Vec::new();
        let mut i: usize = 0;
        while i < self.services.len()
            invariant
                i <= self.services@.len(),
                string_views(out@) == key_seq(self.services@.subrange(0, i as int).filter(p)),
                p == (|e: (String, ServiceDescriptor<F>)| e.1.dv().service_type == service_type@),
            decreases self.services@.len() - i,
        {
            let ghost before = out@;
            let ghost pre = self.services@.subrange(0, i as int);
            assert(self.services@.subrange(0, i + 1) =~= pre.push(self.services@[i as int]));
            proof {
                pre.lemma_filter_push(self.services@[i as int], p);
            }
            if str_eq(self.services[i].1.service_type(), service_type) {
                out.push(self.services[i].0.clone());
                assert(string_views(out@) =~= string_views(before).push(self.services@[i as int].0@));
                assert(p(self.services@[i as int]));
                assert(pre.push(self.services@[i as int]).filter(p) == pre.filter(p).push(self.services@[i as int]));
                assert(key_seq(pre.filter(p).push(self.services@[i as int])) =~= key_seq(pre.filter(p)).push(self.services@[i as int].0@));
            } else {
                assert(!p(self.services@[i as int]));
                assert(pre.push(self.services@[i as int]).filter(p) == pre.filter(p));
            }
            i = i + 1;
        }
        assert(self.services@.subrange(0, i as int) =~= self.services@);
        out
    }

    /// The ids of the services with a tag, in order of registration.
    pub fn get_services_by_tag(&self, tag: &str) -> (r: Vec<String>)
        ensures
            string_views(r@) == key_seq(self.entries().filter(|e: (String, ServiceDescriptor<F>)| e.1.dv().tags.contains(tag@))),
    {
        let ghost p = |e: (String, ServiceDescriptor<F>)| e.1.dv().tags.contains(tag@);
        let mut out: Vec<String> = Vec::new();
        let mut i: usize = 0;
        while i < self.services.len()
            invariant
                i <= self.services@.len(),
                string_views(out@) == key_seq(self.services@.subrange(0, i as int).filter(p)),
                p == (|e: (String, ServiceDescriptor<F>)| e.1.dv().tags.contains(tag@)),
            decreases self.services@.len() - i,
        {
            let ghost before = out@;
            let ghost pre = self.services@.subrange(0, i as int);
            assert(self.services@.subrange(0, i + 1) =~= pre.push(self.services@[i as int]));
            proof {
                pre.lemma_filter_push(self.services@[i as int], p);
            }
            let tags = self.services[i].1.tags();
            let found = crate::assoc::list_contains(tags, tag);
            proof {
                let tv = self.services@[i as int].1.dv().tags;
                if found {
                    let k = choose|k: int| 0 <= k < tags@.len() && #[trigger] tags@[k]@ == tag@;
                    assert(tv[k] == tag@);
                }
                if tv.contains(tag@) {
                    let k = choose|k: int| 0 <= k < tv.len() && tv[k] == tag@;
                    assert(tags@[k]@ == tag@);
                }
            }
            if found {
                out.push(self.services[i].0.clone());
                assert(string_views(out@) =~= string_views(before).push(self.services@[i as int].0@));
                assert(p(self.services@[i as int]));
                assert(pre.push(self.services@[i as int]).filter(p) == pre.filter(p).push(self.services@[i as int]));
                assert(key_seq(pre.filter(p).push(self.services@[i as int])) =~= key_seq(pre.filter(p)).push(self.services@[i as int].0@));
            } else {
                assert(!p(self.services@[i as int]));
                assert(pre.push(self.services@[i as int]).filter(p) == pre.filter(p));
            }
            i = i + 1;
        }
        assert(self.services@.subrange(0, i as int) =~= self.services@);
        out
    }

    /// The registered entries, in order of registration.
    pub(crate) fn service_entries(&self) -> (r: &Vec<(String, ServiceDescriptor<F>)>)
        ensures
            r@ == self.entries(),
    {
        &self.services
    }

    /// The alias entries.
    pub(crate) fn alias_list(&self) -> (r: &Vec<(String, String)>)
        ensures
            r@ == self.alias_entries(),
    {
        &self.aliases
    }

    /// The metadata.
    pub(crate) fn meta_ref(&self) -> (r: &RegistryMetadata)
        ensures
            *r == self.meta(),
    {
        &self.metadata
    }

    /// Replaces the metadata.
    pub(crate) fn set_meta(&mut self, metadata: RegistryMetadata)
        requires
            old(self).wf(),
        ensures
            final(self).wf(),
            final(self).services() == old(self).services(),
            final(self).aliases() == old(self).aliases(),
            final(self).meta() == metadata,
            final(self).entries() == old(self).entries(),
            final(self).alias_entries() == old(self).alias_entries(),
    {
        self.metadata = metadata;
    }

    /// Drops every service and alias; the metadata starts afresh now.
    pub fn clear(&mut self) -> (r: Result<(), AppError>)
        requires
            old(self).wf(),
        ensures
            final(self).wf(),
            r is Ok,
            final(self).services() == Map::<Seq<char>, ServiceDescriptor<F>>::empty(),
            final(self).aliases() == Map::<Seq<char>, String>::empty(),
            final(self).meta().total_services == 0,
    {
        self.services = Vec::new();
        self.aliases = Vec::new();
        self.metadata = RegistryMetadata { total_services: 0, last_updated_ms: now_millis() };
        assert(as_map(self.services@) =~= Map::<Seq<char>, ServiceDescriptor<F>>::empty());
        assert(as_map(self.aliases@) =~= Map::<Seq<char>, String>::empty());
        Ok(())
    }
}

/// The problems as plain values.
pub open spec fn problem_views(s: Seq<ValidationError>) -> Seq<(u8, Seq<char>, Seq<char>)> {
    s.map_values(|e: ValidationError| problem_view(e))
}

impl<F> ServiceRegistry<F> {
    /// The problems of the registry, in order: for each service in order
    /// of registration, its dependencies that are not registered, then its
    /// descriptor's own problem; then each alias whose target is not
    /// registered.
    pub fn validate(&self) -> (r: Vec<ValidationError>)
        requires
            self.wf(),
        ensures
            problem_views(r@) == all_service_problems(self.services(), self.entries())
                + alias_problems(self.services(), self.alias_entries()),
    {
        let ghost smap = as_map(self.services@);
        let mut out: Vec<ValidationError> = Vec::new();
        let mut i: usize = 0;
        assert(problem_views(out@) =~= Seq::<(u8, Seq<char>, Seq<char>)>::empty());
        while i < self.services.len()
            invariant
                i <= self.services@.len(),
                smap == as_map(self.services@),
                keys_unique(self.services@),
                problem_views(out@) == all_service_problems(smap, self.services@.subrange(0, i as int)),
            decreases self.services@.len() - i,
        {
            let id = &self.services[i].0;
            let d = &self.services[i].1;
            let deps = d.dependencies();
            let ghost base = problem_views(out@);
            let ghost dv = d.dv();
            let ghost missing = |dep: Seq<char>| !smap.contains_key(dep);
            let ghost tomiss = |dep: Seq<char>| (2u8, id@, dep);
            let mut j: usize = 0;
            assert(dv.dependencies.subrange(0, 0).filter(missing) =~= Seq::<Seq<char>>::empty()) by {
                reveal(Seq::filter);
            }
            assert(problem_views(out@) =~= base + dv.dependencies.subrange(0, 0).filter(missing).map_values(tomiss));
            while j < deps.len()
                invariant
                    j <= deps@.len(),
                    string_views(deps@) == dv.dependencies,
                    smap == as_map(self.services@),
                    keys_unique(self.services@),
                    missing == (|dep: Seq<char>| !smap.contains_key(dep)),
                    tomiss == (|dep: Seq<char>| (2u8, id@, dep)),
                    problem_views(out@) == base + dv.dependencies.subrange(0, j as int).filter(missing).map_values(tomiss),
                decreases deps@.len() - j,
            {
                let dep = &deps[j];
                let ghost pre = dv.dependencies.subrange(0, j as int);
                assert(dv.dependencies.subrange(0, j + 1) =~= pre.push(dep@));
                proof {
                    pre.lemma_filter_push(dep@, missing);
                }
                let ghost before = out@;
                if get_value(&self.services, dep.as_str()).is_none() {
                    out.push(ValidationError::MissingDependency { service_id: id.clone(), dependency_id: dep.clone() });
                    assert(problem_views(out@) =~= problem_views(before).push((2u8, id@, dep@)));
                    assert(pre.filter(missing).push(dep@).map_values(tomiss) =~= pre.filter(missing).map_values(tomiss).push((2u8, id@, dep@)));
                }
                j = j + 1;
            }
            assert(dv.dependencies.subrange(0, j as int) =~= dv.dependencies);
            let ghost mid = out@;
            match d.validate() {
                Err(e) => {
                    let text = e.to_string();
                    out.push(ValidationError::InvalidDescriptor { id: id.clone(), error: text });
                    assert(problem_views(out@) =~= problem_views(mid).push(problem_view(out@.last())));
                },
                Ok(()) => {},
            }
            proof {
                let pre = self.services@.subrange(0, i as int);
                let nxt = self.services@.subrange(0, i + 1);
                assert(nxt.drop_last() =~= pre);
                assert(nxt.last() == self.services@[i as int]);
                let sp = service_problems(smap, id@, dv);
                assert(problem_views(out@) =~= base + sp);
            }
            i = i + 1;
        }
        assert(self.services@.subrange(0, i as int) =~= self.services@);
        let ghost svc_part = problem_views(out@);
        let ghost bad = |e: (String, String)| !smap.contains_key(e.1@);
        let ghost toalias = |e: (String, String)| (3u8, e.0@, e.1@);
        let mut k: usize = 0;
        assert(self.aliases@.subrange(0, 0).filter(bad) =~= Seq::<(String, String)>::empty()) by {
            reveal(Seq::filter);
        }
        assert(problem_views(out@) =~= svc_part + self.aliases@.subrange(0, 0).filter(bad).map_values(toalias));
        while k < self.aliases.len()
            invariant
                k <= self.aliases@.len(),
                smap == as_map(self.services@),
                keys_unique(self.services@),
                bad == (|e: (String, String)| !smap.contains_key(e.1@)),
                toalias == (|e: (String, String)| (3u8, e.0@, e.1@)),
                problem_views(out@) == svc_part + self.aliases@.subrange(0, k as int).filter(bad).map_values(toalias),
            decreases self.aliases@.len() - k,
        {
            let ghost pre = self.aliases@.subrange(0, k as int);
            let ghost e = self.aliases@[k as int];
            assert(self.aliases@.subrange(0, k + 1) =~= pre.push(e));
            proof {
                pre.lemma_filter_push(e, bad);
            }
            let ghost before = out@;
            if get_value(&self.services, self.aliases[k].1.as_str()).is_none() {
                out.push(ValidationError::InvalidAlias { alias: self.aliases[k].0.clone(), target_id: self.aliases[k].1.clone() });
                assert(problem_views(out@) =~= problem_views(before).push((3u8, e.0@, e.1@)));
                assert(pre.filter(bad).push(e).map_values(toalias) =~= pre.filter(bad).map_values(toalias).push((3u8, e.0@, e.1@)));
            }
            k = k + 1;
        }
        assert(self.aliases@.subrange(0, k as int) =~= self.aliases@);
        out
    }
}

/// The ids that the service an id resolves to depends on.
pub open spec fn child_ids<F>(reg: ServiceRegistry<F>, x: Seq<char>) -> Seq<Seq<char>> {
    match reg.resolve(x) {
        Some(d) => d.dv().dependencies,
        None => Seq::empty(),
    }
}

/// `s` holds every root, and every dependency of the services its ids
/// resolve to, except the blocked ids.
pub open spec fn closed_over<F>(reg: ServiceRegistry<F>, roots: Seq<Seq<char>>, blocked: Seq<Seq<char>>, s: Set<Seq<char>>) -> bool {
    &&& forall|i: int| 0 <= i < roots.len() && !blocked.contains(roots[i]) ==> s.contains(#[trigger] roots[i])
    &&& forall|x: Seq<char>, i: int| s.contains(x) && 0 <= i < child_ids(reg, x).len() && !blocked.contains(child_ids(reg, x)[i])
        ==> s.contains(#[trigger] child_ids(reg, x)[i])
}

/// `x` is reached from the roots through dependencies, not passing
/// through a blocked id: every set closed in that way holds it.
pub open spec fn reachable<F>(reg: ServiceRegistry<F>, roots: Seq<Seq<char>>, blocked: Seq<Seq<char>>, x: Seq<char>) -> bool {
    forall|s: Set<Seq<char>>| #[trigger] closed_over(reg, roots, blocked, s) ==> s.contains(x)
}

/// The ids reached from the roots.
pub open spec fn reach_set<F>(reg: ServiceRegistry<F>, roots: Seq<Seq<char>>, blocked: Seq<Seq<char>>) -> Set<Seq<char>> {
    Set::new(|x: Seq<char>| reachable(reg, roots, blocked, x))
}

/// Whether a string is among those of `v`.
fn has_string(v: &Vec<String>, s: &str) -> (r: bool)
    ensures
        r == string_views(v@).contains(s@),
{
    let r = crate::assoc::list_contains(v, s);
    proof {
        if r {
            let k = choose|k: int| 0 <= k < v@.len() && #[trigger] v@[k]@ == s@;
            assert(string_views(v@)[k] == s@);
        }
        if string_views(v@).contains(s@) {
            let k = choose|k: int| 0 <= k < string_views(v@).len() && string_views(v@)[k] == s@;
            assert(v@[k]@ == s@);
        }
    }
    r
}

/// A list without repeats whose items all occur in another list is no
/// longer than it.
proof fn lemma_distinct_within(a: Seq<Seq<char>>, b: Seq<Seq<char>>)
    requires
        a.no_duplicates(),
        forall|i: int| 0 <= i < a.len() ==> b.contains(#[trigger] a[i]),
    ensures
        a.len() <= b.len(),
{
    a.unique_seq_to_set();
    b.lemma_cardinality_of_set();
    assert(a.to_set().subset_of(b.to_set())) by {
        assert forall|x: Seq<char>| a.to_set().contains(x) implies b.to_set().contains(x) by {
            let i = choose|i: int| 0 <= i < a.len() && a[i] == x;
            assert(b.contains(a[i]));
        }
    }
    vstd::set_lib::lemma_len_subset(a.to_set(), b.to_set());
}

/// Filtering a list without repeats leaves one without repeats.
proof fn lemma_filter_distinct(s: Seq<Seq<char>>, p: spec_fn(Seq<char>) -> bool)
    requires
        s.no_duplicates(),
    ensures
        s.filter(p).no_duplicates(),
        forall|x: Seq<char>| s.filter(p).contains(x) <==> s.contains(x) && p(x),
    decreases s.len(),
{
    if s.len() == 0 {
        assert(s.filter(p) =~= Seq::<Seq<char>>::empty()) by {
            reveal(Seq::filter);
        }
    } else {
        let pre = s.drop_last();
        assert(pre.no_duplicates());
        lemma_filter_distinct(pre, p);
        assert(pre.push(s.last()) =~= s);
        pre.lemma_filter_push(s.last(), p);
        assert(!pre.contains(s.last())) by {
            if pre.contains(s.last()) {
                let k = choose|k: int| 0 <= k < pre.len() && pre[k] == s.last();
                assert(s[k] == s[s.len() - 1]);
            }
        }
        assert forall|x: Seq<char>| s.filter(p).contains(x) <==> s.contains(x) && p(x) by {
            if s.contains(x) && x != s.last() {
                let k = choose|k: int| 0 <= k < s.len() && s[k] == x;
                assert(pre[k] == x);
            }
            if pre.contains(x) {
                let k = choose|k: int| 0 <= k < pre.len() && pre[k] == x;
                assert(s[k] == x);
            }
            if x == s.last() {
                assert(s[s.len() - 1] == x);
            }
        }
    }
}

impl<F> ServiceRegistry<F> {
    /// Every root and every dependency of a registered service.
    fn universe_of(&self, roots: &Vec<String>) -> (u: Vec<String>)
        ensures
            forall|i: int| 0 <= i < roots@.len() ==> string_views(u@).contains(#[trigger] roots@[i]@),
            forall|q: int, i: int| 0 <= q < self.services@.len() && 0 <= i < self.services@[q].1.dv().dependencies.len()
                ==> string_views(u@).contains(#[trigger] self.services@[q].1.dv().dependencies[i]),
    {
        let mut u: Vec<String> = Vec::new();
        let mut i: usize = 0;
        while i < roots.len()
            invariant
                i <= roots@.len(),
                string_views(u@) == string_views(roots@.subrange(0, i as int)),
            decreases roots@.len() - i,
        {
            let ghost before = u@;
            u.push(roots[i].clone());
            assert(string_views(u@) =~= string_views(before).push(roots@[i as int]@));
            assert(string_views(roots@.subrange(0, i + 1)) =~= string_views(roots@.subrange(0, i as int)).push(roots@[i as int]@));
            i = i + 1;
        }
        assert(roots@.subrange(0, i as int) =~= roots@);
        proof {
            assert forall|k: int| 0 <= k < roots@.len() implies string_views(u@).contains(#[trigger] roots@[k]@) by {
                assert(string_views(u@)[k] == roots@[k]@);
            }
        }
        let mut q: usize = 0;
        while q < self.services.len()
            invariant
                q <= self.services@.len(),
                forall|k: int| 0 <= k < roots@.len() ==> string_views(u@).contains(#[trigger] roots@[k]@),
                forall|qq: int, k: int| 0 <= qq < q && 0 <= k < self.services@[qq].1.dv().dependencies.len()
                    ==> string_views(u@).contains(#[trigger] self.services@[qq].1.dv().dependencies[k]),
            decreases self.services@.len() - q,
        {
            let deps = self.services[q].1.dependencies();
            let mut j: usize = 0;
            while j < deps.len()
                invariant
                    j <= deps@.len(),
                    string_views(deps@) == self.services@[q as int].1.dv().dependencies,
                    forall|k: int| 0 <= k < roots@.len() ==> string_views(u@).contains(#[trigger] roots@[k]@),
                    forall|qq: int, k: int| 0 <= qq < q && 0 <= k < self.services@[qq].1.dv().dependencies.len()
                        ==> string_views(u@).contains(#[trigger] self.services@[qq].1.dv().dependencies[k]),
                    forall|k: int| 0 <= k < j ==> string_views(u@).contains(#[trigger] self.services@[q as int].1.dv().dependencies[k]),
                decreases deps@.len() - j,
            {
                let ghost before = string_views(u@);
                u.push(deps[j].clone());
                proof {
                    let after = string_views(u@);
                    assert(after =~= before.push(deps@[j as int]@));
                    assert forall|x: Seq<char>| before.contains(x) implies after.contains(x) by {
                        let k = choose|k: int| 0 <= k < before.len() && before[k] == x;
                        assert(after[k] == x);
                    }
                    assert(after[before.len() as int] == deps@[j as int]@);
                    assert(self.services@[q as int].1.dv().dependencies[j as int] == deps@[j as int]@);
                }
                j = j + 1;
            }
            q = q + 1;
        }
        u
    }

    /// The ids reached from `roots` through dependencies without passing
    /// through a blocked id, each once.
    fn reach(&self, roots: &Vec<String>, blocked: &Vec<String>) -> (v: Vec<String>)
        requires
            self.wf(),
        ensures
            string_views(v@).no_duplicates(),
            forall|x: Seq<char>| string_views(v@).contains(x) <==> reachable(*self, string_views(roots@), string_views(blocked@), x),
    {
        let u = self.universe_of(roots);
        let ghost us = string_views(u@);
        let ghost rs = string_views(roots@);
        let ghost bs = string_views(blocked@);
        let ghost reg = *self;
        proof {
            assert forall|x: Seq<char>, k: int| 0 <= k < child_ids(reg, x).len() implies us.contains(#[trigger] child_ids(reg, x)[k]) by {
                let smap = as_map(self.services@);
                let key = if smap.contains_key(x) { x } else { as_map(self.aliases@)[x]@ };
                let q = index_of_key(self.services@, key);
                lemma_index_of_key(self.services@, q);
                assert(child_ids(reg, x) == self.services@[q].1.dv().dependencies);
            }
            assert forall|k: int| 0 <= k < rs.len() implies us.contains(#[trigger] rs[k]) by {
                assert(rs[k] == roots@[k]@);
            }
        }
        let mut visited: Vec<String> = Vec::new();
        let mut stack: Vec<String> = Vec::new();
        let mut i: usize = 0;
        assert(string_views(visited@) =~= Seq::<Seq<char>>::empty());
        while i < roots.len()
            invariant
                i <= roots@.len(),
                rs == string_views(roots@),
                bs == string_views(blocked@),
                reg == *self,
                string_views(visited@).no_duplicates(),
                string_views(stack@) == string_views(visited@),
                forall|k: int| 0 <= k < rs.len() ==> us.contains(#[trigger] rs[k]),
                forall|k: int| 0 <= k < string_views(visited@).len() ==> us.contains(#[trigger] string_views(visited@)[k]),
                forall|k: int| 0 <= k < string_views(visited@).len() ==> reachable(reg, rs, bs, #[trigger] string_views(visited@)[k]),
                forall|k: int| 0 <= k < i && !bs.contains(rs[k]) ==> string_views(visited@).contains(#[trigger] rs[k]),
            decreases roots@.len() - i,
        {
            let r = &roots[i];
            if !has_string(blocked, r.as_str()) && !has_string(&visited, r.as_str()) {
                let ghost vb = string_views(visited@);
                visited.push(r.clone());
                stack.push(r.clone());
                proof {
                    let va = string_views(visited@);
                    assert(va =~= vb.push(r@));
                    assert(string_views(stack@) =~= va);
                    assert(rs[i as int] == r@);
                    assert forall|s: Set<Seq<char>>| #[trigger] closed_over(reg, rs, bs, s) implies s.contains(r@) by {
                        assert(s.contains(rs[i as int]));
                    }
                    assert forall|a: int, b: int| 0 <= a < va.len() && 0 <= b < va.len() && a != b implies va[a] != va[b] by {
                        if b == vb.len() { assert(vb.contains(vb[a])); }
                        if a == vb.len() { assert(vb.contains(vb[b])); }
                    }
                    assert forall|k: int| 0 <= k < i + 1 && !bs.contains(rs[k]) implies va.contains(#[trigger] rs[k]) by {
                        if k < i {
                            let m = choose|m: int| 0 <= m < vb.len() && vb[m] == rs[k];
                            assert(va[m] == rs[k]);
                        } else {
                            assert(va[vb.len() as int] == rs[k]);
                        }
                    }
                    assert forall|k: int| 0 <= k < va.len() implies reachable(reg, rs, bs, #[trigger] va[k]) by {
                        if k < vb.len() { assert(va[k] == vb[k]); }
                    }
                    assert forall|k: int| 0 <= k < va.len() implies us.contains(#[trigger] va[k]) by {
                        if k < vb.len() { assert(va[k] == vb[k]); } else { assert(us.contains(rs[i as int])); }
                    }
                }
            } else {
                proof {
                    assert(rs[i as int] == r@);
                }
            }
            i = i + 1;
        }
        proof {
            lemma_distinct_within(string_views(visited@), us);
        }
        while stack.len() > 0
            invariant
                rs == string_views(roots@),
                bs == string_views(blocked@),
                reg == *self,
                self.wf(),
                string_views(visited@).no_duplicates(),
                string_views(stack@).no_duplicates(),
                forall|k: int| 0 <= k < string_views(stack@).len() ==> string_views(visited@).contains(#[trigger] string_views(stack@)[k]),
                forall|x: Seq<char>, k: int| 0 <= k < child_ids(reg, x).len() ==> us.contains(#[trigger] child_ids(reg, x)[k]),
                forall|k: int| 0 <= k < string_views(visited@).len() ==> us.contains(#[trigger] string_views(visited@)[k]),
                forall|k: int| 0 <= k < string_views(visited@).len() ==> reachable(reg, rs, bs, #[trigger] string_views(visited@)[k]),
                forall|k: int| 0 <= k < rs.len() && !bs.contains(rs[k]) ==> string_views(visited@).contains(#[trigger] rs[k]),
                forall|x: Seq<char>, k: int| string_views(visited@).contains(x) && !string_views(stack@).contains(x)
                    && 0 <= k < child_ids(reg, x).len() && !bs.contains(child_ids(reg, x)[k])
                    ==> string_views(visited@).contains(#[trigger] child_ids(reg, x)[k]),
                string_views(visited@).len() <= us.len(),
            decreases us.len() - string_views(visited@).len(), stack@.len(),
        {
            let ghost s0 = string_views(stack@);
            let x = stack.pop().unwrap();
            let ghost s1 = string_views(stack@);
            let ghost v0 = string_views(visited@);
            proof {
                assert(s0 =~= s1.push(x@));
                assert(!s1.contains(x@)) by {
                    if s1.contains(x@) {
                        let k = choose|k: int| 0 <= k < s1.len() && s1[k] == x@;
                        assert(s0[k] == s0[s0.len() - 1]);
                    }
                }
                assert(s0[s0.len() - 1] == x@);
                assert(v0.contains(x@));
                assert forall|a: int, b: int| 0 <= a < s1.len() && 0 <= b < s1.len() && a != b implies s1[a] != s1[b] by {
                    assert(s1[a] == s0[a]);
                    assert(s1[b] == s0[b]);
                }
                assert forall|k: int| 0 <= k < s1.len() implies v0.contains(#[trigger] s1[k]) by {
                    assert(s1[k] == s0[k]);
                }
            }
            match self.get(x.as_str()) {
                Some(d) => {
                    let deps = d.dependencies();
                    let mut j: usize = 0;
                    while j < deps.len()
                        invariant
                            j <= deps@.len(),
                            string_views(deps@) == child_ids(reg, x@),
                            rs == string_views(roots@),
                            bs == string_views(blocked@),
                            reg == *self,
                            string_views(visited@).no_duplicates(),
                            string_views(stack@).no_duplicates(),
                            v0.contains(x@),
                            forall|y: Seq<char>| v0.contains(y) ==> string_views(visited@).contains(y),
                            forall|y: Seq<char>| string_views(stack@).contains(y) ==> s1.contains(y) || (string_views(visited@).contains(y) && !v0.contains(y)),
                            forall|y: Seq<char>| s1.contains(y) ==> string_views(stack@).contains(y),
                            forall|y: Seq<char>| string_views(visited@).contains(y) && !v0.contains(y) ==> string_views(stack@).contains(y),
                            !string_views(stack@).contains(x@),
                            string_views(visited@).len() - v0.len() == string_views(stack@).len() - s1.len(),
                            string_views(visited@).len() >= v0.len(),
                            forall|k: int| 0 <= k < string_views(stack@).len() ==> string_views(visited@).contains(#[trigger] string_views(stack@)[k]),
                            forall|y: Seq<char>, k: int| 0 <= k < child_ids(reg, y).len() ==> us.contains(#[trigger] child_ids(reg, y)[k]),
                            forall|k: int| 0 <= k < string_views(visited@).len() ==> us.contains(#[trigger] string_views(visited@)[k]),
                            forall|k: int| 0 <= k < string_views(visited@).len() ==> reachable(reg, rs, bs, #[trigger] string_views(visited@)[k]),
                            forall|k: int| 0 <= k < j && !bs.contains(child_ids(reg, x@)[k]) ==> string_views(visited@).contains(#[trigger] child_ids(reg, x@)[k]),
                        decreases deps@.len() - j,
                    {
                        let c = &deps[j];
                        proof {
                            assert(child_ids(reg, x@)[j as int] == c@);
                        }
                        if !has_string(blocked, c.as_str()) && !has_string(&visited, c.as_str()) {
                            let ghost vb = string_views(visited@);
                            let ghost sb = string_views(stack@);
                            visited.push(c.clone());
                            stack.push(c.clone());
                            proof {
                                let va = string_views(visited@);
                                let sa = string_views(stack@);
                                assert(va =~= vb.push(c@));
                                assert(sa =~= sb.push(c@));
                                assert forall|y: Seq<char>| vb.contains(y) implies va.contains(y) by {
                                    let m = choose|m: int| 0 <= m < vb.len() && vb[m] == y;
                                    assert(va[m] == y);
                                }
                                assert forall|y: Seq<char>| sb.contains(y) implies sa.contains(y) by {
                                    let m = choose|m: int| 0 <= m < sb.len() && sb[m] == y;
                                    assert(sa[m] == y);
                                }
                                assert(va[vb.len() as int] == c@);
                                assert(sa[sb.len() as int] == c@);
                                assert forall|s: Set<Seq<char>>| #[trigger] closed_over(reg, rs, bs, s) implies s.contains(c@) by {
                                    let m = choose|m: int| 0 <= m < v0.len() && v0[m] == x@;
                                    let mm = choose|mm: int| 0 <= mm < vb.len() && vb[mm] == x@;
                                    assert(reachable(reg, rs, bs, vb[mm]));
                                    assert(s.contains(x@));
                                    assert(s.contains(child_ids(reg, x@)[j as int]));
                                }
                                assert forall|a: int, b: int| 0 <= a < va.len() && 0 <= b < va.len() && a != b implies va[a] != va[b] by {
                                    if b == vb.len() { assert(vb.contains(vb[a])); }
                                    if a == vb.len() { assert(vb.contains(vb[b])); }
                                }
                                assert forall|a: int, b: int| 0 <= a < sa.len() && 0 <= b < sa.len() && a != b implies sa[a] != sa[b] by {
                                    if b == sb.len() { assert(sb.contains(sb[a])); assert(vb.contains(sb[a])); }
                                    if a == sb.len() { assert(sb.contains(sb[b])); assert(vb.contains(sb[b])); }
                                }
                                assert forall|y: Seq<char>| sa.contains(y) implies s1.contains(y) || (va.contains(y) && !v0.contains(y)) by {
                                    if y != c@ {
                                        let m = choose|m: int| 0 <= m < sa.len() && sa[m] == y;
                                        assert(sb[m] == y);
                                        assert(sb.contains(y));
                                    } else {
                                        assert(!vb.contains(c@));
                                    }
                                }
                                assert forall|y: Seq<char>| va.contains(y) && !v0.contains(y) implies sa.contains(y) by {
                                    if y != c@ {
                                        let m = choose|m: int| 0 <= m < va.len() && va[m] == y;
                                        assert(vb[m] == y);
                                    }
                                }
                                assert(!sa.contains(x@)) by {
                                    if sa.contains(x@) {
                                        if x@ == c@ { assert(vb.contains(x@)); }
                                        else {
                                            let m = choose|m: int| 0 <= m < sa.len() && sa[m] == x@;
                                            assert(sb[m] == x@);
                                        }
                                    }
                                }
                                assert forall|k: int| 0 <= k < sa.len() implies va.contains(#[trigger] sa[k]) by {
                                    if k < sb.len() { assert(sa[k] == sb[k]); assert(vb.contains(sb[k])); }
                                }
                                assert forall|k: int| 0 <= k < va.len() implies us.contains(#[trigger] va[k]) by {
                                    if k < vb.len() { assert(va[k] == vb[k]); } else { assert(us.contains(child_ids(reg, x@)[j as int])); }
                                }
                                assert forall|k: int| 0 <= k < va.len() implies reachable(reg, rs, bs, #[trigger] va[k]) by {
                                    if k < vb.len() { assert(va[k] == vb[k]); }
                                }
                                assert forall|k: int| 0 <= k < j + 1 && !bs.contains(child_ids(reg, x@)[k]) implies va.contains(#[trigger] child_ids(reg, x@)[k]) by {
                                    if k < j { assert(vb.contains(child_ids(reg, x@)[k])); }
                                }
                            }
                        }
                        j = j + 1;
                    }
                },
                None => {
                    assert(child_ids(reg, x@) =~= Seq::<Seq<char>>::empty());
                },
            }
            proof {
                let va = string_views(visited@);
                let sa = string_views(stack@);
                lemma_distinct_within(va, us);
                assert forall|y: Seq<char>, k: int| va.contains(y) && !sa.contains(y)
                    && 0 <= k < child_ids(reg, y).len() && !bs.contains(child_ids(reg, y)[k])
                    implies va.contains(#[trigger] child_ids(reg, y)[k]) by {
                    if y != x@ {
                        if v0.contains(y) {
                            assert(!s1.contains(y));
                            assert(!s0.contains(y)) by {
                                if s0.contains(y) {
                                    let m = choose|m: int| 0 <= m < s0.len() && s0[m] == y;
                                    if m < s1.len() { assert(s1[m] == y); }
                                }
                            }
                            assert(v0.contains(child_ids(reg, y)[k]));
                        } else {
                            assert(sa.contains(y)) by {
                                assert(va.contains(y));
                            }
                        }
                    }
                }
                assert forall|k: int| 0 <= k < rs.len() && !bs.contains(rs[k]) implies va.contains(#[trigger] rs[k]) by {
                    assert(v0.contains(rs[k]));
                }
            }
        }
        proof {
            let va = string_views(visited@);
            let s = va.to_set();
            assert(closed_over(reg, rs, bs, s)) by {
                assert forall|k: int| 0 <= k < rs.len() && !bs.contains(rs[k]) implies s.contains(#[trigger] rs[k]) by {
                    assert(va.contains(rs[k]));
                }
                assert forall|y: Seq<char>, k: int| s.contains(y) && 0 <= k < child_ids(reg, y).len() && !bs.contains(child_ids(reg, y)[k])
                    implies s.contains(#[trigger] child_ids(reg, y)[k]) by {
                    assert(string_views(stack@) =~= Seq::<Seq<char>>::empty());
                    assert(va.contains(y));
                    assert(va.contains(child_ids(reg, y)[k]));
                }
            }
            assert forall|y: Seq<char>| va.contains(y) <==> reachable(reg, rs, bs, y) by {
                if reachable(reg, rs, bs, y) {
                    assert(s.contains(y));
                }
                if va.contains(y) {
                    let k = choose|k: int| 0 <= k < va.len() && va[k] == y;
                    assert(reachable(reg, rs, bs, va[k]));
                }
            }
        }
        visited
    }
}

/// Whether an id resolves to a registered service.
pub open spec fn is_resolved<F>(reg: ServiceRegistry<F>, x: Seq<char>) -> bool {
    reg.resolve(x) is Some
}

/// Whether an id resolves to a service whose own id is `target`.
pub open spec fn resolves_to_id<F>(reg: ServiceRegistry<F>, x: Seq<char>, target: Seq<char>) -> bool {
    reg.resolve(x) matches Some(d) && d.dv().id == target
}

impl<F> ServiceDescriptor<F> {
    /// How many registered services this one depends on, directly or
    /// through other registered services, each counted once.
    pub fn dependency_depth(&self, registry: &ServiceRegistry<F>) -> (r: usize)
        requires
            registry.wf(),
        ensures
            r == reach_set(*registry, self.dv().dependencies, Seq::empty()).filter(|x: Seq<char>| is_resolved(*registry, x)).len(),
    {
        let none: Vec<String> = Vec::new();
        let v = registry.reach(self.dependencies(), &none);
        assert(string_views(none@) =~= Seq::<Seq<char>>::empty());
        let ghost vs = string_views(v@);
        let ghost p = |x: Seq<char>| is_resolved(*registry, x);
        let mut count: usize = 0;
        let mut i: usize = 0;
        assert(vs.subrange(0, 0).filter(p) =~= Seq::<Seq<char>>::empty()) by {
            reveal(Seq::filter);
        }
        while i < v.len()
            invariant
                i <= v@.len(),
                vs == string_views(v@),
                registry.wf(),
                p == (|x: Seq<char>| is_resolved(*registry, x)),
                count == vs.subrange(0, i as int).filter(p).len(),
                count <= i,
            decreases v@.len() - i,
        {
            let ghost pre = vs.subrange(0, i as int);
            assert(vs.subrange(0, i + 1) =~= pre.push(vs[i as int]));
            proof {
                pre.lemma_filter_push(vs[i as int], p);
            }
            if registry.get(v[i].as_str()).is_some() {
                count = count + 1;
            }
            i = i + 1;
        }
        assert(vs.subrange(0, i as int) =~= vs);
        proof {
            let roots = self.dv().dependencies;
            let rset = reach_set(*registry, roots, Seq::empty());
            lemma_filter_distinct(vs, p);
            vs.filter(p).unique_seq_to_set();
            assert(vs.filter(p).to_set() =~= rset.filter(p)) by {
                assert forall|x: Seq<char>| vs.filter(p).to_set().contains(x) <==> rset.filter(p).contains(x) by {
                    assert(vs.contains(x) <==> reachable(*registry, roots, Seq::empty(), x));
                }
            }
        }
        count
    }

    /// Whether registering this service would close a cycle through
    /// `target_service_id`: this service is that one, or reaches, through
    /// registered services other than itself, a service whose own id is
    /// that one.
    pub fn creates_circular_dependency_with(&self, target_service_id: &str, registry: &ServiceRegistry<F>) -> (r: bool)
        requires
            registry.wf(),
        ensures
            r == (self.dv().id == target_service_id@
                || exists|x: Seq<char>| reachable(*registry, self.dv().dependencies, seq![self.dv().id], x)
                    && #[trigger] resolves_to_id(*registry, x, target_service_id@)),
    {
        if str_eq(self.id(), target_service_id) {
            return true;
        }
        let mut blocked: Vec<String> = Vec::new();
        blocked.push(owned(self.id()));
        assert(string_views(blocked@) =~= seq![self.dv().id]);
        let v = registry.reach(self.dependencies(), &blocked);
        let ghost vs = string_views(v@);
        let mut i: usize = 0;
        while i < v.len()
            invariant
                i <= v@.len(),
                vs == string_views(v@),
                registry.wf(),
                forall|k: int| 0 <= k < i ==> !resolves_to_id(*registry, #[trigger] vs[k], target_service_id@),
                forall|x: Seq<char>| vs.contains(x) <==> reachable(*registry, self.dv().dependencies, seq![self.dv().id], x),
            decreases v@.len() - i,
        {
            match registry.get(v[i].as_str()) {
                Some(d) => {
                    if str_eq(d.id(), target_service_id) {
                        proof {
                            assert(vs.contains(vs[i as int]));
                            assert(resolves_to_id(*registry, vs[i as int], target_service_id@));
                        }
                        return true;
                    }
                },
                None => {},
            }
            i = i + 1;
        }
        proof {
            assert forall|x: Seq<char>| reachable(*registry, self.dv().dependencies, seq![self.dv().id], x)
                implies !#[trigger] resolves_to_id(*registry, x, target_service_id@) by {
                assert(vs.contains(x));
                let k = choose|k: int| 0 <= k < vs.len() && vs[k] == x;
                assert(!resolves_to_id(*registry, vs[k], target_service_id@));
            }
        }
        false
    }
}

} // verus!
