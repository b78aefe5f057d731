//! Container settings and the bookkeeping of service creation: the stack
//! of services being created, cycle and depth checks, resolution counters.

use vstd::prelude::*;
use crate::assoc::{as_map, get_value, insert_value, keys_unique, list_contains, in_list};
use crate::config::manager::{bump, bumped};
use crate::di::lifetime::{Lifetime, ServiceScope, scope_text};
use crate::di::service_descriptor::ServiceDescriptor;
use crate::di::service_registry::{ServiceRegistry, di_error};
use crate::error::types::AppError;
use crate::text::{decimal_spec, has_prefix, join_spec, owned, push_str, starts_with, string_views, u64_to_decimal};

verus! {

/// Container configuration; the creation timeout is in milliseconds.
#[derive(Debug, Clone, Copy)]
pub struct ContainerConfig {
    pub enable_circular_dependency_detection: bool,
    pub max_creation_depth: usize,
    pub enable_performance_monitoring: bool,
    pub creation_timeout_ms: u64,
}

impl ContainerConfig {
    /// The default settings.
    pub open spec fn default_spec() -> ContainerConfig {
        ContainerConfig {
            enable_circular_dependency_detection: true,
            max_creation_depth: 50,
            enable_performance_monitoring: true,
            creation_timeout_ms: 30000,
        }
    }

    /// The default settings: cycle detection on, depth 50, monitoring on,
    /// a thirty-second creation timeout.
    pub fn default() -> (r: Self)
        ensures
            r.enable_circular_dependency_detection,
            r.max_creation_depth == 50,
            r.enable_performance_monitoring,
            r.creation_timeout_ms == 30000,
            r == Self::default_spec(),
    {
        ContainerConfig {
            enable_circular_dependency_detection: true,
            max_creation_depth: 50,
            enable_performance_monitoring: true,
            creation_timeout_ms: 30000,
        }
    }
}

/// Resolution counters. Creation time is summed in whole milliseconds.
#[derive(Debug, Clone, Copy, PartialEq, Eq, Structural)]
pub struct ContainerStats {
    pub total_resolutions: u64,
    pub cache_hits: u64,
    pub cache_misses: u64,
    pub total_creation_time_ms: u64,
    pub error_count: u64,
    pub active_scopes: usize,
}

/// Where a created instance is kept: among the singletons under the
/// service id, or among the scoped instances under the scope key.
#[derive(Debug, Clone, PartialEq, Eq)]
pub enum CacheSlot {
    Singleton(String),
    Scoped(String),
}

/// What resolving a service calls for: a kept instance, or a new one
/// made by the service's factory within `scope`, to be kept in `slot`.
#[derive(Debug)]
pub enum Resolution {
    Cached(CacheSlot),
    Create { slot: Option<CacheSlot>, scope: ServiceScope },
}

/// The key of a scoped instance: the service id, a colon, the scope.
pub open spec fn scope_key(service_id: Seq<char>, scope: ServiceScope) -> Seq<char> {
    service_id + ":"@ + scope_text(scope)
}

/// The message of a detected cycle: the services being created and the
/// requested one, joined by arrows, then an arrow and the requested one
/// again.
pub open spec fn cycle_message(stack: Seq<Seq<char>>, service_id: Seq<char>) -> Seq<char> {
    "Circular dependency detected: "@ + join_spec(stack.push(service_id), " -> "@) + " -> "@ + service_id
}

/// The message of a creation beyond the depth limit.
pub open spec fn depth_message(max: nat, service_id: Seq<char>) -> Seq<char> {
    "Maximum creation depth ("@ + decimal_spec(max) + ") exceeded for service '"@ + service_id + "'"@
}

/// The container's bookkeeping: the registry, the kept instances (of type
/// `I`), the services being created, the counters and the settings.
pub struct Container<F, I> {
    registry: ServiceRegistry<F>,
    singletons: Vec<(String, I)>,
    scoped_instances: Vec<(String, I)>,
    creation_stack: Vec<String>,
    performance_stats: ContainerStats,
    config: ContainerConfig,
}

impl<F, I> Container<F, I> {
    /// The registry.
    pub closed spec fn spec_registry(&self) -> ServiceRegistry<F> {
        self.registry
    }

    /// The singletons by service id.
    pub closed spec fn singleton_map(&self) -> Map<Seq<char>, I> {
        as_map(self.singletons@)
    }

    /// The scoped instances by scope key.
    pub closed spec fn scoped_map(&self) -> Map<Seq<char>, I> {
        as_map(self.scoped_instances@)
    }

    /// The services being created, outermost first.
    pub closed spec fn stack(&self) -> Seq<Seq<char>> {
        string_views(self.creation_stack@)
    }

    /// The counters.
    pub closed spec fn counters(&self) -> ContainerStats {
        self.performance_stats
    }

    /// The settings.
    pub closed spec fn settings(&self) -> ContainerConfig {
        self.config
    }

    /// The registry is well formed and each key is kept once.
    pub closed spec fn wf(&self) -> bool {
        &&& self.registry.wf()
        &&& keys_unique(self.singletons@)
        &&& keys_unique(self.scoped_instances@)
    }

    /// A container over `registry` with the default settings.
    pub fn new(registry: ServiceRegistry<F>) -> (r: Container<F, I>)
        requires
            registry.wf(),
        ensures
            r.wf(),
            r.spec_registry() == registry,
            r.singleton_map() == Map::<Seq<char>, I>::empty(),
            r.scoped_map() == Map::<Seq<char>, I>::empty(),
            r.stack() == Seq::<Seq<char>>::empty(),
            r.settings() == ContainerConfig::default_spec(),
            r.counters() == (ContainerStats { total_resolutions: 0, cache_hits: 0, cache_misses: 0, total_creation_time_ms: 0, error_count: 0, active_scopes: 0 }),
    {
        Self::with_config(registry, ContainerConfig::default())
    }

    /// A container over `registry` with the given settings.
    pub fn with_config(registry: ServiceRegistry<F>, config: ContainerConfig) -> (r: Container<F, I>)
        requires
            registry.wf(),
        ensures
            r.wf(),
            r.spec_registry() == registry,
            r.singleton_map() == Map::<Seq<char>, I>::empty(),
            r.scoped_map() == Map::<Seq<char>, I>::empty(),
            r.stack() == Seq::<Seq<char>>::empty(),
            r.settings() == config,
            r.counters() == (ContainerStats { total_resolutions: 0, cache_hits: 0, cache_misses: 0, total_creation_time_ms: 0, error_count: 0, active_scopes: 0 }),
    {
        let r = Container {
            registry,
            singletons: Vec::new(),
            scoped_instances: Vec::new(),
            creation_stack: Vec::new(),
            performance_stats: ContainerStats { total_resolutions: 0, cache_hits: 0, cache_misses: 0, total_creation_time_ms: 0, error_count: 0, active_scopes: 0 },
            config,
        };
        assert(as_map(r.singletons@) =~= Map::<Seq<char>, I>::empty());
        assert(as_map(r.scoped_instances@) =~= Map::<Seq<char>, I>::empty());
        assert(string_views(r.creation_stack@) =~= Seq::<Seq<char>>::empty());
        r
    }

    /// The registry.
    pub fn registry(&self) -> (r: &ServiceRegistry<F>)
        ensures
            *r == self.spec_registry(),
    {
        &self.registry
    }

    /// Registers a descriptor in the container's registry, as
    /// `ServiceRegistry::register` does.
    pub fn register_service(&mut self, service_id: &str, descriptor: ServiceDescriptor<F>) -> (r: Result<(), AppError>)
        requires
            old(self).wf(),
        ensures
            final(self).wf(),
            final(self).singleton_map() == old(self).singleton_map(),
            final(self).scoped_map() == old(self).scoped_map(),
            final(self).stack() == old(self).stack(),
            final(self).counters() == old(self).counters(),
            final(self).settings() == old(self).settings(),
            final(self).spec_registry().aliases() == old(self).spec_registry().aliases(),
            r is Ok <==> service_id@.len() != 0 && !old(self).spec_registry().services().contains_key(service_id@),
            r is Ok ==> final(self).spec_registry().services() == old(self).spec_registry().services().insert(service_id@, descriptor),
            r is Err ==> final(self).spec_registry().services() == old(self).spec_registry().services(),
    {
        self.registry.register(service_id, descriptor)
    }

    /// An error when `service_id` is already being created, naming the
    /// cycle.
    pub fn check_circular_dependency(&self, service_id: &str) -> (r: Result<(), AppError>)
        ensures
            self.stack().contains(service_id@) ==> (r matches Err(e) && di_error(e, cycle_message(self.stack(), service_id@), service_id@)),
            !self.stack().contains(service_id@) ==> r is Ok,
    {
        if list_contains(&self.creation_stack, service_id) {
            proof {
                let k = choose|k: int| 0 <= k < self.creation_stack@.len() && #[trigger] self.creation_stack@[k]@ == service_id@;
                assert(self.stack()[k] == service_id@);
            }
            let mut cycle: Vec<String> = Vec::new();
            let mut i: usize = 0;
            while i < self.creation_stack.len()
                invariant
                    i <= self.creation_stack@.len(),
                    string_views(cycle@) == string_views(self.creation_stack@.subrange(0, i as int)),
                decreases self.creation_stack@.len() - i,
            {
                let ghost before = cycle@;
                cycle.push(self.creation_stack[i].clone());
                assert(string_views(cycle@) =~= string_views(before).push(self.creation_stack@[i as int]@));
                assert(string_views(self.creation_stack@.subrange(0, i + 1)) =~= string_views(self.creation_stack@.subrange(0, i as int)).push(self.creation_stack@[i as int]@));
                i = i + 1;
            }
            assert(self.creation_stack@.subrange(0, i as int) =~= self.creation_stack@);
            let ghost before = cycle@;
            cycle.push(owned(service_id));
            assert(string_views(cycle@) =~= self.stack().push(service_id@));
            let mut message = owned("Circular dependency detected: ");
            let joined = crate::text::join(&cycle, " -> ");
            push_str(&mut message, joined.as_str());
            push_str(&mut message, " -> ");
            push_str(&mut message, service_id);
            return Err(AppError::DependencyInjection { message, service_id: owned(service_id) });
        }
        proof {
            if self.stack().contains(service_id@) {
                let k = choose|k: int| 0 <= k < self.stack().len() && self.stack()[k] == service_id@;
                assert(self.creation_stack@[k]@ == service_id@);
            }
        }
        Ok(())
    }

    /// Counts a lookup of a kept instance as a hit or a miss, when
    /// monitoring is on.
    fn update_cache_hit_stats(&mut self, is_hit: bool)
        ensures
            final(self).registry == old(self).registry,
            final(self).singletons == old(self).singletons,
            final(self).scoped_instances == old(self).scoped_instances,
            final(self).creation_stack == old(self).creation_stack,
            final(self).config == old(self).config,
            final(self).performance_stats == if !old(self).config.enable_performance_monitoring {
                old(self).performance_stats
            } else if is_hit {
                ContainerStats { cache_hits: bump(old(self).performance_stats.cache_hits), ..old(self).performance_stats }
            } else {
                ContainerStats { cache_misses: bump(old(self).performance_stats.cache_misses), ..old(self).performance_stats }
            },
    {
        if self.config.enable_performance_monitoring {
            if is_hit {
                self.performance_stats.cache_hits = bumped(self.performance_stats.cache_hits);
            } else {
                self.performance_stats.cache_misses = bumped(self.performance_stats.cache_misses);
            }
        }
    }

    /// Counts a finished resolution that took `duration_ms`, and an error
    /// if it failed, when monitoring is on. The summed time stops at the
    /// largest value.
    pub fn update_stats(&mut self, duration_ms: u64, success: bool)
        requires
            old(self).wf(),
        ensures
            final(self).wf(),
            final(self).spec_registry() == old(self).spec_registry(),
            final(self).singleton_map() == old(self).singleton_map(),
            final(self).scoped_map() == old(self).scoped_map(),
            final(self).stack() == old(self).stack(),
            final(self).settings() == old(self).settings(),
            final(self).counters() == if !old(self).settings().enable_performance_monitoring {
                old(self).counters()
            } else {
                ContainerStats {
                    total_resolutions: bump(old(self).counters().total_resolutions),
                    total_creation_time_ms: if old(self).counters().total_creation_time_ms + duration_ms > u64::MAX {
                        u64::MAX
                    } else {
                        (old(self).counters().total_creation_time_ms + duration_ms) as u64
                    },
                    error_count: if success { old(self).counters().error_count } else { bump(old(self).counters().error_count) },
                    ..old(self).counters()
                }
            },
    {
        if self.config.enable_performance_monitoring {
            self.performance_stats.total_resolutions = bumped(self.performance_stats.total_resolutions);
            let t = self.performance_stats.total_creation_time_ms;
            self.performance_stats.total_creation_time_ms = if t > u64::MAX - duration_ms { u64::MAX } else { t + duration_ms };
            if !success {
                self.performance_stats.error_count = bumped(self.performance_stats.error_count);
            }
        }
    }

    /// Pushes a service onto the creation stack, unless the stack is at
    /// its depth limit.
    fn enter_creation(&mut self, service_id: &str) -> (r: Result<(), AppError>)
        requires
            old(self).wf(),
        ensures
            final(self).wf(),
            final(self).registry == old(self).registry,
            final(self).singletons == old(self).singletons,
            final(self).scoped_instances == old(self).scoped_instances,
            final(self).config == old(self).config,
            final(self).performance_stats == old(self).performance_stats,
            old(self).creation_stack@.len() >= old(self).config.max_creation_depth ==> (r matches Err(e)
                && di_error(e, depth_message(old(self).config.max_creation_depth as nat, service_id@), service_id@)
                && final(self).creation_stack == old(self).creation_stack),
            old(self).creation_stack@.len() < old(self).config.max_creation_depth ==> r is Ok
                && final(self).stack() == old(self).stack().push(service_id@),
    {
        if self.creation_stack.len() >= self.config.max_creation_depth {
            let mut message = owned("Maximum creation depth (");
            let n = u64_to_decimal(self.config.max_creation_depth as u64);
            push_str(&mut message, n.as_str());
            push_str(&mut message, ") exceeded for service '");
            push_str(&mut message, service_id);
            push_str(&mut message, "'");
            return Err(AppError::DependencyInjection { message, service_id: owned(service_id) });
        }
        let ghost before = self.creation_stack@;
        self.creation_stack.push(owned(service_id));
        assert(string_views(self.creation_stack@) =~= string_views(before).push(service_id@));
        Ok(())
    }
}

impl<F, I> Container<F, I> {
    /// Begins resolving `service_id` within `scope`. An unregistered id is
    /// an error; with cycle detection on, so is an id already being
    /// created. A singleton, or a scoped service already made for the
    /// scope, is served from what is kept (a hit); otherwise a new
    /// instance is called for (a miss): a singleton at the root scope, any
    /// other within a child of `scope`, and the service goes onto the
    /// creation stack unless that is at its depth limit.
    pub fn begin_resolve(&mut self, service_id: &str, scope: &ServiceScope) -> (r: Result<Resolution, AppError>)
        requires
            old(self).wf(),
        ensures
            final(self).wf(),
            final(self).spec_registry() == old(self).spec_registry(),
            final(self).singleton_map() == old(self).singleton_map(),
            final(self).scoped_map() == old(self).scoped_map(),
            final(self).settings() == old(self).settings(),
            old(self).spec_registry().resolve(service_id@) is None ==> (r matches Err(e)
                && di_error(e, "Service '"@ + service_id@ + "' not registered"@, service_id@)
                && final(self).counters() == old(self).counters() && final(self).stack() == old(self).stack()),
            old(self).spec_registry().resolve(service_id@) is Some && old(self).settings().enable_circular_dependency_detection
                && old(self).stack().contains(service_id@) ==> (r matches Err(e)
                && di_error(e, cycle_message(old(self).stack(), service_id@), service_id@)
                && final(self).counters() == old(self).counters() && final(self).stack() == old(self).stack()),
            r matches Ok(Resolution::Cached(slot)) ==> final(self).stack() == old(self).stack() && match slot {
                CacheSlot::Singleton(k) => k@ == service_id@ && old(self).singleton_map().contains_key(k@),
                CacheSlot::Scoped(k) => k@ == scope_key(service_id@, *scope) && old(self).scoped_map().contains_key(k@),
            },
            r matches Ok(Resolution::Create { slot, scope: s }) ==> final(self).stack() == old(self).stack().push(service_id@)
                && match slot {
                    Some(CacheSlot::Singleton(k)) => k@ == service_id@ && s is Root,
                    Some(CacheSlot::Scoped(k)) => k@ == scope_key(service_id@, *scope) && s == ServiceScope::Child(Box::new(*scope)),
                    None => s == ServiceScope::Child(Box::new(*scope)),
                },
            ({
                let checked = !(old(self).settings().enable_circular_dependency_detection && old(self).stack().contains(service_id@));
                let full = old(self).stack().len() >= old(self).settings().max_creation_depth;
                match old(self).spec_registry().resolve(service_id@) {
                    Some(d) => checked ==> match d.dv().lifetime {
                        Lifetime::Singleton => if old(self).singleton_map().contains_key(service_id@) {
                            r matches Ok(Resolution::Cached(CacheSlot::Singleton(_)))
                        } else {
                            r matches Ok(Resolution::Create { slot: Some(CacheSlot::Singleton(_)), .. }) || (r is Err && full)
                        },
                        Lifetime::Scoped => if old(self).scoped_map().contains_key(scope_key(service_id@, *scope)) {
                            r matches Ok(Resolution::Cached(CacheSlot::Scoped(_)))
                        } else {
                            r matches Ok(Resolution::Create { slot: Some(CacheSlot::Scoped(_)), .. }) || (r is Err && full)
                        },
                        Lifetime::Transient => r matches Ok(Resolution::Create { slot: None, .. }) || (r is Err && full),
                    },
                    None => true,
                }
            }),
    {
        let lifetime = match self.registry.get(service_id) {
            Some(d) => d.lifetime(),
            None => {
                let mut message = owned("Service '");
                push_str(&mut message, service_id);
                push_str(&mut message, "' not registered");
                return Err(AppError::DependencyInjection { message, service_id: owned(service_id) });
            },
        };
        if self.config.enable_circular_dependency_detection {
            match self.check_circular_dependency(service_id) {
                Err(e) => return Err(e),
                Ok(()) => {},
            }
        }
        match lifetime {
            Lifetime::Singleton => {
                if get_value(&self.singletons, service_id).is_some() {
                    self.update_cache_hit_stats(true);
                    return Ok(Resolution::Cached(CacheSlot::Singleton(owned(service_id))));
                }
                self.update_cache_hit_stats(false);
                match self.enter_creation(service_id) {
                    Err(e) => Err(e),
                    Ok(()) => Ok(Resolution::Create { slot: Some(CacheSlot::Singleton(owned(service_id))), scope: ServiceScope::Root }),
                }
            },
            Lifetime::Scoped => {
                let mut key = owned(service_id);
                push_str(&mut key, ":");
                let st = scope.to_string();
                push_str(&mut key, st.as_str());
                if get_value(&self.scoped_instances, key.as_str()).is_some() {
                    self.update_cache_hit_stats(true);
                    return Ok(Resolution::Cached(CacheSlot::Scoped(key)));
                }
                self.update_cache_hit_stats(false);
                match self.enter_creation(service_id) {
                    Err(e) => Err(e),
                    Ok(()) => Ok(Resolution::Create { slot: Some(CacheSlot::Scoped(key)), scope: ServiceScope::Child(Box::new(scope.duplicate())) }),
                }
            },
            Lifetime::Transient => {
                self.update_cache_hit_stats(false);
                match self.enter_creation(service_id) {
                    Err(e) => Err(e),
                    Ok(()) => Ok(Resolution::Create { slot: None, scope: ServiceScope::Child(Box::new(scope.duplicate())) }),
                }
            },
        }
    }

    /// The instance kept in a slot, if any.
    pub fn cached_instance(&self, slot: &CacheSlot) -> (r: Option<&I>)
        requires
            self.wf(),
        ensures
            match *slot {
                CacheSlot::Singleton(k) => match r {
                    Some(i) => self.singleton_map().contains_key(k@) && *i == self.singleton_map()[k@],
                    None => !self.singleton_map().contains_key(k@),
                },
                CacheSlot::Scoped(k) => match r {
                    Some(i) => self.scoped_map().contains_key(k@) && *i == self.scoped_map()[k@],
                    None => !self.scoped_map().contains_key(k@),
                },
            },
    {
        match slot {
            CacheSlot::Singleton(k) => get_value(&self.singletons, k.as_str()),
            CacheSlot::Scoped(k) => get_value(&self.scoped_instances, k.as_str()),
        }
    }

    /// Ends the creation of a service: takes the innermost entry off the
    /// creation stack and keeps `instance` in `slot`, if given.
    pub fn finish_create(&mut self, slot: Option<CacheSlot>, instance: I)
        requires
            old(self).wf(),
        ensures
            final(self).wf(),
            final(self).spec_registry() == old(self).spec_registry(),
            final(self).settings() == old(self).settings(),
            final(self).counters() == old(self).counters(),
            final(self).stack() == if old(self).stack().len() == 0 { old(self).stack() } else { old(self).stack().drop_last() },
            match slot {
                Some(CacheSlot::Singleton(k)) => final(self).singleton_map() == old(self).singleton_map().insert(k@, instance)
                    && final(self).scoped_map() == old(self).scoped_map(),
                Some(CacheSlot::Scoped(k)) => final(self).scoped_map() == old(self).scoped_map().insert(k@, instance)
                    && final(self).singleton_map() == old(self).singleton_map(),
                None => final(self).singleton_map() == old(self).singleton_map() && final(self).scoped_map() == old(self).scoped_map(),
            },
    {
        let ghost before = self.creation_stack@;
        let _ = self.creation_stack.pop();
        assert(string_views(self.creation_stack@) =~= if before.len() == 0 { string_views(before) } else { string_views(before).drop_last() });
        match slot {
            Some(CacheSlot::Singleton(k)) => insert_value(&mut self.singletons, k, instance),
            Some(CacheSlot::Scoped(k)) => insert_value(&mut self.scoped_instances, k, instance),
            None => {},
        }
    }

    /// A new scope: a child of `parent`, or of the root.
    pub fn create_scope(&self, parent: Option<ServiceScope>) -> (r: ServiceScope)
        ensures
            r == ServiceScope::Child(Box::new(match parent { Some(p) => p, None => ServiceScope::Root })),
    {
        ServiceScope::Child(Box::new(match parent { Some(p) => p, None => ServiceScope::Root }))
    }

    /// Drops every scoped instance.
    pub fn clear_scoped(&mut self) -> (r: Result<(), AppError>)
        requires
            old(self).wf(),
        ensures
            final(self).wf(),
            r is Ok,
            final(self).spec_registry() == old(self).spec_registry(),
            final(self).singleton_map() == old(self).singleton_map(),
            final(self).scoped_map() == Map::<Seq<char>, I>::empty(),
            final(self).stack() == old(self).stack(),
            final(self).counters() == old(self).counters(),
    {
        self.scoped_instances = Vec::new();
        assert(as_map(self.scoped_instances@) =~= Map::<Seq<char>, I>::empty());
        Ok(())
    }

    /// Drops the scoped instances whose key begins with the scope's text.
    pub fn clear_scope(&mut self, scope: &ServiceScope) -> (r: Result<(), AppError>)
        requires
            old(self).wf(),
        ensures
            final(self).wf(),
            r is Ok,
            final(self).spec_registry() == old(self).spec_registry(),
            final(self).singleton_map() == old(self).singleton_map(),
            final(self).stack() == old(self).stack(),
            final(self).counters() == old(self).counters(),
            final(self).scoped_map() == old(self).scoped_map().restrict(
                old(self).scoped_map().dom().filter(|k: Seq<char>| !has_prefix(k, scope_text(*scope)))),
    {
        let prefix = scope.to_string();
        let mut old_vec: Vec<(String, I)> = Vec::new();
        std::mem::swap(&mut old_vec, &mut self.scoped_instances);
        let ghost orig = old_vec@;
        let ghost m0 = as_map(orig);
        let mut rest = old_vec;
        let mut kept: Vec<(String, I)> = Vec::new();
        let n = rest.len();
        let mut i: usize = 0;
        assert(as_map(kept@) =~= m0.restrict(Set::<Seq<char>>::empty()));
        while i < n
            invariant
                n == orig.len(),
                i <= n,
                rest@ == orig.subrange(i as int, n as int),
                keys_unique(orig),
                m0 == as_map(orig),
                prefix@ == scope_text(*scope),
                keys_unique(kept@),
                forall|k: Seq<char>| #[trigger] as_map(kept@).contains_key(k) ==> exists|q: int| 0 <= q < i && #[trigger] orig[q].0@ == k,
                as_map(kept@) == m0.restrict(Set::new(|k: Seq<char>| exists|q: int| 0 <= q < i && orig[q].0@ == k && !has_prefix(k, scope_text(*scope)))),
            decreases n - i,
        {
            let (k, v) = rest.remove(0);
            proof {
                assert(rest@ =~= orig.subrange(i + 1, n as int));
                assert((k, v) == orig[i as int]);
                lemma_index_of_key_unique(orig, i as int);
            }
            let ghost before = kept@;
            if !starts_with(k.as_str(), prefix.as_str()) {
                proof {
                    if crate::assoc::has_key(kept@, k@) {
                        let j = crate::assoc::index_of_key(kept@, k@);
                        crate::assoc::lemma_index_of_key(kept@, j);
                        let q = choose|q: int| 0 <= q < i && #[trigger] orig[q].0@ == k@;
                        assert(orig[q].0@ == orig[i as int].0@);
                    }
                }
                insert_value(&mut kept, k, v);
            }
            proof {
                let target = m0.restrict(Set::new(|kk: Seq<char>| exists|q: int| 0 <= q < i + 1 && orig[q].0@ == kk && !has_prefix(kk, scope_text(*scope))));
                assert forall|kk: Seq<char>| #[trigger] as_map(kept@).contains_key(kk) implies exists|q: int| 0 <= q < i + 1 && #[trigger] orig[q].0@ == kk by {
                    if kk != orig[i as int].0@ {
                        assert(as_map(before).contains_key(kk));
                    }
                }
                assert(as_map(kept@) =~= target);
            }
            i = i + 1;
        }
        proof {
            let target = m0.restrict(m0.dom().filter(|k: Seq<char>| !has_prefix(k, scope_text(*scope))));
            let got = m0.restrict(Set::new(|k: Seq<char>| exists|q: int| 0 <= q < n && orig[q].0@ == k && !has_prefix(k, scope_text(*scope))));
            assert(got =~= target) by {
                assert forall|k: Seq<char>| got.contains_key(k) <==> target.contains_key(k) by {
                    if target.contains_key(k) {
                        let q = crate::assoc::index_of_key(orig, k);
                    }
                }
            }
        }
        self.scoped_instances = kept;
        Ok(())
    }

    /// The container is always ready.
    pub fn is_ready(&self) -> (r: bool)
        ensures
            r,
    {
        true
    }

    /// Drops every kept instance.
    pub fn shutdown(&mut self) -> (r: Result<(), AppError>)
        requires
            old(self).wf(),
        ensures
            final(self).wf(),
            r is Ok,
            final(self).spec_registry() == old(self).spec_registry(),
            final(self).singleton_map() == Map::<Seq<char>, I>::empty(),
            final(self).scoped_map() == Map::<Seq<char>, I>::empty(),
            final(self).stack() == old(self).stack(),
            final(self).counters() == old(self).counters(),
    {
        self.singletons = Vec::new();
        self.scoped_instances = Vec::new();
        assert(as_map(self.singletons@) =~= Map::<Seq<char>, I>::empty());
        assert(as_map(self.scoped_instances@) =~= Map::<Seq<char>, I>::empty());
        Ok(())
    }

    /// The number of singletons and of scoped instances kept.
    pub fn instance_counts(&self) -> (r: (usize, usize))
        requires
            self.wf(),
        ensures
            r.0 == self.singleton_map().dom().len(),
            r.1 == self.scoped_map().dom().len(),
    {
        proof {
            crate::assoc::lemma_unique_keys_len(self.singletons@);
            crate::assoc::lemma_unique_keys_len(self.scoped_instances@);
        }
        (self.singletons.len(), self.scoped_instances.len())
    }

    /// The counters.
    pub fn stats(&self) -> (r: ContainerStats)
        ensures
            r == self.counters(),
    {
        self.performance_stats
    }
}

/// With unique keys, the entry at `i` is the one its key finds.
proof fn lemma_index_of_key_unique<V>(s: Seq<(String, V)>, i: int)
    requires
        keys_unique(s),
        0 <= i < s.len(),
    ensures
        as_map(s).contains_key(s[i].0@),
        as_map(s)[s[i].0@] == s[i].1,
{
    crate::assoc::lemma_index_of_key(s, i);
}

} // verus!
