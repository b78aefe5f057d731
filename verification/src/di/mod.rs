//! Dependency-injection bookkeeping: lifetimes and scopes, container
//! settings, service descriptors and their registry.

pub mod container;
pub mod injection;
pub mod lifetime;
pub mod service_descriptor;
pub mod service_factory;
pub mod service_registry;
pub mod registry_export;

use vstd::prelude::*;
use crate::di::container::Container;
use crate::di::lifetime::Lifetime;
use crate::di::service_descriptor::{DescriptorView, ServiceDescriptorBuilder};
use crate::di::service_registry::ServiceRegistry;
use crate::error::types::AppError;
use crate::text::{owned, string_views};

verus! {

/// The core services: their ids, lifetimes and dependencies, in the order
/// they are registered.
pub open spec fn core_services() -> Seq<(Seq<char>, Lifetime, Seq<Seq<char>>)> {
    seq![
        ("database_pool"@, Lifetime::Singleton, Seq::empty()),
        ("query_optimizer"@, Lifetime::Singleton, seq!["database_pool"@]),
        ("plugin_system"@, Lifetime::Singleton, Seq::empty()),
        ("plugin_manager"@, Lifetime::Singleton, seq!["plugin_system"@]),
        ("performance_tracker"@, Lifetime::Singleton, Seq::empty()),
        ("performance_metrics"@, Lifetime::Singleton, seq!["performance_tracker"@]),
        ("cache_manager"@, Lifetime::Singleton, Seq::empty()),
        ("cache_invalidator"@, Lifetime::Singleton, seq!["cache_manager"@]),
        ("analysis_service"@, Lifetime::Scoped, seq!["query_optimizer"@, "cache_manager"@]),
        ("streaming_service"@, Lifetime::Transient, seq!["query_optimizer"@]),
    ]
}

/// The dependency-injection system: a container over a registry.
pub struct DependencyInjection<F, I> {
    container: Container<F, I>,
}

impl<F, I> DependencyInjection<F, I> {
    /// The container.
    pub closed spec fn spec_container(&self) -> Container<F, I> {
        self.container
    }

    /// The container is well formed.
    pub closed spec fn wf(&self) -> bool {
        self.container.wf()
    }

    /// A system with an empty registry and a container with the default
    /// settings.
    pub fn new() -> (r: DependencyInjection<F, I>)
        ensures
            r.wf(),
            r.spec_container().spec_registry().services() == Map::<Seq<char>, crate::di::service_descriptor::ServiceDescriptor<F>>::empty(),
            r.spec_container().singleton_map() == Map::<Seq<char>, I>::empty(),
            r.spec_container().scoped_map() == Map::<Seq<char>, I>::empty(),
    {
        DependencyInjection { container: Container::new(ServiceRegistry::new()) }
    }

    /// The container.
    pub fn container(&self) -> (r: &Container<F, I>)
        ensures
            *r == self.spec_container(),
    {
        &self.container
    }

    /// The registry.
    pub fn registry(&self) -> (r: &ServiceRegistry<F>)
        ensures
            *r == self.spec_container().spec_registry(),
    {
        self.container.registry()
    }

    /// Registers one core service: no id or name in the descriptor, the
    /// lifetime and dependencies given, the factory that `make` gives for
    /// the id.
    fn register_core<M: Fn(&str) -> F>(&mut self, id: &str, lifetime: Lifetime, deps: Vec<String>, make: &M) -> (r: Result<(), AppError>)
        requires
            old(self).wf(),
            forall|s: &str| make.requires((s,)),
        ensures
            final(self).wf(),
            r is Ok <==> id@.len() != 0 && !old(self).spec_container().spec_registry().services().contains_key(id@),
            r is Ok ==> final(self).spec_container().spec_registry().services().dom() == old(self).spec_container().spec_registry().services().dom().insert(id@)
                && final(self).spec_container().spec_registry().services()[id@].dv().lifetime == lifetime
                && final(self).spec_container().spec_registry().services()[id@].dv().dependencies == string_views(deps@)
                && forall|k: Seq<char>| k != id@ && old(self).spec_container().spec_registry().services().contains_key(k) ==>
                    #[trigger] final(self).spec_container().spec_registry().services()[k] == old(self).spec_container().spec_registry().services()[k],
    {
        let factory = make(id);
        let built = ServiceDescriptorBuilder::new().lifetime(lifetime).dependencies(deps).factory(factory).build();
        match built {
            Ok(d) => self.container.register_service(id, d),
            Err(e) => Err(e),
        }
    }

    /// Registers the core services, each with the factory that `make`
    /// gives for its id, in order: the first that is already registered
    /// stops the registration with its error.
    pub fn register_core_services<M: Fn(&str) -> F>(&mut self, make: M) -> (r: Result<(), AppError>)
        requires
            old(self).wf(),
            forall|s: &str| make.requires((s,)),
        ensures
            final(self).wf(),
            old(self).spec_container().spec_registry().services() == Map::<Seq<char>, crate::di::service_descriptor::ServiceDescriptor<F>>::empty() ==> r is Ok
                && forall|i: int| 0 <= i < core_services().len() ==>
                    final(self).spec_container().spec_registry().services().contains_key(#[trigger] core_services()[i].0)
                    && final(self).spec_container().spec_registry().services()[core_services()[i].0].dv().lifetime == core_services()[i].1
                    && final(self).spec_container().spec_registry().services()[core_services()[i].0].dv().dependencies == core_services()[i].2,
    {
        proof {
            reveal_strlit("database_pool");
            reveal_strlit("query_optimizer");
            reveal_strlit("plugin_system");
            reveal_strlit("plugin_manager");
            reveal_strlit("performance_tracker");
            reveal_strlit("performance_metrics");
            reveal_strlit("cache_manager");
            reveal_strlit("cache_invalidator");
            reveal_strlit("analysis_service");
            reveal_strlit("streaming_service");
        }
        let ghost fresh = old(self).spec_container().spec_registry().services() == Map::<Seq<char>, crate::di::service_descriptor::ServiceDescriptor<F>>::empty();
        let ghost table = core_services();
        let r = self.register_core("database_pool", Lifetime::Singleton, Vec::new(), &make);
        if r.is_err() { return r; }
        let mut d1: Vec<String> = Vec::new();
        d1.push(owned("database_pool"));
        let r = self.register_core("query_optimizer", Lifetime::Singleton, d1, &make);
        if r.is_err() { return r; }
        assert("plugin_system"@[0] != "database_pool"@[0]);
        let r = self.register_core("plugin_system", Lifetime::Singleton, Vec::new(), &make);
        if r.is_err() { return r; }
        let mut d2: Vec<String> = Vec::new();
        d2.push(owned("plugin_system"));
        let r = self.register_core("plugin_manager", Lifetime::Singleton, d2, &make);
        if r.is_err() { return r; }
        let r = self.register_core("performance_tracker", Lifetime::Singleton, Vec::new(), &make);
        if r.is_err() { return r; }
        let mut d3: Vec<String> = Vec::new();
        d3.push(owned("performance_tracker"));
        assert("performance_metrics"@[12] != "performance_tracker"@[12]);
        let r = self.register_core("performance_metrics", Lifetime::Singleton, d3, &make);
        if r.is_err() { return r; }
        assert("cache_manager"@[0] != "database_pool"@[0]);
        assert("cache_manager"@[0] != "plugin_system"@[0]);
        let r = self.register_core("cache_manager", Lifetime::Singleton, Vec::new(), &make);
        if r.is_err() { return r; }
        let mut d4: Vec<String> = Vec::new();
        d4.push(owned("cache_manager"));
        let r = self.register_core("cache_invalidator", Lifetime::Singleton, d4, &make);
        if r.is_err() { return r; }
        let mut d5: Vec<String> = Vec::new();
        d5.push(owned("query_optimizer"));
        d5.push(owned("cache_manager"));
        let r = self.register_core("analysis_service", Lifetime::Scoped, d5, &make);
        if r.is_err() { return r; }
        let mut d6: Vec<String> = Vec::new();
        d6.push(owned("query_optimizer"));
        assert("streaming_service"@[0] != "cache_invalidator"@[0]);
        let r = self.register_core("streaming_service", Lifetime::Transient, d6, &make);
        if r.is_err() { return r; }
        Ok(())
    }

    /// Sets the system up with the core services, as
    /// `register_core_services` does.
    pub fn initialize<M: Fn(&str) -> F>(&mut self, make: M) -> (r: Result<(), AppError>)
        requires
            old(self).wf(),
            forall|s: &str| make.requires((s,)),
        ensures
            final(self).wf(),
            old(self).spec_container().spec_registry().services() == Map::<Seq<char>, crate::di::service_descriptor::ServiceDescriptor<F>>::empty() ==> r is Ok
                && forall|i: int| 0 <= i < core_services().len() ==>
                    final(self).spec_container().spec_registry().services().contains_key(#[trigger] core_services()[i].0),
    {
        self.register_core_services(make)
    }

    /// Shuts the container down: every kept instance is dropped.
    pub fn shutdown(&mut self) -> (r: Result<(), AppError>)
        requires
            old(self).wf(),
        ensures
            final(self).wf(),
            r is Ok,
            final(self).spec_container().singleton_map() == Map::<Seq<char>, I>::empty(),
            final(self).spec_container().scoped_map() == Map::<Seq<char>, I>::empty(),
            final(self).spec_container().spec_registry() == old(self).spec_container().spec_registry(),
    {
        self.container.shutdown()
    }
}

/// DI Configuration
#[derive(Debug, Clone)]
pub struct DIConfig {
    /// Enable automatic service discovery
    pub enable_auto_discovery: bool,
    /// Service discovery paths
    pub discovery_paths: Vec<String>,
    /// Enable circular dependency detection
    pub enable_circular_dependency_detection: bool,
    /// Maximum service creation depth
    pub max_creation_depth: usize,
    /// Enable performance monitoring
    pub enable_performance_monitoring: bool,
}

impl DIConfig {
    /// The default settings: no auto discovery, one discovery path
    /// `services`, cycle detection on, depth 50, monitoring on.
    pub fn default() -> (r: Self)
        ensures
            !r.enable_auto_discovery,
            r.discovery_paths@.len() == 1,
            r.discovery_paths@[0]@ == "services"@,
            r.enable_circular_dependency_detection,
            r.max_creation_depth == 50,
            r.enable_performance_monitoring,
    {
        let mut discovery_paths: Vec<String> = Vec::new();
        discovery_paths.push(owned("services"));
        DIConfig {
            enable_auto_discovery: false,
            discovery_paths,
            enable_circular_dependency_detection: true,
            max_creation_depth: 50,
            enable_performance_monitoring: true,
        }
    }
}

/// Health status enumeration
#[derive(Debug, Clone, Copy, PartialEq, Eq, Structural)]
pub enum HealthStatus {
    Healthy,
    Degraded,
    Unhealthy,
    Unknown,
}

} // verus!
