use super_lotto::di::container::ContainerConfig;
use super_lotto::di::service_descriptor::CPUCost;
use super_lotto::di::DIConfig;

#[test]
fn test_container_config() {
    let config = ContainerConfig::default();
    assert!(config.enable_circular_dependency_detection);
    assert_eq!(config.max_creation_depth, 50);
}

#[test]
fn test_di_config() {
    let config = DIConfig::default();
    assert!(!config.enable_auto_discovery);
    assert_eq!(config.discovery_paths.len(), 1);
    assert!(config.enable_circular_dependency_detection);
}

#[test]
fn cpu_cost_values_and_descriptions() {
    assert_eq!(CPUCost::Low.as_value(), 1);
    assert_eq!(CPUCost::Medium.as_value(), 2);
    assert_eq!(CPUCost::High.as_value(), 3);
    assert_eq!(CPUCost::High.description(), "High (expensive creation)");
}

use std::sync::Arc;
use super_lotto::di::service_factory::{constant, from_config, from_fn, lazy, ServiceProvider};

struct MockService {
    value: String,
}

impl MockService {
    fn new(value: String) -> Self {
        Self { value }
    }
}

struct MockServiceProvider;

impl MockServiceProvider {
    fn new() -> Self {
        MockServiceProvider
    }
}

impl ServiceProvider for MockServiceProvider {}

#[test]
fn test_service_factory_fn() {
    let factory = from_fn(|_provider: &MockServiceProvider| Ok(Arc::new(MockService::new("test".to_string()))));

    let mock_provider = MockServiceProvider::new();
    let result = factory.create(&mock_provider);
    assert!(result.is_ok());
    assert_eq!(result.ok().unwrap().value, "test");
}

#[test]
fn test_singleton_factory() {
    let factory = constant(MockService::new("singleton".to_string()));

    let mock_provider = MockServiceProvider::new();
    let result1 = factory.create(&mock_provider);
    let result2 = factory.create(&mock_provider);
    assert!(result1.is_ok());
    assert!(result2.is_ok());
    // Both point to the same instance
    assert!(Arc::ptr_eq(result1.as_ref().ok().unwrap(), result2.as_ref().ok().unwrap()));
}

#[test]
fn test_lazy_factory() {
    let factory = lazy(|| Ok(MockService::new("lazy".to_string())));

    let mock_provider = MockServiceProvider::new();
    let result = factory.create(&mock_provider);
    assert!(result.is_ok());
}

use super_lotto::di::lifetime::Lifetime;
use super_lotto::di::service_descriptor::{ServiceDescriptor, ServiceDescriptorBuilder};
use super_lotto::di::service_descriptor::builders as descriptor_builders;
use super_lotto::di::service_descriptor::utils as descriptor_utils;
use super_lotto::di::service_factory::{ServiceFactoryFn, SingletonFactory};
use super_lotto::di::service_registry::{ServiceRegistry, ValidationError};
use super_lotto::error::types::AppError;

type UnitFactory = SingletonFactory<Arc<()>>;

fn unit_builder() -> ServiceDescriptorBuilder<UnitFactory> {
    ServiceDescriptorBuilder::new()
}

#[test]
fn test_service_descriptor_builder() {
    let factory = constant(Arc::new(()));
    let descriptor = unit_builder()
        .id("test")
        .name("Test Service")
        .description("A test service")
        .service_type("test")
        .lifetime(Lifetime::Singleton)
        .factory(factory)
        .tag("test")
        .tag("example")
        .metadata_entry("version", "\"1.0.0\"".to_string())
        .build()
        .unwrap();

    assert_eq!(descriptor.id(), "test");
    assert_eq!(descriptor.name(), "Test Service");
    assert_eq!(descriptor.dependencies().len(), 0);
    assert_eq!(descriptor.tags().len(), 2);
    assert_eq!(descriptor.lifetime(), Lifetime::Singleton);
}

#[test]
fn test_service_descriptor_validation() {
    let descriptor = unit_builder()
        .id("test")
        .name("Test Service")
        .factory(constant(Arc::new(())))
        .build()
        .unwrap();

    assert!(descriptor.validate().is_ok());

    // Test invalid descriptor
    let invalid_descriptor = unit_builder()
        .id("") // Empty ID
        .name("Test")
        .factory(constant(Arc::new(())))
        .build()
        .unwrap();

    assert!(invalid_descriptor.validate().is_err());
}

#[test]
fn test_dependency_analysis() {
    let mut registry: ServiceRegistry<UnitFactory> = ServiceRegistry::new();

    // Create services with dependencies
    let service_a = unit_builder()
        .id("service_a")
        .dependencies(vec!["service_b".to_string()])
        .factory(constant(Arc::new(())))
        .build()
        .unwrap();

    let service_b = unit_builder()
        .id("service_b")
        .factory(constant(Arc::new(())))
        .build()
        .unwrap();

    registry.register("service_a", service_a).unwrap();
    registry.register("service_b", service_b).unwrap();

    let service_a = registry.get("service_a").unwrap();
    assert_eq!(service_a.dependency_depth(&registry), 1);
}

type FnFactory = ServiceFactoryFn<fn(&MockServiceProvider) -> Result<Arc<()>, AppError>>;

fn unit_service(_p: &MockServiceProvider) -> Result<Arc<()>, AppError> {
    Ok(Arc::new(()))
}

#[test]
fn test_service_registry() {
    let mut registry: ServiceRegistry<FnFactory> = ServiceRegistry::new();

    // Test empty registry
    assert_eq!(registry.count(), 0);
    assert!(registry.is_empty());
    assert_eq!(registry.get_service_ids().len(), 0);

    // Register a service
    let descriptor = ServiceDescriptorBuilder::new()
        .lifetime(Lifetime::Singleton)
        .factory(ServiceFactoryFn::new(unit_service as fn(&MockServiceProvider) -> Result<Arc<()>, AppError>))
        .build()
        .unwrap();

    assert!(registry.register("test_service", descriptor).is_ok());
    assert_eq!(registry.count(), 1);
    assert!(registry.is_registered("test_service"));

    // Get the service
    let retrieved = registry.get("test_service");
    assert!(retrieved.is_some());
}

#[test]
fn test_service_aliases() {
    let mut registry: ServiceRegistry<FnFactory> = ServiceRegistry::new();

    let descriptor = ServiceDescriptorBuilder::new()
        .lifetime(Lifetime::Singleton)
        .factory(ServiceFactoryFn::new(unit_service as fn(&MockServiceProvider) -> Result<Arc<()>, AppError>))
        .build()
        .unwrap();

    registry.register("test_service", descriptor).unwrap();
    registry.register_alias("test_alias", "test_service").unwrap();

    assert!(std::ptr::eq(registry.get("test_alias").unwrap(), registry.get("test_service").unwrap()));
}

#[test]
fn test_validation() {
    let mut registry: ServiceRegistry<FnFactory> = ServiceRegistry::new();

    // Register a service with dependency
    let descriptor1 = ServiceDescriptorBuilder::new()
        .lifetime(Lifetime::Singleton)
        .dependencies(vec!["nonexistent".to_string()])
        .factory(ServiceFactoryFn::new(unit_service as fn(&MockServiceProvider) -> Result<Arc<()>, AppError>))
        .build()
        .unwrap();

    registry.register("service1", descriptor1).unwrap();

    // Validation should fail due to missing dependency
    let errors = registry.validate();
    assert!(!errors.is_empty());
    assert!(matches!(errors[0], ValidationError::MissingDependency { .. }));
}

#[test]
fn builder_requires_a_factory_and_sorts_tags() {
    let missing = unit_builder().id("x").build();
    match missing {
        Err(AppError::DependencyInjection { message, service_id }) => {
            assert_eq!(message, "Service factory is required");
            assert_eq!(service_id, "x");
        }
        _ => panic!("expected a missing-factory error"),
    }
    let d = unit_builder().id("x").name("X").tag("b").tag("a").tag("b").factory(constant(Arc::new(()))).build().unwrap();
    assert_eq!(d.tags(), &vec!["a".to_string(), "b".to_string()]);
    assert_eq!(d.service_type(), "service");
    assert_eq!(d.lifetime(), Lifetime::Transient);
}

#[test]
fn descriptor_validation_messages() {
    let dup = unit_builder().id("s").name("S").dependency("a").dependency("b").dependency("a").factory(constant(Arc::new(()))).build().unwrap();
    match dup.validate() {
        Err(AppError::DependencyInjection { message, service_id }) => {
            assert_eq!(message, "Duplicate dependency 'a' in service 's'");
            assert_eq!(service_id, "s");
        }
        _ => panic!("expected a duplicate-dependency error"),
    }
    let empty_dep = unit_builder().id("s").name("S").dependency("").factory(constant(Arc::new(()))).build().unwrap();
    assert_eq!(empty_dep.validate().unwrap_err().to_string(), "Dependency injection error: Dependency ID cannot be empty");
    let no_name = unit_builder().id("s").factory(constant(Arc::new(()))).build().unwrap();
    assert_eq!(no_name.validate().unwrap_err().to_string(), "Dependency injection error: Service name cannot be empty");
    assert!(dup.depends_on("b"));
    assert!(!dup.depends_on("c"));
    let summary = dup.summary();
    assert_eq!(summary.dependency_count, 3);
}

#[test]
fn dependency_depth_counts_each_reachable_service_once() {
    let mut registry: ServiceRegistry<UnitFactory> = ServiceRegistry::new();
    let a = unit_builder().id("a").dependencies(vec!["b".to_string(), "c".to_string()]).factory(constant(Arc::new(()))).build().unwrap();
    let b = unit_builder().id("b").dependencies(vec!["c".to_string(), "missing".to_string()]).factory(constant(Arc::new(()))).build().unwrap();
    let c = unit_builder().id("c").dependencies(vec!["a".to_string()]).factory(constant(Arc::new(()))).build().unwrap();
    registry.register("a", a).unwrap();
    registry.register("b", b).unwrap();
    registry.register("c", c).unwrap();
    let a = registry.get("a").unwrap();
    // b, c and (through c) a itself are registered and reachable.
    assert_eq!(a.dependency_depth(&registry), 3);
    let c = registry.get("c").unwrap();
    assert!(c.creates_circular_dependency_with("b", &registry));
    let lone = unit_builder().id("lone").dependencies(vec!["missing".to_string()]).factory(constant(Arc::new(()))).build().unwrap();
    assert!(!lone.creates_circular_dependency_with("a", &registry));
    assert!(lone.creates_circular_dependency_with("lone", &registry));
}

#[test]
fn registry_errors_and_removal() {
    let mut registry: ServiceRegistry<UnitFactory> = ServiceRegistry::new();
    let d = || unit_builder().id("s").name("S").factory(constant(Arc::new(()))).build().unwrap();
    assert_eq!(registry.register("", d()).unwrap_err().to_string(), "Dependency injection error: Service ID cannot be empty");
    registry.register("s", d()).unwrap();
    assert_eq!(registry.register("s", d()).unwrap_err().to_string(), "Dependency injection error: Service 's' already registered");
    assert_eq!(
        registry.register_alias("al", "nope").unwrap_err().to_string(),
        "Dependency injection error: Cannot create alias 'al' for non-existent service 'nope'"
    );
    registry.register_alias("al", "s").unwrap();
    assert_eq!(registry.register_alias("al", "s").unwrap_err().to_string(), "Dependency injection error: Alias 'al' already exists");
    let (_, id) = registry.get_with_alias_resolution("al").unwrap();
    assert_eq!(id, "s");
    assert_eq!(registry.get_services_by_type("service"), vec!["s".to_string()]);
    assert_eq!(registry.unregister("s").unwrap(), true);
    assert!(registry.get("al").is_none());
    assert!(registry.get_aliases().is_empty());
    assert_eq!(registry.unregister("s").unwrap(), false);
}

#[test]
fn descriptor_helpers() {
    let d = descriptor_builders::from_instance("cfg", "Config", 5u32).unwrap();
    assert_eq!(d.service_type(), "singleton");
    assert_eq!(descriptor_utils::get_creation_priority(&d), 1);
    let t = descriptor_builders::transient("t", "T", unit_service).unwrap();
    assert_eq!(descriptor_utils::get_creation_priority(&t), 3);
    assert!(!descriptor_utils::are_compatible(&d, &t));
    assert_eq!(descriptor_utils::estimate_cpu_cost(&t), CPUCost::Low);
    let _: &ServiceDescriptor<_> = &t;
}

use super_lotto::di::container::{CacheSlot, Container, ContainerConfig as Settings, Resolution};
use super_lotto::di::lifetime::ServiceScope;

#[test]
fn test_container_creation() {
    let registry: ServiceRegistry<UnitFactory> = ServiceRegistry::new();
    let container: Container<UnitFactory, Arc<u32>> = Container::new(registry);
    assert!(container.is_ready());
}

fn registry_with(lifetime: Lifetime, id: &str, deps: Vec<String>) -> ServiceRegistry<UnitFactory> {
    let mut registry: ServiceRegistry<UnitFactory> = ServiceRegistry::new();
    let d = unit_builder().id(id).name(id).lifetime(lifetime).dependencies(deps).factory(constant(Arc::new(()))).build().unwrap();
    registry.register(id, d).unwrap();
    registry
}

#[test]
fn container_resolves_singletons_once() {
    let mut c: Container<UnitFactory, Arc<u32>> = Container::new(registry_with(Lifetime::Singleton, "s", vec![]));
    let root = ServiceScope::root();
    match c.begin_resolve("s", &root).unwrap() {
        Resolution::Create { slot, scope } => {
            assert_eq!(slot, Some(CacheSlot::Singleton("s".to_string())));
            assert!(scope.is_root());
            c.finish_create(slot, Arc::new(7));
        }
        Resolution::Cached(_) => panic!("nothing kept yet"),
    }
    match c.begin_resolve("s", &root).unwrap() {
        Resolution::Cached(slot) => assert_eq!(**c.cached_instance(&slot).unwrap(), 7),
        Resolution::Create { .. } => panic!("the singleton is kept"),
    }
    assert_eq!(c.stats().cache_hits, 1);
    assert_eq!(c.stats().cache_misses, 1);
    let err = c.begin_resolve("nope", &root).err().unwrap();
    assert_eq!(err.to_string(), "Dependency injection error: Service 'nope' not registered");
}

#[test]
fn container_detects_cycles_and_depth() {
    let mut c: Container<UnitFactory, Arc<u32>> = Container::new(registry_with(Lifetime::Transient, "t", vec![]));
    let root = ServiceScope::root();
    assert!(matches!(c.begin_resolve("t", &root).unwrap(), Resolution::Create { slot: None, .. }));
    let err = c.begin_resolve("t", &root).err().unwrap();
    assert_eq!(err.to_string(), "Dependency injection error: Circular dependency detected: t -> t -> t");
    let settings = Settings { enable_circular_dependency_detection: false, max_creation_depth: 1, enable_performance_monitoring: true, creation_timeout_ms: 10 };
    let mut d: Container<UnitFactory, Arc<u32>> = Container::with_config(registry_with(Lifetime::Transient, "t", vec![]), settings);
    assert!(d.begin_resolve("t", &root).is_ok());
    let err = d.begin_resolve("t", &root).err().unwrap();
    assert_eq!(err.to_string(), "Dependency injection error: Maximum creation depth (1) exceeded for service 't'");
}

#[test]
fn container_scopes() {
    let mut c: Container<UnitFactory, Arc<u32>> = Container::new(registry_with(Lifetime::Scoped, "sc", vec![]));
    let scope = c.create_scope(None);
    assert_eq!(scope.to_string(), "Child(Root)");
    match c.begin_resolve("sc", &scope).unwrap() {
        Resolution::Create { slot, scope: inner } => {
            assert_eq!(slot, Some(CacheSlot::Scoped("sc:Child(Root)".to_string())));
            assert_eq!(inner.to_string(), "Child(Child(Root))");
            c.finish_create(slot, Arc::new(1));
        }
        _ => panic!("expected a creation"),
    }
    assert_eq!(c.instance_counts(), (0, 1));
    c.clear_scope(&scope).unwrap();
    assert_eq!(c.instance_counts(), (0, 1));
    c.clear_scoped().unwrap();
    assert_eq!(c.instance_counts(), (0, 0));
    c.update_stats(5, false);
    assert_eq!(c.stats().total_resolutions, 1);
    assert_eq!(c.stats().error_count, 1);
    assert_eq!(c.stats().total_creation_time_ms, 5);
}

use super_lotto::di::DependencyInjection;

#[test]
fn test_di_creation() {
    let di: DependencyInjection<UnitFactory, Arc<u32>> = DependencyInjection::new();
    assert!(di.container().is_ready());
    assert!(di.registry().is_empty());
}

#[test]
fn core_services_are_registered_once() {
    let mut di: DependencyInjection<UnitFactory, Arc<u32>> = DependencyInjection::new();
    di.initialize(|_id: &str| constant(Arc::new(()))).unwrap();
    assert_eq!(di.registry().count(), 10);
    let analysis = di.registry().get("analysis_service").unwrap();
    assert_eq!(analysis.lifetime(), Lifetime::Scoped);
    assert_eq!(analysis.dependencies(), &vec!["query_optimizer".to_string(), "cache_manager".to_string()]);
    assert!(di.initialize(|_id: &str| constant(Arc::new(()))).is_err());
    di.shutdown().unwrap();
}

#[test]
fn lazy_factory_passes_creator_error_on() {
    let mock_provider = MockServiceProvider::new();
    let failing = lazy(|| -> Result<MockService, AppError> { Err(AppError::Internal { message: "boom".to_string() }) });
    match failing.create(&mock_provider) {
        Err(AppError::Internal { message }) => assert_eq!(message, "boom"),
        _ => panic!("the creator's error is handed on"),
    }
    let ok = lazy(|| Ok(MockService::new("lazy".to_string())));
    assert_eq!(ok.create(&mock_provider).ok().unwrap().value, "lazy");
    assert!(ok.service_type().ends_with("MockService"));
}

#[test]
fn config_factory_falls_back_to_default_creator() {
    let mock_provider = MockServiceProvider::new();
    let f = from_config("db.pool".to_string(), || Ok(MockService::new("default".to_string())));
    assert_eq!(f.create(&mock_provider).ok().unwrap().value, "default");
    let failing = from_config("db.pool".to_string(), || -> Result<MockService, AppError> {
        Err(AppError::Internal { message: "no default".to_string() })
    });
    assert!(matches!(failing.create(&mock_provider), Err(AppError::Internal { .. })));
}

#[test]
fn factories_are_labelled_with_their_service_type() {
    let f = from_fn(|_provider: &MockServiceProvider| Ok(Arc::new(MockService::new("test".to_string()))));
    assert!(f.service_type().ends_with("MockService"));
    assert!(!f.service_type().contains("PhantomData"));
    let c = constant(7u32);
    assert_eq!(c.service_type(), "u32");
    let s = constant(Arc::new(()));
    assert_eq!(s.service_type(), "alloc::sync::Arc<()>");
    let l = lazy(|| Ok(String::new()));
    assert_eq!(l.service_type(), "alloc::string::String");
    assert_eq!(ServiceFactoryFn::new(|_p: &MockServiceProvider| Ok::<Arc<()>, AppError>(Arc::new(()))).service_type(), "unknown");
}
