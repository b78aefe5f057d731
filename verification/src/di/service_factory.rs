//! Service factories: how the container obtains an instance of a service.
//! A factory calls a function, hands out one instance, or builds one on
//! demand; its label names the service type for diagnostics: the name of
//! the type it serves, as the standard library writes type names, where
//! that type is known; `unknown` for a bare function factory until a label
//! is given.

use vstd::prelude::*;
use std::sync::Arc;
use crate::error::types::AppError;
use crate::text::{owned, push_str, strip_enclosing};
use crate::assoc::{as_map, get_value, insert_value, keys_unique};

verus! {

/// What a factory is handed to look up other services.
pub trait ServiceProvider {}

/// What every factory tells about itself: the label of the service type it
/// creates.
pub trait ServiceFactory {
    /// The label.
    spec fn spec_label(&self) -> Seq<char>;

    /// The label of the service type.
    fn service_type_label(&self) -> (r: &'static str)
        ensures
            r@ == self.spec_label();
}

/// The label of a factory whose service type was not named.
pub open spec fn unknown_label() -> Seq<char> {
    "unknown"@
}

/// What `Debug` prints for `std::marker::PhantomData::<T>`: with the
/// standard library of this toolchain, `PhantomData<`, the name of `T` and
/// `>`. The documentation does not fix that text, so nothing is stated of
/// it.
#[verifier::external_body]
fn phantom_debug<T>() -> String {
    format!("{:?}", std::marker::PhantomData::<T>)
}

/// Calls `String::leak`, which keeps the text for the rest of the program
/// and hands out a reference to the same characters.
#[verifier::external_body]
fn leak_text(s: String) -> (r: &'static str)
    ensures
        r@ == s@,
{
    s.leak()
}

/// The name of the type `T`, as the standard library writes it: the text
/// that `Debug` prints for `PhantomData::<T>` with its `PhantomData<` and
/// `>` taken off. Nothing is stated of the text, which comes from the
/// standard library.
fn type_label<T>() -> &'static str {
    let shown = phantom_debug::<T>();
    leak_text(strip_enclosing(shown.as_str(), "PhantomData<", ">"))
}

/// A factory that calls a function returning a shared instance.
pub struct ServiceFactoryFn<F> {
    pub factory: F,
    pub service_type: &'static str,
}

impl<F> ServiceFactoryFn<F> {
    /// A factory calling `factory`, labelled `unknown`.
    pub fn new(factory: F) -> (r: ServiceFactoryFn<F>)
        ensures
            r.factory == factory,
            r.service_type@ == unknown_label(),
    {
        ServiceFactoryFn { factory, service_type: "unknown" }
    }

    /// The same factory with a label.
    pub fn with_service_type(self, service_type: &'static str) -> (r: ServiceFactoryFn<F>)
        ensures
            r.factory == self.factory,
            r.service_type == service_type,
    {
        ServiceFactoryFn { service_type, ..self }
    }

    /// Creates an instance by calling the function.
    pub fn create<P: ServiceProvider, T>(&self, provider: &P) -> (r: Result<Arc<T>, AppError>)
        where F: Fn(&P) -> Result<Arc<T>, AppError>,
        requires
            call_requires(self.factory, (provider,)),
        ensures
            call_ensures(self.factory, (provider,), r),
    {
        (self.factory)(provider)
    }

    /// The label.
    pub fn service_type(&self) -> (r: &'static str)
        ensures
            r == self.service_type,
    {
        self.service_type
    }
}

/// A factory that calls a function returning a new instance.
pub struct BuilderFactory<F> {
    pub builder: F,
    pub service_type: &'static str,
}

impl<F> BuilderFactory<F> {
    /// A factory calling `builder`, labelled with the name of the type it
    /// builds.
    pub fn new<P: ServiceProvider, T>(builder: F) -> (r: BuilderFactory<F>)
        where F: Fn(&P) -> Result<T, AppError>,
        ensures
            r.builder == builder,
    {
        BuilderFactory { builder, service_type: type_label::<T>() }
    }

    /// The same factory with a label.
    pub fn with_service_type(self, service_type: &'static str) -> (r: BuilderFactory<F>)
        ensures
            r.builder == self.builder,
            r.service_type == service_type,
    {
        BuilderFactory { service_type, ..self }
    }

    /// Creates an instance by calling the builder; its error is passed on.
    pub fn create<P: ServiceProvider, T>(&self, provider: &P) -> (r: Result<Arc<T>, AppError>)
        where F: Fn(&P) -> Result<T, AppError>,
        requires
            call_requires(self.builder, (provider,)),
        ensures
            exists|built: Result<T, AppError>| call_ensures(self.builder, (provider,), built) && match built {
                Ok(v) => r matches Ok(a) && *a == v,
                Err(e) => r == Err::<Arc<T>, AppError>(e),
            },
    {
        match (self.builder)(provider) {
            Ok(v) => Ok(Arc::new(v)),
            Err(e) => Err(e),
        }
    }

    /// The label.
    pub fn service_type(&self) -> (r: &'static str)
        ensures
            r == self.service_type,
    {
        self.service_type
    }
}

/// A factory handing out one shared instance.
pub struct SingletonFactory<T> {
    pub instance: Option<Arc<T>>,
    pub service_type: &'static str,
}

impl<T> SingletonFactory<T> {
    /// A factory handing out `instance`, labelled with the name of its type.
    pub fn new(instance: T) -> (r: SingletonFactory<T>)
        ensures
            r.instance matches Some(a) && *a == instance,
    {
        SingletonFactory { instance: Some(Arc::new(instance)), service_type: type_label::<T>() }
    }

    /// The same factory with a label.
    pub fn with_service_type(self, service_type: &'static str) -> (r: SingletonFactory<T>)
        ensures
            r.instance == self.instance,
            r.service_type == service_type,
    {
        SingletonFactory { service_type, ..self }
    }

    /// The shared instance; a factory without one fails, naming its label.
    pub fn create<P: ServiceProvider>(&self, provider: &P) -> (r: Result<Arc<T>, AppError>)
        ensures
            match self.instance {
                Some(a) => r matches Ok(b) && *b == *a,
                None => r matches Err(AppError::DependencyInjection { message, service_id })
                    && message@ == "Singleton factory has no instance or factory function"@
                    && service_id@ == self.service_type@,
            },
    {
        match &self.instance {
            Some(a) => Ok(a.clone()),
            None => Err(AppError::DependencyInjection {
                message: owned("Singleton factory has no instance or factory function"),
                service_id: owned(self.service_type),
            }),
        }
    }

    /// The label.
    pub fn service_type(&self) -> (r: &'static str)
        ensures
            r == self.service_type,
    {
        self.service_type
    }
}

/// A factory that builds an instance when asked, without looking at the
/// provider.
pub struct LazyFactory<F> {
    pub creator: F,
    pub service_type: &'static str,
}

impl<F> LazyFactory<F> {
    /// A factory calling `creator`, labelled with the name of the type it
    /// creates.
    pub fn new<T>(creator: F) -> (r: LazyFactory<F>)
        where F: Fn() -> Result<T, AppError>,
        ensures
            r.creator == creator,
    {
        LazyFactory { creator, service_type: type_label::<T>() }
    }

    /// The same factory with a label.
    pub fn with_service_type(self, service_type: &'static str) -> (r: LazyFactory<F>)
        ensures
            r.creator == self.creator,
            r.service_type == service_type,
    {
        LazyFactory { service_type, ..self }
    }

    /// Creates an instance by calling the creator; its error is passed on.
    pub fn create<P: ServiceProvider, T>(&self, provider: &P) -> (r: Result<Arc<T>, AppError>)
        where F: Fn() -> Result<T, AppError>,
        requires
            call_requires(self.creator, ()),
        ensures
            exists|made: Result<T, AppError>| call_ensures(self.creator, (), made) && match made {
                Ok(v) => r matches Ok(a) && *a == v,
                Err(e) => r == Err::<Arc<T>, AppError>(e),
            },
    {
        match (self.creator)() {
            Ok(v) => Ok(Arc::new(v)),
            Err(e) => Err(e),
        }
    }

    /// The label.
    pub fn service_type(&self) -> (r: &'static str)
        ensures
            r == self.service_type,
    {
        self.service_type
    }
}

/// A factory wrapping a function that returns a shared instance, labelled
/// with the name of the instance's type.
pub fn from_fn<P: ServiceProvider, T, F>(factory: F) -> (r: ServiceFactoryFn<F>)
    where F: Fn(&P) -> Result<Arc<T>, AppError>,
    ensures
        r.factory == factory,
{
    ServiceFactoryFn::new(factory).with_service_type(type_label::<T>())
}

/// A factory handing out one value, labelled with the name of its type.
pub fn constant<T>(value: T) -> (r: SingletonFactory<T>)
    ensures
        r.instance matches Some(a) && *a == value,
{
    SingletonFactory::new(value)
}

/// A factory calling a builder, labelled with the name of the type it
/// builds.
pub fn builder<P: ServiceProvider, T, F>(build: F) -> (r: BuilderFactory<F>)
    where F: Fn(&P) -> Result<T, AppError>,
    ensures
        r.builder == build,
{
    BuilderFactory::new::<P, T>(build)
}

/// A factory calling a creator on demand, labelled with the name of the
/// type it creates.
pub fn lazy<T, F>(creator: F) -> (r: LazyFactory<F>)
    where F: Fn() -> Result<T, AppError>,
    ensures
        r.creator == creator,
{
    LazyFactory::new::<T>(creator)
}

impl<F> ServiceFactory for ServiceFactoryFn<F> {
    open spec fn spec_label(&self) -> Seq<char> {
        self.service_type@
    }

    fn service_type_label(&self) -> (r: &'static str) {
        self.service_type
    }
}

impl<F> ServiceFactory for BuilderFactory<F> {
    open spec fn spec_label(&self) -> Seq<char> {
        self.service_type@
    }

    fn service_type_label(&self) -> (r: &'static str) {
        self.service_type
    }
}

impl<T> ServiceFactory for SingletonFactory<T> {
    open spec fn spec_label(&self) -> Seq<char> {
        self.service_type@
    }

    fn service_type_label(&self) -> (r: &'static str) {
        self.service_type
    }
}

impl<F> ServiceFactory for LazyFactory<F> {
    open spec fn spec_label(&self) -> Seq<char> {
        self.service_type@
    }

    fn service_type_label(&self) -> (r: &'static str) {
        self.service_type
    }
}

/// The message of the error that configuration-based creation gives.
pub open spec fn config_creation_message(service_type: Seq<char>) -> Seq<char> {
    "Config-based creation not implemented for service type: "@ + service_type
}

/// A factory meant to build its service from a configuration value;
/// building from configuration is not supported, so it always falls back
/// to its default creator.
pub struct ConfigFactory<F> {
    pub config_key: String,
    pub default_creator: F,
    pub service_type: &'static str,
}

impl<F> ConfigFactory<F> {
    /// A factory for `config_key` with a default creator, labelled with the
    /// name of the type it creates.
    pub fn new<T>(config_key: String, default_creator: F) -> (r: ConfigFactory<F>)
        where F: Fn() -> Result<T, AppError>,
        ensures
            r.config_key == config_key,
            r.default_creator == default_creator,
    {
        ConfigFactory { config_key, default_creator, service_type: type_label::<T>() }
    }

    /// The same factory with a label.
    pub fn with_service_type(self, service_type: &'static str) -> (r: ConfigFactory<F>)
        ensures
            r.config_key == self.config_key,
            r.default_creator == self.default_creator,
            r.service_type == service_type,
    {
        ConfigFactory { service_type, ..self }
    }

    /// Building from configuration: not supported, always an error naming
    /// the service type.
    pub fn create_from_config<T>(&self) -> (r: Result<T, AppError>)
        ensures
            r matches Err(AppError::DependencyInjection { message, service_id })
                && message@ == config_creation_message(self.service_type@)
                && service_id@ == self.service_type@,
    {
        let mut message = owned("Config-based creation not implemented for service type: ");
        push_str(&mut message, self.service_type);
        Err(AppError::DependencyInjection { message, service_id: owned(self.service_type) })
    }

    /// Creates an instance: from configuration where that works, which it
    /// never does, so by the default creator, whose error is passed on.
    pub fn create<P: ServiceProvider, T>(&self, provider: &P) -> (r: Result<Arc<T>, AppError>)
        where F: Fn() -> Result<T, AppError>,
        requires
            call_requires(self.default_creator, ()),
        ensures
            exists|made: Result<T, AppError>| call_ensures(self.default_creator, (), made) && match made {
                Ok(v) => r matches Ok(a) && *a == v,
                Err(e) => r == Err::<Arc<T>, AppError>(e),
            },
    {
        match self.create_from_config::<T>() {
            Ok(instance) => Ok(Arc::new(instance)),
            Err(_) => match (self.default_creator)() {
                Ok(v) => Ok(Arc::new(v)),
                Err(e) => Err(e),
            },
        }
    }

    /// The label.
    pub fn service_type(&self) -> (r: &'static str)
        ensures
            r == self.service_type,
    {
        self.service_type
    }
}

impl<F> ServiceFactory for ConfigFactory<F> {
    open spec fn spec_label(&self) -> Seq<char> {
        self.service_type@
    }

    fn service_type_label(&self) -> (r: &'static str) {
        self.service_type
    }
}

/// A factory for `config_key` falling back to `default_creator`, labelled
/// with the name of the type it creates.
pub fn from_config<T, F>(config_key: String, default_creator: F) -> (r: ConfigFactory<F>)
    where F: Fn() -> Result<T, AppError>,
    ensures
        r.config_key == config_key,
        r.default_creator == default_creator,
{
    ConfigFactory::new::<T>(config_key, default_creator)
}

/// The message of a lookup of an unregistered service in the mock provider.
pub open spec fn mock_missing_message(service_id: Seq<char>) -> Seq<char> {
    "Service '"@ + service_id + "' not found in mock provider"@
}

/// A provider for tests that hands out registered instances by id.
pub struct MockServiceProvider<S> {
    services: Vec<(String, Arc<S>)>,
}

impl<S> MockServiceProvider<S> {
    /// The registered instances by id.
    pub closed spec fn spec_services(&self) -> Map<Seq<char>, Arc<S>> {
        as_map(self.services@)
    }

    /// Each id is registered once.
    pub closed spec fn wf(&self) -> bool {
        keys_unique(self.services@)
    }

    /// A provider with nothing registered.
    pub fn new() -> (r: Self)
        ensures
            r.wf(),
            r.spec_services() == Map::<Seq<char>, Arc<S>>::empty(),
    {
        let r = MockServiceProvider { services: Vec::new() };
        assert(as_map(r.services@) =~= Map::<Seq<char>, Arc<S>>::empty());
        r
    }

    /// Registers (or replaces) the instance under `service_id`.
    pub fn register(&mut self, service_id: &str, service: Arc<S>)
        requires
            old(self).wf(),
        ensures
            final(self).wf(),
            final(self).spec_services() == old(self).spec_services().insert(service_id@, service),
    {
        insert_value(&mut self.services, owned(service_id), service);
    }

    /// The instance under `service_id`, or an error naming it.
    pub fn get(&self, service_id: &str) -> (r: Result<Arc<S>, AppError>)
        requires
            self.wf(),
        ensures
            self.spec_services().contains_key(service_id@) ==> r == Ok::<Arc<S>, AppError>(self.spec_services()[service_id@]),
            !self.spec_services().contains_key(service_id@) ==> (r matches Err(AppError::DependencyInjection { message, service_id: sid })
                && message@ == mock_missing_message(service_id@) && sid@ == service_id@),
    {
        match get_value(&self.services, service_id) {
            Some(s) => Ok(s.clone()),
            None => {
                let mut message = owned("Service '");
                push_str(&mut message, service_id);
                push_str(&mut message, "' not found in mock provider");
                Err(AppError::DependencyInjection { message, service_id: owned(service_id) })
            },
        }
    }

    /// The instance under `service_id`, if registered.
    pub fn get_optional(&self, service_id: &str) -> (r: Option<Arc<S>>)
        requires
            self.wf(),
        ensures
            self.spec_services().contains_key(service_id@) ==> r == Some(self.spec_services()[service_id@]),
            !self.spec_services().contains_key(service_id@) ==> r is None,
    {
        match get_value(&self.services, service_id) {
            Some(s) => Some(s.clone()),
            None => None,
        }
    }
}

impl<S> ServiceProvider for MockServiceProvider<S> {}

} // verus!
