//! Descriptors for the common kinds of service.

use vstd::prelude::*;
use std::sync::Arc;
use crate::di::lifetime::Lifetime;
use crate::di::service_descriptor::{DescriptorView, ServiceDescriptor, ServiceDescriptorBuilder};
use crate::di::service_factory::{constant, from_fn, SingletonFactory, ServiceFactoryFn, ServiceProvider};
use crate::error::types::AppError;

verus! {

/// A descriptor made by the builder with an id, a name, a type and a
/// lifetime, and nothing else.
pub open spec fn plain_descriptor(id: Seq<char>, name: Seq<char>, service_type: Seq<char>, lifetime: Lifetime) -> DescriptorView {
    DescriptorView {
        id,
        name,
        description: Seq::empty(),
        service_type,
        lifetime,
        dependencies: Seq::empty(),
        tags: Seq::empty(),
        metadata: Seq::empty(),
    }
}

/// A singleton descriptor whose factory hands out the instance that
/// `factory` makes now; the error of `factory` if it fails.
pub fn singleton<T, G: Fn() -> Result<Arc<T>, AppError>>(service_id: &str, name: &str, factory: G) -> (r: Result<ServiceDescriptor<SingletonFactory<Arc<T>>>, AppError>)
    requires
        factory.requires(()),
    ensures
        match r {
            Ok(d) => d.dv() == plain_descriptor(service_id@, name@, "singleton"@, Lifetime::Singleton)
                && exists|inst: Arc<T>| factory.ensures((), Ok(inst))
                    && (d.spec_factory().instance matches Some(a) && *a == inst),
            Err(e) => factory.ensures((), Err(e)),
        },
{
    let instance = match factory() {
        Ok(i) => i,
        Err(e) => return Err(e),
    };
    let ghost inst = instance;
    let b = ServiceDescriptorBuilder::new().id(service_id).name(name).service_type("singleton").lifetime(Lifetime::Singleton).factory(constant(instance));
    let r = b.build();
    assert(Seq::<Seq<char>>::empty().len() == 0);
    match r {
        Ok(d) => {
            assert(d.dv().tags =~= Seq::<Seq<char>>::empty()) by {
                if d.dv().tags.len() > 0 {
                    assert(d.dv().tags.contains(d.dv().tags[0]));
                }
            }
            Ok(d)
        },
        Err(e) => Err(e),
    }
}

/// A scoped descriptor whose factory calls `factory`.
pub fn scoped<G>(service_id: &str, name: &str, factory: G) -> (r: Result<ServiceDescriptor<ServiceFactoryFn<G>>, AppError>)
    ensures
        r matches Ok(d) && d.dv() == plain_descriptor(service_id@, name@, "scoped"@, Lifetime::Scoped)
            && d.spec_factory().factory == factory,
{
    let r = ServiceDescriptorBuilder::new().id(service_id).name(name).service_type("scoped").lifetime(Lifetime::Scoped).factory(ServiceFactoryFn::new(factory)).build();
    match r {
        Ok(d) => {
            assert(d.dv().tags =~= Seq::<Seq<char>>::empty()) by {
                if d.dv().tags.len() > 0 {
                    assert(d.dv().tags.contains(d.dv().tags[0]));
                }
            }
            Ok(d)
        },
        Err(e) => Err(e),
    }
}

/// A transient descriptor whose factory calls `factory` with the
/// provider.
pub fn transient<P: ServiceProvider, T, G>(service_id: &str, name: &str, factory: G) -> (r: Result<ServiceDescriptor<ServiceFactoryFn<G>>, AppError>)
    where G: Fn(&P) -> Result<Arc<T>, AppError>,
    ensures
        r matches Ok(d) && d.dv() == plain_descriptor(service_id@, name@, "transient"@, Lifetime::Transient)
            && d.spec_factory().factory == factory,
{
    let r = ServiceDescriptorBuilder::new().id(service_id).name(name).service_type("transient").lifetime(Lifetime::Transient).factory(from_fn(factory)).build();
    match r {
        Ok(d) => {
            assert(d.dv().tags =~= Seq::<Seq<char>>::empty()) by {
                if d.dv().tags.len() > 0 {
                    assert(d.dv().tags.contains(d.dv().tags[0]));
                }
            }
            Ok(d)
        },
        Err(e) => Err(e),
    }
}

/// A singleton descriptor handing out `instance`.
pub fn from_instance<T>(service_id: &str, name: &str, instance: T) -> (r: Result<ServiceDescriptor<SingletonFactory<Arc<T>>>, AppError>)
    ensures
        r matches Ok(d) && d.dv() == plain_descriptor(service_id@, name@, "singleton"@, Lifetime::Singleton)
            && (d.spec_factory().instance matches Some(a) && **a == instance),
{
    let r = ServiceDescriptorBuilder::new().id(service_id).name(name).service_type("singleton").lifetime(Lifetime::Singleton).factory(constant(Arc::new(instance))).build();
    match r {
        Ok(d) => {
            assert(d.dv().tags =~= Seq::<Seq<char>>::empty()) by {
                if d.dv().tags.len() > 0 {
                    assert(d.dv().tags.contains(d.dv().tags[0]));
                }
            }
            Ok(d)
        },
        Err(e) => Err(e),
    }
}

} // verus!
