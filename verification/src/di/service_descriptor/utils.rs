//! Checks and estimates over service descriptors.

use vstd::prelude::*;
use crate::di::lifetime::Lifetime;
use crate::di::service_descriptor::{CPUCost, ServiceDescriptor, descriptor_problem};
use crate::error::types::AppError;
use crate::text::str_eq;

verus! {

/// Checks a descriptor, as `ServiceDescriptor::validate` does.
pub fn validate<F>(descriptor: &ServiceDescriptor<F>) -> (r: Result<(), AppError>)
    ensures
        r is Ok <==> descriptor_problem(descriptor.dv()) is None,
{
    descriptor.validate()
}

/// Two descriptors are compatible when they have the same type.
pub fn are_compatible<F, G>(desc1: &ServiceDescriptor<F>, desc2: &ServiceDescriptor<G>) -> (r: bool)
    ensures
        r == (desc1.dv().service_type == desc2.dv().service_type),
{
    str_eq(desc1.service_type(), desc2.service_type())
}

/// The order of creation by lifetime: singletons first (1), then scoped
/// services (2), then transient ones (3).
pub fn get_creation_priority<F>(descriptor: &ServiceDescriptor<F>) -> (r: u8)
    ensures
        r == match descriptor.dv().lifetime {
            Lifetime::Singleton => 1u8,
            Lifetime::Scoped => 2u8,
            Lifetime::Transient => 3u8,
        },
{
    match descriptor.lifetime() {
        Lifetime::Singleton => 1,
        Lifetime::Scoped => 2,
        Lifetime::Transient => 3,
    }
}

/// The creation cost by lifetime: a singleton is expensive to make once,
/// a scoped service moderate, a transient one cheap.
pub fn estimate_cpu_cost<F>(descriptor: &ServiceDescriptor<F>) -> (r: CPUCost)
    ensures
        r == match descriptor.dv().lifetime {
            Lifetime::Singleton => CPUCost::High,
            Lifetime::Scoped => CPUCost::Medium,
            Lifetime::Transient => CPUCost::Low,
        },
{
    match descriptor.lifetime() {
        Lifetime::Singleton => CPUCost::High,
        Lifetime::Scoped => CPUCost::Medium,
        Lifetime::Transient => CPUCost::Low,
    }
}

} // verus!
