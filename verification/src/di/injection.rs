//! Service metadata and the locator that hands out the current service
//! provider.

use vstd::prelude::*;
use crate::clock::now_millis;
use crate::error::types::AppError;
use crate::text::{owned, string_views};
use crate::di::service_registry::di_error;

verus! {

/// What a service says about itself.
#[derive(Debug, Clone)]
pub struct ServiceMetadata {
    pub id: String,
    pub name: String,
    pub description: String,
    pub version: String,
    pub dependencies: Vec<String>,
    pub provides: Vec<String>,
    pub tags: Vec<String>,
    /// Milliseconds since the Unix epoch.
    pub created_at_ms: i64,
}

impl ServiceMetadata {
    /// Metadata made now, with no dependencies, provided services or tags.
    pub fn new(id: String, name: String, description: String, version: String) -> (r: ServiceMetadata)
        ensures
            r.id == id,
            r.name == name,
            r.description == description,
            r.version == version,
            r.dependencies@.len() == 0,
            r.provides@.len() == 0,
            r.tags@.len() == 0,
    {
        ServiceMetadata {
            id,
            name,
            description,
            version,
            dependencies: Vec::new(),
            provides: Vec::new(),
            tags: Vec::new(),
            created_at_ms: now_millis(),
        }
    }

    /// The same metadata with other dependencies.
    pub fn with_dependencies(self, dependencies: Vec<String>) -> (r: ServiceMetadata)
        ensures
            r == (ServiceMetadata { dependencies, ..self }),
    {
        ServiceMetadata { dependencies, ..self }
    }

    /// The same metadata with other provided services.
    pub fn with_provides(self, provides: Vec<String>) -> (r: ServiceMetadata)
        ensures
            r == (ServiceMetadata { provides, ..self }),
    {
        ServiceMetadata { provides, ..self }
    }

    /// The same metadata with other tags.
    pub fn with_tags(self, tags: Vec<String>) -> (r: ServiceMetadata)
        ensures
            r == (ServiceMetadata { tags, ..self }),
    {
        ServiceMetadata { tags, ..self }
    }
}

/// Holds the service provider in use, once one is set.
pub struct ServiceLocator<P> {
    provider: Option<P>,
}

impl<P> ServiceLocator<P> {
    /// The provider, if set.
    pub closed spec fn spec_provider(&self) -> Option<P> {
        self.provider
    }

    /// A locator without a provider.
    pub fn new() -> (r: ServiceLocator<P>)
        ensures
            r.spec_provider() is None,
    {
        ServiceLocator { provider: None }
    }

    /// Sets the provider.
    pub fn set_provider(&mut self, provider: P)
        ensures
            final(self).spec_provider() == Some(provider),
    {
        self.provider = Some(provider);
    }

    /// The provider; an error while none is set.
    pub fn provider(&self) -> (r: Result<&P, AppError>)
        ensures
            match self.spec_provider() {
                Some(p) => r == Ok::<&P, AppError>(&p),
                None => r matches Err(e) && di_error(e, "Service provider not set"@, "service_locator"@),
            },
    {
        match &self.provider {
            Some(p) => Ok(p),
            None => Err(AppError::DependencyInjection { message: owned("Service provider not set"), service_id: owned("service_locator") }),
        }
    }
}

impl<P> Default for ServiceLocator<P> {
    /// A locator without a provider.
    fn default() -> (r: ServiceLocator<P>)
        ensures
            r.spec_provider() is None,
    {
        Self::new()
    }
}

} // verus!
