//! Service descriptors: their validation, dependency analysis and cost
//! estimates.

pub mod builders;
pub mod utils;

use vstd::prelude::*;
use crate::text::copy_strings;
use crate::assoc::{as_map, distinct_strings, in_list, insert_value, key_seq, keys_unique, list_contains};
use crate::di::lifetime::Lifetime;
use crate::error::types::AppError;
use crate::order::{sort_dedup, strictly_sorted};
use crate::text::{char_len, owned, push_str, string_views};

verus! {

/// What a service descriptor holds, as plain values: metadata values are
/// JSON texts.
pub struct DescriptorView {
    pub id: Seq<char>,
    pub name: Seq<char>,
    pub description: Seq<char>,
    pub service_type: Seq<char>,
    pub lifetime: Lifetime,
    pub dependencies: Seq<Seq<char>>,
    pub tags: Seq<Seq<char>>,
    pub metadata: Seq<(String, String)>,
}

/// A service: its identity, lifetime, the factory that makes it (of type
/// `F`), what it depends on, its tags and metadata (JSON texts by key).
#[derive(Debug, Clone)]
pub struct ServiceDescriptor<F> {
    id: String,
    name: String,
    description: String,
    service_type: String,
    lifetime: Lifetime,
    factory: F,
    dependencies: Vec<String>,
    tags: Vec<String>,
    metadata: Vec<(String, String)>,
}

/// The first reason a descriptor is invalid, if any: an empty id, name or
/// type, an empty dependency, or a dependency listed twice (the first one
/// that repeats an earlier one).
pub open spec fn descriptor_problem(d: DescriptorView) -> Option<Seq<char>> {
    if d.id.len() == 0 {
        Some("Service ID cannot be empty"@)
    } else if d.name.len() == 0 {
        Some("Service name cannot be empty"@)
    } else if d.service_type.len() == 0 {
        Some("Service type cannot be empty"@)
    } else if exists|i: int| 0 <= i < d.dependencies.len() && #[trigger] d.dependencies[i].len() == 0 {
        Some("Dependency ID cannot be empty"@)
    } else if exists|i: int, j: int| 0 <= i < j < d.dependencies.len() && #[trigger] d.dependencies[i] == #[trigger] d.dependencies[j] {
        Some("Duplicate dependency '"@ + d.dependencies[first_repeat(d.dependencies)] + "' in service '"@ + d.id + "'"@)
    } else {
        None
    }
}

/// The entry at `j` equals an earlier one.
pub open spec fn repeats_earlier(s: Seq<Seq<char>>, j: int) -> bool {
    exists|i: int| 0 <= i < j && s[i] == s[j]
}

/// The position of the first entry equal to an earlier one.
pub open spec fn first_repeat(s: Seq<Seq<char>>) -> int {
    choose|j: int| 0 <= j < s.len() && #[trigger] repeats_earlier(s, j)
        && forall|k: int| 0 <= k < j ==> !#[trigger] repeats_earlier(s, k)
}

impl<F> ServiceDescriptor<F> {
    /// The descriptor's plain values.
    pub closed spec fn dv(&self) -> DescriptorView {
        DescriptorView {
            id: self.id@,
            name: self.name@,
            description: self.description@,
            service_type: self.service_type@,
            lifetime: self.lifetime,
            dependencies: string_views(self.dependencies@),
            tags: string_views(self.tags@),
            metadata: self.metadata@,
        }
    }

    /// The factory.
    pub closed spec fn spec_factory(&self) -> F {
        self.factory
    }

    /// A descriptor of the given parts.
    pub fn new(
        id: String,
        name: String,
        description: String,
        service_type: String,
        lifetime: Lifetime,
        factory: F,
        dependencies: Vec<String>,
        tags: Vec<String>,
        metadata: Vec<(String, String)>,
    ) -> (r: ServiceDescriptor<F>)
        ensures
            r.dv() == (DescriptorView {
                id: id@,
                name: name@,
                description: description@,
                service_type: service_type@,
                lifetime,
                dependencies: string_views(dependencies@),
                tags: string_views(tags@),
                metadata: metadata@,
            }),
            r.spec_factory() == factory,
    {
        ServiceDescriptor { id, name, description, service_type, lifetime, factory, dependencies, tags, metadata }
    }

    /// The id.
    pub fn id(&self) -> (r: &str)
        ensures
            r@ == self.dv().id,
    {
        self.id.as_str()
    }

    /// The name.
    pub fn name(&self) -> (r: &str)
        ensures
            r@ == self.dv().name,
    {
        self.name.as_str()
    }

    /// The description.
    pub fn description(&self) -> (r: &str)
        ensures
            r@ == self.dv().description,
    {
        self.description.as_str()
    }

    /// The type.
    pub fn service_type(&self) -> (r: &str)
        ensures
            r@ == self.dv().service_type,
    {
        self.service_type.as_str()
    }

    /// The lifetime.
    pub fn lifetime(&self) -> (r: Lifetime)
        ensures
            r == self.dv().lifetime,
    {
        self.lifetime
    }

    /// The factory.
    pub fn factory(&self) -> (r: &F)
        ensures
            *r == self.spec_factory(),
    {
        &self.factory
    }

    /// The ids of the services this one depends on.
    pub fn dependencies(&self) -> (r: &Vec<String>)
        ensures
            string_views(r@) == self.dv().dependencies,
    {
        &self.dependencies
    }

    /// The tags.
    pub fn tags(&self) -> (r: &Vec<String>)
        ensures
            string_views(r@) == self.dv().tags,
    {
        &self.tags
    }

    /// The metadata: JSON texts by key.
    pub fn metadata(&self) -> (r: &Vec<(String, String)>)
        ensures
            r@ == self.dv().metadata,
    {
        &self.metadata
    }

    /// Checks the descriptor: the id, name and type must not be empty, nor
    /// any dependency, and no dependency may be listed twice.
    pub fn validate(&self) -> (r: Result<(), AppError>)
        ensures
            match descriptor_problem(self.dv()) {
                None => r is Ok,
                Some(m) => r matches Err(AppError::DependencyInjection { message, service_id })
                    && message@ == m && service_id@ == self.dv().id,
            },
    {
        let ghost d = self.dv();
        if char_len(self.id.as_str()) == 0 {
            return Err(AppError::DependencyInjection { message: owned("Service ID cannot be empty"), service_id: self.id.clone() });
        }
        if char_len(self.name.as_str()) == 0 {
            return Err(AppError::DependencyInjection { message: owned("Service name cannot be empty"), service_id: self.id.clone() });
        }
        if char_len(self.service_type.as_str()) == 0 {
            return Err(AppError::DependencyInjection { message: owned("Service type cannot be empty"), service_id: self.id.clone() });
        }
        let mut i: usize = 0;
        while i < self.dependencies.len()
            invariant
                i <= self.dependencies@.len(),
                d == self.dv(),
                d.id.len() != 0 && d.name.len() != 0 && d.service_type.len() != 0,
                forall|k: int| 0 <= k < i ==> #[trigger] d.dependencies[k].len() != 0,
            decreases self.dependencies@.len() - i,
        {
            if char_len(self.dependencies[i].as_str()) == 0 {
                assert(d.dependencies[i as int] == self.dependencies@[i as int]@);
                assert(d.dependencies[i as int].len() == 0);
                return Err(AppError::DependencyInjection { message: owned("Dependency ID cannot be empty"), service_id: self.id.clone() });
            }
            i = i + 1;
        }
        let mut seen: Vec<String> = Vec::new();
        let mut j: usize = 0;
        while j < self.dependencies.len()
            invariant
                j <= self.dependencies@.len(),
                d == self.dv(),
                d.id.len() != 0 && d.name.len() != 0 && d.service_type.len() != 0,
                forall|k: int| 0 <= k < d.dependencies.len() ==> #[trigger] d.dependencies[k].len() != 0,
                string_views(seen@) == d.dependencies.subrange(0, j as int),
                forall|a: int, b: int| 0 <= a < b < j ==> d.dependencies[a] != d.dependencies[b],
            decreases self.dependencies@.len() - j,
        {
            let dep = &self.dependencies[j];
            if list_contains(&seen, dep.as_str()) {
                proof {
                    let k = choose|k: int| 0 <= k < seen@.len() && #[trigger] seen@[k]@ == dep@;
                    assert(string_views(seen@).len() == seen@.len());
                    assert(d.dependencies.subrange(0, j as int).len() == j);
                    assert(0 <= k < j);
                    assert(string_views(seen@)[k] == seen@[k]@);
                    assert(d.dependencies.subrange(0, j as int)[k] == d.dependencies[k]);
                    assert(d.dependencies[j as int] == self.dependencies@[j as int]@);
                    assert(d.dependencies[k] == d.dependencies[j as int]);
                    let ds = d.dependencies;
                    assert(repeats_earlier(ds, j as int));
                    assert forall|kk: int| 0 <= kk < j implies !#[trigger] repeats_earlier(ds, kk) by {}
                    let fr = first_repeat(ds);
                    assert(fr == j) by {
                        assert(0 <= fr < ds.len());
                        if fr < j {
                            assert(!repeats_earlier(ds, fr));
                        }
                        if fr > j {
                            assert(!repeats_earlier(ds, j as int));
                        }
                    }
                }
                let mut message = owned("Duplicate dependency '");
                push_str(&mut message, dep.as_str());
                push_str(&mut message, "' in service '");
                push_str(&mut message, self.id.as_str());
                push_str(&mut message, "'");
                proof {
                    assert(exists|a: int, b: int| 0 <= a < b < d.dependencies.len() && #[trigger] d.dependencies[a] == #[trigger] d.dependencies[b]) by {
                        let k = choose|k: int| 0 <= k < seen@.len() && #[trigger] seen@[k]@ == dep@;
                        assert(d.dependencies[k] == d.dependencies[j as int]);
                    }
                    assert(d.dependencies[first_repeat(d.dependencies)] == dep@);
                }
                return Err(AppError::DependencyInjection { message, service_id: self.id.clone() });
            }
            let ghost before = seen@;
            seen.push(dep.clone());
            assert(string_views(seen@) =~= string_views(before).push(dep@));
            assert(d.dependencies.subrange(0, j + 1) =~= d.dependencies.subrange(0, j as int).push(d.dependencies[j as int]));
            proof {
                assert forall|a: int, b: int| 0 <= a < b < j + 1 implies d.dependencies[a] != d.dependencies[b] by {
                    if b == j {
                        assert(string_views(before)[a] == d.dependencies[a]);
                        assert(!(before[a]@ == dep@));
                    }
                }
            }
            j = j + 1;
        }
        proof {
            assert(!(exists|a: int, b: int| 0 <= a < b < d.dependencies.len() && #[trigger] d.dependencies[a] == #[trigger] d.dependencies[b]));
        }
        Ok(())
    }

    /// Whether this service depends on `service_id`.
    pub fn depends_on(&self, service_id: &str) -> (r: bool)
        ensures
            r == self.dv().dependencies.contains(service_id@),
    {
        let r = list_contains(&self.dependencies, service_id);
        proof {
            if r {
                let k = choose|k: int| 0 <= k < self.dependencies@.len() && #[trigger] self.dependencies@[k]@ == service_id@;
                assert(self.dv().dependencies[k] == service_id@);
            }
            if self.dv().dependencies.contains(service_id@) {
                let k = choose|k: int| 0 <= k < self.dv().dependencies.len() && self.dv().dependencies[k] == service_id@;
                assert(self.dependencies@[k]@ == service_id@);
            }
        }
        r
    }

    /// A summary: id, name, type, lifetime, the numbers of dependencies and
    /// tags, and the metadata keys.
    pub fn summary(&self) -> (r: ServiceDescriptorSummary)
        ensures
            r.id@ == self.dv().id,
            r.name@ == self.dv().name,
            r.service_type@ == self.dv().service_type,
            r.lifetime == self.dv().lifetime,
            r.dependency_count == self.dv().dependencies.len(),
            r.tag_count == self.dv().tags.len(),
            string_views(r.metadata_keys@) == key_seq(self.dv().metadata),
    {
        let mut keys: Vec<String> = Vec::new();
        let mut i: usize = 0;
        while i < self.metadata.len()
            invariant
                i <= self.metadata@.len(),
                string_views(keys@) == key_seq(self.metadata@.subrange(0, i as int)),
            decreases self.metadata@.len() - i,
        {
            let ghost before = keys@;
            keys.push(self.metadata[i].0.clone());
            assert(string_views(keys@) =~= string_views(before).push(self.metadata@[i as int].0@));
            assert(key_seq(self.metadata@.subrange(0, i + 1)) =~= key_seq(self.metadata@.subrange(0, i as int)).push(self.metadata@[i as int].0@));
            i = i + 1;
        }
        assert(self.metadata@.subrange(0, i as int) =~= self.metadata@);
        ServiceDescriptorSummary {
            id: self.id.clone(),
            name: self.name.clone(),
            service_type: self.service_type.clone(),
            lifetime: self.lifetime,
            dependency_count: self.dependencies.len(),
            tag_count: self.tags.len(),
            metadata_keys: keys,
        }
    }
}


/// A copy of key/value text pairs.
fn copy_pairs(v: &Vec<(String, String)>) -> (r: Vec<(String, String)>)
    ensures
        r@.len() == v@.len(),
        forall|i: int| 0 <= i < v@.len() ==> r@[i].0@ == v@[i].0@ && r@[i].1@ == v@[i].1@,
{
    let mut out: Vec<(String, String)> = Vec::new();
    let mut i: usize = 0;
    while i < v.len()
        invariant
            i <= v@.len(),
            out@.len() == i,
            forall|k: int| 0 <= k < i ==> out@[k].0@ == v@[k].0@ && out@[k].1@ == v@[k].1@,
        decreases v@.len() - i,
    {
        out.push((v[i].0.clone(), v[i].1.clone()));
        i = i + 1;
    }
    out
}

impl<F: Clone> ServiceDescriptor<F> {
    /// A copy of the descriptor with another factory.
    pub fn with_factory(&self, factory: F) -> (r: ServiceDescriptor<F>)
        ensures
            r.dv().id == self.dv().id,
            r.dv().name == self.dv().name,
            r.dv().description == self.dv().description,
            r.dv().service_type == self.dv().service_type,
            r.dv().lifetime == self.dv().lifetime,
            r.dv().dependencies == self.dv().dependencies,
            r.dv().tags == self.dv().tags,
            key_seq(r.dv().metadata) == key_seq(self.dv().metadata),
            r.spec_factory() == factory,
    {
        let m = copy_pairs(&self.metadata);
        assert(key_seq(m@) =~= key_seq(self.metadata@));
        ServiceDescriptor {
            id: self.id.clone(),
            name: self.name.clone(),
            description: self.description.clone(),
            service_type: self.service_type.clone(),
            lifetime: self.lifetime,
            factory,
            dependencies: copy_strings(&self.dependencies),
            tags: copy_strings(&self.tags),
            metadata: m,
        }
    }

    /// A copy of the descriptor with other dependencies.
    pub fn with_dependencies(&self, dependencies: Vec<String>) -> (r: ServiceDescriptor<F>)
        ensures
            r.dv().id == self.dv().id,
            r.dv().name == self.dv().name,
            r.dv().description == self.dv().description,
            r.dv().service_type == self.dv().service_type,
            r.dv().lifetime == self.dv().lifetime,
            r.dv().dependencies == string_views(dependencies@),
            r.dv().tags == self.dv().tags,
            key_seq(r.dv().metadata) == key_seq(self.dv().metadata),
    {
        let m = copy_pairs(&self.metadata);
        assert(key_seq(m@) =~= key_seq(self.metadata@));
        ServiceDescriptor {
            id: self.id.clone(),
            name: self.name.clone(),
            description: self.description.clone(),
            service_type: self.service_type.clone(),
            lifetime: self.lifetime,
            factory: self.factory.clone(),
            dependencies,
            tags: copy_strings(&self.tags),
            metadata: m,
        }
    }

    /// A copy of the descriptor with other tags.
    pub fn with_tags(&self, tags: Vec<String>) -> (r: ServiceDescriptor<F>)
        ensures
            r.dv().id == self.dv().id,
            r.dv().name == self.dv().name,
            r.dv().description == self.dv().description,
            r.dv().service_type == self.dv().service_type,
            r.dv().lifetime == self.dv().lifetime,
            r.dv().dependencies == self.dv().dependencies,
            r.dv().tags == string_views(tags@),
            key_seq(r.dv().metadata) == key_seq(self.dv().metadata),
    {
        let m = copy_pairs(&self.metadata);
        assert(key_seq(m@) =~= key_seq(self.metadata@));
        ServiceDescriptor {
            id: self.id.clone(),
            name: self.name.clone(),
            description: self.description.clone(),
            service_type: self.service_type.clone(),
            lifetime: self.lifetime,
            factory: self.factory.clone(),
            dependencies: copy_strings(&self.dependencies),
            tags,
            metadata: m,
        }
    }

    /// A copy of the descriptor with other metadata.
    pub fn with_metadata(&self, metadata: Vec<(String, String)>) -> (r: ServiceDescriptor<F>)
        ensures
            r.dv().id == self.dv().id,
            r.dv().name == self.dv().name,
            r.dv().description == self.dv().description,
            r.dv().service_type == self.dv().service_type,
            r.dv().lifetime == self.dv().lifetime,
            r.dv().dependencies == self.dv().dependencies,
            r.dv().tags == self.dv().tags,
            r.dv().metadata == metadata@,
    {
        ServiceDescriptor {
            id: self.id.clone(),
            name: self.name.clone(),
            description: self.description.clone(),
            service_type: self.service_type.clone(),
            lifetime: self.lifetime,
            factory: self.factory.clone(),
            dependencies: copy_strings(&self.dependencies),
            tags: copy_strings(&self.tags),
            metadata,
        }
    }
}

/// A short account of a descriptor.
#[derive(Debug, Clone)]
pub struct ServiceDescriptorSummary {
    pub id: String,
    pub name: String,
    pub service_type: String,
    pub lifetime: Lifetime,
    pub dependency_count: usize,
    pub tag_count: usize,
    pub metadata_keys: Vec<String>,
}

/// CPU creation cost levels
#[derive(Debug, Clone, Copy, PartialEq, Eq, Structural)]
pub enum CPUCost {
    Low,
    Medium,
    High,
}

impl CPUCost {
    /// The numerical weight of each level.
    pub open spec fn spec_as_value(&self) -> u8 {
        match self {
            CPUCost::Low => 1,
            CPUCost::Medium => 2,
            CPUCost::High => 3,
        }
    }

    /// Get the cost as a numerical value
    pub fn as_value(&self) -> (r: u8)
        ensures
            r == self.spec_as_value(),
    {
        match self {
            CPUCost::Low => 1,
            CPUCost::Medium => 2,
            CPUCost::High => 3,
        }
    }

    /// Get the cost description
    pub fn description(&self) -> (r: &'static str)
        ensures
            r@ == match self {
                CPUCost::Low => "Low (quick creation)"@,
                CPUCost::Medium => "Medium (moderate creation)"@,
                CPUCost::High => "High (expensive creation)"@,
            },
    {
        match self {
            CPUCost::Low => "Low (quick creation)",
            CPUCost::Medium => "Medium (moderate creation)",
            CPUCost::High => "High (expensive creation)",
        }
    }
}

/// Builds a service descriptor step by step.
pub struct ServiceDescriptorBuilder<F> {
    id: String,
    name: String,
    description: String,
    service_type: String,
    lifetime: Lifetime,
    factory: Option<F>,
    dependencies: Vec<String>,
    tags: Vec<String>,
    metadata: Vec<(String, String)>,
}

impl<F> ServiceDescriptorBuilder<F> {
    /// The parts set so far, as plain values.
    pub closed spec fn parts(&self) -> DescriptorView {
        DescriptorView {
            id: self.id@,
            name: self.name@,
            description: self.description@,
            service_type: self.service_type@,
            lifetime: self.lifetime,
            dependencies: string_views(self.dependencies@),
            tags: string_views(self.tags@),
            metadata: self.metadata@,
        }
    }

    /// The factory, if one was given.
    pub closed spec fn spec_factory(&self) -> Option<F> {
        self.factory
    }

    /// Each metadata key is held once.
    pub closed spec fn wf(&self) -> bool {
        keys_unique(self.metadata@)
    }

    /// An empty builder: type `service`, transient, nothing else.
    pub fn new() -> (r: ServiceDescriptorBuilder<F>)
        ensures
            r.wf(),
            r.spec_factory() is None,
            r.parts() == (DescriptorView {
                id: Seq::empty(),
                name: Seq::empty(),
                description: Seq::empty(),
                service_type: "service"@,
                lifetime: Lifetime::Transient,
                dependencies: Seq::empty(),
                tags: Seq::empty(),
                metadata: Seq::empty(),
            }),
    {
        let r = ServiceDescriptorBuilder {
            id: String::new(),
            name: String::new(),
            description: String::new(),
            service_type: owned("service"),
            lifetime: Lifetime::Transient,
            factory: None,
            dependencies: Vec::new(),
            tags: Vec::new(),
            metadata: Vec::new(),
        };
        assert(string_views(r.dependencies@) =~= Seq::<Seq<char>>::empty());
        assert(string_views(r.tags@) =~= Seq::<Seq<char>>::empty());
        r
    }

    /// Sets the id.
    pub fn id(self, id: &str) -> (r: ServiceDescriptorBuilder<F>)
        ensures
            r.wf() == self.wf(),
            r.spec_factory() == self.spec_factory(),
            r.parts() == (DescriptorView { id: id@, ..self.parts() }),
    {
        ServiceDescriptorBuilder { id: owned(id), ..self }
    }

    /// Sets the name.
    pub fn name(self, name: &str) -> (r: ServiceDescriptorBuilder<F>)
        ensures
            r.wf() == self.wf(),
            r.spec_factory() == self.spec_factory(),
            r.parts() == (DescriptorView { name: name@, ..self.parts() }),
    {
        ServiceDescriptorBuilder { name: owned(name), ..self }
    }

    /// Sets the description.
    pub fn description(self, description: &str) -> (r: ServiceDescriptorBuilder<F>)
        ensures
            r.wf() == self.wf(),
            r.spec_factory() == self.spec_factory(),
            r.parts() == (DescriptorView { description: description@, ..self.parts() }),
    {
        ServiceDescriptorBuilder { description: owned(description), ..self }
    }

    /// Sets the type.
    pub fn service_type(self, service_type: &str) -> (r: ServiceDescriptorBuilder<F>)
        ensures
            r.wf() == self.wf(),
            r.spec_factory() == self.spec_factory(),
            r.parts() == (DescriptorView { service_type: service_type@, ..self.parts() }),
    {
        ServiceDescriptorBuilder { service_type: owned(service_type), ..self }
    }

    /// Sets the lifetime.
    pub fn lifetime(self, lifetime: Lifetime) -> (r: ServiceDescriptorBuilder<F>)
        ensures
            r.wf() == self.wf(),
            r.spec_factory() == self.spec_factory(),
            r.parts() == (DescriptorView { lifetime, ..self.parts() }),
    {
        ServiceDescriptorBuilder { lifetime, ..self }
    }

    /// Sets the factory.
    pub fn factory(self, factory: F) -> (r: ServiceDescriptorBuilder<F>)
        ensures
            r.wf() == self.wf(),
            r.spec_factory() == Some(factory),
            r.parts() == self.parts(),
    {
        ServiceDescriptorBuilder { factory: Some(factory), ..self }
    }

    /// Adds a dependency.
    pub fn dependency(self, dependency: &str) -> (r: ServiceDescriptorBuilder<F>)
        ensures
            r.wf() == self.wf(),
            r.spec_factory() == self.spec_factory(),
            r.parts() == (DescriptorView { dependencies: self.parts().dependencies.push(dependency@), ..self.parts() }),
    {
        let mut b = self;
        let ghost before = b.dependencies@;
        b.dependencies.push(owned(dependency));
        assert(string_views(b.dependencies@) =~= string_views(before).push(dependency@));
        b
    }

    /// Sets the dependencies.
    pub fn dependencies(self, dependencies: Vec<String>) -> (r: ServiceDescriptorBuilder<F>)
        ensures
            r.wf() == self.wf(),
            r.spec_factory() == self.spec_factory(),
            r.parts() == (DescriptorView { dependencies: string_views(dependencies@), ..self.parts() }),
    {
        ServiceDescriptorBuilder { dependencies, ..self }
    }

    /// Adds a tag.
    pub fn tag(self, tag: &str) -> (r: ServiceDescriptorBuilder<F>)
        ensures
            r.wf() == self.wf(),
            r.spec_factory() == self.spec_factory(),
            r.parts() == (DescriptorView { tags: self.parts().tags.push(tag@), ..self.parts() }),
    {
        let mut b = self;
        let ghost before = b.tags@;
        b.tags.push(owned(tag));
        assert(string_views(b.tags@) =~= string_views(before).push(tag@));
        b
    }

    /// Sets the tags.
    pub fn tags(self, tags: Vec<String>) -> (r: ServiceDescriptorBuilder<F>)
        ensures
            r.wf() == self.wf(),
            r.spec_factory() == self.spec_factory(),
            r.parts() == (DescriptorView { tags: string_views(tags@), ..self.parts() }),
    {
        ServiceDescriptorBuilder { tags, ..self }
    }

    /// Sets the metadata: JSON texts by key, each key once.
    pub fn metadata(self, metadata: Vec<(String, String)>) -> (r: ServiceDescriptorBuilder<F>)
        requires
            keys_unique(metadata@),
        ensures
            r.wf(),
            r.spec_factory() == self.spec_factory(),
            r.parts() == (DescriptorView { metadata: metadata@, ..self.parts() }),
    {
        ServiceDescriptorBuilder { metadata, ..self }
    }

    /// Sets one metadata entry: the JSON text `value` under `key`.
    pub fn metadata_entry(self, key: &str, value: String) -> (r: ServiceDescriptorBuilder<F>)
        requires
            self.wf(),
        ensures
            r.wf(),
            r.spec_factory() == self.spec_factory(),
            as_map(r.parts().metadata) == as_map(self.parts().metadata).insert(key@, value),
            r.parts() == (DescriptorView { metadata: r.parts().metadata, ..self.parts() }),
    {
        let mut b = self;
        insert_value(&mut b.metadata, owned(key), value);
        b
    }

    /// The descriptor. A factory is required; the tags come out sorted,
    /// each once.
    pub fn build(self) -> (r: Result<ServiceDescriptor<F>, AppError>)
        ensures
            match self.spec_factory() {
                None => r matches Err(AppError::DependencyInjection { message, service_id })
                    && message@ == "Service factory is required"@ && service_id@ == self.parts().id,
                Some(f) => r matches Ok(d) && d.spec_factory() == f
                    && d.dv() == (DescriptorView { tags: d.dv().tags, ..self.parts() })
                    && strictly_sorted(d.dv().tags)
                    && forall|t: Seq<char>| d.dv().tags.contains(t) <==> self.parts().tags.contains(t),
            },
    {
        match self.factory {
            None => Err(AppError::DependencyInjection { message: owned("Service factory is required"), service_id: self.id }),
            Some(factory) => {
                let tags = sort_dedup(self.tags);
                Ok(ServiceDescriptor::new(
                    self.id,
                    self.name,
                    self.description,
                    self.service_type,
                    self.lifetime,
                    factory,
                    self.dependencies,
                    tags,
                    self.metadata,
                ))
            },
        }
    }
}

impl<F> Default for ServiceDescriptorBuilder<F> {
    /// An empty builder, as `new` makes it.
    fn default() -> (r: ServiceDescriptorBuilder<F>)
        ensures
            r.wf(),
            r.spec_factory() is None,
            r.parts().service_type == "service"@,
            r.parts().lifetime == Lifetime::Transient,
    {
        Self::new()
    }
}

} // verus!
