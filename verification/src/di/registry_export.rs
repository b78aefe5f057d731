//! Statistics of a service registry, and its export to and import from a
//! plain configuration: per service its lifetime, dependencies and tags,
//! plus the aliases and the registry's metadata.

use vstd::prelude::*;
use crate::assoc::{as_map, get_value, insert_value, keys_unique};
use crate::di::lifetime::Lifetime;
use crate::di::service_descriptor::{ServiceDescriptor, ServiceDescriptorBuilder};
use crate::di::service_registry::{RegistryMetadata, ServiceRegistry};
use crate::error::types::AppError;
use crate::text::{copy_strings, owned, push_str, str_eq, string_views};

verus! {

/// A count of `k` in `m`, zero when absent.
pub open spec fn count_in(m: Map<Seq<char>, usize>, k: Seq<char>) -> usize {
    if m.contains_key(k) { m[k] } else { 0 }
}

/// One more, staying at the top of `usize`.
pub open spec fn inc(c: usize) -> usize {
    if c == usize::MAX { c } else { (c + 1) as usize }
}

/// Counts of the services by type, over the entries in order.
pub open spec fn type_counts_spec<F>(s: Seq<(String, ServiceDescriptor<F>)>) -> Map<Seq<char>, usize>
    decreases s.len(),
{
    if s.len() == 0 {
        Map::empty()
    } else {
        let m = type_counts_spec(s.drop_last());
        let t = s.last().1.dv().service_type;
        m.insert(t, inc(count_in(m, t)))
    }
}

/// Counts of the tags over a list of tags, starting from `m`.
pub open spec fn add_tags(m: Map<Seq<char>, usize>, tags: Seq<Seq<char>>) -> Map<Seq<char>, usize>
    decreases tags.len(),
{
    if tags.len() == 0 {
        m
    } else {
        let p = add_tags(m, tags.drop_last());
        p.insert(tags.last(), inc(count_in(p, tags.last())))
    }
}

/// Counts of the tags of the services, over the entries in order.
pub open spec fn tag_counts_spec<F>(s: Seq<(String, ServiceDescriptor<F>)>) -> Map<Seq<char>, usize>
    decreases s.len(),
{
    if s.len() == 0 {
        Map::empty()
    } else {
        add_tags(tag_counts_spec(s.drop_last()), s.last().1.dv().tags)
    }
}

/// Numbers of services and aliases, services by type and by tag, and the
/// registry's metadata.
#[derive(Debug, Clone)]
pub struct RegistryStats {
    pub total_services: usize,
    pub total_aliases: usize,
    pub type_counts: Vec<(String, usize)>,
    pub tag_counts: Vec<(String, usize)>,
    pub metadata: RegistryMetadata,
}

/// Adds one to the count of `key`, staying at the top of `usize`.
fn bump_count(v: &mut Vec<(String, usize)>, key: String)
    requires
        keys_unique(old(v)@),
    ensures
        keys_unique(final(v)@),
        as_map(final(v)@) == as_map(old(v)@).insert(key@, inc(count_in(as_map(old(v)@), key@))),
{
    let current: usize = match get_value(v, key.as_str()) {
        Some(c) => *c,
        None => 0,
    };
    let next = if current == usize::MAX { current } else { current + 1 };
    insert_value(v, key, next);
}

/// The descriptor's lifetime as `Debug` shows it.
pub open spec fn lifetime_name(l: Lifetime) -> Seq<char> {
    match l {
        Lifetime::Singleton => "Singleton"@,
        Lifetime::Scoped => "Scoped"@,
        Lifetime::Transient => "Transient"@,
    }
}

/// What an exported service holds: the kind of factory (always
/// `function`), the lifetime's name, the dependencies, the tags and
/// metadata (JSON texts by key; none is exported).
#[derive(Debug, Clone)]
pub struct ServiceConfig {
    pub factory_type: String,
    pub lifetime: String,
    pub dependencies: Vec<String>,
    pub tags: Vec<String>,
    pub metadata: Vec<(String, String)>,
}

impl ServiceConfig {
    /// The exported form of a descriptor.
    pub fn from_descriptor<F>(service_id: &str, descriptor: &ServiceDescriptor<F>) -> (r: ServiceConfig)
        ensures
            r.factory_type@ == "function"@,
            r.lifetime@ == lifetime_name(descriptor.dv().lifetime),
            string_views(r.dependencies@) == descriptor.dv().dependencies,
            string_views(r.tags@) == descriptor.dv().tags,
            r.metadata@.len() == 0,
    {
        let lifetime = match descriptor.lifetime() {
            Lifetime::Singleton => owned("Singleton"),
            Lifetime::Scoped => owned("Scoped"),
            Lifetime::Transient => owned("Transient"),
        };
        ServiceConfig {
            factory_type: owned("function"),
            lifetime,
            dependencies: copy_strings(descriptor.dependencies()),
            tags: copy_strings(descriptor.tags()),
            metadata: Vec::new(),
        }
    }

    /// A descriptor of the exported service, made with `factory` (a
    /// factory cannot be exported): its lifetime read from the name,
    /// dependencies and tags as exported (the tags sorted, each once), the
    /// rest as a new builder has it; an error for an unknown lifetime name.
    pub fn to_descriptor<F>(&self, service_id: &str, factory: F) -> (r: Result<ServiceDescriptor<F>, AppError>)
        ensures
            ({
                let name = self.lifetime@;
                if name == "Singleton"@ || name == "Scoped"@ || name == "Transient"@ {
                    r matches Ok(d)
                        && lifetime_name(d.dv().lifetime) == name
                        && d.dv().dependencies == string_views(self.dependencies@)
                        && (forall|t: Seq<char>| d.dv().tags.contains(t) <==> string_views(self.tags@).contains(t))
                        && d.spec_factory() == factory
                } else {
                    r matches Err(AppError::DependencyInjection { message, service_id: sid })
                        && message@ == "Invalid lifetime: "@ + name && sid@ == service_id@
                }
            }),
    {
        proof {
            reveal_strlit("Singleton");
            reveal_strlit("Scoped");
            reveal_strlit("Transient");
        }
        let lifetime = if str_eq(self.lifetime.as_str(), "Singleton") {
            Lifetime::Singleton
        } else if str_eq(self.lifetime.as_str(), "Scoped") {
            Lifetime::Scoped
        } else if str_eq(self.lifetime.as_str(), "Transient") {
            Lifetime::Transient
        } else {
            let mut message = owned("Invalid lifetime: ");
            push_str(&mut message, self.lifetime.as_str());
            return Err(AppError::DependencyInjection { message, service_id: owned(service_id) });
        };
        let built = ServiceDescriptorBuilder::new()
            .lifetime(lifetime)
            .dependencies(copy_strings(&self.dependencies))
            .tags(copy_strings(&self.tags))
            .factory(factory)
            .build();
        built
    }
}

/// A registry's exported configuration: services and aliases by id, the
/// metadata, and when it was exported (milliseconds since the Unix epoch).
#[derive(Debug, Clone)]
pub struct RegistryConfig {
    pub services: Vec<(String, ServiceConfig)>,
    pub aliases: Vec<(String, String)>,
    pub metadata: RegistryMetadata,
    pub exported_at: i64,
}

/// A registry's configuration kept at an instant.
#[derive(Debug, Clone)]
pub struct RegistryBackup {
    pub config: RegistryConfig,
    pub created_at: i64,
}

impl<F> ServiceRegistry<F> {
    /// The numbers of services and aliases, the services by type and by
    /// tag, and the metadata.
    pub fn get_stats(&self) -> (r: RegistryStats)
        requires
            self.wf(),
        ensures
            r.total_services == self.entries().len(),
            r.total_aliases == self.alias_entries().len(),
            keys_unique(r.type_counts@),
            keys_unique(r.tag_counts@),
            as_map(r.type_counts@) == type_counts_spec(self.entries()),
            as_map(r.tag_counts@) == tag_counts_spec(self.entries()),
            r.metadata == self.meta(),
    {
        let services = self.service_entries();
        let mut type_counts: Vec<(String, usize)> = Vec::new();
        let mut tag_counts: Vec<(String, usize)> = Vec::new();
        let mut i: usize = 0;
        proof {
            assert(services@.subrange(0, 0) =~= Seq::<(String, ServiceDescriptor<F>)>::empty());
            assert(as_map(type_counts@) =~= Map::<Seq<char>, usize>::empty());
            assert(as_map(tag_counts@) =~= Map::<Seq<char>, usize>::empty());
        }
        while i < services.len()
            invariant
                i <= services@.len(),
                keys_unique(type_counts@),
                keys_unique(tag_counts@),
                as_map(type_counts@) == type_counts_spec(services@.subrange(0, i as int)),
                as_map(tag_counts@) == tag_counts_spec(services@.subrange(0, i as int)),
            decreases services@.len() - i,
        {
            let ghost sub = services@.subrange(0, i + 1);
            proof {
                assert(sub.drop_last() =~= services@.subrange(0, i as int));
                assert(sub.last() == services@[i as int]);
            }
            let d = &services[i].1;
            bump_count(&mut type_counts, owned(d.service_type()));
            let tags = d.tags();
            let mut j: usize = 0;
            let ghost base = as_map(tag_counts@);
            proof {
                assert(string_views(tags@).subrange(0, 0) =~= Seq::<Seq<char>>::empty());
            }
            while j < tags.len()
                invariant
                    j <= tags@.len(),
                    keys_unique(tag_counts@),
                    as_map(tag_counts@) == add_tags(base, string_views(tags@).subrange(0, j as int)),
                decreases tags@.len() - j,
            {
                proof {
                    let s2 = string_views(tags@).subrange(0, j + 1);
                    assert(s2.drop_last() =~= string_views(tags@).subrange(0, j as int));
                    assert(s2.last() == tags@[j as int]@);
                }
                bump_count(&mut tag_counts, tags[j].clone());
                j = j + 1;
            }
            proof {
                assert(string_views(tags@).subrange(0, j as int) =~= string_views(tags@));
            }
            i = i + 1;
        }
        assert(services@.subrange(0, i as int) =~= services@);
        let meta = self.meta_ref();
        RegistryStats {
            total_services: services.len(),
            total_aliases: self.alias_list().len(),
            type_counts,
            tag_counts,
            metadata: RegistryMetadata { total_services: meta.total_services, last_updated_ms: meta.last_updated_ms },
        }
    }
}

/// The lifetime name is one of the three.
pub open spec fn known_lifetime(name: Seq<char>) -> bool {
    name == "Singleton"@ || name == "Scoped"@ || name == "Transient"@
}

/// A configuration imports without error: each service id is non-empty
/// with a known lifetime, and each alias names an exported service.
pub open spec fn importable(config: RegistryConfig) -> bool {
    &&& forall|i: int| 0 <= i < config.services@.len() ==> (#[trigger] config.services@[i]).0@.len() > 0
        && known_lifetime(config.services@[i].1.lifetime@)
    &&& forall|i: int| 0 <= i < config.aliases@.len() ==>
        as_map(config.services@).contains_key((#[trigger] config.aliases@[i]).1@)
}

/// The descriptor `d` is what `c` imports as.
pub open spec fn imported_as<F>(c: ServiceConfig, d: ServiceDescriptor<F>) -> bool {
    &&& lifetime_name(d.dv().lifetime) == c.lifetime@
    &&& d.dv().dependencies == string_views(c.dependencies@)
    &&& forall|t: Seq<char>| d.dv().tags.contains(t) <==> string_views(c.tags@).contains(t)
}

/// A copy of the metadata.
fn copy_meta(m: &RegistryMetadata) -> (r: RegistryMetadata)
    ensures
        r == *m,
{
    RegistryMetadata { total_services: m.total_services, last_updated_ms: m.last_updated_ms }
}

/// A copy of key/value text pairs.
fn copy_text_pairs(v: &Vec<(String, String)>) -> (r: Vec<(String, String)>)
    ensures
        r@.len() == v@.len(),
        forall|i: int| 0 <= i < v@.len() ==> (#[trigger] r@[i]).0@ == v@[i].0@ && r@[i].1@ == v@[i].1@,
{
    let mut out: Vec<(String, String)> = Vec::new();
    let mut i: usize = 0;
    while i < v.len()
        invariant
            i <= v@.len(),
            out@.len() == i,
            forall|j: int| 0 <= j < i ==> (#[trigger] out@[j]).0@ == v@[j].0@ && out@[j].1@ == v@[j].1@,
        decreases v@.len() - i,
    {
        out.push((v[i].0.clone(), v[i].1.clone()));
        i = i + 1;
    }
    out
}

impl<F> ServiceRegistry<F> {
    /// The registry's configuration at `now`: each service's exported
    /// form under its id, in order of registration, the aliases and the
    /// metadata.
    pub fn export_config(&self, now: i64) -> (r: RegistryConfig)
        requires
            self.wf(),
        ensures
            r.services@.len() == self.entries().len(),
            forall|i: int| 0 <= i < r.services@.len() ==> (#[trigger] r.services@[i]).0@ == self.entries()[i].0@
                && r.services@[i].1.factory_type@ == "function"@
                && r.services@[i].1.lifetime@ == lifetime_name(self.entries()[i].1.dv().lifetime)
                && string_views(r.services@[i].1.dependencies@) == self.entries()[i].1.dv().dependencies
                && string_views(r.services@[i].1.tags@) == self.entries()[i].1.dv().tags
                && r.services@[i].1.metadata@.len() == 0,
            r.aliases@.len() == self.alias_entries().len(),
            forall|i: int| 0 <= i < r.aliases@.len() ==> (#[trigger] r.aliases@[i]).0@ == self.alias_entries()[i].0@
                && r.aliases@[i].1@ == self.alias_entries()[i].1@,
            r.metadata == self.meta(),
            r.exported_at == now,
    {
        let services = self.service_entries();
        let mut out: Vec<(String, ServiceConfig)> = Vec::new();
        let mut i: usize = 0;
        while i < services.len()
            invariant
                i <= services@.len(),
                services@ == self.entries(),
                out@.len() == i,
                forall|j: int| 0 <= j < i ==> (#[trigger] out@[j]).0@ == services@[j].0@
                    && out@[j].1.factory_type@ == "function"@
                    && out@[j].1.lifetime@ == lifetime_name(services@[j].1.dv().lifetime)
                    && string_views(out@[j].1.dependencies@) == services@[j].1.dv().dependencies
                    && string_views(out@[j].1.tags@) == services@[j].1.dv().tags
                    && out@[j].1.metadata@.len() == 0,
            decreases services@.len() - i,
        {
            let c = ServiceConfig::from_descriptor(services[i].0.as_str(), &services[i].1);
            out.push((services[i].0.clone(), c));
            i = i + 1;
        }
        RegistryConfig {
            services: out,
            aliases: copy_text_pairs(self.alias_list()),
            metadata: copy_meta(self.meta_ref()),
            exported_at: now,
        }
    }

    /// The registry's configuration kept at `now`.
    pub fn backup(&self, now: i64) -> (r: RegistryBackup)
        requires
            self.wf(),
        ensures
            r.created_at == now,
            r.config.exported_at == now,
            r.config.services@.len() == self.entries().len(),
            forall|i: int| 0 <= i < r.config.services@.len() ==> (#[trigger] r.config.services@[i]).0@ == self.entries()[i].0@
                && r.config.services@[i].1.lifetime@ == lifetime_name(self.entries()[i].1.dv().lifetime)
                && string_views(r.config.services@[i].1.dependencies@) == self.entries()[i].1.dv().dependencies
                && string_views(r.config.services@[i].1.tags@) == self.entries()[i].1.dv().tags,
            r.config.aliases@.len() == self.alias_entries().len(),
            forall|i: int| 0 <= i < r.config.aliases@.len() ==> (#[trigger] r.config.aliases@[i]).0@ == self.alias_entries()[i].0@
                && r.config.aliases@[i].1@ == self.alias_entries()[i].1@,
            r.config.metadata == self.meta(),
    {
        RegistryBackup { config: self.export_config(now), created_at: now }
    }
}

impl<F: Clone> ServiceRegistry<F> {
    /// Replaces the registry's contents with a configuration: every
    /// service (made with a copy of `factory`, a factory being beyond
    /// export), then every alias, then the metadata. The first service or
    /// alias that cannot be imported stops the import with its error.
    pub fn import_config(&mut self, config: RegistryConfig, factory: F) -> (r: Result<(), AppError>)
        requires
            old(self).wf(),
            keys_unique(config.services@),
            keys_unique(config.aliases@),
        ensures
            final(self).wf(),
            r is Ok <==> importable(config),
            r is Err ==> r matches Err(AppError::DependencyInjection { .. }),
            r is Ok ==> final(self).services().dom() == as_map(config.services@).dom(),
            r is Ok ==> forall|k: Seq<char>| #[trigger] final(self).services().contains_key(k) ==>
                imported_as(as_map(config.services@)[k], final(self).services()[k]),
            r is Ok ==> final(self).aliases().dom() == as_map(config.aliases@).dom(),
            r is Ok ==> forall|a: Seq<char>| #[trigger] final(self).aliases().contains_key(a) ==>
                final(self).aliases()[a]@ == as_map(config.aliases@)[a]@,
            r is Ok ==> final(self).meta() == config.metadata,
    {
        let _ = self.clear();
        let ghost cs = config.services@;
        let mut i: usize = 0;
        proof {
            assert(self.services().dom() =~= Set::<Seq<char>>::empty());
        }
        while i < config.services.len()
            invariant
                i <= cs.len(),
                cs == config.services@,
                keys_unique(cs),
                self.wf(),
                self.aliases() == Map::<Seq<char>, String>::empty(),
                forall|j: int| 0 <= j < i ==> (#[trigger] cs[j]).0@.len() > 0 && known_lifetime(cs[j].1.lifetime@),
                forall|k: Seq<char>| #[trigger] self.services().contains_key(k) <==> exists|j: int| 0 <= j < i && cs[j].0@ == k,
                forall|j: int| 0 <= j < i ==> imported_as(#[trigger] cs[j].1, self.services()[cs[j].0@]),
            decreases cs.len() - i,
        {
            let made = config.services[i].1.to_descriptor(config.services[i].0.as_str(), factory.clone());
            proof {
                if made is Ok {
                    assert(known_lifetime(cs[i as int].1.lifetime@));
                    assert(lifetime_name(made->Ok_0.dv().lifetime) == cs[i as int].1.lifetime@);
                    assert(made->Ok_0.dv().dependencies == string_views(cs[i as int].1.dependencies@));
                    assert(imported_as(cs[i as int].1, made->Ok_0));
                }
            }
            let d = match made {
                Ok(d) => d,
                Err(e) => {
                    proof {
                        assert(!known_lifetime(cs[i as int].1.lifetime@));
                        assert(!importable(config));
                    }
                    return Err(e);
                },
            };
            let ghost dv = d;
            proof {
                assert(imported_as(cs[i as int].1, dv));
                assert forall|j: int| 0 <= j < i implies cs[j].0@ != cs[i as int].0@ by {}
                assert(!self.services().contains_key(cs[i as int].0@)) by {
                    if self.services().contains_key(cs[i as int].0@) {
                        let j = choose|j: int| 0 <= j < i && cs[j].0@ == cs[i as int].0@;
                    }
                }
            }
            let ghost before = self.services();
            match self.register(config.services[i].0.as_str(), d) {
                Ok(()) => {},
                Err(e) => {
                    proof {
                        assert(cs[i as int].0@.len() == 0);
                        assert(!importable(config));
                    }
                    return Err(e);
                },
            }
            proof {
                assert forall|k: Seq<char>| #[trigger] self.services().contains_key(k) <==> exists|j: int| 0 <= j < i + 1 && cs[j].0@ == k by {
                    if k == cs[i as int].0@ {
                        assert(0 <= i < i + 1 && cs[i as int].0@ == k);
                    } else if before.contains_key(k) {
                        let j = choose|j: int| 0 <= j < i && cs[j].0@ == k;
                        assert(0 <= j < i + 1);
                    }
                }
                assert(self.services()[cs[i as int].0@] == dv);
                assert forall|j: int| 0 <= j < i + 1 implies imported_as(#[trigger] cs[j].1, self.services()[cs[j].0@]) by {
                    if j < i {
                        assert(cs[j].0@ != cs[i as int].0@);
                    } else {
                        assert(j == i);
                    }
                }
            }
            i = i + 1;
        }
        let ghost al = config.aliases@;
        let mut a: usize = 0;
        proof {
            assert(self.aliases().dom() =~= Set::<Seq<char>>::empty());
            assert forall|k: Seq<char>| self.services().contains_key(k) <==> as_map(cs).contains_key(k) by {
                if self.services().contains_key(k) {
                    let j = choose|j: int| 0 <= j < i && cs[j].0@ == k;
                    crate::assoc::lemma_index_of_key(cs, j);
                }
                if as_map(cs).contains_key(k) {
                    let j = crate::assoc::index_of_key(cs, k);
                    crate::assoc::lemma_index_of_key(cs, j);
                    assert(cs[j].0@ == k);
                }
            }
        }
        while a < config.aliases.len()
            invariant
                a <= al.len(),
                al == config.aliases@,
                cs == config.services@,
                keys_unique(al),
                keys_unique(cs),
                self.wf(),
                forall|k: Seq<char>| self.services().contains_key(k) <==> as_map(cs).contains_key(k),
                forall|k: Seq<char>| #[trigger] self.services().contains_key(k) ==> imported_as(as_map(cs)[k], self.services()[k]),
                forall|j: int| 0 <= j < a ==> as_map(cs).contains_key((#[trigger] al[j]).1@),
                forall|k: Seq<char>| #[trigger] self.aliases().contains_key(k) <==> exists|j: int| 0 <= j < a && al[j].0@ == k,
                forall|j: int| 0 <= j < a ==> (#[trigger] self.aliases()[al[j].0@])@ == al[j].1@,
            decreases al.len() - a,
        {
            proof {
                assert(!self.aliases().contains_key(al[a as int].0@)) by {
                    if self.aliases().contains_key(al[a as int].0@) {
                        let j = choose|j: int| 0 <= j < a && al[j].0@ == al[a as int].0@;
                    }
                }
            }
            let ghost before = self.aliases();
            match self.register_alias(config.aliases[a].0.as_str(), config.aliases[a].1.as_str()) {
                Ok(()) => {},
                Err(e) => {
                    proof {
                        assert(!as_map(cs).contains_key(al[a as int].1@));
                        assert(!importable(config));
                    }
                    return Err(e);
                },
            }
            proof {
                assert forall|k: Seq<char>| #[trigger] self.aliases().contains_key(k) <==> exists|j: int| 0 <= j < a + 1 && al[j].0@ == k by {
                    if k == al[a as int].0@ {
                        assert(0 <= a < a + 1 && al[a as int].0@ == k);
                    } else if before.contains_key(k) {
                        let j = choose|j: int| 0 <= j < a && al[j].0@ == k;
                        assert(0 <= j < a + 1);
                    }
                }
                assert forall|j: int| 0 <= j < a + 1 implies (#[trigger] self.aliases()[al[j].0@])@ == al[j].1@ by {
                    if j < a {
                        assert(al[j].0@ != al[a as int].0@);
                        assert(before.contains_key(al[j].0@));
                    }
                }
            }
            a = a + 1;
        }
        self.set_meta(config.metadata);
        proof {
            assert(self.services().dom() =~= as_map(cs).dom());
            assert forall|k: Seq<char>| #[trigger] self.aliases().contains_key(k) == as_map(al).contains_key(k) by {
                if self.aliases().contains_key(k) {
                    let j = choose|j: int| 0 <= j < a && al[j].0@ == k;
                    crate::assoc::lemma_index_of_key(al, j);
                }
                if as_map(al).contains_key(k) {
                    let j = crate::assoc::index_of_key(al, k);
                    crate::assoc::lemma_index_of_key(al, j);
                    assert(al[j].0@ == k);
                }
            }
            assert(self.aliases().dom() =~= as_map(al).dom());
            assert forall|k: Seq<char>| #[trigger] self.aliases().contains_key(k) implies self.aliases()[k]@ == as_map(al)[k]@ by {
                let j = crate::assoc::index_of_key(al, k);
                crate::assoc::lemma_index_of_key(al, j);
                assert(al[j].0@ == k);
            }
            assert(importable(config)) by {
                assert forall|x: int| 0 <= x < cs.len() implies (#[trigger] cs[x]).0@.len() > 0 && known_lifetime(cs[x].1.lifetime@) by {}
                assert forall|x: int| 0 <= x < al.len() implies as_map(cs).contains_key((#[trigger] al[x]).1@) by {}
            }
        }
        Ok(())
    }

    /// Restores a backup: imports its configuration.
    pub fn restore(&mut self, backup: RegistryBackup, factory: F) -> (r: Result<(), AppError>)
        requires
            old(self).wf(),
            keys_unique(backup.config.services@),
            keys_unique(backup.config.aliases@),
        ensures
            final(self).wf(),
            r is Ok <==> importable(backup.config),
            r is Ok ==> final(self).services().dom() == as_map(backup.config.services@).dom(),
            r is Ok ==> final(self).aliases().dom() == as_map(backup.config.aliases@).dom(),
            r is Ok ==> final(self).meta() == backup.config.metadata,
    {
        self.import_config(backup.config, factory)
    }
}

} // verus!

