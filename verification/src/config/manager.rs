//! The configuration manager's decisions and state: which provider serves
//! or stores a key, the cache of resolved values, validation before a
//! write, the change history and the statistics. The providers themselves
//! (and the watchers' callbacks) are run by the caller, which reports what
//! they answered. Instants are milliseconds since the Unix epoch.

use vstd::prelude::*;
use crate::text::copy_strings;
use crate::assoc::{as_map, get_value, has_key, in_list, distinct_strings, insert_value, keys_unique, list_contains, remove_value, index_of_key, lemma_index_of_key, key_seq};
use crate::config::data::{ConfigChangeEvent, ConfigData, ConfigMetadata, SourceInfo};
use crate::config::traits::{ChangeType, ManagerMetadata};
use crate::config::validator::{DefaultConfigValidator, ValidationSummary, ValidationResult, error_remarks};
use crate::config::value::{ConfigValue, clone_value, objects_wf, same_value};
use crate::error::types::AppError;
use crate::text::{contains, contains_spec, join, join_spec, owned, push_str, string_views};

verus! {

/// Identifies a watcher.
pub type WatcherId = u64;

/// Counters of the configuration manager.
#[derive(Debug)]
pub struct ConfigStats {
    pub total_keys: u64,
    pub keys_by_source: Vec<(String, u64)>,
    pub keys_by_type: Vec<(String, u64)>,
    pub sensitive_keys: u64,
    pub encrypted_keys: u64,
    pub last_reload: Option<i64>,
    pub reload_count: u64,
    pub change_count: u64,
    pub watcher_count: u64,
    pub cache_hits: u64,
    pub cache_misses: u64,
}

impl ConfigStats {
    /// All counters at zero.
    pub fn new() -> (r: ConfigStats)
        ensures
            r.total_keys == 0 && r.keys_by_source@.len() == 0 && r.keys_by_type@.len() == 0,
            r.sensitive_keys == 0 && r.encrypted_keys == 0 && r.last_reload is None,
            r.reload_count == 0 && r.change_count == 0 && r.watcher_count == 0,
            r.cache_hits == 0 && r.cache_misses == 0,
    {
        ConfigStats {
            total_keys: 0,
            keys_by_source: Vec::new(),
            keys_by_type: Vec::new(),
            sensitive_keys: 0,
            encrypted_keys: 0,
            last_reload: None,
            reload_count: 0,
            change_count: 0,
            watcher_count: 0,
            cache_hits: 0,
            cache_misses: 0,
        }
    }
}

/// A recorded change with the metadata of the key at that time.
#[derive(Debug)]
pub struct ConfigChange {
    pub event: ConfigChangeEvent,
    pub metadata: ConfigMetadata,
}

/// What the manager knows of a provider.
#[derive(Debug)]
pub struct ProviderInfo {
    pub read_only: bool,
}

/// The most changes the history keeps.
pub const MAX_CHANGE_HISTORY: usize = 1000;

/// The central configuration manager.
pub struct ConfigManagerImpl {
    providers: Vec<(String, ProviderInfo)>,
    provider_priority: Vec<String>,
    cache: Vec<(String, ConfigValue)>,
    metadata: Vec<(String, ConfigMetadata)>,
    watchers: Vec<WatcherId>,
    next_watcher_id: WatcherId,
    manager_metadata: ManagerMetadata,
    stats: ConfigStats,
    change_history: Vec<ConfigChange>,
    validator: Option<DefaultConfigValidator>,
}

/// Adds one to a counter, wrapping around at the top.
pub open spec fn bump(x: u64) -> u64 {
    if x == u64::MAX { 0 } else { (x + 1) as u64 }
}

/// Adds one to a counter, wrapping around at the top.
pub(crate) fn bumped(x: u64) -> (r: u64)
    ensures
        r == bump(x),
{
    if x == u64::MAX { 0 } else { x + 1 }
}

impl ConfigManagerImpl {
    /// The providers by name.
    pub closed spec fn provider_map(&self) -> Map<Seq<char>, ProviderInfo> {
        as_map(self.providers@)
    }

    /// The provider names in the order they are asked.
    pub closed spec fn priority(&self) -> Seq<Seq<char>> {
        string_views(self.provider_priority@)
    }

    /// The resolved values by key.
    pub closed spec fn cache_map(&self) -> Map<Seq<char>, ConfigValue> {
        as_map(self.cache@)
    }

    /// The resolved values, in the order they were cached.
    pub closed spec fn cache_entries(&self) -> Seq<(String, ConfigValue)> {
        self.cache@
    }

    /// The metadata by key.
    pub closed spec fn metadata_map(&self) -> Map<Seq<char>, ConfigMetadata> {
        as_map(self.metadata@)
    }

    /// The registered watchers.
    pub closed spec fn watcher_ids(&self) -> Seq<WatcherId> {
        self.watchers@
    }

    /// The id the next watcher gets.
    pub closed spec fn next_id(&self) -> WatcherId {
        self.next_watcher_id
    }

    /// The recorded changes, oldest first.
    pub closed spec fn history(&self) -> Seq<ConfigChange> {
        self.change_history@
    }

    /// The counters.
    pub closed spec fn spec_stats(&self) -> ConfigStats {
        self.stats
    }

    /// The description of the manager.
    pub closed spec fn spec_manager_metadata(&self) -> ManagerMetadata {
        self.manager_metadata
    }

    /// The validator, if any.
    pub closed spec fn spec_validator(&self) -> Option<DefaultConfigValidator> {
        self.validator
    }

    /// Names, cache and metadata hold each key once; the priority list
    /// names the providers; the history keeps at most a thousand changes;
    /// every cached object holds each key once.
    pub closed spec fn wf(&self) -> bool {
        &&& keys_unique(self.providers@)
        &&& keys_unique(self.cache@)
        &&& keys_unique(self.metadata@)
        &&& distinct_strings(self.provider_priority@)
        &&& forall|k: Seq<char>| has_key(self.providers@, k) <==> in_list(self.provider_priority@, k)
        &&& self.change_history@.len() <= MAX_CHANGE_HISTORY
        &&& keys_unique(self.stats.keys_by_source@)
        &&& keys_unique(self.stats.keys_by_type@)
        &&& forall|i: int| 0 <= i < self.cache@.len() ==> objects_wf(#[trigger] self.cache@[i].1)
        &&& match self.validator {
            Some(v) => v.wf(),
            None => true,
        }
    }

    /// A manager with no provider, watcher or validator.
    pub fn new(name: &str) -> (r: ConfigManagerImpl)
        ensures
            r.wf(),
            r.provider_map() == Map::<Seq<char>, ProviderInfo>::empty(),
            r.priority().len() == 0,
            r.cache_map() == Map::<Seq<char>, ConfigValue>::empty(),
            r.watcher_ids().len() == 0,
            r.next_id() == 1,
            r.history().len() == 0,
            r.spec_validator() is None,
            r.spec_manager_metadata().name@ == name@,
            r.spec_manager_metadata().version@ == "1.0.0"@,
            r.spec_manager_metadata().description@ == "Central configuration manager"@,
            r.spec_manager_metadata().providers@.len() == 0,
            string_views(r.spec_manager_metadata().capabilities@) == seq![
                "multi_source"@, "caching"@, "validation"@, "watching"@, "hot_reload"@, "history"@,
            ],
    {
        let mut capabilities: Vec<String> = Vec::new();
        capabilities.push(owned("multi_source"));
        capabilities.push(owned("caching"));
        capabilities.push(owned("validation"));
        capabilities.push(owned("watching"));
        capabilities.push(owned("hot_reload"));
        capabilities.push(owned("history"));
        assert(string_views(capabilities@) =~= seq![
            "multi_source"@, "caching"@, "validation"@, "watching"@, "hot_reload"@, "history"@,
        ]);
        let r = ConfigManagerImpl {
            providers: Vec::new(),
            provider_priority: Vec::new(),
            cache: Vec::new(),
            metadata: Vec::new(),
            watchers: Vec::new(),
            next_watcher_id: 1,
            manager_metadata: ManagerMetadata {
                name: owned(name),
                version: owned("1.0.0"),
                description: owned("Central configuration manager"),
                providers: Vec::new(),
                capabilities,
            },
            stats: ConfigStats::new(),
            change_history: Vec::new(),
            validator: None,
        };
        assert(as_map(r.providers@) =~= Map::<Seq<char>, ProviderInfo>::empty());
        assert(as_map(r.cache@) =~= Map::<Seq<char>, ConfigValue>::empty());
        r
    }
}

impl ConfigManagerImpl {
    /// Adds a provider after the others. A name already in use is refused
    /// with `Provider '<name>' already exists` on the field `provider_name`.
    /// The priority does not change the order. The cache is emptied.
    pub fn add_provider(&mut self, name: String, read_only: bool, priority: i32) -> (r: Result<(), AppError>)
        requires
            old(self).wf(),
        ensures
            final(self).wf(),
            old(self).provider_map().contains_key(name@) ==> (r matches Err(AppError::Config { message, field })
                && message@ == "Provider '"@ + name@ + "' already exists"@ && field@ == "provider_name"@
                && final(self).provider_map() == old(self).provider_map()
                && final(self).priority() == old(self).priority()
                && final(self).cache_map() == old(self).cache_map()),
            !old(self).provider_map().contains_key(name@) ==> (r is Ok
                && final(self).provider_map() == old(self).provider_map().insert(name@, ProviderInfo { read_only })
                && final(self).priority() == old(self).priority().push(name@)
                && string_views(final(self).spec_manager_metadata().providers@)
                    == string_views(old(self).spec_manager_metadata().providers@).push(name@)
                && final(self).cache_map() == Map::<Seq<char>, ConfigValue>::empty()),
            final(self).watcher_ids() == old(self).watcher_ids(),
            final(self).history() == old(self).history(),
            final(self).spec_validator() == old(self).spec_validator(),
    {
        if get_value(&self.providers, name.as_str()).is_some() {
            let mut message = owned("Provider '");
            push_str(&mut message, name.as_str());
            push_str(&mut message, "' already exists");
            return Err(AppError::Config { message, field: owned("provider_name") });
        }
        proof {
            assert(!in_list(self.provider_priority@, name@));
        }
        let ghost old_priority = self.provider_priority@;
        let ghost old_listed = self.manager_metadata.providers@;
        insert_value(&mut self.providers, name.clone(), ProviderInfo { read_only });
        self.provider_priority.push(name.clone());
        self.manager_metadata.providers.push(name);
        self.cache = Vec::new();
        proof {
            assert(string_views(self.provider_priority@) =~= string_views(old_priority).push(name@));
            assert(string_views(self.manager_metadata.providers@) =~= string_views(old_listed).push(name@));
            assert(as_map(self.cache@) =~= Map::<Seq<char>, ConfigValue>::empty());
            assert forall|a: int, b: int| 0 <= a < self.provider_priority@.len() && 0 <= b < self.provider_priority@.len()
                && a != b implies self.provider_priority@[a]@ != self.provider_priority@[b]@ by {
                if a == old_priority.len() || b == old_priority.len() {
                    let o = if a == old_priority.len() { b } else { a };
                    assert(old_priority[o]@ != name@);
                }
            }
            assert forall|k: Seq<char>| has_key(self.providers@, k) <==> in_list(self.provider_priority@, k) by {
                crate::assoc::lemma_in_list_push(old_priority, self.provider_priority@.last(), k);
                assert(old_priority.push(self.provider_priority@.last()) =~= self.provider_priority@);
                assert(as_map(self.providers@).contains_key(k) == has_key(self.providers@, k));
            }
        }
        Ok(())
    }

    /// Removes a provider; false when there is none of that name. The cache
    /// is emptied when one is removed.
    pub fn remove_provider(&mut self, name: &str) -> (removed: bool)
        requires
            old(self).wf(),
        ensures
            final(self).wf(),
            removed == old(self).provider_map().contains_key(name@),
            removed ==> final(self).provider_map() == old(self).provider_map().remove(name@)
                && final(self).priority() == crate::assoc::without(old(self).priority(), name@)
                && final(self).cache_map() == Map::<Seq<char>, ConfigValue>::empty(),
            !removed ==> final(self).provider_map() == old(self).provider_map()
                && final(self).priority() == old(self).priority()
                && final(self).cache_map() == old(self).cache_map(),
            final(self).watcher_ids() == old(self).watcher_ids(),
            final(self).history() == old(self).history(),
            final(self).spec_validator() == old(self).spec_validator(),
    {
        let removed = remove_value(&mut self.providers, name).is_some();
        if removed {
            let ghost old_priority = self.provider_priority@;
            crate::assoc::list_remove_all(&mut self.provider_priority, name);
            crate::assoc::list_remove_all(&mut self.manager_metadata.providers, name);
            self.cache = Vec::new();
            proof {
                assert(as_map(self.cache@) =~= Map::<Seq<char>, ConfigValue>::empty());
                assert(string_views(self.provider_priority@) == crate::assoc::v_views(self.provider_priority@));
                assert(string_views(old_priority) == crate::assoc::v_views(old_priority));
                assert forall|k: Seq<char>| has_key(self.providers@, k) <==> in_list(self.provider_priority@, k) by {
                    assert(as_map(self.providers@).contains_key(k) == has_key(self.providers@, k));
                    assert(as_map(old(self).providers@).contains_key(k) == has_key(old(self).providers@, k));
                }
            }
        }
        removed
    }

    /// Uses a validator before every write.
    pub fn set_validator(&mut self, validator: DefaultConfigValidator)
        requires
            old(self).wf(),
            validator.wf(),
        ensures
            final(self).wf(),
            final(self).spec_validator() == Some(validator),
            final(self).provider_map() == old(self).provider_map(),
            final(self).priority() == old(self).priority(),
            final(self).cache_map() == old(self).cache_map(),
    {
        self.validator = Some(validator);
    }

    /// The resolved value of a key, if cached.
    pub fn cached_value(&self, key: &str) -> (r: Option<&ConfigValue>)
        requires
            self.wf(),
        ensures
            match r {
                Some(v) => self.cache_map().contains_key(key@) && *v == self.cache_map()[key@],
                None => !self.cache_map().contains_key(key@),
            },
    {
        get_value(&self.cache, key)
    }

    /// The provider names in the order they are asked.
    pub fn provider_order(&self) -> (r: Vec<String>)
        ensures
            string_views(r@) == self.priority(),
    {
        let mut out: Vec<String> = Vec::new();
        let mut i: usize = 0;
        while i < self.provider_priority.len()
            invariant
                i <= self.provider_priority@.len(),
                string_views(out@) == string_views(self.provider_priority@.subrange(0, i as int)),
            decreases self.provider_priority@.len() - i,
        {
            let ghost before = out@;
            out.push(self.provider_priority[i].clone());
            assert(string_views(out@) =~= string_views(before).push(self.provider_priority@[i as int]@));
            assert(string_views(self.provider_priority@.subrange(0, i + 1)) =~= string_views(
                self.provider_priority@.subrange(0, i as int),
            ).push(self.provider_priority@[i as int]@));
            i = i + 1;
        }
        assert(self.provider_priority@.subrange(0, i as int) =~= self.provider_priority@);
        out
    }

    /// The names of the writable providers, in the order they are asked.
    pub fn writable_providers(&self) -> (r: Vec<String>)
        requires
            self.wf(),
        ensures
            string_views(r@) == writable_in(self.priority(), self.provider_map()),
    {
        let mut out: Vec<String> = Vec::new();
        let mut i: usize = 0;
        while i < self.provider_priority.len()
            invariant
                i <= self.provider_priority@.len(),
                self.wf(),
                string_views(out@) == writable_in(string_views(self.provider_priority@).subrange(0, i as int), self.provider_map()),
            decreases self.provider_priority@.len() - i,
        {
            let ghost pv = string_views(self.provider_priority@);
            assert(pv.subrange(0, i + 1).drop_last() =~= pv.subrange(0, i as int));
            let ghost before = out@;
            match get_value(&self.providers, self.provider_priority[i].as_str()) {
                Some(info) => {
                    if !info.read_only {
                        out.push(self.provider_priority[i].clone());
                        assert(string_views(out@) =~= string_views(before).push(pv[i as int]));
                    }
                },
                None => {},
            }
            i = i + 1;
        }
        assert(string_views(self.provider_priority@).subrange(0, i as int) =~= string_views(self.provider_priority@));
        out
    }

    /// Records that `provider` answered `value` for `key`: the value is
    /// cached, and the hit is counted for the provider.
    pub fn record_provider_hit(&mut self, key: &str, provider: &str, value: ConfigValue)
        requires
            old(self).wf(),
            objects_wf(value),
        ensures
            final(self).wf(),
            final(self).cache_map() == old(self).cache_map().insert(key@, value),
            final(self).spec_stats().cache_hits == bump(old(self).spec_stats().cache_hits),
            as_map(final(self).spec_stats().keys_by_source@) == as_map(old(self).spec_stats().keys_by_source@).insert(
                provider@,
                bump(if as_map(old(self).spec_stats().keys_by_source@).contains_key(provider@) {
                    as_map(old(self).spec_stats().keys_by_source@)[provider@]
                } else {
                    0
                }),
            ),
            final(self).provider_map() == old(self).provider_map(),
            final(self).priority() == old(self).priority(),
            final(self).history() == old(self).history(),
            final(self).spec_validator() == old(self).spec_validator(),
    {
        let ghost before = self.cache@;
        insert_value(&mut self.cache, owned(key), value);
        proof {
            assert forall|i: int| 0 <= i < self.cache@.len() implies objects_wf(#[trigger] self.cache@[i].1) by {
                lemma_index_of_key(self.cache@, i);
                let k = self.cache@[i].0@;
                if k != key@ {
                    let j = index_of_key(before, k);
                    lemma_index_of_key(before, j);
                }
            }
        }
        self.stats.cache_hits = bumped(self.stats.cache_hits);
        count_up(&mut self.stats.keys_by_source, provider);
    }

    /// Records that no provider had the key.
    pub fn record_provider_miss(&mut self)
        requires
            old(self).wf(),
        ensures
            final(self).wf(),
            final(self).spec_stats().cache_misses == bump(old(self).spec_stats().cache_misses),
            final(self).cache_map() == old(self).cache_map(),
            final(self).provider_map() == old(self).provider_map(),
            final(self).priority() == old(self).priority(),
            final(self).history() == old(self).history(),
    {
        self.stats.cache_misses = bumped(self.stats.cache_misses);
    }

    /// Checks a value before it is written: with a validator, a value that
    /// breaks a rule is refused with `Validation failed for '<key>': ` and
    /// the messages of its errors joined by `, `, on the key.
    pub fn validate_value(&self, key: &str, value: &ConfigValue) -> (r: Result<(), AppError>)
        requires
            self.wf(),
            objects_wf(*value),
        ensures
            match self.spec_validator() {
                None => r is Ok,
                Some(v) => match r {
                    Ok(()) => v.remarks_for(key@, *value).0.len() == 0,
                    Err(e) => v.remarks_for(key@, *value).0.len() > 0 && (e matches AppError::Config { message, field }
                        && message@ == "Validation failed for '"@ + key@ + "': "@ + join_spec(
                            v.remarks_for(key@, *value).0.map_values(|m: (Seq<char>, Seq<char>)| m.1), ", "@)
                        && field@ == key@),
                },
            },
    {
        match &self.validator {
            None => Ok(()),
            Some(v) => {
                let result = match v.validate(key, value) {
                    Ok(res) => res,
                    Err(e) => return Err(e),
                };
                if result.is_valid {
                    proof {
                        assert(error_remarks(result.errors@).len() == result.errors@.len());
                    }
                    Ok(())
                } else {
                    let mut messages: Vec<String> = Vec::new();
                    let mut i: usize = 0;
                    while i < result.errors.len()
                        invariant
                            i <= result.errors@.len(),
                            string_views(messages@) == error_remarks(result.errors@).subrange(0, i as int).map_values(
                                |m: (Seq<char>, Seq<char>)| m.1,
                            ),
                        decreases result.errors@.len() - i,
                    {
                        let ghost before = messages@;
                        messages.push(result.errors[i].message.clone());
                        assert(string_views(messages@) =~= string_views(before).push(result.errors@[i as int].message@));
                        assert(error_remarks(result.errors@)[i as int].1 == result.errors@[i as int].message@);
                        assert(error_remarks(result.errors@).subrange(0, i + 1).map_values(
                            |m: (Seq<char>, Seq<char>)| m.1,
                        ) =~= error_remarks(result.errors@).subrange(0, i as int).map_values(
                            |m: (Seq<char>, Seq<char>)| m.1,
                        ).push(result.errors@[i as int].message@));
                        i = i + 1;
                    }
                    assert(error_remarks(result.errors@).subrange(0, i as int) =~= error_remarks(result.errors@));
                    let joined = join(&messages, ", ");
                    assert(messages@.map_values(|p: String| p@) =~= string_views(messages@));
                    let mut message = owned("Validation failed for '");
                    push_str(&mut message, key);
                    push_str(&mut message, "': ");
                    push_str(&mut message, joined.as_str());
                    Err(AppError::Config { message, field: owned(key) })
                }
            },
        }
    }
}

/// The writable providers of a priority list, in order.
pub open spec fn writable_in(priority: Seq<Seq<char>>, providers: Map<Seq<char>, ProviderInfo>) -> Seq<Seq<char>>
    decreases priority.len(),
{
    if priority.len() == 0 {
        Seq::empty()
    } else {
        let rest = writable_in(priority.drop_last(), providers);
        if providers.contains_key(priority.last()) && !providers[priority.last()].read_only {
            rest.push(priority.last())
        } else {
            rest
        }
    }
}

/// Adds one to the count of `key`, starting from zero.
fn count_up(counts: &mut Vec<(String, u64)>, key: &str)
    requires
        keys_unique(old(counts)@),
    ensures
        keys_unique(final(counts)@),
        as_map(final(counts)@) == as_map(old(counts)@).insert(
            key@,
            bump(if as_map(old(counts)@).contains_key(key@) { as_map(old(counts)@)[key@] } else { 0 }),
        ),
{
    let current: u64 = match get_value(counts, key) {
        Some(c) => *c,
        None => 0,
    };
    insert_value(counts, owned(key), bumped(current));
}

/// Both are absent, or both hold copies of the same value.
pub open spec fn same_opt_value(a: Option<ConfigValue>, b: Option<ConfigValue>) -> bool {
    match (a, b) {
        (Some(x), Some(y)) => same_value(x, y),
        (None, None) => true,
        _ => false,
    }
}

/// The view of an optional string.
pub open spec fn opt_text(o: Option<String>) -> Option<Seq<char>> {
    match o {
        Some(s) => Some(s@),
        None => None,
    }
}

/// `b` is a copy of the metadata `a`.
pub open spec fn same_metadata(a: ConfigMetadata, b: ConfigMetadata) -> bool {
    &&& a.key@ == b.key@
    &&& a.value_type@ == b.value_type@
    &&& a.source@ == b.source@
    &&& a.created_at == b.created_at
    &&& a.updated_at == b.updated_at
    &&& a.version == b.version
    &&& opt_text(a.checksum) == opt_text(b.checksum)
    &&& string_views(a.tags@) == string_views(b.tags@)
    &&& opt_text(a.description) == opt_text(b.description)
    &&& a.sensitive == b.sensitive
    &&& a.encrypted == b.encrypted
}

/// `b` is a copy of the event `a`.
pub open spec fn same_event(a: ConfigChangeEvent, b: ConfigChangeEvent) -> bool {
    &&& a.key@ == b.key@
    &&& same_opt_value(a.old_value, b.old_value)
    &&& same_opt_value(a.new_value, b.new_value)
    &&& a.change_type == b.change_type
    &&& a.source@ == b.source@
    &&& a.timestamp == b.timestamp
    &&& opt_text(a.user_id) == opt_text(b.user_id)
    &&& opt_text(a.session_id) == opt_text(b.session_id)
    &&& opt_text(a.request_id) == opt_text(b.request_id)
}

/// `b` is a copy of the change `a`.
pub open spec fn same_change(a: ConfigChange, b: ConfigChange) -> bool {
    same_event(a.event, b.event) && same_metadata(a.metadata, b.metadata)
}

/// A copy of an optional string.
fn copy_opt_string(o: &Option<String>) -> (r: Option<String>)
    ensures
        opt_text(r) == opt_text(*o),
{
    match o {
        Some(s) => Some(s.clone()),
        None => None,
    }
}

/// A copy of an optional value.
fn copy_opt_value(o: &Option<ConfigValue>) -> (r: Option<ConfigValue>)
    ensures
        same_opt_value(*o, r),
{
    match o {
        Some(v) => Some(clone_value(v)),
        None => None,
    }
}


/// A copy of metadata.
pub fn copy_metadata(m: &ConfigMetadata) -> (r: ConfigMetadata)
    ensures
        same_metadata(*m, r),
{
    ConfigMetadata {
        key: m.key.clone(),
        value_type: m.value_type.clone(),
        source: m.source.clone(),
        created_at: m.created_at,
        updated_at: m.updated_at,
        version: m.version,
        checksum: copy_opt_string(&m.checksum),
        tags: copy_strings(&m.tags),
        description: copy_opt_string(&m.description),
        sensitive: m.sensitive,
        encrypted: m.encrypted,
    }
}

/// A copy of an event.
pub fn copy_event(e: &ConfigChangeEvent) -> (r: ConfigChangeEvent)
    ensures
        same_event(*e, r),
{
    ConfigChangeEvent {
        key: e.key.clone(),
        old_value: copy_opt_value(&e.old_value),
        new_value: copy_opt_value(&e.new_value),
        change_type: e.change_type,
        source: e.source.clone(),
        timestamp: e.timestamp,
        user_id: copy_opt_string(&e.user_id),
        session_id: copy_opt_string(&e.session_id),
        request_id: copy_opt_string(&e.request_id),
    }
}

/// The changes of `key`, newest first.
pub open spec fn changes_for(h: Seq<ConfigChange>, key: Seq<char>) -> Seq<ConfigChange>
    decreases h.len(),
{
    if h.len() == 0 {
        Seq::empty()
    } else if h.last().event.key@ == key {
        seq![h.last()] + changes_for(h.drop_last(), key)
    } else {
        changes_for(h.drop_last(), key)
    }
}

/// What a writable provider answered when asked to store or remove a key.
#[derive(Debug, Clone, Copy, PartialEq, Eq, Structural)]
pub enum ProviderReply {
    /// The provider took the write.
    Took,
    /// The provider failed, or (for a removal) had nothing to remove.
    Declined,
}

/// What a write (a set or a delete) does next, going through the writable
/// providers in their order.
#[derive(Debug, Clone, Copy, PartialEq, Eq, Structural)]
pub enum WriteAction {
    /// Ask the writable provider at this position.
    Ask(usize),
    /// The provider at this position took the write: record it.
    Apply(usize),
    /// No writable provider took it: the write fails.
    NoProvider,
}

/// The next step of a write after `asked` of the `writable` providers were
/// asked, the last of them answering `last`: record the write with the
/// provider that took it, or ask the next one, or fail once all declined.
pub open spec fn write_step(writable: nat, asked: nat, last: Option<ProviderReply>) -> WriteAction {
    if asked > 0 && last == Some(ProviderReply::Took) {
        WriteAction::Apply((asked - 1) as usize)
    } else if asked < writable {
        WriteAction::Ask(asked as usize)
    } else {
        WriteAction::NoProvider
    }
}

/// The next step of a write; a provider's failure does not end the write,
/// the next provider is asked.
pub fn next_write_action(writable: usize, asked: usize, last: Option<ProviderReply>) -> (r: WriteAction)
    ensures
        r == write_step(writable as nat, asked as nat, last),
{
    if asked > 0 && last == Some(ProviderReply::Took) {
        WriteAction::Apply(asked - 1)
    } else if asked < writable {
        WriteAction::Ask(asked)
    } else {
        WriteAction::NoProvider
    }
}

/// Where a write ends when the writable providers would answer `replies`
/// in turn and the loop goes on from `asked` providers asked.
pub open spec fn drive_write(replies: Seq<ProviderReply>, asked: nat) -> WriteAction
    decreases replies.len() - asked,
{
    let last = if asked == 0 { None } else { Some(replies[asked - 1]) };
    match write_step(replies.len(), asked, last) {
        WriteAction::Ask(_) => if asked < replies.len() { drive_write(replies, asked + 1) } else { WriteAction::NoProvider },
        other => other,
    }
}

/// The first provider from position `k` on that takes the write, if any.
pub open spec fn first_taker(replies: Seq<ProviderReply>, k: nat) -> WriteAction
    decreases replies.len() - k,
{
    if k >= replies.len() {
        WriteAction::NoProvider
    } else if replies[k as int] == ProviderReply::Took {
        WriteAction::Apply(k as usize)
    } else {
        first_taker(replies, k + 1)
    }
}

proof fn lemma_drive_from(replies: Seq<ProviderReply>, k: nat)
    requires
        replies.len() <= usize::MAX,
        k <= replies.len(),
        k == 0 || replies[k - 1] == ProviderReply::Declined,
    ensures
        drive_write(replies, k) == first_taker(replies, k),
    decreases replies.len() - k,
{
    let last = if k == 0 { None } else { Some(replies[k - 1]) };
    assert(last != Some(ProviderReply::Took));
    if k < replies.len() {
        assert(write_step(replies.len(), k, last) == WriteAction::Ask(k as usize));
        assert(drive_write(replies, k) == drive_write(replies, k + 1));
        if replies[k as int] == ProviderReply::Declined {
            lemma_drive_from(replies, k + 1);
        } else {
            let next = Some(replies[k as int]);
            assert(write_step(replies.len(), k + 1, next) == WriteAction::Apply(k as usize));
        }
    } else {
        assert(write_step(replies.len(), k, last) == WriteAction::NoProvider);
    }
}

/// A write driven step by step is recorded with the first writable
/// provider that takes it; it fails only when every one declines.
pub proof fn lemma_write_goes_to_first_taker(replies: Seq<ProviderReply>)
    requires
        replies.len() <= usize::MAX,
    ensures
        drive_write(replies, 0) == first_taker(replies, 0),
{
    lemma_drive_from(replies, 0);
}

/// How a provider's answer to a store counts: success takes the write,
/// an error declines it.
pub fn set_reply(answer: &Result<(), AppError>) -> (r: ProviderReply)
    ensures
        r == (if answer is Ok { ProviderReply::Took } else { ProviderReply::Declined }),
{
    match answer {
        Ok(()) => ProviderReply::Took,
        Err(_) => ProviderReply::Declined,
    }
}

/// How a provider's answer to a removal counts: only a removal that took
/// place takes the write; nothing removed, or an error, declines it.
pub fn delete_reply(answer: &Result<bool, AppError>) -> (r: ProviderReply)
    ensures
        r == (if answer == &Ok::<bool, AppError>(true) { ProviderReply::Took } else { ProviderReply::Declined }),
{
    match answer {
        Ok(true) => ProviderReply::Took,
        _ => ProviderReply::Declined,
    }
}

/// A delete asks the providers only when the key has a value; without one
/// it answers `Ok(false)` at once.
pub fn delete_needed(old_value: &Option<ConfigValue>) -> (r: bool)
    ensures
        r == old_value is Some,
{
    old_value.is_some()
}

/// The error for a write that no provider took.
pub fn no_writable_provider(key: &str) -> (r: AppError)
    ensures
        r matches AppError::Config { message, field } && message@ == "No writable configuration provider available"@
            && field@ == key@,
{
    AppError::Config { message: owned("No writable configuration provider available"), field: owned(key) }
}

impl ConfigManagerImpl {
    /// Adds a change to the history, which keeps the last thousand, and
    /// counts it.
    pub fn record_change(&mut self, change: ConfigChange)
        requires
            old(self).wf(),
        ensures
            final(self).wf(),
            ({
                let h = old(self).history();
                let kept = if h.len() + 1 > MAX_CHANGE_HISTORY { h.drop_first() } else { h };
                &&& final(self).history().len() == kept.len() + 1
                &&& final(self).history().drop_last() == kept
                &&& final(self).history().last() == change
            }),
            final(self).spec_stats() == (ConfigStats { change_count: bump(old(self).spec_stats().change_count), ..old(self).spec_stats() }),
            final(self).metadata_map() == old(self).metadata_map(),
            final(self).spec_manager_metadata() == old(self).spec_manager_metadata(),
            final(self).next_id() == old(self).next_id(),
            final(self).cache_map() == old(self).cache_map(),
            final(self).provider_map() == old(self).provider_map(),
            final(self).priority() == old(self).priority(),
            final(self).watcher_ids() == old(self).watcher_ids(),
            final(self).spec_validator() == old(self).spec_validator(),
    {
        let ghost h = self.change_history@;
        self.change_history.push(change);
        if self.change_history.len() > MAX_CHANGE_HISTORY {
            self.change_history.remove(0);
        }
        proof {
            let kept = if h.len() + 1 > MAX_CHANGE_HISTORY { h.drop_first() } else { h };
            assert(self.change_history@.drop_last() =~= kept);
        }
        self.stats.change_count = bumped(self.stats.change_count);
    }

    /// Records a write that `provider` took: the value is cached, the
    /// change (an update when there was an old value, a creation otherwise)
    /// is recorded with fresh metadata naming the value's type, and the
    /// event is given back for the watchers.
    pub fn apply_set(&mut self, key: &str, value: ConfigValue, old_value: Option<ConfigValue>, provider: &str, now: i64) -> (event: ConfigChangeEvent)
        requires
            old(self).wf(),
            objects_wf(value),
        ensures
            final(self).wf(),
            final(self).cache_map().contains_key(key@),
            same_value(value, final(self).cache_map()[key@]),
            forall|k: Seq<char>| k != key@ ==> (#[trigger] final(self).cache_map().contains_key(k)
                == old(self).cache_map().contains_key(k)) && (final(self).cache_map().contains_key(k)
                ==> final(self).cache_map()[k] == old(self).cache_map()[k]),
            event.key@ == key@,
            same_opt_value(old_value, event.old_value),
            event.new_value matches Some(v) && same_value(value, v),
            event.change_type == (if old_value is Some { ChangeType::Updated } else { ChangeType::Created }),
            event.source@ == provider@,
            event.timestamp == now,
            event.user_id is None && event.session_id is None && event.request_id is None,
            ({
                let h = old(self).history();
                let kept = if h.len() + 1 > MAX_CHANGE_HISTORY { h.drop_first() } else { h };
                &&& final(self).history().len() == kept.len() + 1
                &&& final(self).history().drop_last() == kept
            }),
            same_event(event, final(self).history().last().event),
            final(self).history().last().metadata.key@ == key@,
            final(self).history().last().metadata.source@ == provider@,
            final(self).history().last().metadata.value_type@ == value.spec_value_type_name(),
            final(self).spec_stats() == (ConfigStats { change_count: bump(old(self).spec_stats().change_count), ..old(self).spec_stats() }),
            final(self).metadata_map() == old(self).metadata_map(),
            final(self).spec_manager_metadata() == old(self).spec_manager_metadata(),
            final(self).next_id() == old(self).next_id(),
            final(self).provider_map() == old(self).provider_map(),
            final(self).priority() == old(self).priority(),
            final(self).watcher_ids() == old(self).watcher_ids(),
            final(self).spec_validator() == old(self).spec_validator(),
    {
        let cached = clone_value(&value);
        proof {
            lemma_same_value_wf(value, cached);
        }
        let ghost before = self.cache@;
        insert_value(&mut self.cache, owned(key), cached);
        proof {
            assert forall|i: int| 0 <= i < self.cache@.len() implies objects_wf(#[trigger] self.cache@[i].1) by {
                lemma_index_of_key(self.cache@, i);
                let k = self.cache@[i].0@;
                if k != key@ {
                    let j = index_of_key(before, k);
                    lemma_index_of_key(before, j);
                }
            }
        }
        let kind_name = value.value_type_name();
        let change_type = if old_value.is_some() { ChangeType::Updated } else { ChangeType::Created };
        let event = ConfigChangeEvent {
            key: owned(key),
            old_value,
            new_value: Some(value),
            change_type,
            source: owned(provider),
            timestamp: now,
            user_id: None,
            session_id: None,
            request_id: None,
        };
        let recorded = copy_event(&event);
        let metadata = ConfigMetadata::new(owned(key), owned(provider)).with_value_type(kind_name);
        self.record_change(ConfigChange { event: recorded, metadata });
        proof {
            lemma_same_value_refl(event.new_value->0);
            if event.old_value is Some {
                lemma_same_value_refl(event.old_value->0);
            }
        }
        event
    }

    /// Records a removal that `provider` took: the key leaves the cache and
    /// the deletion is recorded; the event is given back for the watchers.
    pub fn apply_delete(&mut self, key: &str, old_value: Option<ConfigValue>, provider: &str, now: i64) -> (event: ConfigChangeEvent)
        requires
            old(self).wf(),
        ensures
            final(self).wf(),
            final(self).cache_map() == old(self).cache_map().remove(key@),
            event.key@ == key@,
            same_opt_value(old_value, event.old_value),
            event.new_value is None,
            event.change_type == ChangeType::Deleted,
            event.source@ == provider@,
            event.timestamp == now,
            event.user_id is None && event.session_id is None && event.request_id is None,
            ({
                let h = old(self).history();
                let kept = if h.len() + 1 > MAX_CHANGE_HISTORY { h.drop_first() } else { h };
                &&& final(self).history().len() == kept.len() + 1
                &&& final(self).history().drop_last() == kept
            }),
            same_event(event, final(self).history().last().event),
            final(self).history().last().metadata.key@ == key@,
            final(self).history().last().metadata.source@ == provider@,
            final(self).history().last().metadata.value_type@ == "unknown"@,
            final(self).spec_stats() == (ConfigStats { change_count: bump(old(self).spec_stats().change_count), ..old(self).spec_stats() }),
            final(self).metadata_map() == old(self).metadata_map(),
            final(self).spec_manager_metadata() == old(self).spec_manager_metadata(),
            final(self).next_id() == old(self).next_id(),
            final(self).provider_map() == old(self).provider_map(),
            final(self).priority() == old(self).priority(),
            final(self).watcher_ids() == old(self).watcher_ids(),
            final(self).spec_validator() == old(self).spec_validator(),
    {
        let ghost before = self.cache@;
        let _ = remove_value(&mut self.cache, key);
        proof {
            assert forall|i: int| 0 <= i < self.cache@.len() implies objects_wf(#[trigger] self.cache@[i].1) by {
                lemma_index_of_key(self.cache@, i);
                let k = self.cache@[i].0@;
                let j = index_of_key(before, k);
                lemma_index_of_key(before, j);
            }
        }
        let event = ConfigChangeEvent {
            key: owned(key),
            old_value,
            new_value: None,
            change_type: ChangeType::Deleted,
            source: owned(provider),
            timestamp: now,
            user_id: None,
            session_id: None,
            request_id: None,
        };
        let recorded = copy_event(&event);
        let metadata = ConfigMetadata::new(owned(key), owned(provider));
        self.record_change(ConfigChange { event: recorded, metadata });
        proof {
            if event.old_value is Some {
                lemma_same_value_refl(event.old_value->0);
            }
        }
        event
    }

    /// Registers a watcher under the next id.
    pub fn subscribe(&mut self) -> (id: WatcherId)
        requires
            old(self).wf(),
            old(self).next_id() < u64::MAX,
        ensures
            final(self).wf(),
            id == old(self).next_id(),
            final(self).next_id() == id + 1,
            final(self).watcher_ids() == old(self).watcher_ids().push(id),
            final(self).cache_map() == old(self).cache_map(),
            final(self).history() == old(self).history(),
    {
        let id = self.next_watcher_id;
        self.next_watcher_id = id + 1;
        self.watchers.push(id);
        id
    }

    /// Removes a watcher; false when there is none with that id.
    pub fn unsubscribe(&mut self, id: WatcherId) -> (removed: bool)
        requires
            old(self).wf(),
        ensures
            final(self).wf(),
            removed == old(self).watcher_ids().contains(id),
            forall|w: WatcherId| #[trigger] final(self).watcher_ids().contains(w) <==> old(self).watcher_ids().contains(w) && w != id,
            final(self).cache_map() == old(self).cache_map(),
            final(self).history() == old(self).history(),
    {
        let ghost orig = self.watchers@;
        let mut kept: Vec<WatcherId> = Vec::new();
        let mut found = false;
        let mut i: usize = 0;
        while i < self.watchers.len()
            invariant
                i <= self.watchers@.len(),
                self.watchers@ == orig,
                found == orig.subrange(0, i as int).contains(id),
                forall|w: WatcherId| #[trigger] kept@.contains(w) <==> orig.subrange(0, i as int).contains(w) && w != id,
            decreases self.watchers@.len() - i,
        {
            let w = self.watchers[i];
            let ghost before = kept@;
            if w == id {
                found = true;
            } else {
                kept.push(w);
            }
            proof {
                let pre = orig.subrange(0, i as int);
                let cur = orig.subrange(0, i + 1);
                assert(cur =~= pre.push(w));
                if w == id {
                    assert(cur[i as int] == id);
                }
                assert forall|x: WatcherId| #[trigger] kept@.contains(x) <==> cur.contains(x) && x != id by {
                    if cur.contains(x) && x != id {
                        let j = choose|j: int| 0 <= j < cur.len() && cur[j] == x;
                        if j < i {
                            assert(pre[j] == x);
                            assert(before.contains(x));
                            let q = choose|q: int| 0 <= q < before.len() && before[q] == x;
                            assert(kept@[q] == x);
                        } else {
                            assert(kept@[kept@.len() - 1] == x);
                        }
                    }
                    if kept@.contains(x) {
                        let j = choose|j: int| 0 <= j < kept@.len() && kept@[j] == x;
                        if j < before.len() {
                            assert(before[j] == x);
                            assert(before.contains(x));
                            let q = choose|q: int| 0 <= q < pre.len() && pre[q] == x;
                            assert(cur[q] == x);
                        } else {
                            assert(cur[i as int] == x);
                        }
                    }
                }
                if cur.contains(id) {
                    let j = choose|j: int| 0 <= j < cur.len() && cur[j] == id;
                    if j < i {
                        assert(pre[j] == id);
                    }
                }
                if pre.contains(id) {
                    let j = choose|j: int| 0 <= j < pre.len() && pre[j] == id;
                    assert(cur[j] == id);
                }
            }
            i = i + 1;
        }
        assert(orig.subrange(0, i as int) =~= orig);
        self.watchers = kept;
        found
    }

    /// Removes the watchers whose callbacks failed.
    pub fn remove_watchers(&mut self, failed: &Vec<WatcherId>)
        requires
            old(self).wf(),
        ensures
            final(self).wf(),
            forall|w: WatcherId| #[trigger] final(self).watcher_ids().contains(w) <==> old(self).watcher_ids().contains(w)
                && !failed@.contains(w),
            final(self).cache_map() == old(self).cache_map(),
            final(self).history() == old(self).history(),
    {
        let mut i: usize = 0;
        while i < failed.len()
            invariant
                self.wf(),
                i <= failed@.len(),
                forall|w: WatcherId| #[trigger] self.watcher_ids().contains(w) <==> old(self).watcher_ids().contains(w)
                    && !failed@.subrange(0, i as int).contains(w),
                self.cache_map() == old(self).cache_map(),
                self.history() == old(self).history(),
            decreases failed@.len() - i,
        {
            let _ = self.unsubscribe(failed[i]);
            proof {
                let pre = failed@.subrange(0, i as int);
                let cur = failed@.subrange(0, i + 1);
                assert(cur =~= pre.push(failed@[i as int]));
                assert forall|w: WatcherId| cur.contains(w) <==> pre.contains(w) || w == failed@[i as int] by {
                    if cur.contains(w) && w != failed@[i as int] {
                        let j = choose|j: int| 0 <= j < cur.len() && cur[j] == w;
                        assert(pre[j] == w);
                    }
                    if pre.contains(w) {
                        let j = choose|j: int| 0 <= j < pre.len() && pre[j] == w;
                        assert(cur[j] == w);
                    }
                    if w == failed@[i as int] {
                        assert(cur[i as int] == w);
                    }
                }
            }
            i = i + 1;
        }
        assert(failed@.subrange(0, i as int) =~= failed@);
    }

    /// The description of the manager.
    pub fn manager_metadata(&self) -> (r: &ManagerMetadata)
        ensures
            *r == self.spec_manager_metadata(),
    {
        &self.manager_metadata
    }

    /// The changes of `key`, newest first, at most `limit` of them (a
    /// hundred by default).
    pub fn get_history(&self, key: &str, limit: Option<u32>) -> (r: Vec<ConfigChange>)
        ensures
            ({
                let all = changes_for(self.history(), key@);
                let n = match limit { Some(l) => l as nat, None => 100nat };
                let m = if n < all.len() { n } else { all.len() };
                &&& r@.len() == m
                &&& forall|i: int| 0 <= i < m ==> same_change(all[i], #[trigger] r@[i])
            }),
    {
        let n: usize = match limit { Some(l) => l as usize, None => 100 };
        let ghost h = self.change_history@;
        let ghost all = changes_for(h, key@);
        let mut out: Vec<ConfigChange> = Vec::new();
        let mut i: usize = self.change_history.len();
        assert(h.subrange(0, i as int) =~= h);
        while i > 0 && out.len() < n
            invariant
                i <= h.len(),
                h == self.change_history@,
                all == changes_for(h, key@),
                n == (match limit { Some(l) => l as nat, None => 100nat }),
                out@.len() <= n,
                out@.len() <= all.len(),
                all.subrange(out@.len() as int, all.len() as int) == changes_for(h.subrange(0, i as int), key@),
                forall|j: int| 0 <= j < out@.len() ==> same_change(all[j], #[trigger] out@[j]),
            decreases i,
        {
            let c = &self.change_history[i - 1];
            proof {
                assert(h.subrange(0, i as int).drop_last() =~= h.subrange(0, i - 1));
                assert(h.subrange(0, i as int).last() == h[i - 1]);
            }
            if crate::text::str_eq(c.event.key.as_str(), key) {
                let copy = ConfigChange { event: copy_event(&c.event), metadata: copy_metadata(&c.metadata) };
                proof {
                    let k = out@.len() as int;
                    assert(changes_for(h.subrange(0, i as int), key@) == seq![h[i - 1]] + changes_for(h.subrange(0, i - 1), key@));
                    assert(all.subrange(k, all.len() as int)[0] == h[i - 1]);
                    assert(all[k] == h[i - 1]);
                    assert(all.subrange(k + 1, all.len() as int) =~= all.subrange(k, all.len() as int).subrange(1, all.len() - k));
                }
                out.push(copy);
            } else {
                assert(changes_for(h.subrange(0, i as int), key@) == changes_for(h.subrange(0, i - 1), key@));
            }
            i = i - 1;
        }
        proof {
            if i == 0 {
                assert(h.subrange(0, 0) =~= Seq::<ConfigChange>::empty());
            }
        }
        out
    }
}

/// Copies keep objects with unique keys.
proof fn lemma_same_value_wf(a: ConfigValue, b: ConfigValue)
    requires
        same_value(a, b),
        objects_wf(a),
    ensures
        objects_wf(b),
    decreases a,
{
    match a {
        ConfigValue::List(x) => {
            if let ConfigValue::List(y) = b {
                assert forall|i: int| 0 <= i < y@.len() implies objects_wf(#[trigger] y@[i]) by {
                    assert(decreases_to!(x => x@));
                    assert(decreases_to!(x@ => x@[i]));
                    lemma_same_value_wf(x@[i], y@[i]);
                }
            }
        },
        ConfigValue::Object(x) => {
            if let ConfigValue::Object(y) = b {
                assert forall|i: int| 0 <= i < y@.len() implies objects_wf(#[trigger] y@[i].1) by {
                    assert(decreases_to!(x => x@));
                    assert(decreases_to!(x@ => x@[i]));
                    assert(decreases_to!(x@[i] => x@[i].1));
                    lemma_same_value_wf(x@[i].1, y@[i].1);
                }
                assert forall|i: int, j: int| 0 <= i < y@.len() && 0 <= j < y@.len() && i != j implies y@[i].0@ != y@[j].0@ by {
                    assert(x@[i].0@ != x@[j].0@);
                }
            }
        },
        _ => {},
    }
}

/// A value is a copy of itself.
proof fn lemma_same_value_refl(a: ConfigValue)
    ensures
        same_value(a, a),
    decreases a,
{
    match a {
        ConfigValue::List(x) => {
            assert forall|i: int| 0 <= i < x@.len() implies same_value(#[trigger] x@[i], x@[i]) by {
                assert(decreases_to!(x => x@));
                assert(decreases_to!(x@ => x@[i]));
                lemma_same_value_refl(x@[i]);
            }
        },
        ConfigValue::Object(x) => {
            assert forall|i: int| 0 <= i < x@.len() implies (#[trigger] x@[i]).0@ == x@[i].0@ && same_value(x@[i].1, x@[i].1) by {
                assert(decreases_to!(x => x@));
                assert(decreases_to!(x@ => x@[i]));
                assert(decreases_to!(x@[i] => x@[i].1));
                lemma_same_value_refl(x@[i].1);
            }
        },
        _ => {},
    }
}

/// The number of entries whose value has type `t`.
pub open spec fn type_count(s: Seq<(String, ConfigValue)>, t: Seq<char>) -> nat
    decreases s.len(),
{
    if s.len() == 0 {
        0
    } else {
        type_count(s.drop_last(), t) + if s.last().1.spec_value_type_name() == t { 1nat } else { 0nat }
    }
}

/// A count never exceeds the number of entries.
proof fn lemma_type_count_bound(s: Seq<(String, ConfigValue)>, t: Seq<char>)
    ensures
        type_count(s, t) <= s.len(),
    decreases s.len(),
{
    if s.len() > 0 {
        lemma_type_count_bound(s.drop_last(), t);
    }
}

/// The values kept by a reload: each key's value from the first answer
/// that gives it.
pub open spec fn first_answers(a: Seq<(String, ConfigValue, Option<ConfigMetadata>)>) -> Map<Seq<char>, ConfigValue>
    decreases a.len(),
{
    if a.len() == 0 {
        Map::empty()
    } else {
        let m = first_answers(a.drop_last());
        if m.contains_key(a.last().0@) { m } else { m.insert(a.last().0@, a.last().1) }
    }
}

/// The metadata kept by a reload: for each key, that of its first answer,
/// where the first answer has metadata.
pub open spec fn first_metadata(a: Seq<(String, ConfigValue, Option<ConfigMetadata>)>) -> Map<Seq<char>, ConfigMetadata>
    decreases a.len(),
{
    if a.len() == 0 {
        Map::empty()
    } else {
        let m = first_metadata(a.drop_last());
        if first_answers(a.drop_last()).contains_key(a.last().0@) {
            m
        } else {
            match a.last().2 {
                Some(md) => m.insert(a.last().0@, md),
                None => m,
            }
        }
    }
}

/// The state that a rollback to `t` restores: walking the history from
/// the newest change to the oldest, each change made before `t` sets its
/// key to its new value, or removes the key when it was a deletion; older
/// changes thus take precedence.
pub open spec fn rollback_map(h: Seq<ConfigChange>, t: i64) -> Map<Seq<char>, ConfigValue>
    decreases h.len(),
{
    if h.len() == 0 {
        Map::empty()
    } else {
        let m = rollback_map(h.subrange(1, h.len() as int), t);
        let c = h[0];
        if c.event.timestamp < t {
            match c.event.new_value {
                Some(v) => m.insert(c.event.key@, v),
                None => m.remove(c.event.key@),
            }
        } else {
            m
        }
    }
}

impl ConfigManagerImpl {
    /// All resolved values.
    pub fn get_all(&self) -> (r: &Vec<(String, ConfigValue)>)
        requires
            self.wf(),
        ensures
            keys_unique(r@),
            as_map(r@) == self.cache_map(),
    {
        &self.cache
    }

    /// Copies of the resolved values whose key contains `pattern`.
    pub fn get_by_pattern(&self, pattern: &str) -> (r: Vec<(String, ConfigValue)>)
        requires
            self.wf(),
        ensures
            keys_unique(r@),
            forall|k: Seq<char>| #[trigger] as_map(r@).contains_key(k) <==> (self.cache_map().contains_key(k) && contains_spec(k, pattern@)),
            forall|k: Seq<char>| #[trigger] as_map(r@).contains_key(k) ==> same_value(self.cache_map()[k], as_map(r@)[k]),
    {
        let mut out: Vec<(String, ConfigValue)> = Vec::new();
        let mut i: usize = 0;
        while i < self.cache.len()
            invariant
                self.wf(),
                i <= self.cache@.len(),
                keys_unique(out@),
                forall|a: int| 0 <= a < out@.len() ==> exists|b: int| 0 <= b < i && (#[trigger] out@[a]).0@ == self.cache@[b].0@,
                forall|k: Seq<char>| #[trigger] as_map(out@).contains_key(k) <==> (exists|b: int| 0 <= b < i && self.cache@[b].0@ == k)
                    && contains_spec(k, pattern@),
                forall|k: Seq<char>| #[trigger] as_map(out@).contains_key(k) ==> same_value(as_map(self.cache@)[k], as_map(out@)[k]),
            decreases self.cache@.len() - i,
        {
            let ghost before = out@;
            proof {
                lemma_index_of_key(self.cache@, i as int);
            }
            if contains(self.cache[i].0.as_str(), pattern) {
                let copy = clone_value(&self.cache[i].1);
                out.push((self.cache[i].0.clone(), copy));
                proof {
                    assert forall|a: int, b: int| 0 <= a < out@.len() && 0 <= b < out@.len() && a != b implies out@[a].0@ != out@[b].0@ by {
                        if a == before.len() || b == before.len() {
                            let o = if a == before.len() { b } else { a };
                            let w = choose|w: int| 0 <= w < i && (#[trigger] before[o]).0@ == self.cache@[w].0@;
                            assert(self.cache@[w].0@ != self.cache@[i as int].0@);
                        }
                    }
                    lemma_index_of_key(out@, before.len() as int);
                    assert forall|k: Seq<char>| #[trigger] as_map(out@).contains_key(k) <==> (exists|b: int| 0 <= b < i + 1 && self.cache@[b].0@ == k)
                        && contains_spec(k, pattern@) by {
                        if has_key(out@, k) {
                            let j = index_of_key(out@, k);
                            if j < before.len() {
                                assert(before[j].0@ == k);
                                assert(has_key(before, k));
                                assert(as_map(before).contains_key(k));
                                let b = choose|b: int| 0 <= b < i && self.cache@[b].0@ == k;
                                assert(0 <= b < i + 1 && self.cache@[b].0@ == k);
                            } else {
                                assert(self.cache@[i as int].0@ == k);
                            }
                        }
                        if has_key(before, k) {
                            let j = index_of_key(before, k);
                            assert(out@[j].0@ == k);
                        }
                        if (exists|b: int| 0 <= b < i + 1 && self.cache@[b].0@ == k) && contains_spec(k, pattern@) {
                            let b = choose|b: int| 0 <= b < i + 1 && self.cache@[b].0@ == k;
                            if b == i {
                                assert(out@[before.len() as int].0@ == k);
                            } else {
                                assert(as_map(before).contains_key(k));
                                let j = index_of_key(before, k);
                                assert(out@[j].0@ == k);
                            }
                        }
                    }
                    assert forall|k: Seq<char>| #[trigger] as_map(out@).contains_key(k) implies same_value(as_map(self.cache@)[k], as_map(out@)[k]) by {
                        let j = index_of_key(out@, k);
                        lemma_index_of_key(out@, j);
                        if j < before.len() {
                            lemma_index_of_key(before, j);
                        }
                    }
                }
            } else {
                proof {
                    assert forall|k: Seq<char>| #[trigger] as_map(out@).contains_key(k) <==> (exists|b: int| 0 <= b < i + 1 && self.cache@[b].0@ == k)
                        && contains_spec(k, pattern@) by {
                        if (exists|b: int| 0 <= b < i + 1 && self.cache@[b].0@ == k) && contains_spec(k, pattern@) {
                            let b = choose|b: int| 0 <= b < i + 1 && self.cache@[b].0@ == k;
                            assert(b != i);
                        }
                    }
                }
            }
            i = i + 1;
        }
        proof {
            assert forall|k: Seq<char>| #[trigger] as_map(out@).contains_key(k) <==> (self.cache_map().contains_key(k) && contains_spec(k, pattern@)) by {
                if has_key(self.cache@, k) {
                    let b = index_of_key(self.cache@, k);
                    assert(self.cache@[b].0@ == k);
                }
                if exists|b: int| 0 <= b < i && self.cache@[b].0@ == k {
                    let b = choose|b: int| 0 <= b < i && self.cache@[b].0@ == k;
                    assert(has_key(self.cache@, k));
                }
            }
        }
        out
    }

    /// The counters, with the number of resolved values and their count
    /// by type as they now are.
    pub fn get_stats(&self) -> (r: ConfigStats)
        requires
            self.wf(),
        ensures
            r.total_keys == self.cache_entries().len(),
            keys_unique(r.keys_by_type@),
            forall|t: Seq<char>| #[trigger] as_map(r.keys_by_type@).contains_key(t) <==> type_count(self.cache_entries(), t) > 0,
            forall|t: Seq<char>| #[trigger] as_map(r.keys_by_type@).contains_key(t) ==> as_map(r.keys_by_type@)[t] == type_count(self.cache_entries(), t),
            as_map(r.keys_by_source@) == as_map(self.spec_stats().keys_by_source@),
            r.sensitive_keys == self.spec_stats().sensitive_keys,
            r.encrypted_keys == self.spec_stats().encrypted_keys,
            r.last_reload == self.spec_stats().last_reload,
            r.reload_count == self.spec_stats().reload_count,
            r.change_count == self.spec_stats().change_count,
            r.watcher_count == self.spec_stats().watcher_count,
            r.cache_hits == self.spec_stats().cache_hits,
            r.cache_misses == self.spec_stats().cache_misses,
    {
        let mut by_type: Vec<(String, u64)> = Vec::new();
        let mut i: usize = 0;
        while i < self.cache.len()
            invariant
                i <= self.cache@.len(),
                keys_unique(by_type@),
                forall|t: Seq<char>| #[trigger] as_map(by_type@).contains_key(t) <==> type_count(self.cache@.subrange(0, i as int), t) > 0,
                forall|t: Seq<char>| #[trigger] as_map(by_type@).contains_key(t) ==> as_map(by_type@)[t] == type_count(self.cache@.subrange(0, i as int), t),
            decreases self.cache@.len() - i,
        {
            let name = self.cache[i].1.value_type_name();
            proof {
                let sub = self.cache@.subrange(0, i + 1);
                assert(sub.drop_last() =~= self.cache@.subrange(0, i as int));
                lemma_type_count_bound(self.cache@.subrange(0, i as int), name@);
            }
            count_up(&mut by_type, name);
            i = i + 1;
        }
        assert(self.cache@.subrange(0, i as int) =~= self.cache@);
        let mut sources: Vec<(String, u64)> = Vec::new();
        let mut j: usize = 0;
        while j < self.stats.keys_by_source.len()
            invariant
                j <= self.stats.keys_by_source@.len(),
                keys_unique(self.stats.keys_by_source@),
                sources@.len() == j,
                forall|a: int| 0 <= a < j ==> (#[trigger] sources@[a]).0@ == self.stats.keys_by_source@[a].0@
                    && sources@[a].1 == self.stats.keys_by_source@[a].1,
            decreases self.stats.keys_by_source@.len() - j,
        {
            sources.push((self.stats.keys_by_source[j].0.clone(), self.stats.keys_by_source[j].1));
            j = j + 1;
        }
        proof {
            let src = self.stats.keys_by_source@;
            assert forall|k: Seq<char>| has_key(sources@, k) <==> has_key(src, k) by {
                if has_key(sources@, k) {
                    let q = index_of_key(sources@, k);
                    assert(src[q].0@ == k);
                }
                if has_key(src, k) {
                    let q = index_of_key(src, k);
                    assert(sources@[q].0@ == k);
                }
            }
            assert(keys_unique(sources@));
            assert forall|k: Seq<char>| has_key(sources@, k) implies as_map(sources@)[k] == as_map(src)[k] by {
                let q = index_of_key(sources@, k);
                lemma_index_of_key(sources@, q);
                lemma_index_of_key(src, q);
            }
            assert(as_map(sources@) =~= as_map(src));
        }
        ConfigStats {
            total_keys: self.cache.len() as u64,
            keys_by_source: sources,
            keys_by_type: by_type,
            sensitive_keys: self.stats.sensitive_keys,
            encrypted_keys: self.stats.encrypted_keys,
            last_reload: self.stats.last_reload,
            reload_count: self.stats.reload_count,
            change_count: self.stats.change_count,
            watcher_count: self.stats.watcher_count,
            cache_hits: self.stats.cache_hits,
            cache_misses: self.stats.cache_misses,
        }
    }

    /// Validates every resolved value with the validator; without one,
    /// every value counts as valid.
    pub fn validate(&self) -> (r: Result<ValidationSummary, AppError>)
        requires
            self.wf(),
        ensures
            r matches Ok(s) && match self.spec_validator() {
                Some(v) => {
                    &&& s.total_keys == self.cache_entries().len()
                    &&& s.invalid_keys == v.invalid_count(self.cache_entries())
                    &&& s.valid_keys + s.invalid_keys == s.total_keys
                    &&& s.is_valid == (s.invalid_keys == 0)
                    &&& error_remarks(s.errors@) == v.all_errors(self.cache_entries())
                    &&& crate::config::validator::warning_remarks(s.warnings@) == v.all_warnings(self.cache_entries())
                },
                None => {
                    &&& s.total_keys == self.cache_entries().len()
                    &&& s.valid_keys == self.cache_entries().len()
                    &&& s.invalid_keys == 0
                    &&& s.errors@.len() == 0
                    &&& s.warnings@.len() == 0
                    &&& s.is_valid
                },
            },
    {
        match &self.validator {
            Some(v) => v.validate_entries(&self.cache),
            None => Ok(ValidationSummary {
                total_keys: self.cache.len(),
                valid_keys: self.cache.len(),
                invalid_keys: 0,
                warnings: Vec::new(),
                errors: Vec::new(),
                is_valid: true,
            }),
        }
    }

    /// The values a rollback to `timestamp` writes back, as `rollback_map`
    /// says; the caller writes each of them.
    pub fn rollback_state(&self, timestamp: i64) -> (r: Vec<(String, ConfigValue)>)
        ensures
            keys_unique(r@),
            forall|k: Seq<char>| #[trigger] as_map(r@).contains_key(k) <==> rollback_map(self.history(), timestamp).contains_key(k),
            forall|k: Seq<char>| #[trigger] as_map(r@).contains_key(k) ==> same_value(rollback_map(self.history(), timestamp)[k], as_map(r@)[k]),
    {
        let ghost h = self.change_history@;
        let mut state: Vec<(String, ConfigValue)> = Vec::new();
        let mut i: usize = self.change_history.len();
        assert(h.subrange(i as int, h.len() as int) =~= Seq::<ConfigChange>::empty());
        while i > 0
            invariant
                i <= h.len(),
                h == self.change_history@,
                keys_unique(state@),
                forall|k: Seq<char>| #[trigger] as_map(state@).contains_key(k) <==> rollback_map(h.subrange(i as int, h.len() as int), timestamp).contains_key(k),
                forall|k: Seq<char>| #[trigger] as_map(state@).contains_key(k) ==> same_value(rollback_map(h.subrange(i as int, h.len() as int), timestamp)[k], as_map(state@)[k]),
            decreases i,
        {
            let c = &self.change_history[i - 1];
            let ghost before = state@;
            proof {
                let sub = h.subrange(i - 1, h.len() as int);
                assert(sub.subrange(1, sub.len() as int) =~= h.subrange(i as int, h.len() as int));
                assert(sub[0] == h[i - 1]);
            }
            if c.event.timestamp < timestamp {
                match &c.event.new_value {
                    Some(v) => {
                        let copy = clone_value(v);
                        insert_value(&mut state, c.event.key.clone(), copy);
                    },
                    None => {
                        let _ = remove_value(&mut state, c.event.key.as_str());
                    },
                }
            }
            i = i - 1;
        }
        assert(h.subrange(0, h.len() as int) =~= h);
        state
    }

    /// Replaces the resolved values and metadata with what the providers
    /// answered: `answers` holds, in provider order, each key a provider
    /// listed and gave a value for, with its metadata if the provider had
    /// some. The first answer for a key wins. The reload is counted.
    pub fn apply_reload(&mut self, answers: Vec<(String, ConfigValue, Option<ConfigMetadata>)>, now: i64)
        requires
            old(self).wf(),
            forall|i: int| 0 <= i < answers@.len() ==> objects_wf(#[trigger] answers@[i].1),
        ensures
            final(self).wf(),
            final(self).cache_map() == first_answers(answers@),
            final(self).metadata_map() == first_metadata(answers@),
            final(self).spec_stats().reload_count == bump(old(self).spec_stats().reload_count),
            final(self).spec_stats().last_reload == Some(now),
            final(self).spec_stats().total_keys == final(self).cache_map().dom().len(),
            final(self).provider_map() == old(self).provider_map(),
            final(self).priority() == old(self).priority(),
            final(self).history() == old(self).history(),
            final(self).spec_validator() == old(self).spec_validator(),
    {
        let ghost a = answers@;
        let mut cache: Vec<(String, ConfigValue)> = Vec::new();
        let mut metadata: Vec<(String, ConfigMetadata)> = Vec::new();
        let mut rest = answers;
        let n = rest.len();
        let mut i: usize = 0;
        assert(as_map(cache@) =~= first_answers(a.subrange(0, 0)));
        assert(as_map(metadata@) =~= first_metadata(a.subrange(0, 0)));
        while i < n
            invariant
                n == a.len(),
                i <= n,
                rest@ == a.subrange(i as int, n as int),
                forall|j: int| 0 <= j < a.len() ==> objects_wf(#[trigger] a[j].1),
                keys_unique(cache@),
                keys_unique(metadata@),
                as_map(cache@) == first_answers(a.subrange(0, i as int)),
                as_map(metadata@) == first_metadata(a.subrange(0, i as int)),
                forall|j: int| 0 <= j < cache@.len() ==> objects_wf(#[trigger] cache@[j].1),
            decreases n - i,
        {
            let (key, value, md) = rest.remove(0);
            proof {
                assert(rest@ =~= a.subrange(i + 1, n as int));
                let sub = a.subrange(0, i + 1);
                assert(sub.drop_last() =~= a.subrange(0, i as int));
                assert(sub.last() == a[i as int]);
            }
            if get_value(&cache, key.as_str()).is_none() {
                let ghost before = cache@;
                insert_value(&mut cache, key.clone(), value);
                proof {
                    assert forall|j: int| 0 <= j < cache@.len() implies objects_wf(#[trigger] cache@[j].1) by {
                        lemma_index_of_key(cache@, j);
                        let k = cache@[j].0@;
                        if k != key@ {
                            let q = index_of_key(before, k);
                            lemma_index_of_key(before, q);
                        } else {
                            assert(a[i as int].1 == value);
                        }
                    }
                }
                if let Some(m) = md {
                    insert_value(&mut metadata, key, m);
                }
            }
            i = i + 1;
        }
        assert(a.subrange(0, n as int) =~= a);
        proof {
            crate::database::timed_cache::lemma_len_is_dom_size(cache@);
        }
        self.cache = cache;
        self.metadata = metadata;
        self.stats.reload_count = bumped(self.stats.reload_count);
        self.stats.last_reload = Some(now);
        self.stats.total_keys = self.cache.len() as u64;
    }
}

} // verus!
