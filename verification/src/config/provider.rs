//! Configuration providers: the in-memory one, and the environment
//! variable one's description, key mapping and value parsing.

use vstd::prelude::*;
use crate::assoc::{as_map, get_value, has_key, index_of_key, insert_value, key_seq, keys_unique, lemma_index_of_key, remove_value};
use crate::clock::now_millis;
use crate::config::data::ConfigMetadata;
use crate::config::traits::{ConfigFormat, HealthStatus, ProviderHealth, ProviderMetadata};
use crate::config::manager::{copy_metadata, same_metadata};
use crate::config::types::{
    format_env_key, format_env_key_spec, parse_env_key, parse_env_key_spec,
};
use crate::config::value::{ConfigValue, clone_value, same_value, objects_wf};
use crate::error::types::AppError;
use crate::parse::{parse_i64, parse_i64_spec};
use crate::patterns::{regex_error, regex_error_text, regex_match, regex_match_result};
use crate::text::{contains, contains_spec, has_prefix, lowercase_spec, owned, replace_all, replace_spec, starts_with, str_eq, string_views, to_lower, u64_to_decimal, decimal_spec};

verus! {

/// Environment variable configuration provider
pub struct EnvironmentConfigProvider {
    pub prefix: Option<String>,
    pub separator: Option<String>,
    pub provider_metadata: ProviderMetadata,
}

/// The view of an optional string.
pub open spec fn opt_str_view(o: Option<String>) -> Option<Seq<char>> {
    match o {
        Some(s) => Some(s@),
        None => None,
    }
}

impl EnvironmentConfigProvider {
    /// The separator in use: the configured one, or `_`.
    pub open spec fn spec_separator(&self) -> Seq<char> {
        match self.separator {
            Some(s) => s@,
            None => "_"@,
        }
    }

    /// A read-only provider with the given prefix; without a separator the
    /// separator is `.`.
    pub fn new(prefix: Option<String>, separator: Option<String>) -> (r: Self)
        ensures
            r.prefix == prefix,
            match separator {
                Some(s) => r.separator == Some(s),
                None => r.separator matches Some(d) && d@ == "."@,
            },
            r.provider_metadata.name@ == "environment"@,
            r.provider_metadata.read_only,
            !r.provider_metadata.supports_watching,
            !r.provider_metadata.supports_encryption,
            r.provider_metadata.capabilities@.len() == 2,
            r.provider_metadata.capabilities@[0]@ == "read"@,
            r.provider_metadata.capabilities@[1]@ == "system"@,
            r.provider_metadata.supported_formats@.len() == 0,
    {
        let mut capabilities: Vec<String> = Vec::new();
        capabilities.push(owned("read"));
        capabilities.push(owned("system"));
        let metadata = ProviderMetadata {
            name: owned("environment"),
            version: owned("1.0.0"),
            description: owned("Environment variable configuration provider"),
            capabilities,
            supported_formats: Vec::<ConfigFormat>::new(),
            read_only: true,
            supports_watching: false,
            supports_encryption: false,
        };
        let separator = match separator {
            Some(s) => Some(s),
            None => Some(owned(".")),
        };
        EnvironmentConfigProvider { prefix, separator, provider_metadata: metadata }
    }

    /// The configuration key that an environment variable name stands for,
    /// if the name carries this provider's prefix.
    pub fn normalize_key(&self, env_key: &str) -> (r: Option<String>)
        ensures
            match r {
                Some(k) => parse_env_key_spec(env_key@, opt_str_view(self.prefix), self.spec_separator()) == Some(k@),
                None => parse_env_key_spec(env_key@, opt_str_view(self.prefix), self.spec_separator()) is None,
            },
    {
        let separator: &str = match &self.separator {
            Some(s) => s.as_str(),
            None => "_",
        };
        match &self.prefix {
            Some(p) => parse_env_key(env_key, Some(p.as_str()), separator),
            None => parse_env_key(env_key, None, separator),
        }
    }

    /// The environment variable name of a configuration key.
    pub fn format_key(&self, key: &str) -> (r: String)
        ensures
            r@ == format_env_key_spec(key@, opt_str_view(self.prefix), self.spec_separator()),
    {
        let separator: &str = match &self.separator {
            Some(s) => s.as_str(),
            None => "_",
        };
        match &self.prefix {
            Some(p) => format_env_key(key, Some(p.as_str()), separator),
            None => format_env_key(key, None, separator),
        }
    }
}

/// `r` is the value an environment variable's text stands for: `true` or
/// `false` in any case, else an integer, else the floating-point number
/// `float` (its bits and its text) that the text was read as, if it was,
/// else the JSON value `json` of a text opening with `{` or `[`, if it
/// parsed, else the text itself.
pub open spec fn is_env_value(value: Seq<char>, float: Option<(u64, Seq<char>)>, json: Option<ConfigValue>, r: ConfigValue) -> bool {
    if lowercase_spec(value) == "true"@ {
        r == ConfigValue::Boolean(true)
    } else if lowercase_spec(value) == "false"@ {
        r == ConfigValue::Boolean(false)
    } else if parse_i64_spec(value) is Some {
        r == ConfigValue::Integer(parse_i64_spec(value)->0)
    } else {
        match float {
            Some((b, t)) => r matches ConfigValue::Float { bits, text } && bits == b && text@ == t,
            None => if (has_prefix(value, "{"@) || has_prefix(value, "["@)) && json is Some {
                r == json->0
            } else {
                r matches ConfigValue::String(t) && t@ == value
            },
        }
    }
}

/// The message of a write to a read-only provider.
pub open spec fn read_only_error(e: AppError) -> bool {
    e matches AppError::Config { message, field } && message@ == "Environment provider is read-only"@ && field@ == "provider"@
}

impl EnvironmentConfigProvider {
    /// The value an environment variable's text stands for. `float` is the
    /// text read as a floating-point number (its bits and how it prints),
    /// if it reads as one; `json` the value of the text read as JSON, if
    /// it reads as JSON.
    pub fn parse_env_value(&self, value: &str, float: Option<(u64, String)>, json: Option<ConfigValue>) -> (r: Result<ConfigValue, AppError>)
        ensures
            r matches Ok(v) && is_env_value(value@, match float { Some(f) => Some((f.0, f.1@)), None => None }, json, v),
    {
        let lower = to_lower(value);
        proof {
            reveal_strlit("true");
            reveal_strlit("false");
        }
        if str_eq(lower.as_str(), "true") {
            return Ok(ConfigValue::Boolean(true));
        }
        if str_eq(lower.as_str(), "false") {
            return Ok(ConfigValue::Boolean(false));
        }
        if let Some(n) = parse_i64(value) {
            return Ok(ConfigValue::Integer(n));
        }
        if let Some((bits, text)) = float {
            return Ok(ConfigValue::Float { bits, text });
        }
        if starts_with(value, "{") || starts_with(value, "[") {
            if let Some(v) = json {
                return Ok(v);
            }
        }
        Ok(ConfigValue::String(owned(value)))
    }

    /// Writing is refused: the environment is read-only.
    pub fn set(&self, key: &str, value: ConfigValue) -> (r: Result<(), AppError>)
        ensures
            r matches Err(e) && read_only_error(e),
    {
        Err(AppError::Config { message: owned("Environment provider is read-only"), field: owned("provider") })
    }

    /// Deleting is refused: the environment is read-only.
    pub fn delete(&self, key: &str) -> (r: Result<bool, AppError>)
        ensures
            r matches Err(e) && read_only_error(e),
    {
        Err(AppError::Config { message: owned("Environment provider is read-only"), field: owned("provider") })
    }

    /// Nothing to reload: the environment is read at each lookup.
    pub fn reload(&mut self) -> (r: Result<(), AppError>)
        ensures
            r is Ok,
            *final(self) == *old(self),
    {
        Ok(())
    }

    /// The provider's description.
    pub fn provider_metadata(&self) -> (r: &ProviderMetadata)
        ensures
            *r == self.provider_metadata,
    {
        &self.provider_metadata
    }

    /// A healthy report with the provider type and prefix, answering in
    /// five milliseconds.
    pub fn health_check(&self) -> (r: Result<ProviderHealth, AppError>)
        ensures
            r matches Ok(h) && h.status == HealthStatus::Healthy
                && h.message@ == "Environment provider is healthy"@
                && h.response_time_ms == Some(5u64)
                && h.details@.len() == (if self.prefix is Some { 2int } else { 1int })
                && h.details@[0].0@ == "provider_type"@ && h.details@[0].1@ == "environment"@
                && (self.prefix matches Some(p) ==> h.details@[1].0@ == "prefix"@ && h.details@[1].1@ == p@),
    {
        let mut details: Vec<(String, String)> = Vec::new();
        details.push((owned("provider_type"), owned("environment")));
        if let Some(p) = &self.prefix {
            details.push((owned("prefix"), p.clone()));
        }
        Ok(ProviderHealth {
            status: HealthStatus::Healthy,
            message: owned("Environment provider is healthy"),
            last_check_ms: now_millis(),
            response_time_ms: Some(5),
            details,
        })
    }
}

/// Whether `list_keys` with `pattern` selects `key`: `*` in the pattern
/// becomes `.*` and the result is used as a regular expression; where that
/// does not compile, the key must contain the pattern as it is.
pub open spec fn key_selected(pattern: Seq<char>, key: Seq<char>) -> bool {
    let rp = replace_spec(pattern, "*"@, ".*"@);
    match regex_error_text(rp) {
        None => regex_match_result(rp, key) == Some(true),
        Some(_) => contains_spec(key, pattern),
    }
}

/// An in-memory configuration provider: values and their metadata by
/// key.
pub struct MemoryConfigProvider {
    data: Vec<(String, ConfigValue)>,
    metadata: Vec<(String, ConfigMetadata)>,
    provider_metadata: ProviderMetadata,
}

impl MemoryConfigProvider {
    /// The values by key.
    pub closed spec fn data_map(&self) -> Map<Seq<char>, ConfigValue> {
        as_map(self.data@)
    }

    /// The keys of the values, in order of first insertion.
    pub closed spec fn data_keys(&self) -> Seq<Seq<char>> {
        key_seq(self.data@)
    }

    /// The metadata by key.
    pub closed spec fn meta_map(&self) -> Map<Seq<char>, ConfigMetadata> {
        as_map(self.metadata@)
    }

    /// The provider's description.
    pub closed spec fn spec_provider_metadata(&self) -> ProviderMetadata {
        self.provider_metadata
    }

    /// Each key is held once among the values and once among the
    /// metadata.
    pub closed spec fn wf(&self) -> bool {
        keys_unique(self.data@) && keys_unique(self.metadata@)
    }

    /// An empty provider named `name`: read, write and fast, version
    /// 1.0.0, writable, without watching or encryption.
    pub fn new(name: &str) -> (r: MemoryConfigProvider)
        ensures
            r.wf(),
            r.data_map() == Map::<Seq<char>, ConfigValue>::empty(),
            r.meta_map() == Map::<Seq<char>, ConfigMetadata>::empty(),
            r.spec_provider_metadata().name@ == name@,
            r.spec_provider_metadata().version@ == "1.0.0"@,
            r.spec_provider_metadata().description@ == "In-memory configuration provider"@,
            string_views(r.spec_provider_metadata().capabilities@) == seq!["read"@, "write"@, "fast"@],
            r.spec_provider_metadata().supported_formats@.len() == 0,
            !r.spec_provider_metadata().read_only,
            !r.spec_provider_metadata().supports_watching,
            !r.spec_provider_metadata().supports_encryption,
    {
        let mut capabilities: Vec<String> = Vec::new();
        capabilities.push(owned("read"));
        capabilities.push(owned("write"));
        capabilities.push(owned("fast"));
        assert(string_views(capabilities@) =~= seq!["read"@, "write"@, "fast"@]);
        let r = MemoryConfigProvider {
            data: Vec::new(),
            metadata: Vec::new(),
            provider_metadata: ProviderMetadata {
                name: owned(name),
                version: owned("1.0.0"),
                description: owned("In-memory configuration provider"),
                capabilities,
                supported_formats: Vec::new(),
                read_only: false,
                supports_watching: false,
                supports_encryption: false,
            },
        };
        assert(as_map(r.data@) =~= Map::<Seq<char>, ConfigValue>::empty());
        assert(as_map(r.metadata@) =~= Map::<Seq<char>, ConfigMetadata>::empty());
        r
    }

    /// Stores each value with fresh metadata (source `memory`, the value's
    /// type).
    pub fn set_initial_values(&mut self, values: Vec<(String, ConfigValue)>)
        requires
            old(self).wf(),
            keys_unique(values@),
        ensures
            final(self).wf(),
            final(self).spec_provider_metadata() == old(self).spec_provider_metadata(),
            final(self).data_map() == old(self).data_map().union_prefer_right(as_map(values@)),
            final(self).meta_map().dom() == old(self).meta_map().dom().union(as_map(values@).dom()),
            forall|k: Seq<char>| #[trigger] as_map(values@).contains_key(k) ==>
                final(self).meta_map()[k].key@ == k && final(self).meta_map()[k].source@ == "memory"@
                && final(self).meta_map()[k].value_type@ == as_map(values@)[k].spec_value_type_name()
                && final(self).meta_map()[k].version == 1,
            forall|k: Seq<char>| #[trigger] old(self).meta_map().contains_key(k) && !as_map(values@).contains_key(k) ==>
                final(self).meta_map()[k] == old(self).meta_map()[k],
    {
        let ghost orig = values@;
        let ghost d0 = as_map(self.data@);
        let ghost m0 = as_map(self.metadata@);
        let mut rest = values;
        let n = rest.len();
        let mut i: usize = 0;
        assert(as_map(orig.subrange(0, 0)) =~= Map::<Seq<char>, ConfigValue>::empty());
        assert(d0.union_prefer_right(Map::<Seq<char>, ConfigValue>::empty()) =~= d0);
        assert(m0.dom().union(Set::<Seq<char>>::empty()) =~= m0.dom());
        while i < n
            invariant
                n == orig.len(),
                i <= n,
                rest@ == orig.subrange(i as int, n as int),
                keys_unique(orig),
                self.wf(),
                self.provider_metadata == old(self).provider_metadata,
                as_map(self.data@) == d0.union_prefer_right(as_map(orig.subrange(0, i as int))),
                as_map(self.metadata@).dom() == m0.dom().union(as_map(orig.subrange(0, i as int)).dom()),
                forall|k: Seq<char>| #[trigger] as_map(orig.subrange(0, i as int)).contains_key(k) ==>
                    as_map(self.metadata@)[k].key@ == k && as_map(self.metadata@)[k].source@ == "memory"@
                    && as_map(self.metadata@)[k].value_type@ == as_map(orig.subrange(0, i as int))[k].spec_value_type_name()
                    && as_map(self.metadata@)[k].version == 1,
                forall|k: Seq<char>| #[trigger] m0.contains_key(k) && !as_map(orig.subrange(0, i as int)).contains_key(k) ==>
                    as_map(self.metadata@)[k] == m0[k],
            decreases n - i,
        {
            let (key, value) = rest.remove(0);
            let ghost pre = orig.subrange(0, i as int);
            let ghost nxt = orig.subrange(0, i + 1);
            proof {
                assert(rest@ =~= orig.subrange(i + 1, n as int));
                assert((key, value) == orig[i as int]);
                assert(nxt =~= pre.push(orig[i as int]));
                assert(!has_key(pre, key@)) by {
                    if has_key(pre, key@) {
                        let q = choose|q: int| 0 <= q < pre.len() && #[trigger] pre[q].0@ == key@;
                        assert(orig[q].0@ == orig[i as int].0@);
                    }
                }
                assert(keys_unique(nxt));
                assert(as_map(nxt) =~= as_map(pre).insert(key@, value)) by {
                    assert forall|k: Seq<char>| #[trigger] as_map(nxt).contains_key(k) == as_map(pre).insert(key@, value).contains_key(k) by {
                        if has_key(nxt, k) {
                            let q = choose|q: int| 0 <= q < nxt.len() && #[trigger] nxt[q].0@ == k;
                            if q < i { assert(pre[q].0@ == k); }
                        }
                        if has_key(pre, k) {
                            let q = choose|q: int| 0 <= q < pre.len() && #[trigger] pre[q].0@ == k;
                            assert(nxt[q].0@ == k);
                        }
                        if k == key@ { assert(nxt[i as int].0@ == k); }
                    }
                    assert forall|k: Seq<char>| #[trigger] as_map(nxt).contains_key(k) implies as_map(nxt)[k] == as_map(pre).insert(key@, value)[k] by {
                        let q = index_of_key(nxt, k);
                        lemma_index_of_key(nxt, q);
                        if q < i { lemma_index_of_key(pre, q); }
                    }
                }
            }
            let vtype = value.value_type_name();
            let meta = ConfigMetadata::new(key.clone(), owned("memory")).with_value_type(vtype);
            let k2 = key.clone();
            insert_value(&mut self.data, key, value);
            insert_value(&mut self.metadata, k2, meta);
            proof {
                assert(as_map(self.data@) =~= d0.union_prefer_right(as_map(nxt)));
                assert(as_map(self.metadata@).dom() =~= m0.dom().union(as_map(nxt).dom()));
            }
            i = i + 1;
        }
        assert(orig.subrange(0, i as int) =~= orig);
    }

    /// A copy of the value of `key`, if any.
    pub fn get(&self, key: &str) -> (r: Result<Option<ConfigValue>, AppError>)
        requires
            self.wf(),
        ensures
            match r {
                Ok(Some(v)) => self.data_map().contains_key(key@) && same_value(self.data_map()[key@], v),
                Ok(None) => !self.data_map().contains_key(key@),
                Err(_) => false,
            },
    {
        match get_value(&self.data, key) {
            Some(v) => Ok(Some(clone_value(v))),
            None => Ok(None),
        }
    }

    /// Stores `value` under `key`; its metadata (new with source `memory`
    /// if there was none) is touched and takes the value's type.
    pub fn set(&mut self, key: &str, value: ConfigValue) -> (r: Result<(), AppError>)
        requires
            old(self).wf(),
            old(self).meta_map().contains_key(key@) ==> old(self).meta_map()[key@].version < u64::MAX,
        ensures
            final(self).wf(),
            r is Ok,
            final(self).spec_provider_metadata() == old(self).spec_provider_metadata(),
            final(self).data_map() == old(self).data_map().insert(key@, value),
            final(self).meta_map().dom() == old(self).meta_map().dom().insert(key@),
            final(self).meta_map()[key@].value_type@ == value.spec_value_type_name(),
            final(self).meta_map()[key@].version == if old(self).meta_map().contains_key(key@) {
                old(self).meta_map()[key@].version + 1
            } else {
                2
            },
            old(self).meta_map().contains_key(key@) ==> final(self).meta_map()[key@].key@ == old(self).meta_map()[key@].key@
                && final(self).meta_map()[key@].source@ == old(self).meta_map()[key@].source@,
            !old(self).meta_map().contains_key(key@) ==> final(self).meta_map()[key@].key@ == key@
                && final(self).meta_map()[key@].source@ == "memory"@,
            forall|k: Seq<char>| k != key@ && #[trigger] old(self).meta_map().contains_key(k) ==> final(self).meta_map()[k] == old(self).meta_map()[k],
    {
        let mut meta = match get_value(&self.metadata, key) {
            Some(m) => copy_metadata(m),
            None => ConfigMetadata::new(owned(key), owned("memory")),
        };
        meta.touch();
        meta.value_type = owned(value.value_type_name());
        insert_value(&mut self.data, owned(key), value);
        insert_value(&mut self.metadata, owned(key), meta);
        Ok(())
    }

    /// Removes `key` and its metadata; whether either was there.
    pub fn delete(&mut self, key: &str) -> (r: Result<bool, AppError>)
        requires
            old(self).wf(),
        ensures
            final(self).wf(),
            final(self).spec_provider_metadata() == old(self).spec_provider_metadata(),
            final(self).data_map() == old(self).data_map().remove(key@),
            final(self).meta_map() == old(self).meta_map().remove(key@),
            r == Ok::<bool, AppError>(old(self).data_map().contains_key(key@) || old(self).meta_map().contains_key(key@)),
    {
        let a = remove_value(&mut self.data, key);
        let b = remove_value(&mut self.metadata, key);
        Ok(a.is_some() || b.is_some())
    }

    /// The keys of the values, in order of first insertion; with a
    /// pattern, those it selects.
    pub fn list_keys(&self, pattern: Option<&str>) -> (r: Result<Vec<String>, AppError>)
        requires
            self.wf(),
        ensures
            r matches Ok(v) && string_views(v@) == self.data_keys().filter(
                |k: Seq<char>| match pattern { Some(p) => key_selected(p@, k), None => true }),
    {
        let mut out: Vec<String> = Vec::new();
        let ghost sel = |k: Seq<char>| match pattern { Some(p) => key_selected(p@, k), None => true };
        let rp = match pattern {
            Some(p) => replace_all(p, "*", ".*"),
            None => String::new(),
        };
        let compiles = match pattern {
            Some(_) => regex_error(rp.as_str()).is_none(),
            None => true,
        };
        proof {
            reveal_strlit("*");
            reveal_strlit(".*");
        }
        let mut i: usize = 0;
        assert(key_seq(self.data@.subrange(0, 0)).filter(sel) =~= Seq::<Seq<char>>::empty()) by {
            reveal(Seq::filter);
        }
        while i < self.data.len()
            invariant
                i <= self.data@.len(),
                string_views(out@) == key_seq(self.data@.subrange(0, i as int)).filter(sel),
                sel == (|k: Seq<char>| match pattern { Some(p) => key_selected(p@, k), None => true }),
                pattern matches Some(p) ==> rp@ == replace_spec(p@, "*"@, ".*"@)
                    && compiles == (regex_error_text(rp@) is None)
                    && (compiles ==> forall|t: Seq<char>| #[trigger] regex_match_result(rp@, t) is Some),
            decreases self.data@.len() - i,
        {
            let key = &self.data[i].0;
            let ghost pre = key_seq(self.data@.subrange(0, i as int));
            assert(key_seq(self.data@.subrange(0, i + 1)) =~= pre.push(key@));
            proof {
                pre.lemma_filter_push(key@, sel);
            }
            let take = match pattern {
                Some(p) => {
                    if compiles {
                        match regex_match(rp.as_str(), key.as_str()) {
                            Some(m) => m,
                            None => false,
                        }
                    } else {
                        contains(key.as_str(), p)
                    }
                },
                None => true,
            };
            if take {
                let ghost before = out@;
                out.push(key.clone());
                assert(string_views(out@) =~= string_views(before).push(key@));
            }
            i = i + 1;
        }
        assert(self.data@.subrange(0, i as int) =~= self.data@);
        Ok(out)
    }

    /// Whether `key` has a value.
    pub fn key_exists(&self, key: &str) -> (r: Result<bool, AppError>)
        requires
            self.wf(),
        ensures
            r == Ok::<bool, AppError>(self.data_map().contains_key(key@)),
    {
        Ok(get_value(&self.data, key).is_some())
    }

    /// A copy of the metadata of `key`, if any.
    pub fn get_metadata(&self, key: &str) -> (r: Result<Option<ConfigMetadata>, AppError>)
        requires
            self.wf(),
        ensures
            match r {
                Ok(Some(m)) => self.meta_map().contains_key(key@) && same_metadata(self.meta_map()[key@], m),
                Ok(None) => !self.meta_map().contains_key(key@),
                Err(_) => false,
            },
    {
        match get_value(&self.metadata, key) {
            Some(m) => Ok(Some(copy_metadata(m))),
            None => Ok(None),
        }
    }

    /// The provider's description.
    pub fn provider_metadata(&self) -> (r: &ProviderMetadata)
        ensures
            *r == self.spec_provider_metadata(),
    {
        &self.provider_metadata
    }

    /// Nothing to reload.
    pub fn reload(&mut self) -> (r: Result<(), AppError>)
        ensures
            r is Ok,
            final(self).data_map() == old(self).data_map(),
            final(self).meta_map() == old(self).meta_map(),
    {
        Ok(())
    }

    /// A healthy report with the number of keys, answering in a
    /// millisecond.
    pub fn health_check(&self) -> (r: Result<ProviderHealth, AppError>)
        requires
            self.wf(),
        ensures
            r matches Ok(h) && h.status == HealthStatus::Healthy
                && h.message@ == "Memory provider is healthy"@
                && h.response_time_ms == Some(1u64)
                && h.details@.len() == 1
                && h.details@[0].0@ == "key_count"@
                && h.details@[0].1@ == decimal_spec(self.data_keys().len()),
    {
        let mut details: Vec<(String, String)> = Vec::new();
        let count = u64_to_decimal(self.data.len() as u64);
        details.push((owned("key_count"), count));
        Ok(ProviderHealth {
            status: HealthStatus::Healthy,
            message: owned("Memory provider is healthy"),
            last_check_ms: now_millis(),
            response_time_ms: Some(1),
            details,
        })
    }
}

} // verus!
