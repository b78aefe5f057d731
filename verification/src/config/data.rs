//! Loaded configuration: values by key with their metadata, and where they
//! came from. Instants are milliseconds since the Unix epoch.

use vstd::prelude::*;
use crate::assoc::{as_map, get_value, has_key, insert_value, keys_unique, remove_value};
use crate::clock::now_millis;
use crate::config::traits::{ChangeType, ConfigFormat};
use crate::config::value::ConfigValue;
use crate::text::owned;

verus! {

/// Where a set of values was read from.
#[derive(Debug)]
pub struct SourceInfo {
    pub source_type: String,
    pub source_location: String,
    pub format: Option<ConfigFormat>,
    pub encoding: Option<String>,
    pub last_modified: Option<i64>,
    pub etag: Option<String>,
    pub size_bytes: Option<u64>,
    pub checksum: Option<String>,
}

/// What is known of one configuration key.
#[derive(Debug)]
pub struct ConfigMetadata {
    pub key: String,
    pub value_type: String,
    pub source: String,
    pub created_at: i64,
    pub updated_at: i64,
    pub version: u64,
    pub checksum: Option<String>,
    pub tags: Vec<String>,
    pub description: Option<String>,
    pub sensitive: bool,
    pub encrypted: bool,
}

impl ConfigMetadata {
    /// Metadata of a key first seen now: type unknown, version 1.
    pub fn new(key: String, source: String) -> (r: ConfigMetadata)
        ensures
            r.key@ == key@,
            r.source@ == source@,
            r.value_type@ == "unknown"@,
            r.created_at == r.updated_at,
            r.version == 1,
            r.checksum is None,
            r.tags@.len() == 0,
            r.description is None,
            !r.sensitive,
            !r.encrypted,
    {
        let now = now_millis();
        ConfigMetadata {
            key,
            value_type: owned("unknown"),
            source,
            created_at: now,
            updated_at: now,
            version: 1,
            checksum: None,
            tags: Vec::new(),
            description: None,
            sensitive: false,
            encrypted: false,
        }
    }

    /// The same metadata with another value type.
    pub fn with_value_type(self, value_type: &str) -> (r: ConfigMetadata)
        ensures
            r.value_type@ == value_type@,
            r.key == self.key,
            r.source == self.source,
            r.created_at == self.created_at,
            r.updated_at == self.updated_at,
            r.version == self.version,
            r.checksum == self.checksum,
            r.tags == self.tags,
            r.description == self.description,
            r.sensitive == self.sensitive,
            r.encrypted == self.encrypted,
    {
        ConfigMetadata { value_type: owned(value_type), ..self }
    }

    /// The same metadata with a description.
    pub fn with_description(self, description: &str) -> (r: ConfigMetadata)
        ensures
            r.description matches Some(d) && d@ == description@,
            r.key == self.key,
            r.value_type == self.value_type,
            r.source == self.source,
            r.created_at == self.created_at,
            r.updated_at == self.updated_at,
            r.version == self.version,
            r.checksum == self.checksum,
            r.tags == self.tags,
            r.sensitive == self.sensitive,
            r.encrypted == self.encrypted,
    {
        ConfigMetadata { description: Some(owned(description)), ..self }
    }

    /// The same metadata with other tags.
    pub fn with_tags(self, tags: Vec<String>) -> (r: ConfigMetadata)
        ensures
            r == (ConfigMetadata { tags, ..self }),
    {
        ConfigMetadata { tags, ..self }
    }

    /// The same metadata, marked sensitive or not.
    pub fn with_sensitive(self, sensitive: bool) -> (r: ConfigMetadata)
        ensures
            r == (ConfigMetadata { sensitive, ..self }),
    {
        ConfigMetadata { sensitive, ..self }
    }

    /// The same metadata, marked encrypted or not.
    pub fn with_encrypted(self, encrypted: bool) -> (r: ConfigMetadata)
        ensures
            r == (ConfigMetadata { encrypted, ..self }),
    {
        ConfigMetadata { encrypted, ..self }
    }

    /// Records a change now: the version goes up by one.
    pub fn touch(&mut self)
        requires
            old(self).version < u64::MAX,
        ensures
            final(self).version == old(self).version + 1,
            *final(self) == (ConfigMetadata { version: final(self).version, updated_at: final(self).updated_at, ..*old(self) }),
    {
        self.updated_at = now_millis();
        self.version = self.version + 1;
    }
}

/// A set of configuration values with their metadata.
#[derive(Debug)]
pub struct ConfigData {
    pub values: Vec<(String, ConfigValue)>,
    pub metadata: Vec<(String, ConfigMetadata)>,
    pub source_info: SourceInfo,
    pub checksum: Option<String>,
    pub loaded_at: i64,
}

impl ConfigData {
    /// Each key is held once among the values and once among the metadata.
    pub open spec fn wf(&self) -> bool {
        keys_unique(self.values@) && keys_unique(self.metadata@)
    }

    /// The values by key.
    pub open spec fn value_map(&self) -> Map<Seq<char>, ConfigValue> {
        as_map(self.values@)
    }

    /// The metadata by key.
    pub open spec fn metadata_map(&self) -> Map<Seq<char>, ConfigMetadata> {
        as_map(self.metadata@)
    }

    /// No values, loaded now.
    pub fn new(source_info: SourceInfo) -> (r: ConfigData)
        ensures
            r.wf(),
            r.values@.len() == 0,
            r.metadata@.len() == 0,
            r.source_info == source_info,
            r.checksum is None,
    {
        ConfigData { values: Vec::new(), metadata: Vec::new(), source_info, checksum: None, loaded_at: now_millis() }
    }

    /// The same data with other values.
    pub fn with_values(self, values: Vec<(String, ConfigValue)>) -> (r: ConfigData)
        ensures
            r == (ConfigData { values, ..self }),
    {
        ConfigData { values, ..self }
    }

    /// The value of a key.
    pub fn get(&self, key: &str) -> (r: Option<&ConfigValue>)
        requires
            self.wf(),
        ensures
            match r {
                Some(v) => self.value_map().contains_key(key@) && *v == self.value_map()[key@],
                None => !self.value_map().contains_key(key@),
            },
    {
        get_value(&self.values, key)
    }

    /// The metadata of a key.
    pub fn get_metadata(&self, key: &str) -> (r: Option<&ConfigMetadata>)
        requires
            self.wf(),
        ensures
            match r {
                Some(m) => self.metadata_map().contains_key(key@) && *m == self.metadata_map()[key@],
                None => !self.metadata_map().contains_key(key@),
            },
    {
        get_value(&self.metadata, key)
    }

    /// Sets the value and the metadata of a key.
    pub fn insert(&mut self, key: String, value: ConfigValue, metadata: ConfigMetadata)
        requires
            old(self).wf(),
        ensures
            final(self).wf(),
            final(self).value_map() == old(self).value_map().insert(key@, value),
            final(self).metadata_map() == old(self).metadata_map().insert(key@, metadata),
            final(self).source_info == old(self).source_info,
            final(self).checksum == old(self).checksum,
            final(self).loaded_at == old(self).loaded_at,
    {
        insert_value(&mut self.values, key.clone(), value);
        insert_value(&mut self.metadata, key, metadata);
    }

    /// Removes a key. The value goes even when the key has no metadata, but
    /// only a key with both gives them back.
    pub fn remove(&mut self, key: &str) -> (r: Option<(ConfigValue, ConfigMetadata)>)
        requires
            old(self).wf(),
        ensures
            final(self).wf(),
            final(self).value_map() == old(self).value_map().remove(key@),
            final(self).metadata_map() == if old(self).value_map().contains_key(key@) {
                old(self).metadata_map().remove(key@)
            } else {
                old(self).metadata_map()
            },
            match r {
                Some((v, m)) => old(self).value_map().contains_key(key@) && v == old(self).value_map()[key@]
                    && old(self).metadata_map().contains_key(key@) && m == old(self).metadata_map()[key@],
                None => !old(self).value_map().contains_key(key@) || !old(self).metadata_map().contains_key(key@),
            },
            final(self).source_info == old(self).source_info,
            final(self).checksum == old(self).checksum,
            final(self).loaded_at == old(self).loaded_at,
    {
        let value = match remove_value(&mut self.values, key) {
            Some(v) => v,
            None => return None,
        };
        let metadata = match remove_value(&mut self.metadata, key) {
            Some(m) => m,
            None => return None,
        };
        Some((value, metadata))
    }

    /// Whether a key has a value.
    pub fn contains_key(&self, key: &str) -> (r: bool)
        requires
            self.wf(),
        ensures
            r == self.value_map().contains_key(key@),
    {
        get_value(&self.values, key).is_some()
    }

    /// The keys that have values.
    pub fn keys(&self) -> (r: Vec<String>)
        ensures
            r@.map_values(|k: String| k@) == self.values@.map_values(|e: (String, ConfigValue)| e.0@),
    {
        let mut out: Vec<String> = Vec::new();
        let mut i: usize = 0;
        while i < self.values.len()
            invariant
                i <= self.values@.len(),
                out@.map_values(|k: String| k@) == self.values@.subrange(0, i as int).map_values(
                    |e: (String, ConfigValue)| e.0@,
                ),
            decreases self.values@.len() - i,
        {
            let ghost before = out@;
            out.push(self.values[i].0.clone());
            assert(out@.map_values(|k: String| k@) =~= before.map_values(|k: String| k@).push(self.values@[i as int].0@));
            assert(self.values@.subrange(0, i + 1).map_values(|e: (String, ConfigValue)| e.0@)
                =~= self.values@.subrange(0, i as int).map_values(|e: (String, ConfigValue)| e.0@).push(self.values@[i as int].0@));
            i = i + 1;
        }
        assert(self.values@.subrange(0, i as int) =~= self.values@);
        out
    }

    /// Whether there is no value.
    pub fn is_empty(&self) -> (r: bool)
        ensures
            r == (self.values@.len() == 0),
    {
        self.values.len() == 0
    }

    /// The number of values.
    pub fn len(&self) -> (r: usize)
        ensures
            r == self.values@.len(),
    {
        self.values.len()
    }
}

/// A change of one configuration key.
#[derive(Debug)]
pub struct ConfigChangeEvent {
    pub key: String,
    pub old_value: Option<ConfigValue>,
    pub new_value: Option<ConfigValue>,
    pub change_type: ChangeType,
    pub source: String,
    pub timestamp: i64,
    pub user_id: Option<String>,
    pub session_id: Option<String>,
    pub request_id: Option<String>,
}

} // verus!
