//! A configuration provider backed by one file: its values are the flat
//! map of the parsed document, and what it writes back is that map nested
//! at the dots of the keys. Reading the file, parsing it and writing the
//! document out are the application's part; this provider decides what is
//! stored, what is answered and what is to be written.

use vstd::prelude::*;
use crate::assoc::{as_map, get_value, index_of_key, insert_value, key_seq, keys_unique, lemma_index_of_key, remove_value};
use crate::config::data::ConfigMetadata;
use crate::config::layout::{
    copies_of, entries_wf, entries_tree, insert_pairs, json_flat, json_to_flat_map, lemma_flat_map_wf,
    nest_dotted, nest_dotted_spec, same_entries_cv,
};
use crate::config::manager::{copy_metadata, same_metadata};
use crate::config::traits::{ConfigFormat, HealthStatus, ProviderHealth, ProviderMetadata};
use crate::config::value::{ConfigValue, clone_entries, clone_value, lemma_same_value_wf, objects_wf, same_value};
use crate::clock::now_millis;
use crate::error::types::AppError;
use crate::text::{contains, contains_spec, owned, push_str, string_views};

verus! {

/// The error for a format the provider cannot read or write.
pub open spec fn format_error(what: Seq<char>, format: ConfigFormat) -> (Seq<char>, Seq<char>) {
    (what + format.spec_debug_name(), "format"@)
}

/// The formats the provider parses.
pub open spec fn parsed_format(format: ConfigFormat) -> bool {
    format == ConfigFormat::Json || format == ConfigFormat::Yaml || format == ConfigFormat::Toml
}

/// The formats the provider writes.
pub open spec fn written_format(format: ConfigFormat) -> bool {
    format == ConfigFormat::Json || format == ConfigFormat::Yaml
}

/// `r` is a configuration error with the given message and field.
pub open spec fn config_error_is(r: AppError, message: Seq<char>, field: Seq<char>) -> bool {
    r matches AppError::Config { message: m, field: f } && m@ == message && f@ == field
}

/// A configuration error.
fn config_error(message: String, field: &str) -> (r: AppError)
    ensures
        config_error_is(r, message@, field@),
{
    AppError::Config { message, field: owned(field) }
}

/// Values and their metadata by key, read from one file.
pub struct FileConfigProvider {
    file_path: String,
    format: ConfigFormat,
    data: Vec<(String, ConfigValue)>,
    metadata: Vec<(String, ConfigMetadata)>,
    provider_metadata: ProviderMetadata,
    last_modified: Option<i64>,
}

impl FileConfigProvider {
    /// The values by key.
    pub closed spec fn data_map(&self) -> Map<Seq<char>, ConfigValue> {
        as_map(self.data@)
    }

    /// The values, in order of first insertion.
    pub closed spec fn data_entries(&self) -> Seq<(String, ConfigValue)> {
        self.data@
    }

    /// The metadata by key.
    pub closed spec fn meta_map(&self) -> Map<Seq<char>, ConfigMetadata> {
        as_map(self.metadata@)
    }

    /// The file's path.
    pub closed spec fn spec_file_path(&self) -> Seq<char> {
        self.file_path@
    }

    /// The file's format.
    pub closed spec fn spec_format(&self) -> ConfigFormat {
        self.format
    }

    /// When the file was last modified, in milliseconds since the Unix
    /// epoch, if known.
    pub closed spec fn spec_last_modified(&self) -> Option<i64> {
        self.last_modified
    }

    /// The provider's description.
    pub closed spec fn spec_provider_metadata(&self) -> ProviderMetadata {
        self.provider_metadata
    }

    /// Each key is held once among the values and once among the metadata,
    /// and every object among the values holds each key once.
    pub closed spec fn wf(&self) -> bool {
        keys_unique(self.data@) && keys_unique(self.metadata@) && entries_wf(self.data@)
    }

    /// An empty provider for the file at `file_path` in `format`: read,
    /// write and watching, writable, with watching and without encryption.
    pub fn new(file_path: String, format: ConfigFormat) -> (r: Self)
        ensures
            r.wf(),
            r.data_map() == Map::<Seq<char>, ConfigValue>::empty(),
            r.meta_map() == Map::<Seq<char>, ConfigMetadata>::empty(),
            r.spec_file_path() == file_path@,
            r.spec_format() == format,
            r.spec_last_modified() is None,
            r.spec_provider_metadata().name@ == "file"@,
            r.spec_provider_metadata().version@ == "1.0.0"@,
            r.spec_provider_metadata().description@ == "File configuration provider for "@ + file_path@,
            string_views(r.spec_provider_metadata().capabilities@) == seq!["read"@, "write"@, "watching"@],
            r.spec_provider_metadata().supported_formats@ == seq![format],
            !r.spec_provider_metadata().read_only,
            r.spec_provider_metadata().supports_watching,
            !r.spec_provider_metadata().supports_encryption,
    {
        let mut description = owned("File configuration provider for ");
        push_str(&mut description, file_path.as_str());
        let mut capabilities: Vec<String> = Vec::new();
        capabilities.push(owned("read"));
        capabilities.push(owned("write"));
        capabilities.push(owned("watching"));
        let mut formats: Vec<ConfigFormat> = Vec::new();
        formats.push(format);
        assert(string_views(capabilities@) =~= seq!["read"@, "write"@, "watching"@]);
        assert(formats@ =~= seq![format]);
        let r = FileConfigProvider {
            file_path,
            format,
            data: Vec::new(),
            metadata: Vec::new(),
            provider_metadata: ProviderMetadata {
                name: owned("file"),
                version: owned("1.0.0"),
                description,
                capabilities,
                supported_formats: formats,
                read_only: false,
                supports_watching: true,
                supports_encryption: false,
            },
            last_modified: None,
        };
        assert(as_map(r.data@) =~= Map::<Seq<char>, ConfigValue>::empty());
        assert(as_map(r.metadata@) =~= Map::<Seq<char>, ConfigMetadata>::empty());
        r
    }

    /// Takes in the parsed file: for a format it parses, the values become
    /// the flat map of the document (nested keys joined by dots, list items
    /// by position), each with new metadata from this file carrying the
    /// value's type; the modification time is recorded when known. An
    /// unparsable format, or a parse error, leaves everything as it was.
    pub fn load_parsed(&mut self, parsed: Result<ConfigValue, AppError>, last_modified: Option<i64>) -> (r: Result<(), AppError>)
        requires
            old(self).wf(),
        ensures
            final(self).wf(),
            final(self).spec_file_path() == old(self).spec_file_path(),
            final(self).spec_format() == old(self).spec_format(),
            final(self).spec_provider_metadata() == old(self).spec_provider_metadata(),
            !parsed_format(old(self).spec_format()) ==> (r matches Err(e)
                && config_error_is(e, "Unsupported format: "@ + old(self).spec_format().spec_debug_name(), "format"@)),
            parsed_format(old(self).spec_format()) && parsed is Err ==> (r matches Err(e) && parsed == Err::<ConfigValue, AppError>(e)),
            r is Err ==> final(self).data_map() == old(self).data_map() && final(self).meta_map() == old(self).meta_map()
                && final(self).spec_last_modified() == old(self).spec_last_modified(),
            parsed_format(old(self).spec_format()) && parsed is Ok ==> r is Ok,
            r is Ok ==> (parsed matches Ok(v) && copies_of(final(self).data_entries(),
                insert_pairs(Map::empty(), json_flat(v, Seq::empty())))),
            r is Ok ==> final(self).meta_map().dom() == final(self).data_map().dom(),
            r is Ok ==> forall|k: Seq<char>| #[trigger] final(self).meta_map().contains_key(k) ==>
                final(self).meta_map()[k].key@ == k
                && final(self).meta_map()[k].source@ == old(self).spec_file_path()
                && final(self).meta_map()[k].value_type@ == final(self).data_map()[k].spec_value_type_name()
                && final(self).meta_map()[k].version == 1,
            r is Ok ==> final(self).spec_last_modified() == if last_modified is Some { last_modified } else { old(self).spec_last_modified() },
    {
        match self.format {
            ConfigFormat::Json | ConfigFormat::Yaml | ConfigFormat::Toml => {},
            _ => {
                let mut message = owned("Unsupported format: ");
                push_str(&mut message, self.format.debug_name());
                return Err(config_error(message, "format"));
            },
        }
        let value = match parsed {
            Ok(v) => v,
            Err(e) => return Err(e),
        };
        proof {
            reveal_strlit("");
            assert(""@ =~= Seq::<char>::empty());
        }
        let values = json_to_flat_map(&value, "");
        proof {
            lemma_flat_map_wf(values@, value);
        }
        let mut metadata: Vec<(String, ConfigMetadata)> = Vec::new();
        let mut i: usize = 0;
        proof {
            assert(as_map(metadata@) =~= Map::<Seq<char>, ConfigMetadata>::empty());
        }
        while i < values.len()
            invariant
                i <= values@.len(),
                keys_unique(values@),
                keys_unique(metadata@),
                forall|k: Seq<char>| #[trigger] as_map(metadata@).contains_key(k) <==>
                    exists|j: int| 0 <= j < i && values@[j].0@ == k,
                forall|k: Seq<char>| #[trigger] as_map(metadata@).contains_key(k) ==>
                    as_map(metadata@)[k].key@ == k
                    && as_map(metadata@)[k].source@ == self.file_path@
                    && as_map(metadata@)[k].value_type@ == as_map(values@)[k].spec_value_type_name()
                    && as_map(metadata@)[k].version == 1,
            decreases values@.len() - i,
        {
            let ghost before = as_map(metadata@);
            let key = values[i].0.clone();
            let meta = ConfigMetadata::new(values[i].0.clone(), self.file_path.clone())
                .with_value_type(values[i].1.value_type_name());
            proof {
                lemma_index_of_key(values@, i as int);
            }
            insert_value(&mut metadata, key, meta);
            proof {
                assert forall|k: Seq<char>| #[trigger] as_map(metadata@).contains_key(k) <==>
                    exists|j: int| 0 <= j < i + 1 && values@[j].0@ == k by {
                    if k == values@[i as int].0@ {
                        assert(0 <= i < i + 1 && values@[i as int].0@ == k);
                    } else if as_map(metadata@).contains_key(k) {
                        assert(before.contains_key(k));
                        let j = choose|j: int| 0 <= j < i && values@[j].0@ == k;
                        assert(0 <= j < i + 1);
                    } else {
                        assert(!before.contains_key(k));
                    }
                }
                assert forall|k: Seq<char>| #[trigger] as_map(metadata@).contains_key(k) implies
                    as_map(metadata@)[k].key@ == k
                    && as_map(metadata@)[k].source@ == self.file_path@
                    && as_map(metadata@)[k].value_type@ == as_map(values@)[k].spec_value_type_name()
                    && as_map(metadata@)[k].version == 1 by {
                    if k != values@[i as int].0@ {
                        assert(before.contains_key(k));
                    }
                }
            }
            i = i + 1;
        }
        proof {
            assert forall|k: Seq<char>| #[trigger] as_map(metadata@).contains_key(k) == as_map(values@).contains_key(k) by {
                if as_map(values@).contains_key(k) {
                    let j = index_of_key(values@, k);
                    lemma_index_of_key(values@, j);
                    assert(values@[j].0@ == k);
                }
                if as_map(metadata@).contains_key(k) {
                    let j = choose|j: int| 0 <= j < i && values@[j].0@ == k;
                    lemma_index_of_key(values@, j);
                }
            }
            assert(as_map(metadata@).dom() =~= as_map(values@).dom());
        }
        self.data = values;
        self.metadata = metadata;
        if last_modified.is_some() {
            self.last_modified = last_modified;
        }
        Ok(())
    }

    /// A copy of the value of `key`, if any.
    pub fn get(&self, key: &str) -> (r: Result<Option<ConfigValue>, AppError>)
        requires
            self.wf(),
        ensures
            match r {
                Ok(Some(v)) => self.data_map().contains_key(key@) && same_value(self.data_map()[key@], v),
                Ok(None) => !self.data_map().contains_key(key@),
                Err(_) => false,
            },
    {
        match get_value(&self.data, key) {
            Some(v) => Ok(Some(clone_value(v))),
            None => Ok(None),
        }
    }

    /// The document to write back: the values nested at the dots of their
    /// keys; an error for a format the provider does not write.
    pub fn document(&self) -> (r: Result<Vec<(String, ConfigValue)>, AppError>)
        requires
            self.wf(),
        ensures
            written_format(self.spec_format()) ==> (r matches Ok(d) && keys_unique(d@) && entries_wf(d@)
                && exists|c: Seq<(String, ConfigValue)>| same_entries_cv(self.data_entries(), c)
                    && #[trigger] entries_tree(d@) == nest_dotted_spec(c)),
            !written_format(self.spec_format()) ==> (r matches Err(e)
                && config_error_is(e, "Saving not supported for format: "@ + self.spec_format().spec_debug_name(), "format"@)),
    {
        match self.format {
            ConfigFormat::Json | ConfigFormat::Yaml => {},
            _ => {
                let mut message = owned("Saving not supported for format: ");
                push_str(&mut message, self.format.debug_name());
                return Err(config_error(message, "format"));
            },
        }
        let copy = clone_entries(&self.data);
        let ghost c = copy@;
        proof {
            assert forall|i: int| 0 <= i < c.len() implies objects_wf(#[trigger] c[i].1) by {
                assert(objects_wf(self.data@[i].1));
                lemma_same_value_wf(self.data@[i].1, c[i].1);
            }
            assert(same_entries_cv(self.data@, c));
        }
        let d = nest_dotted(copy);
        Ok(d)
    }

    /// Stores `value` under `key`; its metadata (new from this file if
    /// there was none) is touched and takes the value's type. Answers the
    /// document to write back, or the error for a format the provider does
    /// not write; the value is stored either way.
    pub fn set(&mut self, key: &str, value: ConfigValue) -> (r: Result<Vec<(String, ConfigValue)>, AppError>)
        requires
            old(self).wf(),
            objects_wf(value),
            old(self).meta_map().contains_key(key@) ==> old(self).meta_map()[key@].version < u64::MAX,
        ensures
            final(self).wf(),
            final(self).spec_file_path() == old(self).spec_file_path(),
            final(self).spec_format() == old(self).spec_format(),
            final(self).spec_provider_metadata() == old(self).spec_provider_metadata(),
            final(self).data_map() == old(self).data_map().insert(key@, value),
            final(self).meta_map().dom() == old(self).meta_map().dom().insert(key@),
            final(self).meta_map()[key@].value_type@ == value.spec_value_type_name(),
            final(self).meta_map()[key@].version == if old(self).meta_map().contains_key(key@) {
                old(self).meta_map()[key@].version + 1
            } else {
                2
            },
            !old(self).meta_map().contains_key(key@) ==> final(self).meta_map()[key@].key@ == key@
                && final(self).meta_map()[key@].source@ == old(self).spec_file_path(),
            forall|k: Seq<char>| k != key@ && #[trigger] old(self).meta_map().contains_key(k) ==> final(self).meta_map()[k] == old(self).meta_map()[k],
            written_format(old(self).spec_format()) ==> (r matches Ok(d) && keys_unique(d@)
                && exists|c: Seq<(String, ConfigValue)>| same_entries_cv(final(self).data_entries(), c)
                    && #[trigger] entries_tree(d@) == nest_dotted_spec(c)),
            !written_format(old(self).spec_format()) ==> r is Err,
    {
        let mut meta = match get_value(&self.metadata, key) {
            Some(m) => copy_metadata(m),
            None => ConfigMetadata::new(owned(key), self.file_path.clone()),
        };
        meta.touch();
        meta.value_type = owned(value.value_type_name());
        let ghost before = self.data@;
        let ghost vv = value;
        insert_value(&mut self.data, owned(key), value);
        insert_value(&mut self.metadata, owned(key), meta);
        proof {
            assert forall|i: int| 0 <= i < self.data@.len() implies objects_wf(#[trigger] self.data@[i].1) by {
                let k = self.data@[i].0@;
                lemma_index_of_key(self.data@, i);
                if k != key@ {
                    let q = index_of_key(before, k);
                    assert(as_map(before).contains_key(k));
                    assert(before[q].0@ == k);
                    lemma_index_of_key(before, q);
                    assert(objects_wf(before[q].1));
                }
            }
        }
        self.document()
    }

    /// Removes `key` and its metadata. Answers whether either was there
    /// and, if so, the document to write back (or the error for a format
    /// the provider does not write).
    pub fn delete(&mut self, key: &str) -> (r: Result<(bool, Option<Vec<(String, ConfigValue)>>), AppError>)
        requires
            old(self).wf(),
        ensures
            final(self).wf(),
            final(self).spec_file_path() == old(self).spec_file_path(),
            final(self).spec_format() == old(self).spec_format(),
            final(self).spec_provider_metadata() == old(self).spec_provider_metadata(),
            final(self).data_map() == old(self).data_map().remove(key@),
            final(self).meta_map() == old(self).meta_map().remove(key@),
            !(old(self).data_map().contains_key(key@) || old(self).meta_map().contains_key(key@))
                ==> r == Ok::<(bool, Option<Vec<(String, ConfigValue)>>), AppError>((false, None)),
            (old(self).data_map().contains_key(key@) || old(self).meta_map().contains_key(key@))
                && written_format(old(self).spec_format()) ==> (r matches Ok((true, Some(d))) && keys_unique(d@)
                && exists|c: Seq<(String, ConfigValue)>| same_entries_cv(final(self).data_entries(), c)
                    && #[trigger] entries_tree(d@) == nest_dotted_spec(c)),
            (old(self).data_map().contains_key(key@) || old(self).meta_map().contains_key(key@))
                && !written_format(old(self).spec_format()) ==> r is Err,
    {
        let ghost before = self.data@;
        let a = remove_value(&mut self.data, key);
        let b = remove_value(&mut self.metadata, key);
        proof {
            assert forall|i: int| 0 <= i < self.data@.len() implies objects_wf(#[trigger] self.data@[i].1) by {
                let k = self.data@[i].0@;
                lemma_index_of_key(self.data@, i);
                let q = index_of_key(before, k);
                assert(as_map(before).contains_key(k));
                assert(before[q].0@ == k);
                lemma_index_of_key(before, q);
                assert(objects_wf(before[q].1));
            }
        }
        if a.is_some() || b.is_some() {
            match self.document() {
                Ok(d) => Ok((true, Some(d))),
                Err(e) => Err(e),
            }
        } else {
            Ok((false, None))
        }
    }

    /// The keys of the values, in order of first insertion; with a
    /// pattern, those that contain it.
    pub fn list_keys(&self, pattern: Option<&str>) -> (r: Result<Vec<String>, AppError>)
        ensures
            r matches Ok(v) && string_views(v@) == key_seq(self.data_entries()).filter(
                |k: Seq<char>| match pattern { Some(p) => contains_spec(k, p@), None => true }),
    {
        let mut out: Vec<String> = Vec::new();
        let ghost sel = |k: Seq<char>| match pattern { Some(p) => contains_spec(k, p@), None => true };
        let mut i: usize = 0;
        assert(key_seq(self.data@.subrange(0, 0)).filter(sel) =~= Seq::<Seq<char>>::empty()) by {
            reveal(Seq::filter);
        }
        while i < self.data.len()
            invariant
                i <= self.data@.len(),
                string_views(out@) == key_seq(self.data@.subrange(0, i as int)).filter(sel),
                sel == (|k: Seq<char>| match pattern { Some(p) => contains_spec(k, p@), None => true }),
            decreases self.data@.len() - i,
        {
            let key = &self.data[i].0;
            let ghost pre = key_seq(self.data@.subrange(0, i as int));
            assert(key_seq(self.data@.subrange(0, i + 1)) =~= pre.push(key@));
            proof {
                pre.lemma_filter_push(key@, sel);
            }
            let take = match pattern {
                Some(p) => contains(key.as_str(), p),
                None => true,
            };
            if take {
                let ghost before = out@;
                out.push(key.clone());
                assert(string_views(out@) =~= string_views(before).push(key@));
            }
            i = i + 1;
        }
        assert(self.data@.subrange(0, i as int) =~= self.data@);
        Ok(out)
    }

    /// Whether `key` has a value.
    pub fn key_exists(&self, key: &str) -> (r: Result<bool, AppError>)
        requires
            self.wf(),
        ensures
            r == Ok::<bool, AppError>(self.data_map().contains_key(key@)),
    {
        Ok(get_value(&self.data, key).is_some())
    }

    /// A copy of the metadata of `key`, if any.
    pub fn get_metadata(&self, key: &str) -> (r: Result<Option<ConfigMetadata>, AppError>)
        requires
            self.wf(),
        ensures
            match r {
                Ok(Some(m)) => self.meta_map().contains_key(key@) && same_metadata(self.meta_map()[key@], m),
                Ok(None) => !self.meta_map().contains_key(key@),
                Err(_) => false,
            },
    {
        match get_value(&self.metadata, key) {
            Some(m) => Ok(Some(copy_metadata(m))),
            None => Ok(None),
        }
    }

    /// The provider's description.
    pub fn provider_metadata(&self) -> (r: &ProviderMetadata)
        ensures
            *r == self.spec_provider_metadata(),
    {
        &self.provider_metadata
    }

    /// The file's path.
    pub fn file_path(&self) -> (r: &str)
        ensures
            r@ == self.spec_file_path(),
    {
        self.file_path.as_str()
    }

    /// The file's format.
    pub fn format(&self) -> (r: ConfigFormat)
        ensures
            r == self.spec_format(),
    {
        self.format
    }

    /// The health report, given whether the file exists: healthy if it
    /// does, degraded if not, answering in ten milliseconds, with the
    /// path, the format and the existence as details.
    pub fn health_check(&self, exists: bool) -> (r: Result<ProviderHealth, AppError>)
        ensures
            r matches Ok(h)
                && h.status == (if exists { HealthStatus::Healthy } else { HealthStatus::Degraded })
                && h.message@ == (if exists { "File provider is healthy"@ } else { "Config file not found"@ })
                && h.response_time_ms == Some(10u64)
                && h.details@.len() == 3
                && h.details@[0].0@ == "file_path"@ && h.details@[0].1@ == self.spec_file_path()
                && h.details@[1].0@ == "format"@ && h.details@[1].1@ == self.spec_format().spec_debug_name()
                && h.details@[2].0@ == "exists"@ && h.details@[2].1@ == (if exists { "true"@ } else { "false"@ }),
    {
        let mut details: Vec<(String, String)> = Vec::new();
        details.push((owned("file_path"), self.file_path.clone()));
        details.push((owned("format"), owned(self.format.debug_name())));
        details.push((owned("exists"), owned(if exists { "true" } else { "false" })));
        Ok(ProviderHealth {
            status: if exists { HealthStatus::Healthy } else { HealthStatus::Degraded },
            message: owned(if exists { "File provider is healthy" } else { "Config file not found" }),
            last_check_ms: now_millis(),
            response_time_ms: Some(10),
            details,
        })
    }
}

} // verus!
