//! Icon handling: a cache of raw icon bytes keyed by path, and icon
//! descriptors for the result list.
//!
//! The cache is an association list read through [`icon_lookup`]; a fresh
//! entry is put in front, so it shadows any older entry for the same key.

use vstd::prelude::*;
use crate::search::clone_string;
use crate::strutil::{chars_eq, chars_of, folded_chars_of, fold, string_from_chars};

verus! {

/// The bytes stored under `key`, by the first matching entry.
pub open spec fn icon_lookup(entries: Seq<(String, Vec<u8>)>, key: Seq<char>) -> Option<Seq<u8>>
    decreases entries.len(),
{
    if entries.len() == 0 {
        None
    } else if entries[0].0@ == key {
        Some(entries[0].1@)
    } else {
        icon_lookup(entries.drop_first(), key)
    }
}

/// The icon cache.
pub struct IconCache {
    pub entries: Vec<(String, Vec<u8>)>,
}

impl IconCache {
    /// An empty cache.
    pub fn new() -> (r: IconCache)
        ensures
            r.entries@.len() == 0,
    {
        IconCache { entries: Vec::new() }
    }

    /// The icon stored under `path`, if any.
    pub fn get_icon(&self, path: &str) -> (r: Option<Vec<u8>>)
        ensures
            icon_lookup(self.entries@, path@) matches Some(d) ==> (r matches Some(v) && v@ == d),
            icon_lookup(self.entries@, path@) is None ==> r is None,
    {
        let pv = chars_of(path);
        let mut i: usize = 0;
        proof {
            assert(self.entries@.skip(0) =~= self.entries@);
        }
        while i < self.entries.len()
            invariant
                i <= self.entries@.len(),
                pv@ == path@,
                icon_lookup(self.entries@, path@) == icon_lookup(
                    self.entries@.skip(i as int),
                    path@,
                ),
            decreases self.entries@.len() - i,
        {
            let ghost ts = self.entries@.skip(i as int);
            let e = &self.entries[i];
            let kv = chars_of(e.0.as_str());
            proof {
                assert(ts[0] == self.entries@[i as int]);
                assert(ts.drop_first() =~= self.entries@.skip(i + 1));
            }
            if chars_eq(&kv, &pv) {
                let mut data: Vec<u8> = Vec::new();
                let mut j: usize = 0;
                while j < e.1.len()
                    invariant
                        j <= e.1@.len(),
                        data@ == e.1@.take(j as int),
                    decreases e.1@.len() - j,
                {
                    data.push(e.1[j]);
                    j += 1;
                    assert(data@ =~= e.1@.take(j as int));
                }
                assert(data@ =~= e.1@);
                return Option::Some(data);
            }
            i += 1;
        }
        assert(self.entries@.skip(i as int) =~= Seq::<(String, Vec<u8>)>::empty());
        Option::None
    }

    /// Stores `data` under `path`, shadowing any earlier entry for it and
    /// leaving every other key's lookup unchanged.
    pub fn set_icon(&mut self, path: &str, data: Vec<u8>)
        ensures
            icon_lookup(final(self).entries@, path@) matches Some(d) && d == data@,
            forall|k: Seq<char>|
                k != path@ ==> icon_lookup(final(self).entries@, k) == icon_lookup(
                    old(self).entries@,
                    k,
                ),
    {
        let ghost before = self.entries@;
        let entry = (String::from_str(path), data);
        let ghost e = entry;
        self.entries.insert(0, entry);
        proof {
            before.insert_ensures(0, e);
            assert(self.entries@.drop_first() =~= before);
        }
    }

    /// The cached icon of an executable, when one was stored earlier;
    /// extraction itself is the caller's outside work.
    pub fn extract_icon_from_exe(&self, exe_path: &str) -> (r: Option<Vec<u8>>)
        ensures
            icon_lookup(self.entries@, exe_path@) matches Some(d) ==> (r matches Some(v) && v@
                == d),
            icon_lookup(self.entries@, exe_path@) is None ==> r is None,
    {
        self.get_icon(exe_path)
    }

    /// The default icon for a file extension, looked up under the folded
    /// `ext:` key, when one was stored earlier.
    pub fn get_file_type_icon(&self, extension: &str) -> (r: Option<Vec<u8>>)
        ensures
            icon_lookup(self.entries@, "ext:"@ + fold(extension@)) matches Some(d) ==> (r matches
                Some(v) && v@ == d),
            icon_lookup(self.entries@, "ext:"@ + fold(extension@)) is None ==> r is None,
    {
        let folded = folded_chars_of(extension);
        let mut key = String::from_str("ext:");
        key.append(string_from_chars(&folded).as_str());
        self.get_icon(key.as_str())
    }

    /// Forgets every cached icon.
    pub fn clear(&mut self)
        ensures
            final(self).entries@.len() == 0,
    {
        self.entries = Vec::new();
    }
}

/// The kind of icon a result shows.
#[derive(Debug, PartialEq)]
pub enum IconType {
    Application,
    File,
    Folder,
    System,
    Custom(String),
}

/// One icon reference: its kind, its path or key, and its raw bytes once
/// loaded.
#[derive(Debug)]
pub struct IconInfo {
    pub icon_type: IconType,
    pub path: String,
    pub data: Option<Vec<u8>>,
}

impl IconInfo {
    /// The icon of an application at `app_path`, not yet loaded.
    pub fn application(app_path: &str) -> (r: IconInfo)
        ensures
            r.icon_type is Application,
            r.path@ == app_path@,
            r.data is None,
    {
        IconInfo {
            icon_type: IconType::Application,
            path: String::from_str(app_path),
            data: None,
        }
    }

    /// The icon of a file at `file_path`, not yet loaded.
    pub fn file(file_path: &str) -> (r: IconInfo)
        ensures
            r.icon_type is File,
            r.path@ == file_path@,
            r.data is None,
    {
        IconInfo { icon_type: IconType::File, path: String::from_str(file_path), data: None }
    }

    /// The icon of a folder at `folder_path`, not yet loaded.
    pub fn folder(folder_path: &str) -> (r: IconInfo)
        ensures
            r.icon_type is Folder,
            r.path@ == folder_path@,
            r.data is None,
    {
        IconInfo {
            icon_type: IconType::Folder,
            path: String::from_str(folder_path),
            data: None,
        }
    }

    /// Fetching the raw bytes is the caller's outside work; the descriptor
    /// itself never fails and stays as it is until the caller stores data.
    pub fn load(&mut self) -> (r: Result<(), crate::plugin::PluginError>)
        ensures
            r is Ok,
            final(self).icon_type == old(self).icon_type,
            final(self).path == old(self).path,
            final(self).data == old(self).data,
    {
        Result::Ok(())
    }
}

} // verus!
