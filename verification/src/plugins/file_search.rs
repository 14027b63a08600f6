//! File search provider: an indexed list of files and folders, matched with
//! the fuzzy engine and ranked by its score.
//!
//! Walking the directories is outside work; the caller builds the index from
//! plain values and hands it in through `set_files`.

use vstd::prelude::*;
use crate::fuzzy::{fuzzy_match, fuzzy_spec};
use crate::numfmt::{dec_digit, dec_digits, u64_to_dec};
use crate::plugin::{lemma_scoped_id_owned, owned_by, scoped_id, Plugin, PluginError};
use crate::rank::{sort_by_score_desc, sort_desc};
use crate::search::{clone_string, ActionData, ExecOutcome, ResultType, SearchResult};
use crate::strutil::{
    fold, lemma_filter_push, lemma_filter_take_prefix, string_from_chars,
};

verus! {

/// One indexed file or folder; the modification instant is kept as
/// milliseconds since the Unix epoch.
#[derive(Debug)]
pub struct FileInfo {
    pub name: String,
    pub path: String,
    pub size: u64,
    pub is_dir: bool,
    pub modified_millis: i64,
}

impl Clone for FileInfo {
    /// An exact copy of the entry.
    fn clone(&self) -> (r: Self)
        ensures
            r == *self,
    {
        FileInfo {
            name: clone_string(&self.name),
            path: clone_string(&self.path),
            size: self.size,
            is_dir: self.is_dir,
            modified_millis: self.modified_millis,
        }
    }
}

/// The provider.
pub struct FileSearchPlugin {
    pub enabled: bool,
    pub files: Vec<FileInfo>,
    pub search_paths: Vec<String>,
    pub ignore_dirs: Vec<String>,
    pub max_depth: usize,
}

/// Whether the fuzzy engine matches the folded query against the entry's
/// folded name.
pub open spec fn file_matches(f: FileInfo, q: Seq<char>) -> bool {
    fuzzy_spec(fold(q), fold(f.name@)).0
}

/// The unit index for a byte count: 0 for bytes up to 4 for terabytes.
pub open spec fn size_unit(size: int) -> int {
    if size >= 0x10000000000 {
        4
    } else if size >= 0x40000000 {
        3
    } else if size >= 0x100000 {
        2
    } else if size >= 1024 {
        1
    } else {
        0
    }
}

/// The scale of a unit index: 1024 to the unit's power.
pub open spec fn unit_scale(u: int) -> int {
    if u == 0 {
        1
    } else if u == 1 {
        1024
    } else if u == 2 {
        0x100000
    } else if u == 3 {
        0x40000000
    } else {
        0x10000000000
    }
}

/// The label of a unit index.
pub open spec fn unit_chars(u: int) -> Seq<char> {
    if u == 0 {
        seq!['B']
    } else if u == 1 {
        seq!['K', 'B']
    } else if u == 2 {
        seq!['M', 'B']
    } else if u == 3 {
        seq!['G', 'B']
    } else {
        seq!['T', 'B']
    }
}

/// A byte count rendered with one decimal in its largest unit: the whole
/// part, a dot, the tenths digit (truncated), a space and the unit label.
pub open spec fn format_size_chars(size: int) -> Seq<char> {
    let u = size_unit(size);
    let tenths = size * 10 / unit_scale(u);
    dec_digits(tenths / 10) + seq!['.', dec_digit(tenths % 10), ' '] + unit_chars(u)
}

/// Whether `r` is the result rendered for the entry `f` with fuzzy score
/// `score`.
pub open spec fn is_file_result(pid: Seq<char>, f: FileInfo, score: u32, r: SearchResult) -> bool {
    &&& r.id@ == pid + seq![':'] + f.path@
    &&& r.title == f.name
    &&& (f.is_dir ==> r.result_type is Folder && r.description@ == "Folder"@)
    &&& (!f.is_dir ==> r.result_type is File && r.description@ == "File "@ + format_size_chars(
        f.size as int,
    ))
    &&& r.icon is None
    &&& r.score == score
    &&& r.action matches ActionData::OpenFile { path } && path == f.path
}

impl FileSearchPlugin {
    /// The provider with an empty index, the usual ignored directories and a
    /// scan depth of three, enabled.  Search roots are added by the caller.
    pub fn new() -> (r: FileSearchPlugin)
        ensures
            r.plugin_enabled(),
            r.files@.len() == 0,
            r.search_paths@.len() == 0,
            r.ignore_dirs@.len() == 7,
            r.max_depth == 3,
    {
        let mut ignore_dirs: Vec<String> = Vec::new();
        ignore_dirs.push(String::from_str("node_modules"));
        ignore_dirs.push(String::from_str(".git"));
        ignore_dirs.push(String::from_str("target"));
        ignore_dirs.push(String::from_str("dist"));
        ignore_dirs.push(String::from_str("build"));
        ignore_dirs.push(String::from_str(".idea"));
        ignore_dirs.push(String::from_str(".vscode"));
        FileSearchPlugin {
            enabled: true,
            files: Vec::new(),
            search_paths: Vec::new(),
            ignore_dirs,
            max_depth: 3,
        }
    }

    /// Replaces the file index with a freshly scanned one.
    pub fn set_files(&mut self, files: Vec<FileInfo>)
        ensures
            final(self).files == files,
            final(self).enabled == old(self).enabled,
            final(self).search_paths@ == old(self).search_paths@,
    {
        self.files = files;
    }

    /// Adds one directory to the scan roots.
    pub fn add_search_path(&mut self, path: String)
        ensures
            final(self).search_paths@ == old(self).search_paths@.push(path),
            final(self).enabled == old(self).enabled,
            final(self).files@ == old(self).files@,
    {
        self.search_paths.push(path);
    }

    /// A byte count with one truncated decimal in its largest unit.
    pub fn format_size(&self, size: u64) -> (r: String)
        ensures
            r@ == format_size_chars(size as int),
    {
        let scale: u64 = if size >= 0x10000000000 {
            0x10000000000
        } else if size >= 0x40000000 {
            0x40000000
        } else if size >= 0x100000 {
            0x100000
        } else if size >= 1024 {
            1024
        } else {
            1
        };
        let unit: &str = if size >= 0x10000000000 {
            "TB"
        } else if size >= 0x40000000 {
            "GB"
        } else if size >= 0x100000 {
            "MB"
        } else if size >= 1024 {
            "KB"
        } else {
            "B"
        };
        let tenths128: u128 = (size as u128) * 10 / (scale as u128);
        proof {
            if size >= 1024 {
                vstd::arithmetic::div_mod::lemma_div_is_ordered_by_denominator(
                    (size as int) * 10,
                    1024,
                    scale as int,
                );
            }
            assert(tenths128 <= u64::MAX as u128);
        }
        let tenths: u64 = tenths128 as u64;
        let mut v = u64_to_dec(tenths / 10);
        v.push('.');
        v.push(((tenths % 10) as u8 + 48) as char);
        v.push(' ');
        let uv = crate::strutil::chars_of(unit);
        let mut k: usize = 0;
        while k < uv.len()
            invariant
                k <= uv@.len(),
                v@ == dec_digits(tenths as int / 10) + seq![
                    '.',
                    dec_digit(tenths as int % 10),
                    ' ',
                ] + uv@.take(k as int),
            decreases uv@.len() - k,
        {
            v.push(uv[k]);
            k += 1;
            assert(v@ =~= dec_digits(tenths as int / 10) + seq![
                '.',
                dec_digit(tenths as int % 10),
                ' ',
            ] + uv@.take(k as int));
        }
        proof {
            assert(uv@.take(k as int) =~= uv@);
            reveal_strlit("TB");
            reveal_strlit("GB");
            reveal_strlit("MB");
            reveal_strlit("KB");
            reveal_strlit("B");
            assert(uv@ =~= unit_chars(size_unit(size as int)));
            assert(scale as int == unit_scale(size_unit(size as int)));
            assert(v@ =~= format_size_chars(size as int));
        }
        string_from_chars(&v)
    }
}

impl Plugin for FileSearchPlugin {
    open spec fn plugin_id(&self) -> Seq<char> {
        "file_search"@
    }

    open spec fn plugin_enabled(&self) -> bool {
        self.enabled
    }

    /// Search always succeeds.  A query under two characters returns
    /// nothing; otherwise the first `limit`-or-fewer fuzzy-matching entries,
    /// in index order, come back sorted by their fuzzy score, descending and
    /// stable.
    open spec fn search_ens(
        &self,
        query: Seq<char>,
        limit: int,
        r: Result<Vec<SearchResult>, PluginError>,
    ) -> bool {
        match r {
            Ok(v) => {
                if query.len() < 2 {
                    v@.len() == 0
                } else {
                    let ms = self.files@.filter(|f: FileInfo| file_matches(f, query));
                    let n = vstd::math::min(limit, ms.len() as int);
                    exists|pre: Seq<SearchResult>|
                        #![trigger sort_desc(pre)]
                        pre.len() == n && (forall|j: int|
                            0 <= j < n ==> is_file_result(
                                self.plugin_id(),
                                ms[j],
                                fuzzy_spec(fold(query), fold(ms[j].name@)).1 as u32,
                                #[trigger] pre[j],
                            )) && v@ == sort_desc(pre)
                }
            },
            Err(_) => false,
        }
    }

    /// Executing a file result resolves to opening its path; any other
    /// payload resolves to no outside work.
    open spec fn execute_ens(&self, res: SearchResult, r: Result<ExecOutcome, PluginError>) -> bool {
        match res.action {
            ActionData::OpenFile { path } => r matches Ok(o) && o matches ExecOutcome::OpenPath {
                path: p2 } && p2 == path,
            _ => r == Result::<ExecOutcome, PluginError>::Ok(ExecOutcome::NoEffect),
        }
    }

    fn id(&self) -> (r: &str) {
        "file_search"
    }

    fn name(&self) -> (r: &str) {
        "File search"
    }

    fn description(&self) -> (r: &str) {
        "Find files and folders"
    }

    fn version(&self) -> (r: &str) {
        "0.1.0"
    }

    fn is_enabled(&self) -> (r: bool) {
        self.enabled
    }

    fn set_enabled(&mut self, enabled: bool) {
        self.enabled = enabled;
    }

    fn initialize(&mut self) -> (r: Result<(), PluginError>) {
        // The index arrives through `set_files`; nothing to build here.
        Result::Ok(())
    }

    fn search(&self, query: &str, limit: usize) -> (r: Result<Vec<SearchResult>, PluginError>) {
        if query.unicode_len() < 2 {
            return Result::Ok(Vec::new());
        }
        let ghost pred = |f: FileInfo| file_matches(f, query@);
        let mut results: Vec<SearchResult> = Vec::new();
        let mut i: usize = 0;
        proof {
            assert(self.files@.take(0) =~= Seq::<FileInfo>::empty());
        }
        while i < self.files.len() && results.len() < limit
            invariant
                i <= self.files@.len(),
                query@.len() >= 2,
                results@.len() <= limit,
                results@.len() == self.files@.take(i as int).filter(pred).len(),
                forall|j: int|
                    0 <= j < results@.len() ==> is_file_result(
                        self.plugin_id(),
                        self.files@.take(i as int).filter(pred)[j],
                        fuzzy_spec(
                            fold(query@),
                            fold(self.files@.take(i as int).filter(pred)[j].name@),
                        ).1 as u32,
                        #[trigger] results@[j],
                    ),
                forall|j: int|
                    0 <= j < results@.len() ==> owned_by(#[trigger] results@[j], self.plugin_id()),
                pred == |f: FileInfo| file_matches(f, query@),
            decreases self.files@.len() - i,
        {
            let f = &self.files[i];
            let (matched, score) = fuzzy_match(query, f.name.as_str());
            let ghost taken = self.files@.take(i as int);
            proof {
                assert(self.files@.take(i + 1) =~= taken.push(self.files@[i as int]));
                lemma_filter_push(taken, self.files@[i as int], pred);
            }
            if matched {
                let rid = scoped_id(self.id(), f.path.as_str());
                proof {
                    lemma_scoped_id_owned(self.plugin_id(), f.path@);
                }
                let description = if f.is_dir {
                    String::from_str("Folder")
                } else {
                    let mut d = String::from_str("File ");
                    let sz = self.format_size(f.size);
                    d.append(sz.as_str());
                    d
                };
                let res = SearchResult::new(
                    rid,
                    clone_string(&f.name),
                    description,
                    if f.is_dir {
                        ResultType::Folder
                    } else {
                        ResultType::File
                    },
                    score,
                    ActionData::OpenFile { path: clone_string(&f.path) },
                );
                results.push(res);
            }
            i += 1;
        }
        proof {
            lemma_filter_take_prefix(self.files@, i as int, pred);
            if i == self.files@.len() {
                assert(self.files@.take(i as int) =~= self.files@);
            }
        }
        let ghost pre = results@;
        let sorted = sort_by_score_desc(results);
        proof {
            crate::rank::lemma_sort_desc_len(pre);
            assert forall|k: int| 0 <= k < sorted@.len() implies owned_by(
                #[trigger] sorted@[k],
                self.plugin_id(),
            ) by {
                crate::rank::lemma_sort_desc_membership(pre, k);
                let j = choose|j: int| 0 <= j < pre.len() && pre[j] == sorted@[k];
                assert(owned_by(pre[j], self.plugin_id()));
            }
        }
        Result::Ok(sorted)
    }

    fn execute(&self, result: &SearchResult) -> (r: Result<ExecOutcome, PluginError>) {
        match &result.action {
            ActionData::OpenFile { path } => Result::Ok(
                ExecOutcome::OpenPath { path: clone_string(path) },
            ),
            _ => Result::Ok(ExecOutcome::NoEffect),
        }
    }

    fn refresh(&mut self) -> (r: Result<(), PluginError>) {
        // A fresh scan arrives through `set_files`.
        Result::Ok(())
    }
}

} // verus!
