//! Application launcher provider: an indexed list of installed applications,
//! matched by case-folded substring against the application name.
//!
//! Scanning the start menu is outside work; the caller builds the index from
//! plain values and hands it in through `set_apps`.

use vstd::prelude::*;
use crate::plugin::{lemma_scoped_id_owned, owned_by, scoped_id, Plugin, PluginError};
use crate::search::{
    clone_opt_string, clone_string, clone_strings, ActionData, ExecOutcome, ResultType,
    SearchResult,
};
use crate::strutil::{
    fold, folded_chars_of, is_substring, last_index_of, lemma_filter_push,
    lemma_filter_take_prefix, lemma_last_index_of, rfind_char, string_from_chars,
};

verus! {

/// One indexed application.
#[derive(Debug)]
pub struct AppInfo {
    pub name: String,
    pub path: String,
    pub description: String,
    pub icon: Option<String>,
}

impl Clone for AppInfo {
    /// An exact copy of the entry.
    fn clone(&self) -> (r: Self)
        ensures
            r == *self,
    {
        AppInfo {
            name: clone_string(&self.name),
            path: clone_string(&self.path),
            description: clone_string(&self.description),
            icon: clone_opt_string(&self.icon),
        }
    }
}

/// The provider.
pub struct AppLauncherPlugin {
    pub enabled: bool,
    pub apps: Vec<AppInfo>,
}

/// Whether the folded query occurs in the application's folded name.
pub open spec fn app_matches(a: AppInfo, fq: Seq<char>) -> bool {
    is_substring(fq, fold(a.name@))
}

/// Whether `r` is the result this provider renders for the application `a`.
pub open spec fn is_app_result(pid: Seq<char>, a: AppInfo, r: SearchResult) -> bool {
    &&& r.id@ == pid + seq![':'] + a.path@
    &&& r.title == a.name
    &&& r.description == a.description
    &&& r.icon == a.icon
    &&& r.result_type is Application
    &&& r.score == 100
    &&& r.action matches ActionData::LaunchApp { path, args } && path == a.path && args@.len()
        == 0
}

/// The basename of a path: everything after the last `/` or `\`.
pub open spec fn base_name(p: Seq<char>) -> Seq<char> {
    let cut = if last_index_of(p, '/') > last_index_of(p, '\\') {
        last_index_of(p, '/')
    } else {
        last_index_of(p, '\\')
    };
    p.skip(cut + 1)
}

/// The stem of a file name: the basename without what follows its last dot;
/// a name whose only dot leads keeps the dot.
pub open spec fn file_stem(p: Seq<char>) -> Seq<char> {
    let b = base_name(p);
    let d = last_index_of(b, '.');
    if d <= 0 {
        b
    } else {
        b.take(d)
    }
}

impl AppLauncherPlugin {
    /// The provider with an empty index, enabled.
    pub fn new() -> (r: AppLauncherPlugin)
        ensures
            r.plugin_enabled(),
            r.apps@.len() == 0,
    {
        AppLauncherPlugin { enabled: true, apps: Vec::new() }
    }

    /// Replaces the application index with a freshly scanned one.
    pub fn set_apps(&mut self, apps: Vec<AppInfo>)
        ensures
            final(self).apps == apps,
            final(self).enabled == old(self).enabled,
    {
        self.apps = apps;
    }

    /// An application entry for a shortcut file: named by the path's stem,
    /// described as a shortcut, without an icon.
    pub fn parse_shortcut(&self, path: &str) -> (r: Option<AppInfo>)
        ensures
            r matches Some(a) && a.name@ == file_stem(path@) && a.path@ == path@
                && a.description@ == "Shortcut"@ && a.icon is None,
    {
        let pv = crate::strutil::chars_of(path);
        proof {
            lemma_last_index_of(pv@, '/');
            lemma_last_index_of(pv@, '\\');
        }
        let n = pv.len();
        proof {
            assert(pv@.len() == n);
        }
        let s = rfind_char(&pv, '/');
        let b = rfind_char(&pv, '\\');
        let cut_plus_one: usize = match (s, b) {
            (Option::Some(i), Option::Some(j)) => (if i > j {
                i
            } else {
                j
            }) + 1,
            (Option::Some(i), Option::None) => i + 1,
            (Option::None, Option::Some(j)) => j + 1,
            (Option::None, Option::None) => 0,
        };
        let mut base: Vec<char> = Vec::new();
        let mut i: usize = cut_plus_one;
        while i < pv.len()
            invariant
                cut_plus_one <= i <= pv@.len(),
                base@ == pv@.skip(cut_plus_one as int).take(i - cut_plus_one),
            decreases pv@.len() - i,
        {
            base.push(pv[i]);
            i += 1;
            assert(base@ =~= pv@.skip(cut_plus_one as int).take(i - cut_plus_one));
        }
        assert(base@ =~= pv@.skip(cut_plus_one as int));
        assert(base@ == base_name(path@));
        proof {
            lemma_last_index_of(base@, '.');
        }
        let stem = match rfind_char(&base, '.') {
            Option::Some(d) if d > 0 => {
                let mut st: Vec<char> = Vec::new();
                let mut j: usize = 0;
                while j < d
                    invariant
                        j <= d,
                        d < base@.len(),
                        st@ == base@.take(j as int),
                    decreases d - j,
                {
                    st.push(base[j]);
                    j += 1;
                    assert(st@ =~= base@.take(j as int));
                }
                st
            },
            _ => base,
        };
        let name = string_from_chars(&stem);
        Option::Some(
            AppInfo {
                name,
                path: String::from_str(path),
                description: String::from_str("Shortcut"),
                icon: Option::None,
            },
        )
    }
}

impl Plugin for AppLauncherPlugin {
    open spec fn plugin_id(&self) -> Seq<char> {
        "app_launcher"@
    }

    open spec fn plugin_enabled(&self) -> bool {
        self.enabled
    }

    /// Search always succeeds and returns, in index order, the first
    /// `limit`-or-fewer applications whose folded name holds the folded
    /// query, each rendered as an application result scoring 100.
    open spec fn search_ens(
        &self,
        query: Seq<char>,
        limit: int,
        r: Result<Vec<SearchResult>, PluginError>,
    ) -> bool {
        match r {
            Ok(v) => {
                let ms = self.apps@.filter(|a: AppInfo| app_matches(a, fold(query)));
                let n = vstd::math::min(limit, ms.len() as int);
                &&& v@.len() == n
                &&& forall|j: int|
                    0 <= j < n ==> is_app_result(self.plugin_id(), ms[j], #[trigger] v@[j])
            },
            Err(_) => false,
        }
    }

    /// Executing a launch result resolves to starting that application; any
    /// other payload resolves to no outside work.
    open spec fn execute_ens(&self, res: SearchResult, r: Result<ExecOutcome, PluginError>) -> bool {
        match res.action {
            ActionData::LaunchApp { path, args } => r matches Ok(o) && o matches
                ExecOutcome::LaunchApp { path: p2, args: a2 } && p2 == path && a2@ == args@,
            _ => r == Result::<ExecOutcome, PluginError>::Ok(ExecOutcome::NoEffect),
        }
    }

    fn id(&self) -> (r: &str) {
        "app_launcher"
    }

    fn name(&self) -> (r: &str) {
        "Application launcher"
    }

    fn description(&self) -> (r: &str) {
        "Find and start installed applications"
    }

    fn version(&self) -> (r: &str) {
        "0.1.0"
    }

    fn is_enabled(&self) -> (r: bool) {
        self.enabled
    }

    fn set_enabled(&mut self, enabled: bool) {
        self.enabled = enabled;
    }

    fn initialize(&mut self) -> (r: Result<(), PluginError>) {
        // The index arrives through `set_apps`; nothing to build here.
        Result::Ok(())
    }

    fn search(&self, query: &str, limit: usize) -> (r: Result<Vec<SearchResult>, PluginError>) {
        let ghost pred = |a: AppInfo| app_matches(a, fold(query@));
        let fq = folded_chars_of(query);
        let mut results: Vec<SearchResult> = Vec::new();
        let mut i: usize = 0;
        proof {
            assert(self.apps@.take(0) =~= Seq::<AppInfo>::empty());
        }
        while i < self.apps.len() && results.len() < limit
            invariant
                i <= self.apps@.len(),
                fq@ == fold(query@),
                results@.len() <= limit,
                results@.len() == self.apps@.take(i as int).filter(pred).len(),
                forall|j: int|
                    0 <= j < results@.len() ==> is_app_result(
                        self.plugin_id(),
                        self.apps@.take(i as int).filter(pred)[j],
                        #[trigger] results@[j],
                    ),
                forall|j: int|
                    0 <= j < results@.len() ==> owned_by(#[trigger] results@[j], self.plugin_id()),
                pred == |a: AppInfo| app_matches(a, fold(query@)),
            decreases self.apps@.len() - i,
        {
            let a = &self.apps[i];
            let name_match = {
                let h = folded_chars_of(a.name.as_str());
                crate::strutil::contains_seq(&h, &fq)
            };
            let ghost taken = self.apps@.take(i as int);
            proof {
                assert(self.apps@.take(i + 1) =~= taken.push(self.apps@[i as int]));
                lemma_filter_push(taken, self.apps@[i as int], pred);
            }
            if name_match {
                let rid = scoped_id(self.id(), a.path.as_str());
                proof {
                    lemma_scoped_id_owned(self.plugin_id(), a.path@);
                }
                let res = SearchResult::new(
                    rid,
                    clone_string(&a.name),
                    clone_string(&a.description),
                    ResultType::Application,
                    100,
                    ActionData::LaunchApp { path: clone_string(&a.path), args: Vec::new() },
                ).with_icon(clone_opt_string(&a.icon));
                results.push(res);
            }
            i += 1;
        }
        proof {
            lemma_filter_take_prefix(self.apps@, i as int, pred);
            if i == self.apps@.len() {
                assert(self.apps@.take(i as int) =~= self.apps@);
            }
        }
        Result::Ok(results)
    }

    fn execute(&self, result: &SearchResult) -> (r: Result<ExecOutcome, PluginError>) {
        match &result.action {
            ActionData::LaunchApp { path, args } => Result::Ok(
                ExecOutcome::LaunchApp { path: clone_string(path), args: clone_strings(args) },
            ),
            _ => Result::Ok(ExecOutcome::NoEffect),
        }
    }

    fn refresh(&mut self) -> (r: Result<(), PluginError>) {
        // A fresh scan arrives through `set_apps`.
        Result::Ok(())
    }
}

} // verus!
