//! Window switcher provider: an indexed list of open windows, matched by
//! case-folded substring against title or process name.
//!
//! Enumerating the windows and raising one are outside work; the caller
//! hands the list in through `set_windows` and carries the switch out.

use vstd::prelude::*;
use crate::numfmt::{i64_to_string, int_chars, parse_i64_chars, parse_i64_spec};
use crate::plugin::{lemma_scoped_id_owned, owned_by, scoped_id, Plugin, PluginError};
use crate::search::{clone_string, ActionData, ExecOutcome, ResultType, SearchResult};
use crate::strutil::{
    chars_of, fold, folded_chars_of, is_substring, lemma_filter_push, lemma_filter_take_prefix,
};

verus! {

/// One open window, by its numeric handle.
#[derive(Debug)]
pub struct WindowInfo {
    pub hwnd: i64,
    pub title: String,
    pub process_name: String,
}

impl Clone for WindowInfo {
    /// An exact copy of the entry.
    fn clone(&self) -> (r: Self)
        ensures
            r == *self,
    {
        WindowInfo {
            hwnd: self.hwnd,
            title: clone_string(&self.title),
            process_name: clone_string(&self.process_name),
        }
    }
}

/// The provider.
pub struct WindowSwitcherPlugin {
    pub enabled: bool,
    pub windows: Vec<WindowInfo>,
}

/// Whether the folded query occurs in the window's folded title or process
/// name.
pub open spec fn window_matches(w: WindowInfo, fq: Seq<char>) -> bool {
    is_substring(fq, fold(w.title@)) || is_substring(fq, fold(w.process_name@))
}

/// Whether `r` is the result rendered for the window `w` with score `score`.
pub open spec fn is_window_result(
    pid: Seq<char>,
    w: WindowInfo,
    score: u32,
    r: SearchResult,
) -> bool {
    &&& r.id@ == pid + seq![':'] + int_chars(w.hwnd as int)
    &&& r.title == w.title
    &&& r.description@ == "Process: "@ + w.process_name@
    &&& r.icon is None
    &&& r.result_type matches ResultType::Custom(k) && k@ == "window"@
    &&& r.score == score
    &&& r.action matches ActionData::Custom { plugin, data } && plugin@ == "window_switcher"@
        && data@ == int_chars(w.hwnd as int)
}

impl WindowSwitcherPlugin {
    /// The provider with an empty window list, enabled.
    pub fn new() -> (r: WindowSwitcherPlugin)
        ensures
            r.plugin_enabled(),
            r.windows@.len() == 0,
    {
        WindowSwitcherPlugin { enabled: true, windows: Vec::new() }
    }

    /// Replaces the window list with a freshly enumerated one.
    pub fn set_windows(&mut self, windows: Vec<WindowInfo>)
        ensures
            final(self).windows == windows,
            final(self).enabled == old(self).enabled,
    {
        self.windows = windows;
    }

    /// A copy of the window list.
    pub fn get_windows(&self) -> (r: Vec<WindowInfo>)
        ensures
            r@ == self.windows@,
    {
        let mut r: Vec<WindowInfo> = Vec::new();
        let mut i: usize = 0;
        while i < self.windows.len()
            invariant
                i <= self.windows@.len(),
                r@ == self.windows@.take(i as int),
            decreases self.windows@.len() - i,
        {
            r.push(self.windows[i].clone());
            i += 1;
            assert(r@ =~= self.windows@.take(i as int));
        }
        assert(r@ =~= self.windows@);
        r
    }
}

impl Plugin for WindowSwitcherPlugin {
    open spec fn plugin_id(&self) -> Seq<char> {
        "window_switcher"@
    }

    open spec fn plugin_enabled(&self) -> bool {
        self.enabled
    }

    /// Search always succeeds.  An empty query lists the first
    /// `limit`-or-fewer windows scoring 0; otherwise the first
    /// `limit`-or-fewer windows whose folded title or process name holds the
    /// folded query come back, scoring 50.
    open spec fn search_ens(
        &self,
        query: Seq<char>,
        limit: int,
        r: Result<Vec<SearchResult>, PluginError>,
    ) -> bool {
        match r {
            Ok(v) => {
                if query.len() == 0 {
                    let n = vstd::math::min(limit, self.windows@.len() as int);
                    &&& v@.len() == n
                    &&& forall|j: int|
                        0 <= j < n ==> is_window_result(
                            self.plugin_id(),
                            self.windows@[j],
                            0,
                            #[trigger] v@[j],
                        )
                } else {
                    let ms = self.windows@.filter(|w: WindowInfo| window_matches(w, fold(query)));
                    let n = vstd::math::min(limit, ms.len() as int);
                    &&& v@.len() == n
                    &&& forall|j: int|
                        0 <= j < n ==> is_window_result(
                            self.plugin_id(),
                            ms[j],
                            50,
                            #[trigger] v@[j],
                        )
                }
            },
            Err(_) => false,
        }
    }

    /// Executing a window result resolves to raising the window whose
    /// handle the payload carries; a payload without a readable handle is
    /// malformed, and any other payload resolves to no outside work.
    open spec fn execute_ens(&self, res: SearchResult, r: Result<ExecOutcome, PluginError>) -> bool {
        match res.action {
            ActionData::Custom { plugin, data } => match parse_i64_spec(data@) {
                Some(h) => r matches Ok(o) && o matches ExecOutcome::SwitchToWindow { hwnd }
                    && hwnd as int == h,
                None => r == Result::<ExecOutcome, PluginError>::Err(PluginError::MalformedAction),
            },
            _ => r == Result::<ExecOutcome, PluginError>::Ok(ExecOutcome::NoEffect),
        }
    }

    fn id(&self) -> (r: &str) {
        "window_switcher"
    }

    fn name(&self) -> (r: &str) {
        "Window switcher"
    }

    fn description(&self) -> (r: &str) {
        "Switch between open windows"
    }

    fn version(&self) -> (r: &str) {
        "0.1.0"
    }

    fn is_enabled(&self) -> (r: bool) {
        self.enabled
    }

    fn set_enabled(&mut self, enabled: bool) {
        self.enabled = enabled;
    }

    fn initialize(&mut self) -> (r: Result<(), PluginError>) {
        // The window list arrives through `set_windows`.
        Result::Ok(())
    }

    fn search(&self, query: &str, limit: usize) -> (r: Result<Vec<SearchResult>, PluginError>) {
        let mut results: Vec<SearchResult> = Vec::new();
        if query.is_empty() {
            let mut i: usize = 0;
            while i < self.windows.len() && i < limit
                invariant
                    i <= self.windows@.len(),
                    i <= limit,
                    results@.len() == i,
                    forall|j: int|
                        0 <= j < i ==> is_window_result(
                            self.plugin_id(),
                            self.windows@[j],
                            0,
                            #[trigger] results@[j],
                        ),
                    forall|j: int|
                        0 <= j < results@.len() ==> owned_by(
                            #[trigger] results@[j],
                            self.plugin_id(),
                        ),
                decreases self.windows@.len() - i,
            {
                let w = &self.windows[i];
                let res = render_window(self, w, 0);
                results.push(res);
                i += 1;
            }
            return Result::Ok(results);
        }
        let ghost pred = |w: WindowInfo| window_matches(w, fold(query@));
        let fq = folded_chars_of(query);
        let mut i: usize = 0;
        proof {
            assert(self.windows@.take(0) =~= Seq::<WindowInfo>::empty());
        }
        while i < self.windows.len() && results.len() < limit
            invariant
                i <= self.windows@.len(),
                fq@ == fold(query@),
                results@.len() <= limit,
                results@.len() == self.windows@.take(i as int).filter(pred).len(),
                forall|j: int|
                    0 <= j < results@.len() ==> is_window_result(
                        self.plugin_id(),
                        self.windows@.take(i as int).filter(pred)[j],
                        50,
                        #[trigger] results@[j],
                    ),
                forall|j: int|
                    0 <= j < results@.len() ==> owned_by(#[trigger] results@[j], self.plugin_id()),
                pred == |w: WindowInfo| window_matches(w, fold(query@)),
            decreases self.windows@.len() - i,
        {
            let w = &self.windows[i];
            let title_match = {
                let h = folded_chars_of(w.title.as_str());
                crate::strutil::contains_seq(&h, &fq)
            };
            let proc_match = {
                let h = folded_chars_of(w.process_name.as_str());
                crate::strutil::contains_seq(&h, &fq)
            };
            let ghost taken = self.windows@.take(i as int);
            proof {
                assert(self.windows@.take(i + 1) =~= taken.push(self.windows@[i as int]));
                lemma_filter_push(taken, self.windows@[i as int], pred);
            }
            if title_match || proc_match {
                let res = render_window(self, w, 50);
                results.push(res);
            }
            i += 1;
        }
        proof {
            lemma_filter_take_prefix(self.windows@, i as int, pred);
            if i == self.windows@.len() {
                assert(self.windows@.take(i as int) =~= self.windows@);
            }
        }
        Result::Ok(results)
    }

    fn execute(&self, result: &SearchResult) -> (r: Result<ExecOutcome, PluginError>) {
        match &result.action {
            ActionData::Custom { plugin: _, data } => {
                let dv = chars_of(data.as_str());
                match parse_i64_chars(&dv) {
                    Option::Some(h) => Result::Ok(ExecOutcome::SwitchToWindow { hwnd: h }),
                    Option::None => Result::Err(PluginError::MalformedAction),
                }
            },
            _ => Result::Ok(ExecOutcome::NoEffect),
        }
    }

    fn refresh(&mut self) -> (r: Result<(), PluginError>) {
        // A fresh enumeration arrives through `set_windows`.
        Result::Ok(())
    }
}

/// The result rendered for one window.
fn render_window(p: &WindowSwitcherPlugin, w: &WindowInfo, score: u32) -> (r: SearchResult)
    ensures
        is_window_result(p.plugin_id(), *w, score, r),
        owned_by(r, p.plugin_id()),
{
    let handle = i64_to_string(w.hwnd);
    let rid = scoped_id(p.id(), handle.as_str());
    proof {
        lemma_scoped_id_owned(p.plugin_id(), handle@);
    }
    let mut description = String::from_str("Process: ");
    description.append(w.process_name.as_str());
    SearchResult::new(
        rid,
        clone_string(&w.title),
        description,
        ResultType::Custom(String::from_str("window")),
        score,
        ActionData::Custom {
            plugin: String::from_str("window_switcher"),
            data: i64_to_string(w.hwnd),
        },
    )
}

} // verus!
