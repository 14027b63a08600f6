//! Clipboard history provider: a bounded, deduplicated ring of copied texts,
//! newest first, matched by case-folded substring.
//!
//! Reading and writing the clipboard itself is outside work; the caller
//! feeds copied text in through `add_entry` and carries the copy-out back.
//! Timestamps are milliseconds since the Unix epoch, read from the clock
//! behind a trusted wrapper.

use vstd::prelude::*;
use crate::numfmt::{dec_digits, int_chars, i64_to_string, u64_to_string};
use crate::plugin::{lemma_scoped_id_owned, owned_by, scoped_id, Plugin, PluginError};
use crate::search::{clone_string, ActionData, ExecOutcome, ResultType, SearchResult};
use crate::strutil::{
    chars_of, fold, folded_chars_of, is_substring, lemma_filter_push, lemma_filter_take_prefix,
    string_from_chars,
};

verus! {

/// One remembered clipboard text; `id` is the entry's key within this
/// provider, the decimal form of its timestamp.
#[derive(Debug)]
pub struct ClipboardEntry {
    pub id: String,
    pub text: String,
    pub timestamp_millis: i64,
    pub preview: String,
}

impl Clone for ClipboardEntry {
    /// An exact copy of the entry.
    fn clone(&self) -> (r: Self)
        ensures
            r == *self,
    {
        ClipboardEntry {
            id: clone_string(&self.id),
            text: clone_string(&self.text),
            timestamp_millis: self.timestamp_millis,
            preview: clone_string(&self.preview),
        }
    }
}

/// The provider.
pub struct ClipboardPlugin {
    pub enabled: bool,
    pub history: Vec<ClipboardEntry>,
    pub max_history: usize,
}

/// Relies on chrono's `Local::now` and `DateTime::timestamp_millis` for the
/// clock: milliseconds since the Unix epoch, whatever the system clock says.
#[verifier::external_body]
fn now_millis() -> i64 {
    chrono::Local::now().timestamp_millis()
}

/// The preview of a text: the text itself, or its first hundred characters
/// followed by an ellipsis when it is longer.
pub open spec fn preview_chars(t: Seq<char>) -> Seq<char> {
    if t.len() > 100 {
        t.take(100) + seq!['.', '.', '.']
    } else {
        t
    }
}

/// The relative age of `then` as seen from `now`: just now under a minute,
/// then minutes, hours, and days, each truncated.
pub open spec fn rel_time_chars(now: int, then: int) -> Seq<char> {
    let diff = now - then;
    if diff < 60000 {
        "just now"@
    } else if diff / 60000 < 60 {
        dec_digits(diff / 60000) + " minutes ago"@
    } else if diff / 3600000 < 24 {
        dec_digits(diff / 3600000) + " hours ago"@
    } else {
        dec_digits(diff / 86400000) + " days ago"@
    }
}

/// Whether `v` holds, position by position, the rendered results of the
/// first `n` entries at one clock reading `now` with score `score`.
pub open spec fn clip_results_at(
    pid: Seq<char>,
    entries: Seq<ClipboardEntry>,
    now: int,
    score: u32,
    v: Seq<SearchResult>,
    n: int,
) -> bool {
    forall|j: int| 0 <= j < n ==> is_clip_result(pid, entries[j], now, score, #[trigger] v[j])
}

/// Whether the folded query occurs in the entry's folded text.
pub open spec fn clip_matches(e: ClipboardEntry, fq: Seq<char>) -> bool {
    is_substring(fq, fold(e.text@))
}

/// Whether `r` is the result rendered for the entry `e` at clock reading
/// `now`, with score `score`.
pub open spec fn is_clip_result(
    pid: Seq<char>,
    e: ClipboardEntry,
    now: int,
    score: u32,
    r: SearchResult,
) -> bool {
    &&& r.id@ == pid + seq![':'] + e.id@
    &&& r.title == e.preview
    &&& r.description@ == rel_time_chars(now, e.timestamp_millis as int)
        + " - press Enter to paste"@
    &&& r.icon is None
    &&& r.result_type is Clipboard
    &&& r.score == score
    &&& r.action matches ActionData::CopyToClipboard { text } && text == e.text
}

/// The relative age of `then` as seen from `now`, executable form.
pub fn format_time(now: i64, then: i64) -> (r: String)
    ensures
        r@ == rel_time_chars(now as int, then as int),
{
    let diff: i128 = (now as i128) - (then as i128);
    if diff < 60000 {
        return String::from_str("just now");
    }
    let dp: u128 = diff as u128;
    proof {
        assert(dp as int == now - then);
    }
    let mins: u128 = dp / 60000;
    if mins < 60 {
        let mut s = u64_to_string(mins as u64);
        s.append(" minutes ago");
        return s;
    }
    let hours: u128 = dp / 3600000;
    if hours < 24 {
        let mut s = u64_to_string(hours as u64);
        s.append(" hours ago");
        return s;
    }
    let days: u128 = dp / 86400000;
    proof {
        vstd::arithmetic::div_mod::lemma_fundamental_div_mod(dp as int, 86400000);
        assert(days as int <= u64::MAX as int) by (nonlinear_arith)
            requires
                86400000 * (days as int) <= dp as int,
                (dp as int) < 0x20000000000000000,
                days as int >= 0,
        ;
    }
    let mut s = u64_to_string(days as u64);
    s.append(" days ago");
    s
}

impl ClipboardPlugin {
    /// The provider with an empty history bounded at one hundred entries,
    /// enabled.
    pub fn new() -> (r: ClipboardPlugin)
        ensures
            r.plugin_enabled(),
            r.history@.len() == 0,
            r.max_history == 100,
    {
        ClipboardPlugin { enabled: true, history: Vec::new(), max_history: 100 }
    }

    /// Remembers a copied text at the front of the history: empty texts and
    /// a repeat of the newest entry are dropped, the rest shift back one
    /// place, and the history is cut to its bound.
    pub fn add_entry(&mut self, text: String)
        ensures
            text@.len() == 0 || (old(self).history@.len() > 0 && old(self).history@[0].text@
                == text@) ==> final(self).history@ == old(self).history@,
            text@.len() > 0 && (old(self).history@.len() == 0 || old(self).history@[0].text@
                != text@) ==> {
                let kept = vstd::math::min(
                    old(self).history@.len() as int + 1,
                    old(self).max_history as int,
                );
                &&& final(self).history@.len() == kept
                &&& kept > 0 ==> final(self).history@[0].text == text
                &&& kept > 0 ==> final(self).history@[0].preview@ == preview_chars(text@)
                &&& kept > 0 ==> exists|m: int| final(self).history@[0].id@ == int_chars(m)
                &&& forall|j: int|
                    1 <= j < kept ==> final(self).history@[j] == old(self).history@[j - 1]
            },
            final(self).enabled == old(self).enabled,
            final(self).max_history == old(self).max_history,
    {
        if text.unicode_len() == 0 {
            return ;
        }
        if self.history.len() > 0 {
            let same = {
                let a = chars_of(self.history[0].text.as_str());
                let b = chars_of(text.as_str());
                crate::strutil::chars_eq(&a, &b)
            };
            if same {
                return ;
            }
        }
        let tv = chars_of(text.as_str());
        let preview = if tv.len() > 100 {
            let mut pv: Vec<char> = Vec::new();
            let mut i: usize = 0;
            while i < 100
                invariant
                    i <= 100,
                    tv@.len() > 100,
                    pv@ == tv@.take(i as int),
                decreases 100 - i,
            {
                pv.push(tv[i]);
                i += 1;
                assert(pv@ =~= tv@.take(i as int));
            }
            pv.push('.');
            pv.push('.');
            pv.push('.');
            assert(pv@ =~= tv@.take(100) + seq!['.', '.', '.']);
            string_from_chars(&pv)
        } else {
            clone_string(&text)
        };
        let stamp = now_millis();
        let entry = ClipboardEntry {
            id: i64_to_string(stamp),
            text,
            timestamp_millis: stamp,
            preview,
        };
        let ghost before = self.history@;
        self.history.insert(0, entry);
        proof {
            before.insert_ensures(0, entry);
            assert(self.history@[0] == entry);
            assert forall|j: int| 1 <= j < self.history@.len() implies self.history@[j]
                == before[j - 1] by {
                assert(before.insert(0, entry)[j] == before[j - 1]);
            }
        }
        if self.history.len() > self.max_history {
            let ghost inserted = self.history@;
            self.history.truncate(self.max_history);
            proof {
                assert forall|j: int| 0 <= j < self.history@.len() implies self.history@[j]
                    == inserted[j] by {}
            }
        }
    }

    /// A copy of the history, newest first.
    pub fn get_history(&self) -> (r: Vec<ClipboardEntry>)
        ensures
            r@ == self.history@,
    {
        let mut r: Vec<ClipboardEntry> = Vec::new();
        let mut i: usize = 0;
        while i < self.history.len()
            invariant
                i <= self.history@.len(),
                r@ == self.history@.take(i as int),
            decreases self.history@.len() - i,
        {
            r.push(self.history[i].clone());
            i += 1;
            assert(r@ =~= self.history@.take(i as int));
        }
        assert(r@ =~= self.history@);
        r
    }
}

impl Plugin for ClipboardPlugin {
    open spec fn plugin_id(&self) -> Seq<char> {
        "clipboard"@
    }

    open spec fn plugin_enabled(&self) -> bool {
        self.enabled
    }

    /// Search always succeeds.  An empty query lists the newest
    /// `limit`-or-fewer entries scoring 0; otherwise the first
    /// `limit`-or-fewer entries whose folded text holds the folded query
    /// come back, scoring 50 — either way at one single clock reading.
    open spec fn search_ens(
        &self,
        query: Seq<char>,
        limit: int,
        r: Result<Vec<SearchResult>, PluginError>,
    ) -> bool {
        match r {
            Ok(v) => {
                if query.len() == 0 {
                    let n = vstd::math::min(limit, self.history@.len() as int);
                    &&& v@.len() == n
                    &&& exists|now: int|
                        #[trigger] clip_results_at(self.plugin_id(), self.history@, now, 0, v@, n)
                } else {
                    let ms = self.history@.filter(|e: ClipboardEntry| clip_matches(e, fold(query)));
                    let n = vstd::math::min(limit, ms.len() as int);
                    &&& v@.len() == n
                    &&& exists|now: int|
                        #[trigger] clip_results_at(self.plugin_id(), ms, now, 50, v@, n)
                }
            },
            Err(_) => false,
        }
    }

    /// Executing a clipboard result resolves to placing its text on the
    /// clipboard; any other payload resolves to no outside work.
    open spec fn execute_ens(&self, res: SearchResult, r: Result<ExecOutcome, PluginError>) -> bool {
        match res.action {
            ActionData::CopyToClipboard { text } => r matches Ok(o) && o matches
                ExecOutcome::CopyText { text: t2 } && t2 == text,
            _ => r == Result::<ExecOutcome, PluginError>::Ok(ExecOutcome::NoEffect),
        }
    }

    fn id(&self) -> (r: &str) {
        "clipboard"
    }

    fn name(&self) -> (r: &str) {
        "Clipboard history"
    }

    fn description(&self) -> (r: &str) {
        "Search and paste earlier clipboard texts"
    }

    fn version(&self) -> (r: &str) {
        "0.1.0"
    }

    fn is_enabled(&self) -> (r: bool) {
        self.enabled
    }

    fn set_enabled(&mut self, enabled: bool) {
        self.enabled = enabled;
    }

    fn initialize(&mut self) -> (r: Result<(), PluginError>) {
        // The current clipboard text arrives through `add_entry`.
        Result::Ok(())
    }

    fn search(&self, query: &str, limit: usize) -> (r: Result<Vec<SearchResult>, PluginError>) {
        let now = now_millis();
        let mut results: Vec<SearchResult> = Vec::new();
        if query.is_empty() {
            let mut i: usize = 0;
            while i < self.history.len() && i < limit
                invariant
                    i <= self.history@.len(),
                    i <= limit,
                    results@.len() == i,
                    forall|j: int|
                        0 <= j < i ==> is_clip_result(
                            self.plugin_id(),
                            self.history@[j],
                            now as int,
                            0,
                            #[trigger] results@[j],
                        ),
                    forall|j: int|
                        0 <= j < results@.len() ==> owned_by(
                            #[trigger] results@[j],
                            self.plugin_id(),
                        ),
                decreases self.history@.len() - i,
            {
                let e = &self.history[i];
                let res = render_clip(self, e, now, 0);
                results.push(res);
                i += 1;
            }
            proof {
                assert(results@.len() == vstd::math::min(
                    limit as int,
                    self.history@.len() as int,
                ));
                assert(clip_results_at(
                    self.plugin_id(),
                    self.history@,
                    now as int,
                    0,
                    results@,
                    vstd::math::min(limit as int, self.history@.len() as int),
                ));
            }
            let rr = Result::<Vec<SearchResult>, PluginError>::Ok(results);
            proof {
                assert(self.search_ens(query@, limit as int, rr));
            }
            return rr;
        }
        let ghost pred = |e: ClipboardEntry| clip_matches(e, fold(query@));
        let fq = folded_chars_of(query);
        let mut i: usize = 0;
        proof {
            assert(self.history@.take(0) =~= Seq::<ClipboardEntry>::empty());
        }
        while i < self.history.len() && results.len() < limit
            invariant
                i <= self.history@.len(),
                fq@ == fold(query@),
                results@.len() <= limit,
                results@.len() == self.history@.take(i as int).filter(pred).len(),
                forall|j: int|
                    0 <= j < results@.len() ==> is_clip_result(
                        self.plugin_id(),
                        self.history@.take(i as int).filter(pred)[j],
                        now as int,
                        50,
                        #[trigger] results@[j],
                    ),
                forall|j: int|
                    0 <= j < results@.len() ==> owned_by(#[trigger] results@[j], self.plugin_id()),
                pred == |e: ClipboardEntry| clip_matches(e, fold(query@)),
            decreases self.history@.len() - i,
        {
            let e = &self.history[i];
            let text_match = {
                let h = folded_chars_of(e.text.as_str());
                crate::strutil::contains_seq(&h, &fq)
            };
            let ghost taken = self.history@.take(i as int);
            proof {
                assert(self.history@.take(i + 1) =~= taken.push(self.history@[i as int]));
                lemma_filter_push(taken, self.history@[i as int], pred);
            }
            if text_match {
                let res = render_clip(self, e, now, 50);
                results.push(res);
            }
            i += 1;
        }
        proof {
            lemma_filter_take_prefix(self.history@, i as int, pred);
            if i == self.history@.len() {
                assert(self.history@.take(i as int) =~= self.history@);
            }
            let ms = self.history@.filter(pred);
            assert(results@.len() == vstd::math::min(limit as int, ms.len() as int));
            assert(clip_results_at(
                self.plugin_id(),
                ms,
                now as int,
                50,
                results@,
                vstd::math::min(limit as int, ms.len() as int),
            ));
        }
        let rr = Result::<Vec<SearchResult>, PluginError>::Ok(results);
        proof {
            assert(self.search_ens(query@, limit as int, rr));
        }
        rr
    }

    fn execute(&self, result: &SearchResult) -> (r: Result<ExecOutcome, PluginError>) {
        match &result.action {
            ActionData::CopyToClipboard { text } => Result::Ok(
                ExecOutcome::CopyText { text: clone_string(text) },
            ),
            _ => Result::Ok(ExecOutcome::NoEffect),
        }
    }

    fn refresh(&mut self) -> (r: Result<(), PluginError>) {
        // Refreshing forgets the remembered history.
        self.history = Vec::new();
        Result::Ok(())
    }
}

/// The result rendered for one history entry at one clock reading.
fn render_clip(p: &ClipboardPlugin, e: &ClipboardEntry, now: i64, score: u32) -> (r: SearchResult)
    ensures
        is_clip_result(p.plugin_id(), *e, now as int, score, r),
        owned_by(r, p.plugin_id()),
{
    let rid = scoped_id(p.id(), e.id.as_str());
    proof {
        lemma_scoped_id_owned(p.plugin_id(), e.id@);
    }
    let mut description = format_time(now, e.timestamp_millis);
    description.append(" - press Enter to paste");
    SearchResult::new(
        rid,
        clone_string(&e.preview),
        description,
        ResultType::Clipboard,
        score,
        ActionData::CopyToClipboard { text: clone_string(&e.text) },
    )
}

} // verus!
