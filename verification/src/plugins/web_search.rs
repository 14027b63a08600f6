//! Web search provider: a table of search engines with URL templates, a
//! short prefix syntax to pick one, and percent-encoded search URLs.
//!
//! Opening the browser is outside work; percent-encoding is done by an
//! outside crate behind a trusted wrapper with an exact byte-level contract.

use vstd::prelude::*;
use vstd::string::StringSliceAdditionalSpecFns;
use crate::numfmt::hex_digit_upper;
use crate::plugin::{lemma_scoped_id_owned, owned_by, scoped_id, Plugin, PluginError};
use crate::search::{
    clone_opt_string, clone_string, ActionData, ExecOutcome, ResultType, SearchResult,
};
use crate::strutil::{
    chars_of, contains_char, is_prefix, replace_all, replace_all_spec, starts_with_seq,
    string_from_chars,
};
use vstd::utf8::encode_utf8;

verus! {

/// One search engine: its URL template carries a `{query}` placeholder.
#[derive(Debug)]
pub struct SearchEngine {
    pub name: String,
    pub id: String,
    pub url_template: String,
    pub icon: Option<String>,
}

impl Clone for SearchEngine {
    /// An exact copy of the engine.
    fn clone(&self) -> (r: Self)
        ensures
            r == *self,
    {
        SearchEngine {
            name: clone_string(&self.name),
            id: clone_string(&self.id),
            url_template: clone_string(&self.url_template),
            icon: clone_opt_string(&self.icon),
        }
    }
}

/// The provider.
pub struct WebSearchPlugin {
    pub enabled: bool,
    pub default_engine: String,
    pub engines: Vec<SearchEngine>,
}

/// Whether a byte passes through percent encoding unchanged: ASCII
/// alphanumerics and `-`, `.`, `_`, `~`.
pub open spec fn url_safe_byte(b: u8) -> bool {
    (48 <= b && b <= 57) || (65 <= b && b <= 90) || (97 <= b && b <= 122) || b == 45 || b == 46
        || b == 95 || b == 126
}

/// The percent encoding of a byte string: safe bytes stand as themselves,
/// every other byte becomes `%` and two upper-case hex digits.
pub open spec fn percent_encoded(bytes: Seq<u8>) -> Seq<char>
    decreases bytes.len(),
{
    if bytes.len() == 0 {
        Seq::<char>::empty()
    } else {
        (if url_safe_byte(bytes[0]) {
            seq![bytes[0] as char]
        } else {
            seq![
                '%',
                hex_digit_upper(bytes[0] as int / 16),
                hex_digit_upper(bytes[0] as int % 16),
            ]
        }) + percent_encoded(bytes.drop_first())
    }
}

/// Relies on urlencoding's `encode`: it percent-encodes every byte of the
/// UTF-8 form except ASCII alphanumerics and `-`, `.`, `_`, `~`, with
/// upper-case hex digits.
#[verifier::external_body]
fn url_encode(s: &str) -> (r: String)
    ensures
        r@ == percent_encoded(s.spec_bytes()),
{
    urlencoding::encode(s).into_owned()
}

/// The search URL of engine `e` for the query text `sq`: the template with
/// every `{query}` placeholder replaced by the percent-encoded query.
pub open spec fn search_url(e: SearchEngine, sq: Seq<char>) -> Seq<char> {
    replace_all_spec(e.url_template@, "{query}"@, percent_encoded(encode_utf8(sq)))
}

/// The engine id and remaining query text selected by a recognised prefix,
/// if the query starts with one.
pub open spec fn prefix_route(q: Seq<char>) -> Option<(Seq<char>, Seq<char>)> {
    if is_prefix("g "@, q) {
        Some(("google"@, q.skip("g "@.len() as int)))
    } else if is_prefix("b "@, q) {
        Some(("bing"@, q.skip("b "@.len() as int)))
    } else if is_prefix("bd "@, q) {
        Some(("baidu"@, q.skip("bd "@.len() as int)))
    } else if is_prefix("ddg "@, q) {
        Some(("duckduckgo"@, q.skip("ddg "@.len() as int)))
    } else if is_prefix("gh "@, q) {
        Some(("github"@, q.skip("gh "@.len() as int)))
    } else if is_prefix("so "@, q) {
        Some(("stackoverflow"@, q.skip("so "@.len() as int)))
    } else {
        None
    }
}

/// Whether some engine carries the given id.
pub open spec fn has_first_engine(engines: Seq<SearchEngine>, eid: Seq<char>) -> bool {
    exists|i: int| is_first_engine(engines, eid, i)
}

/// Whether the query holds no space.
pub open spec fn no_spaces(q: Seq<char>) -> bool {
    forall|i: int| 0 <= i < q.len() ==> q[i] != ' '
}

/// Whether index `i` holds the first engine with the given id.
pub open spec fn is_first_engine(engines: Seq<SearchEngine>, eid: Seq<char>, i: int) -> bool {
    &&& 0 <= i < engines.len()
    &&& engines[i].id@ == eid
    &&& forall|k: int| 0 <= k < i ==> (#[trigger] engines[k].id@) != eid
}

/// Whether `r` is the result rendered for engine `e` and query text `sq`
/// with score `score`.
pub open spec fn is_web_result(
    pid: Seq<char>,
    e: SearchEngine,
    sq: Seq<char>,
    score: u32,
    r: SearchResult,
) -> bool {
    &&& r.id@ == pid + seq![':'] + (e.id@ + seq![':'] + sq)
    &&& r.title@ == "Search "@ + e.name@ + " for "@ + sq
    &&& r.description@ == "Search "@ + e.name@ + " for "@ + sq
    &&& r.icon == e.icon
    &&& r.result_type is Command
    &&& r.score == score
    &&& r.action matches ActionData::OpenUrl { url } && url@ == search_url(e, sq)
}

impl WebSearchPlugin {
    /// The provider with its built-in engine table, defaulting to the first
    /// entry, enabled.
    pub fn new() -> (r: WebSearchPlugin)
        ensures
            r.plugin_enabled(),
            r.engines@.len() == 6,
            r.default_engine@ == "google"@,
            r.engines@[0].id@ == "google"@ && r.engines@[0].name@ == "Google"@
                && r.engines@[0].url_template@ == "https://www.google.com/search?q={query}"@,
            r.engines@[1].id@ == "bing"@ && r.engines@[1].name@ == "Bing"@
                && r.engines@[1].url_template@ == "https://www.bing.com/search?q={query}"@,
            r.engines@[2].id@ == "baidu"@ && r.engines@[2].name@ == "Baidu"@
                && r.engines@[2].url_template@ == "https://www.baidu.com/s?wd={query}"@,
            r.engines@[3].id@ == "duckduckgo"@ && r.engines@[3].name@ == "DuckDuckGo"@
                && r.engines@[3].url_template@ == "https://duckduckgo.com/?q={query}"@,
            r.engines@[4].id@ == "github"@ && r.engines@[4].name@ == "GitHub"@
                && r.engines@[4].url_template@ == "https://github.com/search?q={query}"@,
            r.engines@[5].id@ == "stackoverflow"@ && r.engines@[5].name@ == "Stack Overflow"@
                && r.engines@[5].url_template@ == "https://stackoverflow.com/search?q={query}"@,
            forall|j: int| 0 <= j < 6 ==> (#[trigger] r.engines@[j].icon) is None,
    {
        let mut engines: Vec<SearchEngine> = Vec::new();
        push_engine(&mut engines, "Google", "google", "https://www.google.com/search?q={query}");
        push_engine(&mut engines, "Bing", "bing", "https://www.bing.com/search?q={query}");
        push_engine(&mut engines, "Baidu", "baidu", "https://www.baidu.com/s?wd={query}");
        push_engine(&mut engines, "DuckDuckGo", "duckduckgo", "https://duckduckgo.com/?q={query}");
        push_engine(&mut engines, "GitHub", "github", "https://github.com/search?q={query}");
        push_engine(
            &mut engines,
            "Stack Overflow",
            "stackoverflow",
            "https://stackoverflow.com/search?q={query}",
        );
        WebSearchPlugin {
            enabled: true,
            default_engine: String::from_str("google"),
            engines,
        }
    }

    /// The first engine with the given id, if any.
    pub fn get_engine(&self, id: &str) -> (r: Option<&SearchEngine>)
        ensures
            r matches Some(e) ==> exists|i: int|
                is_first_engine(self.engines@, id@, i) && *e == self.engines@[i],
            r is None ==> forall|i: int|
                0 <= i < self.engines@.len() ==> (#[trigger] self.engines@[i].id@) != id@,
    {
        let idv = chars_of(id);
        let mut i: usize = 0;
        while i < self.engines.len()
            invariant
                i <= self.engines@.len(),
                idv@ == id@,
                forall|k: int| 0 <= k < i ==> (#[trigger] self.engines@[k].id@) != id@,
            decreases self.engines@.len() - i,
        {
            let e = &self.engines[i];
            let ev = chars_of(e.id.as_str());
            if crate::strutil::chars_eq(&ev, &idv) {
                assert(is_first_engine(self.engines@, id@, i as int));
                return Option::Some(e);
            }
            i += 1;
        }
        Option::None
    }

    /// The search URL of the first engine with the given id, for `query`.
    pub fn build_search_url(&self, engine_id: &str, query: &str) -> (r: Option<String>)
        ensures
            r matches Some(url) ==> exists|i: int|
                is_first_engine(self.engines@, engine_id@, i) && url@ == search_url(
                    self.engines@[i],
                    query@,
                ),
            r is None ==> forall|i: int|
                0 <= i < self.engines@.len() ==> (#[trigger] self.engines@[i].id@) != engine_id@,
    {
        match self.get_engine(engine_id) {
            Option::Some(e) => Option::Some(build_url(e, query)),
            Option::None => Option::None,
        }
    }
}

/// The search URL of one engine for one query text.
fn build_url(e: &SearchEngine, query: &str) -> (r: String)
    ensures
        r@ == search_url(*e, query@),
{
    let tv = chars_of(e.url_template.as_str());
    let pat = chars_of("{query}");
    let encoded = url_encode(query);
    let rep = chars_of(encoded.as_str());
    proof {
        assert(rep@ == percent_encoded(encode_utf8(query@)));
    }
    let out = replace_all(&tv, &pat, &rep);
    string_from_chars(&out)
}

/// Appends one iconless engine to the table.
fn push_engine(engines: &mut Vec<SearchEngine>, name: &str, id: &str, url_template: &str)
    ensures
        final(engines)@.len() == old(engines)@.len() + 1,
        forall|j: int| 0 <= j < old(engines)@.len() ==> final(engines)@[j] == old(engines)@[j],
        final(engines)@.last().name@ == name@,
        final(engines)@.last().id@ == id@,
        final(engines)@.last().url_template@ == url_template@,
        final(engines)@.last().icon is None,
{
    let entry = SearchEngine {
        name: String::from_str(name),
        id: String::from_str(id),
        url_template: String::from_str(url_template),
        icon: Option::None,
    };
    engines.push(entry);
}

impl Plugin for WebSearchPlugin {
    open spec fn plugin_id(&self) -> Seq<char> {
        "web_search"@
    }

    open spec fn plugin_enabled(&self) -> bool {
        self.enabled
    }

    /// Search always succeeds.  A recognised two-letter prefix picks an
    /// engine, anything else uses the default engine with the whole query.
    /// A nonempty query text yields one result for the picked engine
    /// scoring 80; a nonempty query without spaces additionally yields one
    /// result per other engine in table order, scoring 70 — all within the
    /// limit.
    open spec fn search_ens(
        &self,
        query: Seq<char>,
        limit: int,
        r: Result<Vec<SearchResult>, PluginError>,
    ) -> bool {
        match r {
            Ok(v) => {
                let eid = match prefix_route(query) {
                    Some((id, _)) => id,
                    None => self.default_engine@,
                };
                let sq = match prefix_route(query) {
                    Some((_, rest)) => rest,
                    None => query,
                };
                let prim: int = if sq.len() > 0 && limit >= 1 && has_first_engine(
                    self.engines@,
                    eid,
                ) {
                    1
                } else {
                    0
                };
                let others = self.engines@.filter(|e: SearchEngine| e.id@ != eid);
                let sec: int = if query.len() > 0 && no_spaces(query) {
                    vstd::math::min(limit - prim, others.len() as int)
                } else {
                    0
                };
                &&& v@.len() == prim + sec
                &&& prim == 1 ==> forall|i: int|
                    is_first_engine(self.engines@, eid, i) ==> is_web_result(
                        self.plugin_id(),
                        #[trigger] self.engines@[i],
                        sq,
                        80,
                        v@[0],
                    )
                &&& forall|j: int|
                    0 <= j < sec ==> is_web_result(
                        self.plugin_id(),
                        others[j],
                        query,
                        70,
                        #[trigger] v@[prim + j],
                    )
            },
            Err(_) => false,
        }
    }

    /// Executing a web result resolves to opening its URL; any other
    /// payload resolves to no outside work.
    open spec fn execute_ens(&self, res: SearchResult, r: Result<ExecOutcome, PluginError>) -> bool {
        match res.action {
            ActionData::OpenUrl { url } => r matches Ok(o) && o matches ExecOutcome::OpenUrl {
                url: u2 } && u2 == url,
            _ => r == Result::<ExecOutcome, PluginError>::Ok(ExecOutcome::NoEffect),
        }
    }

    fn id(&self) -> (r: &str) {
        "web_search"
    }

    fn name(&self) -> (r: &str) {
        "Web search"
    }

    fn description(&self) -> (r: &str) {
        "Search the web with several engines"
    }

    fn version(&self) -> (r: &str) {
        "0.1.0"
    }

    fn is_enabled(&self) -> (r: bool) {
        self.enabled
    }

    fn set_enabled(&mut self, enabled: bool) {
        self.enabled = enabled;
    }

    fn initialize(&mut self) -> (r: Result<(), PluginError>) {
        Result::Ok(())
    }

    #[verifier::rlimit(100)]
    #[verifier::spinoff_prover]
    fn search(&self, query: &str, limit: usize) -> (r: Result<Vec<SearchResult>, PluginError>) {
        let qv = chars_of(query);
        // Which engine the query picks, and the query text that remains.
        let mut eid = clone_string(&self.default_engine);
        let mut sqv = crate::strutil::clone_chars(&qv);
        let ghost route = prefix_route(query@);
        let mut routed = false;
        let p0 = chars_of("g ");
        let p1 = chars_of("b ");
        let p2 = chars_of("bd ");
        let p3 = chars_of("ddg ");
        let p4 = chars_of("gh ");
        let p5 = chars_of("so ");
        if starts_with_seq(&qv, &p0) {
            eid = String::from_str("google");
            sqv = tail_from(&qv, p0.len());
            routed = true;
        } else if starts_with_seq(&qv, &p1) {
            eid = String::from_str("bing");
            sqv = tail_from(&qv, p1.len());
            routed = true;
        } else if starts_with_seq(&qv, &p2) {
            eid = String::from_str("baidu");
            sqv = tail_from(&qv, p2.len());
            routed = true;
        } else if starts_with_seq(&qv, &p3) {
            eid = String::from_str("duckduckgo");
            sqv = tail_from(&qv, p3.len());
            routed = true;
        } else if starts_with_seq(&qv, &p4) {
            eid = String::from_str("github");
            sqv = tail_from(&qv, p4.len());
            routed = true;
        } else if starts_with_seq(&qv, &p5) {
            eid = String::from_str("stackoverflow");
            sqv = tail_from(&qv, p5.len());
            routed = true;
        }
        proof {
            if routed {
                assert(route matches Some(pair) && eid@ == pair.0 && sqv@ == pair.1);
            } else {
                assert(route is None);
                assert(eid@ == self.default_engine@ && sqv@ == query@);
            }
        }
        let ghost spec_eid = eid@;
        let ghost spec_sq = sqv@;
        let mut results: Vec<SearchResult> = Vec::new();
        // The picked engine's own result.
        if sqv.len() > 0 && limit >= 1 {
            let sqs = string_from_chars(&sqv);
            match self.get_engine(eid.as_str()) {
                Option::Some(e) => {
                    let res = render_web(self, e, sqs.as_str(), 80);
                    results.push(res);
                    proof {
                        let w0 = choose|w: int|
                            is_first_engine(self.engines@, spec_eid, w) && *e == self.engines@[w];
                        assert(is_first_engine(self.engines@, spec_eid, w0));
                        assert(has_first_engine(self.engines@, spec_eid));
                        assert forall|i: int|
                            is_first_engine(self.engines@, spec_eid, i) implies is_web_result(
                            self.plugin_id(),
                            #[trigger] self.engines@[i],
                            spec_sq,
                            80,
                            results@[0],
                        ) by {
                            let w = choose|w: int|
                                is_first_engine(self.engines@, spec_eid, w) && *e
                                    == self.engines@[w];
                            if i < w {
                                assert(self.engines@[i].id@ != spec_eid);
                            } else if i > w {
                                assert(self.engines@[w].id@ != spec_eid);
                            }
                        }
                    }
                },
                Option::None => {
                    proof {
                        assert forall|i: int|
                            !is_first_engine(self.engines@, spec_eid, i) by {
                            if 0 <= i < self.engines@.len() {
                                assert(self.engines@[i].id@ != spec_eid);
                            }
                        }
                        assert(!has_first_engine(self.engines@, spec_eid));
                    }
                },
            }
        }
        let ghost prim = results@.len() as int;
        proof {
            if !(spec_sq.len() > 0 && limit >= 1 && has_first_engine(self.engines@, spec_eid)) {
                assert(results@.len() == 0);
            }
        }
        // One result per other engine, for a spaceless query.
        if qv.len() > 0 && !contains_char(&qv, ' ') {
            let qs = string_from_chars(&qv);
            let ghost pred = |e: SearchEngine| e.id@ != spec_eid;
            let eidv = chars_of(eid.as_str());
            let mut i: usize = 0;
            proof {
                assert(self.engines@.take(0) =~= Seq::<SearchEngine>::empty());
            }
            while i < self.engines.len() && results.len() < limit
                invariant
                    i <= self.engines@.len(),
                    eidv@ == spec_eid,
                    qs@ == query@,
                    prim <= results@.len() <= limit,
                    prim == 0 || prim == 1,
                    results@.len() - prim == self.engines@.take(i as int).filter(pred).len(),
                    forall|j: int|
                        0 <= j < results@.len() - prim ==> is_web_result(
                            self.plugin_id(),
                            self.engines@.take(i as int).filter(pred)[j],
                            query@,
                            70,
                            #[trigger] results@[prim + j],
                        ),
                    prim == 1 ==> (forall|i: int|
                        is_first_engine(self.engines@, spec_eid, i) ==> is_web_result(
                            self.plugin_id(),
                            #[trigger] self.engines@[i],
                            spec_sq,
                            80,
                            results@[0],
                        )),
                    forall|j: int|
                        0 <= j < results@.len() ==> owned_by(
                            #[trigger] results@[j],
                            self.plugin_id(),
                        ),
                    pred == |e: SearchEngine| e.id@ != spec_eid,
                decreases self.engines@.len() - i,
            {
                let e = &self.engines[i];
                let ev = chars_of(e.id.as_str());
                let differs = !crate::strutil::chars_eq(&ev, &eidv);
                let ghost taken = self.engines@.take(i as int);
                proof {
                    assert(self.engines@.take(i + 1) =~= taken.push(self.engines@[i as int]));
                    crate::strutil::lemma_filter_push(taken, self.engines@[i as int], pred);
                }
                if differs {
                    let res = render_web(self, e, qs.as_str(), 70);
                    results.push(res);
                }
                i += 1;
            }
            proof {
                crate::strutil::lemma_filter_take_prefix(self.engines@, i as int, pred);
                if i == self.engines@.len() {
                    assert(self.engines@.take(i as int) =~= self.engines@);
                }
                let others = self.engines@.filter(pred);
                assert(results@.len() - prim == vstd::math::min(
                    limit as int - prim,
                    others.len() as int,
                ));
                assert forall|j: int|
                    0 <= j < results@.len() - prim implies is_web_result(
                    self.plugin_id(),
                    others[j],
                    query@,
                    70,
                    results@[prim + j],
                ) by {
                    assert(others[j] == self.engines@.take(i as int).filter(pred)[j]);
                }
            }
        }
        proof {
            assert(spec_eid == (match prefix_route(query@) {
                Some((id, _)) => id,
                None => self.default_engine@,
            }));
            assert(spec_sq == (match prefix_route(query@) {
                Some((_, rest)) => rest,
                None => query@,
            }));
            if qv@.len() > 0 && !qv@.contains(' ') {
                assert forall|k: int| 0 <= k < query@.len() implies query@[k] != ' ' by {
                    if query@[k] == ' ' {
                        assert(query@.contains(' '));
                    }
                }
                assert(no_spaces(query@));
            } else {
                if query@.len() > 0 && no_spaces(query@) {
                    let w = choose|w: int| 0 <= w < query@.len() && query@[w] == ' ';
                    assert(query@[w] != ' ');
                }
            }
        }
        proof {
            let eidq = match prefix_route(query@) {
                Some((id, _)) => id,
                None => self.default_engine@,
            };
            let sqq = match prefix_route(query@) {
                Some((_, rest)) => rest,
                None => query@,
            };
            let primq: int = if sqq.len() > 0 && limit as int >= 1 && has_first_engine(
                self.engines@,
                eidq,
            ) {
                1
            } else {
                0
            };
            let othersq = self.engines@.filter(|e: SearchEngine| e.id@ != eidq);
            let secq: int = if query@.len() > 0 && no_spaces(query@) {
                vstd::math::min(limit as int - primq, othersq.len() as int)
            } else {
                0
            };
            assert(primq == prim);
            assert(results@.len() == primq + secq);
            assert(primq == 1 ==> forall|i: int|
                is_first_engine(self.engines@, eidq, i) ==> is_web_result(
                    self.plugin_id(),
                    #[trigger] self.engines@[i],
                    sqq,
                    80,
                    results@[0],
                ));
            assert(forall|j: int|
                0 <= j < secq ==> is_web_result(
                    self.plugin_id(),
                    othersq[j],
                    query@,
                    70,
                    #[trigger] results@[primq + j],
                ));
        }
        let rr = Result::<Vec<SearchResult>, PluginError>::Ok(results);
        proof {
            assert(self.search_ens(query@, limit as int, rr));
        }
        rr
    }

    fn execute(&self, result: &SearchResult) -> (r: Result<ExecOutcome, PluginError>) {
        match &result.action {
            ActionData::OpenUrl { url } => Result::Ok(
                ExecOutcome::OpenUrl { url: clone_string(url) },
            ),
            _ => Result::Ok(ExecOutcome::NoEffect),
        }
    }

    fn refresh(&mut self) -> (r: Result<(), PluginError>) {
        Result::Ok(())
    }
}

/// The tail of `v` from index `from` on.
fn tail_from(v: &Vec<char>, from: usize) -> (r: Vec<char>)
    requires
        from <= v@.len(),
    ensures
        r@ == v@.skip(from as int),
{
    let mut r: Vec<char> = Vec::new();
    let mut i: usize = from;
    while i < v.len()
        invariant
            from <= i <= v@.len(),
            r@ == v@.skip(from as int).take(i - from),
        decreases v@.len() - i,
    {
        r.push(v[i]);
        i += 1;
        assert(r@ =~= v@.skip(from as int).take(i - from));
    }
    assert(r@ =~= v@.skip(from as int));
    r
}

/// The result rendered for one engine and one query text.
fn render_web(p: &WebSearchPlugin, e: &SearchEngine, sq: &str, score: u32) -> (r: SearchResult)
    ensures
        is_web_result(p.plugin_id(), *e, sq@, score, r),
        owned_by(r, p.plugin_id()),
{
    let mut suffix = clone_string(&e.id);
    suffix.append(":");
    suffix.append(sq);
    proof {
        reveal_strlit(":");
        assert(suffix@ =~= e.id@ + seq![':'] + sq@);
    }
    let rid = scoped_id(p.id(), suffix.as_str());
    proof {
        lemma_scoped_id_owned(p.plugin_id(), suffix@);
    }
    let mut title = String::from_str("Search ");
    title.append(e.name.as_str());
    title.append(" for ");
    title.append(sq);
    let description = clone_string(&title);
    let url = build_url(e, sq);
    SearchResult::new(
        rid,
        title,
        description,
        ResultType::Command,
        score,
        ActionData::OpenUrl { url },
    ).with_icon(clone_opt_string(&e.icon))
}

} // verus!
