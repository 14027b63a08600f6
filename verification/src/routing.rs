//! The routing protocol over the orchestrator, and the caller-held search
//! session.
//!
//! A query that starts with `/` is scoped: `/<provider-id-prefix>` alone
//! lists synthetic picker results for the matching providers, and
//! `/<provider-id-prefix> <rest>` searches that one provider.  Choosing a
//! picker result sets the session's active provider, which later queries are
//! scoped to until it is cleared.

use vstd::prelude::*;
use crate::fuzzy::{highlight, highlight_matches};
use crate::plugin::{
    enabled_fanout, from_enabled_provider, is_first_with_id, matched_ids, owned_by, scoped_reply,
    sort_trunc, AnyPlugin, Plugin, PluginManager,
};
use crate::rank::sorted_desc;
use crate::search::{clone_string, ActionData, ResultType, SearchResult};
use crate::strutil::{chars_of, first_index_of, fold, lemma_first_index_of, split_once_at, string_from_chars};

verus! {

/// The query with its leading scoping markers removed.
pub open spec fn strip_slashes(q: Seq<char>) -> Seq<char>
    decreases q.len(),
{
    if q.len() > 0 && q[0] == '/' {
        strip_slashes(q.drop_first())
    } else {
        q
    }
}

/// Whether `r` is the synthetic picker result for the provider id `id`:
/// a sentinel the orchestrator's caller intercepts instead of executing.
pub open spec fn is_picker_result(id: Seq<char>, r: SearchResult) -> bool {
    &&& r.id@ == "__plugin__:"@ + id
    &&& r.title@ == seq!['/'] + id + seq![' ']
    &&& r.description@ == "Press Enter to choose this provider, then type to search"@
    &&& r.icon is None
    &&& r.result_type matches ResultType::Custom(k) && k@ == "plugin"@
    &&& r.score == 1000
    &&& r.action matches ActionData::Custom { plugin, data } && plugin@ == "selector"@
        && data@ == id
}

/// What a `/`-scoped query yields: nothing for slashes alone; one picker
/// result per provider whose id starts with the given prefix when no search
/// term follows; and the named provider's sorted, bounded reply when one
/// does.
pub open spec fn slash_response(
    plugins: Seq<AnyPlugin>,
    query: Seq<char>,
    out: Seq<SearchResult>,
) -> bool {
    let body = strip_slashes(query);
    let cut = first_index_of(body, ' ');
    let term = if cut >= body.len() {
        Seq::<char>::empty()
    } else {
        body.skip(cut + 1)
    };
    if body.len() == 0 {
        out.len() == 0
    } else if term.len() == 0 {
        let ids = matched_ids(plugins, body.take(cut));
        out.len() == ids.len() && forall|j: int|
            0 <= j < ids.len() ==> is_picker_result(ids[j], #[trigger] out[j])
    } else {
        &&& out.len() <= 50
        &&& sorted_desc(out)
        &&& forall|k: int| 0 <= k < out.len() ==> owned_by(#[trigger] out[k], body.take(cut))
        &&& forall|i: int|
            #[trigger] is_first_with_id(plugins, body.take(cut), i) ==> scoped_reply(
                plugins[i],
                term,
                50,
                out,
            )
    }
}

/// Handles a `/`-scoped query: a bare provider prefix yields one picker
/// result per matching provider id, in registration order; a prefix with a
/// search term searches that provider.  A query of slashes alone yields
/// nothing.
pub fn handle_plugin_command(manager: &PluginManager, query: &str) -> (r: Vec<SearchResult>)
    ensures
        slash_response(manager.plugins@, query@, r@),
{
    let qv = chars_of(query);
    let mut start: usize = 0;
    proof {
        assert(qv@.skip(0) =~= query@);
    }
    while start < qv.len() && qv[start] == '/'
        invariant
            start <= qv@.len(),
            qv@ == query@,
            strip_slashes(query@) == strip_slashes(qv@.skip(start as int)),
        decreases qv@.len() - start,
    {
        let ghost ts = qv@.skip(start as int);
        assert(ts[0] == '/');
        assert(ts.drop_first() =~= qv@.skip(start + 1));
        start += 1;
    }
    let ghost body = strip_slashes(query@);
    proof {
        let ts = qv@.skip(start as int);
        if ts.len() > 0 {
            assert(ts[0] != '/');
        }
        assert(body == ts);
    }
    let mut bv: Vec<char> = Vec::new();
    let mut i: usize = start;
    while i < qv.len()
        invariant
            start <= i <= qv@.len(),
            qv@ == query@,
            bv@ == qv@.skip(start as int).take(i - start),
        decreases qv@.len() - i,
    {
        bv.push(qv[i]);
        i += 1;
        assert(bv@ =~= qv@.skip(start as int).take(i - start));
    }
    assert(bv@ =~= qv@.skip(start as int));
    if bv.len() == 0 {
        return Vec::new();
    }
    proof {
        lemma_first_index_of(bv@, ' ');
    }
    let (prefix_v, rest) = split_once_at(&bv, ' ');
    let prefix = string_from_chars(&prefix_v);
    let term_v: Vec<char> = match rest {
        Option::Some(t) => t,
        Option::None => Vec::new(),
    };
    if term_v.len() == 0 {
        // A bare prefix: list the matching providers as picker results.
        let ids = manager.match_plugin_ids(prefix.as_str());
        let ghost idseq = matched_ids(manager.plugins@, bv@.take(first_index_of(bv@, ' ')));
        let mut out: Vec<SearchResult> = Vec::new();
        let mut k: usize = 0;
        proof {
            assert(ids@.map_values(|s: String| s@) == idseq);
        }
        while k < ids.len()
            invariant
                k <= ids@.len(),
                ids@.map_values(|s: String| s@) == idseq,
                out@.len() == k,
                forall|j: int| 0 <= j < k ==> is_picker_result(idseq[j], #[trigger] out@[j]),
            decreases ids@.len() - k,
        {
            let id = &ids[k];
            let rid = crate::strutil::concat_str("__plugin__:", id.as_str());
            let mut title = String::from_str("/");
            title.append(id.as_str());
            title.append(" ");
            proof {
                reveal_strlit("/");
                reveal_strlit(" ");
                assert(title@ =~= seq!['/'] + id@ + seq![' ']);
                assert(idseq[k as int] == ids@.map_values(|s: String| s@)[k as int]);
            }
            let res = SearchResult::new(
                rid,
                title,
                String::from_str("Press Enter to choose this provider, then type to search"),
                ResultType::Custom(String::from_str("plugin")),
                1000,
                ActionData::Custom {
                    plugin: String::from_str("selector"),
                    data: clone_string(id),
                },
            );
            out.push(res);
            k += 1;
        }
        out
    } else {
        let term = string_from_chars(&term_v);
        manager.search_plugin(prefix.as_str(), term.as_str(), 50)
    }
}

/// The caller-held search session: the current result list, the selection,
/// the last query, and the active provider the session is scoped to.
pub struct ResultListDelegate {
    pub items: Vec<SearchResult>,
    pub selected_index: Option<usize>,
    pub search_query: String,
    pub active_plugin_id: Option<String>,
}

impl ResultListDelegate {
    /// A session holding the given items, nothing selected, no scope.
    pub fn new(items: Vec<SearchResult>) -> (r: ResultListDelegate)
        ensures
            r.items == items,
            r.selected_index is None,
            r.search_query@.len() == 0,
            r.active_plugin_id is None,
    {
        ResultListDelegate {
            items,
            selected_index: None,
            search_query: String::new(),
            active_plugin_id: None,
        }
    }

    /// Replaces the items and clears the selection.
    pub fn set_items(&mut self, items: Vec<SearchResult>)
        ensures
            final(self).items == items,
            final(self).selected_index is None,
            final(self).active_plugin_id == old(self).active_plugin_id,
    {
        self.items = items;
        self.selected_index = None;
    }

    /// How many items the session holds.
    pub fn items_count(&self) -> (r: usize)
        ensures
            r == self.items@.len(),
    {
        self.items.len()
    }

    /// The item at `index`, if there is one.
    pub fn get_item(&self, index: usize) -> (r: Option<&SearchResult>)
        ensures
            index < self.items@.len() ==> (r matches Some(it) && *it == self.items@[index as int]),
            index >= self.items@.len() ==> r is None,
    {
        if index < self.items.len() {
            Option::Some(&self.items[index])
        } else {
            Option::None
        }
    }

    /// Replaces the items with fresh search results and clears the
    /// selection.
    pub fn update_from_search(&mut self, results: Vec<SearchResult>)
        ensures
            final(self).items == results,
            final(self).selected_index is None,
            final(self).active_plugin_id == old(self).active_plugin_id,
    {
        self.items = results;
        self.selected_index = None;
    }

    /// Scopes the session to a provider, or clears the scope.
    pub fn set_active_plugin(&mut self, plugin_id: Option<String>)
        ensures
            final(self).active_plugin_id == plugin_id,
            final(self).items == old(self).items,
    {
        self.active_plugin_id = plugin_id;
    }

    /// Scopes the session to the given provider.
    pub fn select_plugin(&mut self, plugin_id: &str)
        ensures
            final(self).active_plugin_id matches Some(p) && p@ == plugin_id@,
            final(self).items == old(self).items,
    {
        self.active_plugin_id = Option::Some(String::from_str(plugin_id));
    }

    /// The provider the session is scoped to, if any.
    pub fn get_active_plugin(&self) -> (r: Option<&String>)
        ensures
            self.active_plugin_id matches Some(p) ==> (r matches Some(q) && *q == p),
            self.active_plugin_id is None ==> r is None,
    {
        match &self.active_plugin_id {
            Option::Some(p) => Option::Some(p),
            Option::None => Option::None,
        }
    }

    /// Drops the session's provider scope.
    pub fn clear_active_plugin(&mut self)
        ensures
            final(self).active_plugin_id is None,
            final(self).items == old(self).items,
    {
        self.active_plugin_id = None;
    }

    /// Moves the selection.
    pub fn set_selected_index(&mut self, ix: Option<usize>)
        ensures
            final(self).selected_index == ix,
            final(self).items == old(self).items,
    {
        self.selected_index = ix;
    }

    /// Runs `query` through the session: scoped to the active provider when
    /// one is set, through the `/` protocol when the query starts with a
    /// slash, and fanned out to every enabled provider otherwise; the items
    /// are replaced by the results, each with its title and description
    /// highlighted against the query, and the selection is cleared.
    pub fn perform_search_internal(&mut self, manager: &PluginManager, query: &str)
        ensures
            final(self).selected_index is None,
            final(self).active_plugin_id == old(self).active_plugin_id,
            final(self).search_query@ == query@,
            forall|k: int|
                0 <= k < final(self).items@.len() ==> highlighted_against(
                    #[trigger] final(self).items@[k],
                    query@,
                ),
            old(self).active_plugin_id is None && query@.len() > 0 && query@[0] != '/'
                ==> final(self).items@.len() <= 50 && sorted_by_score(final(self).items@)
                && (forall|k: int|
                0 <= k < final(self).items@.len() ==> from_enabled_provider(
                    manager.plugins@,
                    #[trigger] final(self).items@[k],
                )),
            old(self).active_plugin_id is Some && query@.len() > 0 ==> forall|k: int|
                0 <= k < final(self).items@.len() ==> owned_by(
                    #[trigger] final(self).items@[k],
                    old(self).active_plugin_id->Some_0@,
                ),
            exists|fetched: Seq<SearchResult>|
                #[trigger] session_fetch(
                    manager.plugins@,
                    old(self).active_plugin_id,
                    query@,
                    fetched,
                ) && items_decorated(fetched, query@, final(self).items@),
    {
        self.search_query = String::from_str(query);
        let results: Vec<SearchResult> = match &self.active_plugin_id {
            Option::Some(pid) => {
                if query.is_empty() {
                    Vec::new()
                } else {
                    manager.search_plugin(pid.as_str(), query, 50)
                }
            },
            Option::None => {
                let qv = chars_of(query);
                if qv.len() > 0 && qv[0] == '/' {
                    handle_plugin_command(manager, query)
                } else {
                    manager.search_all(query, 50)
                }
            },
        };
        let ghost fetched = results@;
        proof {
            assert(session_fetch(
                manager.plugins@,
                old(self).active_plugin_id,
                query@,
                fetched,
            ));
        }
        let decorated = decorate_highlights(results, query);
        self.items = decorated;
        self.selected_index = None;
    }
}

/// Whether the sequence never increases in score.
pub open spec fn sorted_by_score(s: Seq<SearchResult>) -> bool {
    sorted_desc(s)
}

/// What the session fetches for a query, before highlighting: nothing for
/// an empty query; the active provider's sorted, bounded reply when the
/// session is scoped; the `/` protocol's response for a slash query; and
/// the fan-out over every enabled provider otherwise.
pub open spec fn session_fetch(
    plugins: Seq<AnyPlugin>,
    active: Option<String>,
    query: Seq<char>,
    fetched: Seq<SearchResult>,
) -> bool {
    match active {
        Some(pid) => {
            if query.len() == 0 {
                fetched.len() == 0
            } else {
                &&& fetched.len() <= 50
                &&& sorted_desc(fetched)
                &&& forall|k: int| 0 <= k < fetched.len() ==> owned_by(#[trigger] fetched[k], pid@)
                &&& (forall|i: int|
                    0 <= i < plugins.len() ==> (#[trigger] plugins[i]).plugin_id() != pid@)
                    ==> fetched.len() == 0
                &&& forall|i: int|
                    #[trigger] is_first_with_id(plugins, pid@, i) ==> scoped_reply(
                        plugins[i],
                        query,
                        50,
                        fetched,
                    )
            }
        },
        None => {
            if query.len() > 0 && query[0] == '/' {
                slash_response(plugins, query, fetched)
            } else if query.len() > 0 {
                &&& fetched.len() <= 50
                &&& sorted_desc(fetched)
                &&& forall|k: int|
                    0 <= k < fetched.len() ==> from_enabled_provider(
                        plugins,
                        #[trigger] fetched[k],
                    )
                &&& exists|pool: Seq<SearchResult>|
                    #[trigger] enabled_fanout(plugins, query, pool, 50) && fetched == sort_trunc(
                        pool,
                        50,
                    )
            } else {
                fetched.len() == 0
            }
        },
    }
}

/// Whether `items` is `fetched`, element by element: every searchable field
/// kept, and the two highlight fields filled against `q`.
pub open spec fn items_decorated(
    fetched: Seq<SearchResult>,
    q: Seq<char>,
    items: Seq<SearchResult>,
) -> bool {
    &&& items.len() == fetched.len()
    &&& forall|k: int|
        0 <= k < items.len() ==> ((#[trigger] items[k]).id == fetched[k].id && items[k].title
            == fetched[k].title && items[k].description == fetched[k].description
            && items[k].icon == fetched[k].icon && items[k].result_type
            == fetched[k].result_type && items[k].score == fetched[k].score && items[k].action
            == fetched[k].action && highlighted_against(items[k], q))
}

/// Whether the result's pre-rendered highlight fields carry the bracket
/// highlighting of its title and description against `q`.
pub open spec fn highlighted_against(r: SearchResult, q: Seq<char>) -> bool {
    &&& r.highlighted_title matches Some(h) && h@ == spec_highlighted(q, r.title@)
    &&& r.highlighted_description matches Some(h) && h@ == spec_highlighted(q, r.description@)
}

/// The highlighted form of `t` against `q`: `t` itself for an empty query.
pub open spec fn spec_highlighted(q: Seq<char>, t: Seq<char>) -> Seq<char> {
    if q.len() == 0 {
        t
    } else {
        highlight(fold(q), t)
    }
}

/// Each result with its title and description highlighted against the
/// query; every other field is kept.
fn decorate_highlights(results: Vec<SearchResult>, query: &str) -> (r: Vec<SearchResult>)
    ensures
        items_decorated(results@, query@, r@),
{
    let ghost orig = results@;
    let mut rest = results;
    let mut out: Vec<SearchResult> = Vec::new();
    while rest.len() > 0
        invariant
            rest@ =~= orig.skip(out@.len() as int),
            out@.len() <= orig.len(),
            forall|k: int| 0 <= k < out@.len() ==> highlighted_against(#[trigger] out@[k], query@),
            forall|k: int|
                0 <= k < out@.len() ==> (#[trigger] out@[k]).id == orig[k].id && out@[k].title
                    == orig[k].title && out@[k].description == orig[k].description
                    && out@[k].score == orig[k].score && out@[k].result_type
                    == orig[k].result_type && out@[k].action == orig[k].action && out@[k].icon
                    == orig[k].icon,
        decreases rest@.len(),
    {
        let item = rest.remove(0);
        assert(item == orig[out@.len() as int]);
        let ht = highlight_matches(query, item.title.as_str());
        let hd = highlight_matches(query, item.description.as_str());
        let updated = SearchResult {
            highlighted_title: Option::Some(ht),
            highlighted_description: Option::Some(hd),
            ..item
        };
        out.push(updated);
        assert(rest@ =~= orig.skip(out@.len() as int));
    }
    assert(items_decorated(orig, query@, out@));
    out
}

} // verus!
