//! The provider contract and the registry / orchestrator.
//!
//! Every search source implements [`Plugin`]: identity, an enabled flag,
//! lifecycle calls, `search` and `execute`.  The orchestrator
//! [`PluginManager`] owns the ordered collection of registered providers,
//! fans a query out to the enabled ones, merges / ranks / truncates what they
//! return, and routes an executed result back to the provider whose id owns
//! the result's id.

use vstd::prelude::*;
use crate::plugins::app_launcher::AppLauncherPlugin;
use crate::plugins::calculator::CalculatorPlugin;
use crate::plugins::clipboard::ClipboardPlugin;
use crate::plugins::color_picker::ColorPickerPlugin;
use crate::plugins::custom_commands::CustomCommandsPlugin;
use crate::plugins::file_search::FileSearchPlugin;
use crate::plugins::system_commands::SystemCommandsPlugin;
use crate::plugins::web_search::WebSearchPlugin;
use crate::plugins::window_switcher::WindowSwitcherPlugin;
use crate::rank::{
    lemma_sort_desc_membership, lemma_sort_desc_sorted, sort_by_score_desc, sort_desc,
    sorted_desc, truncate_results,
};
use crate::search::{ExecOutcome, SearchResult};
use crate::strutil::{chars_eq, chars_of, is_prefix, starts_with_seq};

verus! {

/// Why a provider call failed.
#[derive(Clone, Copy, Debug, PartialEq, Eq, Structural)]
pub enum PluginError {
    /// The action payload of an executed result is not one the provider can
    /// interpret.
    MalformedAction,
}

/// Why the orchestrator's `execute` failed.
#[derive(Clone, Copy, Debug, PartialEq, Eq, Structural)]
pub enum ExecError {
    /// No registered provider's id owns the result's id.
    NoOwningPlugin,
    /// The owning provider itself failed; its error passes through unchanged.
    Plugin(PluginError),
}

/// Whether the result id `rid` is scoped to the provider id `pid`: it starts
/// with `pid` followed by a `:`.
pub open spec fn id_scoped_to(rid: Seq<char>, pid: Seq<char>) -> bool {
    rid.len() > pid.len() && rid.subrange(0, pid.len() as int) == pid && rid[pid.len() as int]
        == ':'
}

/// Whether the provider with id `pid` owns the result id `rid`: `rid` equals
/// `pid` or is scoped to it.
pub open spec fn id_owned_by(rid: Seq<char>, pid: Seq<char>) -> bool {
    rid == pid || id_scoped_to(rid, pid)
}

/// Whether the provider with id `pid` owns the result `r`.
pub open spec fn owned_by(r: SearchResult, pid: Seq<char>) -> bool {
    id_owned_by(r.id@, pid)
}

/// Ownership test, executable form.
pub fn id_owns(pid: &str, rid: &str) -> (b: bool)
    ensures
        b == id_owned_by(rid@, pid@),
{
    let pv = chars_of(pid);
    let rv = chars_of(rid);
    if rv.len() == pv.len() {
        let r = crate::strutil::matches_at(&rv, &pv, 0);
        proof {
            if r {
                assert(rv@.subrange(0, pv@.len() as int) =~= rv@);
            } else {
                assert(rid@ != pid@);
            }
        }
        r
    } else if rv.len() > pv.len() {
        let head = crate::strutil::matches_at(&rv, &pv, 0);
        head && rv[pv.len()] == ':'
    } else {
        false
    }
}

/// The id of a result scoped to a provider: `provider`, `:`, `suffix`.
pub fn scoped_id(provider: &str, suffix: &str) -> (r: String)
    ensures
        r@ == provider@ + seq![':'] + suffix@,
{
    let mut v = chars_of(provider);
    v.push(':');
    let s = chars_of(suffix);
    let mut i: usize = 0;
    while i < s.len()
        invariant
            i <= s@.len(),
            s@ == suffix@,
            v@ == provider@ + seq![':'] + suffix@.take(i as int),
        decreases s@.len() - i,
    {
        v.push(s[i]);
        i += 1;
        assert(v@ =~= provider@ + seq![':'] + suffix@.take(i as int));
    }
    assert(v@ =~= provider@ + seq![':'] + suffix@);
    crate::strutil::string_from_chars(&v)
}

/// A scoped id is owned by its provider.
pub proof fn lemma_scoped_id_owned(pid: Seq<char>, suffix: Seq<char>)
    ensures
        id_owned_by(pid + seq![':'] + suffix, pid),
{
    let rid = pid + seq![':'] + suffix;
    assert(rid.subrange(0, pid.len() as int) =~= pid);
    assert(rid[pid.len() as int] == ':');
}

/// The capability contract every search source implements.
///
/// `search` is read-only, returns at most `limit` results, and every returned
/// result's id is owned by the provider's own id, so that `execute` can route
/// it back.  `execute` does not itself perform the side effect: it resolves
/// the result into the [`ExecOutcome`] the caller must carry out, and fails
/// gracefully on a malformed payload.  `initialize` and `refresh` may fail;
/// neither touches the provider's identity or enabled flag.
pub trait Plugin: Sized {
    /// The provider's id, as a ghost sequence.
    spec fn plugin_id(&self) -> Seq<char>;

    /// Whether the provider is enabled, as a ghost value.
    spec fn plugin_enabled(&self) -> bool;

    /// What this provider's `search` promises of its return value, beyond
    /// the bound and ownership clauses shared by every provider.
    spec fn search_ens(
        &self,
        query: Seq<char>,
        limit: int,
        r: Result<Vec<SearchResult>, PluginError>,
    ) -> bool;

    /// What this provider's `execute` promises of its return value.
    spec fn execute_ens(&self, res: SearchResult, r: Result<ExecOutcome, PluginError>) -> bool;

    /// The provider's unique id.
    fn id(&self) -> (r: &str)
        ensures
            r@ == self.plugin_id(),
    ;

    /// The provider's human-readable name.
    fn name(&self) -> (r: &str);

    /// What the provider searches.
    fn description(&self) -> (r: &str);

    /// The provider's version.
    fn version(&self) -> (r: &str);

    /// Whether the provider takes part in fan-out search.
    fn is_enabled(&self) -> (r: bool)
        ensures
            r == self.plugin_enabled(),
    ;

    /// Enables or disables the provider.
    fn set_enabled(&mut self, enabled: bool)
        ensures
            final(self).plugin_enabled() == enabled,
            final(self).plugin_id() == old(self).plugin_id(),
    ;

    /// One-time setup before first use; identity and flag are untouched.
    fn initialize(&mut self) -> (r: Result<(), PluginError>)
        ensures
            final(self).plugin_id() == old(self).plugin_id(),
            final(self).plugin_enabled() == old(self).plugin_enabled(),
    ;

    /// Searches the provider's own data for `query`, returning at most
    /// `limit` results, each with an id this provider owns.
    fn search(&self, query: &str, limit: usize) -> (r: Result<Vec<SearchResult>, PluginError>)
        ensures
            r matches Ok(v) ==> v@.len() <= limit,
            r matches Ok(v) ==> forall|j: int|
                0 <= j < v@.len() ==> owned_by(#[trigger] v@[j], self.plugin_id()),
            self.search_ens(query@, limit as int, r),
    ;

    /// Resolves an executed result into the outside work the caller must
    /// perform.
    fn execute(&self, result: &SearchResult) -> (r: Result<ExecOutcome, PluginError>)
        ensures
            self.execute_ens(*result, r),
    ;

    /// Rebuilds the provider's internal index; identity and flag are
    /// untouched.
    fn refresh(&mut self) -> (r: Result<(), PluginError>)
        ensures
            final(self).plugin_id() == old(self).plugin_id(),
            final(self).plugin_enabled() == old(self).plugin_enabled(),
    ;
}

/// The closed set of providers the registry can hold, dispatching the
/// provider contract to the concrete implementation.
pub enum AnyPlugin {
    AppLauncher(AppLauncherPlugin),
    Calculator(CalculatorPlugin),
    Clipboard(ClipboardPlugin),
    ColorPicker(ColorPickerPlugin),
    CustomCommands(CustomCommandsPlugin),
    FileSearch(FileSearchPlugin),
    SystemCommands(SystemCommandsPlugin),
    WebSearch(WebSearchPlugin),
    WindowSwitcher(WindowSwitcherPlugin),
}

impl Plugin for AnyPlugin {
    open spec fn plugin_id(&self) -> Seq<char> {
        match self {
            AnyPlugin::AppLauncher(p) => p.plugin_id(),
            AnyPlugin::Calculator(p) => p.plugin_id(),
            AnyPlugin::Clipboard(p) => p.plugin_id(),
            AnyPlugin::ColorPicker(p) => p.plugin_id(),
            AnyPlugin::CustomCommands(p) => p.plugin_id(),
            AnyPlugin::FileSearch(p) => p.plugin_id(),
            AnyPlugin::SystemCommands(p) => p.plugin_id(),
            AnyPlugin::WebSearch(p) => p.plugin_id(),
            AnyPlugin::WindowSwitcher(p) => p.plugin_id(),
        }
    }

    open spec fn plugin_enabled(&self) -> bool {
        match self {
            AnyPlugin::AppLauncher(p) => p.plugin_enabled(),
            AnyPlugin::Calculator(p) => p.plugin_enabled(),
            AnyPlugin::Clipboard(p) => p.plugin_enabled(),
            AnyPlugin::ColorPicker(p) => p.plugin_enabled(),
            AnyPlugin::CustomCommands(p) => p.plugin_enabled(),
            AnyPlugin::FileSearch(p) => p.plugin_enabled(),
            AnyPlugin::SystemCommands(p) => p.plugin_enabled(),
            AnyPlugin::WebSearch(p) => p.plugin_enabled(),
            AnyPlugin::WindowSwitcher(p) => p.plugin_enabled(),
        }
    }

    open spec fn search_ens(
        &self,
        query: Seq<char>,
        limit: int,
        r: Result<Vec<SearchResult>, PluginError>,
    ) -> bool {
        match self {
            AnyPlugin::AppLauncher(p) => p.search_ens(query, limit, r),
            AnyPlugin::Calculator(p) => p.search_ens(query, limit, r),
            AnyPlugin::Clipboard(p) => p.search_ens(query, limit, r),
            AnyPlugin::ColorPicker(p) => p.search_ens(query, limit, r),
            AnyPlugin::CustomCommands(p) => p.search_ens(query, limit, r),
            AnyPlugin::FileSearch(p) => p.search_ens(query, limit, r),
            AnyPlugin::SystemCommands(p) => p.search_ens(query, limit, r),
            AnyPlugin::WebSearch(p) => p.search_ens(query, limit, r),
            AnyPlugin::WindowSwitcher(p) => p.search_ens(query, limit, r),
        }
    }

    open spec fn execute_ens(&self, res: SearchResult, r: Result<ExecOutcome, PluginError>) -> bool {
        match self {
            AnyPlugin::AppLauncher(p) => p.execute_ens(res, r),
            AnyPlugin::Calculator(p) => p.execute_ens(res, r),
            AnyPlugin::Clipboard(p) => p.execute_ens(res, r),
            AnyPlugin::ColorPicker(p) => p.execute_ens(res, r),
            AnyPlugin::CustomCommands(p) => p.execute_ens(res, r),
            AnyPlugin::FileSearch(p) => p.execute_ens(res, r),
            AnyPlugin::SystemCommands(p) => p.execute_ens(res, r),
            AnyPlugin::WebSearch(p) => p.execute_ens(res, r),
            AnyPlugin::WindowSwitcher(p) => p.execute_ens(res, r),
        }
    }

    fn id(&self) -> (r: &str) {
        match self {
            AnyPlugin::AppLauncher(p) => p.id(),
            AnyPlugin::Calculator(p) => p.id(),
            AnyPlugin::Clipboard(p) => p.id(),
            AnyPlugin::ColorPicker(p) => p.id(),
            AnyPlugin::CustomCommands(p) => p.id(),
            AnyPlugin::FileSearch(p) => p.id(),
            AnyPlugin::SystemCommands(p) => p.id(),
            AnyPlugin::WebSearch(p) => p.id(),
            AnyPlugin::WindowSwitcher(p) => p.id(),
        }
    }

    fn name(&self) -> (r: &str) {
        match self {
            AnyPlugin::AppLauncher(p) => p.name(),
            AnyPlugin::Calculator(p) => p.name(),
            AnyPlugin::Clipboard(p) => p.name(),
            AnyPlugin::ColorPicker(p) => p.name(),
            AnyPlugin::CustomCommands(p) => p.name(),
            AnyPlugin::FileSearch(p) => p.name(),
            AnyPlugin::SystemCommands(p) => p.name(),
            AnyPlugin::WebSearch(p) => p.name(),
            AnyPlugin::WindowSwitcher(p) => p.name(),
        }
    }

    fn description(&self) -> (r: &str) {
        match self {
            AnyPlugin::AppLauncher(p) => p.description(),
            AnyPlugin::Calculator(p) => p.description(),
            AnyPlugin::Clipboard(p) => p.description(),
            AnyPlugin::ColorPicker(p) => p.description(),
            AnyPlugin::CustomCommands(p) => p.description(),
            AnyPlugin::FileSearch(p) => p.description(),
            AnyPlugin::SystemCommands(p) => p.description(),
            AnyPlugin::WebSearch(p) => p.description(),
            AnyPlugin::WindowSwitcher(p) => p.description(),
        }
    }

    fn version(&self) -> (r: &str) {
        match self {
            AnyPlugin::AppLauncher(p) => p.version(),
            AnyPlugin::Calculator(p) => p.version(),
            AnyPlugin::Clipboard(p) => p.version(),
            AnyPlugin::ColorPicker(p) => p.version(),
            AnyPlugin::CustomCommands(p) => p.version(),
            AnyPlugin::FileSearch(p) => p.version(),
            AnyPlugin::SystemCommands(p) => p.version(),
            AnyPlugin::WebSearch(p) => p.version(),
            AnyPlugin::WindowSwitcher(p) => p.version(),
        }
    }

    fn is_enabled(&self) -> (r: bool) {
        match self {
            AnyPlugin::AppLauncher(p) => p.is_enabled(),
            AnyPlugin::Calculator(p) => p.is_enabled(),
            AnyPlugin::Clipboard(p) => p.is_enabled(),
            AnyPlugin::ColorPicker(p) => p.is_enabled(),
            AnyPlugin::CustomCommands(p) => p.is_enabled(),
            AnyPlugin::FileSearch(p) => p.is_enabled(),
            AnyPlugin::SystemCommands(p) => p.is_enabled(),
            AnyPlugin::WebSearch(p) => p.is_enabled(),
            AnyPlugin::WindowSwitcher(p) => p.is_enabled(),
        }
    }

    fn set_enabled(&mut self, enabled: bool) {
        match self {
            AnyPlugin::AppLauncher(p) => p.set_enabled(enabled),
            AnyPlugin::Calculator(p) => p.set_enabled(enabled),
            AnyPlugin::Clipboard(p) => p.set_enabled(enabled),
            AnyPlugin::ColorPicker(p) => p.set_enabled(enabled),
            AnyPlugin::CustomCommands(p) => p.set_enabled(enabled),
            AnyPlugin::FileSearch(p) => p.set_enabled(enabled),
            AnyPlugin::SystemCommands(p) => p.set_enabled(enabled),
            AnyPlugin::WebSearch(p) => p.set_enabled(enabled),
            AnyPlugin::WindowSwitcher(p) => p.set_enabled(enabled),
        }
    }

    fn initialize(&mut self) -> (r: Result<(), PluginError>) {
        match self {
            AnyPlugin::AppLauncher(p) => p.initialize(),
            AnyPlugin::Calculator(p) => p.initialize(),
            AnyPlugin::Clipboard(p) => p.initialize(),
            AnyPlugin::ColorPicker(p) => p.initialize(),
            AnyPlugin::CustomCommands(p) => p.initialize(),
            AnyPlugin::FileSearch(p) => p.initialize(),
            AnyPlugin::SystemCommands(p) => p.initialize(),
            AnyPlugin::WebSearch(p) => p.initialize(),
            AnyPlugin::WindowSwitcher(p) => p.initialize(),
        }
    }

    fn search(&self, query: &str, limit: usize) -> (r: Result<Vec<SearchResult>, PluginError>) {
        match self {
            AnyPlugin::AppLauncher(p) => p.search(query, limit),
            AnyPlugin::Calculator(p) => p.search(query, limit),
            AnyPlugin::Clipboard(p) => p.search(query, limit),
            AnyPlugin::ColorPicker(p) => p.search(query, limit),
            AnyPlugin::CustomCommands(p) => p.search(query, limit),
            AnyPlugin::FileSearch(p) => p.search(query, limit),
            AnyPlugin::SystemCommands(p) => p.search(query, limit),
            AnyPlugin::WebSearch(p) => p.search(query, limit),
            AnyPlugin::WindowSwitcher(p) => p.search(query, limit),
        }
    }

    fn execute(&self, result: &SearchResult) -> (r: Result<ExecOutcome, PluginError>) {
        match self {
            AnyPlugin::AppLauncher(p) => p.execute(result),
            AnyPlugin::Calculator(p) => p.execute(result),
            AnyPlugin::Clipboard(p) => p.execute(result),
            AnyPlugin::ColorPicker(p) => p.execute(result),
            AnyPlugin::CustomCommands(p) => p.execute(result),
            AnyPlugin::FileSearch(p) => p.execute(result),
            AnyPlugin::SystemCommands(p) => p.execute(result),
            AnyPlugin::WebSearch(p) => p.execute(result),
            AnyPlugin::WindowSwitcher(p) => p.execute(result),
        }
    }

    fn refresh(&mut self) -> (r: Result<(), PluginError>) {
        match self {
            AnyPlugin::AppLauncher(p) => p.refresh(),
            AnyPlugin::Calculator(p) => p.refresh(),
            AnyPlugin::Clipboard(p) => p.refresh(),
            AnyPlugin::ColorPicker(p) => p.refresh(),
            AnyPlugin::CustomCommands(p) => p.refresh(),
            AnyPlugin::FileSearch(p) => p.refresh(),
            AnyPlugin::SystemCommands(p) => p.refresh(),
            AnyPlugin::WebSearch(p) => p.refresh(),
            AnyPlugin::WindowSwitcher(p) => p.refresh(),
        }
    }
}

/// The results a provider's reply contributes: its list on success,
/// nothing on failure.
pub open spec fn response_seq(rr: Result<Vec<SearchResult>, PluginError>) -> Seq<SearchResult> {
    match rr {
        Ok(v) => v@,
        Err(_) => Seq::<SearchResult>::empty(),
    }
}

/// Whether `chunk` is what some reply meeting the provider's own search
/// contract contributes for this query.
pub open spec fn chunk_response(
    p: AnyPlugin,
    query: Seq<char>,
    limit: int,
    chunk: Seq<SearchResult>,
) -> bool {
    exists|rr: Result<Vec<SearchResult>, PluginError>|
        #[trigger] p.search_ens(query, limit, rr) && chunk == response_seq(rr)
}

/// What one provider contributes to the merged pool: nothing when it is
/// disabled; otherwise a reply meeting its own search contract, at most
/// `limit` results, each owned by its id.
pub open spec fn chunk_ok(
    p: AnyPlugin,
    query: Seq<char>,
    chunk: Seq<SearchResult>,
    limit: int,
) -> bool {
    if p.plugin_enabled() {
        chunk.len() <= limit && (forall|j: int|
            0 <= j < chunk.len() ==> owned_by(#[trigger] chunk[j], p.plugin_id()))
            && chunk_response(p, query, limit, chunk)
    } else {
        chunk.len() == 0
    }
}

/// Whether `pool` is a concatenation, in registration order, of one
/// permissible contribution per provider.
pub open spec fn enabled_fanout(
    plugins: Seq<AnyPlugin>,
    query: Seq<char>,
    pool: Seq<SearchResult>,
    limit: int,
) -> bool
    decreases plugins.len(),
{
    if plugins.len() == 0 {
        pool.len() == 0
    } else {
        exists|k: int|
            0 <= k <= pool.len() && enabled_fanout(
                plugins.drop_last(),
                query,
                #[trigger] pool.take(k),
                limit,
            ) && chunk_ok(plugins.last(), query, pool.skip(k), limit)
    }
}

/// The merged pool, sorted by score descending and cut to `limit`.
pub open spec fn sort_trunc(pool: Seq<SearchResult>, limit: int) -> Seq<SearchResult> {
    let s = sort_desc(pool);
    if s.len() <= limit {
        s
    } else {
        s.subrange(0, limit)
    }
}

/// A permissible fan-out over the first `i` providers, extended with a
/// permissible contribution of provider `i`, is a permissible fan-out over
/// the first `i + 1`.
pub proof fn lemma_fanout_extend(
    plugins: Seq<AnyPlugin>,
    i: int,
    query: Seq<char>,
    pool: Seq<SearchResult>,
    chunk: Seq<SearchResult>,
    limit: int,
)
    requires
        0 <= i < plugins.len(),
        enabled_fanout(plugins.take(i), query, pool, limit),
        chunk_ok(plugins[i], query, chunk, limit),
    ensures
        enabled_fanout(plugins.take(i + 1), query, pool + chunk, limit),
{
    let all = pool + chunk;
    assert(plugins.take(i + 1).drop_last() =~= plugins.take(i));
    assert(plugins.take(i + 1).last() == plugins[i]);
    assert(all.take(pool.len() as int) =~= pool);
    assert(all.skip(pool.len() as int) =~= chunk);
}

/// Every element of a permissible pool is owned by some enabled provider.
pub proof fn lemma_fanout_owned(
    plugins: Seq<AnyPlugin>,
    query: Seq<char>,
    pool: Seq<SearchResult>,
    limit: int,
    x: SearchResult,
)
    requires
        enabled_fanout(plugins, query, pool, limit),
        pool.contains(x),
    ensures
        from_enabled_provider(plugins, x),
    decreases plugins.len(),
{
    if plugins.len() == 0 {
    } else {
        let k = choose|k: int|
            0 <= k <= pool.len() && enabled_fanout(
                plugins.drop_last(),
                query,
                #[trigger] pool.take(k),
                limit,
            ) && chunk_ok(plugins.last(), query, pool.skip(k), limit);
        let j = choose|j: int| 0 <= j < pool.len() && pool[j] == x;
        if j < k {
            assert(pool.take(k)[j] == x);
            assert(pool.take(k).contains(x));
            lemma_fanout_owned(plugins.drop_last(), query, pool.take(k), limit, x);
            let i = choose|i: int|
                0 <= i < plugins.drop_last().len() && (#[trigger] plugins.drop_last()[i]).plugin_enabled()
                    && owned_by(x, plugins.drop_last()[i].plugin_id());
            assert(plugins[i] == plugins.drop_last()[i]);
            assert((plugins[i]).plugin_enabled() && owned_by(x, plugins[i].plugin_id()));
        } else {
            let chunk = pool.skip(k);
            assert(chunk[j - k] == x);
            assert(plugins.last().plugin_enabled()) by {
                if !plugins.last().plugin_enabled() {
                    assert(chunk.len() == 0);
                }
            }
            assert(owned_by(x, plugins.last().plugin_id()));
            let n = plugins.len() - 1;
            assert(plugins[n] == plugins.last());
            assert((plugins[n]).plugin_enabled() && owned_by(x, plugins[n].plugin_id()));
        }
    }
}

/// Whether some enabled provider in the list owns the result `x`.
pub open spec fn from_enabled_provider(plugins: Seq<AnyPlugin>, x: SearchResult) -> bool {
    exists|i: int|
        0 <= i < plugins.len() && (#[trigger] plugins[i]).plugin_enabled() && owned_by(
            x,
            plugins[i].plugin_id(),
        )
}

/// A disabled provider contributes nothing to a fan-out: every output
/// element of `search_all` is owned by some enabled provider, so a result id
/// that only disabled providers own never appears.  (That a disabled
/// provider's `search` is never consulted at all is what `enabled_fanout`
/// states: its contribution to the merged pool is empty.)  The hypothesis
/// that no enabled provider also owns the id is needed: ids are not
/// deduplicated and one result id can be owned by two provider ids — an
/// enabled provider `a:b` may return `a:b:x`, which a disabled provider `a`
/// also owns.
pub proof fn lemma_disabled_provider_excluded(
    plugins: Seq<AnyPlugin>,
    out: Seq<SearchResult>,
    x: SearchResult,
)
    requires
        forall|k: int| 0 <= k < out.len() ==> from_enabled_provider(plugins, #[trigger] out[k]),
        forall|i: int|
            0 <= i < plugins.len() && owned_by(x, (#[trigger] plugins[i]).plugin_id())
                ==> !plugins[i].plugin_enabled(),
    ensures
        !out.contains(x),
{
    if out.contains(x) {
        let k = choose|k: int| 0 <= k < out.len() && out[k] == x;
        assert(from_enabled_provider(plugins, x));
        let i = choose|i: int|
            0 <= i < plugins.len() && (#[trigger] plugins[i]).plugin_enabled() && owned_by(
                x,
                plugins[i].plugin_id(),
            );
        assert(!plugins[i].plugin_enabled());
    }
}

/// Whether index `i` holds the first provider whose id equals `pid`.
pub open spec fn is_first_with_id(plugins: Seq<AnyPlugin>, pid: Seq<char>, i: int) -> bool {
    &&& 0 <= i < plugins.len()
    &&& plugins[i].plugin_id() == pid
    &&& forall|j: int| 0 <= j < i ==> (#[trigger] plugins[j]).plugin_id() != pid
}

/// Whether `out` is the sorted, truncated form of some reply meeting the
/// provider's own search contract.
pub open spec fn scoped_reply(
    p: AnyPlugin,
    query: Seq<char>,
    limit: int,
    out: Seq<SearchResult>,
) -> bool {
    exists|rr: Result<Vec<SearchResult>, PluginError>|
        #[trigger] p.search_ens(query, limit, rr) && out == sort_trunc(response_seq(rr), limit)
}

/// Whether some provider in the list owns the result id `rid`.
pub open spec fn has_owner(plugins: Seq<AnyPlugin>, rid: Seq<char>) -> bool {
    exists|i: int| 0 <= i < plugins.len() && id_owned_by(rid, (#[trigger] plugins[i]).plugin_id())
}

/// Whether index `i` holds the first provider whose id owns `rid`.
pub open spec fn is_first_owner(plugins: Seq<AnyPlugin>, rid: Seq<char>, i: int) -> bool {
    &&& 0 <= i < plugins.len()
    &&& id_owned_by(rid, plugins[i].plugin_id())
    &&& forall|j: int| 0 <= j < i ==> !id_owned_by(rid, (#[trigger] plugins[j]).plugin_id())
}

/// Whether `r` is a faithful relay of the owning provider's own answer:
/// success and provider-internal failure pass through, and the "no owning
/// provider" error never stands in for a routed call.
pub open spec fn exec_routed(
    p: AnyPlugin,
    res: SearchResult,
    r: Result<ExecOutcome, ExecError>,
) -> bool {
    match r {
        Ok(o) => p.execute_ens(res, Ok(o)),
        Err(ExecError::Plugin(e)) => p.execute_ens(res, Err(e)),
        Err(ExecError::NoOwningPlugin) => false,
    }
}

/// The ids of the providers whose id starts with `prefix`, in registration
/// order.
pub open spec fn matched_ids(plugins: Seq<AnyPlugin>, prefix: Seq<char>) -> Seq<Seq<char>>
    decreases plugins.len(),
{
    if plugins.len() == 0 {
        Seq::<Seq<char>>::empty()
    } else {
        matched_ids(plugins.drop_last(), prefix) + (if is_prefix(
            prefix,
            plugins.last().plugin_id(),
        ) {
            seq![plugins.last().plugin_id()]
        } else {
            Seq::<Seq<char>>::empty()
        })
    }
}

/// The ordered registry of providers and the orchestrator over them.
pub struct PluginManager {
    pub plugins: Vec<AnyPlugin>,
}

impl PluginManager {
    /// An empty registry.
    pub fn new() -> (r: PluginManager)
        ensures
            r.plugins@.len() == 0,
    {
        PluginManager { plugins: Vec::new() }
    }

    /// Appends a provider; ids are not deduplicated.
    pub fn register(&mut self, plugin: AnyPlugin)
        ensures
            final(self).plugins@ == old(self).plugins@.push(plugin),
    {
        self.plugins.push(plugin);
    }

    /// How many providers are registered.
    pub fn plugin_count(&self) -> (r: usize)
        ensures
            r == self.plugins@.len(),
    {
        self.plugins.len()
    }

    /// Initializes every provider in order.  A failure is swallowed and does
    /// not stop the remaining providers; no identity or enabled flag changes.
    pub fn initialize_all(&mut self) -> (r: Result<(), PluginError>)
        ensures
            r is Ok,
            final(self).plugins@.len() == old(self).plugins@.len(),
            forall|i: int|
                0 <= i < old(self).plugins@.len() ==> final(self).plugins@[i].plugin_id() == (
                #[trigger] old(self).plugins@[i]).plugin_id()
                    && final(self).plugins@[i].plugin_enabled()
                    == old(self).plugins@[i].plugin_enabled(),
    {
        let n = self.plugins.len();
        let mut i: usize = 0;
        while i < n
            invariant
                i <= n,
                n == self.plugins@.len(),
                self.plugins@.len() == old(self).plugins@.len(),
                forall|j: int|
                    0 <= j < self.plugins@.len() ==> (#[trigger] self.plugins@[j]).plugin_id()
                        == old(self).plugins@[j].plugin_id()
                        && self.plugins@[j].plugin_enabled()
                        == old(self).plugins@[j].plugin_enabled(),
            decreases n - i,
        {
            if self.plugins[i].initialize().is_err() {
                // A provider that cannot build its index stays registered:
                // it will simply contribute nothing until refreshed.
            }
            i += 1;
        }
        Result::Ok(())
    }

    /// Fans `query` out to every enabled provider in registration order,
    /// concatenates their results, sorts them by score descending with a
    /// stable sort, and cuts the merged list to `limit`.  An empty query
    /// returns nothing without consulting any provider; a provider's failure
    /// contributes nothing.
    pub fn search_all(&self, query: &str, limit: usize) -> (r: Vec<SearchResult>)
        ensures
            query@.len() == 0 ==> r@.len() == 0,
            r@.len() <= limit,
            sorted_desc(r@),
            forall|k: int|
                0 <= k < r@.len() ==> from_enabled_provider(self.plugins@, #[trigger] r@[k]),
            query@.len() > 0 ==> exists|pool: Seq<SearchResult>|
                #[trigger] enabled_fanout(self.plugins@, query@, pool, limit as int) && r@
                    == sort_trunc(pool, limit as int),
    {
        if query.is_empty() {
            return Vec::new();
        }
        let mut pool: Vec<SearchResult> = Vec::new();
        let mut i: usize = 0;
        proof {
            assert(self.plugins@.take(0) =~= Seq::<AnyPlugin>::empty());
        }
        while i < self.plugins.len()
            invariant
                i <= self.plugins@.len(),
                enabled_fanout(self.plugins@.take(i as int), query@, pool@, limit as int),
            decreases self.plugins@.len() - i,
        {
            let p = &self.plugins[i];
            let ghost before = pool@;
            if p.is_enabled() {
                let reply = p.search(query, limit);
                let ghost grr = reply;
                match reply {
                    Result::Ok(mut rs) => {
                        let ghost chunk = rs@;
                        pool.append(&mut rs);
                        proof {
                            assert(chunk == response_seq(grr));
                            assert(chunk_response(
                                self.plugins@[i as int],
                                query@,
                                limit as int,
                                chunk,
                            ));
                            lemma_fanout_extend(
                                self.plugins@,
                                i as int,
                                query@,
                                before,
                                chunk,
                                limit as int,
                            );
                        }
                    },
                    Result::Err(_) => {
                        proof {
                            assert(Seq::<SearchResult>::empty() =~= response_seq(grr));
                            assert(chunk_response(
                                self.plugins@[i as int],
                                query@,
                                limit as int,
                                Seq::<SearchResult>::empty(),
                            ));
                            assert(before + Seq::<SearchResult>::empty() =~= before);
                            lemma_fanout_extend(
                                self.plugins@,
                                i as int,
                                query@,
                                before,
                                Seq::<SearchResult>::empty(),
                                limit as int,
                            );
                        }
                    },
                }
            } else {
                proof {
                    assert(before + Seq::<SearchResult>::empty() =~= before);
                    lemma_fanout_extend(
                        self.plugins@,
                        i as int,
                        query@,
                        before,
                        Seq::<SearchResult>::empty(),
                        limit as int,
                    );
                }
            }
            i += 1;
        }
        proof {
            assert(self.plugins@.take(i as int) =~= self.plugins@);
        }
        let ghost poolv = pool@;
        let mut sorted = sort_by_score_desc(pool);
        truncate_results(&mut sorted, limit);
        proof {
            lemma_sort_desc_sorted(poolv);
            let s = sort_desc(poolv);
            assert(sorted@ == sort_trunc(poolv, limit as int));
            assert forall|a: int, b: int| 0 <= a < b < sorted@.len() implies sorted@[a].score
                >= sorted@[b].score by {
                assert(sorted@[a] == s[a] && sorted@[b] == s[b]);
            }
            assert forall|k: int|
                0 <= k < sorted@.len() implies from_enabled_provider(
                self.plugins@,
                #[trigger] sorted@[k],
            ) by {
                assert(sorted@[k] == s[k]);
                lemma_sort_desc_membership(poolv, k);
                lemma_fanout_owned(self.plugins@, query@, poolv, limit as int, s[k]);
            }
        }
        sorted
    }

    /// As `search_all`, but scoped to the first provider whose id equals
    /// `plugin_id` exactly; the enabled flag is not consulted.  An unknown
    /// provider id or an empty query returns nothing.
    pub fn search_plugin(&self, plugin_id: &str, query: &str, limit: usize) -> (r: Vec<
        SearchResult,
    >)
        ensures
            query@.len() == 0 ==> r@.len() == 0,
            r@.len() <= limit,
            sorted_desc(r@),
            forall|k: int| 0 <= k < r@.len() ==> owned_by(#[trigger] r@[k], plugin_id@),
            (forall|i: int|
                0 <= i < self.plugins@.len() ==> (#[trigger] self.plugins@[i]).plugin_id()
                    != plugin_id@) ==> r@.len() == 0,
            query@.len() > 0 ==> forall|i: int|
                #[trigger] is_first_with_id(self.plugins@, plugin_id@, i) ==> scoped_reply(
                    self.plugins@[i],
                    query@,
                    limit as int,
                    r@,
                ),
    {
        if query.is_empty() {
            return Vec::new();
        }
        let pid = chars_of(plugin_id);
        let mut i: usize = 0;
        while i < self.plugins.len()
            invariant
                i <= self.plugins@.len(),
                pid@ == plugin_id@,
                query@.len() > 0,
                forall|j: int|
                    0 <= j < i ==> (#[trigger] self.plugins@[j]).plugin_id() != plugin_id@,
            decreases self.plugins@.len() - i,
        {
            let p = &self.plugins[i];
            let idv = chars_of(p.id());
            if chars_eq(&idv, &pid) {
                let reply = p.search(query, limit);
                let ghost grr = reply;
                let chunk = match reply {
                    Result::Ok(rs) => rs,
                    Result::Err(_) => Vec::new(),
                };
                let ghost chunkv = chunk@;
                proof {
                    assert(chunkv =~= response_seq(grr));
                }
                let mut sorted = sort_by_score_desc(chunk);
                truncate_results(&mut sorted, limit);
                proof {
                    lemma_sort_desc_sorted(chunkv);
                    crate::rank::lemma_sort_desc_len(chunkv);
                    let s = sort_desc(chunkv);
                    assert forall|a: int, b: int| 0 <= a < b < sorted@.len() implies
                        sorted@[a].score >= sorted@[b].score by {
                        assert(sorted@[a] == s[a] && sorted@[b] == s[b]);
                    }
                    assert forall|k: int| 0 <= k < sorted@.len() implies owned_by(
                        #[trigger] sorted@[k],
                        plugin_id@,
                    ) by {
                        assert(sorted@[k] == s[k]);
                        lemma_sort_desc_membership(chunkv, k);
                        let j = choose|j: int| 0 <= j < chunkv.len() && chunkv[j] == s[k];
                        assert(owned_by(chunkv[j], p.plugin_id()));
                    }
                    assert(sorted@ == sort_trunc(response_seq(grr), limit as int));
                    assert(is_first_with_id(self.plugins@, plugin_id@, i as int));
                    assert(scoped_reply(self.plugins@[i as int], query@, limit as int, sorted@));
                    assert forall|w: int|
                        is_first_with_id(self.plugins@, plugin_id@, w) implies w == i as int by {
                        if w < i as int {
                            assert(self.plugins@[w].plugin_id() != plugin_id@);
                        } else if w > i as int {
                            assert(self.plugins@[i as int].plugin_id() != plugin_id@);
                        }
                    }
                }
                return sorted;
            }
            i += 1;
        }
        proof {
            assert forall|w: int|
                !is_first_with_id(self.plugins@, plugin_id@, w) by {
                if 0 <= w < self.plugins@.len() {
                    assert(self.plugins@[w].plugin_id() != plugin_id@);
                }
            }
        }
        Vec::new()
    }

    /// The ids of the registered providers whose id starts with `prefix`,
    /// in registration order.
    pub fn match_plugin_ids(&self, prefix: &str) -> (r: Vec<String>)
        ensures
            r@.map_values(|s: String| s@) == matched_ids(self.plugins@, prefix@),
    {
        let pv = chars_of(prefix);
        let mut r: Vec<String> = Vec::new();
        let mut i: usize = 0;
        proof {
            assert(self.plugins@.take(0) =~= Seq::<AnyPlugin>::empty());
            assert(r@.map_values(|s: String| s@) =~~= matched_ids(
                self.plugins@.take(0),
                prefix@,
            ));
        }
        while i < self.plugins.len()
            invariant
                i <= self.plugins@.len(),
                pv@ == prefix@,
                r@.map_values(|s: String| s@) == matched_ids(self.plugins@.take(i as int), prefix@),
            decreases self.plugins@.len() - i,
        {
            let p = &self.plugins[i];
            let idv = chars_of(p.id());
            proof {
                assert(self.plugins@.take(i + 1).drop_last() =~= self.plugins@.take(i as int));
                assert(self.plugins@.take(i + 1).last() == self.plugins@[i as int]);
            }
            if starts_with_seq(&idv, &pv) {
                r.push(String::from_str(p.id()));
                proof {
                    assert(r@.map_values(|s: String| s@) =~~= matched_ids(
                        self.plugins@.take(i + 1),
                        prefix@,
                    ));
                }
            } else {
                proof {
                    assert(r@.map_values(|s: String| s@) =~~= matched_ids(
                        self.plugins@.take(i + 1),
                        prefix@,
                    ));
                }
            }
            i += 1;
        }
        proof {
            assert(self.plugins@.take(i as int) =~= self.plugins@);
        }
        r
    }

    /// Routes an executed result to the first provider whose id owns the
    /// result's id and relays that provider's answer; when no provider owns
    /// it, and only then, the "no owning provider" error comes back.
    pub fn execute(&self, result: &SearchResult) -> (r: Result<ExecOutcome, ExecError>)
        ensures
            (r == Result::<ExecOutcome, ExecError>::Err(ExecError::NoOwningPlugin)) <==> !has_owner(
                self.plugins@,
                result.id@,
            ),
            forall|i: int|
                is_first_owner(self.plugins@, result.id@, i) ==> exec_routed(
                    #[trigger] self.plugins@[i],
                    *result,
                    r,
                ),
    {
        match find_first_owner(&self.plugins, &result.id) {
            Option::Some(k) => {
                let p = &self.plugins[k];
                proof {
                    assert(is_first_owner(self.plugins@, result.id@, k as int));
                    assert(has_owner(self.plugins@, result.id@));
                    assert forall|i: int|
                        is_first_owner(self.plugins@, result.id@, i) implies i == k as int by {
                        if i < k as int {
                            assert(!id_owned_by(result.id@, self.plugins@[i].plugin_id()));
                        } else if i > k as int {
                            assert(!id_owned_by(result.id@, self.plugins@[k as int].plugin_id()));
                        }
                    }
                }
                match p.execute(result) {
                    Result::Ok(o) => Result::Ok(o),
                    Result::Err(e) => Result::Err(ExecError::Plugin(e)),
                }
            },
            Option::None => {
                proof {
                    assert forall|i: int|
                        !is_first_owner(self.plugins@, result.id@, i) by {
                        if 0 <= i < self.plugins@.len() {
                            assert(!id_owned_by(result.id@, self.plugins@[i].plugin_id()));
                        }
                    }
                    assert(!has_owner(self.plugins@, result.id@)) by {
                        if has_owner(self.plugins@, result.id@) {
                            let i = choose|i: int|
                                0 <= i < self.plugins@.len() && id_owned_by(
                                    result.id@,
                                    (#[trigger] self.plugins@[i]).plugin_id(),
                                );
                            assert(!id_owned_by(result.id@, self.plugins@[i].plugin_id()));
                        }
                    }
                }
                Result::Err(ExecError::NoOwningPlugin)
            },
        }
    }
}

/// The index of the first provider whose id owns the result id, if any.
fn find_first_owner(plugins: &Vec<AnyPlugin>, rid: &String) -> (r: Option<usize>)
    ensures
        r matches Some(k) ==> k < plugins@.len(),
        r matches Some(k) ==> id_owned_by(rid@, plugins@[k as int].plugin_id()),
        r matches Some(k) ==> forall|j: int|
            0 <= j < k ==> !id_owned_by(rid@, (#[trigger] plugins@[j]).plugin_id()),
        r is None ==> forall|j: int|
            0 <= j < plugins@.len() ==> !id_owned_by(rid@, (#[trigger] plugins@[j]).plugin_id()),
{
    let mut k: usize = 0;
    while k < plugins.len()
        invariant
            k <= plugins@.len(),
            forall|j: int|
                0 <= j < k ==> !id_owned_by(rid@, (#[trigger] plugins@[j]).plugin_id()),
        decreases plugins@.len() - k,
    {
        let p = &plugins[k];
        if id_owns(p.id(), rid.as_str()) {
            return Option::Some(k);
        }
        k += 1;
    }
    Option::None
}

} // verus!
