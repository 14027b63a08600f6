//! The value types exchanged between providers, the orchestrator and the
//! caller: ranked actionable results, their type tags, their action payloads,
//! and the outcome a provider resolves an executed result into.

use vstd::prelude::*;

verus! {

/// The closed set of result kinds, used by callers to pick icons and labels.
#[derive(Debug, PartialEq)]
pub enum ResultType {
    Application,
    File,
    Folder,
    Command,
    Calculator,
    Clipboard,
    Settings,
    Custom(String),
}

/// The side-effect payload attached to a result, interpreted at execute time.
#[derive(Debug)]
pub enum ActionData {
    LaunchApp { path: String, args: Vec<String> },
    OpenFile { path: String },
    ExecuteCommand { command: String },
    CopyToClipboard { text: String },
    OpenUrl { url: String },
    Custom { plugin: String, data: String },
}

/// One ranked, actionable search result.
///
/// The `id` is globally unique within one search call and carries the owning
/// provider's id before the first `:`, so that `execute` can route the result
/// back; higher `score` sorts earlier.
#[derive(Debug)]
pub struct SearchResult {
    pub id: String,
    pub title: String,
    pub description: String,
    pub icon: Option<String>,
    pub result_type: ResultType,
    pub score: u32,
    pub action: ActionData,
    pub highlighted_title: Option<String>,
    pub highlighted_description: Option<String>,
}

/// The concrete outside work that executing a result asks the caller to
/// perform.  The orchestrator and the providers only decide; the caller (which
/// owns process spawning, the clipboard and the windows) carries the outcome
/// out.
#[derive(Debug, PartialEq)]
pub enum ExecOutcome {
    /// Start the application at `path` with `args`.
    LaunchApp { path: String, args: Vec<String> },
    /// Open the file or folder at `path` with its default handler.
    OpenPath { path: String },
    /// Run `command` through the shell.
    RunCommand { command: String },
    /// Place `text` on the clipboard.
    CopyText { text: String },
    /// Open `url` in the default browser.
    OpenUrl { url: String },
    /// Bring the window with the given handle to the foreground.
    SwitchToWindow { hwnd: i64 },
    /// The provider accepted the result and nothing outside is left to do.
    NoEffect,
}

/// Whether `a` and `b` are the same outcome: the same variant, with equal
/// fields.  For `LaunchApp` the argument vectors are compared by contents.
pub open spec fn outcome_like(a: ExecOutcome, b: ExecOutcome) -> bool {
    match (a, b) {
        (
            ExecOutcome::LaunchApp { path: pa, args: aa },
            ExecOutcome::LaunchApp { path: pb, args: ab },
        ) => pa == pb && aa@ == ab@,
        (ExecOutcome::OpenPath { path: pa }, ExecOutcome::OpenPath { path: pb }) => pa == pb,
        (
            ExecOutcome::RunCommand { command: ca },
            ExecOutcome::RunCommand { command: cb },
        ) => ca == cb,
        (ExecOutcome::CopyText { text: ta }, ExecOutcome::CopyText { text: tb }) => ta == tb,
        (ExecOutcome::OpenUrl { url: ua }, ExecOutcome::OpenUrl { url: ub }) => ua == ub,
        (
            ExecOutcome::SwitchToWindow { hwnd: ha },
            ExecOutcome::SwitchToWindow { hwnd: hb },
        ) => ha == hb,
        (ExecOutcome::NoEffect, ExecOutcome::NoEffect) => true,
        _ => false,
    }
}

impl Clone for ExecOutcome {
    /// A copy of the outcome: the same work, with the argument vector of a
    /// `LaunchApp` copied element by element.
    fn clone(&self) -> (r: Self)
        ensures
            outcome_like(r, *self),
    {
        match self {
            ExecOutcome::LaunchApp { path, args } => ExecOutcome::LaunchApp {
                path: clone_string(path),
                args: clone_strings(args),
            },
            ExecOutcome::OpenPath { path } => ExecOutcome::OpenPath { path: clone_string(path) },
            ExecOutcome::RunCommand { command } => ExecOutcome::RunCommand {
                command: clone_string(command),
            },
            ExecOutcome::CopyText { text } => ExecOutcome::CopyText { text: clone_string(text) },
            ExecOutcome::OpenUrl { url } => ExecOutcome::OpenUrl { url: clone_string(url) },
            ExecOutcome::SwitchToWindow { hwnd } => ExecOutcome::SwitchToWindow { hwnd: *hwnd },
            ExecOutcome::NoEffect => ExecOutcome::NoEffect,
        }
    }
}

impl Clone for ResultType {
    /// An exact copy of the tag.
    fn clone(&self) -> (r: Self)
        ensures
            r == *self,
    {
        match self {
            ResultType::Application => ResultType::Application,
            ResultType::File => ResultType::File,
            ResultType::Folder => ResultType::Folder,
            ResultType::Command => ResultType::Command,
            ResultType::Calculator => ResultType::Calculator,
            ResultType::Clipboard => ResultType::Clipboard,
            ResultType::Settings => ResultType::Settings,
            ResultType::Custom(name) => ResultType::Custom(clone_string(name)),
        }
    }
}

/// Whether `a` and `b` are the same action: the same variant, with equal
/// fields.  For `LaunchApp` the argument vectors are compared by contents.
pub open spec fn action_like(a: ActionData, b: ActionData) -> bool {
    match (a, b) {
        (
            ActionData::LaunchApp { path: pa, args: aa },
            ActionData::LaunchApp { path: pb, args: ab },
        ) => pa == pb && aa@ == ab@,
        (ActionData::OpenFile { path: pa }, ActionData::OpenFile { path: pb }) => pa == pb,
        (
            ActionData::ExecuteCommand { command: ca },
            ActionData::ExecuteCommand { command: cb },
        ) => ca == cb,
        (
            ActionData::CopyToClipboard { text: ta },
            ActionData::CopyToClipboard { text: tb },
        ) => ta == tb,
        (ActionData::OpenUrl { url: ua }, ActionData::OpenUrl { url: ub }) => ua == ub,
        (
            ActionData::Custom { plugin: pa, data: da },
            ActionData::Custom { plugin: pb, data: db },
        ) => pa == pb && da == db,
        _ => false,
    }
}

impl Clone for ActionData {
    /// A copy of the payload: the same action, with the argument vector of a
    /// `LaunchApp` copied element by element.
    fn clone(&self) -> (r: Self)
        ensures
            action_like(r, *self),
    {
        match self {
            ActionData::LaunchApp { path, args } => ActionData::LaunchApp {
                path: clone_string(path),
                args: clone_strings(args),
            },
            ActionData::OpenFile { path } => ActionData::OpenFile { path: clone_string(path) },
            ActionData::ExecuteCommand { command } => ActionData::ExecuteCommand {
                command: clone_string(command),
            },
            ActionData::CopyToClipboard { text } => ActionData::CopyToClipboard {
                text: clone_string(text),
            },
            ActionData::OpenUrl { url } => ActionData::OpenUrl { url: clone_string(url) },
            ActionData::Custom { plugin, data } => ActionData::Custom {
                plugin: clone_string(plugin),
                data: clone_string(data),
            },
        }
    }
}

impl Clone for SearchResult {
    /// A copy of the result: every field equal, the action compared by
    /// contents.
    fn clone(&self) -> (r: Self)
        ensures
            r.id == self.id,
            r.title == self.title,
            r.description == self.description,
            r.icon == self.icon,
            r.result_type == self.result_type,
            r.score == self.score,
            action_like(r.action, self.action),
            r.highlighted_title == self.highlighted_title,
            r.highlighted_description == self.highlighted_description,
    {
        SearchResult {
            id: clone_string(&self.id),
            title: clone_string(&self.title),
            description: clone_string(&self.description),
            icon: clone_opt_string(&self.icon),
            result_type: self.result_type.clone(),
            score: self.score,
            action: self.action.clone(),
            highlighted_title: clone_opt_string(&self.highlighted_title),
            highlighted_description: clone_opt_string(&self.highlighted_description),
        }
    }
}

/// An exact copy of a string.
pub fn clone_string(s: &String) -> (r: String)
    ensures
        r == *s,
{
    s.clone()
}

/// An exact copy of an optional string.
pub fn clone_opt_string(s: &Option<String>) -> (r: Option<String>)
    ensures
        r == *s,
{
    match s {
        Option::Some(v) => Option::Some(v.clone()),
        Option::None => Option::None,
    }
}

/// An exact copy of a string vector.
pub fn clone_strings(v: &Vec<String>) -> (r: Vec<String>)
    ensures
        r@ == v@,
{
    let mut r: Vec<String> = Vec::new();
    let mut i: usize = 0;
    while i < v.len()
        invariant
            i <= v@.len(),
            r@ == v@.take(i as int),
        decreases v@.len() - i,
    {
        r.push(v[i].clone());
        i += 1;
        assert(r@ =~= v@.take(i as int));
    }
    assert(r@ =~= v@);
    r
}

impl SearchResult {
    /// A result with the given fields, no icon and no highlighting yet.
    pub fn new(
        id: String,
        title: String,
        description: String,
        result_type: ResultType,
        score: u32,
        action: ActionData,
    ) -> (r: SearchResult)
        ensures
            r.id == id,
            r.title == title,
            r.description == description,
            r.icon is None,
            r.result_type == result_type,
            r.score == score,
            r.action == action,
            r.highlighted_title is None,
            r.highlighted_description is None,
    {
        SearchResult {
            id,
            title,
            description,
            icon: Option::None,
            result_type,
            score,
            action,
            highlighted_title: Option::None,
            highlighted_description: Option::None,
        }
    }

    /// The same result with its icon replaced.
    pub fn with_icon(self, icon: Option<String>) -> (r: SearchResult)
        ensures
            r == (SearchResult { icon, ..self }),
    {
        SearchResult { icon, ..self }
    }
}

/// A query and a result bound, handed to the orchestrator as one call.
pub struct SearchEngine {
    pub query: String,
    pub limit: usize,
}

impl SearchEngine {
    /// An engine with an empty query and the default bound of fifty.
    pub fn new() -> (r: SearchEngine)
        ensures
            r.query@.len() == 0,
            r.limit == 50,
    {
        SearchEngine { query: String::new(), limit: 50 }
    }

    /// Replaces the query.
    pub fn set_query(&mut self, query: String)
        ensures
            final(self).query == query,
            final(self).limit == old(self).limit,
    {
        self.query = query;
    }

    /// Replaces the result bound.
    pub fn set_limit(&mut self, limit: usize)
        ensures
            final(self).limit == limit,
            final(self).query == old(self).query,
    {
        self.limit = limit;
    }

    /// Fans the engine's query out over the registered providers: the merged
    /// results, sorted by score descending, at most `limit` of them, and
    /// nothing at all for an empty query.
    pub fn search(&self, manager: &crate::plugin::PluginManager) -> (r: Vec<SearchResult>)
        ensures
            self.query@.len() == 0 ==> r@.len() == 0,
            r@.len() <= self.limit,
            crate::rank::sorted_desc(r@),
            forall|k: int|
                0 <= k < r@.len() ==> crate::plugin::from_enabled_provider(
                    manager.plugins@,
                    #[trigger] r@[k],
                ),
            self.query@.len() > 0 ==> exists|pool: Seq<SearchResult>|
                #[trigger] crate::plugin::enabled_fanout(
                    manager.plugins@,
                    self.query@,
                    pool,
                    self.limit as int,
                ) && r@ == crate::plugin::sort_trunc(pool, self.limit as int),
    {
        manager.search_all(self.query.as_str(), self.limit)
    }
}

} // verus!
