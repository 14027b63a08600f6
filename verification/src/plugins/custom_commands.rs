//! Custom commands provider: user-defined command aliases, matched by
//! case-folded substring, plus a `>`/`:` prefix syntax that runs an alias
//! with arguments.

use vstd::prelude::*;
use crate::plugin::{lemma_scoped_id_owned, owned_by, scoped_id, Plugin, PluginError};
use crate::search::{clone_string, ActionData, ExecOutcome, ResultType, SearchResult};
use crate::strutil::{
    chars_eq, chars_of, first_index_of, fold, folded_chars_of, is_substring,
    lemma_filter_push, lemma_filter_take_prefix, lemma_first_index_of, split_all_at,
    split_char, split_once_at, string_from_chars,
};

verus! {

/// One user-defined command.
#[derive(Debug)]
pub struct CustomCommand {
    pub alias: String,
    pub command: String,
    pub description: String,
    pub working_dir: Option<String>,
    pub run_as_admin: bool,
}

impl Clone for CustomCommand {
    /// An exact copy of the command.
    fn clone(&self) -> (r: Self)
        ensures
            r == *self,
    {
        CustomCommand {
            alias: clone_string(&self.alias),
            command: clone_string(&self.command),
            description: clone_string(&self.description),
            working_dir: crate::search::clone_opt_string(&self.working_dir),
            run_as_admin: self.run_as_admin,
        }
    }
}

/// The provider.
pub struct CustomCommandsPlugin {
    pub enabled: bool,
    pub commands: Vec<CustomCommand>,
    pub default_commands: Vec<CustomCommand>,
}

/// Whether the folded query occurs in the command's folded alias or
/// description.
pub open spec fn cc_matches(c: CustomCommand, fq: Seq<char>) -> bool {
    is_substring(fq, fold(c.alias@)) || is_substring(fq, fold(c.description@))
}

/// Whether `r` is the listing result rendered for the command `c`.
pub open spec fn is_cc_result(pid: Seq<char>, c: CustomCommand, r: SearchResult) -> bool {
    &&& r.id@ == pid + seq![':'] + c.alias@
    &&& r.title@ == seq!['>', ' '] + c.alias@
    &&& r.description == c.description
    &&& r.icon is None
    &&& r.result_type is Command
    &&& r.score == 85
    &&& r.action matches ActionData::ExecuteCommand { command } && command == c.command
}

/// The alias and the argument text of a `>`/`:` run query, when the query
/// carries that prefix.
pub open spec fn run_parse(q: Seq<char>) -> Option<(Seq<char>, Option<Seq<char>>)> {
    if q.len() > 0 && (q[0] == '>' || q[0] == ':') {
        let body = q.skip(1);
        let i = first_index_of(body, ' ');
        if i >= body.len() {
            Some((body, None))
        } else {
            Some((body.take(i), Some(body.skip(i + 1))))
        }
    } else {
        None
    }
}

/// Whether index `i` holds the first command whose folded alias equals the
/// folded run alias.
pub open spec fn is_first_alias_match(cmds: Seq<CustomCommand>, alias: Seq<char>, i: int) -> bool {
    &&& 0 <= i < cmds.len()
    &&& fold(cmds[i].alias@) == fold(alias)
    &&& forall|k: int| 0 <= k < i ==> fold(#[trigger] cmds[k].alias@) != fold(alias)
}

/// The command line the run entry carries: the command itself, or the
/// command followed by the argument text.
pub open spec fn run_command_line(c: CustomCommand, rest: Option<Seq<char>>) -> Seq<char> {
    match rest {
        None => c.command@,
        Some(r) => c.command@ + seq![' '] + r,
    }
}

/// Whether `r` is the run entry rendered for alias `alias`, command `c` and
/// argument text `rest`.
pub open spec fn is_cc_run_result(
    pid: Seq<char>,
    alias: Seq<char>,
    rest: Option<Seq<char>>,
    c: CustomCommand,
    r: SearchResult,
) -> bool {
    &&& r.id@ == pid + seq![':'] + (seq!['r', 'u', 'n', ':'] + alias)
    &&& r.title@ == seq!['r', 'u', 'n', ' '] + alias
    &&& r.description == c.description
    &&& r.icon is None
    &&& r.result_type is Command
    &&& r.score == 100
    &&& r.action matches ActionData::ExecuteCommand { command } && command@ == run_command_line(
        c,
        rest,
    )
}

/// Whether index `i` holds the first command whose command line or alias
/// equals the executed command text.
pub open spec fn is_first_exec_match(cmds: Seq<CustomCommand>, text: Seq<char>, i: int) -> bool {
    &&& 0 <= i < cmds.len()
    &&& (cmds[i].command@ == text || cmds[i].alias@ == text)
    &&& forall|k: int|
        0 <= k < i ==> (#[trigger] cmds[k].command@) != text && cmds[k].alias@ != text
}

impl CustomCommandsPlugin {
    /// The provider with its built-in aliases, enabled; the working set and
    /// the default set start out equal.
    pub fn new() -> (r: CustomCommandsPlugin)
        ensures
            r.plugin_enabled(),
            r.commands@ == r.default_commands@,
            r.commands@.len() == 23,
            r.commands@[0].alias@ == "git"@ && r.commands@[0].command@ == "git"@
                && r.commands@[0].description@ == "Git version control"@,
            r.commands@[1].alias@ == "npm"@ && r.commands@[1].command@ == "npm"@
                && r.commands@[1].description@ == "Node.js package manager"@,
            r.commands@[2].alias@ == "yarn"@ && r.commands@[2].command@ == "yarn"@
                && r.commands@[2].description@ == "Yarn package manager"@,
            r.commands@[3].alias@ == "pnpm"@ && r.commands@[3].command@ == "pnpm"@
                && r.commands@[3].description@ == "pnpm package manager"@,
            r.commands@[4].alias@ == "cargo"@ && r.commands@[4].command@ == "cargo"@
                && r.commands@[4].description@ == "Rust package manager"@,
            r.commands@[5].alias@ == "python"@ && r.commands@[5].command@ == "python"@
                && r.commands@[5].description@ == "Python interpreter"@,
            r.commands@[6].alias@ == "pip"@ && r.commands@[6].command@ == "pip"@
                && r.commands@[6].description@ == "Python package manager"@,
            r.commands@[7].alias@ == "node"@ && r.commands@[7].command@ == "node"@
                && r.commands@[7].description@ == "Node.js runtime"@,
            r.commands@[8].alias@ == "code"@ && r.commands@[8].command@ == "code"@
                && r.commands@[8].description@ == "VS Code editor"@,
            r.commands@[9].alias@ == "rustc"@ && r.commands@[9].command@ == "rustc"@
                && r.commands@[9].description@ == "Rust compiler"@,
            r.commands@[10].alias@ == "go"@ && r.commands@[10].command@ == "go"@
                && r.commands@[10].description@ == "Go programming language"@,
            r.commands@[11].alias@ == "docker"@ && r.commands@[11].command@ == "docker"@
                && r.commands@[11].description@ == "Docker container platform"@,
            r.commands@[12].alias@ == "kubectl"@ && r.commands@[12].command@ == "kubectl"@
                && r.commands@[12].description@ == "Kubernetes CLI"@,
            r.commands@[13].alias@ == "terraform"@ && r.commands@[13].command@ == "terraform"@
                && r.commands@[13].description@ == "Terraform IaC"@,
            r.commands@[14].alias@ == "curl"@ && r.commands@[14].command@ == "curl"@
                && r.commands@[14].description@ == "HTTP client"@,
            r.commands@[15].alias@ == "wget"@ && r.commands@[15].command@ == "wget"@
                && r.commands@[15].description@ == "File download tool"@,
            r.commands@[16].alias@ == "ssh"@ && r.commands@[16].command@ == "ssh"@
                && r.commands@[16].description@ == "SSH remote access"@,
            r.commands@[17].alias@ == "scp"@ && r.commands@[17].command@ == "scp"@
                && r.commands@[17].description@ == "Secure file copy"@,
            r.commands@[18].alias@ == "rsync"@ && r.commands@[18].command@ == "rsync"@
                && r.commands@[18].description@ == "File synchronisation tool"@,
            r.commands@[19].alias@ == "tar"@ && r.commands@[19].command@ == "tar"@
                && r.commands@[19].description@ == "Archive tool"@,
            r.commands@[20].alias@ == "zip"@ && r.commands@[20].command@ == "zip"@
                && r.commands@[20].description@ == "ZIP compression tool"@,
            r.commands@[21].alias@ == "unzip"@ && r.commands@[21].command@ == "unzip"@
                && r.commands@[21].description@ == "ZIP extraction tool"@,
            r.commands@[22].alias@ == "7z"@ && r.commands@[22].command@ == "7z"@
                && r.commands@[22].description@ == "7-Zip compression tool"@,
            forall|j: int|
                0 <= j < 23 ==> (#[trigger] r.commands@[j].working_dir) is None
                    && !r.commands@[j].run_as_admin,
    {
        let mut commands: Vec<CustomCommand> = Vec::new();
        push_cc(&mut commands, "git", "git", "Git version control");
        push_cc(&mut commands, "npm", "npm", "Node.js package manager");
        push_cc(&mut commands, "yarn", "yarn", "Yarn package manager");
        push_cc(&mut commands, "pnpm", "pnpm", "pnpm package manager");
        push_cc(&mut commands, "cargo", "cargo", "Rust package manager");
        push_cc(&mut commands, "python", "python", "Python interpreter");
        push_cc(&mut commands, "pip", "pip", "Python package manager");
        push_cc(&mut commands, "node", "node", "Node.js runtime");
        push_cc(&mut commands, "code", "code", "VS Code editor");
        push_cc(&mut commands, "rustc", "rustc", "Rust compiler");
        push_cc(&mut commands, "go", "go", "Go programming language");
        push_cc(&mut commands, "docker", "docker", "Docker container platform");
        push_cc(&mut commands, "kubectl", "kubectl", "Kubernetes CLI");
        push_cc(&mut commands, "terraform", "terraform", "Terraform IaC");
        push_cc(&mut commands, "curl", "curl", "HTTP client");
        push_cc(&mut commands, "wget", "wget", "File download tool");
        push_cc(&mut commands, "ssh", "ssh", "SSH remote access");
        push_cc(&mut commands, "scp", "scp", "Secure file copy");
        push_cc(&mut commands, "rsync", "rsync", "File synchronisation tool");
        push_cc(&mut commands, "tar", "tar", "Archive tool");
        push_cc(&mut commands, "zip", "zip", "ZIP compression tool");
        push_cc(&mut commands, "unzip", "unzip", "ZIP extraction tool");
        push_cc(&mut commands, "7z", "7z", "7-Zip compression tool");
        let default_commands = clone_commands(&commands);
        CustomCommandsPlugin { enabled: true, commands, default_commands }
    }

    /// Appends a command to the working set.
    pub fn add_command(&mut self, command: CustomCommand)
        ensures
            final(self).commands@ == old(self).commands@.push(command),
            final(self).default_commands@ == old(self).default_commands@,
            final(self).enabled == old(self).enabled,
    {
        self.commands.push(command);
    }

    /// Drops every command whose alias equals `alias` from the working set,
    /// keeping the order of the rest.
    pub fn remove_command(&mut self, alias: &str)
        ensures
            final(self).commands@ == old(self).commands@.filter(
                |c: CustomCommand| c.alias@ != alias@,
            ),
            final(self).default_commands@ == old(self).default_commands@,
            final(self).enabled == old(self).enabled,
    {
        let av = chars_of(alias);
        let mut kept: Vec<CustomCommand> = Vec::new();
        let ghost pred = |c: CustomCommand| c.alias@ != alias@;
        let mut i: usize = 0;
        proof {
            assert(self.commands@.take(0) =~= Seq::<CustomCommand>::empty());
        }
        while i < self.commands.len()
            invariant
                i <= self.commands@.len(),
                av@ == alias@,
                kept@ == self.commands@.take(i as int).filter(pred),
                pred == |c: CustomCommand| c.alias@ != alias@,
            decreases self.commands@.len() - i,
        {
            let c = &self.commands[i];
            let cv = chars_of(c.alias.as_str());
            let ghost taken = self.commands@.take(i as int);
            proof {
                assert(self.commands@.take(i + 1) =~= taken.push(self.commands@[i as int]));
                lemma_filter_push(taken, self.commands@[i as int], pred);
            }
            if !chars_eq(&cv, &av) {
                kept.push(c.clone());
            }
            i += 1;
        }
        proof {
            assert(self.commands@.take(i as int) =~= self.commands@);
        }
        self.commands = kept;
    }

    /// A copy of the working set.
    pub fn get_commands(&self) -> (r: Vec<CustomCommand>)
        ensures
            r@ == self.commands@,
    {
        clone_commands(&self.commands)
    }

    /// The alias and arguments of a `>`/`:` run query: the text after the
    /// marker up to the first space, and the space-split words after it.
    pub fn parse_custom_command(&self, input: &str) -> (r: Option<(String, Vec<String>)>)
        ensures
            match run_parse(input@) {
                None => r is None,
                Some((alias, rest)) => {
                    &&& r matches Some((a, args))
                    &&& a@ == alias
                    &&& match rest {
                        None => args@.len() == 0,
                        Some(restv) => args@.map_values(|p: String| p@) == split_char(
                            restv,
                            ' ',
                        ),
                    }
                },
            },
    {
        let v = chars_of(input);
        if v.len() == 0 {
            return Option::None;
        }
        let c0 = v[0];
        if c0 != '>' && c0 != ':' {
            return Option::None;
        }
        let mut body: Vec<char> = Vec::new();
        let mut i: usize = 1;
        while i < v.len()
            invariant
                1 <= i <= v@.len(),
                v@.len() >= 1,
                body@ == v@.skip(1).take(i - 1),
            decreases v@.len() - i,
        {
            body.push(v[i]);
            i += 1;
            assert(body@ =~= v@.skip(1).take(i - 1));
        }
        assert(body@ =~= input@.skip(1));
        proof {
            lemma_first_index_of(body@, ' ');
        }
        let (alias_v, rest) = split_once_at(&body, ' ');
        let alias = string_from_chars(&alias_v);
        match rest {
            Option::None => {
                assert(alias@ =~= input@.skip(1));
                Option::Some((alias, Vec::new()))
            },
            Option::Some(restv) => {
                let args = split_all_at(&restv, ' ');
                Option::Some((alias, args))
            },
        }
    }
}

/// Appends one command whose working directory is unset.
fn push_cc(commands: &mut Vec<CustomCommand>, alias: &str, command: &str, description: &str)
    ensures
        final(commands)@.len() == old(commands)@.len() + 1,
        forall|j: int| 0 <= j < old(commands)@.len() ==> final(commands)@[j] == old(commands)@[j],
        final(commands)@.last().alias@ == alias@,
        final(commands)@.last().command@ == command@,
        final(commands)@.last().description@ == description@,
        final(commands)@.last().working_dir is None,
        !final(commands)@.last().run_as_admin,
{
    let entry = CustomCommand {
        alias: String::from_str(alias),
        command: String::from_str(command),
        description: String::from_str(description),
        working_dir: Option::None,
        run_as_admin: false,
    };
    commands.push(entry);
}

/// The index of the first command whose folded alias equals the given folded
/// alias, if any.
fn find_first_alias(cmds: &Vec<CustomCommand>, falias: &Vec<char>) -> (r: Option<usize>)
    ensures
        r matches Some(k) ==> k < cmds@.len() && fold(cmds@[k as int].alias@) == falias@
            && forall|j: int| 0 <= j < k ==> fold(#[trigger] cmds@[j].alias@) != falias@,
        r is None ==> forall|j: int|
            0 <= j < cmds@.len() ==> fold(#[trigger] cmds@[j].alias@) != falias@,
{
    let mut k: usize = 0;
    while k < cmds.len()
        invariant
            k <= cmds@.len(),
            forall|j: int| 0 <= j < k ==> fold(#[trigger] cmds@[j].alias@) != falias@,
        decreases cmds@.len() - k,
    {
        let fca = folded_chars_of(cmds[k].alias.as_str());
        if chars_eq(&fca, falias) {
            return Option::Some(k);
        }
        k += 1;
    }
    Option::None
}

/// The index of the first command whose command line or alias equals the
/// given text, if any.
fn find_first_exec(cmds: &Vec<CustomCommand>, text: &Vec<char>) -> (r: Option<usize>)
    ensures
        r matches Some(k) ==> k < cmds@.len(),
        r matches Some(k) ==> (cmds@[k as int].command@ == text@ || cmds@[k as int].alias@
            == text@),
        r matches Some(k) ==> forall|j: int|
            0 <= j < k ==> (#[trigger] cmds@[j].command@) != text@ && cmds@[j].alias@ != text@,
        r is None ==> forall|j: int|
            0 <= j < cmds@.len() ==> (#[trigger] cmds@[j].command@) != text@ && cmds@[j].alias@
                != text@,
{
    let mut k: usize = 0;
    while k < cmds.len()
        invariant
            k <= cmds@.len(),
            forall|j: int|
                0 <= j < k ==> (#[trigger] cmds@[j].command@) != text@ && cmds@[j].alias@
                    != text@,
        decreases cmds@.len() - k,
    {
        let c = &cmds[k];
        let ccv = chars_of(c.command.as_str());
        let cav = chars_of(c.alias.as_str());
        if chars_eq(&ccv, text) || chars_eq(&cav, text) {
            proof {
                assert(ccv@ == c.command@ && cav@ == c.alias@);
                assert(*c == cmds@[k as int]);
                assert(cmds@[k as int].command@ == text@ || cmds@[k as int].alias@ == text@);
            }
            return Option::Some(k);
        }
        proof {
            assert forall|j: int|
                0 <= j < k + 1 implies (#[trigger] cmds@[j].command@) != text@ && cmds@[j].alias@
                    != text@ by {
                if j < k {
                    assert(cmds@[j].command@ != text@);
                }
            }
        }
        k += 1;
    }
    Option::None
}

/// An exact copy of a command list.
fn clone_commands(v: &Vec<CustomCommand>) -> (r: Vec<CustomCommand>)
    ensures
        r@ == v@,
{
    let mut r: Vec<CustomCommand> = Vec::new();
    let mut i: usize = 0;
    while i < v.len()
        invariant
            i <= v@.len(),
            r@ == v@.take(i as int),
        decreases v@.len() - i,
    {
        r.push(v[i].clone());
        i += 1;
        assert(r@ =~= v@.take(i as int));
    }
    assert(r@ =~= v@);
    r
}

impl Plugin for CustomCommandsPlugin {
    open spec fn plugin_id(&self) -> Seq<char> {
        "custom_commands"@
    }

    open spec fn plugin_enabled(&self) -> bool {
        self.enabled
    }

    /// Search always succeeds: in order, the first `limit`-or-fewer commands
    /// whose folded alias or description holds the folded query, each scored
    /// 85; then, for a `>`/`:` query naming a known alias, one run entry
    /// scored 100, if the limit leaves room for it.
    open spec fn search_ens(
        &self,
        query: Seq<char>,
        limit: int,
        r: Result<Vec<SearchResult>, PluginError>,
    ) -> bool {
        match r {
            Ok(v) => {
                let ms = self.commands@.filter(|c: CustomCommand| cc_matches(c, fold(query)));
                let n = vstd::math::min(limit, ms.len() as int);
                &&& v@.len() >= n
                &&& forall|j: int|
                    0 <= j < n ==> is_cc_result(self.plugin_id(), ms[j], #[trigger] v@[j])
                &&& match run_parse(query) {
                    Some((alias, rest)) => {
                        if n < limit && (exists|i: int|
                            is_first_alias_match(self.commands@, alias, i)) {
                            &&& v@.len() == n + 1
                            &&& forall|i: int|
                                is_first_alias_match(self.commands@, alias, i)
                                    ==> is_cc_run_result(
                                    self.plugin_id(),
                                    alias,
                                    rest,
                                    #[trigger] self.commands@[i],
                                    v@[n],
                                )
                        } else {
                            v@.len() == n
                        }
                    },
                    None => v@.len() == n,
                }
            },
            Err(_) => false,
        }
    }

    /// Executing a command result resolves to running the first command
    /// whose command line or alias equals the payload, or the payload itself
    /// when none does; other payloads resolve to no outside work.
    open spec fn execute_ens(&self, res: SearchResult, r: Result<ExecOutcome, PluginError>) -> bool {
        match res.action {
            ActionData::ExecuteCommand { command } => {
                &&& r matches Ok(o)
                &&& o matches ExecOutcome::RunCommand { command: out }
                &&& if exists|i: int| is_first_exec_match(self.commands@, command@, i) {
                    forall|i: int|
                        is_first_exec_match(self.commands@, command@, i) ==> out@ == (
                        #[trigger] self.commands@[i]).command@
                } else {
                    out@ == command@
                }
            },
            _ => r == Result::<ExecOutcome, PluginError>::Ok(ExecOutcome::NoEffect),
        }
    }

    fn id(&self) -> (r: &str) {
        "custom_commands"
    }

    fn name(&self) -> (r: &str) {
        "Custom commands"
    }

    fn description(&self) -> (r: &str) {
        "Run custom commands and scripts"
    }

    fn version(&self) -> (r: &str) {
        "0.1.0"
    }

    fn is_enabled(&self) -> (r: bool) {
        self.enabled
    }

    fn set_enabled(&mut self, enabled: bool) {
        self.enabled = enabled;
    }

    fn initialize(&mut self) -> (r: Result<(), PluginError>) {
        Result::Ok(())
    }

    fn search(&self, query: &str, limit: usize) -> (r: Result<Vec<SearchResult>, PluginError>) {
        let ghost pred = |c: CustomCommand| cc_matches(c, fold(query@));
        let fq = folded_chars_of(query);
        let mut results: Vec<SearchResult> = Vec::new();
        let mut i: usize = 0;
        proof {
            assert(self.commands@.take(0) =~= Seq::<CustomCommand>::empty());
        }
        while i < self.commands.len() && results.len() < limit
            invariant
                i <= self.commands@.len(),
                fq@ == fold(query@),
                results@.len() <= limit,
                results@.len() == self.commands@.take(i as int).filter(pred).len(),
                forall|j: int|
                    0 <= j < results@.len() ==> is_cc_result(
                        self.plugin_id(),
                        self.commands@.take(i as int).filter(pred)[j],
                        #[trigger] results@[j],
                    ),
                forall|j: int|
                    0 <= j < results@.len() ==> owned_by(#[trigger] results@[j], self.plugin_id()),
                pred == |c: CustomCommand| cc_matches(c, fold(query@)),
            decreases self.commands@.len() - i,
        {
            let c = &self.commands[i];
            let alias_match = {
                let h = folded_chars_of(c.alias.as_str());
                crate::strutil::contains_seq(&h, &fq)
            };
            let desc_match = {
                let h = folded_chars_of(c.description.as_str());
                crate::strutil::contains_seq(&h, &fq)
            };
            let ghost taken = self.commands@.take(i as int);
            proof {
                assert(self.commands@.take(i + 1) =~= taken.push(self.commands@[i as int]));
                lemma_filter_push(taken, self.commands@[i as int], pred);
            }
            if alias_match || desc_match {
                let mut title = String::from_str("> ");
                title.append(c.alias.as_str());
                proof {
                    reveal_strlit("> ");
                    assert(title@ =~= seq!['>', ' '] + c.alias@);
                }
                let rid = scoped_id(self.id(), c.alias.as_str());
                proof {
                    lemma_scoped_id_owned(self.plugin_id(), c.alias@);
                }
                let res = SearchResult::new(
                    rid,
                    title,
                    clone_string(&c.description),
                    ResultType::Command,
                    85,
                    ActionData::ExecuteCommand { command: clone_string(&c.command) },
                );
                results.push(res);
            }
            i += 1;
        }
        proof {
            lemma_filter_take_prefix(self.commands@, i as int, pred);
            if i == self.commands@.len() {
                assert(self.commands@.take(i as int) =~= self.commands@);
            }
        }
        // The `>`/`:` run entry.
        if results.len() < limit {
            if let Option::Some((alias, _args)) = self.parse_custom_command(query) {
                let ghost rp = run_parse(query@);
                let falias = folded_chars_of(alias.as_str());
                let hit = find_first_alias(&self.commands, &falias);
                proof {
                    if hit is None {
                        assert forall|i: int|
                            !is_first_alias_match(self.commands@, alias@, i) by {
                            if 0 <= i < self.commands@.len() {
                                assert(fold(self.commands@[i].alias@) != fold(alias@));
                            }
                        }
                    }
                }
                if let Option::Some(k) = hit {
                    assert(is_first_alias_match(self.commands@, alias@, k as int));
                    let c = &self.commands[k];
                    let ghost rest = rp->Some_0.1;
                    // The command line: the alias's command, plus the text
                    // after the first space when there is any.
                    let qv = chars_of(query);
                    let mut body: Vec<char> = Vec::new();
                    let mut bi: usize = 1;
                    while bi < qv.len()
                        invariant
                            1 <= bi <= qv@.len(),
                            qv@.len() >= 1,
                            qv@ == query@,
                            body@ == query@.skip(1).take(bi - 1),
                        decreases qv@.len() - bi,
                    {
                        body.push(qv[bi]);
                        bi += 1;
                        assert(body@ =~= query@.skip(1).take(bi - 1));
                    }
                    assert(body@ =~= query@.skip(1));
                    let (_, rest_v) = split_once_at(&body, ' ');
                    let command_line = match rest_v {
                        Option::None => clone_string(&c.command),
                        Option::Some(rv) => {
                            let mut s = clone_string(&c.command);
                            s.append(" ");
                            let rs = string_from_chars(&rv);
                            s.append(rs.as_str());
                            proof {
                                reveal_strlit(" ");
                                assert(s@ =~= run_command_line(self.commands@[k as int], rest));
                            }
                            s
                        },
                    };
                    let mut suffix = String::from_str("run:");
                    suffix.append(alias.as_str());
                    let rid = scoped_id(self.id(), suffix.as_str());
                    proof {
                        reveal_strlit("run:");
                        assert(suffix@ =~= seq!['r', 'u', 'n', ':'] + alias@);
                        lemma_scoped_id_owned(self.plugin_id(), suffix@);
                    }
                    let mut title = String::from_str("run ");
                    title.append(alias.as_str());
                    proof {
                        reveal_strlit("run ");
                        assert(title@ =~= seq!['r', 'u', 'n', ' '] + alias@);
                    }
                    let res = SearchResult::new(
                        rid,
                        title,
                        clone_string(&c.description),
                        ResultType::Command,
                        100,
                        ActionData::ExecuteCommand { command: command_line },
                    );
                    results.push(res);
                    proof {
                        assert forall|i: int|
                            is_first_alias_match(self.commands@, alias@, i) implies i == k as int by {
                            if i < k as int {
                                assert(fold(self.commands@[i].alias@) != fold(alias@));
                            } else if i > k as int {
                                assert(fold(self.commands@[k as int].alias@) != fold(alias@));
                            }
                        }
                    }
                }
            }
        }
        Result::Ok(results)
    }

    fn execute(&self, result: &SearchResult) -> (r: Result<ExecOutcome, PluginError>) {
        match &result.action {
            ActionData::ExecuteCommand { command } => {
                let cv = chars_of(command.as_str());
                match find_first_exec(&self.commands, &cv) {
                    Option::Some(k) => {
                        let out = clone_string(&self.commands[k].command);
                        proof {
                            assert(is_first_exec_match(self.commands@, command@, k as int));
                            assert forall|i: int|
                                is_first_exec_match(self.commands@, command@, i) implies out@
                                == (#[trigger] self.commands@[i]).command@ by {
                                if i < k as int {
                                    assert(self.commands@[i].command@ != command@);
                                    assert(self.commands@[i].alias@ != command@);
                                } else if i > k as int {
                                    assert(self.commands@[k as int].command@ != command@
                                        && self.commands@[k as int].alias@ != command@);
                                }
                            }
                        }
                        Result::Ok(ExecOutcome::RunCommand { command: out })
                    },
                    Option::None => {
                        proof {
                            assert forall|i: int|
                                !is_first_exec_match(self.commands@, command@, i) by {
                                if 0 <= i < self.commands@.len() {
                                    assert(self.commands@[i].command@ != command@);
                                }
                            }
                        }
                        Result::Ok(ExecOutcome::RunCommand { command: clone_string(command) })
                    },
                }
            },
            _ => Result::Ok(ExecOutcome::NoEffect),
        }
    }

    fn refresh(&mut self) -> (r: Result<(), PluginError>) {
        self.commands = clone_commands(&self.default_commands);
        Result::Ok(())
    }
}

} // verus!
