//! System commands provider: a fixed table of shutdown, settings and tool
//! commands, matched by case-folded substring against the query.

use vstd::prelude::*;
use crate::plugin::{
    lemma_scoped_id_owned, owned_by, scoped_id, Plugin, PluginError,
};
use crate::search::{
    clone_opt_string, clone_string, ActionData, ExecOutcome, ResultType, SearchResult,
};
use crate::strutil::{fold, folded_chars_of, is_substring, lemma_filter_push, lemma_filter_take_prefix};

verus! {

/// One entry of the command table.
#[derive(Debug)]
pub struct SystemCommand {
    pub id: String,
    pub name: String,
    pub description: String,
    pub command: String,
    pub icon: Option<String>,
}

impl Clone for SystemCommand {
    /// An exact copy of the entry.
    fn clone(&self) -> (r: Self)
        ensures
            r == *self,
    {
        SystemCommand {
            id: clone_string(&self.id),
            name: clone_string(&self.name),
            description: clone_string(&self.description),
            command: clone_string(&self.command),
            icon: clone_opt_string(&self.icon),
        }
    }
}

/// The provider.
pub struct SystemCommandsPlugin {
    pub enabled: bool,
    pub commands: Vec<SystemCommand>,
}

/// Whether the folded query occurs in the entry's folded name, description
/// or id.
pub open spec fn sys_cmd_matches(c: SystemCommand, fq: Seq<char>) -> bool {
    is_substring(fq, fold(c.name@)) || is_substring(fq, fold(c.description@)) || is_substring(
        fq,
        fold(c.id@),
    )
}

/// Whether `r` is the result this provider renders for the entry `c`.
pub open spec fn is_sys_result(pid: Seq<char>, c: SystemCommand, r: SearchResult) -> bool {
    &&& r.id@ == pid + seq![':'] + c.id@
    &&& r.title == c.name
    &&& r.description == c.description
    &&& r.icon == c.icon
    &&& r.result_type is Command
    &&& r.score == 90
    &&& r.action matches ActionData::ExecuteCommand { command } && command == c.command
}

impl SystemCommandsPlugin {
    /// The provider with its built-in command table, enabled.
    pub fn new() -> (r: SystemCommandsPlugin)
        ensures
            r.plugin_enabled(),
            r.commands@.len() == 33,
            r.commands@[0].id@ == "shutdown"@ && r.commands@[0].name@ == "Shut down"@
                && r.commands@[0].description@ == "Turn the computer off"@ && r.commands@[0].command@
                == "shutdown /s /t 0"@,
            r.commands@[1].id@ == "restart"@ && r.commands@[1].name@ == "Restart"@
                && r.commands@[1].description@ == "Restart the computer"@ && r.commands@[1].command@
                == "shutdown /r /t 0"@,
            r.commands@[2].id@ == "logoff"@ && r.commands@[2].name@ == "Log off"@
                && r.commands@[2].description@ == "Log off the current user"@ && r.commands@[2].command@
                == "shutdown /l"@,
            r.commands@[3].id@ == "lock"@ && r.commands@[3].name@ == "Lock"@
                && r.commands@[3].description@ == "Lock the computer"@ && r.commands@[3].command@
                == "rundll32.exe user32.dll,LockWorkStation"@,
            r.commands@[4].id@ == "sleep"@ && r.commands@[4].name@ == "Sleep"@
                && r.commands@[4].description@ == "Enter sleep mode"@ && r.commands@[4].command@
                == "rundll32.exe powrprof.dll,SetSuspendState 0,1,0"@,
            r.commands@[5].id@ == "hibernate"@ && r.commands@[5].name@ == "Hibernate"@
                && r.commands@[5].description@ == "Enter hibernation"@ && r.commands@[5].command@
                == "rundll32.exe powrprof.dll,SetSuspendState 1,1,0"@,
            r.commands@[6].id@ == "control"@ && r.commands@[6].name@ == "Control panel"@
                && r.commands@[6].description@ == "Open the control panel"@ && r.commands@[6].command@
                == "control"@,
            r.commands@[7].id@ == "settings"@ && r.commands@[7].name@ == "Settings"@
                && r.commands@[7].description@ == "Open the system settings"@ && r.commands@[7].command@
                == "ms-settings:"@,
            r.commands@[8].id@ == "taskmgr"@ && r.commands@[8].name@ == "Task manager"@
                && r.commands@[8].description@ == "Open the task manager"@ && r.commands@[8].command@
                == "taskmgr"@,
            r.commands@[9].id@ == "explorer"@ && r.commands@[9].name@ == "File explorer"@
                && r.commands@[9].description@ == "Open the file explorer"@ && r.commands@[9].command@
                == "explorer"@,
            r.commands@[10].id@ == "cmd"@ && r.commands@[10].name@ == "Command prompt"@
                && r.commands@[10].description@ == "Open the command prompt"@ && r.commands@[10].command@
                == "cmd"@,
            r.commands@[11].id@ == "powershell"@ && r.commands@[11].name@ == "PowerShell"@
                && r.commands@[11].description@ == "Open PowerShell"@ && r.commands@[11].command@
                == "powershell"@,
            r.commands@[12].id@ == "tasklist"@ && r.commands@[12].name@ == "Process list"@
                && r.commands@[12].description@ == "List the running processes"@ && r.commands@[12].command@
                == "tasklist"@,
            r.commands@[13].id@ == "ipconfig"@ && r.commands@[13].name@ == "IP configuration"@
                && r.commands@[13].description@ == "Show the network IP configuration"@ && r.commands@[13].command@
                == "ipconfig"@,
            r.commands@[14].id@ == "ncpa.cpl"@ && r.commands@[14].name@ == "Network connections"@
                && r.commands@[14].description@ == "Open the network connection settings"@ && r.commands@[14].command@
                == "ncpa.cpl"@,
            r.commands@[15].id@ == "devmgmt"@ && r.commands@[15].name@ == "Device manager"@
                && r.commands@[15].description@ == "Open the device manager"@ && r.commands@[15].command@
                == "devmgmt.msc"@,
            r.commands@[16].id@ == "diskmgmt"@ && r.commands@[16].name@ == "Disk management"@
                && r.commands@[16].description@ == "Open disk management"@ && r.commands@[16].command@
                == "diskmgmt.msc"@,
            r.commands@[17].id@ == "services"@ && r.commands@[17].name@ == "Services"@
                && r.commands@[17].description@ == "Open service management"@ && r.commands@[17].command@
                == "services.msc"@,
            r.commands@[18].id@ == "compmgmt"@ && r.commands@[18].name@ == "Computer management"@
                && r.commands@[18].description@ == "Open computer management"@ && r.commands@[18].command@
                == "compmgmt.msc"@,
            r.commands@[19].id@ == "regedit"@ && r.commands@[19].name@ == "Registry editor"@
                && r.commands@[19].description@ == "Open the registry editor"@ && r.commands@[19].command@
                == "regedit"@,
            r.commands@[20].id@ == "mstsc"@ && r.commands@[20].name@ == "Remote desktop"@
                && r.commands@[20].description@ == "Open the remote desktop client"@ && r.commands@[20].command@
                == "mstsc"@,
            r.commands@[21].id@ == "calc"@ && r.commands@[21].name@ == "Calculator"@
                && r.commands@[21].description@ == "Open the calculator"@ && r.commands@[21].command@
                == "calc"@,
            r.commands@[22].id@ == "notepad"@ && r.commands@[22].name@ == "Notepad"@
                && r.commands@[22].description@ == "Open the notepad"@ && r.commands@[22].command@
                == "notepad"@,
            r.commands@[23].id@ == "snippingtool"@ && r.commands@[23].name@ == "Snipping tool"@
                && r.commands@[23].description@ == "Open the snipping tool"@ && r.commands@[23].command@
                == "snippingtool"@,
            r.commands@[24].id@ == "osk"@ && r.commands@[24].name@ == "On-screen keyboard"@
                && r.commands@[24].description@ == "Open the on-screen keyboard"@ && r.commands@[24].command@
                == "osk"@,
            r.commands@[25].id@ == "magnify"@ && r.commands@[25].name@ == "Magnifier"@
                && r.commands@[25].description@ == "Open the magnifier"@ && r.commands@[25].command@
                == "magnify"@,
            r.commands@[26].id@ == "narrator"@ && r.commands@[26].name@ == "Narrator"@
                && r.commands@[26].description@ == "Open the narrator"@ && r.commands@[26].command@
                == "narrator"@,
            r.commands@[27].id@ == "dpi"@ && r.commands@[27].name@ == "Display settings"@
                && r.commands@[27].description@ == "Open the display settings"@ && r.commands@[27].command@
                == "ms-settings:display"@,
            r.commands@[28].id@ == "sound"@ && r.commands@[28].name@ == "Sound settings"@
                && r.commands@[28].description@ == "Open the sound settings"@ && r.commands@[28].command@
                == "ms-settings:sound"@,
            r.commands@[29].id@ == "bluetooth"@ && r.commands@[29].name@ == "Bluetooth settings"@
                && r.commands@[29].description@ == "Open the bluetooth settings"@ && r.commands@[29].command@
                == "ms-settings:bluetooth"@,
            r.commands@[30].id@ == "wifi"@ && r.commands@[30].name@ == "WiFi settings"@
                && r.commands@[30].description@ == "Open the network settings"@ && r.commands@[30].command@
                == "ms-settings:network"@,
            r.commands@[31].id@ == "apps"@ && r.commands@[31].name@ == "App settings"@
                && r.commands@[31].description@ == "Open the app settings"@ && r.commands@[31].command@
                == "ms-settings:appsfeatures"@,
            r.commands@[32].id@ == "date"@ && r.commands@[32].name@ == "Date and time"@
                && r.commands@[32].description@ == "Open the date and time settings"@ && r.commands@[32].command@
                == "ms-settings:dateandtime"@,
            forall|j: int| 0 <= j < 33 ==> (#[trigger] r.commands@[j].icon) is None,
    {
        let mut commands: Vec<SystemCommand> = Vec::new();
        push_cmd(&mut commands, "shutdown", "Shut down", "Turn the computer off", "shutdown /s /t 0");
        push_cmd(&mut commands, "restart", "Restart", "Restart the computer", "shutdown /r /t 0");
        push_cmd(&mut commands, "logoff", "Log off", "Log off the current user", "shutdown /l");
        push_cmd(&mut commands, "lock", "Lock", "Lock the computer", "rundll32.exe user32.dll,LockWorkStation");
        push_cmd(&mut commands, "sleep", "Sleep", "Enter sleep mode", "rundll32.exe powrprof.dll,SetSuspendState 0,1,0");
        push_cmd(&mut commands, "hibernate", "Hibernate", "Enter hibernation", "rundll32.exe powrprof.dll,SetSuspendState 1,1,0");
        push_cmd(&mut commands, "control", "Control panel", "Open the control panel", "control");
        push_cmd(&mut commands, "settings", "Settings", "Open the system settings", "ms-settings:");
        push_cmd(&mut commands, "taskmgr", "Task manager", "Open the task manager", "taskmgr");
        push_cmd(&mut commands, "explorer", "File explorer", "Open the file explorer", "explorer");
        push_cmd(&mut commands, "cmd", "Command prompt", "Open the command prompt", "cmd");
        push_cmd(&mut commands, "powershell", "PowerShell", "Open PowerShell", "powershell");
        push_cmd(&mut commands, "tasklist", "Process list", "List the running processes", "tasklist");
        push_cmd(&mut commands, "ipconfig", "IP configuration", "Show the network IP configuration", "ipconfig");
        push_cmd(&mut commands, "ncpa.cpl", "Network connections", "Open the network connection settings", "ncpa.cpl");
        push_cmd(&mut commands, "devmgmt", "Device manager", "Open the device manager", "devmgmt.msc");
        push_cmd(&mut commands, "diskmgmt", "Disk management", "Open disk management", "diskmgmt.msc");
        push_cmd(&mut commands, "services", "Services", "Open service management", "services.msc");
        push_cmd(&mut commands, "compmgmt", "Computer management", "Open computer management", "compmgmt.msc");
        push_cmd(&mut commands, "regedit", "Registry editor", "Open the registry editor", "regedit");
        push_cmd(&mut commands, "mstsc", "Remote desktop", "Open the remote desktop client", "mstsc");
        push_cmd(&mut commands, "calc", "Calculator", "Open the calculator", "calc");
        push_cmd(&mut commands, "notepad", "Notepad", "Open the notepad", "notepad");
        push_cmd(&mut commands, "snippingtool", "Snipping tool", "Open the snipping tool", "snippingtool");
        push_cmd(&mut commands, "osk", "On-screen keyboard", "Open the on-screen keyboard", "osk");
        push_cmd(&mut commands, "magnify", "Magnifier", "Open the magnifier", "magnify");
        push_cmd(&mut commands, "narrator", "Narrator", "Open the narrator", "narrator");
        push_cmd(&mut commands, "dpi", "Display settings", "Open the display settings", "ms-settings:display");
        push_cmd(&mut commands, "sound", "Sound settings", "Open the sound settings", "ms-settings:sound");
        push_cmd(&mut commands, "bluetooth", "Bluetooth settings", "Open the bluetooth settings", "ms-settings:bluetooth");
        push_cmd(&mut commands, "wifi", "WiFi settings", "Open the network settings", "ms-settings:network");
        push_cmd(&mut commands, "apps", "App settings", "Open the app settings", "ms-settings:appsfeatures");
        push_cmd(&mut commands, "date", "Date and time", "Open the date and time settings", "ms-settings:dateandtime");
        SystemCommandsPlugin { enabled: true, commands }
    }
}

/// Appends one iconless entry to the command table.
fn push_cmd(commands: &mut Vec<SystemCommand>, id: &str, name: &str, description: &str, command: &str)
    ensures
        final(commands)@.len() == old(commands)@.len() + 1,
        forall|j: int| 0 <= j < old(commands)@.len() ==> final(commands)@[j] == old(commands)@[j],
        final(commands)@.last().id@ == id@,
        final(commands)@.last().name@ == name@,
        final(commands)@.last().description@ == description@,
        final(commands)@.last().command@ == command@,
        final(commands)@.last().icon is None,
{
    let entry = SystemCommand {
        id: String::from_str(id),
        name: String::from_str(name),
        description: String::from_str(description),
        command: String::from_str(command),
        icon: Option::None,
    };
    commands.push(entry);
}

impl Plugin for SystemCommandsPlugin {
    open spec fn plugin_id(&self) -> Seq<char> {
        "system_commands"@
    }

    open spec fn plugin_enabled(&self) -> bool {
        self.enabled
    }

    /// Search always succeeds and returns, in table order, the first
    /// `limit`-or-fewer entries whose folded name, description or id holds
    /// the folded query, each rendered as a command result scoring 90.
    open spec fn search_ens(
        &self,
        query: Seq<char>,
        limit: int,
        r: Result<Vec<SearchResult>, PluginError>,
    ) -> bool {
        match r {
            Ok(v) => {
                let ms = self.commands@.filter(|c: SystemCommand| sys_cmd_matches(c, fold(query)));
                let n = vstd::math::min(limit, ms.len() as int);
                &&& v@.len() == n
                &&& forall|j: int|
                    0 <= j < n ==> is_sys_result(self.plugin_id(), ms[j], #[trigger] v@[j])
            },
            Err(_) => false,
        }
    }

    /// Executing a command result resolves to running its command line; any
    /// other payload resolves to no outside work.
    open spec fn execute_ens(&self, res: SearchResult, r: Result<ExecOutcome, PluginError>) -> bool {
        match res.action {
            ActionData::ExecuteCommand { command } => r matches Ok(o) && o matches
                ExecOutcome::RunCommand { command: c2 } && c2 == command,
            _ => r == Result::<ExecOutcome, PluginError>::Ok(ExecOutcome::NoEffect),
        }
    }

    fn id(&self) -> (r: &str) {
        "system_commands"
    }

    fn name(&self) -> (r: &str) {
        "System commands"
    }

    fn description(&self) -> (r: &str) {
        "Run system commands and open system settings"
    }

    fn version(&self) -> (r: &str) {
        "0.1.0"
    }

    fn is_enabled(&self) -> (r: bool) {
        self.enabled
    }

    fn set_enabled(&mut self, enabled: bool) {
        self.enabled = enabled;
    }

    fn initialize(&mut self) -> (r: Result<(), PluginError>) {
        Result::Ok(())
    }

    fn search(&self, query: &str, limit: usize) -> (r: Result<Vec<SearchResult>, PluginError>) {
        let ghost pred = |c: SystemCommand| sys_cmd_matches(c, fold(query@));
        let fq = folded_chars_of(query);
        let mut results: Vec<SearchResult> = Vec::new();
        let mut i: usize = 0;
        proof {
            assert(self.commands@.take(0) =~= Seq::<SystemCommand>::empty());
        }
        while i < self.commands.len() && results.len() < limit
            invariant
                i <= self.commands@.len(),
                fq@ == fold(query@),
                results@.len() <= limit,
                results@.len() == self.commands@.take(i as int).filter(pred).len(),
                forall|j: int|
                    0 <= j < results@.len() ==> is_sys_result(
                        self.plugin_id(),
                        self.commands@.take(i as int).filter(pred)[j],
                        #[trigger] results@[j],
                    ),
                forall|j: int|
                    0 <= j < results@.len() ==> owned_by(#[trigger] results@[j], self.plugin_id()),
                pred == |c: SystemCommand| sys_cmd_matches(c, fold(query@)),
            decreases self.commands@.len() - i,
        {
            let c = &self.commands[i];
            let name_match = {
                let h = folded_chars_of(c.name.as_str());
                crate::strutil::contains_seq(&h, &fq)
            };
            let desc_match = {
                let h = folded_chars_of(c.description.as_str());
                crate::strutil::contains_seq(&h, &fq)
            };
            let id_match = {
                let h = folded_chars_of(c.id.as_str());
                crate::strutil::contains_seq(&h, &fq)
            };
            let ghost taken = self.commands@.take(i as int);
            proof {
                assert(self.commands@.take(i + 1) =~= taken.push(self.commands@[i as int]));
                lemma_filter_push(taken, self.commands@[i as int], pred);
            }
            if name_match || desc_match || id_match {
                let rid = scoped_id(self.id(), c.id.as_str());
                proof {
                    lemma_scoped_id_owned(self.plugin_id(), c.id@);
                }
                let res = SearchResult::new(
                    rid,
                    clone_string(&c.name),
                    clone_string(&c.description),
                    ResultType::Command,
                    90,
                    ActionData::ExecuteCommand { command: clone_string(&c.command) },
                ).with_icon(clone_opt_string(&c.icon));
                results.push(res);
            }
            i += 1;
        }
        proof {
            let ms = self.commands@.filter(pred);
            lemma_filter_take_prefix(self.commands@, i as int, pred);
            if i == self.commands@.len() {
                assert(self.commands@.take(i as int) =~= self.commands@);
            }
        }
        Result::Ok(results)
    }

    fn execute(&self, result: &SearchResult) -> (r: Result<ExecOutcome, PluginError>) {
        match &result.action {
            ActionData::ExecuteCommand { command } => Result::Ok(
                ExecOutcome::RunCommand { command: clone_string(command) },
            ),
            _ => Result::Ok(ExecOutcome::NoEffect),
        }
    }

    fn refresh(&mut self) -> (r: Result<(), PluginError>) {
        Result::Ok(())
    }
}

} // verus!
