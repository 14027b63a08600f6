//! The registry and orchestrator: fan-out, ranking, truncation, routing.

use werun_core::plugin::{AnyPlugin, ExecError, Plugin, PluginManager};
use werun_core::plugins::app_launcher::AppLauncherPlugin;
use werun_core::plugins::calculator::CalculatorPlugin;
use werun_core::plugins::clipboard::ClipboardPlugin;
use werun_core::plugins::custom_commands::{CustomCommand, CustomCommandsPlugin};
use werun_core::plugins::system_commands::SystemCommandsPlugin;
use werun_core::routing::{handle_plugin_command, ResultListDelegate};
use werun_core::search::{ActionData, ExecOutcome, ResultType, SearchEngine, SearchResult};

fn custom_with(alias: &str) -> CustomCommandsPlugin {
    let mut p = CustomCommandsPlugin::new();
    p.add_command(CustomCommand {
        alias: alias.to_string(),
        command: alias.to_string(),
        description: "a test alias".to_string(),
        working_dir: None,
        run_as_admin: false,
    });
    p
}

#[test]
fn empty_query_returns_nothing() {
    let mut m = PluginManager::new();
    m.register(AnyPlugin::SystemCommands(SystemCommandsPlugin::new()));
    m.register(AnyPlugin::Calculator(CalculatorPlugin::new()));
    assert!(m.search_all("", 50).is_empty());
}

#[test]
fn output_never_exceeds_the_limit() {
    let mut m = PluginManager::new();
    m.register(AnyPlugin::SystemCommands(SystemCommandsPlugin::new()));
    // Every entry's description holds "open", far more than three.
    assert!(m.search_all("open", 3).len() <= 3);
    assert!(m.search_all("open", 0).is_empty());
    assert!(m.search_all("open", 100).len() >= 4);
}

#[test]
fn output_is_sorted_by_score_descending() {
    let mut m = PluginManager::new();
    m.register(AnyPlugin::Calculator(CalculatorPlugin::new()));
    m.register(AnyPlugin::SystemCommands(SystemCommandsPlugin::new()));
    m.register(AnyPlugin::CustomCommands(CustomCommandsPlugin::new()));
    let out = m.search_all("ca", 50);
    assert!(!out.is_empty());
    for w in out.windows(2) {
        assert!(w[0].score >= w[1].score);
    }
}

#[test]
fn equal_scores_keep_registration_order() {
    let mut m = PluginManager::new();
    m.register(AnyPlugin::CustomCommands(custom_with("zebraone")));
    m.register(AnyPlugin::CustomCommands(custom_with("zebratwo")));
    let out = m.search_all("zebra", 10);
    assert_eq!(out.len(), 2);
    assert_eq!(out[0].score, out[1].score);
    assert_eq!(out[0].id, "custom_commands:zebraone");
    assert_eq!(out[1].id, "custom_commands:zebratwo");
}

#[test]
fn disabled_provider_contributes_nothing() {
    let mut sys = SystemCommandsPlugin::new();
    sys.set_enabled(false);
    let mut m = PluginManager::new();
    m.register(AnyPlugin::SystemCommands(sys));
    m.register(AnyPlugin::Calculator(CalculatorPlugin::new()));
    let out = m.search_all("notepad", 50);
    assert!(out.iter().all(|r| !r.id.starts_with("system_commands:")));
    assert!(out.is_empty());
    // The same query finds the command once the provider is enabled again.
    let mut m2 = PluginManager::new();
    m2.register(AnyPlugin::SystemCommands(SystemCommandsPlugin::new()));
    assert_eq!(m2.search_all("notepad", 50).len(), 1);
}

#[test]
fn execute_routes_to_the_owning_provider() {
    let mut m = PluginManager::new();
    m.register(AnyPlugin::AppLauncher(AppLauncherPlugin::new()));
    let chosen = SearchResult::new(
        "app_launcher:C:\\app.exe".to_string(),
        "app".to_string(),
        "an application".to_string(),
        ResultType::Application,
        100,
        ActionData::LaunchApp { path: "C:\\app.exe".to_string(), args: Vec::new() },
    );
    match m.execute(&chosen) {
        Ok(ExecOutcome::LaunchApp { path, args }) => {
            assert_eq!(path, "C:\\app.exe");
            assert!(args.is_empty());
        },
        other => panic!("expected a launch outcome, got {:?}", other),
    }
    let stranger = SearchResult::new(
        "unknown_provider:x".to_string(),
        "x".to_string(),
        "y".to_string(),
        ResultType::Command,
        1,
        ActionData::ExecuteCommand { command: "x".to_string() },
    );
    assert_eq!(m.execute(&stranger), Err(ExecError::NoOwningPlugin));
}

#[test]
fn match_plugin_ids_keeps_prefix_matches_in_order() {
    let mut m = PluginManager::new();
    m.register(AnyPlugin::Calculator(CalculatorPlugin::new()));
    m.register(AnyPlugin::CustomCommands(CustomCommandsPlugin::new()));
    m.register(AnyPlugin::Clipboard(ClipboardPlugin::new()));
    assert_eq!(m.match_plugin_ids("ca"), vec!["calculator".to_string()]);
    assert_eq!(
        m.match_plugin_ids("c"),
        vec!["calculator".to_string(), "custom_commands".to_string(), "clipboard".to_string()],
    );
    assert!(m.match_plugin_ids("zzz").is_empty());
}

#[test]
fn search_plugin_scopes_to_one_provider() {
    let mut m = PluginManager::new();
    m.register(AnyPlugin::SystemCommands(SystemCommandsPlugin::new()));
    m.register(AnyPlugin::Calculator(CalculatorPlugin::new()));
    let out = m.search_plugin("system_commands", "notepad", 50);
    assert_eq!(out.len(), 1);
    assert_eq!(out[0].id, "system_commands:notepad");
    assert!(m.search_plugin("no_such_provider", "notepad", 50).is_empty());
    assert!(m.search_plugin("system_commands", "", 50).is_empty());
}

#[test]
fn initialize_all_reports_success_and_counts_stay() {
    let mut m = PluginManager::new();
    m.register(AnyPlugin::SystemCommands(SystemCommandsPlugin::new()));
    m.register(AnyPlugin::Calculator(CalculatorPlugin::new()));
    assert_eq!(m.plugin_count(), 2);
    assert!(m.initialize_all().is_ok());
    assert_eq!(m.plugin_count(), 2);
}

#[test]
fn slash_prefix_lists_picker_results() {
    let mut m = PluginManager::new();
    m.register(AnyPlugin::Calculator(CalculatorPlugin::new()));
    m.register(AnyPlugin::Clipboard(ClipboardPlugin::new()));
    let out = handle_plugin_command(&m, "/c");
    assert_eq!(out.len(), 2);
    assert_eq!(out[0].id, "__plugin__:calculator");
    assert_eq!(out[1].id, "__plugin__:clipboard");
    assert_eq!(out[0].score, 1000);
    match &out[0].action {
        ActionData::Custom { plugin, data } => {
            assert_eq!(plugin, "selector");
            assert_eq!(data, "calculator");
        },
        other => panic!("expected a selector action, got {:?}", other),
    }
    assert!(handle_plugin_command(&m, "/").is_empty());
}

#[test]
fn slash_prefix_with_a_term_searches_that_provider() {
    let mut m = PluginManager::new();
    m.register(AnyPlugin::Calculator(CalculatorPlugin::new()));
    let out = handle_plugin_command(&m, "/calculator 1+2");
    assert_eq!(out.len(), 1);
    assert_eq!(out[0].id, "calculator:1+2");
}

#[test]
fn session_scopes_searches_to_the_active_provider() {
    let mut m = PluginManager::new();
    m.register(AnyPlugin::SystemCommands(SystemCommandsPlugin::new()));
    m.register(AnyPlugin::Calculator(CalculatorPlugin::new()));
    let mut session = ResultListDelegate::new(Vec::new());
    assert!(session.get_active_plugin().is_none());
    session.select_plugin("system_commands");
    session.perform_search_internal(&m, "notepad");
    assert_eq!(session.items_count(), 1);
    let item = session.get_item(0).expect("one item");
    assert_eq!(item.id, "system_commands:notepad");
    assert!(item.highlighted_title.is_some());
    session.clear_active_plugin();
    assert!(session.get_active_plugin().is_none());
    session.perform_search_internal(&m, "");
    assert_eq!(session.items_count(), 0);
}

#[test]
fn search_engine_delegates_to_the_manager() {
    let mut m = PluginManager::new();
    m.register(AnyPlugin::SystemCommands(SystemCommandsPlugin::new()));
    let mut engine = SearchEngine::new();
    engine.set_query("notepad".to_string());
    engine.set_limit(5);
    let out = engine.search(&m);
    assert_eq!(out.len(), 1);
    assert_eq!(out[0].id, "system_commands:notepad");
    engine.set_query(String::new());
    assert!(engine.search(&m).is_empty());
}

#[test]
fn provider_failures_pass_through_execute() {
    let mut m = PluginManager::new();
    m.register(AnyPlugin::WindowSwitcher(
        werun_core::plugins::window_switcher::WindowSwitcherPlugin::new(),
    ));
    let malformed = SearchResult::new(
        "window_switcher:nonsense".to_string(),
        "t".to_string(),
        "d".to_string(),
        ResultType::Custom("window".to_string()),
        1,
        ActionData::Custom {
            plugin: "window_switcher".to_string(),
            data: "nonsense".to_string(),
        },
    );
    assert_eq!(
        m.execute(&malformed),
        Err(ExecError::Plugin(werun_core::plugin::PluginError::MalformedAction)),
    );
}
