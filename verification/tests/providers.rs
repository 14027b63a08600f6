//! The individual providers, their parsers and their formatting.

use werun_core::icons::{IconCache, IconInfo};
use werun_core::numfmt::{i64_to_string, u64_to_string};
use werun_core::plugin::{Plugin, PluginError};
use werun_core::plugins::app_launcher::{AppInfo, AppLauncherPlugin};
use werun_core::plugins::calculator::CalculatorPlugin;
use werun_core::plugins::clipboard::{format_time, ClipboardPlugin};
use werun_core::plugins::color_picker::ColorPickerPlugin;
use werun_core::plugins::custom_commands::CustomCommandsPlugin;
use werun_core::plugins::file_search::{FileInfo, FileSearchPlugin};
use werun_core::plugins::system_commands::SystemCommandsPlugin;
use werun_core::plugins::web_search::WebSearchPlugin;
use werun_core::plugins::window_switcher::{WindowInfo, WindowSwitcherPlugin};
use werun_core::config::{KeybindingsConfig, SearchConfig, ThemeConfig};
use werun_core::search::{ActionData, ExecOutcome, ResultType, SearchResult};

#[test]
fn calculator_works_out_expressions() {
    let calc = CalculatorPlugin::new();
    assert_eq!(calc.evaluate("3+4"), Some(7));
    assert_eq!(calc.evaluate(" 12 * 12 "), Some(144));
    assert_eq!(calc.evaluate("(2+3)*4"), Some(20));
    assert_eq!(calc.evaluate("10-2+3"), Some(11));
    assert_eq!(calc.evaluate("7/2"), Some(3));
    assert_eq!(calc.evaluate("5-9"), Some(-4));
    assert_eq!(calc.evaluate("42"), Some(42));
    // Division is split at its first slash, so a chain divides by the
    // quotient of the rest: the scan-order policy, kept deliberately.
    assert_eq!(calc.evaluate("8/4/2"), Some(4));
    assert_eq!(calc.evaluate("1/0"), None);
    assert_eq!(calc.evaluate("hello"), None);
    assert!(calc.is_expression("1+2"));
    assert!(calc.is_expression("42"));
    assert!(!calc.is_expression("hello"));
}

#[test]
fn calculator_renders_one_result() {
    let calc = CalculatorPlugin::new();
    let out = calc.search("1+2", 10).expect("search succeeds");
    assert_eq!(out.len(), 1);
    assert_eq!(out[0].id, "calculator:1+2");
    assert_eq!(out[0].title, "1+2 = 3");
    assert_eq!(out[0].score, 1000);
    assert!(matches!(out[0].result_type, ResultType::Calculator));
    match &out[0].action {
        ActionData::CopyToClipboard { text } => assert_eq!(text, "3"),
        other => panic!("expected a copy action, got {:?}", other),
    }
    assert!(calc.search("1+2", 0).expect("search succeeds").is_empty());
    assert!(calc.search("plain words", 10).expect("search succeeds").is_empty());
}

#[test]
fn system_commands_match_by_name_description_or_id() {
    let sys = SystemCommandsPlugin::new();
    let out = sys.search("notepad", 10).expect("search succeeds");
    assert_eq!(out.len(), 1);
    assert_eq!(out[0].id, "system_commands:notepad");
    assert_eq!(out[0].score, 90);
    let all = sys.search("", 100).expect("search succeeds");
    assert_eq!(all.len(), 33);
}

#[test]
fn custom_commands_parse_and_run_aliases() {
    let cc = CustomCommandsPlugin::new();
    let (alias, args) = cc.parse_custom_command(">git status now").expect("parses");
    assert_eq!(alias, "git");
    assert_eq!(args, vec!["status".to_string(), "now".to_string()]);
    assert!(cc.parse_custom_command("git").is_none());

    let out = cc.search(">git push", 10).expect("search succeeds");
    let run = out.last().expect("a run entry");
    assert_eq!(run.id, "custom_commands:run:git");
    assert_eq!(run.score, 100);
    match &run.action {
        ActionData::ExecuteCommand { command } => assert_eq!(command, "git push"),
        other => panic!("expected a command action, got {:?}", other),
    }
}

#[test]
fn custom_commands_can_be_added_and_removed() {
    let mut cc = CustomCommandsPlugin::new();
    let before = cc.get_commands().len();
    cc.remove_command("git");
    assert_eq!(cc.get_commands().len(), before - 1);
    assert!(cc.get_commands().iter().all(|c| c.alias != "git"));
    assert!(cc.refresh().is_ok());
    assert_eq!(cc.get_commands().len(), before);
}

#[test]
fn custom_commands_execute_resolves_aliases() {
    let cc = CustomCommandsPlugin::new();
    let chosen = SearchResult::new(
        "custom_commands:git".to_string(),
        "> git".to_string(),
        "Git version control".to_string(),
        ResultType::Command,
        85,
        ActionData::ExecuteCommand { command: "git".to_string() },
    );
    match cc.execute(&chosen) {
        Ok(ExecOutcome::RunCommand { command }) => assert_eq!(command, "git"),
        other => panic!("expected a run outcome, got {:?}", other),
    }
}

#[test]
fn app_launcher_indexes_and_matches() {
    let mut apps = AppLauncherPlugin::new();
    apps.set_apps(vec![
        AppInfo {
            name: "Google Chrome".to_string(),
            path: "C:\\chrome.exe".to_string(),
            description: "Browser".to_string(),
            icon: None,
        },
        AppInfo {
            name: "Notepad".to_string(),
            path: "C:\\notepad.exe".to_string(),
            description: "Editor".to_string(),
            icon: None,
        },
    ]);
    let out = apps.search("chrome", 10).expect("search succeeds");
    assert_eq!(out.len(), 1);
    assert_eq!(out[0].id, "app_launcher:C:\\chrome.exe");
    assert_eq!(out[0].score, 100);

    let shortcut = apps.parse_shortcut("C:\\menu\\App Name.lnk").expect("a shortcut entry");
    assert_eq!(shortcut.name, "App Name");
    assert_eq!(shortcut.path, "C:\\menu\\App Name.lnk");
}

#[test]
fn file_search_ranks_by_fuzzy_score() {
    let mut files = FileSearchPlugin::new();
    files.set_files(vec![
        FileInfo {
            name: "report.txt".to_string(),
            path: "/docs/report.txt".to_string(),
            size: 1536,
            is_dir: false,
            modified_millis: 0,
        },
        FileInfo {
            name: "reports".to_string(),
            path: "/docs/reports".to_string(),
            size: 0,
            is_dir: true,
            modified_millis: 0,
        },
    ]);
    let out = files.search("report", 10).expect("search succeeds");
    assert_eq!(out.len(), 2);
    assert!(out[0].score >= out[1].score);
    assert!(files.search("r", 10).expect("search succeeds").is_empty());
    assert_eq!(files.format_size(1536), "1.5 KB");
    assert_eq!(files.format_size(500), "500.0 B");
    assert_eq!(files.format_size(1048576), "1.0 MB");
}

#[test]
fn clipboard_remembers_and_deduplicates() {
    let mut clip = ClipboardPlugin::new();
    clip.add_entry("hello world".to_string());
    clip.add_entry("hello world".to_string());
    clip.add_entry("second".to_string());
    assert_eq!(clip.get_history().len(), 2);
    assert_eq!(clip.get_history()[0].text, "second");
    clip.add_entry(String::new());
    assert_eq!(clip.get_history().len(), 2);
    let out = clip.search("WORLD", 10).expect("search succeeds");
    assert_eq!(out.len(), 1);
    assert!(out[0].id.starts_with("clipboard:"));
    assert_eq!(out[0].score, 50);
}

#[test]
fn relative_time_is_rendered_in_words() {
    assert_eq!(format_time(30_000, 0), "just now");
    assert_eq!(format_time(120_000, 0), "2 minutes ago");
    assert_eq!(format_time(7_200_000, 0), "2 hours ago");
    assert_eq!(format_time(172_800_000, 0), "2 days ago");
    assert_eq!(format_time(0, 60_000), "just now");
}

#[test]
fn window_switcher_matches_and_executes() {
    let mut win = WindowSwitcherPlugin::new();
    win.set_windows(vec![WindowInfo {
        hwnd: 42,
        title: "Firefox".to_string(),
        process_name: "firefox.exe".to_string(),
    }]);
    let out = win.search("fire", 10).expect("search succeeds");
    assert_eq!(out.len(), 1);
    assert_eq!(out[0].id, "window_switcher:42");
    match win.execute(&out[0]) {
        Ok(ExecOutcome::SwitchToWindow { hwnd }) => assert_eq!(hwnd, 42),
        other => panic!("expected a switch outcome, got {:?}", other),
    }
    let malformed = SearchResult::new(
        "window_switcher:abc".to_string(),
        "t".to_string(),
        "d".to_string(),
        ResultType::Custom("window".to_string()),
        1,
        ActionData::Custom { plugin: "window_switcher".to_string(), data: "abc".to_string() },
    );
    assert_eq!(win.execute(&malformed), Err(PluginError::MalformedAction));
}

#[test]
fn web_search_builds_encoded_urls() {
    let web = WebSearchPlugin::new();
    let url = web.build_search_url("google", "hello world").expect("a known engine");
    assert_eq!(url, "https://www.google.com/search?q=hello%20world");
    assert!(web.build_search_url("altavista", "x").is_none());

    let out = web.search("gh rust", 10).expect("search succeeds");
    assert_eq!(out[0].id, "web_search:github:rust");
    assert_eq!(out[0].score, 80);
    match &out[0].action {
        ActionData::OpenUrl { url } => assert_eq!(url, "https://github.com/search?q=rust"),
        other => panic!("expected a URL action, got {:?}", other),
    }

    // A one-word query offers the other engines too, within the limit.
    let out = web.search("rust", 3).expect("search succeeds");
    assert_eq!(out.len(), 3);
    assert_eq!(out[0].score, 80);
    assert_eq!(out[1].score, 70);

    // A query with spaces offers only the picked engine.
    let out = web.search("two words", 10).expect("search succeeds");
    assert_eq!(out.len(), 1);
}

#[test]
fn icon_cache_stores_and_shadows() {
    let mut cache = IconCache::new();
    assert!(cache.get_icon("a.exe").is_none());
    cache.set_icon("a.exe", vec![1, 2, 3]);
    assert_eq!(cache.get_icon("a.exe"), Some(vec![1, 2, 3]));
    cache.set_icon("a.exe", vec![9]);
    assert_eq!(cache.get_icon("a.exe"), Some(vec![9]));
    assert_eq!(cache.extract_icon_from_exe("a.exe"), Some(vec![9]));
    cache.set_icon("ext:png", vec![7]);
    assert_eq!(cache.get_file_type_icon("PNG"), Some(vec![7]));
    cache.clear();
    assert!(cache.get_icon("a.exe").is_none());

    let mut info = IconInfo::application("a.exe");
    assert!(info.load().is_ok());
    assert!(IconInfo::file("f.txt").data.is_none());
    assert!(IconInfo::folder("d").data.is_none());
}

#[test]
fn defaults_are_the_documented_ones() {
    let theme = ThemeConfig::default();
    assert_eq!(theme.current_theme, "dark");
    assert!(theme.follow_system);
    let search = SearchConfig::default();
    assert_eq!(search.max_results, 50);
    assert_eq!(search.debounce_ms, 50);
    assert_eq!(search.file_ignore_patterns.len(), 4);
    let keys = KeybindingsConfig::default();
    assert_eq!(keys.confirm, "Enter");
    assert_eq!(keys.close, "Escape");
}

#[test]
fn numbers_render_in_decimal() {
    assert_eq!(u64_to_string(0), "0");
    assert_eq!(u64_to_string(90210), "90210");
    assert_eq!(i64_to_string(-42), "-42");
    assert_eq!(i64_to_string(i64::MIN), "-9223372036854775808");
}

#[test]
fn color_picker_reads_the_three_notations() {
    let picker = ColorPickerPlugin::new();
    assert_eq!(picker.parse_hex("#ff0000"), Some((255, 0, 0)));
    assert_eq!(picker.parse_hex("f00"), Some((255, 0, 0)));
    assert_eq!(picker.parse_hex("  #A0B1C2  "), Some((160, 177, 194)));
    assert_eq!(picker.parse_hex("#12345"), None);
    assert_eq!(picker.parse_hex("ghijkl"), None);
    assert_eq!(picker.parse_rgb("rgb(12, 34, 56)"), Some((12, 34, 56)));
    assert_eq!(picker.parse_rgb("rgb(256, 0, 0)"), None);
    assert_eq!(picker.parse_hsl("hsl(120, 50%, 50%)"), Some((120, 50, 50)));
    assert_eq!(picker.parse_hsl("hsl(361, 50%, 50%)"), None);
}

#[test]
fn color_picker_converts_and_names() {
    let picker = ColorPickerPlugin::new();
    assert_eq!(picker.rgb_to_hsl(255, 0, 0), (0, 100, 50));
    assert_eq!(picker.rgb_to_hsl(0, 255, 0), (120, 100, 50));
    assert_eq!(picker.rgb_to_hsl(0, 0, 255), (240, 100, 50));
    assert_eq!(picker.hsl_to_rgb(0, 100, 50), (255, 0, 0));
    assert_eq!(picker.get_color_name(255, 0, 0), "Red");
    assert_eq!(picker.get_color_name(250, 250, 250), "White");
    assert_eq!(picker.get_color_name(10, 10, 10), "Black");
    let cv = picker.parse_color("#ff0000").expect("a colour");
    assert_eq!(cv.hex, "#FF0000");
    assert_eq!(cv.rgb, (255, 0, 0));
    assert_eq!(cv.name, "Red");
    assert!(picker.parse_color("not a colour").is_none());
}

#[test]
fn color_picker_offers_four_notation_results() {
    let picker = ColorPickerPlugin::new();
    let out = picker.search("#ff0000", 10).expect("search succeeds");
    assert_eq!(out.len(), 4);
    assert_eq!(out[0].id, "color_picker:#FF0000");
    assert_eq!(out[0].score, 1000);
    assert_eq!(out[1].title, "RGB(255, 0, 0)");
    match &out[1].action {
        ActionData::CopyToClipboard { text } => assert_eq!(text, "rgb(255, 0, 0)"),
        other => panic!("expected a copy action, got {:?}", other),
    }
    assert_eq!(out[3].title, "#FF0000");
    assert_eq!(picker.search("#ff0000", 2).expect("search succeeds").len(), 2);
}
