//! The launcher's configuration values, passed in explicitly at
//! construction time; reading and writing them on disk is the caller's
//! outside work.

use vstd::prelude::*;

verus! {

/// Theme selection.
#[derive(Debug)]
pub struct ThemeConfig {
    pub current_theme: String,
    pub follow_system: bool,
}

impl Default for ThemeConfig {
    /// The dark theme, following the system.
    fn default() -> (r: Self)
        ensures
            r.current_theme@ == "dark"@,
            r.follow_system,
    {
        ThemeConfig { current_theme: String::from_str("dark"), follow_system: true }
    }
}

/// Search behaviour.
#[derive(Debug)]
pub struct SearchConfig {
    pub max_results: usize,
    pub debounce_ms: u64,
    pub enable_file_search: bool,
    pub file_search_paths: Vec<String>,
    pub file_ignore_patterns: Vec<String>,
}

impl Default for SearchConfig {
    /// Fifty results, a fifty-millisecond debounce, file search enabled with
    /// no roots yet (the caller adds the user's folders), and the usual
    /// ignore patterns.
    fn default() -> (r: Self)
        ensures
            r.max_results == 50,
            r.debounce_ms == 50,
            r.enable_file_search,
            r.file_search_paths@.len() == 0,
            r.file_ignore_patterns@.len() == 4,
    {
        let mut file_ignore_patterns: Vec<String> = Vec::new();
        file_ignore_patterns.push(String::from_str("*.tmp"));
        file_ignore_patterns.push(String::from_str("*.log"));
        file_ignore_patterns.push(String::from_str("node_modules"));
        file_ignore_patterns.push(String::from_str(".git"));
        SearchConfig {
            max_results: 50,
            debounce_ms: 50,
            enable_file_search: true,
            file_search_paths: Vec::new(),
            file_ignore_patterns,
        }
    }
}

/// Key bindings.
#[derive(Debug)]
pub struct KeybindingsConfig {
    pub toggle_launcher: String,
    pub navigate_up: String,
    pub navigate_down: String,
    pub confirm: String,
    pub close: String,
}

impl Default for KeybindingsConfig {
    /// The usual launcher bindings.
    fn default() -> (r: Self)
        ensures
            r.toggle_launcher@ == "Alt+Space"@,
            r.navigate_up@ == "ArrowUp"@,
            r.navigate_down@ == "ArrowDown"@,
            r.confirm@ == "Enter"@,
            r.close@ == "Escape"@,
    {
        KeybindingsConfig {
            toggle_launcher: String::from_str("Alt+Space"),
            navigate_up: String::from_str("ArrowUp"),
            navigate_down: String::from_str("ArrowDown"),
            confirm: String::from_str("Enter"),
            close: String::from_str("Escape"),
        }
    }
}

} // verus!
