//! The concrete search providers.

pub mod app_launcher;
pub mod calculator;
pub mod clipboard;
pub mod color_picker;
pub mod custom_commands;
pub mod file_search;
pub mod system_commands;
pub mod web_search;
pub mod window_switcher;
