//! Core of a keystroke launcher: an ordered registry of search providers, a
//! fan-out search orchestrator that merges, ranks and truncates their results,
//! a fuzzy matching engine, and a routing convention that carries a chosen
//! result back to the provider that produced it.

pub mod config;
pub mod fuzzy;
pub mod icons;
pub mod numfmt;
pub mod plugin;
pub mod plugins;
pub mod rank;
pub mod routing;
pub mod search;
pub mod strutil;
