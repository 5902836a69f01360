//! Verified core of a personal command-memorization tool.
//!
//! The library stores user-entered shell commands with descriptions, ranks
//! them against a live search pattern with a fuzzy matcher, and drives the
//! selection and mode state machine behind an interactive picker. Terminal
//! rendering, file storage, clipboard access and the external editor are
//! collaborators around this core; they exchange plain values with it.

pub mod command_scores;
pub mod crow_commands;
pub mod crow_db;
pub mod events;
pub mod fuzzy;
pub mod history;
pub mod input;
pub mod scored_commands;
pub mod state;
pub mod text;
