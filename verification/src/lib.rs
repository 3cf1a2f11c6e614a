//! ocha: a provider-neutral conversation loop with a single approval point.

pub mod backend;
pub mod command;
pub mod config;
pub mod json;
pub mod log;
pub mod reminders;
pub mod repl;
pub mod run_turn;
pub mod serve;
pub mod stream;
pub mod text;
pub mod tool;
pub mod turn;
pub mod turn_laws;
pub mod view_laws;
