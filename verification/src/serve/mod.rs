//! Conversations over HTTP: several sessions side by side, each with at most one
//! turn under way, and commands that wait for somebody to approve or deny them.
//!
//! The server here decides what is answered, what its listeners are told and what
//! is to be done next. The program around it reads requests, writes replies and
//! does what is to be done.

pub mod drive;
pub mod event_laws;
pub mod frames;
pub mod laws;
pub mod move_laws;
pub mod record;
pub mod reply_laws;
pub mod routes;
pub mod run_laws;
pub mod server;
pub mod session_laws;
pub mod ui;
