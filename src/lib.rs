//! Watches filesystem paths and, for every change event, runs the ordered
//! list of actions bound to each affected path.
//!
//! The library holds the decisions: which events count as changes, which
//! actions a registered path runs and in what order, how a command template
//! becomes a program and its arguments, and how the outcomes of one event are
//! tallied. Delivering notifications, printing and spawning processes are left
//! to the caller, which performs the effects the library hands out.

pub mod event;
pub mod template;
pub mod action;
pub mod command;
pub mod print;
pub mod files_watcher;
pub mod config;
