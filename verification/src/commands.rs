//! The commands that members can send to the daemon.
pub mod command;
