//! Decision logic of a small chat-service daemon: a recurring-job scheduler,
//! the daily status-update job, the exclusion list and the reaction-role
//! bookkeeping, each with a machine-checked contract.
pub mod commands;
pub mod config;
pub mod context;
pub mod events;
pub mod graphql;
pub mod ids;
pub mod logging;
pub mod scheduler;
pub mod tasks;
pub mod utils;

pub use context::{populate_data_with_reaction_roles, Data, ReloadHandle};
pub use events::{event_handler, handle_reaction, is_relevant_reaction};
pub use logging::setup_tracing;
