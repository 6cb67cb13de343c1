//! The exchange with the remote roster service.
pub mod json;
pub mod queries;
