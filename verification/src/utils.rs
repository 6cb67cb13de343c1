//! Helpers shared by the rest of the crate.
pub mod decimal;
pub mod lines;
pub mod storage;
pub mod strings;
pub mod words;
