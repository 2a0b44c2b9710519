//! Repositories, and what git says of them.
pub mod agreement;
pub mod diff;
pub mod hunks;
pub mod questions;
pub mod records;
pub mod repository;
pub mod rewrite_log;
