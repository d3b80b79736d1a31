//! The client's tables and what decides which rows they show.
pub mod tables;
