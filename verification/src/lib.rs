//! Filtering and naming logic of the network capture viewer's client: the
//! filter language of every table, with its lexer and parser; the matchers
//! that decide which rows a filter keeps, and the order rows are listed in;
//! the candidate pairs that STUN traffic reveals; and the helpers that name
//! streams.
pub mod app;
pub mod filter_system;
pub mod packet;
pub mod streams;
pub mod text;
