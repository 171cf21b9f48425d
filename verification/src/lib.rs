//! Script catalogue core: header parsing, language detection, query parsing,
//! search filtering and ranking, and persisted user state.

pub mod text;
pub mod model;
pub mod header;
pub mod path;
pub mod lang;
pub mod sidecar;
pub mod parser;
pub mod query;
pub mod state;
pub mod order;
pub mod index;
pub mod error;
pub mod config;
pub mod scan;
pub mod actions;
pub mod cli;
pub mod tui;
pub mod vault;
