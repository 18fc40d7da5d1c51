//! MemX core: the text, configuration, search and service rules of a
//! local-first long-term memory store, with their contracts.

pub mod text;
pub mod fts;
pub mod search;
pub mod types;
pub mod schema;
pub mod paths;
pub mod config;
pub mod setup;
pub mod embed;
pub mod updater;
pub mod os_service;
pub mod requests;
pub mod rows;
pub mod update_flow;
pub mod version;
pub mod dates;
