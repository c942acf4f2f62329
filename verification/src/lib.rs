//! Management of named AWS authentication profiles kept in sectioned
//! key = value configuration files.
//!
//! The library holds the whole rule set of the tool: the file format of the
//! config and credentials stores, profile classification, input validation,
//! the append-only store discipline, the dispatch of the three login flows,
//! and the assembly of the environment handed to the spawned shell.

pub mod auth;
pub mod error;
pub mod ini;
pub mod laws;
pub mod okta_yaml;
pub mod paths;
pub mod profile;
pub mod prompt;
pub mod session;
pub mod store;
pub mod text;
pub mod validate;
