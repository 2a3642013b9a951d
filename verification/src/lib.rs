//! Verified command-line, configuration and presentation logic of the GRM
//! graph tooling: startup option parsing, read-only query guards, help-catalog
//! lookup, table rendering and value conversion rules.

pub mod error;
pub mod text;
pub mod config;
pub mod cli;
pub mod value;
pub mod schema;
pub mod help;
pub mod records;
pub mod gateway;
pub mod query;
pub mod python;
pub mod service;
pub mod tools;
pub mod server;
pub mod session;
pub mod derive;
pub mod propmap;
pub mod laws;
pub mod service_cli;
pub mod service_commands;
pub mod find_output;
pub mod snapshot;
pub mod deck_query;
pub mod startup;
pub mod batch;
pub mod idmap;
pub mod input_laws;
