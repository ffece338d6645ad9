pub mod text;
pub mod pattern;
pub mod keyindex;
pub mod schema_ops;
pub mod snapshot;
pub mod diff;
pub mod diff_laws;
pub mod diff_swap;
pub mod diff_edges;
pub mod scanner;
pub mod registry;
pub mod migration;
pub mod derive;
pub mod config;
pub mod init;
pub mod cli;
pub mod json;
pub mod expr;
pub mod schema;
pub mod traits;
pub mod id;
pub mod graph;
pub mod query;
