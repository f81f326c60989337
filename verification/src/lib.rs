//! Command-line toolkit logic for talking to MCP (Model Context Protocol)
//! tool servers: target-string resolution, parameter collection and merging,
//! schema-driven coercion of string parameters into typed argument values,
//! invocation planning, wordlist-driven fuzzing records, and the text the
//! commands emit.

pub mod chars;
pub mod cli;
pub mod fuzz;
pub mod invoke;
pub mod jsonout;
pub mod logging;
pub mod params;
pub mod schema;
pub mod style;
pub mod subject;
pub mod target;
