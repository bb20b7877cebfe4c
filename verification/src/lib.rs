//! Verified core of a repository refactoring tool: import and reference
//! parsing for JavaScript/TypeScript, PHP and JSON sources, path
//! resolution, text replacement, rename planning and migration planning.
use vstd::prelude::*;

pub mod cli;
pub mod commands;
pub mod config;
pub mod context;
pub mod error;
pub mod exec;
pub mod analyzers;
pub mod filesystem;
pub mod languages;
pub mod mcp;
pub mod output;
pub mod paths;
pub mod refactor;
pub mod scanner;
pub mod text;
pub mod utils;

verus! {

} // verus!
