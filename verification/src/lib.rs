//! Repository maps, symbol lookup and call graphs for source trees, and the local protocol that
//! serves them.
//!
//! The library decides and computes; walking directories, reading files, talking to a language
//! server and listening on sockets is left to the program around it, which hands in plain values
//! and takes plain values back. Every function says in its contract what it returns, over a
//! mathematical view of its arguments, and the modules under [`laws`] prove what holds of the
//! functions together.
//!
//! - [`java`] maps the symbols of Java sources, [`lookup`] searches the map.
//! - [`graph`] answers call graph queries with the help of a language server, whose protocol is
//!   in [`lsp`].
//! - [`routing`] serves the actions of the local protocol, whose messages are in [`envelope`] and
//!   whose methods are in [`catalog`]; [`http`] answers plain HTTP for inspection; [`warmup`]
//!   tells what changed in a project.
//! - [`text`], [`paths`], [`json`], [`rank`], [`textmap`], [`patterns`] and [`symbols`] hold what
//!   the others are made of.

pub mod catalog;
pub mod envelope;
pub mod graph;
pub mod http;
pub mod java;
pub mod json;
pub mod laws;
pub mod lookup;
pub mod lsp;
pub mod paths;
pub mod patterns;
pub mod rank;
pub mod routing;
pub mod symbols;
pub mod text;
pub mod textmap;
pub mod warmup;

pub use graph::{graph_calls_typescript_lsp, GraphCallEdge, GraphCallsResult};
pub use java::{build_java_repo_map, build_java_repo_map_incremental};
pub use lookup::{lookup_java_symbol, lookup_java_symbol_fuzzy};
pub use symbols::{
    ClassSymbol, FileMap, FuzzySymbolMatch, IncrementalBuildStats, IncrementalRepoMapResult,
    JavaFileCache, JavaRepoIndexCache, MethodSymbol, RepoMap, SymbolLocation,
};
