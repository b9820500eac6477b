//! A verified core of a module bundler: the module/dependency graph engine
//! and the chunk runtime-code synthesis pipeline.
//!
//! The library models modules, dependencies and chunks as plain data, builds
//! the dependency graph with deduplication, accumulates runtime requirements
//! as a bitset, and synthesizes the runtime function that maps a chunk
//! identifier to its asset URL, choosing between a dynamic formula and a
//! static lookup table.

pub mod chunk;
pub mod chunk_filename;
pub mod codegen;
pub mod compilation;
pub mod dependency;
pub mod error;
pub mod eval;
pub mod factory;
pub mod graph;
pub mod filename;
pub mod ident;
pub mod module;
pub mod plugin;
pub mod runtime_globals;
pub mod strutil;

pub use chunk_filename::GetChunkFilenameRuntimeModule;
pub use compilation::Compilation;
pub use error::CoreError;
pub use graph::ModuleGraph;
pub use runtime_globals::RuntimeGlobals;
