//! A compiler from shader node graphs to shader source.
//!
//! `registry` and `builtins` hold the node types; `graph` and `project` the
//! graph and its exposed properties; `eval` walks the graph from each stage's
//! sink and emits one source unit in a dialect of `dialect`; `layout` gives
//! the byte layout of the uniform block that unit declares.
pub mod builtins;
pub mod dialect;
pub mod eval;
pub mod graph;
pub mod layout;
pub mod nodes;
pub mod project;
pub mod registry;
pub mod text;
pub mod view;

use vstd::prelude::*;
