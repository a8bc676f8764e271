//! Dependencies between tasks: which projects a declared dependency addresses,
//! which of their tasks may be depended on, and the list of resolved
//! dependencies that results.

pub mod candidate;
pub mod expand;
pub mod laws;
pub mod model;
pub mod scope;

pub use candidate::{check_dep, push_dep, resolve_dep};
pub use scope::{build_dependencies_query, scope_candidates, Candidates};
