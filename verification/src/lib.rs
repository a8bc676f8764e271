//! Task expansion for a monorepo task runner: turns the symbolic parts of a
//! declared task (commands, arguments, environment, dependencies, inputs and
//! outputs) into literal values, with every step stated and proved.
//!
//! A [`TasksExpander`] works on the tasks of one project. It is given the
//! project, a query that finds other projects, and a [`TokenExpander`] that
//! resolves tokens; both collaborators are the caller's. Each step takes a task
//! and replaces one of its parts, and [`pipeline`] runs them all in order:
//!
//! - the command, the script and the arguments ([`command`]);
//! - the dependencies, whose scopes are resolved to projects and whose tasks
//!   are checked ([`deps`]);
//! - the environment, with the variables of environment files ([`env_file`])
//!   and references between variables substituted ([`substitute`]);
//! - the inputs and the outputs, kept apart ([`files`]).
//!
//! What a step does is stated as a function of what the collaborators answer;
//! nothing is taken for granted of the answers themselves. The library reads no file:
//! the caller hands it the environment files as it found them.

pub mod collections;
pub mod text;
pub mod target;
pub mod task;
pub mod substitute;
pub mod error;
pub mod args;
pub mod deps;
pub mod expander;
pub mod files;
pub mod env_file;
pub mod command;
pub mod pipeline;

pub use collections::{StrMap, StrSet};
pub use env_file::EnvFile;
pub use error::TasksExpanderError;
pub use expander::{ExpanderContext, TasksExpander, TokenExpander};
pub use target::{Target, TargetScope};
pub use task::{ExpandedResult, Project, Task, TaskArgs, TaskDependencyConfig, TaskOptions};
