//! The failures of task expansion.

use crate::target::{target_text, Target, TargetView};
use vstd::prelude::*;
use vstd::string::StringExecFns;

verus! {

/// The error of the env-file parser; it is carried, never read.
#[verifier::external_type_specification]
#[verifier::external_body]
pub struct ExEnvFileError(dotenvy::Error);

/// Why the expansion of a task failed. `task` is the task being expanded, `dep`
/// the dependency at fault.
#[derive(Debug)]
pub enum TasksExpanderError {
    /// A dependency is declared with the scope that addresses every project.
    UnsupportedTargetScopeInDeps { dep: Target, task: Target },
    /// A dependency names a task that its project lacks, or a project that does
    /// not exist.
    UnknownTarget { dep: Target, task: Target },
    /// A dependency names a task that is allowed to fail.
    AllowFailureDepRequirement { dep: Target, task: Target },
    /// A task that runs in CI depends on one that does not.
    RunInCiDepRequirement { dep: Target, task: Target },
    /// A task that ends depends on one that is persistent.
    PersistentDepRequirement { dep: Target, task: Target },
    /// An environment file exists and cannot be read or parsed; `error` is the
    /// error of the reading or of the parser.
    InvalidEnvFile { path: String, error: dotenvy::Error },
    /// The arguments of a dependency, given as a command line, cannot be split
    /// into words.
    InvalidArgs { args: String },
    /// The token expander failed.
    TokenFailure { message: String },
    /// The project query failed.
    QueryFailure { message: String },
}

/// The mathematical value of a [`TasksExpanderError`].
pub enum ErrorView {
    UnsupportedTargetScopeInDeps { dep: TargetView, task: TargetView },
    UnknownTarget { dep: TargetView, task: TargetView },
    AllowFailureDepRequirement { dep: TargetView, task: TargetView },
    RunInCiDepRequirement { dep: TargetView, task: TargetView },
    PersistentDepRequirement { dep: TargetView, task: TargetView },
    InvalidEnvFile { path: Seq<char>, error: dotenvy::Error },
    InvalidArgs { args: Seq<char> },
    TokenFailure { message: Seq<char> },
    QueryFailure { message: Seq<char> },
}

impl View for TasksExpanderError {
    type V = ErrorView;

    open spec fn view(&self) -> ErrorView {
        match self {
            TasksExpanderError::UnsupportedTargetScopeInDeps { dep, task } => {
                ErrorView::UnsupportedTargetScopeInDeps { dep: dep@, task: task@ }
            },
            TasksExpanderError::UnknownTarget { dep, task } => ErrorView::UnknownTarget {
                dep: dep@,
                task: task@,
            },
            TasksExpanderError::AllowFailureDepRequirement { dep, task } => {
                ErrorView::AllowFailureDepRequirement { dep: dep@, task: task@ }
            },
            TasksExpanderError::RunInCiDepRequirement { dep, task } => {
                ErrorView::RunInCiDepRequirement { dep: dep@, task: task@ }
            },
            TasksExpanderError::PersistentDepRequirement { dep, task } => {
                ErrorView::PersistentDepRequirement { dep: dep@, task: task@ }
            },
            TasksExpanderError::InvalidEnvFile { path, error } => ErrorView::InvalidEnvFile {
                path: path@,
                error: *error,
            },
            TasksExpanderError::InvalidArgs { args } => ErrorView::InvalidArgs { args: args@ },
            TasksExpanderError::TokenFailure { message } => ErrorView::TokenFailure {
                message: message@,
            },
            TasksExpanderError::QueryFailure { message } => ErrorView::QueryFailure {
                message: message@,
            },
        }
    }
}

/// The five texts in a row.
pub open spec fn framed(
    a: Seq<char>,
    x: Seq<char>,
    b: Seq<char>,
    y: Seq<char>,
    c: Seq<char>,
) -> Seq<char> {
    a + x + b + y + c
}

fn frame(a: &str, x: &str, b: &str, y: &str, c: &str) -> (r: String)
    ensures
        r@ == framed(a@, x@, b@, y@, c@),
{
    let mut r = a.to_owned();
    r.append(x);
    r.append(b);
    r.append(y);
    r.append(c);
    r
}

/// What an error says, the targets written as targets are written.
pub open spec fn error_text(e: ErrorView) -> Seq<char> {
    match e {
        ErrorView::UnsupportedTargetScopeInDeps { dep, task } => framed(
            "Invalid dependency "@,
            target_text(dep),
            " for "@,
            target_text(task),
            ". All (:) scope is not supported."@,
        ),
        ErrorView::UnknownTarget { dep, task } => framed(
            "Invalid dependency "@,
            target_text(dep),
            " for "@,
            target_text(task),
            ", target does not exist."@,
        ),
        ErrorView::AllowFailureDepRequirement { dep, task } => framed(
            "Task "@,
            target_text(task),
            " cannot depend on task "@,
            target_text(dep),
            ", as it is allowed to fail, which may cause unwanted side-effects."@,
        ),
        ErrorView::RunInCiDepRequirement { dep, task } => framed(
            "Task "@,
            target_text(task),
            " cannot depend on task "@,
            target_text(dep),
            ", as the dependency does not run in CI."@,
        ),
        ErrorView::PersistentDepRequirement { dep, task } => framed(
            "Task "@,
            target_text(task),
            " cannot depend on task "@,
            target_text(dep),
            ", as only persistent tasks can depend on other persistent tasks."@,
        ),
        ErrorView::InvalidEnvFile { path, error } => "Failed to parse env file "@ + path + "."@,
        ErrorView::InvalidArgs { args } => "Failed to split the arguments "@ + args + "."@,
        ErrorView::TokenFailure { message } => message,
        ErrorView::QueryFailure { message } => message,
    }
}

impl TasksExpanderError {
    /// What the error says, for a person to read.
    pub fn message(&self) -> (r: String)
        ensures
            r@ == error_text(self@),
    {
        match self {
            TasksExpanderError::UnsupportedTargetScopeInDeps { dep, task } => frame(
                "Invalid dependency ",
                dep.format().as_str(),
                " for ",
                task.format().as_str(),
                ". All (:) scope is not supported.",
            ),
            TasksExpanderError::UnknownTarget { dep, task } => frame(
                "Invalid dependency ",
                dep.format().as_str(),
                " for ",
                task.format().as_str(),
                ", target does not exist.",
            ),
            TasksExpanderError::AllowFailureDepRequirement { dep, task } => frame(
                "Task ",
                task.format().as_str(),
                " cannot depend on task ",
                dep.format().as_str(),
                ", as it is allowed to fail, which may cause unwanted side-effects.",
            ),
            TasksExpanderError::RunInCiDepRequirement { dep, task } => frame(
                "Task ",
                task.format().as_str(),
                " cannot depend on task ",
                dep.format().as_str(),
                ", as the dependency does not run in CI.",
            ),
            TasksExpanderError::PersistentDepRequirement { dep, task } => frame(
                "Task ",
                task.format().as_str(),
                " cannot depend on task ",
                dep.format().as_str(),
                ", as only persistent tasks can depend on other persistent tasks.",
            ),
            TasksExpanderError::InvalidEnvFile { path, error } => {
                let mut r = String::from_str("Failed to parse env file ");
                r.append(path.as_str());
                r.append(".");
                r
            },
            TasksExpanderError::InvalidArgs { args } => {
                let mut r = String::from_str("Failed to split the arguments ");
                r.append(args.as_str());
                r.append(".");
                r
            },
            TasksExpanderError::TokenFailure { message } => message.clone(),
            TasksExpanderError::QueryFailure { message } => message.clone(),
        }
    }
}

} // verus!
