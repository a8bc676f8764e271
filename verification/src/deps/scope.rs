//! Scopes: which projects a declared dependency addresses.

use crate::collections::strs;
use crate::error::{ErrorView, TasksExpanderError};
use crate::target::{ScopeView, TargetScope};
use crate::task::{DepView, Project, Task, TaskDependencyConfig};
use crate::text::{join, joined, same_str, sorted_strings, string_order};
use vstd::prelude::*;
use vstd::string::StringExecFns;

verus! {

/// The projects that a declared dependency addresses, before any project is
/// looked up.
#[derive(Debug)]
pub enum Candidates {
    /// No project: the dependency adds nothing.
    Nothing,
    /// The project that owns the depending task.
    Owner { skip_if_missing: bool },
    /// The projects that the project query returns for `input`.
    Query {
        input: String,
        /// A project without the task is passed over, not an error.
        skip_if_missing: bool,
        /// The owning project, if returned, is passed over.
        exclude_owner: bool,
        /// An empty answer is an error.
        must_match: bool,
    },
}

/// The mathematical value of [`Candidates`].
pub enum CandidatesView {
    Nothing,
    Owner { skip_if_missing: bool },
    Query { input: Seq<char>, skip_if_missing: bool, exclude_owner: bool, must_match: bool },
}

impl View for Candidates {
    type V = CandidatesView;

    open spec fn view(&self) -> CandidatesView {
        match self {
            Candidates::Nothing => CandidatesView::Nothing,
            Candidates::Owner { skip_if_missing } => CandidatesView::Owner {
                skip_if_missing: *skip_if_missing,
            },
            Candidates::Query { input, skip_if_missing, exclude_owner, must_match } => {
                CandidatesView::Query {
                    input: input@,
                    skip_if_missing: *skip_if_missing,
                    exclude_owner: *exclude_owner,
                    must_match: *must_match,
                }
            },
        }
    }
}

/// The query for one project by its locator: `project=<locator>`.
pub open spec fn project_query(locator: Seq<char>) -> Seq<char> {
    "project="@ + locator
}

/// The query for the projects that carry a tag: `tag=<tag>`.
pub open spec fn tag_query(tag: Seq<char>) -> Seq<char> {
    "tag="@ + tag
}

/// The query for the projects with the given identifiers: `project=<id>` for
/// one, `project=[<id>,<id>,...]` for several, the identifiers in ascending order.
pub open spec fn dependencies_query(ids: Seq<Seq<char>>) -> Seq<char> {
    let sorted = ids.sort_by(string_order());
    if sorted.len() == 1 {
        "project="@ + sorted[0]
    } else {
        "project=["@ + joined(sorted, ","@) + "]"@
    }
}

/// Builds the query for the projects with the given identifiers.
pub fn build_dependencies_query(ids: &Vec<String>) -> (r: String)
    ensures
        r@ == dependencies_query(strs(ids@)),
{
    let sorted = sorted_strings(ids);
    if sorted.len() == 1 {
        let mut r = String::from_str("project=");
        r.append(sorted[0].as_str());
        r
    } else {
        let mut r = String::from_str("project=[");
        let list = join(&sorted, ",");
        r.append(list.as_str());
        r.append("]");
        r
    }
}

/// `optional`, or `default` where it is unset.
pub open spec fn optional_or(optional: Option<bool>, default: bool) -> bool {
    match optional {
        Some(b) => b,
        None => default,
    }
}

/// The projects that the dependency `dep`, declared by `task` of the project
/// `owner`, addresses.
///
/// - The scope of all projects is refused.
/// - The scope of dependencies asks for the owner's direct dependencies, if it
///   has any; a project without the task is passed over unless the dependency
///   says otherwise.
/// - The owner's own scope addresses the owner, but not the depending task
///   itself; a missing task is an error unless the dependency says otherwise.
/// - A locator that matches the owner is the owner's own scope, with the same
///   rule for a missing task; any other locator asks for that project, which
///   must exist and have the task, whatever the dependency says.
/// - A tag asks for the projects that carry it, without the owner; a project
///   without the task is passed over unless the dependency says otherwise.
pub open spec fn candidates_of(owner: Project, task: Task, dep: DepView) -> Result<
    CandidatesView,
    ErrorView,
> {
    match dep.target.scope {
        ScopeView::All => Err(
            ErrorView::UnsupportedTargetScopeInDeps { dep: dep.target, task: task.target@ },
        ),
        ScopeView::Deps => if owner.dependencies@.len() == 0 {
            Ok(CandidatesView::Nothing)
        } else {
            Ok(
                CandidatesView::Query {
                    input: dependencies_query(strs(owner.dependencies@)),
                    skip_if_missing: optional_or(dep.optional, true),
                    exclude_owner: false,
                    must_match: false,
                },
            )
        },
        ScopeView::OwnSelf => if dep.target.task_id == task.id@ {
            Ok(CandidatesView::Nothing)
        } else {
            Ok(CandidatesView::Owner { skip_if_missing: optional_or(dep.optional, false) })
        },
        ScopeView::Project(locator) => if owner.matches(locator) {
            if dep.target.task_id == task.id@ {
                Ok(CandidatesView::Nothing)
            } else {
                Ok(CandidatesView::Owner { skip_if_missing: optional_or(dep.optional, false) })
            }
        } else {
            Ok(
                CandidatesView::Query {
                    input: project_query(locator),
                    skip_if_missing: false,
                    exclude_owner: false,
                    must_match: true,
                },
            )
        },
        ScopeView::Tag(tag) => Ok(
            CandidatesView::Query {
                input: tag_query(tag),
                skip_if_missing: optional_or(dep.optional, true),
                exclude_owner: true,
                must_match: false,
            },
        ),
    }
}

/// The values of the result of [`scope_candidates`].
pub open spec fn candidates_view(r: Result<Candidates, TasksExpanderError>) -> Result<
    CandidatesView,
    ErrorView,
> {
    match r {
        Ok(c) => Ok(c@),
        Err(e) => Err(e@),
    }
}

fn flag_or(optional: Option<bool>, default: bool) -> (r: bool)
    ensures
        r == optional_or(optional, default),
{
    match optional {
        Some(b) => b,
        None => default,
    }
}

/// Resolves the scope of a declared dependency: says which projects it
/// addresses, or refuses the scope.
pub fn scope_candidates(owner: &Project, task: &Task, dep: &TaskDependencyConfig) -> (r: Result<
    Candidates,
    TasksExpanderError,
>)
    ensures
        candidates_view(r) == candidates_of(*owner, *task, dep@),
{
    match &dep.target.scope {
        TargetScope::All => Err(
            TasksExpanderError::UnsupportedTargetScopeInDeps {
                dep: dep.target.clone(),
                task: task.target.clone(),
            },
        ),
        TargetScope::Deps => {
            if owner.dependencies.len() == 0 {
                Ok(Candidates::Nothing)
            } else {
                Ok(
                    Candidates::Query {
                        input: build_dependencies_query(&owner.dependencies),
                        skip_if_missing: flag_or(dep.optional, true),
                        exclude_owner: false,
                        must_match: false,
                    },
                )
            }
        },
        TargetScope::OwnSelf => {
            if same_str(dep.target.task_id.as_str(), task.id.as_str()) {
                Ok(Candidates::Nothing)
            } else {
                Ok(Candidates::Owner { skip_if_missing: flag_or(dep.optional, false) })
            }
        },
        TargetScope::Project(locator) => {
            if owner.matches_locator(locator.as_str()) {
                if same_str(dep.target.task_id.as_str(), task.id.as_str()) {
                    Ok(Candidates::Nothing)
                } else {
                    Ok(Candidates::Owner { skip_if_missing: flag_or(dep.optional, false) })
                }
            } else {
                let mut input = String::from_str("project=");
                input.append(locator.as_str());
                Ok(
                    Candidates::Query {
                        input,
                        skip_if_missing: false,
                        exclude_owner: false,
                        must_match: true,
                    },
                )
            }
        },
        TargetScope::Tag(tag) => {
            let mut input = String::from_str("tag=");
            input.append(tag.as_str());
            Ok(
                Candidates::Query {
                    input,
                    skip_if_missing: flag_or(dep.optional, true),
                    exclude_owner: true,
                    must_match: false,
                },
            )
        },
    }
}

} // verus!
