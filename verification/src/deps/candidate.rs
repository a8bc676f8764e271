//! Candidates: whether a task of a candidate project may be depended on, and
//! the resolved dependency that it gives.

use crate::collections::{map_entries, strs, StrMap};
use crate::error::{ErrorView, TasksExpanderError};
use crate::substitute::{substitute_env_vars, substituted_all};
use crate::target::{qualified, Target};
use crate::task::{
    dep_views, find_task, ArgsView, DepView, Project, Task, TaskArgs, TaskDependencyConfig,
};
use vstd::prelude::*;

verus! {

/// What is decided about one candidate project for a dependency.
pub enum Verdict {
    /// The project lacks the task and that is tolerated: nothing is added.
    Skip,
    /// The project's task may be depended on.
    Accept,
    /// The dependency is refused.
    Reject(ErrorView),
}

/// The decision about the task that `dep` names in the project `candidate`, as a
/// dependency of `task`.
///
/// A missing task is passed over or an error, as `skip_if_missing` says. A task
/// that is allowed to fail is refused; so is, when `check_ci` is set, a task that
/// does not run in CI for a depending task that does; so is a persistent task for
/// a depending task that is not persistent. The first of these that applies
/// decides.
pub open spec fn verdict(
    check_ci: bool,
    task: Task,
    candidate: Project,
    dep: DepView,
    skip_if_missing: bool,
) -> Verdict {
    match find_task(candidate.tasks@, dep.target.task_id) {
        None => if skip_if_missing {
            Verdict::Skip
        } else {
            Verdict::Reject(
                ErrorView::UnknownTarget {
                    dep: qualified(candidate.id@, dep.target.task_id),
                    task: task.target@,
                },
            )
        },
        Some(found) => if found.options.allow_failure {
            Verdict::Reject(
                ErrorView::AllowFailureDepRequirement { dep: found.target@, task: task.target@ },
            )
        } else if check_ci && !found.options.run_in_ci && task.options.run_in_ci {
            Verdict::Reject(
                ErrorView::RunInCiDepRequirement { dep: found.target@, task: task.target@ },
            )
        } else if found.options.persistent && !task.options.persistent {
            Verdict::Reject(
                ErrorView::PersistentDepRequirement { dep: found.target@, task: task.target@ },
            )
        } else {
            Verdict::Accept
        },
    }
}

/// Decides whether `task` may depend on the task that `dep` names in the project
/// `candidate`: `Ok(true)` if it may, `Ok(false)` if the task is missing and
/// passed over.
pub fn check_dep(
    check_ci: bool,
    task: &Task,
    candidate: &Project,
    dep: &TaskDependencyConfig,
    skip_if_missing: bool,
) -> (r: Result<bool, TasksExpanderError>)
    ensures
        match verdict(check_ci, *task, *candidate, dep@, skip_if_missing) {
            Verdict::Skip => r == Ok::<bool, TasksExpanderError>(false),
            Verdict::Accept => r == Ok::<bool, TasksExpanderError>(true),
            Verdict::Reject(e) => r is Err && r->Err_0@ == e,
        },
{
    match candidate.get_task(dep.target.task_id.as_str()) {
        None => {
            if skip_if_missing {
                Ok(false)
            } else {
                Err(
                    TasksExpanderError::UnknownTarget {
                        dep: Target::new(candidate.id.as_str(), dep.target.task_id.as_str()),
                        task: task.target.clone(),
                    },
                )
            }
        },
        Some(found) => {
            if found.options.allow_failure {
                Err(
                    TasksExpanderError::AllowFailureDepRequirement {
                        dep: found.target.clone(),
                        task: task.target.clone(),
                    },
                )
            } else if check_ci && !found.options.run_in_ci && task.options.run_in_ci {
                Err(
                    TasksExpanderError::RunInCiDepRequirement {
                        dep: found.target.clone(),
                        task: task.target.clone(),
                    },
                )
            } else if found.is_persistent() && !task.is_persistent() {
                Err(
                    TasksExpanderError::PersistentDepRequirement {
                        dep: found.target.clone(),
                        task: task.target.clone(),
                    },
                )
            } else {
                Ok(true)
            }
        },
    }
}

/// The resolved dependency on the task that `dep` names in the project
/// `project_id`, with the arguments `words` and the environment `env`, both
/// already without tokens: no arguments are written as such, not as an empty
/// list, and the environment's values are substituted against each other.
pub open spec fn resolved(
    project_id: Seq<char>,
    dep: DepView,
    words: Seq<Seq<char>>,
    env: Map<Seq<char>, Seq<char>>,
) -> DepView {
    DepView {
        args: if words.len() == 0 {
            ArgsView::NoArgs
        } else {
            ArgsView::List(words)
        },
        env: substituted_all(env),
        optional: dep.optional,
        target: qualified(project_id, dep.target.task_id),
    }
}

/// Builds the resolved dependency on the task that `dep` names in the project
/// `project_id`.
pub fn resolve_dep(
    project_id: &str,
    dep: &TaskDependencyConfig,
    words: Vec<String>,
    env: &StrMap,
) -> (r:
    TaskDependencyConfig)
    ensures
        r@ == resolved(project_id@, dep@, strs(words@), map_entries(*env)),
{
    let args = if words.len() == 0 {
        TaskArgs::NoArgs
    } else {
        TaskArgs::List(words)
    };
    TaskDependencyConfig {
        args,
        env: substitute_env_vars(env),
        optional: dep.optional,
        target: Target::new(project_id, dep.target.task_id.as_str()),
    }
}

/// `list` with `dep` at its end, unless `list` holds `dep` already.
pub open spec fn pushed(list: Seq<DepView>, dep: DepView) -> Seq<DepView> {
    if list.contains(dep) {
        list
    } else {
        list.push(dep)
    }
}

/// Appends `dep` to `deps` unless an equal dependency is there already.
pub fn push_dep(deps: &mut Vec<TaskDependencyConfig>, dep: TaskDependencyConfig)
    ensures
        dep_views(final(deps)@) == pushed(dep_views(old(deps)@), dep@),
        final(deps)@ == old(deps)@ || final(deps)@ == old(deps)@.push(dep),
{
    let mut i: usize = 0;
    while i < deps.len()
        invariant
            0 <= i <= deps.len(),
            *deps == *old(deps),
            forall|j: int| 0 <= j < i ==> dep_views(deps@)[j] != dep@,
        decreases deps.len() - i,
    {
        if deps[i] == dep {
            assert(dep_views(deps@)[i as int] == dep@);
            return ;
        }
        i += 1;
    }
    deps.push(dep);
    assert(dep_views(deps@) =~= dep_views(old(deps)@).push(dep@));
}

} // verus!
