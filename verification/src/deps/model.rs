//! The expansion of a task's dependencies as a function of what the
//! collaborators answer.

use crate::args::args_words;
use crate::collections::{map_entries, strs, StrMap};
use crate::deps::candidate::{pushed, resolved, verdict, Verdict};
use crate::deps::scope::{candidates_of, CandidatesView};
use crate::error::{ErrorView, TasksExpanderError};
use crate::task::{dep_views, DepView, Project, Task, TaskDependencyConfig};
use vstd::prelude::*;

verus! {

/// What the token expander answered for one accepted candidate: the dependency's
/// environment and its arguments, each without tokens, or a failure.
pub struct TokenAnswers {
    pub env: Result<StrMap, String>,
    pub args: Result<Vec<String>, String>,
}

/// What the collaborators answered while one declared dependency was resolved:
/// the projects that the query returned, and the token expander's answers, one
/// for each of those projects in turn (the first one serves where the owning
/// project is the only candidate).
pub struct DepAnswers {
    pub projects: Result<Seq<Project>, Seq<char>>,
    pub tokens: Seq<TokenAnswers>,
}

/// The resolved dependency for an accepted candidate. The arguments are parsed
/// first; then the environment is expanded; then the arguments, if there are any.
/// The first of these that fails is the failure.
pub open spec fn resolution(project_id: Seq<char>, dep: DepView, answers: TokenAnswers) -> Result<
    DepView,
    ErrorView,
> {
    match args_words(dep.args) {
        Err(e) => Err(e),
        Ok(words) => match answers.env {
            Err(message) => Err(ErrorView::TokenFailure { message: message@ }),
            Ok(env) => if words.len() == 0 {
                Ok(resolved(project_id, dep, words, map_entries(env)))
            } else {
                match answers.args {
                    Err(message) => Err(ErrorView::TokenFailure { message: message@ }),
                    Ok(expanded) => Ok(
                        resolved(project_id, dep, strs(expanded@), map_entries(env)),
                    ),
                }
            },
        },
    }
}

/// The list of resolved dependencies after the candidate project `candidate` has
/// been considered for the dependency `dep` of `task`.
pub open spec fn checked(
    check_ci: bool,
    task: Task,
    candidate: Project,
    dep: DepView,
    skip_if_missing: bool,
    answers: TokenAnswers,
    list: Seq<DepView>,
) -> Result<Seq<DepView>, ErrorView> {
    match verdict(check_ci, task, candidate, dep, skip_if_missing) {
        Verdict::Skip => Ok(list),
        Verdict::Reject(e) => Err(e),
        Verdict::Accept => match resolution(candidate.id@, dep, answers) {
            Ok(d) => Ok(pushed(list, d)),
            Err(e) => Err(e),
        },
    }
}

/// A declared dependency whose candidate projects are considered one after the
/// other: the dependency and the task that declares it, the identifier of the
/// project that owns the task, and what the scope and the context say of how
/// candidates are treated.
pub struct Round {
    pub check_ci: bool,
    pub owner_id: Seq<char>,
    pub task: Task,
    pub dep: DepView,
    pub skip_if_missing: bool,
    pub exclude_owner: bool,
}

/// The list of resolved dependencies after the first `n` of `projects` have been
/// considered in turn, the owning project being passed over where the round
/// says so. The first failure ends it.
pub open spec fn checked_all(
    round: Round,
    projects: Seq<Project>,
    answers: Seq<TokenAnswers>,
    list: Seq<DepView>,
    n: nat,
) -> Result<Seq<DepView>, ErrorView>
    decreases n,
{
    if n == 0 {
        Ok(list)
    } else {
        match checked_all(round, projects, answers, list, (n - 1) as nat) {
            Err(e) => Err(e),
            Ok(before) => if round.exclude_owner && projects[n - 1].id@ == round.owner_id {
                Ok(before)
            } else {
                checked(
                    round.check_ci,
                    round.task,
                    projects[n - 1],
                    round.dep,
                    round.skip_if_missing,
                    answers[n - 1],
                    before,
                )
            },
        }
    }
}

/// The list of resolved dependencies after the declared dependency `dep` of
/// `task`, a task of the project `owner`, has been resolved.
pub open spec fn expanded_dep(
    check_ci: bool,
    owner: Project,
    task: Task,
    dep: DepView,
    answers: DepAnswers,
    list: Seq<DepView>,
) -> Result<Seq<DepView>, ErrorView> {
    match candidates_of(owner, task, dep) {
        Err(e) => Err(e),
        Ok(CandidatesView::Nothing) => Ok(list),
        Ok(CandidatesView::Owner { skip_if_missing }) => checked(
            check_ci,
            task,
            owner,
            dep,
            skip_if_missing,
            answers.tokens[0],
            list,
        ),
        Ok(CandidatesView::Query { input, skip_if_missing, exclude_owner, must_match }) => {
            match answers.projects {
                Err(message) => Err(ErrorView::QueryFailure { message }),
                Ok(projects) => if must_match && projects.len() == 0 {
                    Err(ErrorView::UnknownTarget { dep: dep.target, task: task.target@ })
                } else {
                    checked_all(
                        Round {
                            check_ci,
                            owner_id: owner.id@,
                            task,
                            dep,
                            skip_if_missing,
                            exclude_owner,
                        },
                        projects,
                        answers.tokens,
                        list,
                        projects.len(),
                    )
                },
            }
        },
    }
}

/// The list of resolved dependencies after the first `n` of the declared
/// dependencies `deps` have been resolved in turn, starting from the empty list.
/// The first failure ends it.
pub open spec fn expanded_deps(
    check_ci: bool,
    owner: Project,
    task: Task,
    deps: Seq<DepView>,
    answers: Seq<DepAnswers>,
    n: nat,
) -> Result<Seq<DepView>, ErrorView>
    decreases n,
{
    if n == 0 {
        Ok(Seq::empty())
    } else {
        match expanded_deps(check_ci, owner, task, deps, answers, (n - 1) as nat) {
            Err(e) => Err(e),
            Ok(before) => expanded_dep(check_ci, owner, task, deps[n - 1], answers[n - 1], before),
        }
    }
}

/// Whether the outcome of a step, and the list it leaves, are those that the
/// model gives: on success the list is the model's, on failure the error is the
/// model's.
pub open spec fn step_matches(
    r: Result<(), TasksExpanderError>,
    after: Seq<TaskDependencyConfig>,
    model: Result<Seq<DepView>, ErrorView>,
) -> bool {
    match model {
        Ok(list) => r is Ok && dep_views(after) == list,
        Err(e) => r is Err && r->Err_0@ == e,
    }
}

/// Only the answers for the projects considered matter.
pub proof fn lemma_checked_all_answers(
    round: Round,
    projects: Seq<Project>,
    a: Seq<TokenAnswers>,
    b: Seq<TokenAnswers>,
    list: Seq<DepView>,
    n: nat,
)
    requires
        forall|i: int| 0 <= i < n ==> a[i] == b[i],
    ensures
        checked_all(round, projects, a, list, n) == checked_all(round, projects, b, list, n),
    decreases n,
{
    if n > 0 {
        lemma_checked_all_answers(round, projects, a, b, list, (n - 1) as nat);
    }
}

/// A failure among the first `n` projects is the failure of any longer run.
pub proof fn lemma_checked_all_failure(
    round: Round,
    projects: Seq<Project>,
    answers: Seq<TokenAnswers>,
    list: Seq<DepView>,
    n: nat,
    m: nat,
)
    requires
        n <= m,
        checked_all(round, projects, answers, list, n) is Err,
    ensures
        checked_all(round, projects, answers, list, m) == checked_all(
            round,
            projects,
            answers,
            list,
            n,
        ),
    decreases m,
{
    if n < m {
        lemma_checked_all_failure(round, projects, answers, list, n, (m - 1) as nat);
    }
}

/// Only the answers for the dependencies resolved matter.
pub proof fn lemma_expanded_deps_answers(
    check_ci: bool,
    owner: Project,
    task: Task,
    deps: Seq<DepView>,
    a: Seq<DepAnswers>,
    b: Seq<DepAnswers>,
    n: nat,
)
    requires
        forall|i: int| 0 <= i < n ==> a[i] == b[i],
    ensures
        expanded_deps(check_ci, owner, task, deps, a, n) == expanded_deps(
            check_ci,
            owner,
            task,
            deps,
            b,
            n,
        ),
    decreases n,
{
    if n > 0 {
        lemma_expanded_deps_answers(check_ci, owner, task, deps, a, b, (n - 1) as nat);
    }
}

/// A failure among the first `n` dependencies is the failure of any longer run.
pub proof fn lemma_expanded_deps_failure(
    check_ci: bool,
    owner: Project,
    task: Task,
    deps: Seq<DepView>,
    answers: Seq<DepAnswers>,
    n: nat,
    m: nat,
)
    requires
        n <= m,
        expanded_deps(check_ci, owner, task, deps, answers, n) is Err,
    ensures
        expanded_deps(check_ci, owner, task, deps, answers, m) == expanded_deps(
            check_ci,
            owner,
            task,
            deps,
            answers,
            n,
        ),
    decreases m,
{
    if n < m {
        lemma_expanded_deps_failure(check_ci, owner, task, deps, answers, n, (m - 1) as nat);
    }
}

} // verus!
