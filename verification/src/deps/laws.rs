//! What holds of every expansion of dependencies, whatever the collaborators
//! answered.

use crate::deps::candidate::{pushed, verdict, Verdict};
use crate::deps::model::{
    checked, checked_all, expanded_dep, expanded_deps, resolution, DepAnswers, Round, TokenAnswers,
};
use crate::deps::scope::{candidates_of, CandidatesView};
use crate::error::ErrorView;
use crate::target::{qualified, ScopeView, TargetView};
use crate::task::{DepView, Project, Task};
use vstd::prelude::*;

verus! {

/// Whether no dependency of `list` has the target `target`.
pub open spec fn without_target(list: Seq<DepView>, target: TargetView) -> bool {
    forall|k: int| 0 <= k < list.len() ==> (#[trigger] list[k]).target != target
}

/// Whether no project of `projects` has the identifier `id`.
pub open spec fn without_project(projects: Seq<Project>, id: Seq<char>) -> bool {
    forall|j: int| 0 <= j < projects.len() ==> (#[trigger] projects[j]).id@ != id
}

/// Whether the project query kept the owner out of its answer for the
/// dependency `dep`, where the scope relies on it: for the owner's dependencies,
/// and for a project named by a locator that is not the owner's.
pub open spec fn owner_not_returned(
    owner: Project,
    task: Task,
    dep: DepView,
    answers: DepAnswers,
) -> bool {
    match candidates_of(owner, task, dep) {
        Ok(CandidatesView::Query { input, skip_if_missing, exclude_owner, must_match }) => {
            !exclude_owner && answers.projects is Ok ==> without_project(
                answers.projects->Ok_0,
                owner.id@,
            )
        },
        _ => true,
    }
}

proof fn lemma_checked_without_target(
    check_ci: bool,
    task: Task,
    candidate: Project,
    dep: DepView,
    skip_if_missing: bool,
    answers: TokenAnswers,
    list: Seq<DepView>,
    target: TargetView,
)
    requires
        without_target(list, target),
        qualified(candidate.id@, dep.target.task_id) != target,
        checked(check_ci, task, candidate, dep, skip_if_missing, answers, list) is Ok,
    ensures
        without_target(
            checked(check_ci, task, candidate, dep, skip_if_missing, answers, list)->Ok_0,
            target,
        ),
{
}

proof fn lemma_checked_all_without_target(
    round: Round,
    projects: Seq<Project>,
    answers: Seq<TokenAnswers>,
    list: Seq<DepView>,
    n: nat,
)
    requires
        n <= projects.len(),
        without_target(list, qualified(round.owner_id, round.task.id@)),
        round.exclude_owner || without_project(projects, round.owner_id),
        checked_all(round, projects, answers, list, n) is Ok,
    ensures
        without_target(
            checked_all(round, projects, answers, list, n)->Ok_0,
            qualified(round.owner_id, round.task.id@),
        ),
    decreases n,
{
    if n > 0 {
        lemma_checked_all_without_target(round, projects, answers, list, (n - 1) as nat);
        let before = checked_all(round, projects, answers, list, (n - 1) as nat)->Ok_0;
        if !(round.exclude_owner && projects[n - 1].id@ == round.owner_id) {
            assert(projects[n - 1].id@ != round.owner_id);
            lemma_checked_without_target(
                round.check_ci,
                round.task,
                projects[n - 1],
                round.dep,
                round.skip_if_missing,
                answers[n - 1],
                before,
                qualified(round.owner_id, round.task.id@),
            );
        }
    }
}

/// If the list held no dependency on the depending task itself, it holds none
/// after the dependency is resolved.
///
/// The task's target must be that of its identifier in the owning project, and
/// the project query must not have returned the owner where it was asked for the
/// owner's dependencies or for another project by its locator.
pub proof fn lemma_dep_adds_no_self_dependency(
    check_ci: bool,
    owner: Project,
    task: Task,
    dep: DepView,
    answers: DepAnswers,
    list: Seq<DepView>,
)
    requires
        task.target@ == qualified(owner.id@, task.id@),
        without_target(list, task.target@),
        owner_not_returned(owner, task, dep, answers),
        expanded_dep(check_ci, owner, task, dep, answers, list) is Ok,
    ensures
        without_target(
            expanded_dep(check_ci, owner, task, dep, answers, list)->Ok_0,
            task.target@,
        ),
{
    match candidates_of(owner, task, dep) {
        Ok(CandidatesView::Owner { skip_if_missing }) => {
            lemma_checked_without_target(
                check_ci,
                task,
                owner,
                dep,
                skip_if_missing,
                answers.tokens[0],
                list,
                task.target@,
            );
        },
        Ok(CandidatesView::Query { input, skip_if_missing, exclude_owner, must_match }) => {
            let projects = answers.projects->Ok_0;
            let round = Round {
                check_ci,
                owner_id: owner.id@,
                task,
                dep,
                skip_if_missing,
                exclude_owner,
            };
            lemma_checked_all_without_target(round, projects, answers.tokens, list, projects.len());
        },
        _ => {},
    }
}

/// The resolved dependencies of a task never hold a dependency on the task
/// itself.
///
/// The task's target must be that of its identifier in the owning project, and
/// the project query must not have returned the owner where it was asked for the
/// owner's dependencies or for another project by its locator.
pub proof fn lemma_no_self_dependency(
    check_ci: bool,
    owner: Project,
    task: Task,
    deps: Seq<DepView>,
    answers: Seq<DepAnswers>,
    n: nat,
)
    requires
        task.target@ == qualified(owner.id@, task.id@),
        forall|i: int|
            0 <= i < n ==> owner_not_returned(owner, task, deps[i], #[trigger] answers[i]),
        expanded_deps(check_ci, owner, task, deps, answers, n) is Ok,
    ensures
        without_target(expanded_deps(check_ci, owner, task, deps, answers, n)->Ok_0, task.target@),
    decreases n,
{
    if n > 0 {
        lemma_no_self_dependency(check_ci, owner, task, deps, answers, (n - 1) as nat);
        let before = expanded_deps(check_ci, owner, task, deps, answers, (n - 1) as nat)->Ok_0;
        assert(owner_not_returned(owner, task, deps[n - 1], answers[n - 1]));
        lemma_dep_adds_no_self_dependency(
            check_ci,
            owner,
            task,
            deps[n - 1],
            answers[n - 1],
            before,
        );
    }
}

proof fn lemma_pushed_no_duplicates(list: Seq<DepView>, dep: DepView)
    requires
        list.no_duplicates(),
    ensures
        pushed(list, dep).no_duplicates(),
{
    if !list.contains(dep) {
        let longer = list.push(dep);
        assert forall|i: int, j: int|
            0 <= i < longer.len() && 0 <= j < longer.len() && i != j implies longer[i]
            != longer[j] by {
            if i == list.len() {
                assert(list.contains(list[j]));
            } else if j == list.len() {
                assert(list.contains(list[i]));
            }
        }
    }
}

proof fn lemma_checked_all_no_duplicates(
    round: Round,
    projects: Seq<Project>,
    answers: Seq<TokenAnswers>,
    list: Seq<DepView>,
    n: nat,
)
    requires
        list.no_duplicates(),
        checked_all(round, projects, answers, list, n) is Ok,
    ensures
        checked_all(round, projects, answers, list, n)->Ok_0.no_duplicates(),
    decreases n,
{
    if n > 0 {
        lemma_checked_all_no_duplicates(round, projects, answers, list, (n - 1) as nat);
        let before = checked_all(round, projects, answers, list, (n - 1) as nat)->Ok_0;
        if !(round.exclude_owner && projects[n - 1].id@ == round.owner_id) {
            let r = resolution(projects[n - 1].id@, round.dep, answers[n - 1]);
            if r is Ok {
                lemma_pushed_no_duplicates(before, r->Ok_0);
            }
        }
    }
}

/// Resolving a declared dependency keeps a list without duplicates free of them.
pub proof fn lemma_dep_adds_no_duplicate(
    check_ci: bool,
    owner: Project,
    task: Task,
    dep: DepView,
    answers: DepAnswers,
    list: Seq<DepView>,
)
    requires
        list.no_duplicates(),
        expanded_dep(check_ci, owner, task, dep, answers, list) is Ok,
    ensures
        expanded_dep(check_ci, owner, task, dep, answers, list)->Ok_0.no_duplicates(),
{
    match candidates_of(owner, task, dep) {
        Ok(CandidatesView::Owner { skip_if_missing }) => {
            let r = resolution(owner.id@, dep, answers.tokens[0]);
            if r is Ok {
                lemma_pushed_no_duplicates(list, r->Ok_0);
            }
        },
        Ok(CandidatesView::Query { input, skip_if_missing, exclude_owner, must_match }) => {
            let projects = answers.projects->Ok_0;
            let round = Round {
                check_ci,
                owner_id: owner.id@,
                task,
                dep,
                skip_if_missing,
                exclude_owner,
            };
            lemma_checked_all_no_duplicates(round, projects, answers.tokens, list, projects.len());
        },
        _ => {},
    }
}

/// No two of the resolved dependencies of a task are equal.
pub proof fn lemma_no_duplicates(
    check_ci: bool,
    owner: Project,
    task: Task,
    deps: Seq<DepView>,
    answers: Seq<DepAnswers>,
    n: nat,
)
    requires
        expanded_deps(check_ci, owner, task, deps, answers, n) is Ok,
    ensures
        expanded_deps(check_ci, owner, task, deps, answers, n)->Ok_0.no_duplicates(),
    decreases n,
{
    if n > 0 {
        lemma_no_duplicates(check_ci, owner, task, deps, answers, (n - 1) as nat);
        let before = expanded_deps(check_ci, owner, task, deps, answers, (n - 1) as nat)->Ok_0;
        lemma_dep_adds_no_duplicate(check_ci, owner, task, deps[n - 1], answers[n - 1], before);
    }
}

/// The dependency that the `k`-th of `projects` adds when it is considered, if
/// it adds one.
pub open spec fn added(
    round: Round,
    projects: Seq<Project>,
    answers: Seq<TokenAnswers>,
    k: int,
) -> Option<DepView> {
    if round.exclude_owner && projects[k].id@ == round.owner_id {
        None
    } else {
        match verdict(round.check_ci, round.task, projects[k], round.dep, round.skip_if_missing) {
            Verdict::Accept => match resolution(projects[k].id@, round.dep, answers[k]) {
                Ok(d) => Some(d),
                Err(_) => None,
            },
            _ => None,
        }
    }
}

proof fn lemma_pushed_contains(list: Seq<DepView>, dep: DepView)
    ensures
        pushed(list, dep).contains(dep),
        forall|x: DepView| list.contains(x) ==> #[trigger] pushed(list, dep).contains(x),
{
    if !list.contains(dep) {
        let longer = list.push(dep);
        assert(longer[list.len() as int] == dep);
        assert forall|x: DepView| list.contains(x) implies #[trigger] longer.contains(x) by {
            let i = choose|i: int| 0 <= i < list.len() && list[i] == x;
            assert(longer[i] == x);
        }
    }
}

proof fn lemma_checked_all_holds(
    round: Round,
    projects: Seq<Project>,
    answers: Seq<TokenAnswers>,
    list: Seq<DepView>,
    n: nat,
)
    requires
        checked_all(round, projects, answers, list, n) is Ok,
    ensures
        forall|x: DepView|
            list.contains(x) ==> #[trigger] checked_all(
                round,
                projects,
                answers,
                list,
                n,
            )->Ok_0.contains(x),
        forall|k: int|
            0 <= k < n ==> match #[trigger] added(round, projects, answers, k) {
                Some(d) => checked_all(round, projects, answers, list, n)->Ok_0.contains(d),
                None => true,
            },
    decreases n,
{
    if n > 0 {
        lemma_checked_all_holds(round, projects, answers, list, (n - 1) as nat);
        let before = checked_all(round, projects, answers, list, (n - 1) as nat)->Ok_0;
        let last = added(round, projects, answers, n - 1);
        if last is Some {
            lemma_pushed_contains(before, last->Some_0);
        }
    }
}

proof fn lemma_checked_all_absorbed(
    round: Round,
    projects: Seq<Project>,
    answers: Seq<TokenAnswers>,
    list: Seq<DepView>,
    holder: Seq<DepView>,
    n: nat,
)
    requires
        checked_all(round, projects, answers, list, n) is Ok,
        forall|k: int|
            0 <= k < n ==> match #[trigger] added(round, projects, answers, k) {
                Some(d) => holder.contains(d),
                None => true,
            },
    ensures
        checked_all(round, projects, answers, holder, n) == Ok::<Seq<DepView>, ErrorView>(holder),
    decreases n,
{
    if n > 0 {
        lemma_checked_all_absorbed(round, projects, answers, list, holder, (n - 1) as nat);
        let last = added(round, projects, answers, n - 1);
        assert(last is Some ==> holder.contains(last->Some_0));
    }
}

/// Resolving the same declared dependency a second time, with the same answers,
/// leaves the list as the first time left it: what it resolves to is listed
/// once.
pub proof fn lemma_dep_resolved_twice(
    check_ci: bool,
    owner: Project,
    task: Task,
    dep: DepView,
    answers: DepAnswers,
    list: Seq<DepView>,
)
    requires
        expanded_dep(check_ci, owner, task, dep, answers, list) is Ok,
    ensures
        expanded_dep(
            check_ci,
            owner,
            task,
            dep,
            answers,
            expanded_dep(check_ci, owner, task, dep, answers, list)->Ok_0,
        ) == expanded_dep(check_ci, owner, task, dep, answers, list),
{
    let once = expanded_dep(check_ci, owner, task, dep, answers, list)->Ok_0;
    match candidates_of(owner, task, dep) {
        Ok(CandidatesView::Owner { skip_if_missing }) => {
            let r = resolution(owner.id@, dep, answers.tokens[0]);
            if r is Ok {
                lemma_pushed_contains(list, r->Ok_0);
            }
        },
        Ok(CandidatesView::Query { input, skip_if_missing, exclude_owner, must_match }) => {
            let projects = answers.projects->Ok_0;
            let round = Round {
                check_ci,
                owner_id: owner.id@,
                task,
                dep,
                skip_if_missing,
                exclude_owner,
            };
            lemma_checked_all_holds(round, projects, answers.tokens, list, projects.len());
            lemma_checked_all_absorbed(round, projects, answers.tokens, list, once, projects.len());
        },
        _ => {},
    }
}

/// A dependency that is declared twice in a row, and answered alike both times,
/// resolves to the list that declaring it once gives.
pub proof fn lemma_declared_twice(
    check_ci: bool,
    owner: Project,
    task: Task,
    deps: Seq<DepView>,
    answers: Seq<DepAnswers>,
    n: nat,
)
    requires
        n >= 1,
        deps[n as int] == deps[n - 1],
        answers[n as int] == answers[n - 1],
        expanded_deps(check_ci, owner, task, deps, answers, n) is Ok,
    ensures
        expanded_deps(check_ci, owner, task, deps, answers, n + 1) == expanded_deps(
            check_ci,
            owner,
            task,
            deps,
            answers,
            n,
        ),
{
    let before = expanded_deps(check_ci, owner, task, deps, answers, (n - 1) as nat)->Ok_0;
    lemma_dep_resolved_twice(check_ci, owner, task, deps[n - 1], answers[n - 1], before);
    assert(expanded_deps(check_ci, owner, task, deps, answers, n + 1) == expanded_dep(
        check_ci,
        owner,
        task,
        deps[n as int],
        answers[n as int],
        expanded_deps(check_ci, owner, task, deps, answers, n)->Ok_0,
    ));
}

/// In a project without dependencies, a dependency on the tasks of the owner's
/// dependencies adds nothing and fails on nothing.
pub proof fn lemma_no_project_dependencies(
    check_ci: bool,
    owner: Project,
    task: Task,
    dep: DepView,
    answers: DepAnswers,
    list: Seq<DepView>,
)
    requires
        dep.target.scope == ScopeView::Deps,
        owner.dependencies@.len() == 0,
    ensures
        expanded_dep(check_ci, owner, task, dep, answers, list) == Ok::<Seq<DepView>, ErrorView>(
            list,
        ),
{
}

/// A dependency on a task of a project, by a locator that is not the owner's
/// and for which the query returns no project, fails as an unknown target,
/// named as declared.
pub proof fn lemma_unknown_project(
    check_ci: bool,
    owner: Project,
    task: Task,
    dep: DepView,
    answers: DepAnswers,
    list: Seq<DepView>,
)
    requires
        dep.target.scope is Project,
        !owner.matches(dep.target.scope->Project_0),
        answers.projects == Ok::<Seq<Project>, Seq<char>>(Seq::empty()),
    ensures
        expanded_dep(check_ci, owner, task, dep, answers, list) == Err::<Seq<DepView>, ErrorView>(
            ErrorView::UnknownTarget { dep: dep.target, task: task.target@ },
        ),
{
}

} // verus!
