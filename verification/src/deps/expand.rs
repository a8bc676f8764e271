//! The expansion of a task's declared dependencies, with the project query and
//! the token expander asked where the dependencies need them.

use crate::args::{args_words, parse_task_args};
use crate::collections::strs;
use crate::deps::candidate::{check_dep, push_dep, resolve_dep, verdict};
use crate::deps::laws::{
    lemma_no_duplicates, lemma_no_self_dependency, owner_not_returned, without_project,
    without_target,
};
use crate::deps::model::{
    checked, checked_all, expanded_dep, expanded_deps, lemma_checked_all_answers,
    lemma_checked_all_failure, lemma_expanded_deps_answers, lemma_expanded_deps_failure,
    step_matches, DepAnswers, Round, TokenAnswers,
};
use crate::deps::scope::{candidates_of, scope_candidates, Candidates, CandidatesView};
use crate::error::{ErrorView, TasksExpanderError};
use crate::expander::{TasksExpander, TokenExpander};
use crate::target::qualified;
use crate::task::{dep_views, DepView, Project, Task, TaskDependencyConfig};
use crate::text::same_str;
use vstd::prelude::*;

verus! {

/// The projects behind a list of references.
pub open spec fn projects_of(found: Seq<&Project>) -> Seq<Project> {
    found.map_values(|p: &Project| *p)
}

/// The value of what the project query answered.
pub open spec fn found_view(found: Result<Vec<&Project>, String>) -> Result<
    Seq<Project>,
    Seq<char>,
> {
    match found {
        Ok(projects) => Ok(projects_of(projects@)),
        Err(message) => Err(message@),
    }
}

/// Whether the dependency `dep` of `task`, a task of the project `owner`, has the
/// project query asked for `input` and keeps the owner, if returned, among the
/// candidates.
pub open spec fn asks_keeping_owner(
    owner: Project,
    task: Task,
    dep: DepView,
    input: Seq<char>,
) -> bool {
    match candidates_of(owner, task, dep) {
        Ok(CandidatesView::Query { input: asked, skip_if_missing, exclude_owner, must_match }) => {
            asked == input && !exclude_owner
        },
        _ => false,
    }
}

/// Whether the outcome of the expansion of a task's dependencies is the one that
/// the model gives: on success the task has the model's dependencies and is
/// otherwise unchanged, on failure the error is the model's and the task is
/// unchanged.
pub open spec fn deps_match(
    r: Result<(), TasksExpanderError>,
    before: Task,
    after: Task,
    model: Result<Seq<DepView>, ErrorView>,
) -> bool {
    match model {
        Ok(list) => r is Ok && dep_views(after.deps@) == list && after == (Task {
            deps: after.deps,
            ..before
        }),
        Err(e) => r is Err && r->Err_0@ == e && after == before,
    }
}

impl<
    'graph,
    'query,
    Q: Fn(String) -> Result<Vec<&'query Project>, String>,
    T: TokenExpander,
> TasksExpander<'graph, Q, T> {
    /// Whether the project query accepts every query string.
    pub open spec fn query_ready(&self) -> bool {
        forall|input: String| call_requires(self.context.query, (input,))
    }

    /// The round in which candidates are considered for the dependency `dep` of
    /// `task`.
    pub open spec fn round(
        &self,
        task: Task,
        dep: DepView,
        skip_if_missing: bool,
        exclude_owner: bool,
    ) -> Round {
        Round {
            check_ci: self.context.check_ci_relationships,
            owner_id: self.context.project.id@,
            task,
            dep,
            skip_if_missing,
            exclude_owner,
        }
    }

    /// Whether `answers` is what the token expander returned for the dependency
    /// `dep` of `task`: for the dependency's environment, and then, if that went
    /// well and the dependency has arguments, for the words of those arguments.
    pub open spec fn token_answered(
        &self,
        task: Task,
        dep: TaskDependencyConfig,
        answers: TokenAnswers,
    ) -> bool {
        match args_words(dep@.args) {
            Err(_) => true,
            Ok(words) => {
                &&& call_ensures(
                    T::expand_env_with_task,
                    (&self.token, &task, &dep.env),
                    answers.env,
                )
                &&& answers.env is Ok && words.len() > 0 ==> exists|handed: Vec<String>|
                    strs(handed@) == words && #[trigger] call_ensures(
                        T::expand_args_with_task,
                        (&self.token, &task, &handed),
                        answers.args,
                    )
            },
        }
    }

    /// Whether `answers` is what the token expander returned when `candidate`
    /// was considered for the dependency `dep` of `task`; it is asked only where
    /// the candidate's task is accepted.
    #[verifier::opaque]
    pub open spec fn candidate_answered(
        &self,
        task: Task,
        candidate: Project,
        dep: TaskDependencyConfig,
        skip_if_missing: bool,
        answers: TokenAnswers,
    ) -> bool {
        verdict(self.context.check_ci_relationships, task, candidate, dep@, skip_if_missing)
            is Accept ==> self.token_answered(task, dep, answers)
    }

    /// Whether considering `candidate` for the dependency `dep` of `task` went as
    /// the model says it goes with the answers `answers`, and those are what the
    /// token expander returned.
    pub open spec fn candidate_resolved(
        &self,
        task: Task,
        candidate: Project,
        dep: TaskDependencyConfig,
        skip_if_missing: bool,
        answers: TokenAnswers,
        before: Seq<TaskDependencyConfig>,
        after: Seq<TaskDependencyConfig>,
        r: Result<(), TasksExpanderError>,
    ) -> bool {
        &&& self.candidate_answered(task, candidate, dep, skip_if_missing, answers)
        &&& step_matches(
            r,
            after,
            checked(
                self.context.check_ci_relationships,
                task,
                candidate,
                dep@,
                skip_if_missing,
                answers,
                dep_views(before),
            ),
        )
    }

    /// Whether `tokens` holds what the token expander returned for each of
    /// `projects` that was reached and not passed over, when they were
    /// considered in turn for the dependency `dep` of `task`.
    pub open spec fn candidates_answered(
        &self,
        task: Task,
        projects: Seq<Project>,
        dep: TaskDependencyConfig,
        skip_if_missing: bool,
        exclude_owner: bool,
        tokens: Seq<TokenAnswers>,
        list: Seq<DepView>,
    ) -> bool {
        forall|k: int|
            0 <= k < projects.len() && checked_all(
                self.round(task, dep@, skip_if_missing, exclude_owner),
                projects,
                tokens,
                list,
                k as nat,
            ) is Ok && !(exclude_owner && projects[k].id@ == self.context.project.id@)
                ==> self.candidate_answered(
                task,
                projects[k],
                dep,
                skip_if_missing,
                #[trigger] tokens[k],
            )
    }

    /// Whether considering `projects` in turn for the dependency `dep` of `task`
    /// went as the model says it goes with the answers `tokens`, and those are
    /// what the token expander returned.
    pub open spec fn candidates_resolved(
        &self,
        task: Task,
        projects: Seq<Project>,
        dep: TaskDependencyConfig,
        skip_if_missing: bool,
        exclude_owner: bool,
        tokens: Seq<TokenAnswers>,
        before: Seq<TaskDependencyConfig>,
        after: Seq<TaskDependencyConfig>,
        r: Result<(), TasksExpanderError>,
    ) -> bool {
        &&& self.candidates_answered(
            task,
            projects,
            dep,
            skip_if_missing,
            exclude_owner,
            tokens,
            dep_views(before),
        )
        &&& step_matches(
            r,
            after,
            checked_all(
                self.round(task, dep@, skip_if_missing, exclude_owner),
                projects,
                tokens,
                dep_views(before),
                projects.len(),
            ),
        )
    }

    /// Whether `projects` is what the project query returned for `input`.
    pub open spec fn query_answered(
        &self,
        input: Seq<char>,
        projects: Result<Seq<Project>, Seq<char>>,
    ) -> bool {
        exists|asked: String, found: Result<Vec<&'query Project>, String>|
            asked@ == input && #[trigger] call_ensures(self.context.query, (asked,), found)
                && found_view(found) == projects
    }

    /// Whether `answers` is what the collaborators returned while the dependency
    /// `dep` of `task` was resolved onto `list`: the project query for the input
    /// that the scope gives, and the token expander for each candidate that was
    /// reached and not passed over.
    #[verifier::opaque]
    pub open spec fn dep_answered(
        &self,
        task: Task,
        dep: TaskDependencyConfig,
        answers: DepAnswers,
        list: Seq<DepView>,
    ) -> bool {
        match candidates_of(*self.context.project, task, dep@) {
            Ok(CandidatesView::Owner { skip_if_missing }) => self.candidate_answered(
                task,
                *self.context.project,
                dep,
                skip_if_missing,
                answers.tokens[0],
            ),
            Ok(CandidatesView::Query { input, skip_if_missing, exclude_owner, must_match }) => {
                &&& self.query_answered(input, answers.projects)
                &&& match answers.projects {
                    Err(_) => true,
                    Ok(projects) => self.candidates_answered(
                        task,
                        projects,
                        dep,
                        skip_if_missing,
                        exclude_owner,
                        answers.tokens,
                        list,
                    ),
                }
            },
            _ => true,
        }
    }

    /// Whether resolving the dependency `dep` of `task` went as the model says it
    /// goes with the answers `answers`, and those are what the collaborators
    /// returned.
    pub open spec fn dep_resolved(
        &self,
        task: Task,
        dep: TaskDependencyConfig,
        answers: DepAnswers,
        before: Seq<TaskDependencyConfig>,
        after: Seq<TaskDependencyConfig>,
        r: Result<(), TasksExpanderError>,
    ) -> bool {
        &&& self.dep_answered(task, dep, answers, dep_views(before))
        &&& step_matches(
            r,
            after,
            expanded_dep(
                self.context.check_ci_relationships,
                *self.context.project,
                task,
                dep@,
                answers,
                dep_views(before),
            ),
        )
    }

    /// Whether `answers[i]` is what the collaborators returned while the `i`-th
    /// declared dependency of `task` was resolved, if it was reached.
    pub open spec fn answered_at(&self, task: Task, answers: Seq<DepAnswers>, i: int) -> bool {
        match expanded_deps(
            self.context.check_ci_relationships,
            *self.context.project,
            task,
            dep_views(task.deps@),
            answers,
            i as nat,
        ) {
            Ok(list) => self.dep_answered(task, task.deps@[i], answers[i], list),
            Err(_) => true,
        }
    }

    /// Whether `answers` is what the collaborators returned while the declared
    /// dependencies of `task` were resolved, for each dependency that was
    /// reached.
    pub open spec fn deps_answered(&self, task: Task, answers: Seq<DepAnswers>) -> bool {
        forall|i: int| 0 <= i < task.deps@.len() ==> #[trigger] self.answered_at(task, answers, i)
    }

    /// Whether the project query keeps the owner out of its answers where the
    /// dependencies of `task` rely on it: whatever it may return for the owner's
    /// dependencies, or for another project by its locator, is without the owner.
    pub open spec fn owner_kept_out(&self, task: Task) -> bool {
        forall|i: int, asked: String, found: Vec<&'query Project>|
            0 <= i < task.deps@.len() && asks_keeping_owner(
                *self.context.project,
                task,
                (#[trigger] task.deps@[i])@,
                asked@,
            ) && #[trigger] call_ensures(
                self.context.query,
                (asked,),
                Ok::<Vec<&'query Project>, String>(found),
            ) ==> without_project(projects_of(found@), self.context.project.id@)
    }

    /// Where the project query keeps the owner out of its answers, the answers
    /// that it gave are without the owner.
    pub proof fn lemma_owner_kept_out(&self, task: Task, answers: Seq<DepAnswers>, i: int)
        requires
            self.owner_kept_out(task),
            self.deps_answered(task, answers),
            0 <= i < task.deps@.len(),
            expanded_deps(
                self.context.check_ci_relationships,
                *self.context.project,
                task,
                dep_views(task.deps@),
                answers,
                i as nat,
            ) is Ok,
        ensures
            owner_not_returned(*self.context.project, task, task.deps@[i]@, answers[i]),
    {
        reveal(TasksExpander::dep_answered);
        assert(self.answered_at(task, answers, i));
        match candidates_of(*self.context.project, task, task.deps@[i]@) {
            Ok(CandidatesView::Query { input, skip_if_missing, exclude_owner, must_match }) => {
                if !exclude_owner && answers[i].projects is Ok {
                    let (asked, found) = choose|
                        asked: String,
                        found: Result<Vec<&'query Project>, String>,
                    |
                        asked@ == input && #[trigger] call_ensures(
                            self.context.query,
                            (asked,),
                            found,
                        ) && found_view(found) == answers[i].projects;
                    assert(asks_keeping_owner(
                        *self.context.project,
                        task,
                        task.deps@[i]@,
                        asked@,
                    ));
                    assert(found is Ok);
                    assert(call_ensures(
                        self.context.query,
                        (asked,),
                        Ok::<Vec<&'query Project>, String>(found->Ok_0),
                    ));
                }
            },
            _ => {},
        }
    }

    /// Whether `after` is `before` with its dependencies expanded, as `r` reports:
    /// there are answers of the collaborators with which the resolved
    /// dependencies, or the failure, are those that [`expanded_deps`] gives. On
    /// success nothing but the dependencies changed, and no two of them are equal;
    /// none of them is a dependency on the task itself, if the task's target is
    /// that of its identifier in the owning project and the project query keeps
    /// the owner out of its answers where the scopes rely on it. On failure the
    /// task is unchanged.
    pub open spec fn deps_expanded(
        &self,
        before: Task,
        after: Task,
        r: Result<(), TasksExpanderError>,
    ) -> bool {
        &&& exists|answers: Seq<DepAnswers>|
            self.deps_answered(before, answers) && deps_match(
                r,
                before,
                after,
                #[trigger] expanded_deps(
                    self.context.check_ci_relationships,
                    *self.context.project,
                    before,
                    dep_views(before.deps@),
                    answers,
                    before.deps@.len(),
                ),
            )
        &&& r is Ok ==> dep_views(after.deps@).no_duplicates()
        &&& r is Ok && before.target@ == qualified(self.context.project.id@, before.id@)
            && self.owner_kept_out(before) ==> without_target(
            dep_views(after.deps@),
            before.target@,
        )
    }

    /// Considers the project `candidate` for the dependency `dep` of `task`: checks
    /// that the task it names there may be depended on, resolves the dependency's
    /// arguments and environment, and appends the resolved dependency to `deps`
    /// unless it is there already. A failure leaves `deps` as it was.
    pub fn check_and_push_dep(
        &self,
        task: &Task,
        candidate: &Project,
        dep: &TaskDependencyConfig,
        skip_if_missing: bool,
        deps: &mut Vec<TaskDependencyConfig>,
    ) -> (r: Result<(), TasksExpanderError>)
        ensures
            exists|answers: TokenAnswers| #[trigger]
                self.candidate_resolved(
                    *task,
                    *candidate,
                    *dep,
                    skip_if_missing,
                    answers,
                    old(deps)@,
                    final(deps)@,
                    r,
                ),
            r is Err ==> final(deps)@ == old(deps)@,
    {
        let check_ci = self.context.check_ci_relationships;
        let ghost before = deps@;
        let ghost none: TokenAnswers = arbitrary();
        reveal(TasksExpander::candidate_answered);
        match check_dep(check_ci, task, candidate, dep, skip_if_missing) {
            Err(e) => {
                let r = Err(e);
                assert(self.candidate_resolved(
                    *task,
                    *candidate,
                    *dep,
                    skip_if_missing,
                    none,
                    before,
                    deps@,
                    r,
                ));
                return r;
            },
            Ok(false) => {
                let r = Ok(());
                assert(self.candidate_resolved(
                    *task,
                    *candidate,
                    *dep,
                    skip_if_missing,
                    none,
                    before,
                    deps@,
                    r,
                ));
                return r;
            },
            Ok(true) => {},
        }
        let words = match parse_task_args(&dep.args) {
            Ok(words) => words,
            Err(e) => {
                let r = Err(e);
                assert(self.candidate_resolved(
                    *task,
                    *candidate,
                    *dep,
                    skip_if_missing,
                    none,
                    before,
                    deps@,
                    r,
                ));
                return r;
            },
        };
        let env = match self.token.expand_env_with_task(task, &dep.env) {
            Ok(env) => env,
            Err(message) => {
                let ghost answers = TokenAnswers { env: Err(message), args: none.args };
                let r = Err(TasksExpanderError::TokenFailure { message });
                assert(self.candidate_resolved(
                    *task,
                    *candidate,
                    *dep,
                    skip_if_missing,
                    answers,
                    before,
                    deps@,
                    r,
                ));
                return r;
            },
        };
        let ghost parsed = words;
        let words = if words.len() > 0 {
            match self.token.expand_args_with_task(task, &words) {
                Ok(expanded) => expanded,
                Err(message) => {
                    let ghost answers = TokenAnswers { env: Ok(env), args: Err(message) };
                    assert(call_ensures(
                        T::expand_args_with_task,
                        (&self.token, task, &parsed),
                        answers.args,
                    ));
                    let r = Err(TasksExpanderError::TokenFailure { message });
                    assert(self.candidate_resolved(
                        *task,
                        *candidate,
                        *dep,
                        skip_if_missing,
                        answers,
                        before,
                        deps@,
                        r,
                    ));
                    return r;
                },
            }
        } else {
            words
        };
        let ghost answers = TokenAnswers { env: Ok(env), args: Ok(words) };
        proof {
            if parsed.len() > 0 {
                assert(call_ensures(
                    T::expand_args_with_task,
                    (&self.token, task, &parsed),
                    answers.args,
                ));
            }
        }
        let resolved = resolve_dep(candidate.id.as_str(), dep, words, &env);
        push_dep(deps, resolved);
        let r = Ok(());
        assert(self.candidate_resolved(
            *task,
            *candidate,
            *dep,
            skip_if_missing,
            answers,
            before,
            deps@,
            r,
        ));
        r
    }

    /// Considers each of the projects `found` in turn for the dependency `dep` of
    /// `task`, passing over the owning project where `exclude_owner` says so, and
    /// stops at the first failure.
    pub fn check_and_push_all(
        &self,
        task: &Task,
        found: &Vec<&'query Project>,
        dep: &TaskDependencyConfig,
        skip_if_missing: bool,
        exclude_owner: bool,
        deps: &mut Vec<TaskDependencyConfig>,
    ) -> (r: Result<(), TasksExpanderError>)
        ensures
            exists|tokens: Seq<TokenAnswers>| #[trigger]
                self.candidates_resolved(
                    *task,
                    projects_of(found@),
                    *dep,
                    skip_if_missing,
                    exclude_owner,
                    tokens,
                    old(deps)@,
                    final(deps)@,
                    r,
                ),
    {
        let owner = self.context.project;
        let ghost before = deps@;
        let ghost list = dep_views(deps@);
        let ghost projects = projects_of(found@);
        let ghost round = self.round(*task, dep@, skip_if_missing, exclude_owner);
        let ghost mut tokens: Seq<TokenAnswers> = Seq::empty();
        let mut i: usize = 0;
        while i < found.len()
            invariant
                0 <= i <= found.len(),
                tokens.len() == i,
                owner == self.context.project,
                before == old(deps)@,
                list == dep_views(before),
                projects == projects_of(found@),
                round == self.round(*task, dep@, skip_if_missing, exclude_owner),
                checked_all(round, projects, tokens, list, i as nat) == Ok::<
                    Seq<DepView>,
                    ErrorView,
                >(dep_views(deps@)),
                forall|k: int|
                    0 <= k < i && !(exclude_owner && projects[k].id@ == owner.id@)
                        ==> self.candidate_answered(
                        *task,
                        projects[k],
                        *dep,
                        skip_if_missing,
                        #[trigger] tokens[k],
                    ),
            decreases found.len() - i,
        {
            let candidate = found[i];
            let ghost earlier = tokens;
            let ghost so_far = deps@;
            assert(projects[i as int] == *candidate);
            if exclude_owner && same_str(candidate.id.as_str(), owner.id.as_str()) {
                proof {
                    tokens = tokens.push(arbitrary());
                    lemma_checked_all_answers(round, projects, earlier, tokens, list, i as nat);
                }
            } else {
                let r = self.check_and_push_dep(task, candidate, dep, skip_if_missing, deps);
                proof {
                    let a = choose|a: TokenAnswers| #[trigger]
                        self.candidate_resolved(
                            *task,
                            *candidate,
                            *dep,
                            skip_if_missing,
                            a,
                            so_far,
                            deps@,
                            r,
                        );
                    tokens = tokens.push(a);
                    lemma_checked_all_answers(round, projects, earlier, tokens, list, i as nat);
                }
                if r.is_err() {
                    proof {
                        lemma_checked_all_failure(
                            round,
                            projects,
                            tokens,
                            list,
                            (i + 1) as nat,
                            projects.len(),
                        );
                        assert forall|k: int|
                            0 <= k < projects.len() && checked_all(
                                round,
                                projects,
                                tokens,
                                list,
                                k as nat,
                            ) is Ok && !(exclude_owner && projects[k].id@ == owner.id@)
                            implies self.candidate_answered(
                            *task,
                            projects[k],
                            *dep,
                            skip_if_missing,
                            #[trigger] tokens[k],
                        ) by {
                            if k > i {
                                lemma_checked_all_failure(
                                    round,
                                    projects,
                                    tokens,
                                    list,
                                    (i + 1) as nat,
                                    k as nat,
                                );
                            }
                        }
                        assert(self.candidates_resolved(
                            *task,
                            projects,
                            *dep,
                            skip_if_missing,
                            exclude_owner,
                            tokens,
                            before,
                            deps@,
                            r,
                        ));
                    }
                    return r;
                }
            }
            i += 1;
        }
        let r = Ok(());
        assert(self.candidates_resolved(
            *task,
            projects,
            *dep,
            skip_if_missing,
            exclude_owner,
            tokens,
            before,
            deps@,
            r,
        ));
        r
    }

    /// Resolves one declared dependency of `task`: finds the projects that it
    /// addresses, asking the project query where the scope needs it, and considers
    /// each of them in turn. Resolved dependencies are appended to `deps`.
    pub fn expand_dep(
        &self,
        task: &Task,
        dep: &TaskDependencyConfig,
        deps: &mut Vec<TaskDependencyConfig>,
    ) -> (r: Result<(), TasksExpanderError>)
        requires
            self.query_ready(),
        ensures
            exists|answers: DepAnswers| #[trigger]
                self.dep_resolved(*task, *dep, answers, old(deps)@, final(deps)@, r),
    {
        let owner = self.context.project;
        let ghost before = deps@;
        let ghost none: DepAnswers = arbitrary();
        reveal(TasksExpander::dep_answered);
        match scope_candidates(owner, task, dep) {
            Err(e) => {
                let r = Err(e);
                assert(self.dep_resolved(*task, *dep, none, before, deps@, r));
                r
            },
            Ok(Candidates::Nothing) => {
                let r = Ok(());
                assert(self.dep_resolved(*task, *dep, none, before, deps@, r));
                r
            },
            Ok(Candidates::Owner { skip_if_missing }) => {
                let r = self.check_and_push_dep(task, owner, dep, skip_if_missing, deps);
                proof {
                    let a = choose|a: TokenAnswers| #[trigger]
                        self.candidate_resolved(
                            *task,
                            *owner,
                            *dep,
                            skip_if_missing,
                            a,
                            before,
                            deps@,
                            r,
                        );
                    let answers = DepAnswers { projects: none.projects, tokens: seq![a] };
                    assert(self.dep_resolved(*task, *dep, answers, before, deps@, r));
                }
                r
            },
            Ok(Candidates::Query { input, skip_if_missing, exclude_owner, must_match }) => {
                let ghost asked = input;
                let answer = (self.context.query)(input);
                assert(self.query_answered(asked@, found_view(answer))) by {
                    assert(call_ensures(self.context.query, (asked,), answer));
                }
                match answer {
                    Err(message) => {
                        let ghost answers = DepAnswers {
                            projects: Err(message@),
                            tokens: none.tokens,
                        };
                        let r = Err(TasksExpanderError::QueryFailure { message });
                        assert(self.dep_resolved(*task, *dep, answers, before, deps@, r));
                        r
                    },
                    Ok(found) => {
                        let ghost projects = projects_of(found@);
                        if must_match && found.len() == 0 {
                            let ghost answers = DepAnswers {
                                projects: Ok(projects),
                                tokens: none.tokens,
                            };
                            let r = Err(
                                TasksExpanderError::UnknownTarget {
                                    dep: dep.target.clone(),
                                    task: task.target.clone(),
                                },
                            );
                            assert(self.dep_resolved(*task, *dep, answers, before, deps@, r));
                            return r;
                        }
                        let r = self.check_and_push_all(
                            task,
                            &found,
                            dep,
                            skip_if_missing,
                            exclude_owner,
                            deps,
                        );
                        proof {
                            let tokens = choose|tokens: Seq<TokenAnswers>| #[trigger]
                                self.candidates_resolved(
                                    *task,
                                    projects,
                                    *dep,
                                    skip_if_missing,
                                    exclude_owner,
                                    tokens,
                                    before,
                                    deps@,
                                    r,
                                );
                            let answers = DepAnswers { projects: Ok(projects), tokens };
                            assert(self.dep_resolved(*task, *dep, answers, before, deps@, r));
                        }
                        r
                    },
                }
            },
        }
    }

    /// Replaces the declared dependencies of `task` by the resolved ones: each
    /// declared dependency is resolved in turn, in the order of declaration, and a
    /// dependency that is resolved twice is listed once, where it first came, so
    /// that no two of the resolved dependencies are equal. None of them is a
    /// dependency on the task itself, if the task's target is that of its
    /// identifier in the owning project and the project query keeps the owner out
    /// of its answers where the scopes rely on it. Any failure leaves the task as
    /// it was.
    pub fn expand_deps(&self, task: &mut Task) -> (r: Result<(), TasksExpanderError>)
        requires
            self.query_ready(),
        ensures
            self.deps_expanded(*old(task), *final(task), r),
    {
        let check_ci = self.context.check_ci_relationships;
        let owner = self.context.project;
        let ghost declared = dep_views(task.deps@);
        let mut resolved: Vec<TaskDependencyConfig> = Vec::new();
        let ghost mut answers: Seq<DepAnswers> = Seq::empty();
        let mut i: usize = 0;
        assert(dep_views(resolved@) =~= Seq::empty());
        while i < task.deps.len()
            invariant
                0 <= i <= task.deps.len(),
                answers.len() == i,
                *task == *old(task),
                declared == dep_views(task.deps@),
                self.query_ready(),
                check_ci == self.context.check_ci_relationships,
                owner == self.context.project,
                expanded_deps(check_ci, *owner, *task, declared, answers, i as nat) == Ok::<
                    Seq<DepView>,
                    ErrorView,
                >(dep_views(resolved@)),
                forall|k: int| 0 <= k < i ==> #[trigger] self.answered_at(*task, answers, k),
            decreases task.deps.len() - i,
        {
            let ghost so_far = resolved@;
            let ghost earlier = answers;
            let r = self.expand_dep(task, &task.deps[i], &mut resolved);
            proof {
                let a = choose|a: DepAnswers| #[trigger]
                    self.dep_resolved(*task, task.deps[i as int], a, so_far, resolved@, r);
                answers = answers.push(a);
                assert(declared[i as int] == task.deps[i as int]@);
                lemma_expanded_deps_answers(
                    check_ci,
                    *owner,
                    *task,
                    declared,
                    earlier,
                    answers,
                    i as nat,
                );
                assert forall|k: int| 0 <= k <= i implies #[trigger] self.answered_at(
                    *task,
                    answers,
                    k,
                ) by {
                    lemma_expanded_deps_answers(
                        check_ci,
                        *owner,
                        *task,
                        declared,
                        earlier,
                        answers,
                        k as nat,
                    );
                    if k < i {
                        assert(self.answered_at(*task, earlier, k));
                    }
                }
            }
            if r.is_err() {
                proof {
                    lemma_expanded_deps_failure(
                        check_ci,
                        *owner,
                        *task,
                        declared,
                        answers,
                        (i + 1) as nat,
                        declared.len(),
                    );
                    assert forall|k: int| 0 <= k < task.deps@.len() implies #[trigger]
                        self.answered_at(*task, answers, k) by {
                        if k > i {
                            lemma_expanded_deps_failure(
                                check_ci,
                                *owner,
                                *task,
                                declared,
                                answers,
                                (i + 1) as nat,
                                k as nat,
                            );
                        }
                    }
                }
                return r;
            }
            i += 1;
        }
        proof {
            lemma_no_duplicates(check_ci, *owner, *task, declared, answers, declared.len());
            if task.target@ == qualified(owner.id@, task.id@) && self.owner_kept_out(*task) {
                assert forall|k: int| 0 <= k < declared.len() implies owner_not_returned(
                    *owner,
                    *task,
                    declared[k],
                    #[trigger] answers[k],
                ) by {
                    if expanded_deps(check_ci, *owner, *task, declared, answers, k as nat) is Err {
                        lemma_expanded_deps_failure(
                            check_ci,
                            *owner,
                            *task,
                            declared,
                            answers,
                            k as nat,
                            declared.len(),
                        );
                    }
                    self.lemma_owner_kept_out(*task, answers, k);
                }
                lemma_no_self_dependency(
                    check_ci,
                    *owner,
                    *task,
                    declared,
                    answers,
                    declared.len(),
                );
            }
        }
        task.deps = resolved;
        Ok(())
    }
}

} // verus!
