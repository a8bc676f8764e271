//! The task expander: the steps that turn a declared task into a resolved one.

use crate::collections::{map_entries, strs, StrMap};
use crate::command::{args_set, command_set, script_set, set_args, set_command, set_script};
use crate::env_file::{
    answer_fits, answers_fit, env_file_path, expanded_env, file_at, file_loads, file_names,
    fill_absent, fitting_answer, lemma_expanded_names, lemma_failure_names_invalid_file,
    lemma_files_load, lemma_fitting_answer_fits, lemma_invalid_file_fails, load_env_files,
    load_matches, loaded, resolve_env_file, EnvFile, FileAnswer,
};
use crate::error::{ErrorView, TasksExpanderError};
use crate::files::{
    add_inputs, inputs_added, inputs_apart_from_outputs, outputs_reconciled, reconcile_outputs,
};
use crate::substitute::substitute_env_vars;
use crate::task::{ExpandedResult, Project, Task};
use vstd::prelude::*;

verus! {

/// The service that resolves tokens. Each method either returns the text or the
/// list it was asked for with every token replaced, or a message that says why it
/// could not.
pub trait TokenExpander {
    /// The task's command.
    fn expand_command(&self, task: &Task) -> Result<String, String>;

    /// The task's script.
    fn expand_script(&self, task: &Task) -> Result<String, String>;

    /// The task's arguments.
    fn expand_args(&self, task: &Task) -> Result<Vec<String>, String>;

    /// The given arguments, read in the context of the task.
    fn expand_args_with_task(&self, task: &Task, args: &Vec<String>) -> Result<Vec<String>, String>;

    /// The task's environment.
    fn expand_env(&self, task: &Task) -> Result<StrMap, String>;

    /// The given environment, read in the context of the task.
    fn expand_env_with_task(&self, task: &Task, env: &StrMap) -> Result<StrMap, String>;

    /// The task's inputs, sorted into environment variables, files and globs.
    fn expand_inputs(&self, task: &Task) -> Result<ExpandedResult, String>;

    /// The task's outputs, sorted into files and globs.
    fn expand_outputs(&self, task: &Task) -> Result<ExpandedResult, String>;
}

/// What the expansion of the tasks of one project shares.
pub struct ExpanderContext<'graph, Q> {
    /// The project that owns the tasks.
    pub project: &'graph Project,
    /// The project query: from a query string to the projects that match it.
    pub query: Q,
    /// The root directory of the workspace.
    pub workspace_root: String,
    /// Whether a task that runs in CI is kept from depending on one that does not.
    pub check_ci_relationships: bool,
}

/// The value of what the token expander answered for an environment.
pub open spec fn declared_view(declared: Result<StrMap, String>) -> Result<
    Map<Seq<char>, Seq<char>>,
    Seq<char>,
> {
    match declared {
        Ok(env) => Ok(map_entries(env)),
        Err(message) => Err(message@),
    }
}

/// Whether the outcome of the expansion of a task's environment is the one that
/// the model gives: on success the task has the model's environment and is
/// otherwise unchanged, on failure the error is the model's and the task is
/// unchanged.
pub open spec fn env_matches(
    r: Result<(), TasksExpanderError>,
    before: Task,
    after: Task,
    model: Result<Map<Seq<char>, Seq<char>>, ErrorView>,
) -> bool {
    match model {
        Ok(env) => r is Ok && map_entries(after.env) == env && after == (Task {
            env: after.env,
            ..before
        }),
        Err(e) => r is Err && r->Err_0@ == e && after == before,
    }
}

/// Expands the tasks of one project.
pub struct TasksExpander<'graph, Q, T> {
    pub context: &'graph ExpanderContext<'graph, Q>,
    pub token: T,
}

impl<
    'graph,
    'query,
    Q: Fn(String) -> Result<Vec<&'query Project>, String>,
    T: TokenExpander,
> TasksExpander<'graph, Q, T> {
    /// An expander for the tasks of the context's project.
    pub fn new(context: &'graph ExpanderContext<'graph, Q>, token: T) -> (r: Self)
        ensures
            r.context == context,
            r.token == token,
    {
        TasksExpander { context, token }
    }

    /// Whether `after` is `before` with its command expanded, as `r` reports: on
    /// success the command is what the token expander returned for `before`, with
    /// the variables of the task's environment substituted, and nothing else
    /// changed; on failure the task is unchanged and the error carries the token
    /// expander's message.
    pub open spec fn command_expanded(
        &self,
        before: Task,
        after: Task,
        r: Result<(), TasksExpanderError>,
    ) -> bool {
        match r {
            Ok(_) => exists|resolved: String|
                #[trigger] call_ensures(
                    T::expand_command,
                    (&self.token, &before),
                    Ok::<String, String>(resolved),
                ) && command_set(before, resolved@, after),
            Err(e) => after == before && exists|message: String|
                #[trigger] call_ensures(
                    T::expand_command,
                    (&self.token, &before),
                    Err::<String, String>(message),
                ) && e == (TasksExpanderError::TokenFailure { message }),
        }
    }

    /// Whether `after` is `before` with its script expanded, as `r` reports: on
    /// success the script is what the token expander returned for `before`, with
    /// the variables of the task's environment substituted, and nothing else
    /// changed; on failure the task is unchanged and the error carries the token
    /// expander's message.
    pub open spec fn script_expanded(
        &self,
        before: Task,
        after: Task,
        r: Result<(), TasksExpanderError>,
    ) -> bool {
        match r {
            Ok(_) => exists|resolved: String|
                #[trigger] call_ensures(
                    T::expand_script,
                    (&self.token, &before),
                    Ok::<String, String>(resolved),
                ) && script_set(before, resolved@, after),
            Err(e) => after == before && exists|message: String|
                #[trigger] call_ensures(
                    T::expand_script,
                    (&self.token, &before),
                    Err::<String, String>(message),
                ) && e == (TasksExpanderError::TokenFailure { message }),
        }
    }

    /// Whether `after` is `before` with its arguments expanded, as `r` reports. A
    /// task without arguments is unchanged and the step succeeds. Otherwise, on
    /// success the arguments are what the token expander returned for `before`,
    /// each with the variables of the task's environment substituted, and nothing
    /// else changed; on failure the task is unchanged and the error carries the
    /// token expander's message.
    pub open spec fn args_expanded(
        &self,
        before: Task,
        after: Task,
        r: Result<(), TasksExpanderError>,
    ) -> bool {
        &&& before.args@.len() == 0 ==> r is Ok && after == before
        &&& before.args@.len() > 0 ==> match r {
            Ok(_) => exists|resolved: Vec<String>|
                #[trigger] call_ensures(
                    T::expand_args,
                    (&self.token, &before),
                    Ok::<Vec<String>, String>(resolved),
                ) && args_set(before, strs(resolved@), after),
            Err(e) => after == before && exists|message: String|
                #[trigger] call_ensures(
                    T::expand_args,
                    (&self.token, &before),
                    Err::<Vec<String>, String>(message),
                ) && e == (TasksExpanderError::TokenFailure { message }),
        }
    }

    /// Whether `after` is `before` with its inputs expanded, as `r` reports. A task
    /// that declares no inputs is unchanged and the step succeeds. Otherwise, on
    /// success what the token expander returned for `before` is added to the
    /// task's input sets, and nothing else changed; on failure the task is
    /// unchanged and the error carries the token expander's message.
    pub open spec fn inputs_expanded(
        &self,
        before: Task,
        after: Task,
        r: Result<(), TasksExpanderError>,
    ) -> bool {
        &&& before.inputs@.len() == 0 ==> r is Ok && after == before
        &&& before.inputs@.len() > 0 ==> match r {
            Ok(_) => exists|found: ExpandedResult|
                #[trigger] call_ensures(
                    T::expand_inputs,
                    (&self.token, &before),
                    Ok::<ExpandedResult, String>(found),
                ) && inputs_added(before, found, after),
            Err(e) => after == before && exists|message: String|
                #[trigger] call_ensures(
                    T::expand_inputs,
                    (&self.token, &before),
                    Err::<ExpandedResult, String>(message),
                ) && e == (TasksExpanderError::TokenFailure { message }),
        }
    }

    /// Whether `after` is `before` with its outputs expanded, as `r` reports. A
    /// task that declares no outputs is unchanged and the step succeeds.
    /// Otherwise, on success what the token expander returned for `before` is set
    /// against the task's inputs, and nothing else changed; on failure the task is
    /// unchanged and the error carries the token expander's message. In every
    /// case, inputs and outputs that shared nothing before share nothing after.
    pub open spec fn outputs_expanded(
        &self,
        before: Task,
        after: Task,
        r: Result<(), TasksExpanderError>,
    ) -> bool {
        &&& before.outputs@.len() == 0 ==> r is Ok && after == before
        &&& before.outputs@.len() > 0 ==> match r {
            Ok(_) => exists|found: ExpandedResult|
                #[trigger] call_ensures(
                    T::expand_outputs,
                    (&self.token, &before),
                    Ok::<ExpandedResult, String>(found),
                ) && outputs_reconciled(before, found, after),
            Err(e) => after == before && exists|message: String|
                #[trigger] call_ensures(
                    T::expand_outputs,
                    (&self.token, &before),
                    Err::<ExpandedResult, String>(message),
                ) && e == (TasksExpanderError::TokenFailure { message }),
        }
        &&& inputs_apart_from_outputs(before) ==> inputs_apart_from_outputs(after)
    }

    /// Whether `after` is `before` with its environment expanded, as `r` reports:
    /// there is an answer of the token expander for the environment of `before`,
    /// and an answer for each environment file that fits the file as it was
    /// found, with which the expanded environment, or the failure, is the one that
    /// [`expanded_env`] gives. On success nothing but the environment changed; on
    /// failure the task is unchanged.
    pub open spec fn env_expanded(
        &self,
        before: Task,
        files: Seq<EnvFile>,
        after: Task,
        r: Result<(), TasksExpanderError>,
    ) -> bool {
        exists|declared: Result<StrMap, String>, answers: Seq<FileAnswer>|
            call_ensures(T::expand_env, (&self.token, &before), declared) && answers_fit(
                self.env_paths(before).len(),
                files,
                answers,
            ) && env_matches(
                r,
                before,
                after,
                #[trigger] expanded_env(
                    declared_view(declared),
                    self.env_paths(before),
                    answers,
                ),
            )
    }

    /// Whether the token expander, asked for the environment of `task`, can only
    /// succeed.
    pub open spec fn env_tokens_resolve(&self, task: Task) -> bool {
        forall|declared: Result<StrMap, String>| #[trigger]
            call_ensures(T::expand_env, (&self.token, &task), declared) ==> declared is Ok
    }

    /// The expansion of the environment succeeds where the token expander does
    /// and every environment file of the task is missing or valid: a missing
    /// file is no failure.
    pub proof fn lemma_env_expansion_succeeds(
        &self,
        before: Task,
        files: Seq<EnvFile>,
        after: Task,
        r: Result<(), TasksExpanderError>,
    )
        requires
            self.env_expanded(before, files, after, r),
            self.env_tokens_resolve(before),
            forall|i: int| 0 <= i < self.env_paths(before).len() ==> file_loads(file_at(files, i)),
        ensures
            r is Ok,
    {
        let paths = self.env_paths(before);
        let (declared, answers) = choose|
            declared: Result<StrMap, String>,
            answers: Seq<FileAnswer>,
        |
            call_ensures(T::expand_env, (&self.token, &before), declared) && answers_fit(
                paths.len(),
                files,
                answers,
            ) && env_matches(
                r,
                before,
                after,
                #[trigger] expanded_env(declared_view(declared), paths, answers),
            );
        assert forall|j: int| 0 <= j < paths.len() implies !(answers[j] is Invalid) by {
            assert(file_loads(file_at(files, j)));
        }
        lemma_files_load(paths, answers, paths.len());
    }

    /// The expansion of the environment fails where the token expander succeeds
    /// and an environment file of the task exists and cannot be read or is not
    /// valid: the failure names the first such file, and the task is unchanged,
    /// so that nothing of any file is merged.
    pub proof fn lemma_env_expansion_fails(
        &self,
        before: Task,
        files: Seq<EnvFile>,
        after: Task,
        r: Result<(), TasksExpanderError>,
        i: int,
    )
        requires
            self.env_expanded(before, files, after, r),
            self.env_tokens_resolve(before),
            0 <= i < self.env_paths(before).len(),
            !file_loads(file_at(files, i)),
            forall|j: int| 0 <= j < i ==> file_loads(file_at(files, j)),
        ensures
            r is Err,
            r->Err_0@ is InvalidEnvFile,
            r->Err_0@->InvalidEnvFile_path == self.env_paths(before)[i],
            file_at(files, i) is Unreadable ==> r->Err_0@->InvalidEnvFile_error == file_at(
                files,
                i,
            )->Unreadable_0,
            after == before,
    {
        let paths = self.env_paths(before);
        let (declared, answers) = choose|
            declared: Result<StrMap, String>,
            answers: Seq<FileAnswer>,
        |
            call_ensures(T::expand_env, (&self.token, &before), declared) && answers_fit(
                paths.len(),
                files,
                answers,
            ) && env_matches(
                r,
                before,
                after,
                #[trigger] expanded_env(declared_view(declared), paths, answers),
            );
        assert(answers[i] is Invalid) by {
            assert(!file_loads(file_at(files, i)));
        }
        assert forall|j: int| 0 <= j < i implies !(answers[j] is Invalid) by {
            assert(file_loads(file_at(files, j)));
        }
        lemma_invalid_file_fails(map_entries(declared->Ok_0), paths, answers, i);
    }

    /// After a successful expansion, the variables of the task's environment are
    /// those of the environment that the token expander returned and those that
    /// the task's environment files declare.
    pub proof fn lemma_env_names(
        &self,
        before: Task,
        files: Seq<EnvFile>,
        after: Task,
        r: Result<(), TasksExpanderError>,
    )
        requires
            self.env_expanded(before, files, after, r),
            r is Ok,
        ensures
            exists|declared: StrMap|
                #[trigger] call_ensures(
                    T::expand_env,
                    (&self.token, &before),
                    Ok::<StrMap, String>(declared),
                ) && map_entries(after.env).dom() == map_entries(declared).dom().union(
                    file_names(files, self.env_paths(before).len()),
                ),
    {
        let paths = self.env_paths(before);
        let (declared, answers) = choose|
            declared: Result<StrMap, String>,
            answers: Seq<FileAnswer>,
        |
            call_ensures(T::expand_env, (&self.token, &before), declared) && answers_fit(
                paths.len(),
                files,
                answers,
            ) && env_matches(
                r,
                before,
                after,
                #[trigger] expanded_env(declared_view(declared), paths, answers),
            );
        lemma_expanded_names(map_entries(declared->Ok_0), paths, files, answers);
        assert(call_ensures(
            T::expand_env,
            (&self.token, &before),
            Ok::<StrMap, String>(declared->Ok_0),
        ));
    }

    /// A failure of the expansion of the environment, where the token expander
    /// succeeds, is the failure of an environment file that exists and cannot be
    /// read or is not valid; it names that file.
    pub proof fn lemma_env_failure_names_file(
        &self,
        before: Task,
        files: Seq<EnvFile>,
        after: Task,
        r: Result<(), TasksExpanderError>,
    ) -> (i: int)
        requires
            self.env_expanded(before, files, after, r),
            self.env_tokens_resolve(before),
            r is Err,
        ensures
            0 <= i < self.env_paths(before).len(),
            !file_loads(file_at(files, i)),
            r->Err_0@ is InvalidEnvFile,
            r->Err_0@->InvalidEnvFile_path == self.env_paths(before)[i],
            after == before,
    {
        let paths = self.env_paths(before);
        let (declared, answers) = choose|
            declared: Result<StrMap, String>,
            answers: Seq<FileAnswer>,
        |
            call_ensures(T::expand_env, (&self.token, &before), declared) && answers_fit(
                paths.len(),
                files,
                answers,
            ) && env_matches(
                r,
                before,
                after,
                #[trigger] expanded_env(declared_view(declared), paths, answers),
            );
        let i = lemma_failure_names_invalid_file(paths, answers, paths.len());
        assert(answer_fits(file_at(files, i), answers[i]));
        i
    }

    /// Replaces the task's command by what the token expander makes of it, with
    /// the variables of the task's environment substituted. A failure of the
    /// token expander leaves the task as it was.
    pub fn expand_command(&self, task: &mut Task) -> (r: Result<(), TasksExpanderError>)
        ensures
            self.command_expanded(*old(task), *final(task), r),
    {
        let answer = self.token.expand_command(task);
        match answer {
            Ok(resolved) => {
                set_command(task, resolved.as_str());
                assert(call_ensures(
                    T::expand_command,
                    (&self.token, &*old(task)),
                    Ok::<String, String>(resolved),
                ));
                Ok(())
            },
            Err(message) => {
                assert(call_ensures(
                    T::expand_command,
                    (&self.token, &*old(task)),
                    Err::<String, String>(message),
                ));
                Err(TasksExpanderError::TokenFailure { message })
            },
        }
    }

    /// Replaces the task's script by what the token expander makes of it, with
    /// the variables of the task's environment substituted. A failure of the
    /// token expander leaves the task as it was.
    pub fn expand_script(&self, task: &mut Task) -> (r: Result<(), TasksExpanderError>)
        ensures
            self.script_expanded(*old(task), *final(task), r),
    {
        let answer = self.token.expand_script(task);
        match answer {
            Ok(resolved) => {
                set_script(task, resolved.as_str());
                assert(call_ensures(
                    T::expand_script,
                    (&self.token, &*old(task)),
                    Ok::<String, String>(resolved),
                ));
                Ok(())
            },
            Err(message) => {
                assert(call_ensures(
                    T::expand_script,
                    (&self.token, &*old(task)),
                    Err::<String, String>(message),
                ));
                Err(TasksExpanderError::TokenFailure { message })
            },
        }
    }

    /// Replaces the task's arguments by what the token expander makes of them,
    /// each with the variables of the task's environment substituted. A task
    /// without arguments is left alone, and the token expander is not asked. A
    /// failure of the token expander leaves the task as it was.
    pub fn expand_args(&self, task: &mut Task) -> (r: Result<(), TasksExpanderError>)
        ensures
            self.args_expanded(*old(task), *final(task), r),
    {
        if task.args.len() == 0 {
            return Ok(());
        }
        let answer = self.token.expand_args(task);
        match answer {
            Ok(resolved) => {
                set_args(task, &resolved);
                assert(call_ensures(
                    T::expand_args,
                    (&self.token, &*old(task)),
                    Ok::<Vec<String>, String>(resolved),
                ));
                Ok(())
            },
            Err(message) => {
                assert(call_ensures(
                    T::expand_args,
                    (&self.token, &*old(task)),
                    Err::<Vec<String>, String>(message),
                ));
                Err(TasksExpanderError::TokenFailure { message })
            },
        }
    }

    /// Adds to the task's inputs what the token expander makes of the declared
    /// ones: environment variables, files and globs, each to their set. A task
    /// that declares no inputs is left alone, and the token expander is not
    /// asked. A failure of the token expander leaves the task as it was.
    pub fn expand_inputs(&self, task: &mut Task) -> (r: Result<(), TasksExpanderError>)
        ensures
            self.inputs_expanded(*old(task), *final(task), r),
    {
        if task.inputs.len() == 0 {
            return Ok(());
        }
        let answer = self.token.expand_inputs(task);
        match answer {
            Ok(found) => {
                add_inputs(task, &found);
                assert(call_ensures(
                    T::expand_inputs,
                    (&self.token, &*old(task)),
                    Ok::<ExpandedResult, String>(found),
                ));
                Ok(())
            },
            Err(message) => {
                assert(call_ensures(
                    T::expand_inputs,
                    (&self.token, &*old(task)),
                    Err::<ExpandedResult, String>(message),
                ));
                Err(TasksExpanderError::TokenFailure { message })
            },
        }
    }

    /// Sets what the token expander makes of the declared outputs against the
    /// task's inputs: each file and each glob becomes an output and stops being
    /// an input, so that inputs and outputs that shared nothing before share
    /// nothing after. A task that declares no outputs is left alone, and the
    /// token expander is not asked. A failure of the token expander leaves the
    /// task as it was.
    pub fn expand_outputs(&self, task: &mut Task) -> (r: Result<(), TasksExpanderError>)
        ensures
            self.outputs_expanded(*old(task), *final(task), r),
    {
        if task.outputs.len() == 0 {
            return Ok(());
        }
        let answer = self.token.expand_outputs(task);
        match answer {
            Ok(found) => {
                reconcile_outputs(task, &found);
                assert(call_ensures(
                    T::expand_outputs,
                    (&self.token, &*old(task)),
                    Ok::<ExpandedResult, String>(found),
                ));
                Ok(())
            },
            Err(message) => {
                assert(call_ensures(
                    T::expand_outputs,
                    (&self.token, &*old(task)),
                    Err::<ExpandedResult, String>(message),
                ));
                Err(TasksExpanderError::TokenFailure { message })
            },
        }
    }

    /// The paths of the environment files that the task names, each resolved
    /// under the project's source directory and the workspace root, in the
    /// task's order; none where the task names no environment files.
    pub open spec fn env_paths(&self, task: Task) -> Seq<Seq<char>> {
        match task.options.env_files {
            None => Seq::empty(),
            Some(files) => strs(files@).map_values(
                |file: Seq<char>|
                    env_file_path(
                        self.context.workspace_root@,
                        self.context.project.source@,
                        file,
                    ),
            ),
        }
    }

    /// The paths of the environment files that the task names, for the caller to
    /// read.
    pub fn env_file_paths(&self, task: &Task) -> (r: Vec<String>)
        ensures
            strs(r@) == self.env_paths(*task),
    {
        let mut paths: Vec<String> = Vec::new();
        match &task.options.env_files {
            None => {},
            Some(files) => {
                let mut i: usize = 0;
                while i < files.len()
                    invariant
                        0 <= i <= files.len(),
                        paths.len() == i,
                        forall|j: int|
                            0 <= j < i ==> (#[trigger] paths[j])@ == env_file_path(
                                self.context.workspace_root@,
                                self.context.project.source@,
                                files[j]@,
                            ),
                    decreases files.len() - i,
                {
                    paths.push(
                        resolve_env_file(
                            self.context.workspace_root.as_str(),
                            self.context.project.source.as_str(),
                            files[i].as_str(),
                        ),
                    );
                    i += 1;
                }
            },
        }
        assert(strs(paths@) =~= self.env_paths(*task));
        paths
    }

    /// Replaces the task's environment by the expanded one: what the token
    /// expander makes of the declared environment; then the variables of the
    /// task's environment files that the task does not declare; then every value
    /// substituted against the whole. `files` lists the files at
    /// [`Self::env_file_paths`] as they were found, in that order. Any failure
    /// leaves the task as it was.
    pub fn expand_env(&self, task: &mut Task, files: Vec<EnvFile>) -> (r: Result<
        (),
        TasksExpanderError,
    >)
        ensures
            self.env_expanded(*old(task), files@, *final(task), r),
    {
        let ghost paths = self.env_paths(*task);
        let ghost unread = Seq::new(paths.len(), |j: int| fitting_answer(file_at(files@, j)));
        assert(answers_fit(paths.len(), files@, unread)) by {
            assert forall|j: int| 0 <= j < paths.len() implies answer_fits(
                file_at(files@, j),
                #[trigger] unread[j],
            ) by {
                lemma_fitting_answer_fits(file_at(files@, j));
            }
        }
        let declared = self.token.expand_env(task);
        let ghost answered = declared;
        let mut env = match declared {
            Ok(env) => env,
            Err(message) => {
                let r = Err(TasksExpanderError::TokenFailure { message });
                assert(env_matches(
                    r,
                    *old(task),
                    *task,
                    expanded_env(declared_view(answered), paths, unread),
                ));
                return r;
            },
        };
        let at = self.env_file_paths(task);
        let from_files = load_env_files(&at, files);
        let ghost answers = choose|answers: Seq<FileAnswer>|
            answers_fit(paths.len(), files@, answers) && load_matches(
                from_files,
                #[trigger] loaded(paths, answers, paths.len()),
            );
        match from_files {
            Ok(from_files) => {
                fill_absent(&mut env, &from_files);
            },
            Err(e) => {
                let r = Err(e);
                assert(env_matches(
                    r,
                    *old(task),
                    *task,
                    expanded_env(declared_view(answered), paths, answers),
                ));
                return r;
            },
        }
        task.env = substitute_env_vars(&env);
        let r = Ok(());
        assert(env_matches(
            r,
            *old(task),
            *task,
            expanded_env(declared_view(answered), paths, answers),
        ));
        r
    }
}

} // verus!
