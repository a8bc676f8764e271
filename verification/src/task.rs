//! Tasks, the dependencies they declare, and the projects that own them.

use crate::collections::{map_entries, map_eq, strs, StrMap, StrSet};
use crate::target::{Target, TargetView};
use crate::text::{same_str, same_strings};
use vstd::prelude::*;
use vstd::std_specs::cmp::PartialEqSpecImpl;

verus! {

/// The arguments that a dependency passes to the task it names.
#[derive(Clone, Debug)]
pub enum TaskArgs {
    /// No arguments.
    NoArgs,
    /// A command line, still to be split into words.
    String(String),
    /// A list of words.
    List(Vec<String>),
}

/// The mathematical value of [`TaskArgs`].
pub enum ArgsView {
    NoArgs,
    String(Seq<char>),
    List(Seq<Seq<char>>),
}

impl View for TaskArgs {
    type V = ArgsView;

    open spec fn view(&self) -> ArgsView {
        match self {
            TaskArgs::NoArgs => ArgsView::NoArgs,
            TaskArgs::String(line) => ArgsView::String(line@),
            TaskArgs::List(words) => ArgsView::List(strs(words@)),
        }
    }
}

impl PartialEq for TaskArgs {
    fn eq(&self, other: &Self) -> (r: bool) {
        match (self, other) {
            (TaskArgs::NoArgs, TaskArgs::NoArgs) => true,
            (TaskArgs::String(a), TaskArgs::String(b)) => *a == *b,
            (TaskArgs::List(a), TaskArgs::List(b)) => same_strings(a, b),
            _ => false,
        }
    }
}

impl PartialEqSpecImpl for TaskArgs {
    open spec fn obeys_eq_spec() -> bool {
        true
    }

    open spec fn eq_spec(&self, other: &Self) -> bool {
        self@ == other@
    }
}

/// A dependency of a task on another task: as declared, with a scope that is
/// still to be resolved, or as resolved, with a fully qualified target.
#[derive(Clone, Debug)]
pub struct TaskDependencyConfig {
    pub args: TaskArgs,
    pub env: StrMap,
    /// Whether a missing task is tolerated; unset means "as the scope decides".
    pub optional: Option<bool>,
    pub target: Target,
}

/// The mathematical value of a [`TaskDependencyConfig`].
pub struct DepView {
    pub args: ArgsView,
    pub env: Map<Seq<char>, Seq<char>>,
    pub optional: Option<bool>,
    pub target: TargetView,
}

impl View for TaskDependencyConfig {
    type V = DepView;

    open spec fn view(&self) -> DepView {
        DepView {
            args: self.args@,
            env: map_entries(self.env),
            optional: self.optional,
            target: self.target@,
        }
    }
}

impl PartialEq for TaskDependencyConfig {
    fn eq(&self, other: &Self) -> (r: bool) {
        let same_optional = match (self.optional, other.optional) {
            (None, None) => true,
            (Some(a), Some(b)) => a == b,
            _ => false,
        };
        same_optional && self.target == other.target && self.args == other.args && map_eq(
            &self.env,
            &other.env,
        )
    }
}

impl PartialEqSpecImpl for TaskDependencyConfig {
    open spec fn obeys_eq_spec() -> bool {
        true
    }

    open spec fn eq_spec(&self, other: &Self) -> bool {
        self@ == other@
    }
}

/// The values of a list of dependencies.
pub open spec fn dep_views(deps: Seq<TaskDependencyConfig>) -> Seq<DepView> {
    deps.map_values(|d: TaskDependencyConfig| d@)
}

/// The options of a task that expansion reads.
#[derive(Clone, Debug)]
pub struct TaskOptions {
    /// The task may fail without failing the run.
    pub allow_failure: bool,
    /// The task runs in CI.
    pub run_in_ci: bool,
    /// The task is long-running and does not end by itself.
    pub persistent: bool,
    /// Environment files to load, relative to the project's source.
    pub env_files: Option<Vec<String>>,
}

/// A task of a project.
#[derive(Debug)]
pub struct Task {
    pub id: String,
    pub target: Target,
    pub command: String,
    pub script: Option<String>,
    pub args: Vec<String>,
    pub env: StrMap,
    pub deps: Vec<TaskDependencyConfig>,
    pub inputs: Vec<String>,
    pub outputs: Vec<String>,
    pub input_env: StrSet,
    pub input_files: StrSet,
    pub input_globs: StrSet,
    pub output_files: StrSet,
    pub output_globs: StrSet,
    pub options: TaskOptions,
}

impl Task {
    /// Whether the task is long-running.
    pub fn is_persistent(&self) -> (r: bool)
        ensures
            r == self.options.persistent,
    {
        self.options.persistent
    }
}

/// The first position at or after `from` of a task with identifier `id`.
pub open spec fn task_position(tasks: Seq<Task>, id: Seq<char>, from: int) -> Option<int>
    decreases tasks.len() - from,
{
    if from < 0 || from >= tasks.len() {
        None
    } else if tasks[from].id@ == id {
        Some(from)
    } else {
        task_position(tasks, id, from + 1)
    }
}

/// The task of `tasks` with identifier `id`: the first one, if there are several.
pub open spec fn find_task(tasks: Seq<Task>, id: Seq<char>) -> Option<Task> {
    match task_position(tasks, id, 0) {
        Some(i) => Some(tasks[i]),
        None => None,
    }
}

/// A project: a named group of tasks.
#[derive(Debug)]
pub struct Project {
    pub id: String,
    /// Another name under which the project can be addressed.
    pub alias: Option<String>,
    /// The project's directory, relative to the workspace root.
    pub source: String,
    pub tags: StrSet,
    /// The identifiers of the projects that this one depends on directly.
    pub dependencies: Vec<String>,
    /// The project's tasks, each under its identifier: see
    /// [`Project::task_ids_distinct`].
    pub tasks: Vec<Task>,
}

/// Whether no two of `tasks` have the same identifier.
pub open spec fn ids_distinct(tasks: Seq<Task>) -> bool {
    forall|i: int, j: int|
        0 <= i < j < tasks.len() ==> (#[trigger] tasks[i]).id@ != (#[trigger] tasks[j]).id@
}

proof fn lemma_position_of_task(tasks: Seq<Task>, i: int, from: int)
    requires
        ids_distinct(tasks),
        0 <= from <= i < tasks.len(),
    ensures
        task_position(tasks, tasks[i].id@, from) == Some(i),
    decreases i - from,
{
    if from < i {
        lemma_position_of_task(tasks, i, from + 1);
    }
}

/// Where no two tasks share an identifier, the tasks are a mapping from
/// identifiers to tasks: each task is the one that is found under its
/// identifier.
pub proof fn lemma_task_found_under_its_id(tasks: Seq<Task>, i: int)
    requires
        ids_distinct(tasks),
        0 <= i < tasks.len(),
    ensures
        find_task(tasks, tasks[i].id@) == Some(tasks[i]),
{
    lemma_position_of_task(tasks, i, 0);
}

/// Whether a locator addresses the project with this identifier, alias and source
/// path.
pub open spec fn locator_matches(
    id: Seq<char>,
    alias: Option<Seq<char>>,
    source: Seq<char>,
    locator: Seq<char>,
) -> bool {
    locator == id || alias == Some(locator) || locator == source
}

impl Project {
    /// Whether the project's tasks are a mapping from identifiers to tasks: no two
    /// of them have the same identifier.
    pub open spec fn task_ids_distinct(&self) -> bool {
        ids_distinct(self.tasks@)
    }

    /// Checks that no two tasks of the project have the same identifier.
    pub fn has_distinct_task_ids(&self) -> (r: bool)
        ensures
            r == self.task_ids_distinct(),
    {
        let mut j: usize = 0;
        while j < self.tasks.len()
            invariant
                0 <= j <= self.tasks.len(),
                ids_distinct(self.tasks@.take(j as int)),
            decreases self.tasks.len() - j,
        {
            let mut i: usize = 0;
            while i < j
                invariant
                    0 <= i <= j < self.tasks.len(),
                    ids_distinct(self.tasks@.take(j as int)),
                    forall|a: int|
                        0 <= a < i ==> (#[trigger] self.tasks@[a]).id@ != self.tasks@[j as int].id@,
                decreases j - i,
            {
                if same_str(self.tasks[i].id.as_str(), self.tasks[j].id.as_str()) {
                    return false;
                }
                i += 1;
            }
            assert(ids_distinct(self.tasks@.take(j + 1))) by {
                let now = self.tasks@.take(j + 1);
                let before = self.tasks@.take(j as int);
                assert forall|a: int, b: int| 0 <= a < b < now.len() implies (#[trigger] now[a]).id@
                    != (#[trigger] now[b]).id@ by {
                    if b < j {
                        assert(before[a].id@ != before[b].id@);
                    }
                }
            }
            j += 1;
        }
        assert(self.tasks@.take(self.tasks@.len() as int) =~= self.tasks@);
        true
    }

    /// The project's alias as a character sequence.
    pub open spec fn alias_view(&self) -> Option<Seq<char>> {
        match self.alias {
            Some(a) => Some(a@),
            None => None,
        }
    }

    /// Whether `locator` addresses this project.
    pub open spec fn matches(&self, locator: Seq<char>) -> bool {
        locator_matches(self.id@, self.alias_view(), self.source@, locator)
    }

    /// Whether `locator` addresses this project: by its identifier, its alias or
    /// its source path.
    pub fn matches_locator(&self, locator: &str) -> (r: bool)
        ensures
            r == self.matches(locator@),
    {
        if same_str(self.id.as_str(), locator) {
            return true;
        }
        let by_alias = match &self.alias {
            Some(a) => same_str(a.as_str(), locator),
            None => false,
        };
        by_alias || same_str(self.source.as_str(), locator)
    }

    /// The task with identifier `id`, if the project has one.
    pub fn get_task(&self, id: &str) -> (r: Option<&Task>)
        ensures
            match r {
                Some(t) => find_task(self.tasks@, id@) == Some(*t),
                None => find_task(self.tasks@, id@) is None,
            },
    {
        let mut i: usize = 0;
        while i < self.tasks.len()
            invariant
                0 <= i <= self.tasks.len(),
                task_position(self.tasks@, id@, 0) == task_position(self.tasks@, id@, i as int),
            decreases self.tasks.len() - i,
        {
            if same_str(self.tasks[i].id.as_str(), id) {
                return Some(&self.tasks[i]);
            }
            i += 1;
        }
        None
    }
}

/// What a list of patterns stands for once its tokens are resolved.
#[derive(Clone, Debug)]
pub struct ExpandedResult {
    /// Names of environment variables.
    pub env: Vec<String>,
    /// Literal file paths.
    pub files: Vec<String>,
    /// Glob patterns.
    pub globs: Vec<String>,
}

} // verus!
