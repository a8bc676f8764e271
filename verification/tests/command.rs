use rustc_hash::{FxHashMap, FxHashSet};
use task_expander::args::parse_task_args;
use task_expander::command::{set_args, set_command, set_script};
use task_expander::text::{chars_of, join, same_str, same_strings, sorted_strings, string_le, string_of};
use task_expander::{
    ExpandedResult, ExpanderContext, Project, StrMap, Target, TargetScope, Task, TaskArgs,
    TaskOptions, TasksExpander, TasksExpanderError, TokenExpander,
};

fn env(pairs: &[(&str, &str)]) -> StrMap {
    let mut map = FxHashMap::default();
    for (k, v) in pairs {
        map.insert(k.to_string(), v.to_string());
    }
    map
}

fn strings(items: &[&str]) -> Vec<String> {
    items.iter().map(|s| s.to_string()).collect()
}

fn task(project: &str, id: &str) -> Task {
    Task {
        id: id.to_string(),
        target: Target::new(project, id),
        command: String::new(),
        script: None,
        args: vec![],
        env: FxHashMap::default(),
        deps: vec![],
        inputs: vec![],
        outputs: vec![],
        input_env: FxHashSet::default(),
        input_files: FxHashSet::default(),
        input_globs: FxHashSet::default(),
        output_files: FxHashSet::default(),
        output_globs: FxHashSet::default(),
        options: TaskOptions {
            allow_failure: false,
            run_in_ci: true,
            persistent: false,
            env_files: None,
        },
    }
}

fn project(id: &str) -> Project {
    Project {
        id: id.to_string(),
        alias: None,
        source: format!("projects/{id}"),
        tags: FxHashSet::default(),
        dependencies: vec![],
        tasks: vec![],
    }
}

/// Replaces `@project` by the identifier of the task's project.
struct Tokens {
    fail: bool,
    asked: std::cell::Cell<usize>,
}

impl Tokens {
    fn replace(&self, task: &Task, text: &str) -> Result<String, String> {
        self.asked.set(self.asked.get() + 1);
        if self.fail {
            return Err(format!("unknown token in {text}"));
        }
        let project = match &task.target.scope {
            TargetScope::Project(id) => id.clone(),
            _ => String::new(),
        };
        Ok(text.replace("@project", &project))
    }
}

impl TokenExpander for Tokens {
    fn expand_command(&self, task: &Task) -> Result<String, String> {
        self.replace(task, &task.command)
    }

    fn expand_script(&self, task: &Task) -> Result<String, String> {
        self.replace(task, task.script.as_deref().unwrap_or(""))
    }

    fn expand_args(&self, task: &Task) -> Result<Vec<String>, String> {
        task.args.iter().map(|arg| self.replace(task, arg)).collect()
    }

    fn expand_args_with_task(&self, task: &Task, args: &Vec<String>) -> Result<Vec<String>, String> {
        args.iter().map(|arg| self.replace(task, arg)).collect()
    }

    fn expand_env(&self, task: &Task) -> Result<StrMap, String> {
        Ok(task.env.clone())
    }

    fn expand_env_with_task(&self, _task: &Task, env: &StrMap) -> Result<StrMap, String> {
        Ok(env.clone())
    }

    fn expand_inputs(&self, _task: &Task) -> Result<ExpandedResult, String> {
        Ok(ExpandedResult { env: vec![], files: vec![], globs: vec![] })
    }

    fn expand_outputs(&self, _task: &Task) -> Result<ExpandedResult, String> {
        Ok(ExpandedResult { env: vec![], files: vec![], globs: vec![] })
    }
}

fn with_expander<R>(fail: bool, run: impl FnOnce(&TasksExpander<'_, fn(String) -> Result<Vec<&'static Project>, String>, Tokens>) -> R) -> R {
    fn no_projects(_input: String) -> Result<Vec<&'static Project>, String> {
        Ok(vec![])
    }
    let owner = project("app");
    let context = ExpanderContext {
        project: &owner,
        query: no_projects as fn(String) -> Result<Vec<&'static Project>, String>,
        workspace_root: "/workspace".to_string(),
        check_ci_relationships: true,
    };
    let expander = TasksExpander::new(&context, Tokens { fail, asked: std::cell::Cell::new(0) });
    run(&expander)
}

#[test]
fn new_keeps_context_and_tokens() {
    with_expander(true, |e| {
        assert!(e.token.fail);
        assert_eq!(e.context.project.id, "app");
        assert_eq!(e.context.workspace_root, "/workspace");
        assert!(e.context.check_ci_relationships);
    });
}

#[test]
fn command_tokens_then_variables() {
    let mut a = task("app", "a");
    a.command = "build-@project --mode $MODE --out ${OUT} $LATER".to_string();
    a.env = env(&[("MODE", "release"), ("OUT", "@project")]);
    assert!(with_expander(false, |e| e.expand_command(&mut a)).is_ok());
    assert_eq!(a.command, "build-app --mode release --out @project $LATER");
    assert_eq!(a.env, env(&[("MODE", "release"), ("OUT", "@project")]));
}

#[test]
fn command_token_failure() {
    let mut a = task("app", "a");
    a.command = "build @what".to_string();
    match with_expander(true, |e| e.expand_command(&mut a)) {
        Err(TasksExpanderError::TokenFailure { message }) => {
            assert_eq!(message, "unknown token in build @what")
        }
        other => panic!("unexpected {other:?}"),
    }
    assert_eq!(a.command, "build @what");
}

#[test]
fn script_tokens_then_variables() {
    let mut a = task("app", "a");
    a.script = Some("cd @project && make $TARGET | tee $LOG".to_string());
    a.env = env(&[("TARGET", "all")]);
    assert!(with_expander(false, |e| e.expand_script(&mut a)).is_ok());
    assert_eq!(a.script.as_deref(), Some("cd app && make all | tee $LOG"));
    assert_eq!(a.command, "");
}

#[test]
fn script_token_failure() {
    let mut a = task("app", "a");
    a.script = Some("x".to_string());
    assert!(matches!(
        with_expander(true, |e| e.expand_script(&mut a)),
        Err(TasksExpanderError::TokenFailure { .. })
    ));
    assert_eq!(a.script.as_deref(), Some("x"));
}

#[test]
fn args_tokens_then_variables() {
    let mut a = task("app", "a");
    a.args = strings(&["--project", "@project", "--mode=$MODE", "$UNSET"]);
    a.env = env(&[("MODE", "release")]);
    assert!(with_expander(false, |e| e.expand_args(&mut a)).is_ok());
    assert_eq!(a.args, strings(&["--project", "app", "--mode=release", "$UNSET"]));
}

#[test]
fn empty_args_are_left_alone() {
    let mut a = task("app", "a");
    let asked = with_expander(true, |e| {
        assert!(e.expand_args(&mut a).is_ok());
        e.token.asked.get()
    });
    assert_eq!(asked, 0);
    assert!(a.args.is_empty());
}

#[test]
fn args_token_failure() {
    let mut a = task("app", "a");
    a.args = strings(&["one"]);
    assert!(matches!(
        with_expander(true, |e| e.expand_args(&mut a)),
        Err(TasksExpanderError::TokenFailure { .. })
    ));
    assert_eq!(a.args, strings(&["one"]));
}

#[test]
fn setters_substitute_against_the_task_environment() {
    let mut a = task("app", "a");
    a.env = env(&[("X", "x")]);
    set_command(&mut a, "run $X $Y");
    assert_eq!(a.command, "run x $Y");
    set_script(&mut a, "${X}${X}");
    assert_eq!(a.script.as_deref(), Some("xx"));
    set_args(&mut a, &strings(&["$X", "-$X-", "plain"]));
    assert_eq!(a.args, strings(&["x", "-x-", "plain"]));
    set_args(&mut a, &vec![]);
    assert!(a.args.is_empty());
}

#[test]
fn task_args_as_words() {
    assert_eq!(parse_task_args(&TaskArgs::NoArgs).unwrap(), Vec::<String>::new());
    assert_eq!(parse_task_args(&TaskArgs::List(strings(&["a b", "c"]))).unwrap(), strings(&["a b", "c"]));
    assert_eq!(
        parse_task_args(&TaskArgs::String("a 'b c' \"d\\\"e\" # rest".to_string())).unwrap(),
        strings(&["a", "b c", "d\"e"])
    );
    assert_eq!(parse_task_args(&TaskArgs::String(String::new())).unwrap(), Vec::<String>::new());
    match parse_task_args(&TaskArgs::String("\"open".to_string())) {
        Err(TasksExpanderError::InvalidArgs { args }) => assert_eq!(args, "\"open"),
        other => panic!("unexpected {other:?}"),
    }
}

#[test]
fn targets_are_read_and_written() {
    let cases = [
        (":build", TargetScope::All, "build"),
        ("^:build", TargetScope::Deps, "build"),
        ("~:build", TargetScope::OwnSelf, "build"),
        ("app:build", TargetScope::Project("app".to_string()), "build"),
        ("#tag:build", TargetScope::Tag("tag".to_string()), "build"),
        ("#:build", TargetScope::Tag(String::new()), "build"),
        ("^^:build", TargetScope::Project("^^".to_string()), "build"),
        ("a:b:c", TargetScope::Project("a".to_string()), "b:c"),
        ("~:", TargetScope::OwnSelf, ""),
        ("ñ/é:tâche", TargetScope::Project("ñ/é".to_string()), "tâche"),
    ];
    for (text, scope, task_id) in cases {
        let target = Target::parse(text).unwrap();
        assert_eq!(target, Target { scope, task_id: task_id.to_string() });
        assert_eq!(target.format(), text);
    }
    assert!(Target::parse("no-colon").is_none());
    assert!(Target::parse("").is_none());
    assert_eq!(Target::new("app", "build").format(), "app:build");
    assert_eq!(Target::new("app", "build"), Target::parse("app:build").unwrap());
    assert_ne!(Target::new("app", "build"), Target::new("app", "test"));
    assert_ne!(Target::parse("#app:build").unwrap(), Target::parse("app:build").unwrap());
}

#[test]
fn locators_match_id_alias_and_source() {
    let mut p = project("app");
    p.alias = Some("@scope/app".to_string());
    assert!(p.matches_locator("app"));
    assert!(p.matches_locator("@scope/app"));
    assert!(p.matches_locator("projects/app"));
    assert!(!p.matches_locator("ap"));
    assert!(!p.matches_locator(""));
    p.alias = None;
    assert!(!p.matches_locator("@scope/app"));
}

#[test]
fn first_task_of_an_id_is_found() {
    let mut p = project("app");
    let mut first = task("app", "build");
    first.command = "first".to_string();
    let mut second = task("app", "build");
    second.command = "second".to_string();
    p.tasks = vec![task("app", "lint"), first, second];
    assert_eq!(p.get_task("build").unwrap().command, "first");
    assert_eq!(p.get_task("lint").unwrap().id, "lint");
    assert!(p.get_task("test").is_none());
    let mut t = task("app", "dev");
    assert!(!t.is_persistent());
    t.options.persistent = true;
    assert!(t.is_persistent());
}

#[test]
fn tasks_with_the_same_id_are_told() {
    let mut p = project("app");
    assert!(p.has_distinct_task_ids());
    p.tasks = vec![task("app", "build"), task("app", "lint"), task("app", "test")];
    assert!(p.has_distinct_task_ids());
    p.tasks.push(task("app", "lint"));
    assert!(!p.has_distinct_task_ids());
    p.tasks = vec![task("app", "a"), task("app", "a")];
    assert!(!p.has_distinct_task_ids());
}

#[test]
fn strings_are_ordered_by_their_bytes() {
    assert!(string_le("", ""));
    assert!(string_le("", "a"));
    assert!(!string_le("a", ""));
    assert!(string_le("a", "ab"));
    assert!(!string_le("ab", "a"));
    assert!(string_le("B", "a"));
    assert!(!string_le("a", "B"));
    assert!(string_le("z", "é"));
    assert!(string_le("abc", "abc"));
    let mut expected = strings(&["b", "", "a", "B", "ab", "é", "a"]);
    let sorted = sorted_strings(&expected);
    expected.sort();
    assert_eq!(sorted, expected);
    assert_eq!(sorted, strings(&["", "B", "a", "a", "ab", "b", "é"]));
}

#[test]
fn text_helpers() {
    assert_eq!(chars_of("añ€"), vec!['a', 'ñ', '€']);
    assert_eq!(string_of(&vec!['a', 'ñ', '€', 'b'], 1, 3), "ñ€");
    assert_eq!(string_of(&vec!['a'], 1, 1), "");
    assert!(same_str("añ", "añ") && !same_str("a", "b") && !same_str("a", "ab"));
    assert!(same_strings(&strings(&["a", "b"]), &strings(&["a", "b"])));
    assert!(!same_strings(&strings(&["a", "b"]), &strings(&["b", "a"])));
    assert!(!same_strings(&strings(&["a"]), &strings(&["a", "a"])));
    assert_eq!(join(&strings(&["a", "b", "c"]), ","), "a,b,c");
    assert_eq!(join(&strings(&["a"]), ","), "a");
    assert_eq!(join(&vec![], ","), "");
    assert_eq!(join(&strings(&["", ""]), "--"), "--");
}
