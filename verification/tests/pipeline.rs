use rustc_hash::{FxHashMap, FxHashSet};
use task_expander::{
    EnvFile, ExpandedResult, ExpanderContext, Project, StrMap, StrSet, Target, Task, TaskArgs,
    TaskDependencyConfig, TaskOptions, TasksExpander, TasksExpanderError, TokenExpander,
};

fn env(pairs: &[(&str, &str)]) -> StrMap {
    let mut map = FxHashMap::default();
    for (k, v) in pairs {
        map.insert(k.to_string(), v.to_string());
    }
    map
}

fn set(items: &[&str]) -> StrSet {
    items.iter().map(|s| s.to_string()).collect()
}

fn strings(items: &[&str]) -> Vec<String> {
    items.iter().map(|s| s.to_string()).collect()
}

fn task(project: &str, id: &str) -> Task {
    Task {
        id: id.to_string(),
        target: Target::new(project, id),
        command: String::new(),
        script: None,
        args: vec![],
        env: FxHashMap::default(),
        deps: vec![],
        inputs: vec![],
        outputs: vec![],
        input_env: FxHashSet::default(),
        input_files: FxHashSet::default(),
        input_globs: FxHashSet::default(),
        output_files: FxHashSet::default(),
        output_globs: FxHashSet::default(),
        options: TaskOptions {
            allow_failure: false,
            run_in_ci: true,
            persistent: false,
            env_files: None,
        },
    }
}

/// Replaces `@ws` by the workspace root; fails on the text `@fail`. Patterns with
/// `*` are globs, patterns that begin with `$` environment variables.
struct Tokens {
    calls: std::cell::RefCell<Vec<&'static str>>,
}

impl Tokens {
    fn replace(&self, step: &'static str, text: &str) -> Result<String, String> {
        self.calls.borrow_mut().push(step);
        if text.contains("@fail") {
            Err(format!("{step}: cannot expand {text}"))
        } else {
            Ok(text.replace("@ws", "/workspace"))
        }
    }

    fn classify(&self, step: &'static str, patterns: &Vec<String>) -> Result<ExpandedResult, String> {
        let mut result = ExpandedResult { env: vec![], files: vec![], globs: vec![] };
        for pattern in patterns {
            let pattern = self.replace(step, pattern)?;
            if let Some(name) = pattern.strip_prefix('$') {
                result.env.push(name.to_string());
            } else if pattern.contains('*') {
                result.globs.push(pattern);
            } else {
                result.files.push(pattern);
            }
        }
        Ok(result)
    }
}

impl TokenExpander for Tokens {
    fn expand_command(&self, task: &Task) -> Result<String, String> {
        self.replace("command", &task.command)
    }

    fn expand_script(&self, task: &Task) -> Result<String, String> {
        self.replace("script", task.script.as_deref().unwrap_or(""))
    }

    fn expand_args(&self, task: &Task) -> Result<Vec<String>, String> {
        task.args.iter().map(|arg| self.replace("args", arg)).collect()
    }

    fn expand_args_with_task(&self, _task: &Task, args: &Vec<String>) -> Result<Vec<String>, String> {
        args.iter().map(|arg| self.replace("dep args", arg)).collect()
    }

    fn expand_env(&self, task: &Task) -> Result<StrMap, String> {
        let mut out = FxHashMap::default();
        for (key, value) in &task.env {
            out.insert(key.clone(), self.replace("env", value)?);
        }
        Ok(out)
    }

    fn expand_env_with_task(&self, _task: &Task, env: &StrMap) -> Result<StrMap, String> {
        let mut out = FxHashMap::default();
        for (key, value) in env {
            out.insert(key.clone(), self.replace("dep env", value)?);
        }
        Ok(out)
    }

    fn expand_inputs(&self, task: &Task) -> Result<ExpandedResult, String> {
        self.classify("inputs", &task.inputs)
    }

    fn expand_outputs(&self, task: &Task) -> Result<ExpandedResult, String> {
        self.classify("outputs", &task.outputs)
    }
}

fn declared() -> Task {
    let mut a = task("app", "build");
    a.command = "tsc --outDir @ws/$OUT".to_string();
    a.args = strings(&["--project", "$PROJECT", "@ws"]);
    a.env = env(&[("OUT", "dist"), ("PROJECT", "@ws/app"), ("FULL", "$PROJECT/$OUT")]);
    a.deps = vec![
        TaskDependencyConfig {
            args: TaskArgs::String("--quiet".to_string()),
            env: env(&[("LEVEL", "@ws")]),
            optional: None,
            target: Target::parse("~:lint").unwrap(),
        },
        TaskDependencyConfig {
            args: TaskArgs::NoArgs,
            env: FxHashMap::default(),
            optional: None,
            target: Target::parse("~:build").unwrap(),
        },
    ];
    a.inputs = strings(&["src/**/*.ts", "dist/index.js", "$NODE_ENV"]);
    a.outputs = strings(&["dist/index.js", "dist/**/*.map"]);
    a.options.env_files = Some(strings(&[".env", ".env.local"]));
    a
}

fn expand(task: &mut Task, files: Vec<EnvFile>) -> (Result<(), TasksExpanderError>, Vec<&'static str>) {
    let owner = Project {
        id: "app".to_string(),
        alias: None,
        source: "apps/app".to_string(),
        tags: FxHashSet::default(),
        dependencies: vec![],
        tasks: vec![self::task("app", "lint"), self::task("app", "build")],
    };
    let context = ExpanderContext {
        project: &owner,
        query: |_input: String| -> Result<Vec<&Project>, String> { Ok(vec![]) },
        workspace_root: "/workspace".to_string(),
        check_ci_relationships: true,
    };
    let expander = TasksExpander::new(&context, Tokens { calls: std::cell::RefCell::new(vec![]) });
    assert_eq!(
        expander.env_file_paths(task),
        match &task.options.env_files {
            Some(files) => files.iter().map(|f| format!("/workspace/apps/app/{f}")).collect(),
            None => Vec::<String>::new(),
        }
    );
    let result = expander.expand(task, files);
    let mut calls = expander.token.calls.borrow().clone();
    calls.dedup();
    (result, calls)
}

#[test]
fn whole_task_is_expanded_step_by_step() {
    let mut a = declared();
    let files = vec![EnvFile::Content(b"OUT=from-file\nMODE=dev\n".to_vec()), EnvFile::Missing];
    let (result, calls) = expand(&mut a, files);
    assert!(result.is_ok());
    assert_eq!(calls, vec!["command", "args", "dep env", "dep args", "env", "inputs", "outputs"]);
    // The command and the arguments see the environment as declared.
    assert_eq!(a.command, "tsc --outDir /workspace/dist");
    assert_eq!(a.script, None);
    assert_eq!(a.args, strings(&["--project", "@ws/app", "/workspace"]));
    assert_eq!(
        a.deps,
        vec![TaskDependencyConfig {
            args: TaskArgs::List(strings(&["--quiet"])),
            env: env(&[("LEVEL", "/workspace")]),
            optional: None,
            target: Target::new("app", "lint"),
        }]
    );
    assert_eq!(
        a.env,
        env(&[
            ("OUT", "dist"),
            ("PROJECT", "/workspace/app"),
            ("FULL", "/workspace/app/dist"),
            ("MODE", "dev")
        ])
    );
    assert_eq!(a.input_env, set(&["NODE_ENV"]));
    assert_eq!(a.input_globs, set(&["src/**/*.ts"]));
    assert!(a.input_files.is_empty());
    assert_eq!(a.output_files, set(&["dist/index.js"]));
    assert_eq!(a.output_globs, set(&["dist/**/*.map"]));
}

#[test]
fn script_is_expanded_where_there_is_one() {
    let mut a = task("app", "build");
    a.script = Some("cd @ws && make $TARGET".to_string());
    a.env = env(&[("TARGET", "all")]);
    let (result, calls) = expand(&mut a, vec![]);
    assert!(result.is_ok());
    assert_eq!(calls, vec!["command", "script", "env"]);
    assert_eq!(a.script.as_deref(), Some("cd /workspace && make all"));
}

#[test]
fn first_failing_step_ends_the_expansion() {
    let mut a = declared();
    a.env.insert("BROKEN".to_string(), "@fail".to_string());
    let (result, calls) = expand(&mut a, vec![]);
    match result {
        Err(TasksExpanderError::TokenFailure { message }) => {
            assert_eq!(message, "env: cannot expand @fail")
        }
        other => panic!("unexpected {other:?}"),
    }
    assert_eq!(calls, vec!["command", "args", "dep env", "dep args", "env"]);
    // What the earlier steps did stays; the failed step and the later ones changed nothing.
    assert_eq!(a.command, "tsc --outDir /workspace/dist");
    assert_eq!(a.deps.len(), 1);
    assert_eq!(a.env.get("PROJECT").map(String::as_str), Some("@ws/app"));
    assert!(a.input_globs.is_empty() && a.output_files.is_empty());
}

#[test]
fn failing_command_changes_nothing() {
    let mut a = declared();
    a.command = "@fail".to_string();
    let (result, calls) = expand(&mut a, vec![]);
    assert!(matches!(result, Err(TasksExpanderError::TokenFailure { .. })));
    assert_eq!(calls, vec!["command"]);
    assert_eq!(a.args, strings(&["--project", "$PROJECT", "@ws"]));
    assert_eq!(a.deps.len(), 2);
}

#[test]
fn invalid_environment_file_ends_the_expansion() {
    let mut a = declared();
    let files = vec![EnvFile::Missing, EnvFile::Content(b"NOT A PAIR".to_vec())];
    let (result, calls) = expand(&mut a, files);
    match result {
        Err(TasksExpanderError::InvalidEnvFile { path, .. }) => {
            assert_eq!(path, "/workspace/apps/app/.env.local")
        }
        other => panic!("unexpected {other:?}"),
    }
    assert_eq!(calls, vec!["command", "args", "dep env", "dep args", "env"]);
    assert_eq!(a.env, declared().env);
}
