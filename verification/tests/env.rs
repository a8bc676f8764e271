use rustc_hash::{FxHashMap, FxHashSet};
use task_expander::env_file::{
    fill_absent, insert_pairs, load_env_files, merge_files, merge_parsed, parse_env_files,
    resolve_env_file,
};
use task_expander::substitute::{substitute_env_var, substitute_env_vars};
use task_expander::{
    EnvFile, ExpandedResult, ExpanderContext, Project, StrMap, Target, Task, TaskOptions,
    TasksExpander, TasksExpanderError, TokenExpander,
};

fn env(pairs: &[(&str, &str)]) -> StrMap {
    let mut map = FxHashMap::default();
    for (k, v) in pairs {
        map.insert(k.to_string(), v.to_string());
    }
    map
}

fn task(project: &str, id: &str) -> Task {
    Task {
        id: id.to_string(),
        target: Target::new(project, id),
        command: String::new(),
        script: None,
        args: vec![],
        env: FxHashMap::default(),
        deps: vec![],
        inputs: vec![],
        outputs: vec![],
        input_env: FxHashSet::default(),
        input_files: FxHashSet::default(),
        input_globs: FxHashSet::default(),
        output_files: FxHashSet::default(),
        output_globs: FxHashSet::default(),
        options: TaskOptions {
            allow_failure: false,
            run_in_ci: true,
            persistent: false,
            env_files: None,
        },
    }
}

fn project(id: &str) -> Project {
    Project {
        id: id.to_string(),
        alias: None,
        source: format!("projects/{id}"),
        tags: FxHashSet::default(),
        dependencies: vec![],
        tasks: vec![],
    }
}

fn present(content: &str) -> EnvFile {
    EnvFile::Content(content.as_bytes().to_vec())
}

fn unreadable(reason: &str) -> EnvFile {
    EnvFile::Unreadable(dotenvy::Error::Io(std::io::Error::new(
        std::io::ErrorKind::PermissionDenied,
        reason.to_string(),
    )))
}

fn strings(items: &[&str]) -> Vec<String> {
    items.iter().map(|s| s.to_string()).collect()
}

/// Replaces `@root` by a fixed directory.
struct Tokens {
    fail: bool,
}

impl TokenExpander for Tokens {
    fn expand_command(&self, task: &Task) -> Result<String, String> {
        Ok(task.command.clone())
    }

    fn expand_script(&self, task: &Task) -> Result<String, String> {
        Ok(task.script.clone().unwrap_or_default())
    }

    fn expand_args(&self, task: &Task) -> Result<Vec<String>, String> {
        Ok(task.args.clone())
    }

    fn expand_args_with_task(&self, _task: &Task, args: &Vec<String>) -> Result<Vec<String>, String> {
        Ok(args.clone())
    }

    fn expand_env(&self, task: &Task) -> Result<StrMap, String> {
        self.expand_env_with_task(task, &task.env)
    }

    fn expand_env_with_task(&self, _task: &Task, env: &StrMap) -> Result<StrMap, String> {
        if self.fail {
            return Err("no tokens today".to_string());
        }
        Ok(env.iter().map(|(k, v)| (k.clone(), v.replace("@root", "/workspace"))).collect())
    }

    fn expand_inputs(&self, _task: &Task) -> Result<ExpandedResult, String> {
        Ok(ExpandedResult { env: vec![], files: vec![], globs: vec![] })
    }

    fn expand_outputs(&self, _task: &Task) -> Result<ExpandedResult, String> {
        Ok(ExpandedResult { env: vec![], files: vec![], globs: vec![] })
    }
}

fn expand_env(task: &mut Task, files: Vec<EnvFile>, fail: bool) -> Result<(), TasksExpanderError> {
    let owner = project("app");
    let context = ExpanderContext {
        project: &owner,
        query: |_input: String| -> Result<Vec<&Project>, String> { Ok(vec![]) },
        workspace_root: "/workspace".to_string(),
        check_ci_relationships: true,
    };
    TasksExpander::new(&context, Tokens { fail }).expand_env(task, files)
}

#[test]
fn env_tokens_and_variables_are_resolved() {
    let mut a = task("app", "a");
    a.env = env(&[("ROOT", "@root"), ("BIN", "$ROOT/bin"), ("PATH", "${BIN}:$PATH"), ("SELF", "$SELF/x")]);
    assert!(expand_env(&mut a, vec![], false).is_ok());
    assert_eq!(
        a.env,
        env(&[
            ("ROOT", "/workspace"),
            ("BIN", "/workspace/bin"),
            ("PATH", "$ROOT/bin:$PATH"),
            ("SELF", "$SELF/x")
        ])
    );
}

#[test]
fn env_precedence() {
    let mut a = task("app", "a");
    a.env = env(&[("KEY", "from-task")]);
    a.options.env_files = Some(vec![".env".to_string()]);
    let sources = vec![present("KEY=from-file\nOTHER=other\n")];
    assert!(expand_env(&mut a, sources, false).is_ok());
    assert_eq!(a.env, env(&[("KEY", "from-task"), ("OTHER", "other")]));
}

#[test]
fn later_file_overwrites_earlier() {
    let mut a = task("app", "a");
    a.options.env_files = Some(vec![".env".to_string(), ".env.local".to_string()]);
    let sources = vec![present("A=1\nB=1\n"), present("B=2\nC=2\n")];
    assert!(expand_env(&mut a, sources, false).is_ok());
    assert_eq!(a.env, env(&[("A", "1"), ("B", "2"), ("C", "2")]));
}

#[test]
fn variables_from_files_take_part_in_substitution() {
    let mut a = task("app", "a");
    a.env = env(&[("URL", "http://$HOST:$PORT")]);
    a.options.env_files = Some(vec![".env".to_string()]);
    let sources = vec![present("HOST=localhost\nPORT=8080\n")];
    assert!(expand_env(&mut a, sources, false).is_ok());
    assert_eq!(
        a.env,
        env(&[("URL", "http://localhost:8080"), ("HOST", "localhost"), ("PORT", "8080")])
    );
}

#[test]
fn missing_file_tolerance() {
    let mut a = task("app", "a");
    a.env = env(&[("KEY", "value")]);
    a.options.env_files = Some(vec![".env".to_string()]);
    assert!(expand_env(&mut a, vec![EnvFile::Missing], false).is_ok());
    assert_eq!(a.env, env(&[("KEY", "value")]));
    // A list of files that ends early stands for missing files too.
    assert!(expand_env(&mut a, vec![], false).is_ok());
    assert_eq!(a.env, env(&[("KEY", "value")]));
}

#[test]
fn missing_file_among_present_ones_adds_nothing() {
    let mut a = task("app", "a");
    a.options.env_files = Some(vec!["a".to_string(), "b".to_string(), "c".to_string()]);
    let sources = vec![present("A=1"), EnvFile::Missing, present("C=3")];
    assert!(expand_env(&mut a, sources, false).is_ok());
    assert_eq!(a.env, env(&[("A", "1"), ("C", "3")]));
}

#[test]
fn malformed_file_failure() {
    let mut a = task("app", "a");
    a.env = env(&[("KEY", "value $OTHER")]);
    a.options.env_files = Some(vec!["good".to_string(), "bad".to_string()]);
    let sources = vec![present("OTHER=other\n"), present("FINE=1\nnot a pair\n")];
    match expand_env(&mut a, sources, false) {
        Err(TasksExpanderError::InvalidEnvFile { path, error }) => {
            assert_eq!(path, "/workspace/projects/app/bad");
            assert!(matches!(error, dotenvy::Error::LineParse(_, _)));
        }
        other => panic!("unexpected {other:?}"),
    }
    // Nothing of either file is merged.
    assert_eq!(a.env, env(&[("KEY", "value $OTHER")]));
}

#[test]
fn files_are_not_read_into_a_task_that_names_none() {
    let mut a = task("app", "a");
    a.env = env(&[("KEY", "value")]);
    let sources = vec![present("OTHER=other\n"), present("not a pair")];
    assert!(expand_env(&mut a, sources, false).is_ok());
    assert_eq!(a.env, env(&[("KEY", "value")]));
}

#[test]
fn token_failure_leaves_the_environment() {
    let mut a = task("app", "a");
    a.env = env(&[("ROOT", "@root")]);
    match expand_env(&mut a, vec![], true) {
        Err(TasksExpanderError::TokenFailure { message }) => assert_eq!(message, "no tokens today"),
        other => panic!("unexpected {other:?}"),
    }
    assert_eq!(a.env, env(&[("ROOT", "@root")]));
}

#[test]
fn env_file_syntax_is_that_of_dotenv() {
    let sources = vec![present(
        "# comment\nPLAIN=plain\nQUOTED=\"two words\"\nSINGLE='$literal'\nexport EXPORTED=yes\nEMPTY=\n",
    )];
    let loaded = load_env_files(&strings(&[".env"]), sources).unwrap();
    assert_eq!(
        loaded,
        env(&[
            ("PLAIN", "plain"),
            ("QUOTED", "two words"),
            ("SINGLE", "$literal"),
            ("EXPORTED", "yes"),
            ("EMPTY", "")
        ])
    );
}

#[test]
fn load_without_files_is_empty() {
    assert_eq!(load_env_files(&vec![], vec![]).unwrap(), env(&[]));
    assert_eq!(
        load_env_files(&strings(&["a", "b"]), vec![EnvFile::Missing, EnvFile::Missing]).unwrap(),
        env(&[])
    );
    assert_eq!(load_env_files(&strings(&["a", "b"]), vec![]).unwrap(), env(&[]));
    // Files beyond the paths belong to no path.
    assert_eq!(load_env_files(&vec![], vec![present("A=1"), present("'")]).unwrap(), env(&[]));
}

#[test]
fn load_reports_the_first_invalid_file() {
    let sources = vec![present("A=1"), present("'"), present("=")];
    match load_env_files(&strings(&["one", "two", "three"]), sources) {
        Err(TasksExpanderError::InvalidEnvFile { path, .. }) => assert_eq!(path, "two"),
        other => panic!("unexpected {other:?}"),
    }
}

#[test]
fn load_rejects_bytes_that_are_not_text() {
    let sources = vec![EnvFile::Content(vec![0xff, 0xfe, b'='])];
    match load_env_files(&strings(&["binary"]), sources) {
        Err(TasksExpanderError::InvalidEnvFile { path, error }) => {
            assert_eq!(path, "binary");
            assert!(matches!(error, dotenvy::Error::Io(_)));
        }
        other => panic!("unexpected {other:?}"),
    }
}

#[test]
fn unreadable_file_is_invalid_with_its_error() {
    let mut a = task("app", "a");
    a.env = env(&[("KEY", "value")]);
    a.options.env_files = Some(strings(&["first", "locked", "bad"]));
    let sources = vec![present("A=1"), unreadable("no access"), present("not a pair")];
    match expand_env(&mut a, sources, false) {
        Err(TasksExpanderError::InvalidEnvFile { path, error }) => {
            assert_eq!(path, "/workspace/projects/app/locked");
            match error {
                dotenvy::Error::Io(e) => {
                    assert_eq!(e.kind(), std::io::ErrorKind::PermissionDenied);
                    assert_eq!(e.to_string(), "no access");
                }
                other => panic!("unexpected {other:?}"),
            }
        }
        other => panic!("unexpected {other:?}"),
    }
    assert_eq!(a.env, env(&[("KEY", "value")]));
}

#[test]
fn token_failure_comes_before_any_file() {
    let mut a = task("app", "a");
    a.env = env(&[("ROOT", "@root")]);
    a.options.env_files = Some(strings(&["locked", "bad"]));
    let sources = vec![unreadable("no access"), present("not a pair")];
    assert!(matches!(
        expand_env(&mut a, sources, true),
        Err(TasksExpanderError::TokenFailure { .. })
    ));
}

#[test]
fn invalid_file_carries_the_error_of_the_parser() {
    let mut a = task("app", "a");
    a.options.env_files = Some(strings(&["bad"]));
    match expand_env(&mut a, vec![present("GOOD=1\nBAD LINE\n")], false) {
        Err(TasksExpanderError::InvalidEnvFile { path, error }) => {
            assert_eq!(path, "/workspace/projects/app/bad");
            match error {
                dotenvy::Error::LineParse(line, index) => {
                    assert_eq!(line, "BAD LINE");
                    assert_eq!(index, 4);
                }
                other => panic!("unexpected {other:?}"),
            }
        }
        other => panic!("unexpected {other:?}"),
    }
    assert!(a.env.is_empty());
}

#[test]
fn merge_parsed_inserts_pairs_or_reports_the_file() {
    let mut map = env(&[("A", "old")]);
    let pairs = vec![("A".to_string(), "new".to_string()), ("B".to_string(), "b".to_string())];
    assert!(merge_parsed(&mut map, "p", Ok(pairs)).is_ok());
    assert_eq!(map, env(&[("A", "new"), ("B", "b")]));
    let error = dotenvy::Error::LineParse("x y".to_string(), 2);
    match merge_parsed(&mut map, "some/.env", Err(error)) {
        Err(TasksExpanderError::InvalidEnvFile { path, error }) => {
            assert_eq!(path, "some/.env");
            assert!(matches!(error, dotenvy::Error::LineParse(line, 2) if line == "x y"));
        }
        other => panic!("unexpected {other:?}"),
    }
    assert_eq!(map, env(&[("A", "new"), ("B", "b")]));
}

fn pairs(items: &[(&str, &str)]) -> Vec<(String, String)> {
    items.iter().map(|(k, v)| (k.to_string(), v.to_string())).collect()
}

#[test]
fn merge_files_lets_later_files_win() {
    let parsed = vec![
        Some(Ok(pairs(&[("A", "1"), ("B", "1")]))),
        None,
        Some(Ok(pairs(&[("B", "2"), ("C", "2"), ("B", "3")]))),
    ];
    let merged = merge_files(&strings(&["one", "two", "three"]), parsed).unwrap();
    assert_eq!(merged, env(&[("A", "1"), ("B", "3"), ("C", "2")]));
    assert_eq!(merge_files(&vec![], vec![]).unwrap(), env(&[]));
    // A list that ends early stands for missing files; entries beyond the paths are left.
    assert_eq!(
        merge_files(&strings(&["one", "two"]), vec![Some(Ok(pairs(&[("A", "1")])))]).unwrap(),
        env(&[("A", "1")])
    );
    assert_eq!(
        merge_files(&strings(&["one"]), vec![None, Some(Ok(pairs(&[("A", "1")])))]).unwrap(),
        env(&[])
    );
}

#[test]
fn merge_files_fails_with_the_first_error() {
    let parsed = vec![
        Some(Ok(pairs(&[("A", "1")]))),
        Some(Err(dotenvy::Error::LineParse("first".to_string(), 1))),
        Some(Err(dotenvy::Error::LineParse("second".to_string(), 2))),
    ];
    match merge_files(&strings(&["one", "two", "three"]), parsed) {
        Err(TasksExpanderError::InvalidEnvFile { path, error }) => {
            assert_eq!(path, "two");
            assert!(matches!(error, dotenvy::Error::LineParse(line, 1) if line == "first"));
        }
        other => panic!("unexpected {other:?}"),
    }
    // An error beyond the paths belongs to no file.
    let parsed = vec![None, Some(Err(dotenvy::Error::LineParse("x".to_string(), 0)))];
    assert_eq!(merge_files(&strings(&["one"]), parsed).unwrap(), env(&[]));
}

#[test]
fn files_are_parsed_up_to_the_first_failure() {
    let files = vec![
        present("A=1\nB='two words'\n"),
        EnvFile::Missing,
        present("C=3"),
        present("broken line"),
        present("D=4"),
    ];
    let parsed = parse_env_files(files, 5);
    assert_eq!(parsed.len(), 4);
    assert!(parsed[0].as_ref().unwrap().is_ok());
    assert!(parsed[3].as_ref().unwrap().is_err());
    // An unquoted value with a space is no declaration.
    let parsed = parse_env_files(vec![present("B=two words"), present("C=3")], 2);
    assert_eq!(parsed.len(), 1);
    assert!(parsed[0].as_ref().unwrap().is_err());
    let files = vec![present("A=1\nA=2\n# note\nB=\n"), EnvFile::Missing, present("C=3"), present("x y")];
    let parsed = parse_env_files(files, 3);
    assert_eq!(parsed.len(), 3);
    assert_eq!(parsed[0].as_ref().unwrap().as_ref().unwrap(), &pairs(&[("A", "1"), ("A", "2"), ("B", "")]));
    assert!(parsed[1].is_none());
    assert_eq!(parsed[2].as_ref().unwrap().as_ref().unwrap(), &pairs(&[("C", "3")]));
    let parsed = parse_env_files(vec![unreadable("locked"), present("A=1")], 2);
    assert_eq!(parsed.len(), 1);
    assert!(matches!(parsed[0], Some(Err(dotenvy::Error::Io(_)))));
    assert!(parse_env_files(vec![present("A=1")], 0).is_empty());
    assert!(parse_env_files(vec![], 3).is_empty());
}

#[test]
fn names_of_the_files_are_names_of_the_environment() {
    let mut a = task("app", "a");
    a.env = env(&[("OWN", "own"), ("BOTH", "task")]);
    a.options.env_files = Some(strings(&["one", "two", "three"]));
    let sources = vec![present("BOTH=file\nONE=1\n"), EnvFile::Missing, present("ONE=one\nTHREE=$OWN\n")];
    assert!(expand_env(&mut a, sources, false).is_ok());
    let mut names: Vec<&str> = a.env.keys().map(String::as_str).collect();
    names.sort();
    assert_eq!(names, vec!["BOTH", "ONE", "OWN", "THREE"]);
    assert_eq!(a.env.get("BOTH").map(String::as_str), Some("task"));
    assert_eq!(a.env.get("ONE").map(String::as_str), Some("one"));
}

#[test]
fn insert_pairs_lets_later_pairs_win() {
    let mut map = env(&[("A", "old"), ("Z", "kept")]);
    let pairs = vec![
        ("A".to_string(), "1".to_string()),
        ("B".to_string(), "1".to_string()),
        ("A".to_string(), "2".to_string()),
    ];
    insert_pairs(&mut map, &pairs);
    assert_eq!(map, env(&[("A", "2"), ("B", "1"), ("Z", "kept")]));
}

#[test]
fn fill_absent_keeps_present_values() {
    let mut map = env(&[("A", "mine"), ("B", "")]);
    fill_absent(&mut map, &env(&[("A", "theirs"), ("B", "theirs"), ("C", "theirs")]));
    assert_eq!(map, env(&[("A", "mine"), ("B", ""), ("C", "theirs")]));
}

#[test]
fn env_file_paths_are_under_source_and_root() {
    assert_eq!(resolve_env_file("/workspace", "projects/app", ".env"), "/workspace/projects/app/.env");
    assert_eq!(resolve_env_file("/workspace", "", ".env"), "/workspace/.env");
    assert_eq!(resolve_env_file("", "app", ".env.local"), "app/.env.local");
    let owner = project("app");
    let context = ExpanderContext {
        project: &owner,
        query: |_input: String| -> Result<Vec<&Project>, String> { Ok(vec![]) },
        workspace_root: "/workspace".to_string(),
        check_ci_relationships: true,
    };
    let expander = TasksExpander::new(&context, Tokens { fail: false });
    let mut a = task("app", "a");
    assert!(expander.env_file_paths(&a).is_empty());
    a.options.env_files = Some(vec![".env".to_string(), "config/.env.test".to_string()]);
    assert_eq!(
        expander.env_file_paths(&a),
        vec!["/workspace/projects/app/.env", "/workspace/projects/app/config/.env.test"]
    );
}

#[test]
fn substitution_replaces_known_variables_only() {
    let map = env(&[("FOO", "foo"), ("BAR_2", "bar"), ("EMPTY", "")]);
    assert_eq!(substitute_env_var("", "a-$FOO-${BAR_2}-$BAZ-${QUX}", &map), "a-foo-bar-$BAZ-${QUX}");
    assert_eq!(substitute_env_var("", "$FOO$FOO$EMPTY.", &map), "foofoo.");
    assert_eq!(substitute_env_var("", "no variables", &map), "no variables");
    assert_eq!(substitute_env_var("", "", &map), "");
}

#[test]
fn substitution_reads_names_greedily() {
    let map = env(&[("FOO", "foo"), ("FOO_BAR", "long")]);
    assert_eq!(substitute_env_var("", "$FOO_BAR $FOObar ${FOO}_BAR", &map), "long foobar foo_BAR");
}

#[test]
fn substitution_leaves_what_is_no_reference() {
    let map = env(&[("FOO", "foo"), ("foo", "lower")]);
    assert_eq!(substitute_env_var("", "$ $$ ${} ${FOO ${foo} $foo $-FOO 5$", &map), "$ $$ ${} ${FOO ${foo} $foo $-FOO 5$");
    assert_eq!(substitute_env_var("", "$$FOO ${FOO}} ${${FOO}", &map), "$foo foo} ${foo");
    assert_eq!(substitute_env_var("", "prix: 5€ $FOO ñ", &map), "prix: 5€ foo ñ");
}

#[test]
fn substitution_does_not_read_replacements_again() {
    let map = env(&[("A", "$B"), ("B", "b")]);
    assert_eq!(substitute_env_var("", "$A", &map), "$B");
}

#[test]
fn substitution_keeps_a_reference_to_the_own_variable() {
    let map = env(&[("PATH", "/bin"), ("HOME", "/home")]);
    assert_eq!(substitute_env_var("PATH", "$HOME/bin:$PATH:${PATH}", &map), "/home/bin:$PATH:${PATH}");
    assert_eq!(substitute_env_var("", "$HOME/bin:$PATH", &map), "/home/bin:/bin");
}

#[test]
fn substitution_of_a_whole_map() {
    let map = env(&[("A", "a"), ("B", "$A-b"), ("C", "$B-c"), ("D", "$D-$A"), ("E", "$NONE")]);
    assert_eq!(
        substitute_env_vars(&map),
        env(&[("A", "a"), ("B", "a-b"), ("C", "$A-b-c"), ("D", "$D-a"), ("E", "$NONE")])
    );
    assert_eq!(substitute_env_vars(&env(&[])), env(&[]));
}
