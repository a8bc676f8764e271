use task_expander::{Target, TasksExpanderError};

fn parse(text: &str) -> Target {
    Target::parse(text).unwrap()
}

#[test]
fn messages_name_both_targets() {
    let task = Target::new("app", "a");
    assert_eq!(
        TasksExpanderError::UnsupportedTargetScopeInDeps { dep: parse(":build"), task: task.clone() }
            .message(),
        "Invalid dependency :build for app:a. All (:) scope is not supported."
    );
    assert_eq!(
        TasksExpanderError::UnknownTarget { dep: parse("lib:build"), task: task.clone() }.message(),
        "Invalid dependency lib:build for app:a, target does not exist."
    );
    assert_eq!(
        TasksExpanderError::AllowFailureDepRequirement { dep: parse("app:b"), task: task.clone() }
            .message(),
        "Task app:a cannot depend on task app:b, as it is allowed to fail, which may cause unwanted side-effects."
    );
    assert_eq!(
        TasksExpanderError::RunInCiDepRequirement { dep: parse("app:b"), task: task.clone() }
            .message(),
        "Task app:a cannot depend on task app:b, as the dependency does not run in CI."
    );
    assert_eq!(
        TasksExpanderError::PersistentDepRequirement { dep: parse("app:dev"), task: task.clone() }
            .message(),
        "Task app:a cannot depend on task app:dev, as only persistent tasks can depend on other persistent tasks."
    );
}

#[test]
fn messages_of_the_other_failures() {
    let error = dotenvy::from_read_iter("bad line".as_bytes()).next().unwrap().unwrap_err();
    assert_eq!(
        TasksExpanderError::InvalidEnvFile { path: "/workspace/.env".to_string(), error }
            .message(),
        "Failed to parse env file /workspace/.env."
    );
    assert_eq!(
        TasksExpanderError::InvalidArgs { args: "'open".to_string() }.message(),
        "Failed to split the arguments 'open."
    );
    assert_eq!(
        TasksExpanderError::TokenFailure { message: "unknown token".to_string() }.message(),
        "unknown token"
    );
    assert_eq!(
        TasksExpanderError::QueryFailure { message: "no graph".to_string() }.message(),
        "no graph"
    );
}
