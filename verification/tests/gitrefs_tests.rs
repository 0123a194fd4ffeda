use forge_engine::gitrefs::{
    action_paths_from_renames, next_pull_attempt, parse_upstream_ref, pull_attempt_args,
    PullAttempt,
};

#[test]
fn upstream_refs_split_into_remote_and_branch() {
    assert_eq!(
        parse_upstream_ref("refs/remotes/origin/main"),
        Some(("origin".to_string(), "main".to_string()))
    );
    assert_eq!(
        parse_upstream_ref("origin/feature/x"),
        Some(("origin".to_string(), "feature/x".to_string()))
    );
    assert_eq!(parse_upstream_ref("origin"), None);
    assert_eq!(parse_upstream_ref("/main"), None);
    assert_eq!(parse_upstream_ref("origin/"), None);
}

#[test]
fn rename_records_decide_the_action_paths() {
    let renames = vec![
        ("old.rs".to_string(), "new.rs".to_string()),
        ("a.rs".to_string(), "a.rs".to_string()),
    ];
    assert_eq!(
        action_paths_from_renames("new.rs", &renames),
        vec!["old.rs".to_string(), "new.rs".to_string()]
    );
    assert_eq!(action_paths_from_renames("a.rs", &renames), vec!["a.rs".to_string()]);
    assert_eq!(action_paths_from_renames("other.rs", &renames), vec!["other.rs".to_string()]);
    assert_eq!(action_paths_from_renames("  ", &renames), Vec::<String>::new());
}

#[test]
fn the_pull_ladder_reacts_to_the_error_text() {
    let unsupported = "error: unknown option `autostash'";
    let divergent = "hint: You have divergent branches and need to specify how to reconcile them.";

    assert!(matches!(
        next_pull_attempt(&PullAttempt::AutostashPull, unsupported),
        Some(PullAttempt::PlainPull)
    ));
    assert!(matches!(
        next_pull_attempt(&PullAttempt::AutostashPull, divergent),
        Some(PullAttempt::NoRebaseAutostashPull)
    ));
    assert!(next_pull_attempt(&PullAttempt::AutostashPull, "fatal: other").is_none());
    assert!(matches!(
        next_pull_attempt(&PullAttempt::PlainPull, divergent),
        Some(PullAttempt::NoRebasePull)
    ));
    assert!(matches!(
        next_pull_attempt(&PullAttempt::NoRebaseAutostashPull, unsupported),
        Some(PullAttempt::NoRebasePull)
    ));
    assert!(next_pull_attempt(&PullAttempt::NoRebasePull, unsupported).is_none());
}

#[test]
fn each_pull_attempt_has_its_arguments() {
    assert_eq!(pull_attempt_args(&PullAttempt::AutostashPull), vec!["pull", "--autostash"]);
    assert_eq!(pull_attempt_args(&PullAttempt::PlainPull), vec!["pull"]);
    assert_eq!(
        pull_attempt_args(&PullAttempt::NoRebaseAutostashPull),
        vec!["pull", "--no-rebase", "--autostash"]
    );
    assert_eq!(pull_attempt_args(&PullAttempt::NoRebasePull), vec!["pull", "--no-rebase"]);
}
