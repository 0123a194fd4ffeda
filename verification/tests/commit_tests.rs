use forge_engine::commit::{
    build_forge_task_commit_message, commit_sha_result, commit_step_check, task_has_commit_sha,
    GitStepOutcome,
};
use forge_engine::docs::{PlanTaskV1, StateTaskV2};

fn task_named(name: &str) -> PlanTaskV1 {
    PlanTaskV1 {
        id: "task-1".to_string(),
        name: name.to_string(),
        depends_on: vec![],
    }
}

#[test]
fn the_commit_message_normalizes_the_task_name() {
    assert_eq!(
        build_forge_task_commit_message("alpha", &task_named("Task  One \n done")),
        "forge(alpha): task-1 Task One done"
    );
    assert_eq!(
        build_forge_task_commit_message("alpha", &task_named("   ")),
        "forge(alpha): task-1"
    );
}

#[test]
fn a_git_step_succeeds_only_on_exit_code_zero() {
    let ok = commit_step_check(
        GitStepOutcome::Completed {
            exit_code: Some(0),
            stdout: "o".to_string(),
            stderr: "e".to_string(),
        },
        7,
    );
    assert_eq!(ok.unwrap(), ("o".to_string(), "e".to_string()));

    let failed = commit_step_check(
        GitStepOutcome::Completed {
            exit_code: Some(128),
            stdout: "out".to_string(),
            stderr: "boom".to_string(),
        },
        7,
    )
    .unwrap_err();
    assert_eq!(failed.id, "forge-commit");
    assert_eq!(failed.title, "Forge task commit");
    assert_eq!(failed.exit_code, 128);
    assert_eq!(failed.stderr, "boom");
    assert!(!failed.timed_out);

    let spawn = commit_step_check(
        GitStepOutcome::Failed { message: "Git command timed out".to_string() },
        7,
    )
    .unwrap_err();
    assert_eq!(spawn.exit_code, -1);
    assert_eq!(spawn.stderr, "Git command timed out");
}

#[test]
fn a_blank_sha_after_the_commit_is_a_failure() {
    let err = commit_sha_result("  \n", "msg".to_string(), String::new(), 9).unwrap_err();
    assert_eq!(err.id, "forge-commit");
    assert_eq!(err.exit_code, -1);
    assert_eq!(err.stderr, "Unable to resolve commit SHA after commit.");

    let (sha, record) =
        commit_sha_result("deadbeef\n", "committed".to_string(), String::new(), 9).unwrap();
    assert_eq!(sha, "deadbeef");
    assert_eq!(record.stdout, "committed");
}

#[test]
fn a_blank_commit_sha_does_not_count_as_recorded() {
    let mut task = StateTaskV2 {
        id: "task-1".to_string(),
        status: "completed".to_string(),
        attempts: 0,
        notes: String::new(),
        commit_sha: None,
        phases: vec![],
    };
    assert!(!task_has_commit_sha(&task));
    task.commit_sha = Some("  ".to_string());
    assert!(!task_has_commit_sha(&task));
    task.commit_sha = Some("abc".to_string());
    assert!(task_has_commit_sha(&task));
}
