use forge_engine::checks::{all_checks_passed, ForgePhaseCheckResultV1};
use forge_engine::commit::commit_sha_result;
use forge_engine::docs::{PlanTaskV1, PlanV1, StatePhaseV2, StateTaskV2, StateV2};
use forge_engine::engine::{
    apply_phase_outcome, find_phase_index, find_state_task_index, forge_get_phase_status_core,
    mark_commit_failed, next_phase_prompt_decision, record_task_commit, should_commit_task,
};
use forge_engine::schedule::find_next_runnable_task;

const SIX_PHASE_IDS: [&str; 6] = [
    "test-case-mapping",
    "behavioral-tests",
    "implementation",
    "coverage-hardening",
    "documentation",
    "ai-review",
];

fn phase(id: &str, status: &str) -> StatePhaseV2 {
    StatePhaseV2 {
        id: id.to_string(),
        status: status.to_string(),
        attempts: 0,
        notes: String::new(),
    }
}

fn six_phase_task(task_status: &str, statuses: [&str; 6]) -> StateTaskV2 {
    let mut phases = Vec::new();
    for (i, pid) in SIX_PHASE_IDS.iter().enumerate() {
        phases.push(phase(pid, statuses[i]));
    }
    StateTaskV2 {
        id: "task-1".to_string(),
        status: task_status.to_string(),
        attempts: 0,
        notes: String::new(),
        commit_sha: None,
        phases,
    }
}

fn two_task_state(task_one: StateTaskV2) -> StateV2 {
    StateV2 {
        schema: "state-v2".to_string(),
        plan_id: "alpha".to_string(),
        iteration: 0,
        summary: String::new(),
        tasks: vec![
            task_one,
            StateTaskV2 {
                id: "task-2".to_string(),
                status: "pending".to_string(),
                attempts: 0,
                notes: String::new(),
                commit_sha: None,
                phases: vec![phase("implementation", "pending")],
            },
        ],
    }
}

fn two_task_plan() -> PlanV1 {
    PlanV1 {
        schema: "plan-v1".to_string(),
        id: "alpha".to_string(),
        goal: "Test goal".to_string(),
        tasks: vec![
            PlanTaskV1 {
                id: "task-1".to_string(),
                name: "Task 1".to_string(),
                depends_on: vec![],
            },
            PlanTaskV1 {
                id: "task-2".to_string(),
                name: "Task 2".to_string(),
                depends_on: vec!["task-1".to_string()],
            },
        ],
    }
}

fn passing_check(id: &str) -> ForgePhaseCheckResultV1 {
    ForgePhaseCheckResultV1 {
        id: id.to_string(),
        title: id.to_string(),
        exit_code: 0,
        duration_ms: 5,
        stdout: String::new(),
        stderr: String::new(),
        timed_out: false,
    }
}

#[test]
fn final_phase_success_commits_the_task_and_records_the_sha() {
    let plan = two_task_plan();
    let mut state = two_task_state(six_phase_task(
        "in_progress",
        ["completed", "completed", "completed", "completed", "completed", "pending"],
    ));
    let task_index = find_state_task_index(&state, "task-1").unwrap();
    let phase_index = find_phase_index(&state.tasks[task_index], "ai-review").unwrap();
    assert_eq!(phase_index, 5);
    let is_last = phase_index + 1 >= state.tasks[task_index].phases.len();
    assert!(is_last);

    let results = vec![passing_check("check-1")];
    let ok = all_checks_passed(&results);
    assert!(ok);

    apply_phase_outcome(&mut state, task_index, phase_index, ok);
    assert_eq!(state.tasks[0].phases[5].status, "completed");
    assert_eq!(state.tasks[0].status, "in_progress");
    assert!(should_commit_task(&state, task_index, ok, is_last));

    let (sha, record) = commit_sha_result("abc123\n", String::new(), String::new(), 40).unwrap();
    assert_eq!(sha, "abc123");
    assert_eq!(record.id, "forge-commit");
    assert_eq!(record.exit_code, 0);
    assert_eq!(record.stdout, "Created commit abc123");

    record_task_commit(&mut state, task_index, sha);
    assert_eq!(state.tasks[0].status, "completed");
    assert_eq!(state.tasks[0].commit_sha.as_deref(), Some("abc123"));

    let next = next_phase_prompt_decision(&plan, &state).unwrap();
    assert_eq!(next.task_id, "task-2");
    assert_eq!(next.phase_id, "implementation");
    assert!(next.is_last_phase);
}

#[test]
fn final_phase_failure_blocks_completion_and_progression() {
    let plan = two_task_plan();
    let mut state = two_task_state(six_phase_task(
        "in_progress",
        ["completed", "completed", "completed", "completed", "completed", "pending"],
    ));
    let failing = ForgePhaseCheckResultV1 {
        exit_code: 1,
        ..passing_check("check-1")
    };
    let results = vec![failing];
    let ok = all_checks_passed(&results);
    assert!(!ok);

    apply_phase_outcome(&mut state, 0, 5, ok);
    assert_eq!(state.tasks[0].phases[5].status, "in_progress");
    assert_eq!(state.tasks[0].status, "in_progress");
    assert_eq!(state.tasks[0].commit_sha, None);
    assert!(!should_commit_task(&state, 0, ok, true));

    let next = next_phase_prompt_decision(&plan, &state).unwrap();
    assert_eq!(next.task_id, "task-1");
    assert_eq!(next.phase_id, "ai-review");
    assert!(next.is_last_phase);
}

#[test]
fn non_final_success_completes_only_the_current_phase() {
    let plan = two_task_plan();
    let mut state = two_task_state(six_phase_task(
        "pending",
        ["pending", "pending", "pending", "pending", "pending", "pending"],
    ));
    apply_phase_outcome(&mut state, 0, 0, true);
    assert_eq!(state.tasks[0].phases[0].status, "completed");
    assert_eq!(state.tasks[0].phases[1].status, "pending");
    assert_eq!(state.tasks[0].status, "in_progress");
    assert_eq!(state.tasks[0].commit_sha, None);
    assert!(!should_commit_task(&state, 0, true, false));

    let next = next_phase_prompt_decision(&plan, &state).unwrap();
    assert_eq!(next.task_id, "task-1");
    assert_eq!(next.phase_id, "behavioral-tests");
    assert!(!next.is_last_phase);
}

#[test]
fn next_phase_selects_the_first_incomplete_phase() {
    let plan = two_task_plan();
    let state = two_task_state(six_phase_task(
        "in_progress",
        ["completed", "completed", "completed", "in_progress", "pending", "pending"],
    ));
    let next = next_phase_prompt_decision(&plan, &state).unwrap();
    assert_eq!(next.task_id, "task-1");
    assert_eq!(next.phase_id, "coverage-hardening");
    assert!(!next.is_last_phase);
}

#[test]
fn a_second_successful_run_creates_no_second_commit() {
    let mut state = two_task_state(six_phase_task(
        "in_progress",
        ["completed", "completed", "completed", "completed", "completed", "pending"],
    ));
    apply_phase_outcome(&mut state, 0, 5, true);
    assert!(should_commit_task(&state, 0, true, true));
    record_task_commit(&mut state, 0, "abc123".to_string());

    apply_phase_outcome(&mut state, 0, 5, true);
    assert!(!should_commit_task(&state, 0, true, true));
    assert_eq!(state.tasks[0].status, "completed");
    assert_eq!(state.tasks[0].commit_sha.as_deref(), Some("abc123"));
}

#[test]
fn a_failed_commit_keeps_the_phases_and_retries_later() {
    let mut state = two_task_state(six_phase_task(
        "in_progress",
        ["completed", "completed", "completed", "completed", "completed", "pending"],
    ));
    apply_phase_outcome(&mut state, 0, 5, true);
    mark_commit_failed(&mut state, 0);
    assert_eq!(state.tasks[0].status, "in_progress");
    assert_eq!(state.tasks[0].phases[5].status, "completed");
    assert_eq!(state.tasks[0].commit_sha, None);
    assert!(should_commit_task(&state, 0, true, true));
}

#[test]
fn the_scheduler_skips_blocked_and_complete_tasks() {
    let plan = two_task_plan();
    let blocked = two_task_state(six_phase_task(
        "in_progress",
        ["completed", "completed", "completed", "pending", "pending", "pending"],
    ));
    assert_eq!(find_next_runnable_task(&plan, &blocked), Some(0));

    let mut done = two_task_state(six_phase_task(
        "completed",
        ["completed", "completed", "completed", "completed", "completed", "completed"],
    ));
    assert_eq!(find_next_runnable_task(&plan, &done), Some(1));

    done.tasks[1].status = "completed".to_string();
    done.tasks[1].phases[0].status = "completed".to_string();
    assert_eq!(find_next_runnable_task(&plan, &done), None);
    assert!(next_phase_prompt_decision(&plan, &done).is_none());
}

#[test]
fn a_task_without_a_state_entry_is_not_runnable() {
    let mut plan = two_task_plan();
    plan.tasks.push(PlanTaskV1 {
        id: "task-3".to_string(),
        name: "Task 3".to_string(),
        depends_on: vec!["ghost-task".to_string()],
    });
    let state = two_task_state(six_phase_task(
        "completed",
        ["completed", "completed", "completed", "completed", "completed", "completed"],
    ));
    // task-1 complete, task-2 runnable; task-3 has no entry and a missing
    // dependency, both of which keep it unselected rather than erroring.
    assert_eq!(find_next_runnable_task(&plan, &state), Some(1));
}

#[test]
fn phase_status_reports_the_phase_and_the_recorded_commit() {
    let mut task = six_phase_task(
        "in_progress",
        ["completed", "in_progress", "pending", "", "pending", "pending"],
    );
    task.commit_sha = Some("abc123".to_string());
    let state = two_task_state(task);

    let ps = forge_get_phase_status_core(&state, "task-1", "behavioral-tests").unwrap();
    assert_eq!(ps.status, "in_progress");
    assert_eq!(ps.commit_sha.as_deref(), Some("abc123"));

    let blank = forge_get_phase_status_core(&state, "task-1", "coverage-hardening").unwrap();
    assert_eq!(blank.status, "pending");

    assert_eq!(
        forge_get_phase_status_core(&state, "  ", "x").unwrap_err(),
        "taskId is required"
    );
    assert_eq!(
        forge_get_phase_status_core(&state, "task-1", " ").unwrap_err(),
        "phaseId is required"
    );
    assert_eq!(
        forge_get_phase_status_core(&state, "task-9", "x").unwrap_err(),
        "Unknown taskId: task-9"
    );
    assert_eq!(
        forge_get_phase_status_core(&state, "task-1", "nope").unwrap_err(),
        "Unknown phaseId for task task-1: nope"
    );
}
