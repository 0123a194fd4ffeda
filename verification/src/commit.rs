//! Commit automation: the commit message for a completed task, the
//! bookkeeping around the three git steps (stage, commit, read the HEAD
//! SHA), and the guard that makes at most one commit per task. The caller
//! runs the git processes; the functions here decide and record.

use vstd::prelude::*;

use crate::checks::ForgePhaseCheckResultV1;
use crate::docs::{PlanTaskV1, StateTaskV2};
use crate::schedule::all_phases_completed_spec;
use crate::text::{normalize_whitespace, normalize_ws, trim_spec, trim_str};

verus! {

/// The timeout for each git step of the commit sequence, in seconds.
pub const GIT_COMMAND_TIMEOUT_SECONDS: u64 = 90;

/// A task has a recorded commit when its `commit_sha` is present and does
/// not trim to nothing.
pub open spec fn task_has_commit_spec(task: StateTaskV2) -> bool {
    match task.commit_sha {
        Some(sha) => trim_spec(sha@).len() > 0,
        None => false,
    }
}

/// Executable test for [`task_has_commit_spec`].
pub fn task_has_commit_sha(task: &StateTaskV2) -> (r: bool)
    ensures
        r == task_has_commit_spec(*task),
{
    match &task.commit_sha {
        Some(sha) => {
            let t = trim_str(sha.as_str());
            t.as_str().unicode_len() > 0
        },
        None => false,
    }
}

/// Sets a task's status from its phases: `completed` when every phase is
/// complete, `in_progress` otherwise. Nothing else changes.
pub fn set_task_status_from_phases(task: &mut StateTaskV2)
    ensures
        final (task).status@ == if all_phases_completed_spec(*old(task)) {
            "completed"@
        } else {
            "in_progress"@
        },
        final (task).id == old(task).id,
        final (task).attempts == old(task).attempts,
        final (task).notes == old(task).notes,
        final (task).commit_sha == old(task).commit_sha,
        final (task).phases == old(task).phases,
{
    let is_complete = crate::schedule::are_all_task_phases_completed(task);
    task.status = if is_complete {
        String::from_str("completed")
    } else {
        String::from_str("in_progress")
    };
}

/// The commit message for a completed task:
/// `forge(<planId>): <taskId> <name>`, the task name normalized to single
/// spaces, or just `forge(<planId>): <taskId>` when the name is blank.
pub open spec fn commit_message_spec(
    plan_id: Seq<char>,
    task_id: Seq<char>,
    name: Seq<char>,
) -> Seq<char> {
    if normalize_ws(name).len() == 0 {
        "forge("@ + plan_id + "): "@ + task_id
    } else {
        "forge("@ + plan_id + "): "@ + task_id + seq![' '] + normalize_ws(name)
    }
}

/// Builds the commit message of [`commit_message_spec`].
pub fn build_forge_task_commit_message(plan_id: &str, task: &PlanTaskV1) -> (r: String)
    ensures
        r@ == commit_message_spec(plan_id@, task.id@, task.name@),
{
    let normalized_name = normalize_whitespace(task.name.as_str());
    let mut msg = String::from_str("forge(");
    msg.append(plan_id);
    msg.append("): ");
    msg.append(task.id.as_str());
    if normalized_name.as_str().unicode_len() == 0 {
        msg
    } else {
        msg.append(" ");
        msg.append(normalized_name.as_str());
        proof {
            reveal_strlit(" ");
            assert(" "@ =~= seq![' ']);
        }
        msg
    }
}

/// How one git step's process ended: it completed (exit code and captured
/// output), or it could not be run at all (the caller's diagnostic, for a
/// spawn failure or a timeout).
pub enum GitStepOutcome {
    Completed { exit_code: Option<i32>, stdout: String, stderr: String },
    Failed { message: String },
}

/// The identifier of the synthetic result that reports commit automation.
pub open spec fn forge_commit_id() -> Seq<char> {
    "forge-commit"@
}

/// The title of the synthetic result that reports commit automation.
pub open spec fn forge_commit_title() -> Seq<char> {
    "Forge task commit"@
}

/// A failing `forge-commit` record matches the step outcome it reports: a
/// process that could not run reports exit code -1 and the diagnostic; one
/// that exited non-zero reports its code (or -1 without one) and output.
pub open spec fn commit_step_failure_matches(
    outcome: GitStepOutcome,
    duration_ms: i64,
    e: ForgePhaseCheckResultV1,
) -> bool {
    &&& e.id@ == forge_commit_id()
    &&& e.title@ == forge_commit_title()
    &&& e.duration_ms == duration_ms
    &&& !e.timed_out
    &&& match outcome {
        GitStepOutcome::Completed { exit_code, stdout, stderr } => {
            &&& e.exit_code == match exit_code {
                Some(c) => c,
                None => -1i32,
            }
            &&& e.stdout@ == stdout@
            &&& e.stderr@ == stderr@
        },
        GitStepOutcome::Failed { message } => {
            &&& e.exit_code == -1
            &&& e.stdout@ == Seq::<char>::empty()
            &&& e.stderr@ == message@
        },
    }
}

/// Gates one git step of the commit sequence: succeeds with the captured
/// output exactly when the process ran and exited zero; any failure becomes
/// a failing `forge-commit` record, and the caller attempts no further
/// step.
pub fn commit_step_check(outcome: GitStepOutcome, duration_ms: i64) -> (r: Result<
    (String, String),
    ForgePhaseCheckResultV1,
>)
    ensures
        r is Ok <==> outcome matches GitStepOutcome::Completed { exit_code: Some(0i32), .. },
        r matches Ok(out) ==> outcome matches GitStepOutcome::Completed { exit_code, stdout, stderr }
            && out.0 == stdout && out.1 == stderr,
        r matches Err(e) ==> commit_step_failure_matches(outcome, duration_ms, e),
{
    match outcome {
        GitStepOutcome::Completed { exit_code, stdout, stderr } => {
            let ok = match exit_code {
                Some(c) => c == 0,
                None => false,
            };
            if ok {
                Ok((stdout, stderr))
            } else {
                Err(ForgePhaseCheckResultV1 {
                    id: String::from_str("forge-commit"),
                    title: String::from_str("Forge task commit"),
                    exit_code: match exit_code {
                        Some(c) => c,
                        None => -1,
                    },
                    duration_ms,
                    stdout,
                    stderr,
                    timed_out: false,
                })
            }
        },
        GitStepOutcome::Failed { message } => Err(ForgePhaseCheckResultV1 {
            id: String::from_str("forge-commit"),
            title: String::from_str("Forge task commit"),
            exit_code: -1,
            duration_ms,
            stdout: String::new(),
            stderr: message,
            timed_out: false,
        }),
    }
}

/// Resolves the commit SHA after a successful commit step. The SHA is what
/// `git rev-parse HEAD` printed, trimmed; a blank one is a failure. On
/// success the returned record reports exit code 0 and the commit step's
/// own output (or `Created commit <sha>` when that output was blank).
pub fn commit_sha_result(
    sha_stdout: &str,
    commit_stdout: String,
    commit_stderr: String,
    duration_ms: i64,
) -> (r: Result<(String, ForgePhaseCheckResultV1), ForgePhaseCheckResultV1>)
    ensures
        r is Ok <==> trim_spec(sha_stdout@).len() > 0,
        r matches Ok(out) ==> {
            &&& out.0@ == trim_spec(sha_stdout@)
            &&& out.1.id@ == forge_commit_id()
            &&& out.1.title@ == forge_commit_title()
            &&& out.1.exit_code == 0
            &&& out.1.duration_ms == duration_ms
            &&& out.1.stdout@ == if trim_spec(commit_stdout@).len() == 0 {
                "Created commit "@ + trim_spec(sha_stdout@)
            } else {
                commit_stdout@
            }
            &&& out.1.stderr@ == commit_stderr@
            &&& !out.1.timed_out
        },
        r matches Err(e) ==> {
            &&& e.id@ == forge_commit_id()
            &&& e.title@ == forge_commit_title()
            &&& e.exit_code == -1
            &&& e.duration_ms == duration_ms
            &&& e.stdout@ == Seq::<char>::empty()
            &&& e.stderr@ == "Unable to resolve commit SHA after commit."@
            &&& !e.timed_out
        },
{
    let sha = trim_str(sha_stdout);
    if sha.as_str().unicode_len() == 0 {
        return Err(ForgePhaseCheckResultV1 {
            id: String::from_str("forge-commit"),
            title: String::from_str("Forge task commit"),
            exit_code: -1,
            duration_ms,
            stdout: String::new(),
            stderr: String::from_str("Unable to resolve commit SHA after commit."),
            timed_out: false,
        });
    }
    let trimmed_commit_stdout = trim_str(commit_stdout.as_str());
    let stdout = if trimmed_commit_stdout.as_str().unicode_len() == 0 {
        let mut created = String::from_str("Created commit ");
        created.append(sha.as_str());
        created
    } else {
        commit_stdout
    };
    let record = ForgePhaseCheckResultV1 {
        id: String::from_str("forge-commit"),
        title: String::from_str("Forge task commit"),
        exit_code: 0,
        duration_ms,
        stdout,
        stderr: commit_stderr,
        timed_out: false,
    };
    Ok((sha, record))
}

} // verus!
