//! The state transitions behind the public operations: looking tasks and
//! phases up by id, recording a check batch's outcome, the
//! at-most-one-commit guard, and the read-only phase status query. The
//! caller loads the documents, runs the processes, and persists the state
//! after each transition; every decision in between is made here.

use vstd::prelude::*;

use crate::checks::CheckSpecValue;
use crate::docs::{ForgeTemplatePhasesV1, PlanTaskV1, PlanV1, StatePhaseV2, StateTaskV2, StateV2};
use crate::schedule::{
    all_phases_completed_spec, find_next_phase, find_next_runnable_task, first_incomplete_phase,
    is_completed_spec, map_state_tasks, state_task_index, task_runnable_spec,
};
use crate::commit::{set_task_status_from_phases, task_has_commit_sha, task_has_commit_spec};
use crate::text::{str_eq, trim_spec, trim_str};

verus! {

/// The answer of the read-only phase status query.
#[derive(Debug)]
pub struct ForgePhaseStatusV1 {
    pub status: String,
    pub commit_sha: Option<String>,
}

/// The next unit of work handed to the caller: the selected task and phase,
/// whether the phase is the task's last, and the freshly generated prompt.
pub struct ForgeNextPhasePromptV1 {
    pub plan_id: String,
    pub task_id: String,
    pub phase_id: String,
    pub is_last_phase: bool,
    pub prompt_text: String,
}

/// The task and phase that the next prompt concerns.
pub struct NextPhaseSelection {
    pub task_index: usize,
    pub task_id: String,
    pub phase_id: String,
    pub is_last_phase: bool,
}

/// The index of the first state task whose trimmed id is `id`, or `-1`.
pub open spec fn first_task_by_trimmed_id(tasks: Seq<StateTaskV2>, id: Seq<char>) -> int
    decreases tasks.len(),
{
    if tasks.len() == 0 {
        -1
    } else if trim_spec(tasks[0].id@) == id {
        0
    } else {
        let rest = first_task_by_trimmed_id(tasks.skip(1), id);
        if rest < 0 {
            -1
        } else {
            rest + 1
        }
    }
}

pub broadcast proof fn lemma_first_task_by_trimmed_id_props(tasks: Seq<StateTaskV2>, id: Seq<char>)
    ensures
        #![trigger first_task_by_trimmed_id(tasks, id)]
        -1 <= first_task_by_trimmed_id(tasks, id) < tasks.len(),
        first_task_by_trimmed_id(tasks, id) >= 0 ==> trim_spec(
            tasks[first_task_by_trimmed_id(tasks, id)].id@,
        ) == id,
        first_task_by_trimmed_id(tasks, id) == -1 ==> forall|i: int|
            0 <= i < tasks.len() ==> trim_spec((#[trigger] tasks[i]).id@) != id,
        forall|i: int|
            0 <= i < first_task_by_trimmed_id(tasks, id) ==> trim_spec((#[trigger] tasks[i]).id@)
                != id,
    decreases tasks.len(),
{
    if tasks.len() > 0 && trim_spec(tasks[0].id@) != id {
        lemma_first_task_by_trimmed_id_props(tasks.skip(1), id);
        assert forall|i: int| 1 <= i < tasks.len() implies tasks.skip(1)[i - 1] == tasks[i] by {}
    }
}

/// Finds a state task by trimmed id (the first match).
pub fn find_state_task_index(state: &StateV2, task_id: &str) -> (r: Option<usize>)
    ensures
        match r {
            Some(i) => first_task_by_trimmed_id(state.tasks@, task_id@) == i as int && i
                < state.tasks@.len(),
            None => first_task_by_trimmed_id(state.tasks@, task_id@) == -1,
        },
{
    proof {
        broadcast use lemma_first_task_by_trimmed_id_props;

    }
    let mut i: usize = 0;
    while i < state.tasks.len()
        invariant
            0 <= i <= state.tasks@.len(),
            forall|j: int| 0 <= j < i ==> trim_spec((#[trigger] state.tasks@[j]).id@) != task_id@,
        decreases state.tasks@.len() - i,
    {
        let t = trim_str(state.tasks[i].id.as_str());
        if str_eq(t.as_str(), task_id) {
            proof {
                lemma_first_task_at(state.tasks@, task_id@, i as int);
            }
            return Some(i);
        }
        i = i + 1;
    }
    None
}

proof fn lemma_first_task_at(tasks: Seq<StateTaskV2>, id: Seq<char>, i: int)
    requires
        0 <= i < tasks.len(),
        trim_spec(tasks[i].id@) == id,
        forall|j: int| 0 <= j < i ==> trim_spec((#[trigger] tasks[j]).id@) != id,
    ensures
        first_task_by_trimmed_id(tasks, id) == i,
    decreases i,
{
    if i > 0 {
        lemma_first_task_at(tasks.skip(1), id, i - 1);
        assert forall|j: int| 0 <= j < tasks.skip(1).len() implies tasks.skip(1)[j] == tasks[j
            + 1] by {}
    }
}

/// The index of the first phase record whose trimmed id is `id`, or `-1`.
pub open spec fn first_phase_by_trimmed_id(phases: Seq<StatePhaseV2>, id: Seq<char>) -> int
    decreases phases.len(),
{
    if phases.len() == 0 {
        -1
    } else if trim_spec(phases[0].id@) == id {
        0
    } else {
        let rest = first_phase_by_trimmed_id(phases.skip(1), id);
        if rest < 0 {
            -1
        } else {
            rest + 1
        }
    }
}

pub broadcast proof fn lemma_first_phase_by_trimmed_id_props(
    phases: Seq<StatePhaseV2>,
    id: Seq<char>,
)
    ensures
        #![trigger first_phase_by_trimmed_id(phases, id)]
        -1 <= first_phase_by_trimmed_id(phases, id) < phases.len(),
        first_phase_by_trimmed_id(phases, id) >= 0 ==> trim_spec(
            phases[first_phase_by_trimmed_id(phases, id)].id@,
        ) == id,
        first_phase_by_trimmed_id(phases, id) == -1 ==> forall|i: int|
            0 <= i < phases.len() ==> trim_spec((#[trigger] phases[i]).id@) != id,
    decreases phases.len(),
{
    if phases.len() > 0 && trim_spec(phases[0].id@) != id {
        lemma_first_phase_by_trimmed_id_props(phases.skip(1), id);
        assert forall|i: int| 1 <= i < phases.len() implies phases.skip(1)[i - 1] == phases[i] by {}
    }
}

/// Finds a phase record of a task by trimmed id (the first match).
pub fn find_phase_index(task: &StateTaskV2, phase_id: &str) -> (r: Option<usize>)
    ensures
        match r {
            Some(i) => first_phase_by_trimmed_id(task.phases@, phase_id@) == i as int && i
                < task.phases@.len(),
            None => first_phase_by_trimmed_id(task.phases@, phase_id@) == -1,
        },
{
    proof {
        broadcast use lemma_first_phase_by_trimmed_id_props;

    }
    let mut i: usize = 0;
    while i < task.phases.len()
        invariant
            0 <= i <= task.phases@.len(),
            forall|j: int| 0 <= j < i ==> trim_spec((#[trigger] task.phases@[j]).id@) != phase_id@,
        decreases task.phases@.len() - i,
    {
        let t = trim_str(task.phases[i].id.as_str());
        if str_eq(t.as_str(), phase_id) {
            proof {
                lemma_first_phase_at(task.phases@, phase_id@, i as int);
            }
            return Some(i);
        }
        i = i + 1;
    }
    None
}

proof fn lemma_first_phase_at(phases: Seq<StatePhaseV2>, id: Seq<char>, i: int)
    requires
        0 <= i < phases.len(),
        trim_spec(phases[i].id@) == id,
        forall|j: int| 0 <= j < i ==> trim_spec((#[trigger] phases[j]).id@) != id,
    ensures
        first_phase_by_trimmed_id(phases, id) == i,
    decreases i,
{
    if i > 0 {
        lemma_first_phase_at(phases.skip(1), id, i - 1);
        assert forall|j: int| 0 <= j < phases.skip(1).len() implies phases.skip(1)[j] == phases[j
            + 1] by {}
    }
}

/// The declared checks of the phase `phase_id` in a phase definition: the
/// checks of the first phase whose trimmed id matches, or none.
pub fn find_phase_checks<'a>(phases: &'a ForgeTemplatePhasesV1, phase_id: &str) -> (r: Option<
    &'a Vec<CheckSpecValue>,
>)
    ensures
        match r {
            Some(checks) => exists|i: int|
                0 <= i < phases.phases@.len() && trim_spec(
                    (#[trigger] phases.phases@[i]).id@,
                ) == phase_id@ && *checks == phases.phases@[i].checks && forall|j: int|
                    0 <= j < i ==> trim_spec((#[trigger] phases.phases@[j]).id@) != phase_id@,
            None => forall|i: int|
                0 <= i < phases.phases@.len() ==> trim_spec((#[trigger] phases.phases@[i]).id@)
                    != phase_id@,
        },
{
    let mut i: usize = 0;
    while i < phases.phases.len()
        invariant
            0 <= i <= phases.phases@.len(),
            forall|j: int|
                0 <= j < i ==> trim_spec((#[trigger] phases.phases@[j]).id@) != phase_id@,
        decreases phases.phases@.len() - i,
    {
        let t = trim_str(phases.phases[i].id.as_str());
        if str_eq(t.as_str(), phase_id) {
            return Some(&phases.phases[i].checks);
        }
        i = i + 1;
    }
    None
}

/// The index of the first plan task whose trimmed id is `id`, or `-1`.
pub open spec fn first_plan_task_by_trimmed_id(tasks: Seq<PlanTaskV1>, id: Seq<char>) -> int
    decreases tasks.len(),
{
    if tasks.len() == 0 {
        -1
    } else if trim_spec(tasks[0].id@) == id {
        0
    } else {
        let rest = first_plan_task_by_trimmed_id(tasks.skip(1), id);
        if rest < 0 {
            -1
        } else {
            rest + 1
        }
    }
}

pub broadcast proof fn lemma_first_plan_task_by_trimmed_id_props(
    tasks: Seq<PlanTaskV1>,
    id: Seq<char>,
)
    ensures
        #![trigger first_plan_task_by_trimmed_id(tasks, id)]
        -1 <= first_plan_task_by_trimmed_id(tasks, id) < tasks.len(),
        first_plan_task_by_trimmed_id(tasks, id) >= 0 ==> trim_spec(
            tasks[first_plan_task_by_trimmed_id(tasks, id)].id@,
        ) == id,
        first_plan_task_by_trimmed_id(tasks, id) == -1 ==> forall|i: int|
            0 <= i < tasks.len() ==> trim_spec((#[trigger] tasks[i]).id@) != id,
    decreases tasks.len(),
{
    if tasks.len() > 0 && trim_spec(tasks[0].id@) != id {
        lemma_first_plan_task_by_trimmed_id_props(tasks.skip(1), id);
        assert forall|i: int| 1 <= i < tasks.len() implies tasks.skip(1)[i - 1] == tasks[i] by {}
    }
}

/// Finds a plan task by trimmed id (the first match).
pub fn find_plan_task_index(plan: &PlanV1, task_id: &str) -> (r: Option<usize>)
    ensures
        match r {
            Some(i) => first_plan_task_by_trimmed_id(plan.tasks@, task_id@) == i as int && i
                < plan.tasks@.len(),
            None => first_plan_task_by_trimmed_id(plan.tasks@, task_id@) == -1,
        },
{
    proof {
        broadcast use lemma_first_plan_task_by_trimmed_id_props;

    }
    let mut i: usize = 0;
    while i < plan.tasks.len()
        invariant
            0 <= i <= plan.tasks@.len(),
            forall|j: int| 0 <= j < i ==> trim_spec((#[trigger] plan.tasks@[j]).id@) != task_id@,
        decreases plan.tasks@.len() - i,
    {
        let t = trim_str(plan.tasks[i].id.as_str());
        if str_eq(t.as_str(), task_id) {
            proof {
                lemma_first_plan_task_at(plan.tasks@, task_id@, i as int);
            }
            return Some(i);
        }
        i = i + 1;
    }
    None
}

proof fn lemma_first_plan_task_at(tasks: Seq<PlanTaskV1>, id: Seq<char>, i: int)
    requires
        0 <= i < tasks.len(),
        trim_spec(tasks[i].id@) == id,
        forall|j: int| 0 <= j < i ==> trim_spec((#[trigger] tasks[j]).id@) != id,
    ensures
        first_plan_task_by_trimmed_id(tasks, id) == i,
    decreases i,
{
    if i > 0 {
        lemma_first_plan_task_at(tasks.skip(1), id, i - 1);
        assert forall|j: int| 0 <= j < tasks.skip(1).len() implies tasks.skip(1)[j] == tasks[j
            + 1] by {}
    }
}

/// Demands non-blank task and phase identifiers: succeeds with the trimmed
/// pair exactly when both trim to something.
pub fn require_task_and_phase_ids(task_id: &str, phase_id: &str) -> (r: Result<
    (String, String),
    String,
>)
    ensures
        r is Ok <==> trim_spec(task_id@).len() > 0 && trim_spec(phase_id@).len() > 0,
        r matches Ok(ids) ==> ids.0@ == trim_spec(task_id@) && ids.1@ == trim_spec(phase_id@),
        r matches Err(e) ==> e@ == if trim_spec(task_id@).len() == 0 {
            "taskId is required"@
        } else {
            "phaseId is required"@
        },
{
    let tid = trim_str(task_id);
    if tid.as_str().unicode_len() == 0 {
        return Err(String::from_str("taskId is required"));
    }
    let pid = trim_str(phase_id);
    if pid.as_str().unicode_len() == 0 {
        return Err(String::from_str("phaseId is required"));
    }
    Ok((tid, pid))
}

/// Everything of a state except the task at `ti` is the same in `s1` as in
/// `s0`.
pub open spec fn state_unchanged_except_task(s0: StateV2, s1: StateV2, ti: int) -> bool {
    &&& s1.schema == s0.schema
    &&& s1.plan_id == s0.plan_id
    &&& s1.iteration == s0.iteration
    &&& s1.summary == s0.summary
    &&& s1.tasks@.len() == s0.tasks@.len()
    &&& forall|j: int|
        0 <= j < s0.tasks@.len() && j != ti ==> s1.tasks@[j] == (#[trigger] s0.tasks@[j])
}

/// Everything of a task except its status and the status of the phase at
/// `pi` is the same in `t1` as in `t0`.
pub open spec fn task_unchanged_except_statuses(t0: StateTaskV2, t1: StateTaskV2, pi: int) -> bool {
    &&& t1.id == t0.id
    &&& t1.attempts == t0.attempts
    &&& t1.notes == t0.notes
    &&& t1.commit_sha == t0.commit_sha
    &&& t1.phases@.len() == t0.phases@.len()
    &&& forall|k: int|
        0 <= k < t0.phases@.len() && k != pi ==> t1.phases@[k] == (#[trigger] t0.phases@[k])
    &&& t1.phases@[pi].id == t0.phases@[pi].id
    &&& t1.phases@[pi].attempts == t0.phases@[pi].attempts
    &&& t1.phases@[pi].notes == t0.phases@[pi].notes
}

/// How a check batch's outcome transforms the state: the acted-on phase
/// becomes `completed` on success and (re)enters `in_progress` on failure —
/// never regressing to `pending` — and the task's status follows, except
/// that a successful final phase holds the task at `in_progress` until a
/// commit is recorded.
pub open spec fn phase_outcome_rel(
    s0: StateV2,
    s1: StateV2,
    ti: int,
    pi: int,
    ok: bool,
) -> bool {
    &&& state_unchanged_except_task(s0, s1, ti)
    &&& task_unchanged_except_statuses(s0.tasks@[ti], s1.tasks@[ti], pi)
    &&& s1.tasks@[ti].phases@[pi].status@ == if ok {
        "completed"@
    } else {
        "in_progress"@
    }
    &&& s1.tasks@[ti].status@ == {
        let is_last = pi + 1 >= s0.tasks@[ti].phases@.len();
        if !ok {
            "in_progress"@
        } else if is_last && !task_has_commit_spec(s0.tasks@[ti]) {
            "in_progress"@
        } else if all_phases_completed_spec(s1.tasks@[ti]) {
            "completed"@
        } else {
            "in_progress"@
        }
    }
}

/// Records a check batch's outcome for the phase at `pi` of the task at
/// `ti`, as [`phase_outcome_rel`] describes.
pub fn apply_phase_outcome(state: &mut StateV2, task_index: usize, phase_index: usize, ok: bool)
    requires
        task_index < old(state).tasks@.len(),
        phase_index < old(state).tasks@[task_index as int].phases@.len(),
    ensures
        phase_outcome_rel(
            *old(state),
            *final (state),
            task_index as int,
            phase_index as int,
            ok,
        ),
{
    let phase_count = state.tasks[task_index].phases.len();
    let is_last = phase_index + 1 >= phase_count;
    if ok {
        state.tasks[task_index].phases[phase_index].status = String::from_str("completed");
        let has_commit = task_has_commit_sha(&state.tasks[task_index]);
        if is_last && !has_commit {
            state.tasks[task_index].status = String::from_str("in_progress");
        } else {
            set_task_status_from_phases(&mut state.tasks[task_index]);
        }
    } else {
        state.tasks[task_index].phases[phase_index].status = String::from_str("in_progress");
        state.tasks[task_index].status = String::from_str("in_progress");
    }
}

/// A task is committed after a batch exactly when the batch succeeded, the
/// acted-on phase was the last, every phase is now complete, and no commit
/// has been recorded yet — the at-most-one-commit guard.
pub fn should_commit_task(state: &StateV2, task_index: usize, ok: bool, is_last_phase: bool) -> (r:
    bool)
    requires
        task_index < state.tasks@.len(),
    ensures
        r == (ok && is_last_phase && all_phases_completed_spec(state.tasks@[task_index as int])
            && !task_has_commit_spec(state.tasks@[task_index as int])),
{
    if ok && is_last_phase {
        let task = &state.tasks[task_index];
        let all_complete = crate::schedule::are_all_task_phases_completed(task);
        let has_commit = task_has_commit_sha(task);
        all_complete && !has_commit
    } else {
        false
    }
}

/// Records a freshly created commit on the task at `ti`: its `commit_sha`
/// is set and its status becomes `completed`. Nothing else changes.
pub fn record_task_commit(state: &mut StateV2, task_index: usize, sha: String)
    requires
        task_index < old(state).tasks@.len(),
    ensures
        state_unchanged_except_task(*old(state), *final (state), task_index as int),
        final (state).tasks@[task_index as int].id == old(state).tasks@[task_index as int].id,
        final (state).tasks@[task_index as int].attempts == old(state).tasks@[
            task_index as int
        ].attempts,
        final (state).tasks@[task_index as int].notes == old(state).tasks@[
            task_index as int
        ].notes,
        final (state).tasks@[task_index as int].phases == old(state).tasks@[
            task_index as int
        ].phases,
        final (state).tasks@[task_index as int].commit_sha matches Some(c) && c@ == sha@,
        final (state).tasks@[task_index as int].status@ == "completed"@,
{
    state.tasks[task_index].commit_sha = Some(sha);
    state.tasks[task_index].status = String::from_str("completed");
}

/// Marks the task at `ti` as still in progress after a failed commit
/// attempt, so the next run retries the commit without re-running checks.
/// Nothing else changes; in particular its phases stay `completed`.
pub fn mark_commit_failed(state: &mut StateV2, task_index: usize)
    requires
        task_index < old(state).tasks@.len(),
    ensures
        state_unchanged_except_task(*old(state), *final (state), task_index as int),
        final (state).tasks@[task_index as int].id == old(state).tasks@[task_index as int].id,
        final (state).tasks@[task_index as int].attempts == old(state).tasks@[
            task_index as int
        ].attempts,
        final (state).tasks@[task_index as int].notes == old(state).tasks@[
            task_index as int
        ].notes,
        final (state).tasks@[task_index as int].phases == old(state).tasks@[
            task_index as int
        ].phases,
        final (state).tasks@[task_index as int].commit_sha == old(state).tasks@[
            task_index as int
        ].commit_sha,
        final (state).tasks@[task_index as int].status@ == "in_progress"@,
{
    state.tasks[task_index].status = String::from_str("in_progress");
}

/// The read-only phase status query: looks the task and phase up by
/// trimmed id and reports the phase's status (`pending` when blank) along
/// with the task's recorded commit, if any.
pub fn forge_get_phase_status_core(state: &StateV2, task_id: &str, phase_id: &str) -> (r: Result<
    ForgePhaseStatusV1,
    String,
>)
    ensures
        ({
            let tid = trim_spec(task_id@);
            let pid = trim_spec(phase_id@);
            let ti = first_task_by_trimmed_id(state.tasks@, tid);
            &&& (r is Ok <==> tid.len() > 0 && pid.len() > 0 && ti >= 0
                && first_phase_by_trimmed_id(state.tasks@[ti].phases@, pid) >= 0)
            &&& (r matches Ok(ps) ==> {
                let task = state.tasks@[ti];
                let phase = task.phases@[first_phase_by_trimmed_id(task.phases@, pid)];
                &&& ps.status@ == if trim_spec(phase.status@).len() == 0 {
                    "pending"@
                } else {
                    trim_spec(phase.status@)
                }
                &&& match (ps.commit_sha, task.commit_sha) {
                    (Some(a), Some(b)) => a@ == b@,
                    (None, None) => true,
                    _ => false,
                }
            })
            &&& (r matches Err(e) ==> {
                ||| (tid.len() == 0 && e@ == "taskId is required"@)
                ||| (tid.len() > 0 && pid.len() == 0 && e@ == "phaseId is required"@)
                ||| (tid.len() > 0 && pid.len() > 0 && ti == -1 && e@ == "Unknown taskId: "@ + tid)
                ||| (tid.len() > 0 && pid.len() > 0 && ti >= 0 && first_phase_by_trimmed_id(
                    state.tasks@[ti].phases@,
                    pid,
                ) == -1 && e@ == "Unknown phaseId for task "@ + tid + ": "@ + pid)
            })
        }),
{
    let task_id = trim_str(task_id);
    let phase_id = trim_str(phase_id);
    if task_id.as_str().unicode_len() == 0 {
        return Err(String::from_str("taskId is required"));
    }
    if phase_id.as_str().unicode_len() == 0 {
        return Err(String::from_str("phaseId is required"));
    }
    let task_index = match find_state_task_index(state, task_id.as_str()) {
        Some(i) => i,
        None => {
            let mut msg = String::from_str("Unknown taskId: ");
            msg.append(task_id.as_str());
            return Err(msg);
        },
    };
    let task = &state.tasks[task_index];
    let phase_index = match find_phase_index(task, phase_id.as_str()) {
        Some(i) => i,
        None => {
            let mut msg = String::from_str("Unknown phaseId for task ");
            msg.append(task_id.as_str());
            msg.append(": ");
            msg.append(phase_id.as_str());
            return Err(msg);
        },
    };
    let status_trimmed = trim_str(task.phases[phase_index].status.as_str());
    let status = if status_trimmed.as_str().unicode_len() == 0 {
        String::from_str("pending")
    } else {
        status_trimmed
    };
    let commit_sha = match &task.commit_sha {
        Some(s) => Some(s.clone()),
        None => None,
    };
    Ok(ForgePhaseStatusV1 { status, commit_sha })
}

/// Selects the task and phase that the next prompt concerns: the first
/// runnable task and its first incomplete phase; a task without phase
/// records stands in for one virtual last phase named `implementation`.
/// `None` means every task is complete or blocked.
pub fn next_phase_prompt_decision(plan: &PlanV1, state: &StateV2) -> (r: Option<
    NextPhaseSelection,
>)
    ensures
        match r {
            Some(sel) => {
                let i = sel.task_index as int;
                let ti = state_task_index(state.tasks@, plan.tasks@[i].id@);
                &&& 0 <= i < plan.tasks@.len()
                &&& task_runnable_spec(*plan, *state, i)
                &&& forall|j: int| 0 <= j < i ==> !task_runnable_spec(*plan, *state, j)
                &&& sel.task_id@ == plan.tasks@[i].id@
                &&& {
                    let st = state.tasks@[ti];
                    let pi = first_incomplete_phase(st.phases@);
                    if pi >= 0 {
                        &&& sel.phase_id@ == st.phases@[pi].id@
                        &&& sel.is_last_phase == (pi + 1 >= st.phases@.len())
                    } else {
                        &&& sel.phase_id@ == "implementation"@
                        &&& sel.is_last_phase
                    }
                }
            },
            None => forall|j: int| 0 <= j < plan.tasks@.len() ==> !task_runnable_spec(*plan, *state, j),
        },
{
    let task_index = match find_next_runnable_task(plan, state) {
        Some(i) => i,
        None => {
            return None;
        },
    };
    let task = &plan.tasks[task_index];
    let task_state = match map_state_tasks(state, task.id.as_str()) {
        Some(t) => t,
        None => {
            // A runnable task always has a state entry.
            proof {
                assert(false);
            }
            return None;
        },
    };
    let (phase_id, is_last_phase) = match find_next_phase(task_state) {
        Some(pi) => {
            let phase_count = task_state.phases.len();
            (task_state.phases[pi].id.clone(), pi + 1 >= phase_count)
        },
        None => (String::from_str("implementation"), true),
    };
    Some(
        NextPhaseSelection {
            task_index,
            task_id: task.id.clone(),
            phase_id,
            is_last_phase,
        },
    )
}

/// How a recorded commit transforms the state: the task at `ti` gains the
/// SHA and becomes `completed`; nothing else changes.
pub open spec fn commit_recorded_rel(s1: StateV2, s2: StateV2, ti: int, sha: Seq<char>) -> bool {
    &&& state_unchanged_except_task(s1, s2, ti)
    &&& s2.tasks@[ti].id == s1.tasks@[ti].id
    &&& s2.tasks@[ti].attempts == s1.tasks@[ti].attempts
    &&& s2.tasks@[ti].notes == s1.tasks@[ti].notes
    &&& s2.tasks@[ti].phases == s1.tasks@[ti].phases
    &&& s2.tasks@[ti].commit_sha matches Some(c) && c@ == sha
    &&& s2.tasks@[ti].status@ == "completed"@
}

/// Law: running the same successful check batch twice is idempotent, and a
/// commit is created at most once per task. After a successful final batch
/// commits a task (`s0 → s1` records the batch, `s1 → s2` records the
/// commit with a non-blank SHA), a second successful run of the same batch
/// (`s2 → s3`) leaves every phase status and the task's status and commit
/// as they were, and the commit guard refuses a second commit.
pub proof fn lemma_second_successful_run_commits_nothing(
    s0: StateV2,
    s1: StateV2,
    s2: StateV2,
    s3: StateV2,
    ti: int,
    pi: int,
    sha: Seq<char>,
)
    requires
        0 <= ti < s0.tasks@.len(),
        0 <= pi < s0.tasks@[ti].phases@.len(),
        phase_outcome_rel(s0, s1, ti, pi, true),
        all_phases_completed_spec(s1.tasks@[ti]),
        !task_has_commit_spec(s1.tasks@[ti]),
        trim_spec(sha).len() > 0,
        commit_recorded_rel(s1, s2, ti, sha),
        phase_outcome_rel(s2, s3, ti, pi, true),
    ensures
        task_has_commit_spec(s2.tasks@[ti]),
        !(all_phases_completed_spec(s3.tasks@[ti]) && !task_has_commit_spec(s3.tasks@[ti])),
        s3.tasks@[ti].status@ == s2.tasks@[ti].status@,
        s3.tasks@[ti].commit_sha == s2.tasks@[ti].commit_sha,
        s3.tasks@[ti].phases@.len() == s2.tasks@[ti].phases@.len(),
        forall|k: int|
            0 <= k < s2.tasks@[ti].phases@.len() ==> (#[trigger] s3.tasks@[ti].phases@[k]).status@
                == s2.tasks@[ti].phases@[k].status@,
        forall|j: int| 0 <= j < s0.tasks@.len() && j != ti ==> s3.tasks@[j] == s2.tasks@[j],
{
    let t1 = s1.tasks@[ti];
    let t2 = s2.tasks@[ti];
    let t3 = s3.tasks@[ti];
    assert(task_has_commit_spec(t2));
    assert(t3.commit_sha == t2.commit_sha);
    assert(task_has_commit_spec(t3));
    assert(t2.phases == t1.phases);
    // The first run left the acted-on phase's status as the literal
    // `completed`, so the second run rewrites it to the same characters.
    assert(t2.phases@[pi].status@ == "completed"@);
    assert(t3.phases@[pi].status@ == "completed"@);
    assert forall|k: int| 0 <= k < t2.phases@.len() implies (#[trigger] t3.phases@[k]).status@
        == t2.phases@[k].status@ by {
        if k != pi {
            assert(t3.phases@[k] == t2.phases@[k]);
        }
    }
    assert(all_phases_completed_spec(t3)) by {
        assert(t3.phases@.len() > 0);
        assert forall|k: int| 0 <= k < t3.phases@.len() implies is_completed_spec(
            (#[trigger] t3.phases@[k]).status@,
        ) by {
            assert(t3.phases@[k].status@ == t2.phases@[k].status@);
            assert(is_completed_spec(t1.phases@[k].status@));
        }
    }
    assert(t3.status@ == "completed"@);
}

} // verus!
