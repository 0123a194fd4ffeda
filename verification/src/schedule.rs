//! Task and phase scheduling: which task may run next (dependency
//! resolution in declaration order) and which phase of it is up. Pure and
//! synchronous: everything is computed from already-loaded documents.

use vstd::prelude::*;

use crate::docs::{PlanTaskV1, PlanV1, StatePhaseV2, StateTaskV2, StateV2};
use crate::text::{str_eq, trim_spec, trim_str};

verus! {

/// A status string counts as completed when it trims to `completed`.
pub open spec fn is_completed_spec(status: Seq<char>) -> bool {
    trim_spec(status) == "completed"@
}

/// Executable test for [`is_completed_spec`].
pub fn is_completed_status(status: &str) -> (r: bool)
    ensures
        r == is_completed_spec(status@),
{
    let t = trim_str(status);
    str_eq(t.as_str(), "completed")
}

/// Every phase of the task is completed; a task without phases stands in
/// for its one implicit phase, so its own status decides.
pub open spec fn all_phases_completed_spec(task: StateTaskV2) -> bool {
    if task.phases@.len() == 0 {
        is_completed_spec(task.status@)
    } else {
        forall|i: int|
            0 <= i < task.phases@.len() ==> is_completed_spec(#[trigger] task.phases@[i].status@)
    }
}

/// Executable test for [`all_phases_completed_spec`].
pub fn are_all_task_phases_completed(task: &StateTaskV2) -> (r: bool)
    ensures
        r == all_phases_completed_spec(*task),
{
    if task.phases.len() == 0 {
        return is_completed_status(task.status.as_str());
    }
    let mut i: usize = 0;
    while i < task.phases.len()
        invariant
            0 <= i <= task.phases@.len(),
            forall|j: int|
                0 <= j < i ==> is_completed_spec(#[trigger] task.phases@[j].status@),
        decreases task.phases@.len() - i,
    {
        if !is_completed_status(task.phases[i].status.as_str()) {
            return false;
        }
        i = i + 1;
    }
    true
}

/// A task is complete when its own status is completed and every phase is.
pub open spec fn task_completed_spec(task: StateTaskV2) -> bool {
    is_completed_spec(task.status@) && all_phases_completed_spec(task)
}

/// Executable test for [`task_completed_spec`].
pub fn is_task_completed(task: &StateTaskV2) -> (r: bool)
    ensures
        r == task_completed_spec(*task),
{
    if !is_completed_status(task.status.as_str()) {
        return false;
    }
    are_all_task_phases_completed(task)
}

/// The index of the state entry that the id `id` maps to: the last entry
/// whose id equals `id` exactly, or `-1` when there is none. (A later
/// duplicate shadows an earlier one.)
pub open spec fn state_task_index(tasks: Seq<StateTaskV2>, id: Seq<char>) -> int
    decreases tasks.len(),
{
    if tasks.len() == 0 {
        -1
    } else if tasks[tasks.len() - 1].id@ == id {
        tasks.len() - 1
    } else {
        state_task_index(tasks.take(tasks.len() - 1), id)
    }
}

pub broadcast proof fn lemma_state_task_index_props(tasks: Seq<StateTaskV2>, id: Seq<char>)
    ensures
        #![trigger state_task_index(tasks, id)]
        -1 <= state_task_index(tasks, id) < tasks.len(),
        state_task_index(tasks, id) >= 0 ==> tasks[state_task_index(tasks, id)].id@ == id,
        state_task_index(tasks, id) == -1 ==> forall|i: int|
            0 <= i < tasks.len() ==> (#[trigger] tasks[i].id@) != id,
    decreases tasks.len(),
{
    if tasks.len() > 0 && tasks[tasks.len() - 1].id@ != id {
        lemma_state_task_index_props(tasks.take(tasks.len() - 1), id);
        assert forall|i: int| 0 <= i < tasks.len() - 1 implies tasks.take(tasks.len() - 1)[i]
            == tasks[i] by {}
    }
}

/// The id-to-entry map over the state's tasks, queried at `task_id`: the
/// entry the id maps to, or `None` when the state holds no entry with that
/// exact id.
pub fn map_state_tasks<'a>(state: &'a StateV2, task_id: &str) -> (r: Option<&'a StateTaskV2>)
    ensures
        match r {
            Some(t) => state_task_index(state.tasks@, task_id@) >= 0 && *t == state.tasks@[
                state_task_index(state.tasks@, task_id@)
            ],
            None => state_task_index(state.tasks@, task_id@) == -1,
        },
{
    let n = state.tasks.len();
    let mut i: usize = n;
    proof {
        assert(state.tasks@.take(n as int) =~= state.tasks@);
    }
    while i > 0
        invariant
            0 <= i <= n,
            n == state.tasks@.len(),
            state_task_index(state.tasks@, task_id@) == state_task_index(
                state.tasks@.take(i as int),
                task_id@,
            ),
        decreases i,
    {
        proof {
            assert(state.tasks@.take(i as int)[i - 1] == state.tasks@[i - 1]);
            assert(state.tasks@.take(i as int).take(i - 1) =~= state.tasks@.take(i - 1));
        }
        if str_eq(state.tasks[i - 1].id.as_str(), task_id) {
            return Some(&state.tasks[i - 1]);
        }
        i = i - 1;
    }
    proof {
        assert(state.tasks@.take(0) =~= Seq::<StateTaskV2>::empty());
    }
    None
}

/// A single dependency reference is satisfied: blank references are
/// ignored; any other must map to a state entry that is complete. A
/// reference with no state entry is unsatisfied, not an error.
pub open spec fn dep_satisfied_spec(state: StateV2, dep: Seq<char>) -> bool {
    let d = trim_spec(dep);
    d.len() == 0 || (state_task_index(state.tasks@, d) >= 0 && task_completed_spec(
        state.tasks@[state_task_index(state.tasks@, d)],
    ))
}

/// Every dependency of the task is satisfied.
pub open spec fn deps_satisfied_spec(task: PlanTaskV1, state: StateV2) -> bool {
    forall|i: int|
        0 <= i < task.depends_on@.len() ==> dep_satisfied_spec(
            state,
            (#[trigger] task.depends_on@[i])@,
        )
}

/// Executable test for [`deps_satisfied_spec`].
pub fn is_task_dependencies_satisfied(task: &PlanTaskV1, state: &StateV2) -> (r: bool)
    ensures
        r == deps_satisfied_spec(*task, *state),
{
    let mut i: usize = 0;
    while i < task.depends_on.len()
        invariant
            0 <= i <= task.depends_on@.len(),
            forall|j: int|
                0 <= j < i ==> dep_satisfied_spec(*state, (#[trigger] task.depends_on@[j])@),
        decreases task.depends_on@.len() - i,
    {
        let dep_id = trim_str(task.depends_on[i].as_str());
        if dep_id.as_str().unicode_len() > 0 {
            match map_state_tasks(state, dep_id.as_str()) {
                Some(state_task) => {
                    if !is_task_completed(state_task) {
                        return false;
                    }
                },
                None => {
                    return false;
                },
            }
        }
        i = i + 1;
    }
    true
}

/// The plan task at `i` is runnable: it has a state entry, that entry is
/// not yet complete, and every dependency is satisfied.
pub open spec fn task_runnable_spec(plan: PlanV1, state: StateV2, i: int) -> bool {
    let t = plan.tasks@[i];
    &&& state_task_index(state.tasks@, t.id@) >= 0
    &&& !task_completed_spec(state.tasks@[state_task_index(state.tasks@, t.id@)])
    &&& deps_satisfied_spec(t, state)
}

/// The index of the first runnable task of the plan, in declaration order
/// (the deliberate topological tie-break), or `None` when every task is
/// complete or blocked. A plan task without a state entry is skipped.
pub fn find_next_runnable_task(plan: &PlanV1, state: &StateV2) -> (r: Option<usize>)
    ensures
        match r {
            Some(i) => 0 <= i < plan.tasks@.len() && task_runnable_spec(*plan, *state, i as int)
                && forall|j: int| 0 <= j < i ==> !task_runnable_spec(*plan, *state, j),
            None => forall|j: int|
                0 <= j < plan.tasks@.len() ==> !task_runnable_spec(*plan, *state, j),
        },
{
    let mut i: usize = 0;
    while i < plan.tasks.len()
        invariant
            0 <= i <= plan.tasks@.len(),
            forall|j: int| 0 <= j < i ==> !task_runnable_spec(*plan, *state, j),
        decreases plan.tasks@.len() - i,
    {
        let task = &plan.tasks[i];
        match map_state_tasks(state, task.id.as_str()) {
            Some(state_task) => {
                if !is_task_completed(state_task) && is_task_dependencies_satisfied(task, state) {
                    return Some(i);
                }
            },
            None => {},
        }
        i = i + 1;
    }
    None
}

/// The index of the first phase whose status is not completed, or `-1`
/// when every phase is (or the task has none).
pub open spec fn first_incomplete_phase(phases: Seq<StatePhaseV2>) -> int
    decreases phases.len(),
{
    if phases.len() == 0 {
        -1
    } else if !is_completed_spec(phases[0].status@) {
        0
    } else {
        let rest = first_incomplete_phase(phases.skip(1));
        if rest < 0 {
            -1
        } else {
            rest + 1
        }
    }
}

pub broadcast proof fn lemma_first_incomplete_phase_props(phases: Seq<StatePhaseV2>)
    ensures
        #![trigger first_incomplete_phase(phases)]
        -1 <= first_incomplete_phase(phases) < phases.len(),
        first_incomplete_phase(phases) >= 0 ==> !is_completed_spec(
            phases[first_incomplete_phase(phases)].status@,
        ),
        first_incomplete_phase(phases) >= 0 ==> forall|j: int|
            0 <= j < first_incomplete_phase(phases) ==> is_completed_spec(
                (#[trigger] phases[j]).status@,
            ),
        first_incomplete_phase(phases) == -1 ==> forall|j: int|
            0 <= j < phases.len() ==> is_completed_spec((#[trigger] phases[j]).status@),
    decreases phases.len(),
{
    if phases.len() > 0 {
        lemma_first_incomplete_phase_props(phases.skip(1));
        assert forall|j: int| 1 <= j < phases.len() implies phases.skip(1)[j - 1] == phases[j] by {}
    }
}

/// The index of the first incomplete phase of the task, or `None` when all
/// are complete (or the task has no phases).
pub fn find_next_phase(task: &StateTaskV2) -> (r: Option<usize>)
    ensures
        match r {
            Some(i) => 0 <= i < task.phases@.len() && i == first_incomplete_phase(task.phases@),
            None => first_incomplete_phase(task.phases@) == -1,
        },
{
    proof {
        broadcast use lemma_first_incomplete_phase_props;

    }
    let mut i: usize = 0;
    while i < task.phases.len()
        invariant
            0 <= i <= task.phases@.len(),
            forall|j: int|
                0 <= j < i ==> is_completed_spec((#[trigger] task.phases@[j]).status@),
        decreases task.phases@.len() - i,
    {
        if !is_completed_status(task.phases[i].status.as_str()) {
            proof {
                lemma_first_incomplete_at(task.phases@, i as int);
            }
            return Some(i);
        }
        i = i + 1;
    }
    None
}

proof fn lemma_first_incomplete_at(phases: Seq<StatePhaseV2>, i: int)
    requires
        0 <= i < phases.len(),
        !is_completed_spec(phases[i].status@),
        forall|j: int| 0 <= j < i ==> is_completed_spec((#[trigger] phases[j]).status@),
    ensures
        first_incomplete_phase(phases) == i,
    decreases i,
{
    if i > 0 {
        lemma_first_incomplete_at(phases.skip(1), i - 1);
        assert forall|j: int| 0 <= j < phases.skip(1).len() implies phases.skip(1)[j] == phases[j
            + 1] by {}
    }
}

/// Law: the scheduler returns nothing exactly when every task is complete
/// or blocked. [`find_next_runnable_task`] answers `None` precisely when no
/// task is runnable, and a task fails to be runnable for exactly one of
/// three reasons: it has no state entry, its state entry is already
/// complete, or some dependency is unsatisfied.
pub proof fn lemma_none_means_complete_or_blocked(plan: PlanV1, state: StateV2, i: int)
    requires
        0 <= i < plan.tasks@.len(),
    ensures
        !task_runnable_spec(plan, state, i) <==> {
            ||| state_task_index(state.tasks@, plan.tasks@[i].id@) == -1
            ||| (state_task_index(state.tasks@, plan.tasks@[i].id@) >= 0 && task_completed_spec(
                state.tasks@[state_task_index(state.tasks@, plan.tasks@[i].id@)],
            ))
            ||| !deps_satisfied_spec(plan.tasks@[i], state)
        },
{
    lemma_state_task_index_props(state.tasks@, plan.tasks@[i].id@);
}

/// Law: the scheduler never selects a task with an unmet dependency. A
/// runnable task has every non-blank dependency recorded in state, and that
/// record complete; [`find_next_runnable_task`] returns only runnable
/// tasks.
pub proof fn lemma_runnable_task_dependencies_met(plan: PlanV1, state: StateV2, i: int, d: int)
    requires
        0 <= i < plan.tasks@.len(),
        task_runnable_spec(plan, state, i),
        0 <= d < plan.tasks@[i].depends_on@.len(),
        trim_spec(plan.tasks@[i].depends_on@[d]@).len() > 0,
    ensures
        state_task_index(state.tasks@, trim_spec(plan.tasks@[i].depends_on@[d]@)) >= 0,
        task_completed_spec(
            state.tasks@[state_task_index(state.tasks@, trim_spec(plan.tasks@[i].depends_on@[d]@))],
        ),
{
    assert(dep_satisfied_spec(state, plan.tasks@[i].depends_on@[d]@));
}

} // verus!
