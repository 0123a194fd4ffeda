//! Listing the plans of a workspace: which JSON documents count as plans,
//! how task statuses are joined in from a sibling state document, and how
//! duplicates are collapsed and the list ordered. The caller walks the
//! `plans` directory and decodes the files; everything after that happens
//! here.

use vstd::multiset::Multiset;
use vstd::prelude::*;

use crate::paths::{dir_spec, file_name_spec, file_stem, has_char, join_path, join_spec, split_at_last, stem_spec};
use crate::text::{dec_str, str_eq, trim_spec, trim_str, u64_to_string};

verus! {

/// One task of a listed plan, with its joined-in status.
pub struct ForgePlanTaskV1 {
    pub id: String,
    pub name: String,
    pub status: String,
}

/// One listed plan of a workspace.
pub struct ForgeWorkspacePlanV1 {
    pub id: String,
    pub title: Option<String>,
    pub goal: String,
    pub tasks: Vec<ForgePlanTaskV1>,
    pub current_task_id: Option<String>,
    pub plan_path: String,
    pub updated_at_ms: i64,
}

/// A decoded candidate plan document, with what the raw JSON showed: the
/// schema tag, whether the document carries a `phases` key, and whether
/// each task carries a `phase` key (both mark legacy phase-based plans).
pub struct PlanFileDoc {
    pub schema: String,
    pub id: String,
    pub title: Option<String>,
    pub goal: String,
    pub has_phases_key: bool,
    pub tasks: Vec<PlanDocTask>,
    pub plan_path: String,
    pub updated_at_ms: i64,
}

/// One task of a candidate plan document.
pub struct PlanDocTask {
    pub id: String,
    pub name: String,
    pub has_phase_key: bool,
}

/// A decoded sibling state document (schema `state-v1`).
pub struct WorkspaceStateV1 {
    pub schema: String,
    pub current_task: Option<String>,
    pub tasks: Vec<WorkspaceStateTaskV1>,
}

/// One task record of a sibling state document.
pub struct WorkspaceStateTaskV1 {
    pub id: String,
    pub status: String,
}

/// A candidate document is listed when it is a `plan-v1`, tasks-only plan
/// (no `phases` key, no task `phase` key), has a non-blank id, and its task
/// ids are exactly `task-1 .. task-n` in order.
pub open spec fn plan_doc_accepted(doc: PlanFileDoc) -> bool {
    &&& trim_spec(doc.schema@) == "plan-v1"@
    &&& !doc.has_phases_key
    &&& forall|i: int| 0 <= i < doc.tasks@.len() ==> !(#[trigger] doc.tasks@[i]).has_phase_key
    &&& trim_spec(doc.id@).len() > 0
    &&& forall|i: int|
        0 <= i < doc.tasks@.len() ==> trim_spec((#[trigger] doc.tasks@[i]).id@) == "task-"@
            + dec_str((i + 1) as nat)
}

/// Executable test for [`plan_doc_accepted`].
pub fn plan_doc_is_listed(doc: &PlanFileDoc) -> (r: bool)
    ensures
        r == plan_doc_accepted(*doc),
{
    let schema = trim_str(doc.schema.as_str());
    if !str_eq(schema.as_str(), "plan-v1") {
        return false;
    }
    if doc.has_phases_key {
        return false;
    }
    let id = trim_str(doc.id.as_str());
    if id.as_str().unicode_len() == 0 {
        return false;
    }
    let mut i: usize = 0;
    while i < doc.tasks.len()
        invariant
            0 <= i <= doc.tasks@.len(),
            forall|j: int| 0 <= j < i ==> !(#[trigger] doc.tasks@[j]).has_phase_key,
            forall|j: int|
                0 <= j < i ==> trim_spec((#[trigger] doc.tasks@[j]).id@) == "task-"@ + dec_str(
                    (j + 1) as nat,
                ),
        decreases doc.tasks@.len() - i,
    {
        if doc.tasks[i].has_phase_key {
            return false;
        }
        let mut expected = String::from_str("task-");
        expected.append(u64_to_string((i as u64) + 1).as_str());
        let tid = trim_str(doc.tasks[i].id.as_str());
        if !str_eq(tid.as_str(), expected.as_str()) {
            return false;
        }
        i = i + 1;
    }
    true
}

/// The index of the state record that decides the status of the task id
/// `id`: the last record whose trimmed id is `id` and whose trimmed status
/// is non-blank (blank records are ignored), or `-1`.
pub open spec fn state_status_index(tasks: Seq<WorkspaceStateTaskV1>, id: Seq<char>) -> int
    decreases tasks.len(),
{
    if tasks.len() == 0 {
        -1
    } else if trim_spec(tasks[tasks.len() - 1].id@) == id && id.len() > 0 && trim_spec(
        tasks[tasks.len() - 1].status@,
    ).len() > 0 {
        tasks.len() - 1
    } else {
        state_status_index(tasks.take(tasks.len() - 1), id)
    }
}

pub broadcast proof fn lemma_state_status_index_props(
    tasks: Seq<WorkspaceStateTaskV1>,
    id: Seq<char>,
)
    ensures
        #![trigger state_status_index(tasks, id)]
        -1 <= state_status_index(tasks, id) < tasks.len(),
        state_status_index(tasks, id) >= 0 ==> trim_spec(
            tasks[state_status_index(tasks, id)].id@,
        ) == id && trim_spec(tasks[state_status_index(tasks, id)].status@).len() > 0,
    decreases tasks.len(),
{
    if tasks.len() > 0 {
        lemma_state_status_index_props(tasks.take(tasks.len() - 1), id);
    }
}

/// A state document applies only when it carries the `state-v1` schema tag.
pub open spec fn state_applies(state: Option<WorkspaceStateV1>) -> bool {
    match state {
        Some(st) => trim_spec(st.schema@) == "state-v1"@,
        None => false,
    }
}

/// The status joined in for the plan task id `id` (trimmed): the deciding
/// state record's trimmed status, or `pending` when none applies.
pub open spec fn joined_status(state: Option<WorkspaceStateV1>, id: Seq<char>) -> Seq<char> {
    if state_applies(state) {
        let tasks = state.unwrap().tasks@;
        let k = state_status_index(tasks, id);
        if k >= 0 {
            trim_spec(tasks[k].status@)
        } else {
            "pending"@
        }
    } else {
        "pending"@
    }
}

fn lookup_status(state: &WorkspaceStateV1, id: &str) -> (r: Option<String>)
    ensures
        ({
            let k = state_status_index(state.tasks@, id@);
            match r {
                Some(s) => k >= 0 && s@ == trim_spec(state.tasks@[k].status@),
                None => k == -1,
            }
        }),
{
    let n = state.tasks.len();
    let mut i: usize = n;
    proof {
        assert(state.tasks@.take(n as int) =~= state.tasks@);
    }
    while i > 0
        invariant
            0 <= i <= n,
            n == state.tasks@.len(),
            state_status_index(state.tasks@, id@) == state_status_index(
                state.tasks@.take(i as int),
                id@,
            ),
        decreases i,
    {
        proof {
            assert(state.tasks@.take(i as int)[i - 1] == state.tasks@[i - 1]);
            assert(state.tasks@.take(i as int).take(i - 1) =~= state.tasks@.take(i - 1));
        }
        let tid = trim_str(state.tasks[i - 1].id.as_str());
        let status = trim_str(state.tasks[i - 1].status.as_str());
        if str_eq(tid.as_str(), id) && tid.as_str().unicode_len() > 0
            && status.as_str().unicode_len() > 0 {
            return Some(status);
        }
        i = i - 1;
    }
    proof {
        assert(state.tasks@.take(0) =~= Seq::<WorkspaceStateTaskV1>::empty());
    }
    None
}

/// Joins task statuses into a plan's tasks: each task keeps its id and name
/// and gains the status its trimmed id maps to, `pending` by default.
pub fn join_task_statuses(
    doc_tasks: &Vec<PlanDocTask>,
    state: &Option<WorkspaceStateV1>,
) -> (r: Vec<ForgePlanTaskV1>)
    ensures
        r@.len() == doc_tasks@.len(),
        forall|i: int|
            0 <= i < doc_tasks@.len() ==> {
                &&& (#[trigger] r@[i]).id == doc_tasks@[i].id
                &&& r@[i].name == doc_tasks@[i].name
                &&& r@[i].status@ == joined_status(*state, trim_spec(doc_tasks@[i].id@))
            },
{
    let applies = match state {
        Some(st) => {
            let schema = trim_str(st.schema.as_str());
            str_eq(schema.as_str(), "state-v1")
        },
        None => false,
    };
    let mut out: Vec<ForgePlanTaskV1> = Vec::new();
    let mut i: usize = 0;
    while i < doc_tasks.len()
        invariant
            0 <= i <= doc_tasks@.len(),
            out@.len() == i,
            applies == state_applies(*state),
            forall|j: int|
                0 <= j < i ==> {
                    &&& (#[trigger] out@[j]).id == doc_tasks@[j].id
                    &&& out@[j].name == doc_tasks@[j].name
                    &&& out@[j].status@ == joined_status(*state, trim_spec(doc_tasks@[j].id@))
                },
        decreases doc_tasks@.len() - i,
    {
        let tid = trim_str(doc_tasks[i].id.as_str());
        let status = if applies {
            match state {
                Some(st) => match lookup_status(st, tid.as_str()) {
                    Some(s) => s,
                    None => String::from_str("pending"),
                },
                None => String::from_str("pending"),
            }
        } else {
            String::from_str("pending")
        };
        out.push(
            ForgePlanTaskV1 {
                id: doc_tasks[i].id.clone(),
                name: doc_tasks[i].name.clone(),
                status,
            },
        );
        i = i + 1;
    }
    out
}

/// The current task a state document names: its `current_task`, trimmed,
/// when the document applies and the value is non-blank.
pub fn state_current_task(state: &Option<WorkspaceStateV1>) -> (r: Option<String>)
    ensures
        match r {
            Some(c) => state_applies(*state) && (state.unwrap().current_task matches Some(v) && c@
                == trim_spec(v@) && c@.len() > 0),
            None => !(state_applies(*state) && (state.unwrap().current_task matches Some(v)
                && trim_spec(v@).len() > 0)),
        },
{
    match state {
        Some(st) => {
            let schema = trim_str(st.schema.as_str());
            if !str_eq(schema.as_str(), "state-v1") {
                return None;
            }
            match &st.current_task {
                Some(v) => {
                    let c = trim_str(v.as_str());
                    if c.as_str().unicode_len() > 0 {
                        Some(c)
                    } else {
                        None
                    }
                },
                None => None,
            }
        },
        None => None,
    }
}

/// A plan title counts only when it is non-blank; it is kept trimmed.
pub fn normalize_plan_title(title: Option<String>) -> (r: Option<String>)
    ensures
        match r {
            Some(t) => title matches Some(v) && t@ == trim_spec(v@) && t@.len() > 0,
            None => !(title matches Some(v) && trim_spec(v@).len() > 0),
        },
{
    match title {
        Some(v) => {
            let t = trim_str(v.as_str());
            if t.as_str().unicode_len() > 0 {
                Some(t)
            } else {
                None
            }
        },
        None => None,
    }
}

/// Assembles one listed plan from an accepted document and its sibling
/// state: the id and title trimmed, the tasks joined with their statuses,
/// and the document's path and modification time kept.
pub fn build_workspace_plan(doc: PlanFileDoc, state: Option<WorkspaceStateV1>) -> (r:
    ForgeWorkspacePlanV1)
    ensures
        r.id@ == trim_spec(doc.id@),
        match r.title {
            Some(t) => doc.title matches Some(v) && t@ == trim_spec(v@) && t@.len() > 0,
            None => !(doc.title matches Some(v) && trim_spec(v@).len() > 0),
        },
        r.goal == doc.goal,
        r.tasks@.len() == doc.tasks@.len(),
        forall|i: int|
            0 <= i < doc.tasks@.len() ==> {
                &&& (#[trigger] r.tasks@[i]).id == doc.tasks@[i].id
                &&& r.tasks@[i].name == doc.tasks@[i].name
                &&& r.tasks@[i].status@ == joined_status(state, trim_spec(doc.tasks@[i].id@))
            },
        match r.current_task_id {
            Some(c) => state_applies(state) && (state.unwrap().current_task matches Some(v) && c@
                == trim_spec(v@) && c@.len() > 0),
            None => !(state_applies(state) && (state.unwrap().current_task matches Some(v)
                && trim_spec(v@).len() > 0)),
        },
        r.plan_path == doc.plan_path,
        r.updated_at_ms == doc.updated_at_ms,
{
    let tasks = join_task_statuses(&doc.tasks, &state);
    let current_task_id = state_current_task(&state);
    ForgeWorkspacePlanV1 {
        id: trim_str(doc.id.as_str()),
        title: normalize_plan_title(doc.title),
        goal: doc.goal,
        tasks,
        current_task_id,
        plan_path: doc.plan_path,
        updated_at_ms: doc.updated_at_ms,
    }
}

/// The index of the first plan in `plans` with the id `id`, or `-1`.
pub open spec fn first_plan_with_id(plans: Seq<ForgeWorkspacePlanV1>, id: Seq<char>) -> int
    decreases plans.len(),
{
    if plans.len() == 0 {
        -1
    } else if plans[0].id@ == id {
        0
    } else {
        let rest = first_plan_with_id(plans.skip(1), id);
        if rest < 0 {
            -1
        } else {
            rest + 1
        }
    }
}

pub broadcast proof fn lemma_first_plan_with_id_props(
    plans: Seq<ForgeWorkspacePlanV1>,
    id: Seq<char>,
)
    ensures
        #![trigger first_plan_with_id(plans, id)]
        -1 <= first_plan_with_id(plans, id) < plans.len(),
        first_plan_with_id(plans, id) >= 0 ==> plans[first_plan_with_id(plans, id)].id@ == id,
        first_plan_with_id(plans, id) == -1 ==> forall|i: int|
            0 <= i < plans.len() ==> (#[trigger] plans[i]).id@ != id,
        forall|i: int|
            0 <= i < first_plan_with_id(plans, id) ==> (#[trigger] plans[i]).id@ != id,
    decreases plans.len(),
{
    if plans.len() > 0 && plans[0].id@ != id {
        lemma_first_plan_with_id_props(plans.skip(1), id);
        assert forall|i: int| 1 <= i < plans.len() implies plans.skip(1)[i - 1] == plans[i] by {}
    }
}

proof fn lemma_first_plan_found(plans: Seq<ForgeWorkspacePlanV1>, id: Seq<char>, i: int)
    requires
        0 <= i < plans.len(),
        plans[i].id@ == id,
        forall|j: int| 0 <= j < i ==> (#[trigger] plans[j]).id@ != id,
    ensures
        first_plan_with_id(plans, id) == i,
    decreases i,
{
    if i > 0 {
        lemma_first_plan_found(plans.skip(1), id, i - 1);
        assert forall|j: int| 0 <= j < plans.skip(1).len() implies plans.skip(1)[j] == plans[j
            + 1] by {}
    }
}

fn find_plan_by_id(plans: &Vec<ForgeWorkspacePlanV1>, id: &str) -> (r: Option<usize>)
    ensures
        match r {
            Some(k) => first_plan_with_id(plans@, id@) == k as int && k < plans@.len(),
            None => first_plan_with_id(plans@, id@) == -1,
        },
{
    proof {
        broadcast use lemma_first_plan_with_id_props;

    }
    let mut k: usize = 0;
    while k < plans.len()
        invariant
            0 <= k <= plans@.len(),
            forall|j: int| 0 <= j < k ==> (#[trigger] plans@[j]).id@ != id@,
        decreases plans@.len() - k,
    {
        if str_eq(plans[k].id.as_str(), id) {
            proof {
                lemma_first_plan_found(plans@, id@, k as int);
            }
            return Some(k);
        }
        k = k + 1;
    }
    None
}

/// The list with duplicate ids collapsed, processing in order: a plan with
/// a fresh id is appended; one whose id is already present replaces the
/// earlier entry only when it is strictly newer.
pub open spec fn dedup_plans_spec(plans: Seq<ForgeWorkspacePlanV1>) -> Seq<ForgeWorkspacePlanV1>
    decreases plans.len(),
{
    if plans.len() == 0 {
        plans
    } else {
        let prev = dedup_plans_spec(plans.take(plans.len() - 1));
        let p = plans[plans.len() - 1];
        let k = first_plan_with_id(prev, p.id@);
        if k < 0 {
            prev.push(p)
        } else if p.updated_at_ms > prev[k].updated_at_ms {
            prev.update(k, p)
        } else {
            prev
        }
    }
}

/// Collapses duplicate plan ids, keeping the newest entry per id (the
/// earliest on a tie), as [`dedup_plans_spec`] describes.
pub fn dedup_plans_by_id(plans: Vec<ForgeWorkspacePlanV1>) -> (r: Vec<ForgeWorkspacePlanV1>)
    ensures
        r@ == dedup_plans_spec(plans@),
{
    proof {
        broadcast use lemma_first_plan_with_id_props;

    }
    let mut rest = plans;
    let mut out: Vec<ForgeWorkspacePlanV1> = Vec::new();
    let ghost all = rest@;
    let total = rest.len();
    let mut taken: usize = 0;
    proof {
        assert(all.take(0) =~= Seq::<ForgeWorkspacePlanV1>::empty());
    }
    while rest.len() > 0
        invariant
            0 <= taken <= total,
            total == all.len(),
            taken + rest@.len() == all.len(),
            rest@ == all.skip(taken as int),
            out@ == dedup_plans_spec(all.take(taken as int)),
        decreases rest@.len(),
    {
        proof {
            broadcast use lemma_first_plan_with_id_props;

        }
        let p = rest.remove(0);
        proof {
            assert(all.take(taken + 1).take(taken as int) =~= all.take(taken as int));
            assert(all.take(taken + 1)[taken as int] == all[taken as int]);
            assert(all.skip(taken as int)[0] == all[taken as int]);
            assert(all.skip(taken as int).skip(1) =~= all.skip(taken + 1));
        }
        match find_plan_by_id(&out, p.id.as_str()) {
            Some(k) => {
                if p.updated_at_ms > out[k].updated_at_ms {
                    out[k] = p;
                }
            },
            None => {
                out.push(p);
            },
        }
        taken = taken + 1;
    }
    proof {
        assert(all.take(taken as int) =~= all);
    }
    out
}

/// The list is ordered newest first.
pub open spec fn sorted_newest_first(plans: Seq<ForgeWorkspacePlanV1>) -> bool {
    forall|i: int, j: int|
        0 <= i < j < plans.len() ==> (#[trigger] plans[i]).updated_at_ms >= (#[trigger] plans[j]).updated_at_ms
}

/// Orders the plans newest first. The result holds exactly the given plans
/// (as a multiset) in non-increasing `updated_at_ms` order.
pub fn sort_plans_newest_first(plans: Vec<ForgeWorkspacePlanV1>) -> (r: Vec<ForgeWorkspacePlanV1>)
    ensures
        sorted_newest_first(r@),
        r@.to_multiset() == plans@.to_multiset(),
{
    proof {
        broadcast use vstd::seq_lib::group_to_multiset_ensures;

    }
    let mut rest = plans;
    let mut out: Vec<ForgeWorkspacePlanV1> = Vec::new();
    while rest.len() > 0
        invariant
            sorted_newest_first(out@),
            out@.to_multiset().add(rest@.to_multiset()) == plans@.to_multiset(),
            forall|i: int, j: int|
                0 <= i < out@.len() && 0 <= j < rest@.len() ==> (#[trigger] out@[i]).updated_at_ms
                    >= (#[trigger] rest@[j]).updated_at_ms,
        decreases rest@.len(),
    {
        let mut best: usize = 0;
        let mut k: usize = 1;
        while k < rest.len()
            invariant
                0 <= best < k <= rest@.len(),
                rest@.len() > 0,
                forall|j: int|
                    0 <= j < k ==> rest@[best as int].updated_at_ms >= (#[trigger] rest@[j]).updated_at_ms,
            decreases rest@.len() - k,
        {
            if rest[k].updated_at_ms > rest[best].updated_at_ms {
                best = k;
            }
            k = k + 1;
        }
        let ghost rest0 = rest@;
        let ghost out0 = out@;
        let picked = rest.remove(best);
        out.push(picked);
        proof {
            broadcast use vstd::seq_lib::group_to_multiset_ensures;

            assert(rest@.to_multiset() =~= rest0.to_multiset().remove(rest0[best as int]));
            assert(out@.to_multiset() =~= out0.to_multiset().insert(rest0[best as int]));
            assert(rest0.contains(rest0[best as int]));
            assert(rest0.to_multiset().count(rest0[best as int]) > 0);
            assert(out@.to_multiset().add(rest@.to_multiset()) =~= out0.to_multiset().add(
                rest0.to_multiset(),
            ));
            assert forall|j: int| 0 <= j < rest@.len() implies picked.updated_at_ms
                >= (#[trigger] rest@[j]).updated_at_ms by {
                if j < best {
                    assert(rest@[j] == rest0[j]);
                } else {
                    assert(rest@[j] == rest0[j + 1]);
                }
            }
        }
    }
    proof {
        assert(rest@.to_multiset() =~= Multiset::<ForgeWorkspacePlanV1>::empty());
        assert(out@.to_multiset().add(Multiset::<ForgeWorkspacePlanV1>::empty()) =~= out@
            .to_multiset());
    }
    out
}

/// A file modification time as milliseconds since the Unix epoch: the
/// caller's reading where one exists (clamped into `i64`), zero where the
/// platform gave none (or a time before the epoch).
pub fn system_time_to_unix_ms(millis_since_epoch: Option<u128>) -> (r: i64)
    ensures
        r == match millis_since_epoch {
            Some(ms) => ms as i64,
            None => 0i64,
        },
{
    match millis_since_epoch {
        Some(ms) => ms as i64,
        None => 0,
    }
}

/// The candidate locations of the state document that belongs to a plan
/// file, in the order they are probed: `state.json` beside a `plan.json`,
/// `<stem>.state.json` beside any other plan file, then
/// `<planId>.state.json` and `<planId>/state.json` under the plans
/// directory. The caller takes the first that exists.
pub fn resolve_state_path(plans_dir: &str, plan_path: &str, plan_id: &str) -> (r: Vec<String>)
    ensures
        r.deep_view() == ({
            let name = file_name_spec(plan_path@);
            let plan_dir = if has_char(plan_path@, '/') {
                dir_spec(plan_path@)
            } else {
                plans_dir@
            };
            let first = if name == "plan.json"@ {
                join_spec(plan_dir, "state.json"@)
            } else {
                join_spec(plan_dir, stem_spec(name) + ".state.json"@)
            };
            seq![
                first,
                join_spec(plans_dir@, plan_id@ + ".state.json"@),
                join_spec(join_spec(plans_dir@, plan_id@), "state.json"@),
            ]
        }),
{
    let (plan_dir, name): (String, String) = match split_at_last(plan_path, '/') {
        Some(parts) => parts,
        None => (plans_dir.to_owned(), plan_path.to_owned()),
    };
    let mut out: Vec<String> = Vec::new();
    if str_eq(name.as_str(), "plan.json") {
        out.push(join_path(plan_dir.as_str(), "state.json"));
    } else {
        let stem = file_stem(name.as_str());
        let mut state_name = stem;
        state_name.append(".state.json");
        out.push(join_path(plan_dir.as_str(), state_name.as_str()));
    }
    let mut by_id = plan_id.to_owned();
    by_id.append(".state.json");
    out.push(join_path(plans_dir, by_id.as_str()));
    let nested = join_path(plans_dir, plan_id);
    out.push(join_path(nested.as_str(), "state.json"));
    proof {
        assert(out.deep_view() =~= seq![out@[0]@, out@[1]@, out@[2]@]);
    }
    out
}

} // verus!
