use forge_engine::plans::{
    build_workspace_plan, dedup_plans_by_id, plan_doc_is_listed, sort_plans_newest_first,
    system_time_to_unix_ms, ForgeWorkspacePlanV1, PlanDocTask, PlanFileDoc, WorkspaceStateTaskV1,
    WorkspaceStateV1,
};

fn doc_task(id: &str) -> PlanDocTask {
    PlanDocTask {
        id: id.to_string(),
        name: format!("{id} name"),
        has_phase_key: false,
    }
}

fn plan_doc(id: &str) -> PlanFileDoc {
    PlanFileDoc {
        schema: "plan-v1".to_string(),
        id: id.to_string(),
        title: Some("Alpha".to_string()),
        goal: "Alpha goal".to_string(),
        has_phases_key: false,
        tasks: vec![doc_task("task-1"), doc_task("task-2")],
        plan_path: format!("plans/{id}.json"),
        updated_at_ms: 100,
    }
}

#[test]
fn only_tasks_only_plan_v1_documents_are_listed() {
    assert!(plan_doc_is_listed(&plan_doc("alpha")));

    let mut wrong_schema = plan_doc("alpha");
    wrong_schema.schema = "not-a-plan".to_string();
    assert!(!plan_doc_is_listed(&wrong_schema));

    let mut legacy = plan_doc("alpha");
    legacy.has_phases_key = true;
    assert!(!plan_doc_is_listed(&legacy));

    let mut task_phase = plan_doc("alpha");
    task_phase.tasks[1].has_phase_key = true;
    assert!(!plan_doc_is_listed(&task_phase));

    let mut blank_id = plan_doc("alpha");
    blank_id.id = "  ".to_string();
    assert!(!plan_doc_is_listed(&blank_id));

    let mut out_of_order = plan_doc("alpha");
    out_of_order.tasks[0].id = "task-2".to_string();
    assert!(!plan_doc_is_listed(&out_of_order));
}

#[test]
fn statuses_come_from_the_matching_state_entry_or_default_to_pending() {
    let state = WorkspaceStateV1 {
        schema: "state-v1".to_string(),
        current_task: Some(" task-1 ".to_string()),
        tasks: vec![
            WorkspaceStateTaskV1 { id: "task-1".to_string(), status: " in_progress ".to_string() },
            WorkspaceStateTaskV1 { id: "task-2".to_string(), status: "  ".to_string() },
        ],
    };
    let plan = build_workspace_plan(plan_doc("alpha"), Some(state));
    assert_eq!(plan.id, "alpha");
    assert_eq!(plan.title.as_deref(), Some("Alpha"));
    assert_eq!(plan.goal, "Alpha goal");
    assert_eq!(plan.current_task_id.as_deref(), Some("task-1"));
    assert_eq!(plan.tasks[0].status, "in_progress");
    assert_eq!(plan.tasks[1].status, "pending");
    assert_eq!(plan.plan_path, "plans/alpha.json");
    assert_eq!(plan.updated_at_ms, 100);
}

#[test]
fn a_state_with_the_wrong_schema_is_ignored() {
    let state = WorkspaceStateV1 {
        schema: "state-v2".to_string(),
        current_task: Some("task-1".to_string()),
        tasks: vec![WorkspaceStateTaskV1 {
            id: "task-1".to_string(),
            status: "completed".to_string(),
        }],
    };
    let plan = build_workspace_plan(plan_doc("alpha"), Some(state));
    assert_eq!(plan.current_task_id, None);
    assert_eq!(plan.tasks[0].status, "pending");
}

fn listed(id: &str, updated_at_ms: i64) -> ForgeWorkspacePlanV1 {
    ForgeWorkspacePlanV1 {
        id: id.to_string(),
        title: None,
        goal: String::new(),
        tasks: vec![],
        current_task_id: None,
        plan_path: format!("plans/{id}.json"),
        updated_at_ms,
    }
}

#[test]
fn duplicate_plan_ids_keep_the_newest_entry() {
    let deduped = dedup_plans_by_id(vec![
        listed("alpha", 100),
        listed("beta", 50),
        listed("alpha", 200),
        listed("beta", 50),
    ]);
    assert_eq!(deduped.len(), 2);
    assert_eq!(deduped[0].id, "alpha");
    assert_eq!(deduped[0].updated_at_ms, 200);
    assert_eq!(deduped[1].id, "beta");
    assert_eq!(deduped[1].updated_at_ms, 50);
}

#[test]
fn plans_are_listed_newest_first() {
    let sorted = sort_plans_newest_first(vec![
        listed("old", 10),
        listed("new", 300),
        listed("mid", 200),
    ]);
    assert_eq!(sorted[0].id, "new");
    assert_eq!(sorted[1].id, "mid");
    assert_eq!(sorted[2].id, "old");
}

#[test]
fn modification_times_default_to_zero() {
    assert_eq!(system_time_to_unix_ms(Some(12345)), 12345);
    assert_eq!(system_time_to_unix_ms(None), 0);
}
