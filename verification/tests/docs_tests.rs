use forge_engine::checks::CheckSpecValue;
use forge_engine::docs::{
    build_execution_paths, build_hook_context, load_plan, load_state, load_template_phases,
    require_installed_template_lock, require_plan_file, read_template_manifest,
    ForgeTemplateEntrypointsV1, ForgeTemplateHooksV1, ForgeTemplateLockV1, ForgeTemplateManifestV1,
    ForgeTemplatePhaseV1, ForgeTemplatePhasesV1, PlanV1, StateV2,
};
use forge_engine::hooks::{hook_outcome_to_result, HookOutcome};

fn manifest() -> ForgeTemplateManifestV1 {
    ForgeTemplateManifestV1 {
        schema: "forge-template-v1".to_string(),
        entrypoints: ForgeTemplateEntrypointsV1 {
            phases: "phases.json".to_string(),
            execute_prompt: "prompts/execute.md".to_string(),
            hooks: ForgeTemplateHooksV1 {
                post_plan: "scripts/post-plan.mjs".to_string(),
                pre_execute: "scripts/pre-execute.mjs".to_string(),
                post_step: "scripts/post-step.mjs".to_string(),
            },
        },
    }
}

fn lock() -> ForgeTemplateLockV1 {
    ForgeTemplateLockV1 {
        schema: "forge-template-lock-v1".to_string(),
        installed_template_id: "ralph-loop".to_string(),
        installed_template_version: "0.2.1".to_string(),
        installed_at_iso: "2026-02-11T00:00:00Z".to_string(),
        installed_files: vec!["template.json".to_string()],
    }
}

#[test]
fn execution_paths_are_resolved_from_the_lock_and_manifest() {
    let paths = build_execution_paths("/ws", "alpha", Some(lock()), true, &manifest()).unwrap();
    assert_eq!(paths.plan_id, "alpha");
    assert_eq!(paths.workspace_root, "/ws");
    assert_eq!(paths.template_root, "/ws/.agent/templates/ralph-loop");
    assert_eq!(paths.plan_dir, "/ws/plans/alpha");
    assert_eq!(paths.plan_path, "/ws/plans/alpha/plan.json");
    assert_eq!(paths.state_path, "/ws/plans/alpha/state.json");
    assert_eq!(paths.progress_path, "/ws/plans/alpha/progress.md");
    assert_eq!(paths.generated_plan_md_path, "/ws/plans/alpha/plan.md");
    assert_eq!(paths.generated_execute_prompt_path, "/ws/plans/alpha/execute-prompt.md");
    assert_eq!(paths.phases_path, "/ws/.agent/templates/ralph-loop/phases.json");
    assert_eq!(paths.post_plan_hook_path, "/ws/.agent/templates/ralph-loop/scripts/post-plan.mjs");
    assert_eq!(
        paths.pre_execute_hook_path,
        "/ws/.agent/templates/ralph-loop/scripts/pre-execute.mjs"
    );
    assert_eq!(paths.post_step_hook_path, "/ws/.agent/templates/ralph-loop/scripts/post-step.mjs");
}

#[test]
fn execution_paths_fail_without_a_lock_or_template_folder() {
    assert!(build_execution_paths("/ws", "Bad Id", Some(lock()), true, &manifest()).is_err());
    assert_eq!(
        build_execution_paths("/ws", "alpha", None, true, &manifest()).unwrap_err(),
        "No Forge template installed."
    );
    assert_eq!(
        build_execution_paths("/ws", "alpha", Some(lock()), false, &manifest()).unwrap_err(),
        "Installed Forge template folder is missing."
    );
    let mut bad_schema = manifest();
    bad_schema.schema = "forge-template-v0".to_string();
    assert_eq!(
        build_execution_paths("/ws", "alpha", Some(lock()), true, &bad_schema).unwrap_err(),
        "Unsupported template.json schema (expected forge-template-v1): forge-template-v0"
    );
    let mut bad_path = manifest();
    bad_path.entrypoints.hooks.post_step = "../escape.mjs".to_string();
    assert_eq!(
        build_execution_paths("/ws", "alpha", Some(lock()), true, &bad_path).unwrap_err(),
        "template file path may not use '..': ../escape.mjs"
    );
}

#[test]
fn the_template_lock_is_required() {
    assert_eq!(require_installed_template_lock(Some(lock())).unwrap().installed_template_id, "ralph-loop");
    assert_eq!(require_installed_template_lock(None).unwrap_err(), "No Forge template installed.");
    assert!(require_plan_file(true, "/ws/plans/alpha/plan.json").is_ok());
    assert_eq!(
        require_plan_file(false, "/ws/plans/alpha/plan.json").unwrap_err(),
        "Missing plan.json: /ws/plans/alpha/plan.json"
    );
    assert!(read_template_manifest(&manifest()).is_ok());
}

#[test]
fn plan_and_state_documents_must_carry_their_schema_and_id() {
    let plan = PlanV1 {
        schema: "plan-v1".to_string(),
        id: "alpha".to_string(),
        goal: "g".to_string(),
        tasks: vec![],
    };
    assert!(load_plan(&plan, "p", "alpha").is_ok());
    assert_eq!(
        load_plan(&plan, "p", "beta").unwrap_err(),
        "Plan id mismatch (expected beta, got alpha)"
    );
    let mut wrong = PlanV1 { schema: "plan-v2".to_string(), ..plan };
    assert_eq!(
        load_plan(&wrong, "plans/alpha/plan.json", "alpha").unwrap_err(),
        "Unsupported plan schema in plans/alpha/plan.json: plan-v2"
    );
    wrong.schema = " plan-v1 ".to_string();
    assert!(load_plan(&wrong, "p", "alpha").is_ok());

    let state = StateV2 {
        schema: "state-v2".to_string(),
        plan_id: "alpha".to_string(),
        iteration: 0,
        summary: String::new(),
        tasks: vec![],
    };
    assert!(load_state(&state, "s", "alpha").is_ok());
    assert_eq!(
        load_state(&state, "s", "beta").unwrap_err(),
        "State plan_id mismatch (expected beta, got alpha)"
    );
    let old = StateV2 { schema: "state-v1".to_string(), ..state };
    assert_eq!(
        load_state(&old, "plans/alpha/state.json", "alpha").unwrap_err(),
        "Unsupported state schema in plans/alpha/state.json: state-v1"
    );

    let phases = ForgeTemplatePhasesV1 {
        schema: "forge-phases-v1".to_string(),
        phases: vec![ForgeTemplatePhaseV1 {
            id: "implementation".to_string(),
            checks: vec![CheckSpecValue::Text("true".to_string())],
        }],
    };
    assert!(load_template_phases(&phases, "phases.json").is_ok());
    let bad = ForgeTemplatePhasesV1 { schema: "forge-phases-v2".to_string(), phases: vec![] };
    assert_eq!(
        load_template_phases(&bad, "phases.json").unwrap_err(),
        "Unsupported phases schema in phases.json: forge-phases-v2"
    );
}

#[test]
fn the_hook_context_carries_the_paths_and_the_date() {
    let paths = build_execution_paths("/ws", "alpha", Some(lock()), true, &manifest()).unwrap();
    let ctx = build_hook_context(&paths, "2026-02-12");
    assert_eq!(ctx.workspace_root, "/ws");
    assert_eq!(ctx.plan_id, "alpha");
    assert_eq!(ctx.state_path, "/ws/plans/alpha/state.json");
    assert_eq!(ctx.generated_execute_prompt_path, "/ws/plans/alpha/execute-prompt.md");
    assert_eq!(ctx.today_iso, "2026-02-12");
}

#[test]
fn hook_outcomes_become_the_operation_verdict() {
    assert!(hook_outcome_to_result(
        "s.mjs",
        HookOutcome::Completed {
            exit_code: Some(0),
            stdout: String::new(),
            stderr: String::new()
        }
    )
    .is_ok());
    assert_eq!(
        hook_outcome_to_result(
            "s.mjs",
            HookOutcome::Completed {
                exit_code: Some(1),
                stdout: "only stdout".to_string(),
                stderr: "  ".to_string()
            }
        )
        .unwrap_err(),
        "Hook failed (s.mjs): only stdout"
    );
    assert_eq!(
        hook_outcome_to_result("s.mjs", HookOutcome::SpawnFailed {
            message: "not found".to_string()
        })
        .unwrap_err(),
        "Failed to run hook s.mjs: not found"
    );
    assert_eq!(
        hook_outcome_to_result("s.mjs", HookOutcome::TimedOut).unwrap_err(),
        "Hook timed out after 120s: s.mjs"
    );
}
