use forge_engine::paths::{join_path, split_at_last, validate_relative_file_path, file_stem};
use forge_engine::plans::resolve_state_path;
use forge_engine::templates::find_bundled_templates_root_near_exe;

#[test]
fn validate_relative_file_path_rejects_unsafe() {
    assert!(validate_relative_file_path("../evil").is_err());
    assert!(validate_relative_file_path("/abs").is_err());
    assert!(validate_relative_file_path("").is_err());
    assert!(validate_relative_file_path("./prompts/plan.md").is_ok());
    assert!(validate_relative_file_path("skills/plan/SKILL.md").is_ok());
    assert!(validate_relative_file_path("prompts/plan.md").is_ok());
}

#[test]
fn validate_relative_file_path_rejects_inner_parent_components() {
    assert!(validate_relative_file_path("a/../b").is_err());
    assert!(validate_relative_file_path("a/b/..").is_err());
    assert!(validate_relative_file_path("..").is_err());
    assert!(validate_relative_file_path("a/..b/c").is_ok());
    assert!(validate_relative_file_path("a/b../c").is_ok());
    assert_eq!(validate_relative_file_path("  prompts/plan.md  ").unwrap(), "prompts/plan.md");
}

#[test]
fn join_path_inserts_exactly_one_separator() {
    assert_eq!(join_path("a", "b"), "a/b");
    assert_eq!(join_path("a/", "b"), "a/b");
    assert_eq!(join_path("", "b"), "b");
}

#[test]
fn split_at_last_splits_on_the_last_separator() {
    assert_eq!(split_at_last("a/b/c", '/'), Some(("a/b".to_string(), "c".to_string())));
    assert_eq!(split_at_last("abc", '/'), None);
    assert_eq!(file_stem("alpha.json"), "alpha");
    assert_eq!(file_stem("alpha"), "alpha");
    assert_eq!(file_stem(".json"), ".json");
    assert_eq!(file_stem("a.b.c"), "a.b");
}

#[test]
fn resolve_state_path_orders_the_candidates() {
    let plan_json = resolve_state_path("plans", "plans/nested/plan.json", "nested-plan");
    assert_eq!(
        plan_json,
        vec![
            "plans/nested/state.json".to_string(),
            "plans/nested-plan.state.json".to_string(),
            "plans/nested-plan/state.json".to_string(),
        ]
    );

    let named = resolve_state_path("plans", "plans/alpha.json", "alpha");
    assert_eq!(
        named,
        vec![
            "plans/alpha.state.json".to_string(),
            "plans/alpha.state.json".to_string(),
            "plans/alpha/state.json".to_string(),
        ]
    );
}

#[test]
fn bundled_template_candidates_probe_near_the_executable() {
    let candidates = find_bundled_templates_root_near_exe("bin/codex-monitor");
    assert_eq!(candidates.len(), 10);
    assert_eq!(candidates[0], "bin/resources/forge/templates");
    assert_eq!(candidates[1], "bin/resources/resources/forge/templates");
    assert_eq!(candidates[2], "bin/forge/templates");
    assert_eq!(candidates[3], "bin/resources/forge/templates");
    assert_eq!(candidates[4], "bin/../Resources/forge/templates");
    assert_eq!(candidates[9], "bin/../../resources/resources/forge/templates");
    assert!(find_bundled_templates_root_near_exe("").is_empty());
    assert!(find_bundled_templates_root_near_exe("/").is_empty());
}
