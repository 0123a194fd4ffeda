use forge_engine::templates::{
    exclude_content_with, plan_template_files, read_manifest, require_manifest_id_matches,
    sort_templates_by_title, ForgeBundledTemplateInfo, TemplateEntrypoints, TemplateHooks,
    TemplateManifest,
};

fn manifest(id: &str) -> TemplateManifest {
    TemplateManifest {
        schema: "forge-template-v1".to_string(),
        id: id.to_string(),
        title: "Ralph Loop".to_string(),
        version: "0.2.1".to_string(),
        files: vec!["template.json".to_string(), "skills/plan/SKILL.md".to_string()],
        entrypoints: TemplateEntrypoints {
            phases: "phases.json".to_string(),
            plan_prompt: "prompts/plan.md".to_string(),
            execute_prompt: "prompts/execute.md".to_string(),
            plan_schema: "schemas/plan.schema.json".to_string(),
            state_schema: "schemas/state.schema.json".to_string(),
            required_skills: vec![],
            hooks: TemplateHooks {
                post_plan: "scripts/post-plan.mjs".to_string(),
                pre_execute: "scripts/pre-execute.mjs".to_string(),
                post_step: "scripts/post-step.mjs".to_string(),
            },
        },
    }
}

#[test]
fn read_manifest_rejects_unknown_schema() {
    assert!(read_manifest(&manifest("ralph-loop")).is_ok());
    let mut bad = manifest("bad-schema");
    bad.schema = "forge-template-v0".to_string();
    let err = read_manifest(&bad).unwrap_err();
    assert!(err.contains("Unsupported template.json schema"));
}

#[test]
fn install_fails_when_manifest_id_mismatches_folder() {
    assert!(require_manifest_id_matches(&manifest("folder-id"), "folder-id").is_ok());
    let err = require_manifest_id_matches(&manifest("different-id"), "folder-id").unwrap_err();
    assert!(err.contains("template.json id does not match template folder"));
}

#[test]
fn template_files_are_validated_and_skills_are_mirrored() {
    let copies = plan_template_files(&manifest("ralph-loop").files).unwrap();
    assert_eq!(copies.len(), 2);
    assert_eq!(copies[0].rel, "template.json");
    assert_eq!(copies[0].skill_sub, None);
    assert_eq!(copies[1].rel, "skills/plan/SKILL.md");
    assert_eq!(copies[1].skill_sub.as_deref(), Some("plan/SKILL.md"));

    assert!(plan_template_files(&vec!["../evil".to_string()]).is_err());
    assert!(plan_template_files(&vec!["/abs".to_string()]).is_err());
}

#[test]
fn the_exclude_file_gains_the_entry_exactly_once() {
    let first = exclude_content_with("target/", ".agent/").unwrap();
    assert_eq!(first, "target/\n.agent/\n");
    assert_eq!(exclude_content_with(&first, ".agent/"), None);
    assert_eq!(exclude_content_with("", ".agent/").unwrap(), ".agent/\n");
    assert_eq!(exclude_content_with("target/\n", ".agent/").unwrap(), "target/\n.agent/\n");
    assert_eq!(exclude_content_with(" .agent/ \n", ".agent/"), None);
}

fn info(id: &str, title: &str) -> ForgeBundledTemplateInfo {
    ForgeBundledTemplateInfo {
        id: id.to_string(),
        title: title.to_string(),
        version: "1.0.0".to_string(),
    }
}

#[test]
fn bundled_templates_sort_by_case_folded_title() {
    let sorted = sort_templates_by_title(vec![
        info("beta", "beta"),
        info("alpha", "Alpha"),
        info("gamma", "ALPHA extras"),
    ]);
    assert_eq!(sorted[0].id, "alpha");
    assert_eq!(sorted[1].id, "gamma");
    assert_eq!(sorted[2].id, "beta");
}
