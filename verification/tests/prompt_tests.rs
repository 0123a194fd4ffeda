use forge_engine::prompt::normalize_plan_prompt;

#[test]
fn normalize_plan_prompt_rewrites_legacy_file_write_instructions_for_plan_mode() {
    let legacy = r#"
# Mode: plan

## Output

- Choose a `plan_id` slug matching `^[a-z0-9][a-z0-9-]*[a-z0-9]$` (max 64 chars).
- Create `plans/<plan_id>.json` (create the `plans/` folder if needed).

After writing the file, respond with:

- `Plan ID: <plan_id>`
- `Path: plans/<plan_id>.json`
"#;

    let normalized = normalize_plan_prompt(legacy);
    assert!(normalized.contains("@plan"));
    assert!(normalized.contains("<proposed_plan>"));
    assert!(normalized.contains("Do NOT write any files yet."));
    assert!(!normalized.contains("After writing the file"));
    assert!(!normalized.contains("Path: plans/<plan_id>.json"));
}

#[test]
fn normalize_plan_prompt_prepends_the_plan_skill() {
    let normalized = normalize_plan_prompt("# Mode: plan\n\nDo things.\n");
    assert!(normalized.starts_with("@plan\n\n# Mode: plan\n"));
}

#[test]
fn normalize_plan_prompt_keeps_an_existing_plan_skill_line() {
    let prompt = "@plan\n\n# Mode: plan\n";
    assert_eq!(normalize_plan_prompt(prompt), prompt);
}

#[test]
fn normalize_plan_prompt_of_nothing_is_the_bare_skill_line() {
    assert_eq!(normalize_plan_prompt(""), "@plan\n");
    assert_eq!(normalize_plan_prompt("\n \n"), "@plan\n\n\n \n");
}

#[test]
fn normalize_plan_prompt_rewrites_skill_and_plan_paths() {
    let normalized = normalize_plan_prompt(
        "See .agent/skills/plan/SKILL.md and write plans/<plan_id>.json later.\n",
    );
    assert!(normalized.contains(".agents/skills/plan/SKILL.md"));
    assert!(normalized.contains("plans/<plan_id>/plan.json"));
    assert!(!normalized.contains("plans/<plan_id>.json"));
}
