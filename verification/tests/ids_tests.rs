use forge_engine::ids::{validate_plan_id, validate_template_id};

#[test]
fn validate_template_id_accepts_valid() {
    assert!(validate_template_id("ralph-loop").is_ok());
    assert!(validate_template_id("a").is_ok());
    assert!(validate_template_id("a1-2b").is_ok());
}

#[test]
fn validate_template_id_rejects_invalid() {
    assert!(validate_template_id("").is_err());
    assert!(validate_template_id(" ").is_err());
    assert!(validate_template_id(&"a".repeat(65)).is_err());
    assert!(validate_template_id("-bad").is_err());
    assert!(validate_template_id("bad-").is_err());
    assert!(validate_template_id("Bad").is_err());
    assert!(validate_template_id("bad_underscore").is_err());
    assert!(validate_template_id("bad/slash").is_err());
}

#[test]
fn validate_plan_id_accepts_slugs_and_trims() {
    assert_eq!(validate_plan_id("alpha").unwrap(), "alpha");
    assert_eq!(validate_plan_id("  alpha-2  ").unwrap(), "alpha-2");
    assert_eq!(validate_plan_id("0plan9").unwrap(), "0plan9");
    assert!(validate_plan_id(&"a".repeat(64)).is_ok());
}

#[test]
fn validate_plan_id_rejects_invalid() {
    assert_eq!(validate_plan_id("").unwrap_err(), "planId is required");
    assert_eq!(validate_plan_id("   ").unwrap_err(), "planId is required");
    assert_eq!(validate_plan_id(&"a".repeat(65)).unwrap_err(), "planId is too long");
    assert_eq!(
        validate_plan_id("-alpha").unwrap_err(),
        "planId must start and end with [a-z0-9]"
    );
    assert_eq!(
        validate_plan_id("alpha-").unwrap_err(),
        "planId must start and end with [a-z0-9]"
    );
    assert_eq!(
        validate_plan_id("al_pha").unwrap_err(),
        "planId must match ^[a-z0-9][a-z0-9-]*[a-z0-9]$"
    );
    assert!(validate_plan_id("Alpha").is_err());
    assert!(validate_plan_id("plan id").is_err());
}
