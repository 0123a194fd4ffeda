//! The engine's documents and their validation: the plan, the execution
//! state, the template manifest and phase definition, the installed-template
//! lock, and the bundle of paths every operation works with. The caller
//! reads and decodes the files; the functions here enforce the schema tags
//! and cross-reference invariants and assemble the path bundle.

use vstd::prelude::*;

use crate::checks::CheckSpecValue;
use crate::ids::{is_valid_slug, validate_plan_id};
use crate::paths::{is_safe_relative_path, join_path, join_spec, validate_relative_file_path};
use crate::text::{str_eq, trim_spec, trim_str};

verus! {

/// A plan task: a unit of work gated by the tasks named in `depends_on`.
pub struct PlanTaskV1 {
    pub id: String,
    pub name: String,
    pub depends_on: Vec<String>,
}

/// A plan document (schema `plan-v1`).
pub struct PlanV1 {
    pub schema: String,
    pub id: String,
    pub goal: String,
    pub tasks: Vec<PlanTaskV1>,
}

/// One phase's progress record within a state task.
pub struct StatePhaseV2 {
    pub id: String,
    pub status: String,
    pub attempts: i64,
    pub notes: String,
}

/// One task's progress record within a state document.
pub struct StateTaskV2 {
    pub id: String,
    pub status: String,
    pub attempts: i64,
    pub notes: String,
    pub commit_sha: Option<String>,
    pub phases: Vec<StatePhaseV2>,
}

/// An execution state document (schema `state-v2`), the one mutable record
/// the engine persists.
pub struct StateV2 {
    pub schema: String,
    pub plan_id: String,
    pub iteration: i64,
    pub summary: String,
    pub tasks: Vec<StateTaskV2>,
}

/// The hook script entrypoints of a template manifest.
pub struct ForgeTemplateHooksV1 {
    pub post_plan: String,
    pub pre_execute: String,
    pub post_step: String,
}

/// The entrypoints of a template manifest that execution touches.
pub struct ForgeTemplateEntrypointsV1 {
    pub phases: String,
    pub execute_prompt: String,
    pub hooks: ForgeTemplateHooksV1,
}

/// A template manifest (schema `forge-template-v1`), as execution reads it.
pub struct ForgeTemplateManifestV1 {
    pub schema: String,
    pub entrypoints: ForgeTemplateEntrypointsV1,
}

/// One phase of a template's phase definition, with its declared checks.
pub struct ForgeTemplatePhaseV1 {
    pub id: String,
    pub checks: Vec<CheckSpecValue>,
}

/// A phase-definition document (schema `forge-phases-v1`).
pub struct ForgeTemplatePhasesV1 {
    pub schema: String,
    pub phases: Vec<ForgeTemplatePhaseV1>,
}

/// The installed-template lock record.
#[derive(Debug)]
pub struct ForgeTemplateLockV1 {
    pub schema: String,
    pub installed_template_id: String,
    pub installed_template_version: String,
    pub installed_at_iso: String,
    pub installed_files: Vec<String>,
}

/// Every path one plan's execution touches, fixed once up front.
#[derive(Debug)]
pub struct ForgeExecutionPaths {
    pub plan_id: String,
    pub workspace_root: String,
    pub template_root: String,
    pub plan_dir: String,
    pub plan_path: String,
    pub state_path: String,
    pub progress_path: String,
    pub generated_plan_md_path: String,
    pub generated_execute_prompt_path: String,
    pub phases_path: String,
    pub post_plan_hook_path: String,
    pub pre_execute_hook_path: String,
    pub post_step_hook_path: String,
}

/// The context handed to a hook script, serialized for it by the caller.
pub struct ForgeHookContextV1 {
    pub workspace_root: String,
    pub template_root: String,
    pub plan_id: String,
    pub plan_dir: String,
    pub plan_path: String,
    pub state_path: String,
    pub progress_path: String,
    pub generated_plan_md_path: String,
    pub generated_execute_prompt_path: String,
    pub today_iso: String,
}

/// Where a plan's files live: `<workspace>/plans/<planId>`.
pub open spec fn plan_dir_spec(workspace_root: Seq<char>, plan_id: Seq<char>) -> Seq<char> {
    join_spec(join_spec(workspace_root, "plans"@), plan_id)
}

/// Where an installed template lives:
/// `<workspace>/.agent/templates/<templateId>`.
pub open spec fn template_root_spec(workspace_root: Seq<char>, template_id: Seq<char>) -> Seq<
    char,
> {
    join_spec(join_spec(join_spec(workspace_root, ".agent"@), "templates"@), template_id)
}

/// The path of the installed template named by a lock record.
pub fn template_root_path(workspace_root: &str, template_id: &str) -> (r: String)
    ensures
        r@ == template_root_spec(workspace_root@, template_id@),
{
    let agent = join_path(workspace_root, ".agent");
    let templates = join_path(agent.as_str(), "templates");
    join_path(templates.as_str(), template_id)
}

/// Demands an installed-template lock record: succeeds with the record
/// exactly when the caller found one.
pub fn require_installed_template_lock(lock: Option<ForgeTemplateLockV1>) -> (r: Result<
    ForgeTemplateLockV1,
    String,
>)
    ensures
        r is Ok <==> lock is Some,
        r matches Ok(l) ==> lock matches Some(l0) && l == l0,
        r matches Err(e) ==> e@ == "No Forge template installed."@,
{
    match lock {
        Some(l) => Ok(l),
        None => Err(String::from_str("No Forge template installed.")),
    }
}

/// Demands that the plan document exists: succeeds exactly when the caller
/// found the file at `plan_path`.
pub fn require_plan_file(plan_file_exists: bool, plan_path: &str) -> (r: Result<(), String>)
    ensures
        r is Ok <==> plan_file_exists,
        r matches Err(e) ==> e@ == "Missing plan.json: "@ + plan_path@,
{
    if plan_file_exists {
        Ok(())
    } else {
        let mut msg = String::from_str("Missing plan.json: ");
        msg.append(plan_path);
        Err(msg)
    }
}

/// Validates a template manifest for execution: its schema tag must be
/// `forge-template-v1` (after trimming).
pub fn read_template_manifest(manifest: &ForgeTemplateManifestV1) -> (r: Result<(), String>)
    ensures
        r is Ok <==> trim_spec(manifest.schema@) == "forge-template-v1"@,
        r matches Err(e) ==> e@ == "Unsupported template.json schema (expected forge-template-v1): "@
            + manifest.schema@,
{
    let t = trim_str(manifest.schema.as_str());
    if str_eq(t.as_str(), "forge-template-v1") {
        Ok(())
    } else {
        let mut msg = String::from_str("Unsupported template.json schema (expected forge-template-v1): ");
        msg.append(manifest.schema.as_str());
        Err(msg)
    }
}

/// Validates a decoded plan document against the requested plan id: the
/// schema tag must be `plan-v1` and the document's own id must equal the
/// (already validated) requested id, both after trimming.
pub fn load_plan(plan: &PlanV1, plan_path: &str, plan_id: &str) -> (r: Result<(), String>)
    ensures
        r is Ok <==> trim_spec(plan.schema@) == "plan-v1"@ && trim_spec(plan.id@) == plan_id@,
        r matches Err(e) ==> e@ == if trim_spec(plan.schema@) != "plan-v1"@ {
            "Unsupported plan schema in "@ + plan_path@ + ": "@ + plan.schema@
        } else {
            "Plan id mismatch (expected "@ + plan_id@ + ", got "@ + plan.id@ + ")"@
        },
{
    let schema = trim_str(plan.schema.as_str());
    if !str_eq(schema.as_str(), "plan-v1") {
        let mut msg = String::from_str("Unsupported plan schema in ");
        msg.append(plan_path);
        msg.append(": ");
        msg.append(plan.schema.as_str());
        return Err(msg);
    }
    let id = trim_str(plan.id.as_str());
    if !str_eq(id.as_str(), plan_id) {
        let mut msg = String::from_str("Plan id mismatch (expected ");
        msg.append(plan_id);
        msg.append(", got ");
        msg.append(plan.id.as_str());
        msg.append(")");
        return Err(msg);
    }
    Ok(())
}

/// Validates a decoded state document against the requested plan id: the
/// schema tag must be `state-v2` and `plan_id` must match, both after
/// trimming.
pub fn load_state(state: &StateV2, state_path: &str, plan_id: &str) -> (r: Result<(), String>)
    ensures
        r is Ok <==> trim_spec(state.schema@) == "state-v2"@ && trim_spec(state.plan_id@)
            == plan_id@,
        r matches Err(e) ==> e@ == if trim_spec(state.schema@) != "state-v2"@ {
            "Unsupported state schema in "@ + state_path@ + ": "@ + state.schema@
        } else {
            "State plan_id mismatch (expected "@ + plan_id@ + ", got "@ + state.plan_id@ + ")"@
        },
{
    let schema = trim_str(state.schema.as_str());
    if !str_eq(schema.as_str(), "state-v2") {
        let mut msg = String::from_str("Unsupported state schema in ");
        msg.append(state_path);
        msg.append(": ");
        msg.append(state.schema.as_str());
        return Err(msg);
    }
    let id = trim_str(state.plan_id.as_str());
    if !str_eq(id.as_str(), plan_id) {
        let mut msg = String::from_str("State plan_id mismatch (expected ");
        msg.append(plan_id);
        msg.append(", got ");
        msg.append(state.plan_id.as_str());
        msg.append(")");
        return Err(msg);
    }
    Ok(())
}

/// Validates a decoded phase-definition document: the schema tag must be
/// `forge-phases-v1` (after trimming).
pub fn load_template_phases(phases: &ForgeTemplatePhasesV1, phases_path: &str) -> (r: Result<
    (),
    String,
>)
    ensures
        r is Ok <==> trim_spec(phases.schema@) == "forge-phases-v1"@,
        r matches Err(e) ==> e@ == "Unsupported phases schema in "@ + phases_path@ + ": "@
            + phases.schema@,
{
    let schema = trim_str(phases.schema.as_str());
    if str_eq(schema.as_str(), "forge-phases-v1") {
        Ok(())
    } else {
        let mut msg = String::from_str("Unsupported phases schema in ");
        msg.append(phases_path);
        msg.append(": ");
        msg.append(phases.schema.as_str());
        Err(msg)
    }
}

/// Resolves the fixed bundle of paths for one plan's execution. Succeeds
/// exactly when the plan id is a valid slug, a template lock was found, the
/// caller saw the installed template's folder on disk, the manifest carries
/// the supported schema tag, and every manifest entrypoint is a safe
/// relative path.
pub fn build_execution_paths(
    workspace_root: &str,
    plan_id: &str,
    template_lock: Option<ForgeTemplateLockV1>,
    template_root_exists: bool,
    manifest: &ForgeTemplateManifestV1,
) -> (r: Result<ForgeExecutionPaths, String>)
    ensures
        r is Ok <==> {
            &&& is_valid_slug(trim_spec(plan_id@))
            &&& template_lock is Some
            &&& template_root_exists
            &&& trim_spec(manifest.schema@) == "forge-template-v1"@
            &&& is_safe_relative_path(trim_spec(manifest.entrypoints.phases@))
            &&& is_safe_relative_path(trim_spec(manifest.entrypoints.execute_prompt@))
            &&& is_safe_relative_path(trim_spec(manifest.entrypoints.hooks.post_plan@))
            &&& is_safe_relative_path(trim_spec(manifest.entrypoints.hooks.pre_execute@))
            &&& is_safe_relative_path(trim_spec(manifest.entrypoints.hooks.post_step@))
        },
        r matches Ok(p) ==> template_lock matches Some(lock) && {
            let pid = trim_spec(plan_id@);
            let troot = template_root_spec(workspace_root@, lock.installed_template_id@);
            let pdir = plan_dir_spec(workspace_root@, pid);
            &&& p.plan_id@ == pid
            &&& p.workspace_root@ == workspace_root@
            &&& p.template_root@ == troot
            &&& p.plan_dir@ == pdir
            &&& p.plan_path@ == join_spec(pdir, "plan.json"@)
            &&& p.state_path@ == join_spec(pdir, "state.json"@)
            &&& p.progress_path@ == join_spec(pdir, "progress.md"@)
            &&& p.generated_plan_md_path@ == join_spec(pdir, "plan.md"@)
            &&& p.generated_execute_prompt_path@ == join_spec(pdir, "execute-prompt.md"@)
            &&& p.phases_path@ == join_spec(troot, trim_spec(manifest.entrypoints.phases@))
            &&& p.post_plan_hook_path@ == join_spec(
                troot,
                trim_spec(manifest.entrypoints.hooks.post_plan@),
            )
            &&& p.pre_execute_hook_path@ == join_spec(
                troot,
                trim_spec(manifest.entrypoints.hooks.pre_execute@),
            )
            &&& p.post_step_hook_path@ == join_spec(
                troot,
                trim_spec(manifest.entrypoints.hooks.post_step@),
            )
        },
{
    let normalized_plan_id = match validate_plan_id(plan_id) {
        Ok(id) => id,
        Err(e) => {
            return Err(e);
        },
    };
    let lock = match require_installed_template_lock(template_lock) {
        Ok(l) => l,
        Err(e) => {
            return Err(e);
        },
    };
    let template_root = template_root_path(workspace_root, lock.installed_template_id.as_str());
    if !template_root_exists {
        return Err(String::from_str("Installed Forge template folder is missing."));
    }
    if let Err(e) = read_template_manifest(manifest) {
        return Err(e);
    }
    let phases_rel = match validate_relative_file_path(manifest.entrypoints.phases.as_str()) {
        Ok(p) => p,
        Err(e) => {
            return Err(e);
        },
    };
    if let Err(e) = validate_relative_file_path(manifest.entrypoints.execute_prompt.as_str()) {
        return Err(e);
    }
    let post_plan_rel = match validate_relative_file_path(
        manifest.entrypoints.hooks.post_plan.as_str(),
    ) {
        Ok(p) => p,
        Err(e) => {
            return Err(e);
        },
    };
    let pre_execute_rel = match validate_relative_file_path(
        manifest.entrypoints.hooks.pre_execute.as_str(),
    ) {
        Ok(p) => p,
        Err(e) => {
            return Err(e);
        },
    };
    let post_step_rel = match validate_relative_file_path(
        manifest.entrypoints.hooks.post_step.as_str(),
    ) {
        Ok(p) => p,
        Err(e) => {
            return Err(e);
        },
    };

    let plans = join_path(workspace_root, "plans");
    let plan_dir = join_path(plans.as_str(), normalized_plan_id.as_str());
    Ok(ForgeExecutionPaths {
        plan_id: normalized_plan_id,
        workspace_root: workspace_root.to_owned(),
        template_root: template_root.clone(),
        plan_dir: plan_dir.clone(),
        plan_path: join_path(plan_dir.as_str(), "plan.json"),
        state_path: join_path(plan_dir.as_str(), "state.json"),
        progress_path: join_path(plan_dir.as_str(), "progress.md"),
        generated_plan_md_path: join_path(plan_dir.as_str(), "plan.md"),
        generated_execute_prompt_path: join_path(plan_dir.as_str(), "execute-prompt.md"),
        phases_path: join_path(template_root.as_str(), phases_rel.as_str()),
        post_plan_hook_path: join_path(template_root.as_str(), post_plan_rel.as_str()),
        pre_execute_hook_path: join_path(template_root.as_str(), pre_execute_rel.as_str()),
        post_step_hook_path: join_path(template_root.as_str(), post_step_rel.as_str()),
    })
}

/// Assembles the context for one hook invocation from the resolved paths
/// and the caller's current date (ISO `YYYY-MM-DD`).
pub fn build_hook_context(paths: &ForgeExecutionPaths, today_iso: &str) -> (r: ForgeHookContextV1)
    ensures
        r.workspace_root@ == paths.workspace_root@,
        r.template_root@ == paths.template_root@,
        r.plan_id@ == paths.plan_id@,
        r.plan_dir@ == paths.plan_dir@,
        r.plan_path@ == paths.plan_path@,
        r.state_path@ == paths.state_path@,
        r.progress_path@ == paths.progress_path@,
        r.generated_plan_md_path@ == paths.generated_plan_md_path@,
        r.generated_execute_prompt_path@ == paths.generated_execute_prompt_path@,
        r.today_iso@ == today_iso@,
{
    ForgeHookContextV1 {
        workspace_root: paths.workspace_root.clone(),
        template_root: paths.template_root.clone(),
        plan_id: paths.plan_id.clone(),
        plan_dir: paths.plan_dir.clone(),
        plan_path: paths.plan_path.clone(),
        state_path: paths.state_path.clone(),
        progress_path: paths.progress_path.clone(),
        generated_plan_md_path: paths.generated_plan_md_path.clone(),
        generated_execute_prompt_path: paths.generated_execute_prompt_path.clone(),
        today_iso: today_iso.to_owned(),
    }
}

} // verus!
