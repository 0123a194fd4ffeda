//! Parsing and outcome handling for phase verification checks. A template
//! declares a phase's checks either as bare command strings or as structured
//! entries; a malformed entry becomes an immediate failing result instead of
//! aborting the batch, so one authoring error does not hide the other
//! checks' reports.

use vstd::prelude::*;

use crate::text::{dec_str, trim_spec, trim_str, u64_to_string};

verus! {

/// Default per-check timeout, in seconds.
pub const CHECK_TIMEOUT_SECONDS_DEFAULT: u64 = 600;

/// A phase check as a template document declares it: a bare command string,
/// a structured entry (fields present only where the document carries them
/// as strings, the timeout only where it carries a non-negative number), or
/// a value of any other shape.
pub enum CheckSpecValue {
    Text(String),
    Entry {
        id: Option<String>,
        title: Option<String>,
        command: Option<String>,
        timeout_sec: Option<u64>,
    },
    Other,
}

/// A check that is ready to run.
#[derive(Debug)]
pub struct RunnablePhaseCheck {
    pub id: String,
    pub title: String,
    pub command: String,
    pub timeout_seconds: u64,
}

/// The outcome of one check, as reported to the caller. Failures are
/// encoded here and never raised.
#[derive(Debug)]
pub struct ForgePhaseCheckResultV1 {
    pub id: String,
    pub title: String,
    pub exit_code: i32,
    pub duration_ms: i64,
    pub stdout: String,
    pub stderr: String,
    pub timed_out: bool,
}

/// The response of one check batch.
pub struct ForgeRunPhaseChecksResponseV1 {
    pub ok: bool,
    pub results: Vec<ForgePhaseCheckResultV1>,
}

/// The identifier given to a check that declares none: `check-N`, counting
/// from one.
pub open spec fn fallback_id_spec(index: int) -> Seq<char> {
    "check-"@ + dec_str((index + 1) as nat)
}

/// The identifier a structured entry resolves to: its own trimmed `id`
/// when that is non-empty, the fallback otherwise.
pub open spec fn entry_id_spec(id: Option<String>, index: int) -> Seq<char> {
    match id {
        Some(s) => if trim_spec(s@).len() > 0 {
            trim_spec(s@)
        } else {
            fallback_id_spec(index)
        },
        None => fallback_id_spec(index),
    }
}

/// The title a structured entry resolves to: its own trimmed `title` when
/// that is non-empty, the resolved identifier otherwise.
pub open spec fn entry_title_spec(title: Option<String>, resolved_id: Seq<char>) -> Seq<char> {
    match title {
        Some(s) => if trim_spec(s@).len() > 0 {
            trim_spec(s@)
        } else {
            resolved_id
        },
        None => resolved_id,
    }
}

/// The command a structured entry resolves to (possibly empty).
pub open spec fn entry_command_spec(command: Option<String>) -> Seq<char> {
    match command {
        Some(s) => trim_spec(s@),
        None => Seq::<char>::empty(),
    }
}

/// The timeout a structured entry resolves to: its own positive
/// `timeoutSec`, the default otherwise.
pub open spec fn entry_timeout_spec(timeout_sec: Option<u64>) -> u64 {
    match timeout_sec {
        Some(v) => if v > 0 {
            v
        } else {
            CHECK_TIMEOUT_SECONDS_DEFAULT
        },
        None => CHECK_TIMEOUT_SECONDS_DEFAULT,
    }
}

/// A declared check is runnable exactly when it resolves to a non-empty
/// command.
pub open spec fn check_is_runnable(raw: CheckSpecValue) -> bool {
    match raw {
        CheckSpecValue::Text(cmd) => trim_spec(cmd@).len() > 0,
        CheckSpecValue::Entry { id, title, command, timeout_sec } => entry_command_spec(
            command,
        ).len() > 0,
        CheckSpecValue::Other => false,
    }
}

/// The runnable check that a well-formed declared check at `index` parses
/// to.
pub open spec fn runnable_matches(raw: CheckSpecValue, index: int, c: RunnablePhaseCheck) -> bool {
    match raw {
        CheckSpecValue::Text(cmd) => {
            &&& c.id@ == fallback_id_spec(index)
            &&& c.title@ == fallback_id_spec(index)
            &&& c.command@ == trim_spec(cmd@)
            &&& c.timeout_seconds == CHECK_TIMEOUT_SECONDS_DEFAULT
        },
        CheckSpecValue::Entry { id, title, command, timeout_sec } => {
            &&& c.id@ == entry_id_spec(id, index)
            &&& c.title@ == entry_title_spec(title, entry_id_spec(id, index))
            &&& c.command@ == entry_command_spec(command)
            &&& c.timeout_seconds == entry_timeout_spec(timeout_sec)
        },
        CheckSpecValue::Other => false,
    }
}

/// The synthetic failing result that a malformed declared check at `index`
/// parses to: exit code 2, no output, a diagnostic on stderr.
pub open spec fn failed_check_matches(
    raw: CheckSpecValue,
    index: int,
    e: ForgePhaseCheckResultV1,
) -> bool {
    &&& e.exit_code == 2
    &&& e.duration_ms == 0
    &&& e.stdout@ == Seq::<char>::empty()
    &&& !e.timed_out
    &&& match raw {
        CheckSpecValue::Text(cmd) => {
            &&& e.id@ == fallback_id_spec(index)
            &&& e.title@ == fallback_id_spec(index)
            &&& e.stderr@ == "Phase check command is empty."@
        },
        CheckSpecValue::Entry { id, title, command, timeout_sec } => {
            &&& e.id@ == entry_id_spec(id, index)
            &&& e.title@ == entry_title_spec(title, entry_id_spec(id, index))
            &&& e.stderr@ == "Phase check object is missing a non-empty command field."@
        },
        CheckSpecValue::Other => {
            &&& e.id@ == fallback_id_spec(index)
            &&& e.title@ == fallback_id_spec(index)
            &&& e.stderr@ == "Invalid phase check entry: expected string or object."@
        },
    }
}

fn fallback_id(index: usize) -> (r: String)
    requires
        index < usize::MAX,
    ensures
        r@ == fallback_id_spec(index as int),
{
    let mut out = String::from_str("check-");
    out.append(u64_to_string((index as u64) + 1).as_str());
    out
}

/// Parses a phase's declared checks in order. A well-formed entry becomes a
/// runnable check; a malformed one (empty command, missing command field,
/// or a value that is neither string nor structured entry) becomes a
/// failing result with exit code 2, leaving the other entries untouched.
pub fn parse_phase_checks(checks: &Vec<CheckSpecValue>) -> (r: Vec<
    Result<RunnablePhaseCheck, ForgePhaseCheckResultV1>,
>)
    ensures
        r@.len() == checks@.len(),
        forall|i: int|
            0 <= i < checks@.len() ==> {
                &&& (#[trigger] r@[i] is Ok <==> check_is_runnable(checks@[i]))
                &&& (r@[i] matches Ok(c) ==> runnable_matches(checks@[i], i, c))
                &&& (r@[i] matches Err(e) ==> failed_check_matches(checks@[i], i, e))
            },
{
    let mut out: Vec<Result<RunnablePhaseCheck, ForgePhaseCheckResultV1>> = Vec::new();
    let mut i: usize = 0;
    while i < checks.len()
        invariant
            0 <= i <= checks@.len(),
            out@.len() == i,
            forall|j: int|
                0 <= j < i ==> {
                    &&& (#[trigger] out@[j] is Ok <==> check_is_runnable(checks@[j]))
                    &&& (out@[j] matches Ok(c) ==> runnable_matches(checks@[j], j, c))
                    &&& (out@[j] matches Err(e) ==> failed_check_matches(checks@[j], j, e))
                },
        decreases checks@.len() - i,
    {
        let parsed = parse_one_check(&checks[i], i);
        out.push(parsed);
        i = i + 1;
    }
    out
}

fn parse_one_check(raw: &CheckSpecValue, index: usize) -> (r: Result<
    RunnablePhaseCheck,
    ForgePhaseCheckResultV1,
>)
    requires
        index < usize::MAX,
    ensures
        r is Ok <==> check_is_runnable(*raw),
        r matches Ok(c) ==> runnable_matches(*raw, index as int, c),
        r matches Err(e) ==> failed_check_matches(*raw, index as int, e),
{
    let fb = fallback_id(index);
    match raw {
        CheckSpecValue::Text(cmd) => {
            let trimmed = trim_str(cmd.as_str());
            if trimmed.as_str().unicode_len() == 0 {
                Err(ForgePhaseCheckResultV1 {
                    id: fb.clone(),
                    title: fb,
                    exit_code: 2,
                    duration_ms: 0,
                    stdout: String::new(),
                    stderr: String::from_str("Phase check command is empty."),
                    timed_out: false,
                })
            } else {
                Ok(RunnablePhaseCheck {
                    id: fb.clone(),
                    title: fb,
                    command: trimmed,
                    timeout_seconds: CHECK_TIMEOUT_SECONDS_DEFAULT,
                })
            }
        },
        CheckSpecValue::Entry { id, title, command, timeout_sec } => {
            let resolved_id = match id {
                Some(s) => {
                    let t = trim_str(s.as_str());
                    if t.as_str().unicode_len() > 0 {
                        t
                    } else {
                        fb.clone()
                    }
                },
                None => fb.clone(),
            };
            let resolved_title = match title {
                Some(s) => {
                    let t = trim_str(s.as_str());
                    if t.as_str().unicode_len() > 0 {
                        t
                    } else {
                        resolved_id.clone()
                    }
                },
                None => resolved_id.clone(),
            };
            let resolved_command = match command {
                Some(s) => trim_str(s.as_str()),
                None => String::new(),
            };
            if resolved_command.as_str().unicode_len() == 0 {
                Err(ForgePhaseCheckResultV1 {
                    id: resolved_id,
                    title: resolved_title,
                    exit_code: 2,
                    duration_ms: 0,
                    stdout: String::new(),
                    stderr: String::from_str(
                        "Phase check object is missing a non-empty command field.",
                    ),
                    timed_out: false,
                })
            } else {
                let timeout_seconds = match timeout_sec {
                    Some(v) => if *v > 0 {
                        *v
                    } else {
                        CHECK_TIMEOUT_SECONDS_DEFAULT
                    },
                    None => CHECK_TIMEOUT_SECONDS_DEFAULT,
                };
                Ok(RunnablePhaseCheck {
                    id: resolved_id,
                    title: resolved_title,
                    command: resolved_command,
                    timeout_seconds,
                })
            }
        },
        CheckSpecValue::Other => Err(ForgePhaseCheckResultV1 {
            id: fb.clone(),
            title: fb,
            exit_code: 2,
            duration_ms: 0,
            stdout: String::new(),
            stderr: String::from_str("Invalid phase check entry: expected string or object."),
            timed_out: false,
        }),
    }
}

/// A check result counts as passed when its process exited with code zero
/// and did not time out.
pub open spec fn result_passed(r: ForgePhaseCheckResultV1) -> bool {
    !r.timed_out && r.exit_code == 0
}

/// A batch is `ok` exactly when every result passed.
pub open spec fn batch_ok_spec(results: Seq<ForgePhaseCheckResultV1>) -> bool {
    forall|i: int| 0 <= i < results.len() ==> result_passed(#[trigger] results[i])
}

/// Whether every result of a batch passed.
pub fn all_checks_passed(results: &Vec<ForgePhaseCheckResultV1>) -> (r: bool)
    ensures
        r == batch_ok_spec(results@),
{
    let mut i: usize = 0;
    while i < results.len()
        invariant
            0 <= i <= results@.len(),
            forall|j: int| 0 <= j < i ==> result_passed(#[trigger] results@[j]),
        decreases results@.len() - i,
    {
        if results[i].timed_out || results[i].exit_code != 0 {
            return false;
        }
        i = i + 1;
    }
    true
}

/// How running one check's process ended: it completed (with its exit code,
/// where the platform reported one, and its captured output), it could not
/// be spawned, or it exceeded its timeout and was killed.
pub enum ProcessOutcome {
    Completed { exit_code: Option<i32>, stdout: String, stderr: String },
    SpawnFailed { message: String },
    TimedOut,
}

/// The result record for a check whose process ended as `outcome` after
/// `duration_ms`: a completed process reports its exit code (`-1` where the
/// platform gave none) and output; a spawn failure reports `-1` with a
/// diagnostic; a timeout reports exit code 124 with `timed_out` set.
pub fn check_result_from_outcome(
    check: &RunnablePhaseCheck,
    outcome: ProcessOutcome,
    duration_ms: i64,
) -> (r: ForgePhaseCheckResultV1)
    ensures
        r.id@ == check.id@,
        r.title@ == check.title@,
        r.duration_ms == duration_ms,
        match outcome {
            ProcessOutcome::Completed { exit_code, stdout, stderr } => {
                &&& r.exit_code == match exit_code {
                    Some(c) => c,
                    None => -1i32,
                }
                &&& r.stdout@ == stdout@
                &&& r.stderr@ == stderr@
                &&& !r.timed_out
            },
            ProcessOutcome::SpawnFailed { message } => {
                &&& r.exit_code == -1
                &&& r.stdout@ == Seq::<char>::empty()
                &&& r.stderr@ == "Failed to run phase check command: "@ + message@
                &&& !r.timed_out
            },
            ProcessOutcome::TimedOut => {
                &&& r.exit_code == 124
                &&& r.stdout@ == Seq::<char>::empty()
                &&& r.stderr@ == "Phase check timed out after "@ + dec_str(
                    check.timeout_seconds as nat,
                ) + "s."@
                &&& r.timed_out
            },
        },
{
    match outcome {
        ProcessOutcome::Completed { exit_code, stdout, stderr } => ForgePhaseCheckResultV1 {
            id: check.id.clone(),
            title: check.title.clone(),
            exit_code: match exit_code {
                Some(c) => c,
                None => -1,
            },
            duration_ms,
            stdout,
            stderr,
            timed_out: false,
        },
        ProcessOutcome::SpawnFailed { message } => {
            let mut stderr = String::from_str("Failed to run phase check command: ");
            stderr.append(message.as_str());
            ForgePhaseCheckResultV1 {
                id: check.id.clone(),
                title: check.title.clone(),
                exit_code: -1,
                duration_ms,
                stdout: String::new(),
                stderr,
                timed_out: false,
            }
        },
        ProcessOutcome::TimedOut => {
            let mut stderr = String::from_str("Phase check timed out after ");
            stderr.append(u64_to_string(check.timeout_seconds).as_str());
            stderr.append("s.");
            proof {
                assert(("Phase check timed out after "@ + dec_str(check.timeout_seconds as nat))
                    + "s."@ =~= "Phase check timed out after "@ + dec_str(
                    check.timeout_seconds as nat,
                ) + "s."@);
            }
            ForgePhaseCheckResultV1 {
                id: check.id.clone(),
                title: check.title.clone(),
                exit_code: 124,
                duration_ms,
                stdout: String::new(),
                stderr,
                timed_out: true,
            }
        },
    }
}

/// The trimmed stderr of a failed process when it is non-empty, the trimmed
/// stdout otherwise, and a fixed diagnostic when both are blank.
pub open spec fn process_error_spec(stdout: Seq<char>, stderr: Seq<char>) -> Seq<char> {
    if trim_spec(stderr).len() > 0 {
        trim_spec(stderr)
    } else if trim_spec(stdout).len() > 0 {
        trim_spec(stdout)
    } else {
        "Process failed."@
    }
}

/// Picks the user-facing detail of a failed process from its output, as
/// [`process_error_spec`] describes.
pub fn format_process_error(stdout: &str, stderr: &str) -> (r: String)
    ensures
        r@ == process_error_spec(stdout@, stderr@),
{
    let e = trim_str(stderr);
    if e.as_str().unicode_len() > 0 {
        return e;
    }
    let o = trim_str(stdout);
    if o.as_str().unicode_len() > 0 {
        return o;
    }
    String::from_str("Process failed.")
}

} // verus!
