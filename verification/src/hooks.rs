//! Hook invocation bookkeeping. Hooks are trusted but fallible external
//! scripts run by the caller with a fixed timeout; the functions here turn
//! what happened to the process into the operation's verdict, so a failed
//! hook halts the enclosing operation with a descriptive message.

use vstd::prelude::*;

use crate::checks::process_error_spec;
use crate::text::{dec_str, u64_to_string};

verus! {

/// The timeout for every hook invocation, in seconds.
pub const HOOK_TIMEOUT_SECONDS: u64 = 120;

/// How a hook's process ended: it completed (exit code and captured
/// output), it could not be spawned (the caller's diagnostic), or it
/// exceeded the timeout and was killed.
pub enum HookOutcome {
    Completed { exit_code: Option<i32>, stdout: String, stderr: String },
    SpawnFailed { message: String },
    TimedOut,
}

/// The verdict on one hook invocation: success exactly when the process
/// ran and exited zero; any failure carries a message naming the script
/// and, for a non-zero exit, the process's own output.
pub fn hook_outcome_to_result(script_path: &str, outcome: HookOutcome) -> (r: Result<(), String>)
    ensures
        r is Ok <==> outcome matches HookOutcome::Completed { exit_code: Some(0i32), .. },
        r matches Err(e) ==> e@ == match outcome {
            HookOutcome::Completed { exit_code, stdout, stderr } => "Hook failed ("@ + script_path@
                + "): "@ + process_error_spec(stdout@, stderr@),
            HookOutcome::SpawnFailed { message } => "Failed to run hook "@ + script_path@ + ": "@
                + message@,
            HookOutcome::TimedOut => "Hook timed out after "@ + dec_str(
                HOOK_TIMEOUT_SECONDS as nat,
            ) + "s: "@ + script_path@,
        },
{
    match outcome {
        HookOutcome::Completed { exit_code, stdout, stderr } => {
            let ok = match exit_code {
                Some(c) => c == 0,
                None => false,
            };
            if ok {
                Ok(())
            } else {
                let mut msg = String::from_str("Hook failed (");
                msg.append(script_path);
                msg.append("): ");
                msg.append(
                    crate::checks::format_process_error(
                        stdout.as_str(),
                        stderr.as_str(),
                    ).as_str(),
                );
                Err(msg)
            }
        },
        HookOutcome::SpawnFailed { message } => {
            let mut msg = String::from_str("Failed to run hook ");
            msg.append(script_path);
            msg.append(": ");
            msg.append(message.as_str());
            Err(msg)
        },
        HookOutcome::TimedOut => {
            let mut msg = String::from_str("Hook timed out after ");
            msg.append(u64_to_string(HOOK_TIMEOUT_SECONDS).as_str());
            msg.append("s: ");
            msg.append(script_path);
            Err(msg)
        },
    }
}

} // verus!
