//! Normalization of an installed template's plan prompt before it is handed
//! to the agent: repository skill paths are rewritten, the plan file path
//! gains its nested directory, a legacy prompt that asks the agent to write
//! files is rewritten to collaboration form, and the `@plan` skill is made
//! the first line.

use vstd::prelude::*;

use crate::text::{
    contains_str, contains_sub, find_char, find_sub, first_char_at, first_match_at,
    lemma_first_char_at_props, lemma_first_match_found, replace_spec, replace_str, str_eq,
    trim_spec, trim_str,
};

verus! {

/// The prompt with its file paths rewritten: skills live under
/// `.agents/skills/`, and the plan file lives in a directory of its own.
pub open spec fn rewritten_paths(s: Seq<char>) -> Seq<char> {
    replace_spec(
        replace_spec(
            replace_spec(s, ".agent/skills/"@, ".agents/skills/"@),
            "plans/<plan_id>.json"@,
            "plans/<plan_id>/plan.json"@,
        ),
        "plans/<plan-id>.json"@,
        "plans/<plan-id>/plan.json"@,
    )
}

/// The prompt (after rewriting) still asks the agent to write the plan file
/// itself — the legacy form that plan mode forbids.
pub open spec fn looks_like_file_write_prompt(s: Seq<char>) -> bool {
    ||| contains_sub(s, "After writing the file"@)
    ||| contains_sub(s, "Create `plans/<plan_id>"@)
    ||| contains_sub(s, "Path: plans/<plan_id>"@)
}

/// The replacement output section for a legacy prompt: the plan is emitted
/// inside a `<proposed_plan>` block and no file is written.
pub open spec fn plan_mode_output_section() -> Seq<char> {
    "\n\n## Output\n\n- Choose a `plan_id` slug matching `^[a-z0-9][a-z0-9-]*[a-z0-9]$` (max 64 chars).\n- Output the plan as the exact `plan-v1` JSON object inside a single `<proposed_plan>...</proposed_plan>` block.\n- Do NOT write any files yet.\n\nInside the JSON, include:\n\n- `\"$schema\": \"plan-v1\"`\n- `\"id\": \"<plan_id>\"`\n- `\"title\": \"<short title>\"`\n\n## Hard requirement\n\nDo NOT implement the plan. Stop after outputting the `<proposed_plan>` block.\n"@
}

/// `s` with trailing newline characters removed.
pub open spec fn trim_end_newlines(s: Seq<char>) -> Seq<char>
    decreases s.len(),
{
    if s.len() == 0 {
        s
    } else if s[s.len() - 1] == '\n' {
        trim_end_newlines(s.take(s.len() - 1))
    } else {
        s
    }
}

proof fn lemma_trim_end_newlines_take(s: Seq<char>, i: int)
    requires
        0 <= i <= s.len(),
        forall|j: int| i <= j < s.len() ==> s[j] == '\n',
        i == 0 || s[i - 1] != '\n',
    ensures
        trim_end_newlines(s) == s.take(i),
    decreases s.len() - i,
{
    if i == s.len() {
        assert(s.take(i) =~= s);
    } else {
        lemma_trim_end_newlines_take(s.take(s.len() - 1), i);
        assert(s.take(s.len() - 1).take(i) =~= s.take(i));
    }
}

fn trim_end_newlines_str(s: &str) -> (r: String)
    ensures
        r@ == trim_end_newlines(s@),
{
    let n = s.unicode_len();
    let mut end: usize = n;
    while end > 0 && s.get_char(end - 1) == '\n'
        invariant
            0 <= end <= n,
            n == s@.len(),
            forall|j: int| end <= j < n ==> s@[j] == '\n',
        decreases end,
    {
        end = end - 1;
    }
    proof {
        lemma_trim_end_newlines_take(s@, end as int);
        assert(s@.subrange(0, end as int) =~= s@.take(end as int));
    }
    s.substring_char(0, end).to_owned()
}

/// The trimmed text of the first line that does not trim to nothing, or
/// `None` when every line is blank (or the text is empty).
pub open spec fn first_nonblank_line(s: Seq<char>) -> Option<Seq<char>>
    decreases s.len(),
    via first_nonblank_line_decreases
{
    if s.len() == 0 {
        None
    } else {
        let k = first_char_at(s, '\n');
        let line = if k < 0 {
            s
        } else {
            s.take(k)
        };
        if trim_spec(line).len() > 0 {
            Some(trim_spec(line))
        } else if k < 0 {
            None
        } else {
            first_nonblank_line(s.skip(k + 1))
        }
    }
}

#[via_fn]
proof fn first_nonblank_line_decreases(s: Seq<char>) {
    lemma_first_char_at_props(s, '\n');
}

fn first_nonblank_line_str(s: &str) -> (r: Option<String>)
    ensures
        match r {
            Some(line) => first_nonblank_line(s@) matches Some(l) && line@ == l,
            None => first_nonblank_line(s@) is None,
        },
    decreases s@.len(),
{
    let n = s.unicode_len();
    if n == 0 {
        return None;
    }
    match find_char(s, '\n') {
        Some(k) => {
            let line = s.substring_char(0, k);
            proof {
                assert(s@.subrange(0, k as int) =~= s@.take(k as int));
            }
            let trimmed = trim_str(line);
            if trimmed.as_str().unicode_len() > 0 {
                Some(trimmed)
            } else {
                let rest = s.substring_char(k + 1, n);
                proof {
                    assert(s@.subrange(k + 1, n as int) =~= s@.skip(k + 1));
                }
                first_nonblank_line_str(rest)
            }
        },
        None => {
            let trimmed = trim_str(s);
            if trimmed.as_str().unicode_len() > 0 {
                Some(trimmed)
            } else {
                None
            }
        },
    }
}

/// The fully normalized plan prompt: paths rewritten; a legacy file-write
/// prompt's output section (everything from the first `## Output` on)
/// replaced by the plan-mode section; and `@plan` prepended unless it
/// already is the first non-blank line. An empty prompt becomes the bare
/// `@plan` line.
pub open spec fn normalize_plan_prompt_spec(prompt: Seq<char>) -> Seq<char> {
    let rewritten = rewritten_paths(prompt);
    let with_output = if looks_like_file_write_prompt(rewritten) && contains_sub(
        rewritten,
        "## Output"@,
    ) {
        trim_end_newlines(rewritten.take(first_match_at(rewritten, "## Output"@)))
            + plan_mode_output_section()
    } else {
        rewritten
    };
    if with_output.len() == 0 {
        "@plan\n"@
    } else {
        match first_nonblank_line(with_output) {
            Some(line) => if line == "@plan"@ {
                with_output
            } else {
                "@plan\n\n"@ + with_output
            },
            None => "@plan\n\n"@ + with_output,
        }
    }
}

/// Normalizes an installed template's plan prompt, as
/// [`normalize_plan_prompt_spec`] describes.
pub fn normalize_plan_prompt(prompt: &str) -> (r: String)
    ensures
        r@ == normalize_plan_prompt_spec(prompt@),
{
    let step1 = replace_str(prompt, ".agent/skills/", ".agents/skills/");
    let step2 = replace_str(step1.as_str(), "plans/<plan_id>.json", "plans/<plan_id>/plan.json");
    let rewritten = replace_str(
        step2.as_str(),
        "plans/<plan-id>.json",
        "plans/<plan-id>/plan.json",
    );

    let looks_like_file_write = contains_str(rewritten.as_str(), "After writing the file")
        || contains_str(rewritten.as_str(), "Create `plans/<plan_id>") || contains_str(
        rewritten.as_str(),
        "Path: plans/<plan_id>",
    );

    let mut out = rewritten;
    if looks_like_file_write {
        match find_sub(out.as_str(), "## Output") {
            Some(i) => {
                proof {
                    lemma_first_match_found(out@, "## Output"@, i as int);
                    assert(out@.subrange(0, i as int) =~= out@.take(i as int));
                }
                let before_raw = out.as_str().substring_char(0, i);
                let mut replaced = trim_end_newlines_str(before_raw);
                replaced.append(
                    "\n\n## Output\n\n- Choose a `plan_id` slug matching `^[a-z0-9][a-z0-9-]*[a-z0-9]$` (max 64 chars).\n- Output the plan as the exact `plan-v1` JSON object inside a single `<proposed_plan>...</proposed_plan>` block.\n- Do NOT write any files yet.\n\nInside the JSON, include:\n\n- `\"$schema\": \"plan-v1\"`\n- `\"id\": \"<plan_id>\"`\n- `\"title\": \"<short title>\"`\n\n## Hard requirement\n\nDo NOT implement the plan. Stop after outputting the `<proposed_plan>` block.\n",
                );
                out = replaced;
            },
            None => {},
        }
    }

    if out.as_str().unicode_len() == 0 {
        return String::from_str("@plan\n");
    }
    let already_loaded = match first_nonblank_line_str(out.as_str()) {
        Some(line) => str_eq(line.as_str(), "@plan"),
        None => false,
    };
    if already_loaded {
        out
    } else {
        let mut prefixed = String::from_str("@plan\n\n");
        prefixed.append(out.as_str());
        prefixed
    }
}

} // verus!
