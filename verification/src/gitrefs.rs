//! Decisions around the git working tree that the surrounding application
//! acts on: reading a remote and branch out of an upstream ref name, which
//! paths a file action must touch when the file is part of a rename, and
//! the fallback ladder for `git pull` on older or diverged repositories.

use vstd::prelude::*;

use crate::text::{
    contains_ci, contains_str_ci, find_char, first_char_at, starts_with_spec, str_eq,
    strip_prefix_str, trim_spec, trim_str,
};

verus! {

/// An upstream ref name without its `refs/remotes/` prefix (kept whole when
/// the prefix is absent).
pub open spec fn upstream_base(name: Seq<char>) -> Seq<char> {
    if starts_with_spec(name, "refs/remotes/"@) {
        name.skip("refs/remotes/"@.len() as int)
    } else {
        name
    }
}

/// Splits an upstream ref name into remote and branch: the text before and
/// after the first `/` of the name without its `refs/remotes/` prefix.
/// `None` when either part would be empty.
pub fn parse_upstream_ref(name: &str) -> (r: Option<(String, String)>)
    ensures
        ({
            let base = upstream_base(name@);
            let k = first_char_at(base, '/');
            &&& (r is Some <==> 1 <= k && k + 1 < base.len())
            &&& (r matches Some(p) ==> p.0@ == base.take(k) && p.1@ == base.skip(k + 1))
        }),
{
    proof {
        crate::text::lemma_first_char_at_props(upstream_base(name@), '/');
    }
    let base = match strip_prefix_str(name, "refs/remotes/") {
        Some(rest) => rest,
        None => name.to_owned(),
    };
    let k = match find_char(base.as_str(), '/') {
        Some(k) => k,
        None => {
            return None;
        },
    };
    let n = base.as_str().unicode_len();
    if k == 0 || k + 1 >= n {
        return None;
    }
    let remote = base.as_str().substring_char(0, k).to_owned();
    let branch = base.as_str().substring_char(k + 1, n).to_owned();
    proof {
        assert(base@.subrange(0, k as int) =~= base@.take(k as int));
        assert(base@.subrange(k + 1, n as int) =~= base@.skip(k + 1));
    }
    Some((remote, branch))
}

/// The first rename record that mentions `target`, or `-1`. A record is a
/// pair of the old and the new path of one renamed file.
pub open spec fn first_relevant_rename(renames: Seq<(String, String)>, target: Seq<char>) -> int
    decreases renames.len(),
{
    if renames.len() == 0 {
        -1
    } else if renames[0].0@ == target || renames[0].1@ == target {
        0
    } else {
        let rest = first_relevant_rename(renames.skip(1), target);
        if rest < 0 {
            -1
        } else {
            rest + 1
        }
    }
}

pub broadcast proof fn lemma_first_relevant_rename_props(
    renames: Seq<(String, String)>,
    target: Seq<char>,
)
    ensures
        #![trigger first_relevant_rename(renames, target)]
        -1 <= first_relevant_rename(renames, target) < renames.len(),
        first_relevant_rename(renames, target) >= 0 ==> {
            let p = renames[first_relevant_rename(renames, target)];
            p.0@ == target || p.1@ == target
        },
        first_relevant_rename(renames, target) == -1 ==> forall|i: int|
            0 <= i < renames.len() ==> (#[trigger] renames[i]).0@ != target && renames[i].1@
                != target,
    decreases renames.len(),
{
    if renames.len() > 0 && !(renames[0].0@ == target || renames[0].1@ == target) {
        lemma_first_relevant_rename_props(renames.skip(1), target);
        assert forall|i: int| 1 <= i < renames.len() implies renames.skip(1)[i - 1]
            == renames[i] by {}
    }
}

/// The paths an action on `target` must touch, given the rename record that
/// mentions it: both sides of a genuine rename, the target alone when the
/// record is degenerate (same path twice, or the new side empty).
pub open spec fn rename_action_paths(
    target: Seq<char>,
    old_path: Seq<char>,
    new_path: Seq<char>,
) -> Seq<Seq<char>> {
    if old_path == new_path || new_path.len() == 0 {
        seq![target]
    } else if old_path.len() == 0 {
        seq![new_path]
    } else {
        seq![old_path, new_path]
    }
}

/// The paths a staging, unstaging or revert action on `path` must touch:
/// nothing for a blank path; both sides of the first rename record that
/// mentions the trimmed path; the path alone otherwise. The caller reads
/// the rename records out of the repository's status.
pub fn action_paths_from_renames(path: &str, renames: &Vec<(String, String)>) -> (r: Vec<String>)
    ensures
        ({
            let target = trim_spec(path@);
            let k = first_relevant_rename(renames@, target);
            if target.len() == 0 {
                r.deep_view() == Seq::<Seq<char>>::empty()
            } else if k >= 0 {
                r.deep_view() == rename_action_paths(target, renames@[k].0@, renames@[k].1@)
            } else {
                r.deep_view() == seq![target]
            }
        }),
{
    proof {
        broadcast use lemma_first_relevant_rename_props;

    }
    let target = trim_str(path);
    let mut out: Vec<String> = Vec::new();
    if target.as_str().unicode_len() == 0 {
        proof {
            assert(out.deep_view() =~= Seq::<Seq<char>>::empty());
        }
        return out;
    }
    let mut i: usize = 0;
    while i < renames.len()
        invariant
            0 <= i <= renames@.len(),
            out@.len() == 0,
            target@ == trim_spec(path@),
            target@.len() > 0,
            forall|j: int|
                0 <= j < i ==> (#[trigger] renames@[j]).0@ != target@ && renames@[j].1@ != target@,
        decreases renames@.len() - i,
    {
        let old_path = &renames[i].0;
        let new_path = &renames[i].1;
        if str_eq(old_path.as_str(), target.as_str()) || str_eq(new_path.as_str(), target.as_str())
        {
            proof {
                lemma_first_rename_found(renames@, target@, i as int);
            }
            if str_eq(old_path.as_str(), new_path.as_str()) || new_path.as_str().unicode_len()
                == 0 {
                out.push(target);
                proof {
                    assert(out.deep_view() =~= seq![trim_spec(path@)]);
                }
                return out;
            }
            if old_path.as_str().unicode_len() == 0 {
                out.push(new_path.clone());
                proof {
                    assert(out.deep_view() =~= seq![renames@[i as int].1@]);
                }
                return out;
            }
            out.push(old_path.clone());
            out.push(new_path.clone());
            proof {
                assert(out.deep_view() =~= seq![renames@[i as int].0@, renames@[i as int].1@]);
            }
            return out;
        }
        i = i + 1;
    }
    out.push(target);
    proof {
        assert(out.deep_view() =~= seq![trim_spec(path@)]);
    }
    out
}

proof fn lemma_first_rename_found(renames: Seq<(String, String)>, target: Seq<char>, i: int)
    requires
        0 <= i < renames.len(),
        renames[i].0@ == target || renames[i].1@ == target,
        forall|j: int|
            0 <= j < i ==> (#[trigger] renames[j]).0@ != target && renames[j].1@ != target,
    ensures
        first_relevant_rename(renames, target) == i,
    decreases i,
{
    if i > 0 {
        lemma_first_rename_found(renames.skip(1), target, i - 1);
        assert forall|j: int| 0 <= j < renames.skip(1).len() implies renames.skip(1)[j] == renames[j
            + 1] by {}
    }
}

/// The git error text says the local git does not know `--autostash`.
pub open spec fn autostash_unsupported_spec(message: Seq<char>) -> bool {
    contains_ci(message, "unknown option"@) && contains_ci(message, "autostash"@)
}

/// The git error text says the pull needs a reconciliation strategy for
/// divergent branches.
pub open spec fn needs_reconcile_spec(message: Seq<char>) -> bool {
    contains_ci(message, "need to specify how to reconcile divergent branches"@) || contains_ci(
        message,
        "you have divergent branches"@,
    )
}

/// One rung of the `git pull` fallback ladder.
pub enum PullAttempt {
    AutostashPull,
    PlainPull,
    NoRebaseAutostashPull,
    NoRebasePull,
}

/// Picks the next pull attempt after one failed: a pull whose `--autostash`
/// the local git refused is retried without it; one that demands a
/// reconciliation strategy is retried with `--no-rebase`; any other failure
/// is final, as is one of the last rung.
pub fn next_pull_attempt(attempt: &PullAttempt, error_message: &str) -> (r: Option<PullAttempt>)
    ensures
        match attempt {
            PullAttempt::AutostashPull => {
                if autostash_unsupported_spec(error_message@) {
                    r matches Some(PullAttempt::PlainPull)
                } else if needs_reconcile_spec(error_message@) {
                    r matches Some(PullAttempt::NoRebaseAutostashPull)
                } else {
                    r is None
                }
            },
            PullAttempt::PlainPull => {
                if needs_reconcile_spec(error_message@) {
                    r matches Some(PullAttempt::NoRebasePull)
                } else {
                    r is None
                }
            },
            PullAttempt::NoRebaseAutostashPull => {
                if autostash_unsupported_spec(error_message@) {
                    r matches Some(PullAttempt::NoRebasePull)
                } else {
                    r is None
                }
            },
            PullAttempt::NoRebasePull => r is None,
        },
{
    let autostash_unsupported = contains_str_ci(error_message, "unknown option")
        && contains_str_ci(error_message, "autostash");
    let needs_reconcile = contains_str_ci(
        error_message,
        "need to specify how to reconcile divergent branches",
    ) || contains_str_ci(error_message, "you have divergent branches");
    match attempt {
        PullAttempt::AutostashPull => {
            if autostash_unsupported {
                Some(PullAttempt::PlainPull)
            } else if needs_reconcile {
                Some(PullAttempt::NoRebaseAutostashPull)
            } else {
                None
            }
        },
        PullAttempt::PlainPull => {
            if needs_reconcile {
                Some(PullAttempt::NoRebasePull)
            } else {
                None
            }
        },
        PullAttempt::NoRebaseAutostashPull => {
            if autostash_unsupported {
                Some(PullAttempt::NoRebasePull)
            } else {
                None
            }
        },
        PullAttempt::NoRebasePull => None,
    }
}

/// The arguments of one pull attempt, after `git`.
pub fn pull_attempt_args(attempt: &PullAttempt) -> (r: Vec<String>)
    ensures
        r.deep_view() == match attempt {
            PullAttempt::AutostashPull => seq!["pull"@, "--autostash"@],
            PullAttempt::PlainPull => seq!["pull"@],
            PullAttempt::NoRebaseAutostashPull => seq!["pull"@, "--no-rebase"@, "--autostash"@],
            PullAttempt::NoRebasePull => seq!["pull"@, "--no-rebase"@],
        },
{
    let mut out: Vec<String> = Vec::new();
    out.push(String::from_str("pull"));
    match attempt {
        PullAttempt::AutostashPull => {
            out.push(String::from_str("--autostash"));
            proof {
                assert(out.deep_view() =~= seq!["pull"@, "--autostash"@]);
            }
        },
        PullAttempt::PlainPull => {
            proof {
                assert(out.deep_view() =~= seq!["pull"@]);
            }
        },
        PullAttempt::NoRebaseAutostashPull => {
            out.push(String::from_str("--no-rebase"));
            out.push(String::from_str("--autostash"));
            proof {
                assert(out.deep_view() =~= seq!["pull"@, "--no-rebase"@, "--autostash"@]);
            }
        },
        PullAttempt::NoRebasePull => {
            out.push(String::from_str("--no-rebase"));
            proof {
                assert(out.deep_view() =~= seq!["pull"@, "--no-rebase"@]);
            }
        },
    }
    out
}

} // verus!
