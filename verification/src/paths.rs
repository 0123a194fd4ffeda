//! Path handling over plain strings. Paths are `/`-separated; a path is
//! absolute when it begins with `/`. The engine never touches the
//! filesystem: these functions validate and assemble path strings, and the
//! caller checks existence where that matters.

use vstd::prelude::*;

use crate::text::{trim_spec, trim_str};

verus! {

/// `c` occurs in `s`.
pub open spec fn has_char(s: Seq<char>, c: char) -> bool {
    exists|i: int| 0 <= i < s.len() && s[i] == c
}

/// Everything before the last occurrence of `c` in `s`; empty when `c` does
/// not occur.
pub open spec fn before_last(s: Seq<char>, c: char) -> Seq<char>
    decreases s.len(),
{
    if s.len() == 0 {
        s
    } else if s[s.len() - 1] == c {
        s.take(s.len() - 1)
    } else {
        before_last(s.take(s.len() - 1), c)
    }
}

/// Everything after the last occurrence of `c` in `s`; all of `s` when `c`
/// does not occur.
pub open spec fn after_last(s: Seq<char>, c: char) -> Seq<char>
    decreases s.len(),
{
    if s.len() == 0 {
        s
    } else if s[s.len() - 1] == c {
        seq![]
    } else {
        after_last(s.take(s.len() - 1), c).push(s[s.len() - 1])
    }
}

proof fn lemma_split_none(s: Seq<char>, c: char)
    requires
        forall|j: int| 0 <= j < s.len() ==> s[j] != c,
    ensures
        before_last(s, c) == Seq::<char>::empty(),
        after_last(s, c) == s,
    decreases s.len(),
{
    if s.len() > 0 {
        lemma_split_none(s.take(s.len() - 1), c);
        assert(s.take(s.len() - 1).push(s[s.len() - 1]) =~= s);
    } else {
        assert(s =~= Seq::<char>::empty());
    }
}

proof fn lemma_split_last(s: Seq<char>, c: char, k: int)
    requires
        0 <= k < s.len(),
        s[k] == c,
        forall|j: int| k < j < s.len() ==> s[j] != c,
    ensures
        before_last(s, c) == s.take(k),
        after_last(s, c) == s.skip(k + 1),
    decreases s.len(),
{
    if k == s.len() - 1 {
        assert(s.skip(k + 1) =~= Seq::<char>::empty());
    } else {
        lemma_split_last(s.take(s.len() - 1), c, k);
        assert(s.take(s.len() - 1).take(k) =~= s.take(k));
        assert(s.take(s.len() - 1).skip(k + 1).push(s[s.len() - 1]) =~= s.skip(k + 1));
    }
}

/// Splits `s` at the last occurrence of `c`: the parts before and after it,
/// or `None` when `c` does not occur.
pub fn split_at_last(s: &str, c: char) -> (r: Option<(String, String)>)
    ensures
        match r {
            Some(parts) => has_char(s@, c) && parts.0@ == before_last(s@, c) && parts.1@
                == after_last(s@, c),
            None => !has_char(s@, c) && before_last(s@, c) == Seq::<char>::empty() && after_last(
                s@,
                c,
            ) == s@,
        },
{
    let n = s.unicode_len();
    let mut i: usize = n;
    while i > 0
        invariant
            0 <= i <= n,
            n == s@.len(),
            forall|j: int| i <= j < n ==> s@[j] != c,
        decreases i,
    {
        if s.get_char(i - 1) == c {
            proof {
                lemma_split_last(s@, c, i - 1);
            }
            let head = s.substring_char(0, i - 1).to_owned();
            let tail = s.substring_char(i, n).to_owned();
            proof {
                assert(s@.subrange(0, i - 1) =~= s@.take(i - 1));
                assert(s@.subrange(i as int, n as int) =~= s@.skip(i as int));
            }
            return Some((head, tail));
        }
        i = i - 1;
    }
    proof {
        lemma_split_none(s@, c);
    }
    None
}

/// `base` and `rel` joined with a single `/`. An empty `base` leaves `rel`
/// alone; a `base` already ending in `/` gains no second one.
pub open spec fn join_spec(base: Seq<char>, rel: Seq<char>) -> Seq<char> {
    if base.len() == 0 {
        rel
    } else if base[base.len() - 1] == '/' {
        base + rel
    } else {
        base + seq!['/'] + rel
    }
}

/// Joins a base path and a relative part as [`join_spec`] describes.
pub fn join_path(base: &str, rel: &str) -> (r: String)
    ensures
        r@ == join_spec(base@, rel@),
{
    let n = base.unicode_len();
    if n == 0 {
        return rel.to_owned();
    }
    let mut out = base.to_owned();
    if base.get_char(n - 1) != '/' {
        out.append("/");
        proof {
            reveal_strlit("/");
            assert(base@ + "/"@ =~= base@ + seq!['/']);
        }
    }
    out.append(rel);
    proof {
        if base@[n - 1] != '/' {
            assert((base@ + seq!['/']) + rel@ =~= base@ + seq!['/'] + rel@);
        }
    }
    out
}

/// The directory part of `s`: everything before the last `/`, empty when
/// `s` holds no `/`.
pub open spec fn dir_spec(s: Seq<char>) -> Seq<char> {
    before_last(s, '/')
}

/// The file-name part of `s`: everything after the last `/`, all of `s`
/// when it holds no `/`.
pub open spec fn file_name_spec(s: Seq<char>) -> Seq<char> {
    after_last(s, '/')
}

/// The stem of a file name: the part before the last `.`, unless the only
/// `.` begins the name; a name without a further `.` is its own stem.
pub open spec fn stem_spec(name: Seq<char>) -> Seq<char> {
    if name.len() > 0 && has_char(name.skip(1), '.') {
        before_last(name, '.')
    } else {
        name
    }
}

/// The stem of a file name, as [`stem_spec`] describes.
pub fn file_stem(name: &str) -> (r: String)
    ensures
        r@ == stem_spec(name@),
{
    let n = name.unicode_len();
    if n == 0 {
        return name.to_owned();
    }
    let mut i: usize = n;
    while i > 1
        invariant
            1 <= i <= n,
            n == name@.len(),
            forall|j: int| i <= j < n ==> name@[j] != '.',
        decreases i,
    {
        if name.get_char(i - 1) == '.' {
            proof {
                lemma_split_last(name@, '.', i - 1);
                assert(name@.skip(1)[i - 2] == '.');
                assert(name@.subrange(0, i - 1) =~= name@.take(i - 1));
            }
            return name.substring_char(0, i - 1).to_owned();
        }
        i = i - 1;
    }
    proof {
        assert forall|j: int| 0 <= j < name@.skip(1).len() implies name@.skip(1)[j] != '.' by {
            assert(name@.skip(1)[j] == name@[j + 1]);
        }
    }
    name.to_owned()
}

/// A `..` path component occurs in `s` (delimited by `/` or the ends).
pub open spec fn has_parent_component(s: Seq<char>) -> bool {
    exists|i: int|
        0 <= i && i + 2 <= s.len() && #[trigger] s[i] == '.' && s[i + 1] == '.' && (i == 0 || s[i
            - 1] == '/') && (i + 2 == s.len() || s[i + 2] == '/')
}

/// `s` names a safe relative path: non-empty, not absolute, and free of
/// `..` components.
pub open spec fn is_safe_relative_path(s: Seq<char>) -> bool {
    s.len() > 0 && s[0] != '/' && !has_parent_component(s)
}

fn has_parent_component_exec(s: &str) -> (r: bool)
    ensures
        r == has_parent_component(s@),
{
    let n = s.unicode_len();
    if n < 2 {
        return false;
    }
    let mut i: usize = 0;
    while i <= n - 2
        invariant
            2 <= n,
            0 <= i <= n,
            n == s@.len(),
            forall|j: int|
                0 <= j < i ==> !(#[trigger] s@[j] == '.' && s@[j + 1] == '.' && (j == 0 || s@[j
                    - 1] == '/') && (j + 2 == n || s@[j + 2] == '/')),
        decreases n - i,
    {
        if s.get_char(i) == '.' && s.get_char(i + 1) == '.' && (i == 0 || s.get_char(i - 1) == '/')
            && (i + 2 == n || s.get_char(i + 2) == '/') {
            return true;
        }
        i = i + 1;
    }
    false
}

/// Validates a workspace-relative file path, after trimming surrounding
/// whitespace. Succeeds, returning the trimmed path, exactly when the
/// trimmed path is safe and relative: every other input is rejected.
pub fn validate_relative_file_path(rel: &str) -> (r: Result<String, String>)
    ensures
        r is Ok <==> is_safe_relative_path(trim_spec(rel@)),
        r matches Ok(p) ==> p@ == trim_spec(rel@),
{
    let trimmed = trim_str(rel);
    let n = trimmed.as_str().unicode_len();
    if n == 0 {
        return Err(String::from_str("template file path is empty"));
    }
    if trimmed.as_str().get_char(0) == '/' {
        let mut msg = String::from_str("template file path must be relative: ");
        msg.append(trimmed.as_str());
        return Err(msg);
    }
    if has_parent_component_exec(trimmed.as_str()) {
        let mut msg = String::from_str("template file path may not use '..': ");
        msg.append(trimmed.as_str());
        return Err(msg);
    }
    Ok(trimmed)
}

} // verus!
