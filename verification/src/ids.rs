//! Validation of plan and template identifiers. An identifier is a slug:
//! lower-case ASCII letters, digits and hyphens, beginning and ending with a
//! letter or digit, at most 64 characters.

use vstd::prelude::*;

use crate::text::{trim_spec, trim_str};

verus! {

/// `c` is a lower-case ASCII letter or an ASCII digit.
pub open spec fn is_lower_alnum(c: char) -> bool {
    ('a' <= c && c <= 'z') || ('0' <= c && c <= '9')
}

/// Executable test for [`is_lower_alnum`].
pub fn is_ascii_lower_alnum(ch: char) -> (r: bool)
    ensures
        r == is_lower_alnum(ch),
{
    ('a' <= ch && ch <= 'z') || ('0' <= ch && ch <= '9')
}

/// `s` is a valid identifier slug: non-empty, at most 64 characters, every
/// character lower-case alphanumeric or `-`, and the first and last
/// characters lower-case alphanumeric.
pub open spec fn is_valid_slug(s: Seq<char>) -> bool {
    &&& s.len() > 0
    &&& s.len() <= 64
    &&& is_lower_alnum(s[0])
    &&& is_lower_alnum(s[s.len() - 1])
    &&& forall|i: int| 0 <= i < s.len() ==> is_lower_alnum(s[i]) || s[i] == '-'
}

/// Validates a plan identifier against the slug grammar, after trimming
/// surrounding whitespace. Succeeds, returning the trimmed identifier,
/// exactly on the valid slugs; every other input is rejected.
pub fn validate_plan_id(plan_id: &str) -> (r: Result<String, String>)
    ensures
        r is Ok <==> is_valid_slug(trim_spec(plan_id@)),
        r matches Ok(id) ==> id@ == trim_spec(plan_id@),
{
    let id = trim_str(plan_id);
    let n = id.as_str().unicode_len();
    if n == 0 {
        return Err(String::from_str("planId is required"));
    }
    if n > 64 {
        return Err(String::from_str("planId is too long"));
    }
    let first = id.as_str().get_char(0);
    let last = id.as_str().get_char(n - 1);
    if !is_ascii_lower_alnum(first) || !is_ascii_lower_alnum(last) {
        return Err(String::from_str("planId must start and end with [a-z0-9]"));
    }
    let mut i: usize = 0;
    while i < n
        invariant
            0 <= i <= n,
            n == id@.len(),
            id@ == trim_spec(plan_id@),
            0 < n <= 64,
            is_lower_alnum(id@[0]),
            is_lower_alnum(id@[n - 1]),
            forall|j: int| 0 <= j < i ==> is_lower_alnum(id@[j]) || id@[j] == '-',
        decreases n - i,
    {
        let c = id.as_str().get_char(i);
        if !(is_ascii_lower_alnum(c) || c == '-') {
            proof {
                assert(!(is_lower_alnum(id@[i as int]) || id@[i as int] == '-'));
            }
            return Err(String::from_str("planId must match ^[a-z0-9][a-z0-9-]*[a-z0-9]$"));
        }
        i = i + 1;
    }
    Ok(id)
}

/// Validates a template identifier against the same slug grammar as
/// [`validate_plan_id`], after trimming surrounding whitespace.
pub fn validate_template_id(template_id: &str) -> (r: Result<(), String>)
    ensures
        r is Ok <==> is_valid_slug(trim_spec(template_id@)),
{
    let id = trim_str(template_id);
    let n = id.as_str().unicode_len();
    if n == 0 {
        return Err(String::from_str("templateId is required"));
    }
    if n > 64 {
        return Err(String::from_str("templateId is too long"));
    }
    let first = id.as_str().get_char(0);
    let last = id.as_str().get_char(n - 1);
    if !is_ascii_lower_alnum(first) || !is_ascii_lower_alnum(last) {
        return Err(String::from_str("templateId must start and end with [a-z0-9]"));
    }
    let mut i: usize = 0;
    while i < n
        invariant
            0 <= i <= n,
            n == id@.len(),
            id@ == trim_spec(template_id@),
            0 < n <= 64,
            is_lower_alnum(id@[0]),
            is_lower_alnum(id@[n - 1]),
            forall|j: int| 0 <= j < i ==> is_lower_alnum(id@[j]) || id@[j] == '-',
        decreases n - i,
    {
        let c = id.as_str().get_char(i);
        if !(is_ascii_lower_alnum(c) || c == '-') {
            proof {
                assert(!(is_lower_alnum(id@[i as int]) || id@[i as int] == '-'));
            }
            return Err(String::from_str("templateId must match ^[a-z0-9][a-z0-9-]*[a-z0-9]$"));
        }
        i = i + 1;
    }
    Ok(())
}

} // verus!
