//! Template management support: the full template manifest, the decisions
//! behind installing a bundled template (path validation, the skill
//! mirror), the git `info/exclude` entry that keeps the agent directory out
//! of version control, the ordering of the bundled-template list, and the
//! candidate locations of the bundled templates next to the executable.

use vstd::prelude::*;

use vstd::multiset::Multiset;

use crate::paths::{
    dir_spec, has_char, is_safe_relative_path, join_path, join_spec, split_at_last,
    validate_relative_file_path,
};
use crate::text::{lower_key, starts_with_spec, str_eq, strip_prefix_str, trim_spec, trim_str};

verus! {

/// A bundled template, as the list of installable templates shows it.
pub struct ForgeBundledTemplateInfo {
    pub id: String,
    pub title: String,
    pub version: String,
}

/// The hook entrypoints of a full template manifest.
pub struct TemplateHooks {
    pub post_plan: String,
    pub pre_execute: String,
    pub post_step: String,
}

/// The entrypoints of a full template manifest.
pub struct TemplateEntrypoints {
    pub phases: String,
    pub plan_prompt: String,
    pub execute_prompt: String,
    pub plan_schema: String,
    pub state_schema: String,
    pub required_skills: Vec<String>,
    pub hooks: TemplateHooks,
}

/// A full template manifest (schema `forge-template-v1`), as template
/// management reads it.
pub struct TemplateManifest {
    pub schema: String,
    pub id: String,
    pub title: String,
    pub version: String,
    pub files: Vec<String>,
    pub entrypoints: TemplateEntrypoints,
}

/// Validates a full template manifest: its schema tag must be
/// `forge-template-v1` exactly.
pub fn read_manifest(manifest: &TemplateManifest) -> (r: Result<(), String>)
    ensures
        r is Ok <==> manifest.schema@ == "forge-template-v1"@,
        r matches Err(e) ==> e@ == "Unsupported template.json schema (expected forge-template-v1): "@
            + manifest.schema@,
{
    if str_eq(manifest.schema.as_str(), "forge-template-v1") {
        Ok(())
    } else {
        let mut msg = String::from_str(
            "Unsupported template.json schema (expected forge-template-v1): ",
        );
        msg.append(manifest.schema.as_str());
        Err(msg)
    }
}

/// Demands that a manifest's own id names the folder it was found in.
pub fn require_manifest_id_matches(manifest: &TemplateManifest, template_id: &str) -> (r: Result<
    (),
    String,
>)
    ensures
        r is Ok <==> manifest.id@ == template_id@,
        r matches Err(e) ==> e@ == "template.json id does not match template folder"@,
{
    if str_eq(manifest.id.as_str(), template_id) {
        Ok(())
    } else {
        Err(String::from_str("template.json id does not match template folder"))
    }
}

/// One file of a template install: its validated workspace-relative path,
/// and, for a skill file, where it is mirrored under the agent skill
/// directory.
pub struct TemplateFileCopy {
    pub rel: String,
    pub skill_sub: Option<String>,
}

/// Lays the file copies of a template install out: every declared file
/// path must be safe and relative; a file under `skills/` is also mirrored.
/// Fails exactly when some declared path is unsafe.
pub fn plan_template_files(files: &Vec<String>) -> (r: Result<Vec<TemplateFileCopy>, String>)
    ensures
        r is Ok <==> forall|i: int|
            0 <= i < files@.len() ==> is_safe_relative_path(trim_spec((#[trigger] files@[i])@)),
        r matches Ok(copies) ==> copies@.len() == files@.len() && forall|i: int|
            0 <= i < files@.len() ==> {
                &&& (#[trigger] copies@[i]).rel@ == trim_spec(files@[i]@)
                &&& match copies@[i].skill_sub {
                    Some(sub) => starts_with_spec(trim_spec(files@[i]@), "skills/"@) && sub@
                        == trim_spec(files@[i]@).skip("skills/"@.len() as int),
                    None => !starts_with_spec(trim_spec(files@[i]@), "skills/"@),
                }
            },
{
    let mut out: Vec<TemplateFileCopy> = Vec::new();
    let mut i: usize = 0;
    while i < files.len()
        invariant
            0 <= i <= files@.len(),
            out@.len() == i,
            forall|j: int|
                0 <= j < i ==> is_safe_relative_path(trim_spec((#[trigger] files@[j])@)),
            forall|j: int|
                0 <= j < i ==> {
                    &&& (#[trigger] out@[j]).rel@ == trim_spec(files@[j]@)
                    &&& match out@[j].skill_sub {
                        Some(sub) => starts_with_spec(trim_spec(files@[j]@), "skills/"@) && sub@
                            == trim_spec(files@[j]@).skip("skills/"@.len() as int),
                        None => !starts_with_spec(trim_spec(files@[j]@), "skills/"@),
                    }
                },
        decreases files@.len() - i,
    {
        let rel = match validate_relative_file_path(files[i].as_str()) {
            Ok(p) => p,
            Err(e) => {
                return Err(e);
            },
        };
        let skill_sub = strip_prefix_str(rel.as_str(), "skills/");
        out.push(TemplateFileCopy { rel, skill_sub });
        i = i + 1;
    }
    Ok(out)
}

/// The text `s` holds a line that trims to `needle`.
pub open spec fn has_trimmed_line(s: Seq<char>, needle: Seq<char>) -> bool
    decreases s.len(),
    via has_trimmed_line_decreases
{
    if s.len() == 0 {
        false
    } else {
        let k = crate::text::first_char_at(s, '\n');
        let line = if k < 0 {
            s
        } else {
            s.take(k)
        };
        if trim_spec(line) == needle {
            true
        } else if k < 0 {
            false
        } else {
            has_trimmed_line(s.skip(k + 1), needle)
        }
    }
}

#[via_fn]
proof fn has_trimmed_line_decreases(s: Seq<char>, needle: Seq<char>) {
    crate::text::lemma_first_char_at_props(s, '\n');
}

fn has_trimmed_line_str(s: &str, needle: &str) -> (r: bool)
    ensures
        r == has_trimmed_line(s@, needle@),
    decreases s@.len(),
{
    let n = s.unicode_len();
    if n == 0 {
        return false;
    }
    match crate::text::find_char(s, '\n') {
        Some(k) => {
            let line = s.substring_char(0, k);
            proof {
                assert(s@.subrange(0, k as int) =~= s@.take(k as int));
            }
            let trimmed = trim_str(line);
            if str_eq(trimmed.as_str(), needle) {
                true
            } else {
                let rest = s.substring_char(k + 1, n);
                proof {
                    assert(s@.subrange(k + 1, n as int) =~= s@.skip(k + 1));
                }
                has_trimmed_line_str(rest, needle)
            }
        },
        None => {
            let trimmed = trim_str(s);
            str_eq(trimmed.as_str(), needle)
        },
    }
}

/// The git `info/exclude` content after making sure it holds `needle` as a
/// line: unchanged (`None`) when some line already trims to `needle`;
/// otherwise the old content — completed with a newline where one was
/// missing — with `needle` and a newline appended.
pub fn exclude_content_with(existing: &str, needle: &str) -> (r: Option<String>)
    ensures
        match r {
            Some(updated) => !has_trimmed_line(existing@, needle@) && updated@ == if existing@.len()
                > 0 && existing@[existing@.len() - 1] != '\n' {
                existing@ + "\n"@ + needle@ + "\n"@
            } else {
                existing@ + needle@ + "\n"@
            },
            None => has_trimmed_line(existing@, needle@),
        },
{
    if has_trimmed_line_str(existing, needle) {
        return None;
    }
    let n = existing.unicode_len();
    let mut next = existing.to_owned();
    if n > 0 && existing.get_char(n - 1) != '\n' {
        next.append("\n");
    }
    next.append(needle);
    next.append("\n");
    Some(next)
}

/// `a` sorts no later than `b`: lexicographic comparison of the titles'
/// characters under ASCII case folding, shorter prefix first.
pub open spec fn title_le(a: Seq<char>, b: Seq<char>) -> bool
    decreases a.len(),
{
    if a.len() == 0 {
        true
    } else if b.len() == 0 {
        false
    } else if lower_key(a[0]) < lower_key(b[0]) {
        true
    } else if lower_key(a[0]) > lower_key(b[0]) {
        false
    } else {
        title_le(a.skip(1), b.skip(1))
    }
}

proof fn lemma_title_le_total(a: Seq<char>, b: Seq<char>)
    ensures
        title_le(a, b) || title_le(b, a),
    decreases a.len(),
{
    if a.len() > 0 && b.len() > 0 && lower_key(a[0]) == lower_key(b[0]) {
        lemma_title_le_total(a.skip(1), b.skip(1));
    }
}

proof fn lemma_title_le_trans(a: Seq<char>, b: Seq<char>, c: Seq<char>)
    requires
        title_le(a, b),
        title_le(b, c),
    ensures
        title_le(a, c),
    decreases a.len(),
{
    if a.len() > 0 && b.len() > 0 && c.len() > 0 && lower_key(a[0]) == lower_key(b[0]) && lower_key(
        b[0],
    ) == lower_key(c[0]) {
        lemma_title_le_trans(a.skip(1), b.skip(1), c.skip(1));
    }
}

fn title_le_exec(a: &str, b: &str) -> (r: bool)
    ensures
        r == title_le(a@, b@),
{
    let n = a.unicode_len();
    let m = b.unicode_len();
    let mut i: usize = 0;
    proof {
        assert(a@.skip(0) =~= a@);
        assert(b@.skip(0) =~= b@);
    }
    while i < n && i < m
        invariant
            0 <= i,
            i <= n,
            i <= m,
            n == a@.len(),
            m == b@.len(),
            title_le(a@, b@) == title_le(a@.skip(i as int), b@.skip(i as int)),
        decreases n - i,
    {
        proof {
            assert(a@.skip(i as int)[0] == a@[i as int]);
            assert(b@.skip(i as int)[0] == b@[i as int]);
            assert(a@.skip(i as int).skip(1) =~= a@.skip(i + 1));
            assert(b@.skip(i as int).skip(1) =~= b@.skip(i + 1));
        }
        let ka = crate::text::lower_key_exec(a.get_char(i));
        let kb = crate::text::lower_key_exec(b.get_char(i));
        if ka < kb {
            return true;
        }
        if ka > kb {
            return false;
        }
        i = i + 1;
    }
    proof {
        if i == n {
            assert(a@.skip(n as int).len() == 0);
        } else {
            assert(b@.skip(i as int).len() == 0);
            assert(a@.skip(i as int).len() > 0);
        }
    }
    i == n
}

/// The list is ordered by title, case-folded, earliest first.
pub open spec fn sorted_by_title(list: Seq<ForgeBundledTemplateInfo>) -> bool {
    forall|i: int, j: int|
        0 <= i < j < list.len() ==> title_le(
            (#[trigger] list[i]).title@,
            (#[trigger] list[j]).title@,
        )
}

/// Orders the bundled templates by title, case-folded. The result holds
/// exactly the given entries (as a multiset) in that order.
pub fn sort_templates_by_title(list: Vec<ForgeBundledTemplateInfo>) -> (r: Vec<
    ForgeBundledTemplateInfo,
>)
    ensures
        sorted_by_title(r@),
        r@.to_multiset() == list@.to_multiset(),
{
    let mut rest = list;
    let mut out: Vec<ForgeBundledTemplateInfo> = Vec::new();
    proof {
        broadcast use vstd::seq_lib::group_to_multiset_ensures;

        assert(out@.to_multiset() =~= Multiset::<ForgeBundledTemplateInfo>::empty());
        assert(out@.to_multiset().add(rest@.to_multiset()) =~= rest@.to_multiset());
    }
    while rest.len() > 0
        invariant
            sorted_by_title(out@),
            out@.to_multiset().add(rest@.to_multiset()) == list@.to_multiset(),
            forall|i: int, j: int|
                0 <= i < out@.len() && 0 <= j < rest@.len() ==> title_le(
                    (#[trigger] out@[i]).title@,
                    (#[trigger] rest@[j]).title@,
                ),
        decreases rest@.len(),
    {
        let mut best: usize = 0;
        let mut k: usize = 1;
        proof {
            lemma_title_le_total(rest@[0].title@, rest@[0].title@);
        }
        while k < rest.len()
            invariant
                0 <= best < k <= rest@.len(),
                rest@.len() > 0,
                forall|j: int|
                    0 <= j < k ==> title_le(
                        rest@[best as int].title@,
                        (#[trigger] rest@[j]).title@,
                    ),
            decreases rest@.len() - k,
        {
            if !title_le_exec(rest[best].title.as_str(), rest[k].title.as_str()) {
                proof {
                    lemma_title_le_total(rest@[best as int].title@, rest@[k as int].title@);
                    assert forall|j: int| 0 <= j <= k implies title_le(
                        rest@[k as int].title@,
                        (#[trigger] rest@[j]).title@,
                    ) by {
                        if j == k {
                            lemma_title_le_total(rest@[k as int].title@, rest@[k as int].title@);
                        } else {
                            lemma_title_le_trans(
                                rest@[k as int].title@,
                                rest@[best as int].title@,
                                rest@[j].title@,
                            );
                        }
                    }
                }
                best = k;
            }
            k = k + 1;
        }
        let ghost rest0 = rest@;
        let ghost out0 = out@;
        let picked = rest.remove(best);
        out.push(picked);
        proof {
            broadcast use vstd::seq_lib::group_to_multiset_ensures;

            assert(rest@.to_multiset() =~= rest0.to_multiset().remove(rest0[best as int]));
            assert(out@.to_multiset() =~= out0.to_multiset().insert(rest0[best as int]));
            assert(rest0.contains(rest0[best as int]));
            assert(rest0.to_multiset().count(rest0[best as int]) > 0);
            assert(out@.to_multiset().add(rest@.to_multiset()) =~= out0.to_multiset().add(
                rest0.to_multiset(),
            ));
            assert forall|j: int| 0 <= j < rest@.len() implies title_le(
                picked.title@,
                (#[trigger] rest@[j]).title@,
            ) by {
                if j < best {
                    assert(rest@[j] == rest0[j]);
                } else {
                    assert(rest@[j] == rest0[j + 1]);
                }
            }
        }
    }
    proof {
        assert(rest@.to_multiset() =~= Multiset::<ForgeBundledTemplateInfo>::empty());
        assert(out@.to_multiset().add(Multiset::<ForgeBundledTemplateInfo>::empty()) =~= out@
            .to_multiset());
    }
    out
}

/// The candidate locations of the bundled templates near the executable, in
/// probe order: under `resources`, beside the executable, and under the
/// `Resources`/`resources` directories one and two levels up — each tried
/// with `forge/templates` directly and under a nested `resources`. The
/// caller takes the first that is a directory; an executable path with no
/// directory part to speak of (empty, or the root itself) yields no
/// candidates.
pub fn find_bundled_templates_root_near_exe(exe_path: &str) -> (r: Vec<String>)
    ensures
        ({
            let d = dir_spec(exe_path@);
            if exe_path@.len() == 0 || exe_path@ =~= "/"@ {
                r.deep_view() == Seq::<Seq<char>>::empty()
            } else {
                let bases = seq![
                    join_spec(d, "resources"@),
                    d,
                    join_spec(join_spec(d, ".."@), "Resources"@),
                    join_spec(join_spec(d, ".."@), "resources"@),
                    join_spec(join_spec(join_spec(d, ".."@), ".."@), "resources"@),
                ];
                r.deep_view() == Seq::new(
                    10,
                    |i: int|
                        if i % 2 == 0 {
                            join_spec(join_spec(bases[i / 2], "forge"@), "templates"@)
                        } else {
                            join_spec(
                                join_spec(join_spec(bases[i / 2], "resources"@), "forge"@),
                                "templates"@,
                            )
                        },
                )
            }
        }),
{
    let n = exe_path.unicode_len();
    let mut out: Vec<String> = Vec::new();
    if n == 0 || (n == 1 && exe_path.get_char(0) == '/') {
        proof {
            if n == 1 && exe_path@[0] == '/' {
                reveal_strlit("/");
                assert(exe_path@ =~= "/"@);
            }
            assert(out.deep_view() =~= Seq::<Seq<char>>::empty());
        }
        return out;
    }
    let exe_dir = match split_at_last(exe_path, '/') {
        Some(parts) => parts.0,
        None => String::new(),
    };
    proof {
        reveal_strlit("/");
        assert(!(exe_path@ =~= "/"@)) by {
            if exe_path@ =~= "/"@ {
                assert(exe_path@.len() == 1 && exe_path@[0] == '/');
            }
        }
    }
    let up = join_path(exe_dir.as_str(), "..");
    let up2 = join_path(up.as_str(), "..");
    let mut bases: Vec<String> = Vec::new();
    bases.push(join_path(exe_dir.as_str(), "resources"));
    bases.push(exe_dir);
    bases.push(join_path(up.as_str(), "Resources"));
    bases.push(join_path(up.as_str(), "resources"));
    bases.push(join_path(up2.as_str(), "resources"));
    let mut i: usize = 0;
    while i < bases.len()
        invariant
            0 <= i <= bases@.len(),
            out@.len() == 2 * i,
            forall|j: int|
                0 <= j < 2 * i ==> (#[trigger] out@[j])@ == if j % 2 == 0 {
                    join_spec(join_spec(bases@[j / 2]@, "forge"@), "templates"@)
                } else {
                    join_spec(
                        join_spec(join_spec(bases@[j / 2]@, "resources"@), "forge"@),
                        "templates"@,
                    )
                },
        decreases bases@.len() - i,
    {
        let forge_dir = join_path(bases[i].as_str(), "forge");
        out.push(join_path(forge_dir.as_str(), "templates"));
        let nested = join_path(bases[i].as_str(), "resources");
        let nested_forge = join_path(nested.as_str(), "forge");
        out.push(join_path(nested_forge.as_str(), "templates"));
        i = i + 1;
    }
    proof {
        let d = dir_spec(exe_path@);
        let bases_spec = seq![
            join_spec(d, "resources"@),
            d,
            join_spec(join_spec(d, ".."@), "Resources"@),
            join_spec(join_spec(d, ".."@), "resources"@),
            join_spec(join_spec(join_spec(d, ".."@), ".."@), "resources"@),
        ];
        assert forall|j: int| 0 <= j < 5 implies bases@[j]@ == bases_spec[j] by {}
        assert(out.deep_view() =~= Seq::new(
            10,
            |i: int|
                if i % 2 == 0 {
                    join_spec(join_spec(bases_spec[i / 2], "forge"@), "templates"@)
                } else {
                    join_spec(
                        join_spec(join_spec(bases_spec[i / 2], "resources"@), "forge"@),
                        "templates"@,
                    )
                },
        ));
    }
    out
}

} // verus!
