//! Verified text utilities: trimming, comparison, substring search and
//! replacement, decimal formatting, and whitespace normalization. All engine
//! logic on identifiers, statuses and messages is built from these.

use vstd::prelude::*;

verus! {

/// The whitespace characters that trimming and word splitting recognise.
pub open spec fn is_space(c: char) -> bool {
    c == ' ' || c == '\t' || c == '\n' || c == '\r' || c == '\u{b}' || c == '\u{c}'
}

/// Executable test for [`is_space`].
pub fn is_space_char(c: char) -> (r: bool)
    ensures
        r == is_space(c),
{
    c == ' ' || c == '\t' || c == '\n' || c == '\r' || c == '\u{b}' || c == '\u{c}'
}

/// `s` with leading whitespace removed.
pub open spec fn trim_start_spec(s: Seq<char>) -> Seq<char>
    decreases s.len(),
{
    if s.len() == 0 {
        s
    } else if is_space(s[0]) {
        trim_start_spec(s.skip(1))
    } else {
        s
    }
}

/// `s` with trailing whitespace removed.
pub open spec fn trim_end_spec(s: Seq<char>) -> Seq<char>
    decreases s.len(),
{
    if s.len() == 0 {
        s
    } else if is_space(s[s.len() - 1]) {
        trim_end_spec(s.take(s.len() - 1))
    } else {
        s
    }
}

/// `s` with leading and trailing whitespace removed.
pub open spec fn trim_spec(s: Seq<char>) -> Seq<char> {
    trim_end_spec(trim_start_spec(s))
}

/// Trimming a string without whitespace leaves it unchanged.
pub proof fn lemma_trim_no_space(s: Seq<char>)
    requires
        forall|i: int| 0 <= i < s.len() ==> !is_space(#[trigger] s[i]),
    ensures
        trim_spec(s) == s,
{
    if s.len() > 0 {
        assert(!is_space(s[0]));
        assert(!is_space(s[s.len() - 1]));
    }
}

proof fn lemma_trim_start_skip(s: Seq<char>, i: int)
    requires
        0 <= i <= s.len(),
        forall|j: int| 0 <= j < i ==> is_space(s[j]),
        i == s.len() || !is_space(s[i]),
    ensures
        trim_start_spec(s) == s.skip(i),
    decreases i,
{
    if i == 0 {
        assert(s.skip(0) =~= s);
    } else {
        lemma_trim_start_skip(s.skip(1), i - 1);
        assert(s.skip(1).skip(i - 1) =~= s.skip(i));
    }
}

proof fn lemma_trim_end_take(s: Seq<char>, i: int)
    requires
        0 <= i <= s.len(),
        forall|j: int| i <= j < s.len() ==> is_space(s[j]),
        i == 0 || !is_space(s[i - 1]),
    ensures
        trim_end_spec(s) == s.take(i),
    decreases s.len() - i,
{
    if i == s.len() {
        assert(s.take(i) =~= s);
    } else {
        lemma_trim_end_take(s.take(s.len() - 1), i);
        assert(s.take(s.len() - 1).take(i) =~= s.take(i));
    }
}

/// Trims the whitespace of [`is_space`] from both ends of `s`.
pub fn trim_str(s: &str) -> (r: String)
    ensures
        r@ == trim_spec(s@),
{
    let n = s.unicode_len();
    let mut start: usize = 0;
    while start < n && is_space_char(s.get_char(start))
        invariant
            0 <= start <= n,
            n == s@.len(),
            forall|j: int| 0 <= j < start ==> is_space(s@[j]),
        decreases n - start,
    {
        start = start + 1;
    }
    proof {
        lemma_trim_start_skip(s@, start as int);
    }
    let mut end: usize = n;
    while end > start && is_space_char(s.get_char(end - 1))
        invariant
            start <= end <= n,
            n == s@.len(),
            forall|j: int| end <= j < n ==> is_space(s@[j]),
            trim_start_spec(s@) == s@.skip(start as int),
            start == n || !is_space(s@[start as int]),
        decreases end,
    {
        end = end - 1;
    }
    proof {
        let t = s@.skip(start as int);
        if end == start {
            lemma_trim_end_take(t, 0);
        } else {
            lemma_trim_end_take(t, end - start);
        }
        assert(t.take(end - start) =~= s@.subrange(start as int, end as int));
    }
    let out = s.substring_char(start, end);
    out.to_owned()
}

/// Character-for-character equality of two string slices.
pub fn str_eq(a: &str, b: &str) -> (r: bool)
    ensures
        r == (a@ == b@),
{
    let n = a.unicode_len();
    let m = b.unicode_len();
    if n != m {
        return false;
    }
    let mut i: usize = 0;
    while i < n
        invariant
            0 <= i <= n,
            n == a@.len(),
            n == b@.len(),
            forall|j: int| 0 <= j < i ==> a@[j] == b@[j],
        decreases n - i,
    {
        if a.get_char(i) != b.get_char(i) {
            return false;
        }
        i = i + 1;
    }
    proof {
        assert(a@ =~= b@);
    }
    true
}

/// Equality of two strings.
pub fn string_eq(a: &String, b: &String) -> (r: bool)
    ensures
        r == (a@ == b@),
{
    str_eq(a.as_str(), b.as_str())
}

/// `sub` occurs in `s` starting at position `i`.
pub open spec fn matches_at(s: Seq<char>, sub: Seq<char>, i: int) -> bool {
    0 <= i && i + sub.len() <= s.len() && s.subrange(i, i + sub.len()) == sub
}

/// `sub` occurs somewhere in `s`.
pub open spec fn contains_sub(s: Seq<char>, sub: Seq<char>) -> bool {
    exists|i: int| matches_at(s, sub, i)
}

/// Executable test for [`matches_at`].
pub fn matches_at_exec(s: &str, sub: &str, i: usize) -> (r: bool)
    requires
        i + sub@.len() <= s@.len(),
    ensures
        r == matches_at(s@, sub@, i as int),
{
    let n = s.unicode_len();
    let m = sub.unicode_len();
    let mut k: usize = 0;
    while k < m
        invariant
            0 <= k <= m,
            n == s@.len(),
            m == sub@.len(),
            i + m <= n,
            forall|j: int| 0 <= j < k ==> s@[i + j] == sub@[j],
        decreases m - k,
    {
        if s.get_char(i + k) != sub.get_char(k) {
            proof {
                assert(s@.subrange(i as int, i + m)[k as int] != sub@[k as int]);
            }
            return false;
        }
        k = k + 1;
    }
    proof {
        assert(s@.subrange(i as int, i + m) =~= sub@);
    }
    true
}

/// Position of the first occurrence of `sub` in `s`, if any.
pub fn find_sub(s: &str, sub: &str) -> (r: Option<usize>)
    ensures
        match r {
            Some(i) => matches_at(s@, sub@, i as int) && forall|j: int|
                0 <= j < i ==> !matches_at(s@, sub@, j),
            None => !contains_sub(s@, sub@),
        },
{
    let n = s.unicode_len();
    let m = sub.unicode_len();
    if m > n {
        return None;
    }
    if m == 0 {
        proof {
            assert(s@.subrange(0, 0) =~= sub@);
        }
        return Some(0);
    }
    let mut i: usize = 0;
    while i <= n - m
        invariant
            0 <= i <= n - m + 1,
            1 <= m <= n,
            n == s@.len(),
            m == sub@.len(),
            forall|j: int| 0 <= j < i ==> !matches_at(s@, sub@, j),
        decreases n - i,
    {
        if matches_at_exec(s, sub, i) {
            return Some(i);
        }
        i = i + 1;
    }
    None
}

/// Executable test for [`contains_sub`].
pub fn contains_str(s: &str, sub: &str) -> (r: bool)
    ensures
        r == contains_sub(s@, sub@),
{
    match find_sub(s, sub) {
        Some(_) => true,
        None => false,
    }
}

/// The position of the first occurrence of `sub` in `s`, or `-1`.
pub open spec fn first_match_at(s: Seq<char>, sub: Seq<char>) -> int
    decreases s.len(),
{
    if matches_at(s, sub, 0) {
        0
    } else if s.len() == 0 {
        -1
    } else {
        let rest = first_match_at(s.skip(1), sub);
        if rest < 0 {
            -1
        } else {
            rest + 1
        }
    }
}

proof fn lemma_matches_at_shift(s: Seq<char>, sub: Seq<char>, j: int)
    requires
        s.len() > 0,
        0 <= j,
    ensures
        matches_at(s.skip(1), sub, j) == matches_at(s, sub, j + 1),
{
    if j + sub.len() <= s.len() - 1 {
        assert(s.skip(1).subrange(j, j + sub.len()) =~= s.subrange(j + 1, j + 1 + sub.len()));
    }
}

pub broadcast proof fn lemma_first_match_at_props(s: Seq<char>, sub: Seq<char>)
    ensures
        #![trigger first_match_at(s, sub)]
        -1 <= first_match_at(s, sub) <= s.len(),
        first_match_at(s, sub) >= 0 ==> matches_at(s, sub, first_match_at(s, sub)),
        first_match_at(s, sub) >= 0 ==> forall|j: int|
            0 <= j < first_match_at(s, sub) ==> !matches_at(s, sub, j),
        first_match_at(s, sub) == -1 ==> !contains_sub(s, sub),
    decreases s.len(),
{
    if !matches_at(s, sub, 0) && s.len() > 0 {
        lemma_first_match_at_props(s.skip(1), sub);
        assert forall|j: int| 0 <= j implies matches_at(s.skip(1), sub, j) == matches_at(
            s,
            sub,
            j + 1,
        ) by {
            lemma_matches_at_shift(s, sub, j);
        }
        if first_match_at(s.skip(1), sub) == -1 {
            assert forall|j: int| true implies !matches_at(s, sub, j) by {
                if j > 0 {
                    assert(!matches_at(s.skip(1), sub, j - 1));
                }
            }
        } else {
            assert forall|j: int| 0 <= j < first_match_at(s, sub) implies !matches_at(
                s,
                sub,
                j,
            ) by {
                if j > 0 {
                    assert(!matches_at(s.skip(1), sub, j - 1));
                }
            }
        }
    }
}

/// From a found occurrence and the absence of earlier ones,
/// [`first_match_at`] is pinned.
pub proof fn lemma_first_match_found(s: Seq<char>, sub: Seq<char>, i: int)
    requires
        0 <= i,
        matches_at(s, sub, i),
        forall|j: int| 0 <= j < i ==> !matches_at(s, sub, j),
    ensures
        first_match_at(s, sub) == i,
    decreases i,
{
    if i > 0 {
        lemma_matches_at_shift(s, sub, i - 1);
        assert forall|j: int| 0 <= j < i - 1 implies !matches_at(s.skip(1), sub, j) by {
            lemma_matches_at_shift(s, sub, j);
        }
        lemma_first_match_found(s.skip(1), sub, i - 1);
    }
}

/// `s` begins with `prefix`.
pub open spec fn starts_with_spec(s: Seq<char>, prefix: Seq<char>) -> bool {
    matches_at(s, prefix, 0)
}

/// Executable test for [`starts_with_spec`].
pub fn starts_with(s: &str, prefix: &str) -> (r: bool)
    ensures
        r == starts_with_spec(s@, prefix@),
{
    let n = s.unicode_len();
    let m = prefix.unicode_len();
    if m > n {
        return false;
    }
    matches_at_exec(s, prefix, 0)
}

/// The remainder of `s` after `prefix`, when `s` begins with it.
pub fn strip_prefix_str(s: &str, prefix: &str) -> (r: Option<String>)
    ensures
        match r {
            Some(t) => starts_with_spec(s@, prefix@) && t@ == s@.skip(prefix@.len() as int),
            None => !starts_with_spec(s@, prefix@),
        },
{
    if starts_with(s, prefix) {
        let rest = s.substring_char(prefix.unicode_len(), s.unicode_len());
        proof {
            assert(s@.subrange(prefix@.len() as int, s@.len() as int) =~= s@.skip(
                prefix@.len() as int,
            ));
        }
        Some(rest.to_owned())
    } else {
        None
    }
}

/// `s` with every non-overlapping occurrence of `from`, found left to right,
/// rewritten to `to`. A search text that cannot occur (the empty one) leaves
/// `s` unchanged.
pub open spec fn replace_spec(s: Seq<char>, from: Seq<char>, to: Seq<char>) -> Seq<char>
    decreases s.len(),
{
    if from.len() == 0 || s.len() < from.len() {
        s
    } else if s.take(from.len() as int) == from {
        to + replace_spec(s.skip(from.len() as int), from, to)
    } else {
        seq![s[0]] + replace_spec(s.skip(1), from, to)
    }
}

/// Rewrites every occurrence of `from` in `s` to `to`, left to right.
pub fn replace_str(s: &str, from: &str, to: &str) -> (r: String)
    ensures
        r@ == replace_spec(s@, from@, to@),
{
    let n = s.unicode_len();
    let m = from.unicode_len();
    if m == 0 {
        return s.to_owned();
    }
    let mut out = String::new();
    let mut i: usize = 0;
    proof {
        assert(s@.skip(0) =~= s@);
        assert(out@ + replace_spec(s@, from@, to@) =~= replace_spec(s@, from@, to@));
    }
    while i < n
        invariant
            0 <= i <= n,
            n == s@.len(),
            m == from@.len(),
            m >= 1,
            replace_spec(s@, from@, to@) == out@ + replace_spec(s@.skip(i as int), from@, to@),
        decreases n - i,
    {
        let ghost rest = s@.skip(i as int);
        let ghost out0 = out@;
        if m <= n && i <= n - m && matches_at_exec(s, from, i) {
            proof {
                assert(rest.take(m as int) =~= s@.subrange(i as int, i + m));
                assert(rest.skip(m as int) =~= s@.skip(i + m));
                assert(replace_spec(rest, from@, to@) == to@ + replace_spec(
                    s@.skip(i + m),
                    from@,
                    to@,
                ));
                assert(out0 + (to@ + replace_spec(s@.skip(i + m), from@, to@)) =~= (out0 + to@)
                    + replace_spec(s@.skip(i + m), from@, to@));
            }
            out.append(to);
            i = i + m;
        } else {
            proof {
                if i + m <= n {
                    assert(rest.take(m as int) =~= s@.subrange(i as int, i + m));
                    assert(rest.take(m as int) != from@);
                }
                assert(rest.skip(1) =~= s@.skip(i + 1));
                assert(rest[0] == s@[i as int]);
                assert(replace_spec(rest, from@, to@) == seq![s@[i as int]] + replace_spec(
                    s@.skip(i + 1),
                    from@,
                    to@,
                ));
                assert(s@.subrange(i as int, i + 1) =~= seq![s@[i as int]]);
                assert(out0 + (seq![s@[i as int]] + replace_spec(s@.skip(i + 1), from@, to@)) =~= (
                out0 + seq![s@[i as int]]) + replace_spec(s@.skip(i + 1), from@, to@));
            }
            let c = s.substring_char(i, i + 1);
            out.append(c);
            i = i + 1;
        }
    }
    proof {
        assert(s@.skip(n as int) =~= Seq::<char>::empty());
        assert(out@ + Seq::<char>::empty() =~= out@);
    }
    out
}

/// The digit character for a value below ten.
pub open spec fn digit_char(d: nat) -> char {
    if d == 0 {
        '0'
    } else if d == 1 {
        '1'
    } else if d == 2 {
        '2'
    } else if d == 3 {
        '3'
    } else if d == 4 {
        '4'
    } else if d == 5 {
        '5'
    } else if d == 6 {
        '6'
    } else if d == 7 {
        '7'
    } else if d == 8 {
        '8'
    } else {
        '9'
    }
}

/// The decimal notation of `n`, without sign or leading zeros.
pub open spec fn dec_str(n: nat) -> Seq<char>
    decreases n,
{
    if n < 10 {
        seq![digit_char(n)]
    } else {
        dec_str(n / 10) + seq![digit_char(n % 10)]
    }
}

fn digit_str(d: u64) -> (r: &'static str)
    requires
        d < 10,
    ensures
        r@ =~= seq![digit_char(d as nat)],
{
    proof {
        reveal_strlit("0");
        reveal_strlit("1");
        reveal_strlit("2");
        reveal_strlit("3");
        reveal_strlit("4");
        reveal_strlit("5");
        reveal_strlit("6");
        reveal_strlit("7");
        reveal_strlit("8");
        reveal_strlit("9");
    }
    if d == 0 {
        "0"
    } else if d == 1 {
        "1"
    } else if d == 2 {
        "2"
    } else if d == 3 {
        "3"
    } else if d == 4 {
        "4"
    } else if d == 5 {
        "5"
    } else if d == 6 {
        "6"
    } else if d == 7 {
        "7"
    } else if d == 8 {
        "8"
    } else {
        "9"
    }
}

fn push_dec(out: &mut String, n: u64)
    ensures
        final (out)@ == old(out)@ + dec_str(n as nat),
    decreases n,
{
    if n < 10 {
        out.append(digit_str(n));
    } else {
        let ghost out0 = out@;
        push_dec(out, n / 10);
        out.append(digit_str(n % 10));
        proof {
            assert((out0 + dec_str((n / 10) as nat)) + seq![digit_char((n % 10) as nat)] =~= out0
                + (dec_str((n / 10) as nat) + seq![digit_char((n % 10) as nat)]));
        }
    }
}

/// The decimal notation of `n` as a string.
pub fn u64_to_string(n: u64) -> (r: String)
    ensures
        r@ == dec_str(n as nat),
{
    let mut out = String::new();
    push_dec(&mut out, n);
    proof {
        assert(Seq::<char>::empty() + dec_str(n as nat) =~= dec_str(n as nat));
    }
    out
}

/// The length of the run of non-whitespace characters that begins `s`.
pub open spec fn word_len(s: Seq<char>) -> int
    decreases s.len(),
{
    if s.len() == 0 || is_space(s[0]) {
        0
    } else {
        1 + word_len(s.skip(1))
    }
}

proof fn lemma_word_len_bounds(s: Seq<char>)
    ensures
        0 <= word_len(s) <= s.len(),
        s.len() > 0 && !is_space(s[0]) ==> word_len(s) >= 1,
        forall|j: int| 0 <= j < word_len(s) ==> !is_space(s[j]),
        word_len(s) < s.len() ==> is_space(s[word_len(s)]),
    decreases s.len(),
{
    if s.len() > 0 && !is_space(s[0]) {
        lemma_word_len_bounds(s.skip(1));
        assert forall|j: int| 0 <= j < word_len(s) implies !is_space(s[j]) by {
            if j > 0 {
                assert(s.skip(1)[j - 1] == s[j]);
            }
        }
        if word_len(s) < s.len() {
            assert(s.skip(1)[word_len(s) - 1] == s[word_len(s)]);
        }
    }
}

/// The maximal whitespace-separated words of `s`, in order.
pub open spec fn words(s: Seq<char>) -> Seq<Seq<char>>
    decreases s.len(),
    via words_decreases
{
    if s.len() == 0 {
        seq![]
    } else if is_space(s[0]) {
        words(s.skip(1))
    } else {
        seq![s.take(word_len(s))] + words(s.skip(word_len(s)))
    }
}

#[via_fn]
proof fn words_decreases(s: Seq<char>) {
    if s.len() > 0 && !is_space(s[0]) {
        lemma_word_len_bounds(s);
    }
}

/// The elements of `ws` joined with single spaces.
pub open spec fn join_spaces(ws: Seq<Seq<char>>) -> Seq<char>
    decreases ws.len(),
{
    if ws.len() == 0 {
        seq![]
    } else if ws.len() == 1 {
        ws[0]
    } else {
        ws[0] + seq![' '] + join_spaces(ws.skip(1))
    }
}

/// `s` with every run of whitespace collapsed to a single space and
/// leading and trailing whitespace dropped.
pub open spec fn normalize_ws(s: Seq<char>) -> Seq<char> {
    join_spaces(words(s))
}

proof fn lemma_join_push(ws: Seq<Seq<char>>, w: Seq<char>)
    ensures
        ws.len() == 0 ==> join_spaces(ws.push(w)) == w,
        ws.len() > 0 ==> join_spaces(ws.push(w)) == join_spaces(ws) + seq![' '] + w,
    decreases ws.len(),
{
    if ws.len() == 0 {
        assert(ws.push(w)[0] == w);
        assert(join_spaces(ws.push(w)) == w);
    } else if ws.len() == 1 {
        assert(ws.push(w).len() == 2);
        assert(ws.push(w)[0] == ws[0]);
        assert(ws.push(w).skip(1) =~= seq![w]);
        assert(join_spaces(seq![w]) == w);
    } else {
        lemma_join_push(ws.skip(1), w);
        assert(ws.push(w).skip(1) =~= ws.skip(1).push(w));
        assert(ws.push(w)[0] == ws[0]);
        assert((ws[0] + seq![' ']) + (join_spaces(ws.skip(1)) + seq![' '] + w) =~= ((ws[0]
            + seq![' ']) + join_spaces(ws.skip(1))) + seq![' '] + w);
    }
}

proof fn lemma_words_skip_space(s: Seq<char>, i: int)
    requires
        0 <= i < s.len(),
        is_space(s[i]),
    ensures
        words(s.skip(i)) == words(s.skip(i + 1)),
{
    assert(s.skip(i)[0] == s[i]);
    assert(s.skip(i).skip(1) =~= s.skip(i + 1));
}

proof fn lemma_words_at_word(s: Seq<char>, i: int, j: int)
    requires
        0 <= i < j <= s.len(),
        forall|k: int| i <= k < j ==> !is_space(s[k]),
        j == s.len() || is_space(s[j]),
    ensures
        words(s.skip(i)) == seq![s.subrange(i, j)] + words(s.skip(j)),
{
    let t = s.skip(i);
    assert(t[0] == s[i]);
    assert(!is_space(t[0]));
    lemma_word_len_at(s, i, j);
    assert(t.take(j - i) =~= s.subrange(i, j));
    assert(t.skip(j - i) =~= s.skip(j));
}

proof fn lemma_word_len_at(s: Seq<char>, i: int, j: int)
    requires
        0 <= i <= j <= s.len(),
        forall|k: int| i <= k < j ==> !is_space(s[k]),
        j == s.len() || is_space(s[j]),
    ensures
        word_len(s.skip(i)) == j - i,
    decreases j - i,
{
    let t = s.skip(i);
    if i == j {
        if j < s.len() {
            assert(t[0] == s[j]);
        }
    } else {
        assert(t[0] == s[i]);
        lemma_word_len_at(s, i + 1, j);
        assert(t.skip(1) =~= s.skip(i + 1));
    }
}

/// The whitespace-separated words of `s`, each as its own string.
pub fn split_words(s: &str) -> (r: Vec<String>)
    ensures
        r.deep_view() == words(s@),
{
    let n = s.unicode_len();
    let mut out: Vec<String> = Vec::new();
    let mut i: usize = 0;
    proof {
        assert(s@.skip(0) =~= s@);
        assert(out.deep_view() + words(s@) =~= words(s@));
    }
    while i < n
        invariant
            0 <= i <= n,
            n == s@.len(),
            words(s@) == out.deep_view() + words(s@.skip(i as int)),
        decreases n - i,
    {
        if is_space_char(s.get_char(i)) {
            proof {
                lemma_words_skip_space(s@, i as int);
            }
            i = i + 1;
        } else {
            let start = i;
            let mut j = i + 1;
            while j < n && !is_space_char(s.get_char(j))
                invariant
                    start < j <= n,
                    n == s@.len(),
                    forall|k: int| start <= k < j ==> !is_space(s@[k]),
                decreases n - j,
            {
                j = j + 1;
            }
            let word = s.substring_char(start, j).to_owned();
            let ghost out0 = out.deep_view();
            out.push(word);
            proof {
                lemma_words_at_word(s@, start as int, j as int);
                assert(out.deep_view() =~= out0.push(s@.subrange(start as int, j as int)));
                assert(out0 + (seq![s@.subrange(start as int, j as int)] + words(
                    s@.skip(j as int),
                )) =~= out.deep_view() + words(s@.skip(j as int)));
            }
            i = j;
        }
    }
    proof {
        assert(s@.skip(n as int) =~= Seq::<char>::empty());
        assert(out.deep_view() + words(Seq::<char>::empty()) =~= out.deep_view());
    }
    out
}

/// Joins `ws` with single spaces.
pub fn join_with_spaces(ws: &Vec<String>) -> (r: String)
    ensures
        r@ == join_spaces(ws.deep_view()),
{
    let mut out = String::new();
    let mut i: usize = 0;
    while i < ws.len()
        invariant
            0 <= i <= ws.deep_view().len(),
            ws.deep_view().len() == ws@.len(),
            out@ == join_spaces(ws.deep_view().take(i as int)),
        decreases ws@.len() - i,
    {
        let ghost out0 = out@;
        if i > 0 {
            out.append(" ");
            proof {
                reveal_strlit(" ");
            }
        }
        out.append(ws[i].as_str());
        proof {
            assert(ws.deep_view().take(i + 1) =~= ws.deep_view().take(i as int).push(
                ws.deep_view()[i as int],
            ));
            lemma_join_push(ws.deep_view().take(i as int), ws.deep_view()[i as int]);
            assert(ws.deep_view()[i as int] == ws@[i as int]@);
            if i > 0 {
                assert(" "@ =~= seq![' ']);
                assert((out0 + seq![' ']) + ws@[i as int]@ =~= join_spaces(
                    ws.deep_view().take(i + 1),
                ));
            }
        }
        i = i + 1;
    }
    proof {
        assert(ws.deep_view().take(ws.deep_view().len() as int) =~= ws.deep_view());
    }
    out
}

/// Collapses whitespace runs in `s` to single spaces and trims the ends.
pub fn normalize_whitespace(s: &str) -> (r: String)
    ensures
        r@ == normalize_ws(s@),
{
    let ws = split_words(s);
    join_with_spaces(&ws)
}

/// The index of the first occurrence of `c` in `s`, or `-1`.
pub open spec fn first_char_at(s: Seq<char>, c: char) -> int
    decreases s.len(),
{
    if s.len() == 0 {
        -1
    } else if s[0] == c {
        0
    } else {
        let rest = first_char_at(s.skip(1), c);
        if rest < 0 {
            -1
        } else {
            rest + 1
        }
    }
}

pub broadcast proof fn lemma_first_char_at_props(s: Seq<char>, c: char)
    ensures
        #![trigger first_char_at(s, c)]
        -1 <= first_char_at(s, c) < s.len(),
        first_char_at(s, c) >= 0 ==> s[first_char_at(s, c)] == c,
        first_char_at(s, c) == -1 ==> forall|i: int| 0 <= i < s.len() ==> (#[trigger] s[i]) != c,
        forall|i: int| 0 <= i < first_char_at(s, c) ==> (#[trigger] s[i]) != c,
    decreases s.len(),
{
    if s.len() > 0 && s[0] != c {
        lemma_first_char_at_props(s.skip(1), c);
        assert forall|i: int| 1 <= i < s.len() implies s.skip(1)[i - 1] == s[i] by {}
    }
}

proof fn lemma_first_char_found(s: Seq<char>, c: char, i: int)
    requires
        0 <= i < s.len(),
        s[i] == c,
        forall|j: int| 0 <= j < i ==> (#[trigger] s[j]) != c,
    ensures
        first_char_at(s, c) == i,
    decreases i,
{
    if i > 0 {
        lemma_first_char_found(s.skip(1), c, i - 1);
        assert forall|j: int| 0 <= j < s.skip(1).len() implies s.skip(1)[j] == s[j + 1] by {}
    }
}

/// Finds the first occurrence of `c` in `s`.
pub fn find_char(s: &str, c: char) -> (r: Option<usize>)
    ensures
        match r {
            Some(i) => first_char_at(s@, c) == i as int && i < s@.len(),
            None => first_char_at(s@, c) == -1,
        },
{
    proof {
        broadcast use lemma_first_char_at_props;

    }
    let n = s.unicode_len();
    let mut i: usize = 0;
    while i < n
        invariant
            0 <= i <= n,
            n == s@.len(),
            forall|j: int| 0 <= j < i ==> (#[trigger] s@[j]) != c,
        decreases n - i,
    {
        if s.get_char(i) == c {
            proof {
                lemma_first_char_found(s@, c, i as int);
            }
            return Some(i);
        }
        i = i + 1;
    }
    None
}

/// A character's comparison key under ASCII case folding: upper-case ASCII
/// letters count as their lower-case forms, everything else as itself.
pub open spec fn lower_key(c: char) -> int {
    if 'A' <= c && c <= 'Z' {
        c as int + 32
    } else {
        c as int
    }
}

/// Executable form of [`lower_key`].
pub fn lower_key_exec(c: char) -> (r: u32)
    ensures
        r as int == lower_key(c),
{
    let k = c as u32;
    if 65 <= k && k <= 90 {
        k + 32
    } else {
        k
    }
}

/// `sub` occurs in `s` at position `i`, compared case-insensitively over
/// ASCII letters.
pub open spec fn matches_at_ci(s: Seq<char>, sub: Seq<char>, i: int) -> bool {
    &&& 0 <= i
    &&& i + sub.len() <= s.len()
    &&& forall|j: int| 0 <= j < sub.len() ==> lower_key(s[i + j]) == lower_key(#[trigger] sub[j])
}

/// `sub` occurs somewhere in `s`, compared case-insensitively over ASCII
/// letters.
pub open spec fn contains_ci(s: Seq<char>, sub: Seq<char>) -> bool {
    exists|i: int| matches_at_ci(s, sub, i)
}

fn matches_at_ci_exec(s: &str, sub: &str, i: usize) -> (r: bool)
    requires
        i + sub@.len() <= s@.len(),
    ensures
        r == matches_at_ci(s@, sub@, i as int),
{
    let n = s.unicode_len();
    let m = sub.unicode_len();
    let mut k: usize = 0;
    while k < m
        invariant
            0 <= k <= m,
            n == s@.len(),
            m == sub@.len(),
            i + m <= n,
            forall|j: int| 0 <= j < k ==> lower_key(s@[i + j]) == lower_key(#[trigger] sub@[j]),
        decreases m - k,
    {
        if lower_key_exec(s.get_char(i + k)) != lower_key_exec(sub.get_char(k)) {
            return false;
        }
        k = k + 1;
    }
    true
}

/// Executable test for [`contains_ci`].
pub fn contains_str_ci(s: &str, sub: &str) -> (r: bool)
    ensures
        r == contains_ci(s@, sub@),
{
    let n = s.unicode_len();
    let m = sub.unicode_len();
    if m > n {
        return false;
    }
    if m == 0 {
        proof {
            assert(matches_at_ci(s@, sub@, 0));
        }
        return true;
    }
    let mut i: usize = 0;
    while i <= n - m
        invariant
            0 <= i <= n - m + 1,
            1 <= m <= n,
            n == s@.len(),
            m == sub@.len(),
            forall|j: int| 0 <= j < i ==> !matches_at_ci(s@, sub@, j),
        decreases n - i,
    {
        if matches_at_ci_exec(s, sub, i) {
            return true;
        }
        i = i + 1;
    }
    false
}

} // verus!
