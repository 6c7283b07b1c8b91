//! Long-term memory: what the user asks to remember, what merely looks worth
//! remembering, conflicts between memories, and which memories go into a prompt.
//!
//! Rule-driven and conservative: an explicit "remember" writes a memory, a
//! conflicting one or a change becomes a pending proposal, a plain statement
//! about the user becomes a pending suggestion. The database holding the
//! memories is the caller's; these functions decide over the rows it lists.
use vstd::prelude::*;
use crate::text::{
    chars_of, contains, ends_with, first_occurrence, find_chars, is_blank, is_ws, is_whitespace,
    lead_ws, occurs_at, push_char, starts_with, str_contains, string_from_range, trail_ws, trim,
    trim_bounds, trim_start,
};

verus! {

/// A stored memory.
#[derive(Debug, Clone)]
pub struct Memory {
    pub id: i64,
    pub kind: String,
    pub content: String,
    pub created_at: String,
    pub updated_at: String,
    pub source: String,
    /// "active" or "deleted".
    pub status: String,
    pub pinned: bool,
}

/// A change waiting for the user's decision.
#[derive(Debug, Clone)]
pub struct PendingChange {
    pub id: i64,
    /// "create", "update" or "delete".
    pub action: String,
    pub kind: String,
    pub content: String,
    pub target_id: Option<i64>,
    pub created_at: String,
    pub source: String,
}

/// The first of two optional values that is present.
pub open spec fn or_else<T>(a: Option<T>, b: Option<T>) -> Option<T> {
    if a is Some {
        a
    } else {
        b
    }
}

/// The trimmed rest after prefix `p`, when `t` starts with it and the rest is not blank.
pub open spec fn after_prefix(t: Seq<char>, p: Seq<char>) -> Option<Seq<char>> {
    if starts_with(t, p) && !is_blank(t.skip(p.len() as int)) {
        Some(trim(t.skip(p.len() as int)))
    } else {
        None
    }
}

/// What an explicit "remember ..." asks to remember: the first of the known
/// prefixes that the trimmed text starts with, followed by text that is not blank.
pub open spec fn spec_detect_explicit(s: Seq<char>) -> Option<Seq<char>> {
    let t = trim(s);
    or_else(
        after_prefix(t, "记住："@),
        or_else(
            after_prefix(t, "记住:"@),
            or_else(
                after_prefix(t, "记住 "@),
                or_else(
                    after_prefix(t, "请记住："@),
                    or_else(
                        after_prefix(t, "请记住:"@),
                        or_else(after_prefix(t, "帮我记住："@), after_prefix(t, "帮我记住:"@)),
                    ),
                ),
            ),
        ),
    )
}

fn try_prefix(t: &[char], p: &str) -> (r: Option<String>)
    ensures
        opt_string_view(r) == after_prefix(t@, p@),
{
    let pv = chars_of(p);
    if !crate::text::starts_with_chars(t, pv.as_slice()) {
        return None;
    }
    let (a, b) = trim_bounds_from(t, pv.len());
    if a == b {
        proof {
            crate::text::lemma_trim_empty_iff_blank(t@.skip(p@.len() as int));
        }
        return None;
    }
    proof {
        crate::text::lemma_trim_empty_iff_blank(t@.skip(p@.len() as int));
    }
    Some(string_from_range(t, a, b))
}

/// Bounds of `trim(t[from..])` inside `t`.
fn trim_bounds_from(t: &[char], from: usize) -> (r: (usize, usize))
    requires
        from <= t@.len(),
    ensures
        from <= r.0 <= r.1 <= t@.len(),
        t@.subrange(r.0 as int, r.1 as int) == trim(t@.skip(from as int)),
{
    let mut rest: Vec<char> = Vec::new();
    let mut i = from;
    while i < t.len()
        invariant
            from <= i <= t@.len(),
            rest@ == t@.subrange(from as int, i as int),
        decreases t@.len() - i,
    {
        rest.push(t[i]);
        assert(rest@ =~= t@.subrange(from as int, i + 1));
        i = i + 1;
    }
    assert(rest@ =~= t@.skip(from as int));
    let (a, b) = trim_bounds(rest.as_slice());
    assert(t@.subrange(from + a, from + b) =~= rest@.subrange(a as int, b as int));
    (from + a, from + b)
}

/// The view of an optional string.
pub open spec fn opt_string_view(o: Option<String>) -> Option<Seq<char>> {
    match o {
        Some(s) => Some(s@),
        None => None,
    }
}

/// What an explicit "remember ..." asks to remember, if the text is one.
pub fn detect_explicit(text: &str) -> (r: Option<String>)
    ensures
        opt_string_view(r) == spec_detect_explicit(text@),
{
    let v = chars_of(text);
    let (a, b) = trim_bounds(v.as_slice());
    let t = copy_range(v.as_slice(), a, b);
    let r1 = try_prefix(t.as_slice(), "记住：");
    if r1.is_some() {
        return r1;
    }
    let r2 = try_prefix(t.as_slice(), "记住:");
    if r2.is_some() {
        return r2;
    }
    let r3 = try_prefix(t.as_slice(), "记住 ");
    if r3.is_some() {
        return r3;
    }
    let r4 = try_prefix(t.as_slice(), "请记住：");
    if r4.is_some() {
        return r4;
    }
    let r5 = try_prefix(t.as_slice(), "请记住:");
    if r5.is_some() {
        return r5;
    }
    let r6 = try_prefix(t.as_slice(), "帮我记住：");
    if r6.is_some() {
        return r6;
    }
    try_prefix(t.as_slice(), "帮我记住:")
}

/// `v[from..to]` as a new vector.
fn copy_range(v: &[char], from: usize, to: usize) -> (r: Vec<char>)
    requires
        from <= to <= v@.len(),
    ensures
        r@ == v@.subrange(from as int, to as int),
{
    let mut r: Vec<char> = Vec::new();
    let mut i = from;
    while i < to
        invariant
            from <= i <= to <= v@.len(),
            r@ == v@.subrange(from as int, i as int),
        decreases to - i,
    {
        r.push(v[i]);
        assert(r@ =~= v@.subrange(from as int, i + 1));
        i = i + 1;
    }
    r
}

/// The kind suggested for a memory, by keywords.
pub open spec fn spec_suggest_kind(t: Seq<char>) -> Seq<char> {
    if contains(t, "喜欢"@) || contains(t, "偏好"@) || contains(t, "讨厌"@) {
        "preference"@
    } else if contains(t, "正在做"@) || contains(t, "开发"@) || contains(t, "项目"@) {
        "project"@
    } else if contains(t, "我叫"@) || contains(t, "我的名字"@) || contains(t, "朋友"@) {
        "relationship"@
    } else {
        "fact"@
    }
}

fn suggest_kind_chars(t: &[char]) -> (r: &'static str)
    ensures
        r@ == spec_suggest_kind(t@),
{
    if str_contains(t, "喜欢") || str_contains(t, "偏好") || str_contains(t, "讨厌") {
        "preference"
    } else if str_contains(t, "正在做") || str_contains(t, "开发") || str_contains(t, "项目") {
        "project"
    } else if str_contains(t, "我叫") || str_contains(t, "我的名字") || str_contains(t, "朋友") {
        "relationship"
    } else {
        "fact"
    }
}

/// The kind suggested for a memory: preference, project, relationship or fact.
pub fn suggest_kind(text: &str) -> (r: &'static str)
    ensures
        r@ == spec_suggest_kind(text@),
{
    let v = chars_of(text);
    suggest_kind_chars(v.as_slice())
}

/// A short statement (at most 60 characters, not a question) with one of the
/// markers of something about the user.
pub open spec fn spec_looks_memorable(s: Seq<char>) -> bool {
    let t = trim(s);
    t.len() <= 60 && !ends_with(t, seq!['？']) && !ends_with(t, seq!['?']) && (contains(t, "我叫"@)
        || contains(t, "我的名字"@) || contains(t, "我喜欢"@) || contains(t, "我讨厌"@) || contains(
        t,
        "我正在"@,
    ) || contains(t, "我在做"@) || contains(t, "我的项目"@))
}

fn last_is(v: &[char], c: char) -> (r: bool)
    ensures
        r == ends_with(v@, seq![c]),
{
    let r = v.len() > 0 && v[v.len() - 1] == c;
    proof {
        if v@.len() > 0 {
            if r {
                assert(v@.skip(v@.len() - 1) =~= seq![c]);
            } else if ends_with(v@, seq![c]) {
                assert(v@.skip(v@.len() - 1)[0] == v@[v@.len() - 1]);
            }
        }
    }
    r
}

/// Whether a statement looks worth suggesting as a memory.
pub fn looks_memorable(text: &str) -> (r: bool)
    ensures
        r == spec_looks_memorable(text@),
{
    let v = chars_of(text);
    let (a, b) = trim_bounds(v.as_slice());
    let t = copy_range(v.as_slice(), a, b);
    if t.len() > 60 {
        return false;
    }
    if last_is(t.as_slice(), '？') || last_is(t.as_slice(), '?') {
        return false;
    }
    let s = t.as_slice();
    str_contains(s, "我叫") || str_contains(s, "我的名字") || str_contains(s, "我喜欢") || str_contains(
        s,
        "我讨厌",
    ) || str_contains(s, "我正在") || str_contains(s, "我在做") || str_contains(s, "我的项目")
}

/// Characters that `detect_change` strips from the end of the new value.
pub open spec fn is_end_mark(c: char) -> bool {
    c == '。' || c == '.' || c == '！' || c == '!'
}

/// Number of end marks at the back of `s` (`trim_end_matches`).
pub open spec fn trail_marks(s: Seq<char>) -> nat
    decreases s.len(),
{
    if s.len() > 0 && is_end_mark(s.last()) {
        1 + trail_marks(s.drop_last())
    } else {
        0
    }
}

/// The new value after keyword `kw` in `t`: the text after its first
/// occurrence, trimmed, end marks removed, trimmed again; absent when `kw`
/// does not occur or nothing is left.
pub open spec fn change_after(t: Seq<char>, kw: Seq<char>) -> Option<Seq<char>> {
    match first_occurrence(t, kw) {
        Some(pos) => {
            let a = trim(t.skip(pos + kw.len()));
            let b = trim(a.take(a.len() - trail_marks(a)));
            if b.len() > 0 {
                Some(b)
            } else {
                None
            }
        },
        None => None,
    }
}

/// The new value that a change request ("改成 …", "换为 …") names.
pub open spec fn spec_detect_change(s: Seq<char>) -> Option<Seq<char>> {
    let t = trim(s);
    or_else(
        change_after(t, "改成"@),
        or_else(change_after(t, "改为"@), or_else(change_after(t, "换成"@), change_after(t, "换为"@))),
    )
}

fn strip_marks_len(v: &[char]) -> (n: usize)
    ensures
        n == v@.len() - trail_marks(v@),
        n <= v@.len(),
{
    let mut n = v.len();
    assert(v@.take(v@.len() as int) == v@);
    while n > 0 && (v[n - 1] == '。' || v[n - 1] == '.' || v[n - 1] == '！' || v[n - 1] == '!')
        invariant
            n <= v@.len(),
            trail_marks(v@) == (v@.len() - n) + trail_marks(v@.take(n as int)),
        decreases n,
    {
        proof {
            let p = v@.take(n as int);
            assert(p.drop_last() == v@.take(n - 1));
            assert(p.last() == v@[n - 1]);
        }
        n = n - 1;
    }
    proof {
        let p = v@.take(n as int);
        if n > 0 {
            assert(p.last() == v@[n - 1]);
        }
        assert(trail_marks(p) == 0);
    }
    n
}

fn try_change(t: &[char], kw: &str) -> (r: Option<String>)
    ensures
        opt_string_view(r) == change_after(t@, kw@),
{
    let k = chars_of(kw);
    match find_chars(t, k.as_slice()) {
        None => None,
        Some(pos) => {
            assert(crate::text::occurs_at(t@, k@, pos as int));
            assert(t@.len() == t.len());
            assert(pos + k@.len() <= t.len());
            let (a, b) = trim_bounds_from(t, pos + k.len());
            let after = copy_range(t, a, b);
            let n = strip_marks_len(after.as_slice());
            let (c, d) = trim_bounds(copy_range(after.as_slice(), 0, n).as_slice());
            let stripped = copy_range(after.as_slice(), 0, n);
            if d - c == 0 {
                None
            } else {
                proof {
                    assert(stripped@ == after@.take(n as int));
                }
                Some(string_from_range(stripped.as_slice(), c, d))
            }
        },
    }
}

/// The new value that a change request names, if the text is one.
pub fn detect_change(text: &str) -> (r: Option<String>)
    ensures
        opt_string_view(r) == spec_detect_change(text@),
{
    let v = chars_of(text);
    let (a, b) = trim_bounds(v.as_slice());
    let t = copy_range(v.as_slice(), a, b);
    let r1 = try_change(t.as_slice(), "改成");
    if r1.is_some() {
        return r1;
    }
    let r2 = try_change(t.as_slice(), "改为");
    if r2.is_some() {
        return r2;
    }
    let r3 = try_change(t.as_slice(), "换成");
    if r3.is_some() {
        return r3;
    }
    try_change(t.as_slice(), "换为")
}

/// A CJK unified ideograph (U+4E00 to U+9FFF).
pub open spec fn is_cjk(c: char) -> bool {
    0x4E00 <= (c as u32) && (c as u32) <= 0x9FFF
}

/// An ASCII letter or digit.
pub open spec fn is_ascii_alnum(c: char) -> bool {
    let n = c as u32;
    (0x30 <= n && n <= 0x39) || (0x41 <= n && n <= 0x5A) || (0x61 <= n && n <= 0x7A)
}

/// ASCII lower case of a letter or digit.
pub open spec fn ascii_lower(c: char) -> char {
    if 0x41 <= (c as u32) && (c as u32) <= 0x5A {
        ((c as u32) + 32) as char
    } else {
        c
    }
}

/// Pairs of adjacent CJK ideographs, in order.
pub open spec fn cjk_pairs(s: Seq<char>) -> Seq<Seq<char>>
    decreases s.len(),
{
    if s.len() < 2 {
        Seq::empty()
    } else {
        let a = s[s.len() - 2];
        let b = s[s.len() - 1];
        cjk_pairs(s.drop_last()) + if is_cjk(a) && is_cjk(b) {
            seq![seq![a, b]]
        } else {
            Seq::empty()
        }
    }
}

/// The pieces between characters that are not ASCII letters or digits (`str::split`).
pub open spec fn split_tokens(s: Seq<char>) -> Seq<Seq<char>>
    decreases s.len(),
{
    if s.len() == 0 {
        seq![Seq::empty()]
    } else {
        let t = split_tokens(s.drop_last());
        let c = s.last();
        if !is_ascii_alnum(c) {
            t.push(Seq::empty())
        } else {
            t.update(t.len() - 1, t.last().push(c))
        }
    }
}

/// Tokens of three or more characters, lower-cased.
pub open spec fn long_words(toks: Seq<Seq<char>>) -> Seq<Seq<char>>
    decreases toks.len(),
{
    if toks.len() == 0 {
        Seq::empty()
    } else {
        long_words(toks.drop_last()) + if toks.last().len() >= 3 {
            seq![toks.last().map_values(|c: char| ascii_lower(c))]
        } else {
            Seq::empty()
        }
    }
}

/// The overlap units of a text: CJK bigrams, then ASCII words of three or more
/// characters in lower case.
pub open spec fn spec_bigrams(s: Seq<char>) -> Seq<Seq<char>> {
    cjk_pairs(s) + long_words(split_tokens(s))
}

proof fn lemma_split_tokens_nonempty(s: Seq<char>)
    ensures
        split_tokens(s).len() >= 1,
    decreases s.len(),
{
    if s.len() > 0 {
        lemma_split_tokens_nonempty(s.drop_last());
    }
}

fn ascii_lower_exec(c: char) -> (r: char)
    ensures
        r == ascii_lower(c),
{
    let n = c as u32;
    if 0x41 <= n && n <= 0x5A {
        let m: u8 = (n + 32) as u8;
        m as char
    } else {
        c
    }
}

fn lowered(v: &Vec<char>) -> (r: String)
    ensures
        r@ == v@.map_values(|c: char| ascii_lower(c)),
{
    let mut s = String::new();
    let mut i: usize = 0;
    while i < v.len()
        invariant
            i <= v@.len(),
            s@ == v@.take(i as int).map_values(|c: char| ascii_lower(c)),
        decreases v@.len() - i,
    {
        push_char(&mut s, ascii_lower_exec(v[i]));
        assert(v@.take(i + 1).map_values(|c: char| ascii_lower(c)) =~= v@.take(i as int).map_values(
            |c: char| ascii_lower(c),
        ).push(ascii_lower(v@[i as int])));
        i = i + 1;
    }
    assert(v@.take(v@.len() as int) == v@);
    s
}

/// The views of a list of strings.
pub open spec fn strings_view(v: Seq<String>) -> Seq<Seq<char>> {
    v.map_values(|s: String| s@)
}

proof fn lemma_strings_push(v: Seq<String>, s: String)
    ensures
        strings_view(v.push(s)) == strings_view(v).push(s@),
{
    assert(strings_view(v.push(s)) =~= strings_view(v).push(s@));
}

/// The overlap units of a text: CJK bigrams, then ASCII words.
pub fn bigrams(text: &str) -> (r: Vec<String>)
    ensures
        strings_view(r@) == spec_bigrams(text@),
{
    let v = chars_of(text);
    let mut out: Vec<String> = Vec::new();
    let mut i: usize = 0;
    assert(strings_view(out@) =~= cjk_pairs(v@.take(0)));
    while i < v.len()
        invariant
            i <= v@.len(),
            strings_view(out@) == cjk_pairs(v@.take(i as int)),
        decreases v@.len() - i,
    {
        if i >= 1 {
            let a = v[i - 1];
            let b = v[i];
            let ghost before = out@;
            let ca = 0x4E00 <= (a as u32) && (a as u32) <= 0x9FFF;
            let cb = 0x4E00 <= (b as u32) && (b as u32) <= 0x9FFF;
            if ca && cb {
                let mut p = String::new();
                push_char(&mut p, a);
                push_char(&mut p, b);
                assert(p@ =~= seq![a, b]);
                out.push(p);
                proof {
                    lemma_strings_push(before, p);
                }
            }
            proof {
                let t = v@.take(i + 1);
                assert(t.drop_last() == v@.take(i as int));
                assert(t[t.len() - 2] == a);
                assert(t[t.len() - 1] == b);
            }
        } else {
            assert(v@.take(1).len() < 2);
        }
        i = i + 1;
    }
    assert(v@.take(v@.len() as int) == v@);
    let mut cur: Vec<char> = Vec::new();
    let mut j: usize = 0;
    proof {
        lemma_split_tokens_nonempty(Seq::<char>::empty());
    }
    while j < v.len()
        invariant
            j <= v@.len(),
            ({
                let toks = split_tokens(v@.take(j as int));
                &&& toks.len() >= 1
                &&& toks.last() == cur@
                &&& strings_view(out@) == cjk_pairs(v@) + long_words(toks.drop_last())
            }),
        decreases v@.len() - j,
    {
        let c = v[j];
        let ghost toks = split_tokens(v@.take(j as int));
        proof {
            let t = v@.take(j + 1);
            assert(t.drop_last() == v@.take(j as int));
            assert(t.last() == c);
        }
        let n = c as u32;
        let alnum = (0x30 <= n && n <= 0x39) || (0x41 <= n && n <= 0x5A) || (0x61 <= n && n <= 0x7A);
        if !alnum {
            let ghost before = out@;
            if cur.len() >= 3 {
                let w = lowered(&cur);
                out.push(w);
                proof {
                    lemma_strings_push(before, w);
                }
            }
            proof {
                let nt = toks.push(Seq::empty());
                assert(nt.drop_last() == toks);
                assert(toks == toks.drop_last().push(toks.last()));
                assert(long_words(toks) == long_words(toks.drop_last()) + if toks.last().len() >= 3 {
                    seq![toks.last().map_values(|c: char| ascii_lower(c))]
                } else {
                    Seq::<Seq<char>>::empty()
                });
                assert(strings_view(out@) =~= cjk_pairs(v@) + long_words(nt.drop_last()));
            }
            cur = Vec::new();
        } else {
            cur.push(c);
            proof {
                let nt = toks.update(toks.len() - 1, toks.last().push(c));
                assert(nt.drop_last() =~= toks.drop_last());
            }
        }
        j = j + 1;
    }
    let ghost toks = split_tokens(v@.take(j as int));
    let ghost before = out@;
    if cur.len() >= 3 {
        let w = lowered(&cur);
        out.push(w);
        proof {
            lemma_strings_push(before, w);
        }
    }
    proof {
        assert(v@.take(v@.len() as int) == v@);
        assert(toks == toks.drop_last().push(toks.last()));
        assert(strings_view(out@) =~= cjk_pairs(v@) + long_words(toks));
    }
    out
}

/// `src` holds an entry equal to `g`.
pub open spec fn seq_has(src: Seq<Seq<char>>, g: Seq<char>) -> bool {
    exists|i: int| 0 <= i < src.len() && src[i] == g
}

/// How many units of `target` (counted with repetition) occur in `src`.
pub open spec fn overlap(target: Seq<Seq<char>>, src: Seq<Seq<char>>) -> nat
    decreases target.len(),
{
    if target.len() == 0 {
        0
    } else {
        overlap(target.drop_last(), src) + if seq_has(src, target.last()) {
            1nat
        } else {
            0nat
        }
    }
}

/// Two texts conflict when they share at least two overlap units.
pub open spec fn conflicts(content: Seq<char>, other: Seq<char>) -> bool {
    overlap(spec_bigrams(content), spec_bigrams(other)) >= 2
}

/// Index of the first memory that conflicts with `content`.
pub open spec fn first_conflict(ms: Seq<Memory>, content: Seq<char>) -> Option<int>
    decreases ms.len(),
{
    if ms.len() == 0 {
        None
    } else {
        match first_conflict(ms.drop_last(), content) {
            Some(i) => Some(i),
            None => if conflicts(content, ms.last().content@) {
                Some(ms.len() - 1)
            } else {
                None
            },
        }
    }
}

proof fn lemma_first_conflict_prefix(ms: Seq<Memory>, content: Seq<char>, i: int)
    requires
        0 <= i < ms.len(),
        forall|k: int| 0 <= k < i ==> !conflicts(content, #[trigger] ms[k].content@),
    ensures
        first_conflict(ms.take(i), content) is None,
        first_conflict(ms.take(i + 1), content) == if conflicts(content, ms[i].content@) {
            Some(i)
        } else {
            None::<int>
        },
    decreases i,
{
    if i > 0 {
        lemma_first_conflict_prefix(ms, content, i - 1);
        assert(ms.take(i).drop_last() == ms.take(i - 1));
        assert(ms.take(i).last() == ms[i - 1]);
    } else {
        assert(ms.take(0).len() == 0);
    }
    assert(ms.take(i + 1).drop_last() == ms.take(i));
    assert(ms.take(i + 1).last() == ms[i]);
}

proof fn lemma_first_conflict_none(ms: Seq<Memory>, content: Seq<char>)
    requires
        forall|k: int| 0 <= k < ms.len() ==> !conflicts(content, #[trigger] ms[k].content@),
    ensures
        first_conflict(ms, content) is None,
    decreases ms.len(),
{
    if ms.len() > 0 {
        lemma_first_conflict_none(ms.drop_last(), content);
        assert(ms.drop_last().len() == ms.len() - 1);
        assert forall|k: int| 0 <= k < ms.drop_last().len() implies !conflicts(
            content,
            #[trigger] ms.drop_last()[k].content@,
        ) by {
            assert(ms.drop_last()[k] == ms[k]);
        }
        lemma_first_conflict_none(ms.drop_last(), content);
        assert(!conflicts(content, ms[ms.len() - 1].content@));
    }
}

fn string_list_has(src: &Vec<String>, g: &String) -> (r: bool)
    ensures
        r == seq_has(strings_view(src@), g@),
{
    let mut i: usize = 0;
    while i < src.len()
        invariant
            i <= src@.len(),
            forall|k: int| 0 <= k < i ==> strings_view(src@)[k] != g@,
        decreases src@.len() - i,
    {
        if src[i] == *g {
            assert(strings_view(src@)[i as int] == g@);
            return true;
        }
        i = i + 1;
    }
    false
}

fn overlap_count(target: &Vec<String>, src: &Vec<String>) -> (n: usize)
    ensures
        n == overlap(strings_view(target@), strings_view(src@)),
{
    let mut n: usize = 0;
    let mut i: usize = 0;
    while i < target.len()
        invariant
            i <= target@.len(),
            n <= i,
            n == overlap(strings_view(target@).take(i as int), strings_view(src@)),
        decreases target@.len() - i,
    {
        if string_list_has(src, &target[i]) {
            n = n + 1;
        }
        proof {
            let t = strings_view(target@).take(i + 1);
            assert(t.drop_last() == strings_view(target@).take(i as int));
            assert(t.last() == target@[i as int]@);
        }
        i = i + 1;
    }
    assert(strings_view(target@).take(target@.len() as int) == strings_view(target@));
    n
}

/// Index of the first memory that conflicts with `content` (shares two or
/// more CJK bigrams or ASCII words with it).
pub fn conflict_index(memories: &[Memory], content: &str) -> (r: Option<usize>)
    ensures
        r is Some ==> r->0 < memories@.len(),
        match r {
            Some(i) => first_conflict(memories@, content@) == Some(i as int),
            None => first_conflict(memories@, content@) is None,
        },
{
    let target = bigrams(content);
    let mut i: usize = 0;
    while i < memories.len()
        invariant
            i <= memories@.len(),
            strings_view(target@) == spec_bigrams(content@),
            forall|k: int| 0 <= k < i ==> !conflicts(content@, #[trigger] memories@[k].content@),
        decreases memories@.len() - i,
    {
        let src = bigrams(memories[i].content.as_str());
        let n = overlap_count(&target, &src);
        if n >= 2 {
            proof {
                lemma_first_conflict_prefix(memories@, content@, i as int);
                lemma_first_conflict_extend(memories@, content@, i as int);
            }
            return Some(i);
        }
        i = i + 1;
    }
    proof {
        lemma_first_conflict_none(memories@, content@);
    }
    None
}

proof fn lemma_first_conflict_extend(ms: Seq<Memory>, content: Seq<char>, i: int)
    requires
        0 <= i < ms.len(),
        first_conflict(ms.take(i + 1), content) == Some(i),
    ensures
        first_conflict(ms, content) == Some(i),
    decreases ms.len(),
{
    if ms.len() > i + 1 {
        assert(ms.drop_last().take(i + 1) == ms.take(i + 1));
        lemma_first_conflict_extend(ms.drop_last(), content, i);
    } else {
        assert(ms.take(i + 1) == ms);
    }
}

/// `str::to_lowercase`: the full Unicode lower-case mapping of a text.
pub uninterp spec fn lowercase(s: Seq<char>) -> Seq<char>;

/// `str::to_lowercase`.
///
/// The contract names the result only: it is the lower-case mapping of the
/// argument, a function of the argument alone; the Unicode tables behind it
/// are not stated.
#[verifier::external_body]
pub(crate) fn to_lowercase(s: &str) -> (r: String)
    ensures
        r@ == lowercase(s@),
{
    s.to_lowercase()
}

/// The whitespace-separated pieces of a text, empty ones included (`split` on whitespace).
pub open spec fn ws_pieces(s: Seq<char>) -> Seq<Seq<char>>
    decreases s.len(),
{
    if s.len() == 0 {
        seq![Seq::empty()]
    } else {
        let t = ws_pieces(s.drop_last());
        let c = s.last();
        if is_ws(c) {
            t.push(Seq::empty())
        } else {
            t.update(t.len() - 1, t.last().push(c))
        }
    }
}

/// The non-empty entries, in order.
pub open spec fn non_empty(toks: Seq<Seq<char>>) -> Seq<Seq<char>>
    decreases toks.len(),
{
    if toks.len() == 0 {
        Seq::empty()
    } else {
        non_empty(toks.drop_last()) + if toks.last().len() > 0 {
            seq![toks.last()]
        } else {
            Seq::empty()
        }
    }
}

/// `str::split_whitespace`.
pub open spec fn ws_tokens(s: Seq<char>) -> Seq<Seq<char>> {
    non_empty(ws_pieces(s))
}

/// How many of the keywords (with repetition) the text contains.
pub open spec fn kw_hits(kws: Seq<Seq<char>>, c: Seq<char>) -> nat
    decreases kws.len(),
{
    if kws.len() == 0 {
        0
    } else {
        kw_hits(kws.drop_last(), c) + if contains(c, kws.last()) {
            1nat
        } else {
            0nat
        }
    }
}

/// A memory's retrieval score: 100 when pinned, plus 10 for every query
/// keyword that its lower-cased content `lc` contains.
pub open spec fn score(pinned: bool, lc: Seq<char>, kws: Seq<Seq<char>>) -> int {
    (if pinned {
        100int
    } else {
        0int
    }) + 10 * kw_hits(kws, lc)
}

/// Where `e` goes in a list sorted by decreasing score: after every entry
/// whose score is at least its own.
pub open spec fn insert_pos(sorted: Seq<(int, int)>, e: (int, int)) -> int
    decreases sorted.len(),
{
    if sorted.len() == 0 {
        0
    } else if sorted[0].0 < e.0 {
        0
    } else {
        1 + insert_pos(sorted.drop_first(), e)
    }
}

/// Stable sort by decreasing score (entries are `(score, index)`).
pub open spec fn sort_desc(s: Seq<(int, int)>) -> Seq<(int, int)>
    decreases s.len(),
{
    if s.len() == 0 {
        s
    } else {
        let r = sort_desc(s.drop_last());
        r.insert(insert_pos(r, s.last()), s.last())
    }
}

/// `(score, index)` of every memory, in list order (`lcs`: the lower-cased
/// contents).
pub open spec fn scored(ms: Seq<Memory>, lcs: Seq<Seq<char>>, kws: Seq<Seq<char>>) -> Seq<(int, int)> {
    Seq::new(ms.len(), |i: int| (score(ms[i].pinned, lcs[i], kws), i))
}

/// The indices taken from the sorted list: at most `max` of them, stopping at
/// the first memory whose content would take the characters over `budget`.
pub open spec fn select(order: Seq<(int, int)>, ms: Seq<Memory>, max: nat, budget: nat) -> Seq<int>
    decreases order.len(),
{
    if order.len() == 0 || max == 0 {
        Seq::empty()
    } else {
        let n = ms[order[0].1].content@.len();
        if n > budget {
            Seq::empty()
        } else {
            seq![order[0].1] + select(order.drop_first(), ms, (max - 1) as nat, (budget - n) as nat)
        }
    }
}

/// Which memories a query retrieves, in order.
pub open spec fn spec_retrieve(ms: Seq<Memory>, query: Seq<char>, max: nat, max_chars: nat) -> Seq<int> {
    spec_rank(ms, lowered_contents(ms), ws_tokens(lowercase(query)), max, max_chars)
}

/// The lower-cased contents of the memories.
pub open spec fn lowered_contents(ms: Seq<Memory>) -> Seq<Seq<char>> {
    Seq::new(ms.len(), |i: int| lowercase(ms[i].content@))
}

/// The memories taken for keywords `kws`, given their lower-cased contents.
pub open spec fn spec_rank(
    ms: Seq<Memory>,
    lcs: Seq<Seq<char>>,
    kws: Seq<Seq<char>>,
    max: nat,
    max_chars: nat,
) -> Seq<int> {
    select(sort_desc(scored(ms, lcs, kws)), ms, max, max_chars)
}

fn ws_token_list(s: &str) -> (r: Vec<String>)
    ensures
        strings_view(r@) == ws_tokens(s@),
{
    let v = chars_of(s);
    let mut out: Vec<String> = Vec::new();
    let mut cur: Vec<char> = Vec::new();
    let mut j: usize = 0;
    while j < v.len()
        invariant
            j <= v@.len(),
            ({
                let toks = ws_pieces(v@.take(j as int));
                &&& toks.len() >= 1
                &&& toks.last() == cur@
                &&& strings_view(out@) == non_empty(toks.drop_last())
            }),
        decreases v@.len() - j,
    {
        let c = v[j];
        let ghost toks = ws_pieces(v@.take(j as int));
        proof {
            let t = v@.take(j + 1);
            assert(t.drop_last() == v@.take(j as int));
            assert(t.last() == c);
        }
        if is_whitespace(c) {
            let ghost before = out@;
            if cur.len() > 0 {
                let w = string_from_range(cur.as_slice(), 0, cur.len());
                assert(cur@.subrange(0, cur@.len() as int) == cur@);
                out.push(w);
                proof {
                    lemma_strings_push(before, w);
                }
            }
            proof {
                let nt = toks.push(Seq::empty());
                assert(nt.drop_last() == toks);
                assert(toks == toks.drop_last().push(toks.last()));
                assert(strings_view(out@) =~= non_empty(nt.drop_last()));
            }
            cur = Vec::new();
        } else {
            cur.push(c);
            proof {
                let nt = toks.update(toks.len() - 1, toks.last().push(c));
                assert(nt.drop_last() =~= toks.drop_last());
            }
        }
        j = j + 1;
    }
    let ghost toks = ws_pieces(v@.take(j as int));
    let ghost before = out@;
    if cur.len() > 0 {
        let w = string_from_range(cur.as_slice(), 0, cur.len());
        assert(cur@.subrange(0, cur@.len() as int) == cur@);
        out.push(w);
        proof {
            lemma_strings_push(before, w);
        }
    }
    proof {
        assert(v@.take(v@.len() as int) == v@);
        assert(toks == toks.drop_last().push(toks.last()));
        assert(strings_view(out@) =~= non_empty(toks));
    }
    out
}

fn hits(kws: &Vec<String>, c: &Vec<char>) -> (n: u64)
    ensures
        n == kw_hits(strings_view(kws@), c@),
{
    let mut n: u64 = 0;
    let mut i: usize = 0;
    while i < kws.len()
        invariant
            i <= kws@.len(),
            n <= i,
            n == kw_hits(strings_view(kws@).take(i as int), c@),
        decreases kws@.len() - i,
    {
        if str_contains(c.as_slice(), kws[i].as_str()) {
            n = n + 1;
        }
        proof {
            let t = strings_view(kws@).take(i + 1);
            assert(t.drop_last() == strings_view(kws@).take(i as int));
            assert(t.last() == kws@[i as int]@);
        }
        i = i + 1;
    }
    assert(strings_view(kws@).take(kws@.len() as int) == strings_view(kws@));
    n
}

/// Pairs `(score, index)` as exact integers.
pub open spec fn pairs_view(v: Seq<(u128, usize)>) -> Seq<(int, int)> {
    v.map_values(|e: (u128, usize)| (e.0 as int, e.1 as int))
}

/// The ranking behind retrieval, given the lower-cased query and contents
/// (`lowered[i]` for `memories[i]`): pinned memories and keyword matches
/// first (a stable sort by score, so otherwise in list order), at most `max`
/// of them, stopping before the content would exceed `max_chars` characters
/// in total. Returns indices into `memories`.
pub fn rank_memories(
    memories: &[Memory],
    lowered: &[String],
    query_lc: &str,
    max: usize,
    max_chars: usize,
) -> (r: Vec<usize>)
    requires
        lowered@.len() == memories@.len(),
    ensures
        r@.map_values(|i: usize| i as int) == spec_rank(
            memories@,
            strings_view(lowered@),
            ws_tokens(query_lc@),
            max as nat,
            max_chars as nat,
        ),
{
    let kws = ws_token_list(query_lc);
    let ghost kv = strings_view(kws@);
    let ghost lcs = strings_view(lowered@);
    let mut sorted: Vec<(u128, usize)> = Vec::new();
    let mut i: usize = 0;
    while i < memories.len()
        invariant
            i <= memories@.len(),
            kv == strings_view(kws@),
            kv == ws_tokens(query_lc@),
            lcs == strings_view(lowered@),
            lowered@.len() == memories@.len(),
            pairs_view(sorted@) == sort_desc(scored(memories@, lcs, kv).take(i as int)),
            forall|x: int| 0 <= x < sorted@.len() ==> #[trigger] sorted@[x].1 < i,
        decreases memories@.len() - i,
    {
        let lv = chars_of(lowered[i].as_str());
        let h = hits(&kws, &lv);
        let sc: u128 = if memories[i].pinned { 100 } else { 0 } + 10 * (h as u128);
        let e = (sc, i);
        assert(lcs[i as int] == lowered@[i as int]@);
        assert(sc as int == score(memories@[i as int].pinned, lcs[i as int], kv));
        let mut k: usize = 0;
        assert(pairs_view(sorted@).skip(0) == pairs_view(sorted@));
        while k < sorted.len() && sorted[k].0 >= sc
            invariant
                k <= sorted@.len(),
                insert_pos(pairs_view(sorted@), (sc as int, i as int)) == k + insert_pos(
                    pairs_view(sorted@).skip(k as int),
                    (sc as int, i as int),
                ),
            decreases sorted@.len() - k,
        {
            proof {
                let sv = pairs_view(sorted@);
                assert(sv.skip(k as int).drop_first() == sv.skip(k + 1));
                assert(sv.skip(k as int)[0] == sv[k as int]);
            }
            k = k + 1;
        }
        proof {
            let sv = pairs_view(sorted@);
            if k < sorted@.len() {
                assert(sv.skip(k as int)[0] == sv[k as int]);
            }
            assert(insert_pos(sv.skip(k as int), (sc as int, i as int)) == 0);
            let t = scored(memories@, lcs, kv).take(i + 1);
            assert(t.drop_last() =~= scored(memories@, lcs, kv).take(i as int));
            assert(t.last() == (sc as int, i as int));
        }
        let ghost before = sorted@;
        sorted.insert(k, e);
        proof {
            assert(pairs_view(sorted@) =~= pairs_view(before).insert(k as int, (sc as int, i as int)));
            assert forall|x: int| 0 <= x < sorted@.len() implies #[trigger] sorted@[x].1 < i + 1 by {
                if x < k {
                    assert(sorted@[x] == before[x]);
                } else if x > k {
                    assert(sorted@[x] == before[x - 1]);
                }
            }
        }
        i = i + 1;
    }
    assert(scored(memories@, lcs, kv).take(memories@.len() as int) =~= scored(memories@, lcs, kv));
    let ghost order = pairs_view(sorted@);
    let mut out: Vec<usize> = Vec::new();
    let mut taken: usize = 0;
    let mut used: usize = 0;
    let mut j: usize = 0;
    assert(order.skip(0) == order);
    assert(out@.map_values(|x: usize| x as int) =~= Seq::<int>::empty());
    assert(Seq::<int>::empty() + spec_rank(memories@, lcs, kv, max as nat, max_chars as nat) =~= spec_rank(memories@, lcs, kv, max as nat, max_chars as nat));
    while j < sorted.len()
        invariant
            order == pairs_view(sorted@),
            order == sort_desc(scored(memories@, lcs, kv)),
            j <= sorted@.len(),
            taken == j,
            taken <= max,
            used <= max_chars,
            out@.map_values(|x: usize| x as int) + select(order.skip(j as int), memories@, (max - taken) as nat, (max_chars - used) as nat)
                == spec_rank(memories@, lcs, kv, max as nat, max_chars as nat),
            forall|x: int| 0 <= x < sorted@.len() ==> #[trigger] sorted@[x].1 < memories@.len(),
        ensures
            out@.map_values(|x: usize| x as int) == spec_rank(memories@, lcs, kv, max as nat, max_chars as nat),
        decreases sorted@.len() - j,
    {
        let ghost rest = order.skip(j as int);
        let ghost outv = out@.map_values(|x: usize| x as int);
        if taken >= max {
            assert(select(rest, memories@, (max - taken) as nat, (max_chars - used) as nat) == Seq::<int>::empty());
            assert(outv + Seq::<int>::empty() =~= outv);
            break;
        }
        let idx = sorted[j].1;
        assert(rest[0] == order[j as int]);
        assert(order[j as int].1 == idx as int);
        let n = crate::text::char_count(memories[idx].content.as_str());
        if n > max_chars - used {
            assert(select(rest, memories@, (max - taken) as nat, (max_chars - used) as nat) == Seq::<int>::empty());
            assert(outv + Seq::<int>::empty() =~= outv);
            break;
        }
        used = used + n;
        out.push(idx);
        taken = taken + 1;
        j = j + 1;
        proof {
            assert(rest.drop_first() == order.skip(j as int));
            assert(out@.map_values(|x: usize| x as int) =~= outv.push(idx as int));
            assert(outv + select(rest, memories@, (max - (taken - 1)) as nat, (max_chars - (used - n)) as nat)
                == outv + (seq![idx as int] + select(order.skip(j as int), memories@, (max - taken) as nat, (max_chars - used) as nat)));
            assert(outv + (seq![idx as int] + select(order.skip(j as int), memories@, (max - taken) as nat, (max_chars - used) as nat))
                =~= outv.push(idx as int) + select(order.skip(j as int), memories@, (max - taken) as nat, (max_chars - used) as nat));
        }
    }
    out
}

/// The order in which memories are offered to the prompt for `query`: the
/// ranking over the lower-cased query and contents. Returns indices into
/// `memories`.
pub fn retrieve_order(memories: &[Memory], query: &str, max: usize, max_chars: usize) -> (r: Vec<usize>)
    ensures
        r@.map_values(|i: usize| i as int) == spec_retrieve(memories@, query@, max as nat, max_chars as nat),
{
    let q = to_lowercase(query);
    let mut lowered: Vec<String> = Vec::new();
    let mut i: usize = 0;
    while i < memories.len()
        invariant
            i <= memories@.len(),
            lowered@.len() == i,
            forall|k: int| 0 <= k < i ==> #[trigger] lowered@[k]@ == lowercase(memories@[k].content@),
        decreases memories@.len() - i,
    {
        lowered.push(to_lowercase(memories[i].content.as_str()));
        i = i + 1;
    }
    assert(strings_view(lowered@) =~= lowered_contents(memories@));
    rank_memories(memories, lowered.as_slice(), q.as_str(), max, max_chars)
}

/// What a submitted text does to memory.
#[derive(Debug)]
pub enum MemoryPlan {
    /// Write an active memory (an explicit "remember", with no conflict).
    Create { kind: &'static str, content: String },
    /// Record a pending change for the user to accept or reject.
    Propose {
        action: &'static str,
        kind: &'static str,
        content: String,
        target_id: Option<i64>,
        source: &'static str,
    },
    /// Nothing to remember.
    Nothing,
}

/// Model of a [`MemoryPlan`].
pub enum MemoryPlanModel {
    Create { kind: Seq<char>, content: Seq<char> },
    Propose {
        action: Seq<char>,
        kind: Seq<char>,
        content: Seq<char>,
        target_id: Option<i64>,
        source: Seq<char>,
    },
    Nothing,
}

impl View for MemoryPlan {
    type V = MemoryPlanModel;

    open spec fn view(&self) -> MemoryPlanModel {
        match self {
            MemoryPlan::Create { kind, content } => MemoryPlanModel::Create {
                kind: kind@,
                content: content@,
            },
            MemoryPlan::Propose { action, kind, content, target_id, source } =>
                MemoryPlanModel::Propose {
                action: action@,
                kind: kind@,
                content: content@,
                target_id: *target_id,
                source: source@,
            },
            MemoryPlan::Nothing => MemoryPlanModel::Nothing,
        }
    }
}

/// The memory a change request updates: the first conflicting memory, or
/// else the most recently updated one (the first of the active list).
pub open spec fn change_target(active: Seq<Memory>, value: Seq<char>) -> Option<int> {
    match first_conflict(active, value) {
        Some(i) => Some(i),
        None => if active.len() > 0 {
            Some(0)
        } else {
            None
        },
    }
}

/// What a submitted text does to memory, given the active memories (most
/// relevant first): an explicit "remember" writes the memory, or proposes an
/// update of the memory it conflicts with; a change request proposes an
/// update of its target; a statement that looks memorable becomes a pending
/// suggestion.
pub open spec fn spec_plan(text: Seq<char>, active: Seq<Memory>) -> MemoryPlanModel {
    match spec_detect_explicit(text) {
        Some(content) => {
            let kind = spec_suggest_kind(content);
            match first_conflict(active, content) {
                Some(i) => MemoryPlanModel::Propose {
                    action: "update"@,
                    kind,
                    content,
                    target_id: Some(active[i].id),
                    source: "user_explicit"@,
                },
                None => MemoryPlanModel::Create { kind, content },
            }
        },
        None => match spec_detect_change(text) {
            Some(value) => match change_target(active, value) {
                Some(i) => MemoryPlanModel::Propose {
                    action: "update"@,
                    kind: spec_suggest_kind(active[i].content@),
                    content: value,
                    target_id: Some(active[i].id),
                    source: "user_explicit"@,
                },
                None => MemoryPlanModel::Nothing,
            },
            None => if spec_looks_memorable(text) {
                MemoryPlanModel::Propose {
                    action: "create"@,
                    kind: spec_suggest_kind(text),
                    content: text,
                    target_id: None,
                    source: "implicit"@,
                }
            } else {
                MemoryPlanModel::Nothing
            },
        },
    }
}

/// Decides what a submitted text does to memory.
pub fn plan_memory(text: &str, active: &[Memory]) -> (r: MemoryPlan)
    ensures
        r@ == spec_plan(text@, active@),
{
    if let Some(content) = detect_explicit(text) {
        let kind = suggest_kind(content.as_str());
        match conflict_index(active, content.as_str()) {
            Some(i) => MemoryPlan::Propose {
                action: "update",
                kind,
                content,
                target_id: Some(active[i].id),
                source: "user_explicit",
            },
            None => MemoryPlan::Create { kind, content },
        }
    } else if let Some(value) = detect_change(text) {
        let target = match conflict_index(active, value.as_str()) {
            Some(i) => Some(i),
            None => if active.len() > 0 {
                Some(0)
            } else {
                None
            },
        };
        match target {
            Some(i) => MemoryPlan::Propose {
                action: "update",
                kind: suggest_kind(active[i].content.as_str()),
                content: value,
                target_id: Some(active[i].id),
                source: "user_explicit",
            },
            None => MemoryPlan::Nothing,
        }
    } else if looks_memorable(text) {
        MemoryPlan::Propose {
            action: "create",
            kind: suggest_kind(text),
            content: String::from_str(text),
            target_id: None,
            source: "implicit",
        }
    } else {
        MemoryPlan::Nothing
    }
}

/// What accepting a pending change writes.
#[derive(Debug)]
pub enum AcceptStep {
    /// Create an active memory (source "accepted").
    Create { kind: String, content: String },
    /// Replace the content of memory `id`.
    Update { id: i64, content: String },
    /// Soft-delete memory `id`.
    Delete { id: i64 },
    /// Nothing to write (an unknown action, or no target).
    Nothing,
}

/// Accepting a pending change carries out its action: `create` makes the
/// memory, `update` and `delete` apply to the target when there is one; the
/// pending row is removed in every case.
pub fn accept_step(p: &PendingChange) -> (r: AcceptStep)
    ensures
        p.action@ == "create"@ ==> (r matches AcceptStep::Create { kind, content } && kind@
            == p.kind@ && content@ == p.content@),
        p.action@ == "update"@ && p.target_id is Some ==> (r matches AcceptStep::Update {
            id,
            content,
        } && id == p.target_id->0 && content@ == p.content@),
        p.action@ == "delete"@ && p.target_id is Some ==> (r matches AcceptStep::Delete { id }
            && id == p.target_id->0),
        (p.action@ == "update"@ || p.action@ == "delete"@) && p.target_id is None ==> r is Nothing,
        p.action@ != "create"@ && p.action@ != "update"@ && p.action@ != "delete"@ ==> r is Nothing,
{
    proof {
        reveal_strlit("create");
        reveal_strlit("update");
        reveal_strlit("delete");
        assert("update"@[0] != "create"@[0]);
        assert("delete"@[0] != "create"@[0]);
        assert("delete"@[0] != "update"@[0]);
    }
    if crate::text::str_eq(p.action.as_str(), "create") {
        AcceptStep::Create { kind: p.kind.clone(), content: p.content.clone() }
    } else if crate::text::str_eq(p.action.as_str(), "update") {
        match p.target_id {
            Some(id) => AcceptStep::Update { id, content: p.content.clone() },
            None => AcceptStep::Nothing,
        }
    } else if crate::text::str_eq(p.action.as_str(), "delete") {
        match p.target_id {
            Some(id) => AcceptStep::Delete { id },
            None => AcceptStep::Nothing,
        }
    } else {
        AcceptStep::Nothing
    }
}

/// Total characters of the contents of the memories at `idx`.
pub open spec fn total_chars(ms: Seq<Memory>, idx: Seq<int>) -> nat
    decreases idx.len(),
{
    if idx.len() == 0 {
        0
    } else {
        ms[idx[0]].content@.len() + total_chars(ms, idx.drop_first())
    }
}

proof fn lemma_select_limits(order: Seq<(int, int)>, ms: Seq<Memory>, max: nat, budget: nat)
    ensures
        select(order, ms, max, budget).len() <= max,
        total_chars(ms, select(order, ms, max, budget)) <= budget,
    decreases order.len(),
{
    if order.len() > 0 && max > 0 {
        let n = ms[order[0].1].content@.len();
        if n <= budget {
            let rest = select(order.drop_first(), ms, (max - 1) as nat, (budget - n) as nat);
            lemma_select_limits(order.drop_first(), ms, (max - 1) as nat, (budget - n) as nat);
            let all = seq![order[0].1] + rest;
            assert(all.drop_first() =~= rest);
            assert(all[0] == order[0].1);
        }
    }
}

/// The keywords of a change request, in the order they are tried.
pub open spec fn change_keywords() -> Seq<Seq<char>> {
    seq!["改成"@, "改为"@, "换成"@, "换为"@]
}

proof fn lemma_trim_window(v: Seq<char>)
    requires
        !is_blank(v),
    ensures
        trim(v).len() > 0,
        lead_ws(v) + trim(v).len() <= v.len(),
        trim(v) == v.subrange(lead_ws(v) as int, (lead_ws(v) + trim(v).len()) as int),
        trim(trim(v)) == trim(v),
{
    crate::text::lemma_trim_empty_iff_blank(v);
    crate::text::lemma_lead_ws_bound(v);
    let s = trim_start(v);
    crate::text::lemma_trail_ws_bound(s);
    let w = trim(v);
    assert(w =~= v.subrange(lead_ws(v) as int, (lead_ws(v) + w.len()) as int));
    assert(w[0] == v[lead_ws(v) as int]);
    assert(w.last() == s[s.len() - trail_ws(s) - 1]);
    crate::text::lemma_lead_ws_unique(w, 0);
    crate::text::lemma_trail_ws_unique(w, 0);
    assert(trim_start(w) =~= w);
    assert(trim(w) =~= w);
}

proof fn lemma_change_after_found(t: Seq<char>, kw: Seq<char>, a: Seq<char>, v: Seq<char>)
    requires
        t == a + kw + v,
        forall|j: int| 0 <= j < a.len() ==> !occurs_at(t, kw, j),
        !is_blank(v),
        forall|i: int| 0 <= i < v.len() ==> !is_end_mark(#[trigger] v[i]),
    ensures
        change_after(t, kw) == Some(trim(v)),
{
    let n = a.len() as int;
    assert(t.subrange(n, n + kw.len()) =~= kw);
    assert(occurs_at(t, kw, n));
    assert(contains(t, kw));
    let pos = choose|i: int| occurs_at(t, kw, i) && forall|j: int| 0 <= j < i ==> !occurs_at(t, kw, j);
    assert(occurs_at(t, kw, pos) && forall|j: int| 0 <= j < pos ==> !occurs_at(t, kw, j));
    if pos < n {
        assert(!occurs_at(t, kw, pos));
    }
    if pos > n {
        assert(!occurs_at(t, kw, n));
    }
    assert(pos == n);
    assert(first_occurrence(t, kw) == Some(n));
    assert(t.skip(n + kw.len()) =~= v);
    lemma_trim_window(v);
    let a1 = trim(v);
    let k = lead_ws(v) + a1.len() - 1;
    assert(0 <= k < v.len());
    assert(a1[a1.len() - 1] == v.subrange(lead_ws(v) as int, (lead_ws(v) + a1.len()) as int)[a1.len() - 1]);
    assert(a1.last() == v[k]);
    assert(!is_end_mark(v[k]));
    assert(trail_marks(a1) == 0);
    assert(a1.take(a1.len() as int) =~= a1);
}

/// A change request names the new value after its keyword: when the trimmed
/// text is `a`, then keyword `k` of 改成, 改为, 换成, 换为 (its first
/// occurrence, with no earlier keyword of the list anywhere in the text),
/// then a value `v` that is not blank and has no end marks (。 . ！ !), the
/// new value is `v` trimmed.
#[verifier::spinoff_prover]
#[verifier::rlimit(60)]
pub proof fn lemma_change_names_new_value(s: Seq<char>, k: int, a: Seq<char>, v: Seq<char>)
    requires
        0 <= k < 4,
        trim(s) == a + change_keywords()[k] + v,
        forall|j: int| 0 <= j < k ==> !contains(trim(s), #[trigger] change_keywords()[j]),
        forall|j: int| 0 <= j < a.len() ==> !occurs_at(trim(s), change_keywords()[k], j),
        !is_blank(v),
        forall|i: int|
            0 <= i < v.len() ==> #[trigger] v[i] != '。' && v[i] != '.' && v[i] != '！' && v[i]
                != '!',
    ensures
        spec_detect_change(s) == Some(trim(v)),
{
    let t = trim(s);
    let kws = change_keywords();
    assert forall|i: int| 0 <= i < v.len() implies !is_end_mark(#[trigger] v[i]) by {}
    lemma_change_after_found(t, kws[k], a, v);
    assert forall|j: int| 0 <= j < k implies change_after(t, #[trigger] kws[j]) is None by {
        assert(!contains(t, kws[j]));
    }
    if k >= 1 {
        assert(change_after(t, kws[0]) is None);
    }
    if k >= 2 {
        assert(change_after(t, kws[1]) is None);
    }
    if k >= 3 {
        assert(change_after(t, kws[2]) is None);
    }
}

/// Retrieval respects its limits: at most `max` memories, whose contents
/// together hold at most `max_chars` characters.
pub proof fn lemma_retrieve_within_limits(ms: Seq<Memory>, query: Seq<char>, max: nat, max_chars: nat)
    ensures
        spec_retrieve(ms, query, max, max_chars).len() <= max,
        total_chars(ms, spec_retrieve(ms, query, max, max_chars)) <= max_chars,
{
    lemma_select_limits(
        sort_desc(scored(ms, lowered_contents(ms), ws_tokens(lowercase(query)))),
        ms,
        max,
        max_chars,
    );
}

/// Memory is never overwritten silently: a text only creates an active
/// memory when it explicitly asks to remember something that conflicts with
/// no active memory; conflicts, change requests and implicit suggestions only
/// ever become pending proposals, which name the memory they would change.
pub proof fn lemma_no_silent_overwrite(text: Seq<char>, active: Seq<Memory>)
    ensures
        spec_plan(text, active) is Create ==> spec_detect_explicit(text) is Some
            && first_conflict(active, spec_detect_explicit(text)->0) is None,
        spec_plan(text, active) matches MemoryPlanModel::Propose { action, target_id, .. } ==> (
        action == "update"@ ==> target_id is Some),
{
    reveal_strlit("create");
    reveal_strlit("update");
    assert("create"@[0] != "update"@[0]);
}

/// The notice shown after a plan was carried out: a created memory (when the
/// write succeeded) or a recorded change request; implicit suggestions are
/// recorded silently.
pub open spec fn spec_plan_notice(plan: MemoryPlanModel, written: bool) -> Option<Seq<char>> {
    match plan {
        MemoryPlanModel::Create { .. } => if written {
            Some("已加入记忆。"@)
        } else {
            None
        },
        MemoryPlanModel::Propose { source, .. } => if source == "user_explicit"@ {
            Some("已记录为待确认修改。"@)
        } else {
            None
        },
        MemoryPlanModel::Nothing => None,
    }
}

/// The notice for a plan; `written` says whether creating the memory worked.
pub fn plan_notice(plan: &MemoryPlan, written: bool) -> (r: Option<&'static str>)
    ensures
        match spec_plan_notice(plan@, written) {
            Some(t) => r is Some && r->0@ == t,
            None => r is None,
        },
{
    match plan {
        MemoryPlan::Create { .. } => if written {
            Some("已加入记忆。")
        } else {
            None
        },
        MemoryPlan::Propose { source, .. } => if crate::text::str_eq(source, "user_explicit") {
            Some("已记录为待确认修改。")
        } else {
            None
        },
        MemoryPlan::Nothing => None,
    }
}

} // verus!
