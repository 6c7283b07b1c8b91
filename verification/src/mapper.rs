//! From assistant text to an expression for the pet, by conservative local rules:
//! the model's output never decides motion, command, duration or priority.
use vstd::prelude::*;
use crate::protocol::{Motion, Priority};
use crate::text::{
    chars_of, contains, ends_with, occurs_at, push_char, str_contains, string_from_range, trim, trim_bounds,
};

verus! {

/// What the pet is asked to show for an assistant reply.
#[derive(Debug, Clone)]
pub struct Mapped {
    pub text: String,
    pub motion: Option<Motion>,
    pub priority: Priority,
}

/// The motion for a (trimmed) reply: a shake for the few phrases that ask for
/// it, a nod for a short question (at most 12 characters), none otherwise.
pub open spec fn spec_decide_motion(t: Seq<char>) -> Option<Motion> {
    if contains(t, "不要晃"@) || contains(t, "别摇"@) || contains(t, "不要摇"@) {
        Some(Motion::Shake)
    } else if (ends_with(t, seq!['？']) || ends_with(t, seq!['?'])) && t.len() <= 12 {
        Some(Motion::Nod)
    } else {
        None
    }
}

fn ends_with_char(v: &[char], c: char) -> (r: bool)
    ensures
        r == ends_with(v@, seq![c]),
{
    let r = v.len() > 0 && v[v.len() - 1] == c;
    proof {
        if v@.len() > 0 {
            if r {
                assert(v@.skip(v@.len() - 1) =~= seq![c]);
            } else if ends_with(v@, seq![c]) {
                assert(v@.skip(v@.len() - 1)[0] == v@[v@.len() - 1]);
            }
        }
    }
    r
}

fn decide_motion(v: &[char]) -> (r: Option<Motion>)
    ensures
        r == spec_decide_motion(v@),
{
    if str_contains(v, "不要晃") || str_contains(v, "别摇") || str_contains(v, "不要摇") {
        return Some(Motion::Shake);
    }
    let ends_question = ends_with_char(v, '？') || ends_with_char(v, '?');
    let short = v.len() <= 12;
    if ends_question && short {
        return Some(Motion::Nod);
    }
    None
}

/// Maps an assistant reply: its trimmed text, the motion that the rules give,
/// normal priority.
pub fn map(text: &str) -> (r: Mapped)
    ensures
        r.text@ == trim(text@),
        r.motion == spec_decide_motion(trim(text@)),
        r.priority == Priority::Normal,
{
    let v = chars_of(text);
    let (a, b) = trim_bounds(v.as_slice());
    let t = string_from_range(v.as_slice(), a, b);
    let tv = chars_of(t.as_str());
    let motion = decide_motion(tv.as_slice());
    Mapped { text: t, motion, priority: Priority::Normal }
}

/// `s` with carriage returns (and, when asked, line feeds) made spaces.
pub open spec fn blank_breaks(s: Seq<char>, newlines: bool) -> Seq<char> {
    s.map_values(|c: char| if c == '\r' || (newlines && c == '\n') { ' ' } else { c })
}

/// The text for the bubble: line breaks made spaces, trimmed, and cut to `max`
/// characters followed by `…` when longer.
pub open spec fn spec_truncate(s: Seq<char>, max: nat, newlines: bool) -> Seq<char> {
    let c = trim(blank_breaks(s, newlines));
    if c.len() <= max {
        c
    } else {
        c.take(max as int).push('…')
    }
}

fn truncate_with(text: &str, max: usize, newlines: bool) -> (r: String)
    ensures
        r@ == spec_truncate(text@, max as nat, newlines),
{
    let v = chars_of(text);
    let mut w: Vec<char> = Vec::new();
    let mut i: usize = 0;
    while i < v.len()
        invariant
            i <= v@.len(),
            w@ == blank_breaks(v@.take(i as int), newlines),
        decreases v@.len() - i,
    {
        let c = v[i];
        let d = if c == '\r' || (newlines && c == '\n') {
            ' '
        } else {
            c
        };
        w.push(d);
        proof {
            assert(v@.take(i + 1) =~= v@.take(i as int).push(c));
            assert(blank_breaks(v@.take(i + 1), newlines) =~= blank_breaks(v@.take(i as int), newlines).push(d));
        }
        i = i + 1;
    }
    assert(v@.take(v@.len() as int) == v@);
    let (a, b) = trim_bounds(w.as_slice());
    if b - a <= max {
        string_from_range(w.as_slice(), a, b)
    } else {
        let mut out = string_from_range(w.as_slice(), a, a + max);
        push_char(&mut out, '…');
        proof {
            let c = trim(blank_breaks(text@, newlines));
            assert(w@.subrange(a as int, a + max) =~= c.take(max as int));
        }
        out
    }
}

/// The bubble text of a reply: carriage returns made spaces, trimmed, at most
/// `max_chars` characters before the ellipsis.
pub fn truncate_for_bubble(text: &str, max_chars: usize) -> (r: String)
    ensures
        r@ == spec_truncate(text@, max_chars as nat, false),
{
    truncate_with(text, max_chars, false)
}

/// Like `truncate_for_bubble`, with line feeds made spaces as well.
pub fn truncate(text: &str, max: usize) -> (r: String)
    ensures
        r@ == spec_truncate(text@, max as nat, true),
{
    truncate_with(text, max, true)
}

/// Bubble text never exceeds its limit by more than the ellipsis.
pub proof fn lemma_truncate_bounded(s: Seq<char>, max: nat, newlines: bool)
    ensures
        spec_truncate(s, max, newlines).len() <= max + 1,
{
}

/// A reply that asks not to be shaken, holding 不要晃, 别摇 or 不要摇 anywhere
/// (here at position `i`), makes the pet shake its head.
pub proof fn lemma_shake_phrases(t: Seq<char>, w: Seq<char>, i: int)
    requires
        w == "不要晃"@ || w == "别摇"@ || w == "不要摇"@,
        0 <= i,
        i + w.len() <= t.len(),
        t.subrange(i, i + w.len()) == w,
    ensures
        spec_decide_motion(t) == Some(Motion::Shake),
{
    assert(occurs_at(t, w, i));
}

/// Without those phrases, a reply of at most 12 characters that ends with a
/// question mark (`?` or `？`) makes the pet nod, and any other reply moves
/// nothing.
pub proof fn lemma_question_nods(t: Seq<char>)
    requires
        forall|i: int| 0 <= i && i + 3 <= t.len() ==> #[trigger] t.subrange(i, i + 3) != "不要晃"@,
        forall|i: int| 0 <= i && i + 2 <= t.len() ==> #[trigger] t.subrange(i, i + 2) != "别摇"@,
        forall|i: int| 0 <= i && i + 3 <= t.len() ==> #[trigger] t.subrange(i, i + 3) != "不要摇"@,
    ensures
        (t.len() > 0 && (t.last() == '?' || t.last() == '？') && t.len() <= 12) ==> spec_decide_motion(
            t,
        ) == Some(Motion::Nod),
        !(t.len() > 0 && (t.last() == '?' || t.last() == '？') && t.len() <= 12) ==> spec_decide_motion(
            t,
        ) is None,
{
    reveal_strlit("不要晃");
    reveal_strlit("别摇");
    reveal_strlit("不要摇");
    assert("不要晃"@.len() == 3);
    assert("别摇"@.len() == 2);
    assert("不要摇"@.len() == 3);
    assert(!contains(t, "不要晃"@));
    assert(!contains(t, "别摇"@));
    assert(!contains(t, "不要摇"@));
    if t.len() > 0 {
        assert(ends_with(t, seq!['?']) == (t.last() == '?')) by {
            if t.last() == '?' {
                assert(t.skip(t.len() - 1) =~= seq!['?']);
            }
            if ends_with(t, seq!['?']) {
                assert(t.skip(t.len() - 1)[0] == t.last());
            }
        }
        assert(ends_with(t, seq!['？']) == (t.last() == '？')) by {
            if t.last() == '？' {
                assert(t.skip(t.len() - 1) =~= seq!['？']);
            }
            if ends_with(t, seq!['？']) {
                assert(t.skip(t.len() - 1)[0] == t.last());
            }
        }
    }
}

} // verus!
