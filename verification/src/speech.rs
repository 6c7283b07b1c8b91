//! Text to speech on the agent side: what of a reply is read aloud, and the
//! providers that need no outside service.
use vstd::prelude::*;
use crate::audio::AudioOutput;
use crate::text::{
    chars_of, is_ws, is_whitespace, lead_ws, push_char, starts_with, starts_with_chars, string_of,
    trail_ws, trim, trim_bounds, trim_start,
};

verus! {

/// Pieces of `s` between line feeds (`str::lines`, up to a last empty piece,
/// which sanitizing ignores).
pub open spec fn line_pieces(s: Seq<char>) -> Seq<Seq<char>>
    decreases s.len(),
{
    if s.len() == 0 {
        seq![Seq::empty()]
    } else {
        let t = line_pieces(s.drop_last());
        if s.last() == '\n' {
            t.push(Seq::empty())
        } else {
            t.update(t.len() - 1, t.last().push(s.last()))
        }
    }
}

/// Markdown markers stripped from the start of a line.
pub open spec fn is_marker(c: char) -> bool {
    c == '#' || c == '>' || c == '-' || c == '*' || c == '+'
}

/// Number of markers at the front of `s` (`trim_start_matches`).
pub open spec fn lead_markers(s: Seq<char>) -> nat
    decreases s.len(),
{
    if s.len() > 0 && is_marker(s[0]) {
        1 + lead_markers(s.drop_first())
    } else {
        0
    }
}

/// A code fence line.
pub open spec fn is_fence(t: Seq<char>) -> bool {
    starts_with(t, seq!['~', '~', '~']) || starts_with(t, seq!['`', '`', '`'])
}

/// A line of structured data or control information.
pub open spec fn is_control_line(t: Seq<char>) -> bool {
    starts_with(t, seq!['{']) || starts_with(t, seq!['[']) || starts_with(t, "motion:"@)
}

/// Text collected from the lines so far, and whether a code block is open.
pub open spec fn step_line(st: (Seq<char>, bool), line: Seq<char>) -> (Seq<char>, bool) {
    let t = trim(line);
    if is_fence(t) {
        (st.0, !st.1)
    } else if st.1 {
        st
    } else {
        let u = trim(t.skip(lead_markers(t) as int));
        if is_control_line(u) || u.len() == 0 {
            st
        } else if st.0.len() > 0 {
            (st.0 + seq![' '] + u, st.1)
        } else {
            (st.0 + u, st.1)
        }
    }
}

/// The lines read in order.
pub open spec fn read_lines(pieces: Seq<Seq<char>>) -> (Seq<char>, bool)
    decreases pieces.len(),
{
    if pieces.len() == 0 {
        (Seq::empty(), false)
    } else {
        step_line(read_lines(pieces.drop_last()), pieces.last())
    }
}

/// Pieces of `s` between single spaces (`str::split(' ')`).
pub open spec fn space_pieces(s: Seq<char>) -> Seq<Seq<char>>
    decreases s.len(),
{
    if s.len() == 0 {
        seq![Seq::empty()]
    } else {
        let t = space_pieces(s.drop_last());
        if s.last() == ' ' {
            t.push(Seq::empty())
        } else {
            t.update(t.len() - 1, t.last().push(s.last()))
        }
    }
}

/// A token that is a web address.
pub open spec fn is_url(t: Seq<char>) -> bool {
    starts_with(t, "http://"@) || starts_with(t, "https://"@)
}

/// The tokens kept, joined by single spaces.
pub open spec fn join_non_urls(toks: Seq<Seq<char>>) -> Seq<char>
    decreases toks.len(),
{
    if toks.len() == 0 {
        Seq::empty()
    } else {
        let acc = join_non_urls(toks.drop_last());
        let t = toks.last();
        if is_url(t) {
            acc
        } else if acc.len() > 0 {
            acc + seq![' '] + t
        } else {
            acc + t
        }
    }
}

/// Runs of whitespace made single spaces.
pub open spec fn collapse_ws(s: Seq<char>) -> Seq<char>
    decreases s.len(),
{
    if s.len() == 0 {
        s
    } else {
        let p = collapse_ws(s.drop_last());
        let c = s.last();
        if is_ws(c) {
            if s.len() >= 2 && is_ws(s[s.len() - 2]) {
                p
            } else {
                p.push(' ')
            }
        } else {
            p.push(c)
        }
    }
}

/// The text of a reply to read aloud: code blocks, markdown markers, data and
/// control lines and web addresses removed, whitespace collapsed, trimmed, and
/// cut to `max` characters followed by `…` when longer.
pub open spec fn spec_sanitize(text: Seq<char>, max: nat) -> Seq<char> {
    let joined = read_lines(line_pieces(text)).0;
    let s = trim(collapse_ws(join_non_urls(space_pieces(joined))));
    if s.len() <= max {
        s
    } else {
        s.take(max as int).push('…')
    }
}

fn lead_markers_exec(t: &[char]) -> (n: usize)
    ensures
        n == lead_markers(t@),
        n <= t@.len(),
{
    let mut n: usize = 0;
    assert(t@.skip(0) == t@);
    while n < t.len() && (t[n] == '#' || t[n] == '>' || t[n] == '-' || t[n] == '*' || t[n] == '+')
        invariant
            n <= t@.len(),
            lead_markers(t@) == n + lead_markers(t@.skip(n as int)),
        decreases t@.len() - n,
    {
        proof {
            assert(t@.skip(n as int).drop_first() == t@.skip(n + 1));
            assert(t@.skip(n as int)[0] == t@[n as int]);
        }
        n = n + 1;
    }
    proof {
        if n < t@.len() {
            assert(t@.skip(n as int)[0] == t@[n as int]);
        }
        assert(lead_markers(t@.skip(n as int)) == 0);
    }
    n
}

fn slice_range(v: &[char], from: usize, to: usize) -> (r: Vec<char>)
    requires
        from <= to <= v@.len(),
    ensures
        r@ == v@.subrange(from as int, to as int),
{
    let mut r: Vec<char> = Vec::new();
    let mut i = from;
    while i < to
        invariant
            from <= i <= to <= v@.len(),
            r@ == v@.subrange(from as int, i as int),
        decreases to - i,
    {
        r.push(v[i]);
        assert(r@ =~= v@.subrange(from as int, i + 1));
        i = i + 1;
    }
    r
}

fn append_chars(out: &mut Vec<char>, t: &[char])
    ensures
        final(out)@ == old(out)@ + t@,
{
    let mut i: usize = 0;
    while i < t.len()
        invariant
            i <= t@.len(),
            out@ == old(out)@ + t@.take(i as int),
        decreases t@.len() - i,
    {
        out.push(t[i]);
        assert(t@.take(i + 1) =~= t@.take(i as int).push(t@[i as int]));
        assert(out@ =~= old(out)@ + t@.take(i + 1));
        i = i + 1;
    }
    assert(t@.take(t@.len() as int) == t@);
}

fn step_line_exec(out: &mut Vec<char>, in_code: &mut bool, line: &[char])
    ensures
        (final(out)@, *final(in_code)) == step_line((old(out)@, *old(in_code)), line@),
{
    let (a, b) = trim_bounds(line);
    let t = slice_range(line, a, b);
    let fence1 = vec!['~', '~', '~'];
    let fence2 = vec!['`', '`', '`'];
    assert(fence1@ =~= seq!['~', '~', '~']);
    assert(fence2@ =~= seq!['`', '`', '`']);
    if starts_with_chars(t.as_slice(), fence1.as_slice()) || starts_with_chars(
        t.as_slice(),
        fence2.as_slice(),
    ) {
        *in_code = !*in_code;
        return;
    }
    if *in_code {
        return;
    }
    let m = lead_markers_exec(t.as_slice());
    let rest = slice_range(t.as_slice(), m, t.len());
    assert(rest@ == t@.skip(m as int));
    let (c, d) = trim_bounds(rest.as_slice());
    let u = slice_range(rest.as_slice(), c, d);
    let brace = vec!['{'];
    let bracket = vec!['['];
    let motion = chars_of("motion:");
    assert(brace@ =~= seq!['{']);
    assert(bracket@ =~= seq!['[']);
    if starts_with_chars(u.as_slice(), brace.as_slice()) || starts_with_chars(
        u.as_slice(),
        bracket.as_slice(),
    ) || starts_with_chars(u.as_slice(), motion.as_slice()) || u.len() == 0 {
        return;
    }
    if out.len() > 0 {
        out.push(' ');
    }
    append_chars(out, u.as_slice());
}

fn read_lines_exec(v: &[char]) -> (r: Vec<char>)
    ensures
        r@ == read_lines(line_pieces(v@)).0,
{
    let mut out: Vec<char> = Vec::new();
    let mut in_code = false;
    let mut cur: Vec<char> = Vec::new();
    let mut j: usize = 0;
    while j < v.len()
        invariant
            j <= v@.len(),
            ({
                let ps = line_pieces(v@.take(j as int));
                &&& ps.len() >= 1
                &&& ps.last() == cur@
                &&& (out@, in_code) == read_lines(ps.drop_last())
            }),
        decreases v@.len() - j,
    {
        let c = v[j];
        let ghost ps = line_pieces(v@.take(j as int));
        proof {
            let t = v@.take(j + 1);
            assert(t.drop_last() == v@.take(j as int));
            assert(t.last() == c);
        }
        if c == '\n' {
            step_line_exec(&mut out, &mut in_code, cur.as_slice());
            proof {
                let np = ps.push(Seq::empty());
                assert(np.drop_last() == ps);
                assert(ps == ps.drop_last().push(ps.last()));
            }
            cur = Vec::new();
        } else {
            cur.push(c);
            proof {
                let np = ps.update(ps.len() - 1, ps.last().push(c));
                assert(np.drop_last() =~= ps.drop_last());
            }
        }
        j = j + 1;
    }
    let ghost ps = line_pieces(v@.take(j as int));
    step_line_exec(&mut out, &mut in_code, cur.as_slice());
    proof {
        assert(v@.take(v@.len() as int) == v@);
        assert(ps == ps.drop_last().push(ps.last()));
    }
    out
}

fn is_url_exec(t: &[char]) -> (r: bool)
    ensures
        r == is_url(t@),
{
    let a = chars_of("http://");
    let b = chars_of("https://");
    starts_with_chars(t, a.as_slice()) || starts_with_chars(t, b.as_slice())
}

fn strip_urls_chars(v: &[char]) -> (r: Vec<char>)
    ensures
        r@ == join_non_urls(space_pieces(v@)),
{
    let mut out: Vec<char> = Vec::new();
    let mut cur: Vec<char> = Vec::new();
    let mut j: usize = 0;
    while j < v.len()
        invariant
            j <= v@.len(),
            ({
                let ps = space_pieces(v@.take(j as int));
                &&& ps.len() >= 1
                &&& ps.last() == cur@
                &&& out@ == join_non_urls(ps.drop_last())
            }),
        decreases v@.len() - j,
    {
        let c = v[j];
        let ghost ps = space_pieces(v@.take(j as int));
        proof {
            let t = v@.take(j + 1);
            assert(t.drop_last() == v@.take(j as int));
            assert(t.last() == c);
        }
        if c == ' ' {
            if !is_url_exec(cur.as_slice()) {
                if out.len() > 0 {
                    out.push(' ');
                }
                append_chars(&mut out, cur.as_slice());
            }
            proof {
                let np = ps.push(Seq::empty());
                assert(np.drop_last() == ps);
                assert(ps == ps.drop_last().push(ps.last()));
            }
            cur = Vec::new();
        } else {
            cur.push(c);
            proof {
                let np = ps.update(ps.len() - 1, ps.last().push(c));
                assert(np.drop_last() =~= ps.drop_last());
            }
        }
        j = j + 1;
    }
    let ghost ps = space_pieces(v@.take(j as int));
    if !is_url_exec(cur.as_slice()) {
        if out.len() > 0 {
            out.push(' ');
        }
        append_chars(&mut out, cur.as_slice());
    }
    proof {
        assert(v@.take(v@.len() as int) == v@);
        assert(ps == ps.drop_last().push(ps.last()));
    }
    out
}

/// Web addresses (tokens starting with `http://` or `https://`) removed from
/// space-separated text.
pub fn strip_urls(text: &str) -> (r: String)
    ensures
        r@ == join_non_urls(space_pieces(text@)),
{
    let v = chars_of(text);
    let w = strip_urls_chars(v.as_slice());
    string_of(w.as_slice())
}

fn collapse_exec(v: &[char]) -> (r: Vec<char>)
    ensures
        r@ == collapse_ws(v@),
{
    let mut s: Vec<char> = Vec::new();
    let mut prev_space = false;
    let mut i: usize = 0;
    while i < v.len()
        invariant
            i <= v@.len(),
            s@ == collapse_ws(v@.take(i as int)),
            prev_space == (i >= 1 && is_ws(v@[i - 1])),
        decreases v@.len() - i,
    {
        let c = v[i];
        proof {
            let t = v@.take(i + 1);
            assert(t.drop_last() == v@.take(i as int));
            assert(t.last() == c);
            if i >= 1 {
                assert(t[t.len() - 2] == v@[i - 1]);
            }
        }
        if is_whitespace(c) {
            if !prev_space {
                s.push(' ');
            }
            prev_space = true;
        } else {
            s.push(c);
            prev_space = false;
        }
        i = i + 1;
    }
    assert(v@.take(v@.len() as int) == v@);
    s
}

/// Cleans an assistant reply for reading aloud, at most `max_chars`
/// characters before the ellipsis.
pub fn sanitize(text: &str, max_chars: usize) -> (r: String)
    ensures
        r@ == spec_sanitize(text@, max_chars as nat),
{
    let v = chars_of(text);
    let joined = read_lines_exec(v.as_slice());
    let cleaned = strip_urls_chars(joined.as_slice());
    let collapsed = collapse_exec(cleaned.as_slice());
    let (a, b) = trim_bounds(collapsed.as_slice());
    let s = slice_range(collapsed.as_slice(), a, b);
    if b - a <= max_chars {
        string_of(s.as_slice())
    } else {
        let head = slice_range(s.as_slice(), 0, max_chars);
        let mut r = string_of(head.as_slice());
        push_char(&mut r, '…');
        proof {
            assert(s@.subrange(0, max_chars as int) == s@.take(max_chars as int));
        }
        r
    }
}

/// What is read aloud never exceeds its limit by more than the ellipsis.
pub proof fn lemma_sanitize_bounded(text: Seq<char>, max: nat)
    ensures
        spec_sanitize(text, max).len() <= max + 1,
{
}

proof fn lemma_one_line(s: Seq<char>)
    requires
        forall|i: int| 0 <= i < s.len() ==> #[trigger] s[i] != '\n',
    ensures
        line_pieces(s) == seq![s],
    decreases s.len(),
{
    if s.len() > 0 {
        let p = s.drop_last();
        assert forall|i: int| 0 <= i < p.len() implies #[trigger] p[i] != '\n' by {
            assert(p[i] == s[i]);
        }
        lemma_one_line(p);
        assert(p.push(s.last()) =~= s);
        assert(seq![p].update(0, p.push(s.last())) =~= seq![s]);
    } else {
        assert(s =~= Seq::<char>::empty());
    }
}

proof fn lemma_one_token(s: Seq<char>)
    requires
        forall|i: int| 0 <= i < s.len() ==> #[trigger] s[i] != ' ',
    ensures
        space_pieces(s) == seq![s],
    decreases s.len(),
{
    if s.len() > 0 {
        let p = s.drop_last();
        assert forall|i: int| 0 <= i < p.len() implies #[trigger] p[i] != ' ' by {
            assert(p[i] == s[i]);
        }
        lemma_one_token(p);
        assert(p.push(s.last()) =~= s);
        assert(seq![p].update(0, p.push(s.last())) =~= seq![s]);
    } else {
        assert(s =~= Seq::<char>::empty());
    }
}

proof fn lemma_collapse_no_ws(s: Seq<char>)
    requires
        forall|i: int| 0 <= i < s.len() ==> !is_ws(#[trigger] s[i]),
    ensures
        collapse_ws(s) == s,
    decreases s.len(),
{
    if s.len() > 0 {
        let p = s.drop_last();
        assert forall|i: int| 0 <= i < p.len() implies !is_ws(#[trigger] p[i]) by {
            assert(p[i] == s[i]);
        }
        lemma_collapse_no_ws(p);
        assert(p.push(s.last()) =~= s);
    }
}

proof fn lemma_lead_markers_exact(m: Seq<char>, rest: Seq<char>)
    requires
        forall|i: int| 0 <= i < m.len() ==> is_marker(#[trigger] m[i]),
        rest.len() > 0 ==> !is_marker(rest[0]),
    ensures
        lead_markers(m + rest) == m.len(),
    decreases m.len(),
{
    if m.len() > 0 {
        let m1 = m.drop_first();
        assert forall|i: int| 0 <= i < m1.len() implies is_marker(#[trigger] m1[i]) by {
            assert(m1[i] == m[i + 1]);
        }
        lemma_lead_markers_exact(m1, rest);
        assert((m + rest).drop_first() =~= m1 + rest);
        assert((m + rest)[0] == m[0]);
    } else {
        assert(m + rest =~= rest);
    }
}

/// Trimming leaves alone text that begins and ends with characters that are
/// not whitespace.
proof fn lemma_trim_keeps(s: Seq<char>)
    requires
        s.len() > 0,
        !is_ws(s[0]),
        !is_ws(s.last()),
    ensures
        trim(s) == s,
{
    crate::text::lemma_lead_ws_unique(s, 0);
    assert(trim_start(s) =~= s);
    crate::text::lemma_trail_ws_unique(s, 0);
    assert(trim(s) =~= s);
}

proof fn lemma_marker_line_step(m: Seq<char>, g: Seq<char>, w: Seq<char>)
    requires
        m.len() > 0,
        forall|i: int| 0 <= i < m.len() ==> is_marker(#[trigger] m[i]),
        forall|i: int| 0 <= i < g.len() ==> #[trigger] g[i] == ' ',
        w.len() > 0,
        forall|i: int| 0 <= i < w.len() ==> !is_ws(#[trigger] w[i]),
        !is_marker(w[0]),
        !is_control_line(w),
    ensures
        step_line((Seq::empty(), false), m + g + w) == (w, false),
{
    let line = m + g + w;
    let gw = g + w;
    assert(line =~= m + gw);
    assert(line[0] == m[0]);
    assert(line.last() == w.last());
    lemma_trim_keeps(line);
    assert(!starts_with(line, seq!['~', '~', '~'])) by {
        if starts_with(line, seq!['~', '~', '~']) {
            assert(line.take(3)[0] == line[0]);
            assert(seq!['~', '~', '~'][0] == '~');
        }
    }
    assert(!starts_with(line, seq!['`', '`', '`'])) by {
        if starts_with(line, seq!['`', '`', '`']) {
            assert(line.take(3)[0] == line[0]);
            assert(seq!['`', '`', '`'][0] == '`');
        }
    }
    if gw.len() > 0 {
        if g.len() > 0 {
            assert(gw[0] == ' ');
        } else {
            assert(gw[0] == w[0]);
        }
    }
    lemma_lead_markers_exact(m, gw);
    assert(line.skip(m.len() as int) =~= gw);
    assert forall|i: int| 0 <= i < g.len() implies is_ws(#[trigger] gw[i]) by {
        assert(gw[i] == g[i]);
        assert(is_ws(' '));
    }
    assert(gw[g.len() as int] == w[0]);
    crate::text::lemma_lead_ws_unique(gw, g.len() as int);
    assert(trim_start(gw) =~= w);
    crate::text::lemma_trail_ws_unique(w, 0);
    assert(trim(gw) =~= w);
}

/// Markdown markers at the start of a line are not read aloud: a line made of
/// one or more markers (`#`, `>`, `-`, `*`, `+`), optional spaces, and then a
/// word (no whitespace, not starting with a marker, not a web address, not
/// data or control text) reads as the word alone.
pub proof fn lemma_line_markers_not_read(m: Seq<char>, g: Seq<char>, w: Seq<char>, max: nat)
    requires
        m.len() > 0,
        forall|i: int|
            0 <= i < m.len() ==> #[trigger] m[i] == '#' || m[i] == '>' || m[i] == '-' || m[i]
                == '*' || m[i] == '+',
        forall|i: int| 0 <= i < g.len() ==> #[trigger] g[i] == ' ',
        w.len() > 0,
        w.len() <= max,
        forall|i: int| 0 <= i < w.len() ==> !is_ws(#[trigger] w[i]),
        !(w[0] == '#' || w[0] == '>' || w[0] == '-' || w[0] == '*' || w[0] == '+'),
        w[0] != '{',
        w[0] != '[',
        !starts_with(w, "motion:"@),
        !starts_with(w, "http://"@),
        !starts_with(w, "https://"@),
    ensures
        spec_sanitize(m + g + w, max) == w,
{
    let line = m + g + w;
    assert forall|i: int| 0 <= i < m.len() implies is_marker(#[trigger] m[i]) by {}
    assert(!starts_with(w, seq!['{'])) by {
        assert(w.take(1)[0] == w[0]);
    }
    assert(!starts_with(w, seq!['['])) by {
        assert(w.take(1)[0] == w[0]);
    }
    lemma_marker_line_step(m, g, w);
    assert forall|i: int| 0 <= i < line.len() implies #[trigger] line[i] != '\n' by {
        if i < m.len() {
            assert(line[i] == m[i]);
        } else if i < m.len() + g.len() {
            assert(line[i] == g[i - m.len()]);
        } else {
            assert(line[i] == w[i - m.len() - g.len()]);
            assert(is_ws('\n'));
        }
    }
    lemma_one_line(line);
    let pieces = seq![line];
    assert(pieces.drop_last() =~= Seq::<Seq<char>>::empty());
    assert(pieces.last() == line);
    assert(read_lines(Seq::<Seq<char>>::empty()) == (Seq::<char>::empty(), false));
    assert(read_lines(pieces) == (w, false));
    assert forall|i: int| 0 <= i < w.len() implies #[trigger] w[i] != ' ' by {
        assert(is_ws(' '));
    }
    lemma_one_token(w);
    let toks = seq![w];
    assert(toks.drop_last() =~= Seq::<Seq<char>>::empty());
    assert(toks.last() == w);
    assert(!is_url(w));
    assert(join_non_urls(Seq::<Seq<char>>::empty()) == Seq::<char>::empty());
    assert(join_non_urls(toks) =~= Seq::<char>::empty() + w);
    lemma_collapse_no_ws(w);
    lemma_trim_keeps(w);
}

/// A speech synthesiser.
pub trait TtsProvider {
    /// The provider's name, for display.
    fn name(&self) -> &str;

    /// Audio that reads `text` aloud, or why there is none.
    fn synthesize(&self, text: &str) -> Result<AudioOutput, String>;
}

/// Produces no speech.
pub struct NullTtsProvider;

impl TtsProvider for NullTtsProvider {
    fn name(&self) -> (r: &str)
        ensures
            r@ == "null"@,
    {
        "null"
    }

    /// Always empty audio.
    fn synthesize(&self, _text: &str) -> (r: Result<AudioOutput, String>)
        ensures
            r is Ok,
            r->Ok_0.pcm_i16@.len() == 0,
            r->Ok_0.sample_rate == 16000,
            r->Ok_0.channels == 1,
            r->Ok_0.bits_per_sample == 16,
    {
        Ok(AudioOutput::empty())
    }
}

/// Number of samples in the mock provider's silence (0.6 s at 16 kHz).
pub const MOCK_SAMPLES: usize = 9600;

/// Produces a short silence, to exercise the speech path without any service.
pub struct MockTtsProvider;

impl TtsProvider for MockTtsProvider {
    fn name(&self) -> (r: &str)
        ensures
            r@ == "mock"@,
    {
        "mock"
    }

    /// 0.6 seconds of silence, 16-bit mono at 16 kHz.
    fn synthesize(&self, _text: &str) -> (r: Result<AudioOutput, String>)
        ensures
            r is Ok,
            r->Ok_0.pcm_i16@ == Seq::new(MOCK_SAMPLES as nat, |i: int| 0i16),
            r->Ok_0.sample_rate == 16000,
            r->Ok_0.channels == 1,
            r->Ok_0.bits_per_sample == 16,
    {
        let mut pcm: Vec<i16> = Vec::new();
        let mut i: usize = 0;
        while i < MOCK_SAMPLES
            invariant
                i <= MOCK_SAMPLES,
                pcm@ == Seq::new(i as nat, |k: int| 0i16),
            decreases MOCK_SAMPLES - i,
        {
            pcm.push(0);
            assert(pcm@ =~= Seq::new((i + 1) as nat, |k: int| 0i16));
            i = i + 1;
        }
        Ok(AudioOutput { pcm_i16: pcm, sample_rate: 16000, channels: 1, bits_per_sample: 16 })
    }
}

/// Speech providers that a configuration can name.
#[derive(Debug, Clone, Copy, PartialEq, Eq, Structural)]
pub enum TtsKind {
    Null,
    Mock,
    Sapi,
}

/// The provider a configured name selects; unknown names fall back to the mock one.
pub open spec fn spec_tts_kind(name: Seq<char>) -> TtsKind {
    if name == "null"@ {
        TtsKind::Null
    } else if name == "mock"@ {
        TtsKind::Mock
    } else if name == "sapi"@ {
        TtsKind::Sapi
    } else {
        TtsKind::Mock
    }
}

/// The speech provider that a configured name selects.
pub fn tts_kind(name: &str) -> (r: TtsKind)
    ensures
        r == spec_tts_kind(name@),
{
    if crate::text::str_eq(name, "null") {
        TtsKind::Null
    } else if crate::text::str_eq(name, "mock") {
        TtsKind::Mock
    } else if crate::text::str_eq(name, "sapi") {
        TtsKind::Sapi
    } else {
        TtsKind::Mock
    }
}

} // verus!
