//! Presentation layer: expression priorities, the speech-bubble queue and
//! bubble placement next to the pet.
//!
//! Display durations and the random choice of idle lines are seconds and
//! probabilities in floating point; the queue carries the duration as an opaque
//! payload and never reads it.
use vstd::prelude::*;
use std::collections::VecDeque;
use crate::text::{is_blank, is_blank_str};

verus! {

/// Expression priority, from automatic idle lines up to user messages.
#[derive(Debug, Clone, Copy, PartialEq, Eq, Structural)]
pub enum Priority {
    /// Automatic idle text (lowest).
    Idle,
    /// System notices.
    System,
    /// User or agent messages (highest).
    User,
}

impl Priority {
    /// Position in the order `Idle < System < User`.
    pub open spec fn spec_rank(self) -> int {
        match self {
            Priority::Idle => 0,
            Priority::System => 1,
            Priority::User => 2,
        }
    }

    /// Position in the order `Idle < System < User`.
    pub fn rank(self) -> (r: u8)
        ensures
            r == self.spec_rank(),
    {
        match self {
            Priority::Idle => 0,
            Priority::System => 1,
            Priority::User => 2,
        }
    }
}

/// Most lines waiting in the bubble queue.
pub const MAX_QUEUE: usize = 8;

/// A line waiting for the bubble: its text, priority and display duration.
#[derive(Debug)]
pub struct Queued<D> {
    pub text: String,
    pub priority: Priority,
    pub duration: D,
}

/// Lines whose text differs from `t`, in order.
pub open spec fn drop_text<D>(q: Seq<Queued<D>>, t: Seq<char>) -> Seq<Queued<D>>
    decreases q.len(),
{
    if q.len() == 0 {
        q
    } else if q.last().text@ == t {
        drop_text(q.drop_last(), t)
    } else {
        drop_text(q.drop_last(), t).push(q.last())
    }
}

/// Index that `min_by_key` on the priority picks: the first lowest-priority line.
pub open spec fn worst_index<D>(q: Seq<Queued<D>>) -> int
    decreases q.len(),
{
    if q.len() <= 1 {
        0
    } else {
        let i = worst_index(q.drop_last());
        if q.last().priority.spec_rank() < q[i].priority.spec_rank() {
            q.len() - 1
        } else {
            i
        }
    }
}

/// A line with this text and priority is queued.
pub open spec fn has_line<D>(q: Seq<Queued<D>>, t: Seq<char>, p: Priority) -> bool {
    exists|i: int| 0 <= i < q.len() && q[i].text@ == t && q[i].priority == p
}

/// The queue after offering a line: blank text and exact repeats are ignored;
/// a line above idle priority replaces queued lines with the same text; a full
/// queue first loses its first lowest-priority line; the line goes to the back.
pub open spec fn spec_offer<D>(q: Seq<Queued<D>>, line: Queued<D>) -> Seq<Queued<D>> {
    if is_blank(line.text@) || has_line(q, line.text@, line.priority) {
        q
    } else {
        let q1 = if line.priority.spec_rank() > 0 {
            drop_text(q, line.text@)
        } else {
            q
        };
        let q2 = if q1.len() >= MAX_QUEUE {
            q1.remove(worst_index(q1))
        } else {
            q1
        };
        q2.push(line)
    }
}

/// No blank lines, no repeated (text, priority) pair, at most `MAX_QUEUE` lines.
pub open spec fn speech_wf<D>(q: Seq<Queued<D>>) -> bool {
    &&& q.len() <= MAX_QUEUE
    &&& forall|i: int| 0 <= i < q.len() ==> !is_blank(#[trigger] q[i].text@)
    &&& forall|i: int, j: int|
        0 <= i < j < q.len() ==> !(#[trigger] q[i].text@ == #[trigger] q[j].text@ && q[i].priority
            == q[j].priority)
}

/// The bubble's queue of lines.
pub struct SpeechQueue<D> {
    lines: VecDeque<Queued<D>>,
}

impl<D> View for SpeechQueue<D> {
    type V = Seq<Queued<D>>;

    closed spec fn view(&self) -> Seq<Queued<D>> {
        self.lines@
    }
}

proof fn lemma_drop_text_props<D>(q: Seq<Queued<D>>, t: Seq<char>)
    ensures
        drop_text(q, t).len() <= q.len(),
        forall|k: int|
            0 <= k < drop_text(q, t).len() ==> exists|m: int|
                0 <= m < q.len() && #[trigger] drop_text(q, t)[k] == q[m],
        forall|k: int| 0 <= k < drop_text(q, t).len() ==> #[trigger] drop_text(q, t)[k].text@ != t,
        forall|a: int, b: int|
            0 <= a < b < drop_text(q, t).len() ==> exists|ma: int, mb: int|
                0 <= ma < mb < q.len() && #[trigger] drop_text(q, t)[a] == q[ma]
                    && #[trigger] drop_text(q, t)[b] == q[mb],
    decreases q.len(),
{
    if q.len() > 0 {
        let p = q.drop_last();
        lemma_drop_text_props(p, t);
        let d = drop_text(q, t);
        let dp = drop_text(p, t);
        assert forall|k: int| 0 <= k < d.len() implies exists|m: int|
            0 <= m < q.len() && #[trigger] d[k] == q[m] by {
            if k < dp.len() {
                let m = choose|m: int| 0 <= m < p.len() && dp[k] == p[m];
                assert(d[k] == q[m]);
            } else {
                assert(d[k] == q[q.len() - 1]);
            }
        }
        assert forall|a: int, b: int| 0 <= a < b < d.len() implies exists|ma: int, mb: int|
            0 <= ma < mb < q.len() && #[trigger] d[a] == q[ma] && #[trigger] d[b] == q[mb] by {
            if b < dp.len() {
                let (ma, mb) = choose|ma: int, mb: int|
                    0 <= ma < mb < p.len() && dp[a] == p[ma] && dp[b] == p[mb];
                assert(d[a] == q[ma] && d[b] == q[mb]);
            } else {
                let ma = choose|m: int| 0 <= m < p.len() && dp[a] == p[m];
                assert(d[a] == q[ma]);
                assert(d[b] == q[q.len() - 1]);
            }
        }
    }
}

proof fn lemma_worst_index_bounds<D>(q: Seq<Queued<D>>)
    requires
        q.len() > 0,
    ensures
        0 <= worst_index(q) < q.len(),
    decreases q.len(),
{
    if q.len() > 1 {
        lemma_worst_index_bounds(q.drop_last());
    }
}

impl<D> SpeechQueue<D> {
    /// The queue's invariant.
    pub closed spec fn wf(&self) -> bool {
        speech_wf(self@)
    }

    /// An empty queue.
    pub fn new() -> (r: SpeechQueue<D>)
        ensures
            r@.len() == 0,
            r.wf(),
    {
        SpeechQueue { lines: VecDeque::new() }
    }

    /// Number of queued lines.
    pub fn len(&self) -> (n: usize)
        ensures
            n == self@.len(),
    {
        self.lines.len()
    }

    /// Removes every line.
    pub fn clear(&mut self)
        ensures
            final(self)@.len() == 0,
            final(self).wf(),
    {
        self.lines.clear();
    }

    /// Takes the oldest line.
    pub fn pop_front(&mut self) -> (r: Option<Queued<D>>)
        requires
            old(self).wf(),
        ensures
            final(self).wf(),
            old(self)@.len() == 0 ==> r is None && final(self)@ == old(self)@,
            old(self)@.len() > 0 ==> r == Some(old(self)@[0]),
            old(self)@.len() > 0 ==> final(self)@ == old(self)@.drop_first(),
    {
        let ghost q = self.lines@;
        let r = self.lines.pop_front();
        proof {
            let q2 = self.lines@;
            if q.len() > 0 {
                assert(q2 == q.drop_first());
                assert forall|i: int, j: int| 0 <= i < j < q2.len() implies !(
                #[trigger] q2[i].text@ == #[trigger] q2[j].text@ && q2[i].priority == q2[j].priority) by {
                    assert(q2[i] == q[i + 1]);
                    assert(q2[j] == q[j + 1]);
                }
                assert forall|i: int| 0 <= i < q2.len() implies !is_blank(#[trigger] q2[i].text@) by {
                    assert(q2[i] == q[i + 1]);
                }
            }
        }
        r
    }

    fn contains_line(&self, text: &str, priority: Priority) -> (r: bool)
        ensures
            r == has_line(self@, text@, priority),
    {
        let n = self.lines.len();
        let mut i: usize = 0;
        while i < n
            invariant
                n == self@.len(),
                i <= n,
                forall|k: int|
                    0 <= k < i ==> !(#[trigger] self@[k].text@ == text@ && self@[k].priority
                        == priority),
            decreases n - i,
        {
            let line = &self.lines[i];
            if crate::text::str_eq(line.text.as_str(), text) && line.priority == priority {
                return true;
            }
            i = i + 1;
        }
        false
    }

    fn remove_text(&mut self, text: &str)
        ensures
            final(self)@ == drop_text(old(self)@, text@),
    {
        let ghost q = self.lines@;
        let mut kept: VecDeque<Queued<D>> = VecDeque::new();
        let n = self.lines.len();
        let mut i: usize = 0;
        while i < n
            invariant
                n == q.len(),
                i <= n,
                self.lines@ == q.skip(i as int),
                kept@ == drop_text(q.take(i as int), text@),
            decreases n - i,
        {
            let line = self.lines.pop_front();
            proof {
                assert(q.take(i + 1).drop_last() == q.take(i as int));
                assert(q.take(i + 1).last() == q[i as int]);
                assert(q.skip(i as int)[0] == q[i as int]);
                assert(q.skip(i as int).subrange(1, q.skip(i as int).len() as int) == q.skip(i + 1));
            }
            match line {
                Some(l) => {
                    if !crate::text::str_eq(l.text.as_str(), text) {
                        kept.push_back(l);
                    }
                },
                None => {},
            }
            i = i + 1;
        }
        assert(q.take(n as int) == q);
        self.lines = kept;
    }

    fn remove_worst(&mut self)
        requires
            old(self)@.len() > 0,
        ensures
            final(self)@ == old(self)@.remove(worst_index(old(self)@)),
    {
        let ghost q = self.lines@;
        let n = self.lines.len();
        let mut worst: usize = 0;
        let mut i: usize = 1;
        while i < n
            invariant
                n == q.len(),
                self.lines@ == q,
                1 <= i <= n,
                worst < i,
                worst == worst_index(q.take(i as int)),
            decreases n - i,
        {
            proof {
                let t = q.take(i + 1);
                assert(t.drop_last() == q.take(i as int));
                assert(t.last() == q[i as int]);
                assert(q.take(i as int)[worst as int] == q[worst as int]);
            }
            if self.lines[i].priority.rank() < self.lines[worst].priority.rank() {
                worst = i;
            }
            i = i + 1;
        }
        assert(q.take(n as int) == q);
        let _ = self.lines.remove(worst);
    }

    /// Offers a line to the queue, as `spec_offer` says.
    pub fn offer(&mut self, text: String, priority: Priority, duration: D)
        requires
            old(self).wf(),
        ensures
            final(self).wf(),
            ({
                let line = Queued { text, priority, duration };
                final(self)@ == spec_offer(old(self)@, line)
            }),
    {
        let ghost q = self.lines@;
        let ghost line = Queued { text, priority, duration };
        if is_blank_str(text.as_str()) {
            return;
        }
        if self.contains_line(text.as_str(), priority) {
            return;
        }
        if priority.rank() > 0 {
            self.remove_text(text.as_str());
        }
        let ghost q1 = self.lines@;
        proof {
            lemma_drop_text_props(q, text@);
        }
        if self.lines.len() >= MAX_QUEUE {
            proof {
                lemma_worst_index_bounds(q1);
            }
            self.remove_worst();
        }
        let ghost q2 = self.lines@;
        self.lines.push_back(Queued { text, priority, duration });
        proof {
            let q3 = self.lines@;
            assert(q3 == q2.push(line));
            // every line of q2 is a line of q, in the same order
            assert forall|k: int| 0 <= k < q2.len() implies exists|m: int|
                0 <= m < q.len() && #[trigger] q2[k] == q[m] by {
                if q1.len() >= MAX_QUEUE {
                    let w = worst_index(q1);
                    let k1 = if k < w { k } else { k + 1 };
                    assert(q2[k] == q1[k1]);
                    if priority.spec_rank() > 0 {
                        let m = choose|m: int| 0 <= m < q.len() && drop_text(q, text@)[k1] == q[m];
                        assert(q2[k] == q[m]);
                    } else {
                        assert(q2[k] == q[k1]);
                    }
                } else if priority.spec_rank() > 0 {
                    let m = choose|m: int| 0 <= m < q.len() && drop_text(q, text@)[k] == q[m];
                    assert(q2[k] == q[m]);
                } else {
                    assert(q2[k] == q[k]);
                }
            }
            assert forall|a: int, b: int| 0 <= a < b < q2.len() implies exists|ma: int, mb: int|
                0 <= ma < mb < q.len() && #[trigger] q2[a] == q[ma] && #[trigger] q2[b] == q[mb] by {
                if q1.len() >= MAX_QUEUE {
                    let w = worst_index(q1);
                    let a1 = if a < w { a } else { a + 1 };
                    let b1 = if b < w { b } else { b + 1 };
                    assert(q2[a] == q1[a1]);
                    assert(q2[b] == q1[b1]);
                    if priority.spec_rank() > 0 {
                        let (ma, mb) = choose|ma: int, mb: int|
                            0 <= ma < mb < q.len() && drop_text(q, text@)[a1] == q[ma] && drop_text(q, text@)[b1] == q[mb];
                        assert(q2[a] == q[ma] && q2[b] == q[mb]);
                    } else {
                        assert(q2[a] == q[a1] && q2[b] == q[b1]);
                    }
                } else if priority.spec_rank() > 0 {
                    let (ma, mb) = choose|ma: int, mb: int|
                        0 <= ma < mb < q.len() && drop_text(q, text@)[a] == q[ma] && drop_text(q, text@)[b] == q[mb];
                    assert(q2[a] == q[ma] && q2[b] == q[mb]);
                } else {
                    assert(q2[a] == q[a] && q2[b] == q[b]);
                }
            }
            assert(q2.len() < MAX_QUEUE);
            assert forall|i: int| 0 <= i < q3.len() implies !is_blank(#[trigger] q3[i].text@) by {
                if i < q2.len() {
                    let m = choose|m: int| 0 <= m < q.len() && q2[i] == q[m];
                    assert(q3[i] == q[m]);
                }
            }
            assert forall|i: int, j: int| 0 <= i < j < q3.len() implies !(#[trigger] q3[i].text@
                == #[trigger] q3[j].text@ && q3[i].priority == q3[j].priority) by {
                if j < q2.len() {
                    let (mi, mj) = choose|ma: int, mb: int|
                        0 <= ma < mb < q.len() && q2[i] == q[ma] && q2[j] == q[mb];
                    assert(q3[i] == q[mi] && q3[j] == q[mj]);
                } else {
                    let m = choose|m: int| 0 <= m < q.len() && q2[i] == q[m];
                    assert(q3[i] == q[m]);
                    if q3[i].text@ == text@ && q3[i].priority == priority {
                        assert(has_line(q, text@, priority));
                    }
                }
            }
        }
    }
}

/// An expression request: text, motion or both, with a priority; `D` is the
/// display duration, which the caller keeps (seconds in floating point).
#[derive(Debug)]
pub enum PetExpression<D> {
    Text { text: String, priority: Priority, duration: Option<D> },
    Motion { action: crate::behavior::PetAction, priority: Priority },
    TextAndMotion {
        text: String,
        action: crate::behavior::PetAction,
        priority: Priority,
        duration: Option<D>,
    },
}

impl<D> PetExpression<D> {
    /// The text, when there is one.
    pub fn text(&self) -> (r: Option<&str>)
        ensures
            match self {
                PetExpression::Text { text, .. } => r is Some && r->0@ == text@,
                PetExpression::TextAndMotion { text, .. } => r is Some && r->0@ == text@,
                PetExpression::Motion { .. } => r is None,
            },
    {
        match self {
            PetExpression::Text { text, .. } => Some(text.as_str()),
            PetExpression::TextAndMotion { text, .. } => Some(text.as_str()),
            PetExpression::Motion { .. } => None,
        }
    }

    /// The motion, when there is one.
    pub fn motion(&self) -> (r: Option<crate::behavior::PetAction>)
        ensures
            match self {
                PetExpression::Motion { action, .. } => r == Some(*action),
                PetExpression::TextAndMotion { action, .. } => r == Some(*action),
                PetExpression::Text { .. } => r is None,
            },
    {
        match self {
            PetExpression::Motion { action, .. } => Some(*action),
            PetExpression::TextAndMotion { action, .. } => Some(*action),
            PetExpression::Text { .. } => None,
        }
    }

    /// The display duration, when the expression has text and gives one.
    pub fn duration(&self) -> (r: Option<&D>)
        ensures
            match self {
                PetExpression::Text { duration, .. } => r == match duration {
                    Some(d) => Some(d),
                    None => None::<&D>,
                },
                PetExpression::TextAndMotion { duration, .. } => r == match duration {
                    Some(d) => Some(d),
                    None => None::<&D>,
                },
                PetExpression::Motion { .. } => r is None,
            },
    {
        match self {
            PetExpression::Text { duration, .. } => duration.as_ref(),
            PetExpression::TextAndMotion { duration, .. } => duration.as_ref(),
            PetExpression::Motion { .. } => None,
        }
    }

    /// The priority.
    pub fn priority(&self) -> (r: Priority)
        ensures
            match self {
                PetExpression::Text { priority, .. } => r == *priority,
                PetExpression::Motion { priority, .. } => r == *priority,
                PetExpression::TextAndMotion { priority, .. } => r == *priority,
            },
    {
        match self {
            PetExpression::Text { priority, .. } => *priority,
            PetExpression::Motion { priority, .. } => *priority,
            PetExpression::TextAndMotion { priority, .. } => *priority,
        }
    }
}

/// What presenting an expression asks of the caller besides the queue.
#[derive(Debug)]
pub struct Presented {
    /// The motion to play, if any.
    pub motion: Option<crate::behavior::PetAction>,
    /// A user-priority expression holds off idle lines for a while.
    pub suppress_idle: bool,
}

impl<D> SpeechQueue<Option<D>> {
    /// Offers the character's greeting, when it has one that is not empty, as
    /// a system line with the estimated duration.
    pub fn greet(&mut self, greeting: Option<String>)
        requires
            old(self).wf(),
        ensures
            final(self).wf(),
            match greeting {
                Some(g) => final(self)@ == spec_offer(
                    old(self)@,
                    Queued { text: g, priority: Priority::System, duration: None },
                ),
                None => final(self)@ == old(self)@,
            },
    {
        // An empty greeting is blank, which the queue does not take.
        if let Some(g) = greeting {
            self.offer(g, Priority::System, None);
        }
    }

    /// Presents an expression: its text (if any) is offered to the queue
    /// with its priority and duration; its motion is handed back, and a user
    /// priority asks to hold off idle lines.
    pub fn present(&mut self, expr: PetExpression<D>) -> (r: Presented)
        requires
            old(self).wf(),
        ensures
            final(self).wf(),
            match expr {
                PetExpression::Text { text, priority, duration } => final(self)@ == spec_offer(
                    old(self)@,
                    Queued { text, priority, duration },
                ) && r.motion is None && r.suppress_idle == (priority == Priority::User),
                PetExpression::Motion { action, priority } => final(self)@ == old(self)@
                    && r.motion == Some(action) && r.suppress_idle == (priority == Priority::User),
                PetExpression::TextAndMotion { text, action, priority, duration } => final(self)@
                    == spec_offer(old(self)@, Queued { text, priority, duration }) && r.motion
                    == Some(action) && r.suppress_idle == (priority == Priority::User),
            },
    {
        match expr {
            PetExpression::Text { text, priority, duration } => {
                let suppress_idle = priority.rank() >= 2;
                self.offer(text, priority, duration);
                Presented { motion: None, suppress_idle }
            },
            PetExpression::Motion { action, priority } => {
                let suppress_idle = priority.rank() >= 2;
                Presented { motion: Some(action), suppress_idle }
            },
            PetExpression::TextAndMotion { text, action, priority, duration } => {
                let suppress_idle = priority.rank() >= 2;
                self.offer(text, priority, duration);
                Presented { motion: Some(action), suppress_idle }
            },
        }
    }
}

/// Half-units of reading time: one per ASCII character, two per other.
pub open spec fn half_units(t: Seq<char>) -> nat
    decreases t.len(),
{
    if t.len() == 0 {
        0
    } else {
        half_units(t.drop_last()) + if (t.last() as u32) < 128 {
            1nat
        } else {
            2nat
        }
    }
}

/// Shortest and longest estimated display time, in milliseconds.
pub const MIN_DISPLAY_MS: u64 = 2000;
pub const MAX_DISPLAY_MS: u64 = 12000;

/// How long a line stays up when it names no duration: 1.5 s plus 0.1 s per
/// half-unit, between 2 and 12 seconds.
pub open spec fn spec_display_ms(t: Seq<char>) -> int {
    let d: int = 1500 + 100 * (half_units(t) as int);
    if d < MIN_DISPLAY_MS {
        MIN_DISPLAY_MS as int
    } else if d > MAX_DISPLAY_MS {
        MAX_DISPLAY_MS as int
    } else {
        d
    }
}

/// The display time of a line that names none, in milliseconds.
pub fn estimated_display_ms(text: &str) -> (r: u64)
    ensures
        r == spec_display_ms(text@),
{
    let v = crate::text::chars_of(text);
    let mut units: u64 = 0;
    let mut i: usize = 0;
    while i < v.len()
        invariant
            i <= v@.len(),
            units == if half_units(v@.take(i as int)) > 200 {
                201
            } else {
                half_units(v@.take(i as int))
            },
        decreases v@.len() - i,
    {
        let step: u64 = if (v[i] as u32) < 128 {
            1
        } else {
            2
        };
        proof {
            assert(v@.take(i + 1).drop_last() =~= v@.take(i as int));
        }
        units = if units + step > 200 {
            201
        } else {
            units + step
        };
        i = i + 1;
    }
    assert(v@.take(v@.len() as int) =~= v@);
    let d = 1500 + 100 * units;
    if d < MIN_DISPLAY_MS {
        MIN_DISPLAY_MS
    } else if d > MAX_DISPLAY_MS {
        MAX_DISPLAY_MS
    } else {
        d
    }
}

/// A rectangle in screen coordinates.
#[derive(Debug, Clone, Copy, PartialEq, Eq, Structural)]
pub struct Rect {
    pub left: i32,
    pub top: i32,
    pub right: i32,
    pub bottom: i32,
}

/// The work area assumed when the monitor's cannot be read.
pub open spec fn default_work_area() -> Rect {
    Rect { left: 0, top: 0, right: 1920, bottom: 1080 }
}

/// `v / 4` rounded toward zero, as integer division does in Rust.
pub open spec fn quarter(v: int) -> int {
    if v >= 0 {
        v / 4
    } else {
        -((-v) / 4)
    }
}

/// Every intermediate value of the placement fits in `i32`.
pub open spec fn placement_fits(pet: Rect, bw: i32, bh: i32, wa: Rect) -> bool {
    let pet_w = pet.right - pet.left;
    let pet_h = pet.bottom - pet.top;
    let x0 = pet.left + quarter(pet_w);
    let y_above = pet.top - bh - 8;
    let y_below = pet.top + pet_h + 8;
    let in_i32 = |v: int| i32::MIN <= v <= i32::MAX;
    &&& in_i32(pet_w)
    &&& in_i32(pet_h)
    &&& in_i32(x0)
    &&& in_i32(pet.top - bh)
    &&& in_i32(y_above)
    &&& in_i32(pet.top + pet_h)
    &&& in_i32(y_below)
    &&& in_i32(wa.right - bw)
    &&& in_i32(wa.right - bw - 4)
    &&& in_i32(wa.left + 4)
    &&& in_i32(wa.bottom - bh)
    &&& in_i32(wa.bottom - bh - 4)
    &&& in_i32(wa.top + 4)
    &&& in_i32(x0 + bw)
    &&& in_i32(wa.right - bw - 4 + bw)
    &&& in_i32(y_above + bh)
    &&& in_i32(y_below + bh)
}

/// Where the bubble of size `bw` x `bh` goes: above the pet a quarter in from
/// its left edge, below it when there is no room above, then pushed back inside
/// the work area `wa`.
pub open spec fn spec_place(pet: Rect, bw: i32, bh: i32, wa: Rect) -> (int, int) {
    let pet_w = pet.right - pet.left;
    let pet_h = pet.bottom - pet.top;
    let x0 = pet.left + quarter(pet_w);
    let y0 = pet.top - bh - 8;
    let y1 = if y0 < wa.top {
        pet.top + pet_h + 8
    } else {
        y0
    };
    let x1 = if x0 + bw > wa.right {
        wa.right - bw - 4
    } else {
        x0
    };
    let x2 = if x1 < wa.left {
        wa.left + 4
    } else {
        x1
    };
    let y2 = if y1 + bh > wa.bottom {
        wa.bottom - bh - 4
    } else {
        y1
    };
    let y3 = if y2 < wa.top {
        wa.top + 4
    } else {
        y2
    };
    (x2, y3)
}

/// Places the speech bubble next to the pet window.
pub fn compute_position(pet: Rect, bw: i32, bh: i32, work_area: Option<Rect>) -> (r: (i32, i32))
    requires
        placement_fits(
            pet,
            bw,
            bh,
            match work_area {
                Some(w) => w,
                None => default_work_area(),
            },
        ),
    ensures
        (r.0 as int, r.1 as int) == spec_place(
            pet,
            bw,
            bh,
            match work_area {
                Some(w) => w,
                None => default_work_area(),
            },
        ),
{
    let wa = match work_area {
        Some(w) => w,
        None => Rect { left: 0, top: 0, right: 1920, bottom: 1080 },
    };
    let pet_w = pet.right - pet.left;
    let pet_h = pet.bottom - pet.top;
    let mut x = pet.left + pet_w / 4;
    let mut y = pet.top - bh - 8;
    if y < wa.top {
        y = pet.top + pet_h + 8;
    }
    if x + bw > wa.right {
        x = wa.right - bw - 4;
    }
    if x < wa.left {
        x = wa.left + 4;
    }
    if y + bh > wa.bottom {
        y = wa.bottom - bh - 4;
    }
    if y < wa.top {
        y = wa.top + 4;
    }
    (x, y)
}

/// When the bubble fits the work area with a margin, the placement keeps it inside.
pub proof fn lemma_place_inside(pet: Rect, bw: i32, bh: i32, wa: Rect)
    requires
        0 <= bw,
        0 <= bh,
        wa.left + bw + 8 <= wa.right,
        wa.top + bh + 8 <= wa.bottom,
    ensures
        ({
            let (x, y) = spec_place(pet, bw, bh, wa);
            &&& wa.left <= x
            &&& x + bw <= wa.right
            &&& wa.top <= y
            &&& y + bh <= wa.bottom
        }),
{
}

} // verus!
