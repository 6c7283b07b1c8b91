//! Behavior layer: input events become semantic actions, scheduled one at a time.
//!
//! The scheduler keeps a queue of user actions with priorities, lets control
//! actions (reset position, quit) jump the queue and preempt, tracks the running
//! action until the model reports it finished, and tells its caller when the pet
//! is idle. The frame timers (cooldown, blink and random intervals, start grace)
//! are seconds in floating point and stay with the caller, which hands their
//! outcome in as booleans.
use vstd::prelude::*;
use std::collections::VecDeque;

verus! {

/// Semantic events collected by the window layer.
#[derive(Debug, Clone)]
pub enum PetEvent {
    PointerEnter,
    PointerLeave,
    LeftClick,
    DoubleClick,
    DragStart,
    DragEnd,
    RightClick,
    MenuNod,
    MenuShake,
    MenuReset,
    MenuQuit,
    /// Tray: show a test bubble (handled by the application, not by behavior).
    MenuTestBubble,
    /// Tray: switch to the character with this id (handled by the application).
    TraySwitchCharacter(String),
}

/// Semantic actions, independent of any motion group.
#[derive(Debug, Clone, Copy, PartialEq, Eq, Structural)]
pub enum PetAction {
    Idle,
    Blink,
    Nod,
    Shake,
    ResetPosition,
    Quit,
}

/// Per-frame context that the caller reads from the model and the window.
#[derive(Debug, Clone, Copy)]
pub struct TickContext {
    /// A non-idle motion is playing.
    pub is_motion_busy: bool,
    /// Dragging or a menu is open: only control actions may start.
    pub interaction_blocked: bool,
}

/// Priority of a single click or a menu nod.
pub const PRI_NORMAL: i32 = 2;

/// Priority of a double click or a menu shake.
pub const PRI_FORCE: i32 = 3;

/// Priority of control actions.
pub const PRI_CONTROL: i32 = 10;

/// Priority recorded for idle actions.
pub const PRI_IDLE: i32 = 2;

/// Most entries the queue takes from user actions.
pub const MAX_QUEUE: usize = 8;

impl PetAction {
    /// The action's name, which is also its default motion group.
    pub open spec fn spec_name(&self) -> Seq<char> {
        match self {
            PetAction::Idle => "Idle"@,
            PetAction::Blink => "Blink"@,
            PetAction::Nod => "Nod"@,
            PetAction::Shake => "Shake"@,
            PetAction::ResetPosition => "ResetPosition"@,
            PetAction::Quit => "Quit"@,
        }
    }

    /// The action's name.
    pub fn name(&self) -> (r: &'static str)
        ensures
            r@ == self.spec_name(),
    {
        match self {
            PetAction::Idle => "Idle",
            PetAction::Blink => "Blink",
            PetAction::Nod => "Nod",
            PetAction::Shake => "Shake",
            PetAction::ResetPosition => "ResetPosition",
            PetAction::Quit => "Quit",
        }
    }

    /// Control actions (reset position, quit) bypass interaction blocking.
    pub open spec fn spec_is_control(&self) -> bool {
        *self == PetAction::ResetPosition || *self == PetAction::Quit
    }

    /// Whether this is a control action.
    pub fn is_control(&self) -> (r: bool)
        ensures
            r == self.spec_is_control(),
    {
        match self {
            PetAction::ResetPosition | PetAction::Quit => true,
            _ => false,
        }
    }
}

/// The action and priority that an event asks for, if any.
pub open spec fn event_action(ev: PetEvent) -> Option<(PetAction, i32)> {
    match ev {
        PetEvent::LeftClick => Some((PetAction::Nod, PRI_NORMAL)),
        PetEvent::DoubleClick => Some((PetAction::Shake, PRI_FORCE)),
        PetEvent::MenuNod => Some((PetAction::Nod, PRI_NORMAL)),
        PetEvent::MenuShake => Some((PetAction::Shake, PRI_FORCE)),
        PetEvent::MenuReset => Some((PetAction::ResetPosition, PRI_CONTROL)),
        PetEvent::MenuQuit => Some((PetAction::Quit, PRI_CONTROL)),
        _ => None,
    }
}

/// `q` holds an entry for action `a`.
pub open spec fn queued(q: Seq<(PetAction, i32)>, a: PetAction) -> bool {
    exists|i: int| 0 <= i < q.len() && q[i].0 == a
}

/// The queue after asking for `a` with priority `p`: control actions go to the
/// front; others are dropped when already queued or when the queue is full, and
/// otherwise go to the back.
pub open spec fn spec_enqueue(q: Seq<(PetAction, i32)>, a: PetAction, p: i32) -> Seq<
    (PetAction, i32),
> {
    if a.spec_is_control() {
        seq![(a, p)] + q
    } else if queued(q, a) {
        q
    } else if q.len() >= MAX_QUEUE {
        q
    } else {
        q.push((a, p))
    }
}

/// Index of the entry that `max_by_key` on the priority picks: the last of the
/// entries with the greatest priority.
pub open spec fn best_index(q: Seq<(PetAction, i32)>) -> int
    decreases q.len(),
{
    if q.len() <= 1 {
        0
    } else {
        let i = best_index(q.drop_last());
        if q.last().1 >= q[i].1 {
            q.len() - 1
        } else {
            i
        }
    }
}

/// Number of entries of `q` that are not control actions.
pub open spec fn user_entries(q: Seq<(PetAction, i32)>) -> nat
    decreases q.len(),
{
    if q.len() == 0 {
        0
    } else {
        user_entries(q.drop_last()) + if q.last().0.spec_is_control() {
            0nat
        } else {
            1nat
        }
    }
}

/// Control actions form a prefix of the queue, user actions are not repeated
/// and there are at most `MAX_QUEUE` of them.
pub open spec fn queue_wf(q: Seq<(PetAction, i32)>) -> bool {
    &&& forall|i: int, j: int|
        0 <= i < j < q.len() && q[j].0.spec_is_control() ==> #[trigger] q[i].0.spec_is_control()
            && #[trigger] q[j].0.spec_is_control()
    &&& forall|i: int, j: int|
        0 <= i < j < q.len() && !q[i].0.spec_is_control() ==> #[trigger] q[i].0 != #[trigger] q[j].0
    &&& user_entries(q) <= MAX_QUEUE
}

/// The user-action queue.
pub struct ActionQueue {
    queue: VecDeque<(PetAction, i32)>,
}

impl View for ActionQueue {
    type V = Seq<(PetAction, i32)>;

    closed spec fn view(&self) -> Seq<(PetAction, i32)> {
        self.queue@
    }
}

proof fn lemma_user_entries_bound(q: Seq<(PetAction, i32)>)
    ensures
        user_entries(q) <= q.len(),
    decreases q.len(),
{
    if q.len() > 0 {
        lemma_user_entries_bound(q.drop_last());
    }
}

proof fn lemma_user_entries_push(q: Seq<(PetAction, i32)>, e: (PetAction, i32))
    ensures
        user_entries(q.push(e)) == user_entries(q) + if e.0.spec_is_control() {
            0nat
        } else {
            1nat
        },
{
    assert(q.push(e).drop_last() == q);
}

proof fn lemma_user_entries_front(q: Seq<(PetAction, i32)>, e: (PetAction, i32))
    ensures
        user_entries(seq![e] + q) == user_entries(q) + if e.0.spec_is_control() {
            0nat
        } else {
            1nat
        },
    decreases q.len(),
{
    if q.len() > 0 {
        lemma_user_entries_front(q.drop_last(), e);
        assert((seq![e] + q).drop_last() == seq![e] + q.drop_last());
        assert((seq![e] + q).last() == q.last());
    } else {
        assert(seq![e] + q == seq![e]);
        assert(seq![e].drop_last() == Seq::<(PetAction, i32)>::empty());
        assert(seq![e].last() == e);
        assert(user_entries(seq![e].drop_last()) == 0);
    }
}

proof fn lemma_user_entries_remove(q: Seq<(PetAction, i32)>, k: int)
    requires
        0 <= k < q.len(),
    ensures
        user_entries(q) == user_entries(q.remove(k)) + if q[k].0.spec_is_control() {
            0nat
        } else {
            1nat
        },
    decreases q.len(),
{
    if k < q.len() - 1 {
        lemma_user_entries_remove(q.drop_last(), k);
        assert(q.remove(k).drop_last() == q.drop_last().remove(k));
        assert(q.remove(k).last() == q.last());
    } else {
        assert(q.remove(k) == q.drop_last());
    }
}

proof fn lemma_best_index_bounds(q: Seq<(PetAction, i32)>)
    requires
        q.len() > 0,
    ensures
        0 <= best_index(q) < q.len(),
        forall|j: int| 0 <= j < q.len() ==> #[trigger] q[j].1 <= q[best_index(q)].1,
        forall|j: int| best_index(q) < j < q.len() ==> #[trigger] q[j].1 < q[best_index(q)].1,
    decreases q.len(),
{
    if q.len() > 1 {
        let p = q.drop_last();
        lemma_best_index_bounds(p);
        assert forall|j: int| 0 <= j < q.len() - 1 implies #[trigger] q[j].1 == p[j].1 by {}
    }
}

impl ActionQueue {
    /// The queue's invariant: control actions first, no user action twice,
    /// at most `MAX_QUEUE` user actions.
    pub open spec fn wf(&self) -> bool {
        queue_wf(self@)
    }

    /// An empty queue.
    pub fn new() -> (r: ActionQueue)
        ensures
            r@ == Seq::<(PetAction, i32)>::empty(),
            r.wf(),
    {
        ActionQueue { queue: VecDeque::new() }
    }

    /// Number of queued entries.
    pub fn len(&self) -> (n: usize)
        ensures
            n == self@.len(),
    {
        self.queue.len()
    }

    /// Queues `action` as `spec_enqueue` says.
    pub fn enqueue(&mut self, action: PetAction, priority: i32)
        requires
            old(self).wf(),
        ensures
            final(self)@ == spec_enqueue(old(self)@, action, priority),
            final(self).wf(),
    {
        let ghost q = self.queue@;
        if action.is_control() {
            self.queue.push_front((action, priority));
            proof {
                lemma_user_entries_front(q, (action, priority));
                let q2 = self.queue@;
                assert forall|i: int, j: int|
                    0 <= i < j < q2.len() && !q2[i].0.spec_is_control() implies #[trigger] q2[i].0
                    != #[trigger] q2[j].0 by {
                    assert(q2[i] == q[i - 1]);
                    assert(q2[j] == q[j - 1]);
                }
                assert forall|i: int, j: int|
                    0 <= i < j < q2.len() && q2[j].0.spec_is_control() implies #[trigger] q2[i].0.spec_is_control()
                    && #[trigger] q2[j].0.spec_is_control() by {
                    if i > 0 {
                        assert(q2[i] == q[i - 1]);
                        assert(q2[j] == q[j - 1]);
                    }
                }
            }
            return;
        }
        let n = self.queue.len();
        let mut i: usize = 0;
        while i < n
            invariant
                n == q.len(),
                self.queue@ == q,
                old(self)@ == q,
                queue_wf(q),
                !action.spec_is_control(),
                i <= n,
                forall|k: int| 0 <= k < i ==> q[k].0 != action,
            decreases n - i,
        {
            if self.queue[i].0 == action {
                assert(q[i as int].0 == action);
                assert(queued(q, action));
                return;
            }
            i = i + 1;
        }
        assert(!queued(q, action));
        if self.queue.len() >= MAX_QUEUE {
            return;
        }
        self.queue.push_back((action, priority));
        proof {
            lemma_user_entries_push(q, (action, priority));
            lemma_user_entries_bound(q);
            let q2 = self.queue@;
            assert forall|i: int, j: int|
                0 <= i < j < q2.len() && !q2[i].0.spec_is_control() implies #[trigger] q2[i].0
                != #[trigger] q2[j].0 by {
                if j == q.len() {
                    assert(q2[i] == q[i]);
                }
            }
        }
    }

    /// Queues the action that an event asks for (clicks and menu entries).
    pub fn handle(&mut self, ev: &PetEvent)
        requires
            old(self).wf(),
        ensures
            final(self).wf(),
            final(self)@ == match event_action(*ev) {
                Some((a, p)) => spec_enqueue(old(self)@, a, p),
                None => old(self)@,
            },
    {
        match ev {
            PetEvent::LeftClick => self.enqueue(PetAction::Nod, PRI_NORMAL),
            PetEvent::DoubleClick => self.enqueue(PetAction::Shake, PRI_FORCE),
            PetEvent::MenuNod => self.enqueue(PetAction::Nod, PRI_NORMAL),
            PetEvent::MenuShake => self.enqueue(PetAction::Shake, PRI_FORCE),
            PetEvent::MenuReset => self.enqueue(PetAction::ResetPosition, PRI_CONTROL),
            PetEvent::MenuQuit => self.enqueue(PetAction::Quit, PRI_CONTROL),
            _ => {},
        }
    }

    /// Takes the front entry when it is a control action.
    pub fn take_control(&mut self) -> (r: Option<PetAction>)
        requires
            old(self).wf(),
        ensures
            final(self).wf(),
            old(self)@.len() > 0 && old(self)@[0].0.spec_is_control() ==> r == Some(
                old(self)@[0].0,
            ),
            old(self)@.len() > 0 && old(self)@[0].0.spec_is_control() ==> final(self)@ == old(
                self,
            )@.drop_first(),
            !(old(self)@.len() > 0 && old(self)@[0].0.spec_is_control()) ==> r is None
                && final(self)@ == old(self)@,
    {
        let ghost q = self.queue@;
        if self.queue.len() > 0 && self.queue[0].0.is_control() {
            let e = self.queue.pop_front();
            proof {
                lemma_user_entries_front(q.drop_first(), q[0]);
                assert(seq![q[0]] + q.drop_first() == q);
                let q2 = self.queue@;
                assert(q2 == q.drop_first());
                assert forall|i: int, j: int|
                    0 <= i < j < q2.len() && !q2[i].0.spec_is_control() implies #[trigger] q2[i].0
                    != #[trigger] q2[j].0 by {
                    assert(q2[i] == q[i + 1]);
                    assert(q2[j] == q[j + 1]);
                }
                assert forall|i: int, j: int|
                    0 <= i < j < q2.len() && q2[j].0.spec_is_control() implies #[trigger] q2[i].0.spec_is_control()
                    && #[trigger] q2[j].0.spec_is_control() by {
                    assert(q2[i] == q[i + 1]);
                    assert(q2[j] == q[j + 1]);
                }
            }
            match e {
                Some((a, _)) => Some(a),
                None => None,
            }
        } else {
            None
        }
    }

    /// Removes and returns the entry with the greatest priority (the last such one).
    pub fn take_best(&mut self) -> (r: Option<(PetAction, i32)>)
        requires
            old(self).wf(),
        ensures
            final(self).wf(),
            old(self)@.len() == 0 ==> r is None && final(self)@ == old(self)@,
            old(self)@.len() > 0 ==> r == Some(old(self)@[best_index(old(self)@)]),
            old(self)@.len() > 0 ==> final(self)@ == old(self)@.remove(best_index(old(self)@)),
    {
        let ghost q = self.queue@;
        let n = self.queue.len();
        if n == 0 {
            return None;
        }
        let mut best: usize = 0;
        let mut i: usize = 1;
        while i < n
            invariant
                n == q.len(),
                self.queue@ == q,
                1 <= i <= n,
                best < i,
                best == best_index(q.take(i as int)),
            decreases n - i,
        {
            proof {
                let t = q.take(i + 1);
                assert(t.drop_last() == q.take(i as int));
                assert(t.last() == q[i as int]);
                assert(q.take(i as int)[best as int] == q[best as int]);
            }
            if self.queue[i].1 >= self.queue[best].1 {
                best = i;
            }
            i = i + 1;
        }
        assert(q.take(n as int) == q);
        let e = self.queue.remove(best);
        proof {
            lemma_user_entries_remove(q, best as int);
            let q2 = self.queue@;
            assert(q2 == q.remove(best as int));
            assert forall|a: int, b: int|
                0 <= a < b < q2.len() && !q2[a].0.spec_is_control() implies #[trigger] q2[a].0
                != #[trigger] q2[b].0 by {
                let a0 = if a < best { a } else { a + 1 };
                let b0 = if b < best { b } else { b + 1 };
                assert(q2[a] == q[a0]);
                assert(q2[b] == q[b0]);
            }
            assert forall|a: int, b: int|
                0 <= a < b < q2.len() && q2[b].0.spec_is_control() implies #[trigger] q2[a].0.spec_is_control()
                && #[trigger] q2[b].0.spec_is_control() by {
                let a0 = if a < best { a } else { a + 1 };
                let b0 = if b < best { b } else { b + 1 };
                assert(q2[a] == q[a0]);
                assert(q2[b] == q[b0]);
            }
        }
        e
    }
}

/// What the queue decides for a frame.
#[derive(Debug, Clone, Copy, PartialEq, Eq, Structural)]
pub enum QueueDecision {
    /// Start this control action now; it does not become the running action.
    Control(PetAction),
    /// Start this user action now; it becomes the running action.
    Start(PetAction),
    /// Nothing starts this frame.
    Wait,
    /// Nothing is queued or running and nothing blocks: idle behavior may run.
    Idle,
}

/// The running action: what it is, its priority, and whether the model has
/// been seen busy since it started.
#[derive(Debug, Clone, Copy)]
pub struct Running {
    pub action: PetAction,
    pub priority: i32,
    pub seen_busy: bool,
}

/// Scheduler state: the queue and the running action.
pub struct Scheduler {
    pub queue: ActionQueue,
    pub current: Option<Running>,
}

/// The running action after a frame's busy report: `None` when it finished
/// (it was seen busy and is not any more, or it never became busy within the
/// start grace), and whether it finished.
pub open spec fn spec_observe(cur: Option<Running>, busy: bool, grace_expired: bool) -> (
    Option<Running>,
    bool,
) {
    match cur {
        None => (None, false),
        Some(run) => if busy {
            (Some(Running { seen_busy: true, ..run }), false)
        } else if run.seen_busy || grace_expired {
            (None, true)
        } else {
            (Some(run), false)
        },
    }
}

impl Scheduler {
    /// Nothing queued, nothing running.
    pub fn new() -> (r: Scheduler)
        ensures
            r.queue@ == Seq::<(PetAction, i32)>::empty(),
            r.queue.wf(),
            r.current is None,
    {
        Scheduler { queue: ActionQueue::new(), current: None }
    }

    /// Queues what an input event asks for.
    pub fn handle(&mut self, ev: &PetEvent)
        requires
            old(self).queue.wf(),
        ensures
            final(self).queue.wf(),
            final(self).current == old(self).current,
            final(self).queue@ == match event_action(*ev) {
                Some((a, p)) => spec_enqueue(old(self).queue@, a, p),
                None => old(self).queue@,
            },
    {
        self.queue.handle(ev);
    }

    /// Completion detection for the running action. Returns whether it
    /// finished this frame (the caller then starts the cooldown).
    pub fn observe(&mut self, busy: bool, grace_expired: bool) -> (finished: bool)
        ensures
            (final(self).current, finished) == spec_observe(old(self).current, busy, grace_expired),
            final(self).queue == old(self).queue,
    {
        match self.current {
            None => false,
            Some(run) => {
                if busy {
                    self.current = Some(Running { seen_busy: true, ..run });
                    false
                } else if run.seen_busy || grace_expired {
                    self.current = None;
                    true
                } else {
                    false
                }
            },
        }
    }

    /// What starts this frame from the queue. Control actions at the front are
    /// taken in every situation; while blocked or while an action runs nothing
    /// else starts; otherwise the queued action with the greatest priority
    /// starts and becomes the running action, and an empty queue leaves the
    /// pet idle.
    pub fn next(&mut self, blocked: bool) -> (d: QueueDecision)
        requires
            old(self).queue.wf(),
        ensures
            final(self).queue.wf(),
            ({
                let q = old(self).queue@;
                let front_control = q.len() > 0 && q[0].0.spec_is_control();
                if front_control {
                    &&& d == QueueDecision::Control(q[0].0)
                    &&& final(self).queue@ == q.drop_first()
                    &&& final(self).current == old(self).current
                } else if blocked || old(self).current is Some {
                    &&& d == QueueDecision::Wait
                    &&& final(self).queue@ == q
                    &&& final(self).current == old(self).current
                } else if q.len() > 0 {
                    let e = q[best_index(q)];
                    &&& d == QueueDecision::Start(e.0)
                    &&& final(self).queue@ == q.remove(best_index(q))
                    &&& final(self).current == Some(
                        Running { action: e.0, priority: e.1, seen_busy: false },
                    )
                } else {
                    &&& d == QueueDecision::Idle
                    &&& final(self).queue@ == q
                    &&& final(self).current == old(self).current
                }
            }),
    {
        if let Some(a) = self.queue.take_control() {
            return QueueDecision::Control(a);
        }
        if blocked || self.current.is_some() {
            return QueueDecision::Wait;
        }
        match self.queue.take_best() {
            Some((action, priority)) => {
                self.current = Some(Running { action, priority, seen_busy: false });
                QueueDecision::Start(action)
            },
            None => QueueDecision::Idle,
        }
    }

    /// Records an idle action (blink or random motion) as the running action.
    pub fn start_idle(&mut self, action: PetAction)
        ensures
            final(self).current == Some(
                Running { action, priority: PRI_IDLE, seen_busy: false },
            ),
            final(self).queue == old(self).queue,
    {
        self.current = Some(Running { action, priority: PRI_IDLE, seen_busy: false });
    }
}

/// A control action (reset position, quit) goes to the front of the queue,
/// ahead of everything waiting, and is never dropped.
pub proof fn lemma_enqueue_control_first(q: Seq<(PetAction, i32)>, a: PetAction, p: i32)
    requires
        a.spec_is_control(),
    ensures
        spec_enqueue(q, a, p)[0] == (a, p),
        spec_enqueue(q, a, p).len() == q.len() + 1,
{
}

/// Asking again for a user action that is already queued changes nothing.
pub proof fn lemma_enqueue_dedup(q: Seq<(PetAction, i32)>, a: PetAction, p: i32)
    requires
        !a.spec_is_control(),
        queued(q, a),
    ensures
        spec_enqueue(q, a, p) == q,
{
}

} // verus!
