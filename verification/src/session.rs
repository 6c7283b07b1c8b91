//! The agent's input session: one request at a time, generation numbers that
//! tell the current reply from stale ones, and the conversation history that
//! only successful rounds enter.
//!
//! The window, the worker thread and the memory store are the caller's; it
//! reports each submission, each result and each cancellation here and acts
//! on what comes back.
use vstd::prelude::*;
use crate::conversation::{keep_last, msgs_view, ChatMessage, Conversation};
use crate::config::AgentConfig;
use crate::mapper::{spec_decide_motion, spec_truncate, truncate, truncate_for_bubble, Mapped};
use crate::speech::{sanitize, spec_sanitize};
use crate::text::trim;

verus! {

/// The agent's session state.
pub struct AgentSession {
    generation: u64,
    active_gen: Option<u64>,
    thinking: bool,
    pending_user: Option<(u64, String)>,
    last_reply: String,
    conv: Conversation,
}

/// Model of a session.
pub struct SessionModel {
    /// Generation of the latest submission.
    pub generation: u64,
    /// The submission whose reply is awaited, if any.
    pub active: Option<u64>,
    pub thinking: bool,
    /// The user text to record with the reply of that generation.
    pub pending: Option<(u64, Seq<char>)>,
    pub last_reply: Seq<char>,
    /// The conversation's kept turns.
    pub turns: Seq<(Seq<char>, Seq<char>)>,
    /// Rounds the conversation keeps.
    pub limit: nat,
}

impl View for AgentSession {
    type V = SessionModel;

    closed spec fn view(&self) -> SessionModel {
        SessionModel {
            generation: self.generation,
            active: self.active_gen,
            thinking: self.thinking,
            pending: match self.pending_user {
                Some((g, u)) => Some((g, u@)),
                None => None,
            },
            last_reply: self.last_reply@,
            turns: self.conv.spec_turns(),
            limit: self.conv.spec_limit(),
        }
    }
}

/// What to do with a result from the worker.
#[derive(Debug)]
pub enum ResultStep {
    /// Not the awaited generation (cancelled or replaced): drop it.
    Stale,
    /// The awaited reply: show and speak it.
    Reply(String),
    /// The awaited request failed.
    Failed(String),
}

/// The session after submitting `text`, when no request is awaited.
pub open spec fn spec_submit(m: SessionModel, text: Seq<char>) -> SessionModel {
    if m.thinking {
        m
    } else {
        let g = m.generation.wrapping_add(1);
        SessionModel {
            generation: g,
            active: Some(g),
            thinking: true,
            pending: Some((g, text)),
            ..m
        }
    }
}

/// The turns after a successful reply of generation `g`: the pending user
/// text of that generation and the reply, when there is one.
pub open spec fn turns_after_reply(m: SessionModel, g: u64, reply: Seq<char>) -> Seq<
    (Seq<char>, Seq<char>),
> {
    match m.pending {
        Some((pg, u)) => if pg == g {
            keep_last(
                keep_last(m.turns.push(("user"@, u)), 2 * m.limit).push(("assistant"@, reply)),
                2 * m.limit,
            )
        } else {
            m.turns
        },
        None => m.turns,
    }
}

/// The session after the worker's result for generation `g`.
pub open spec fn spec_on_result(m: SessionModel, g: u64, outcome: Result<Seq<char>, Seq<char>>) -> SessionModel {
    if m.active != Some(g) {
        m
    } else {
        match outcome {
            Ok(reply) => SessionModel {
                active: None,
                thinking: false,
                last_reply: reply,
                turns: turns_after_reply(m, g, reply),
                pending: match m.pending {
                    Some((pg, u)) => if pg == g {
                        None
                    } else {
                        m.pending
                    },
                    None => None,
                },
                ..m
            },
            Err(_) => SessionModel {
                active: None,
                thinking: false,
                last_reply: Seq::empty(),
                ..m
            },
        }
    }
}

/// The session after a cancellation.
pub open spec fn spec_cancel(m: SessionModel) -> SessionModel {
    SessionModel { active: None, thinking: false, pending: None, ..m }
}

/// The view of a worker outcome.
pub open spec fn outcome_text(o: Result<String, String>) -> Result<Seq<char>, Seq<char>> {
    match o {
        Ok(s) => Ok(s@),
        Err(e) => Err(e@),
    }
}

impl AgentSession {
    /// A session over `conv`, nothing submitted yet.
    pub fn new(conv: Conversation) -> (r: AgentSession)
        ensures
            r@.generation == 0,
            r@.active is None,
            !r@.thinking,
            r@.pending is None,
            r@.last_reply == Seq::<char>::empty(),
            r@.turns == conv.spec_turns(),
            r@.limit == conv.spec_limit(),
    {
        AgentSession {
            generation: 0,
            active_gen: None,
            thinking: false,
            pending_user: None,
            last_reply: String::new(),
            conv,
        }
    }

    /// A reply is awaited.
    pub fn is_thinking(&self) -> (r: bool)
        ensures
            r == self@.thinking,
    {
        self.thinking
    }

    /// The last reply received (empty after a failure).
    pub fn last_reply(&self) -> (r: &str)
        ensures
            r@ == self@.last_reply,
    {
        self.last_reply.as_str()
    }

    /// The conversation's kept turns, to build the next prompt from.
    pub fn history(&self) -> (r: Vec<ChatMessage>)
        ensures
            msgs_view(r@) == self@.turns,
    {
        self.conv.history()
    }

    /// Submits `text`: ignored (`None`) while a reply is awaited; otherwise a
    /// new generation is awaited and returned, for the caller to send with
    /// the request.
    pub fn submit(&mut self, text: &str) -> (r: Option<u64>)
        ensures
            final(self)@ == spec_submit(old(self)@, text@),
            old(self)@.thinking ==> r is None,
            !old(self)@.thinking ==> r == Some(final(self)@.generation),
    {
        if self.thinking {
            return None;
        }
        let g = self.generation.wrapping_add(1);
        self.generation = g;
        self.active_gen = Some(g);
        self.thinking = true;
        self.pending_user = Some((g, String::from_str(text)));
        Some(g)
    }

    /// The worker did not take the request: nothing is awaited any more.
    pub fn submit_failed(&mut self)
        ensures
            final(self)@ == (SessionModel { active: None, thinking: false, ..old(self)@ }),
    {
        self.thinking = false;
        self.active_gen = None;
    }

    /// The worker's result for generation `g`. Only the awaited generation is
    /// used; a successful reply records the round (user text, then reply).
    pub fn on_result(&mut self, g: u64, outcome: Result<String, String>) -> (r: ResultStep)
        requires
            old(self)@.active == Some(g) && outcome is Ok && (old(self)@.pending matches Some(
                (pg, _),
            ) && pg == g) ==> 2 * old(self)@.limit <= usize::MAX,
        ensures
            final(self)@ == spec_on_result(old(self)@, g, outcome_text(outcome)),
            old(self)@.active != Some(g) ==> r is Stale,
            old(self)@.active == Some(g) ==> match outcome {
                Ok(reply) => r is Reply && r->Reply_0@ == reply@,
                Err(e) => r is Failed && r->Failed_0@ == e@,
            },
    {
        if self.active_gen != Some(g) {
            return ResultStep::Stale;
        }
        self.thinking = false;
        self.active_gen = None;
        match outcome {
            Ok(reply) => {
                self.last_reply = reply.clone();
                let pending = self.pending_user.take();
                match pending {
                    Some((pg, u)) => {
                        if pg == g {
                            self.conv.push_user(u.as_str());
                            self.conv.push_assistant(reply.as_str());
                        } else {
                            self.pending_user = Some((pg, u));
                        }
                    },
                    None => {},
                }
                ResultStep::Reply(reply)
            },
            Err(e) => {
                self.last_reply = String::new();
                ResultStep::Failed(e)
            },
        }
    }

    /// Cancels the awaited request: its result will be dropped.
    pub fn cancel(&mut self)
        ensures
            final(self)@ == spec_cancel(old(self)@),
    {
        self.active_gen = None;
        self.thinking = false;
        self.pending_user = None;
    }

    /// Forgets the conversation (short-term history only).
    pub fn clear(&mut self)
        ensures
            final(self)@ == (SessionModel { pending: None, turns: Seq::empty(), ..old(self)@ }),
    {
        self.conv.clear();
        self.pending_user = None;
        assert(self.conv.spec_turns() =~= Seq::empty());
    }
}

/// What the pet shows and says for a reply.
#[derive(Debug)]
pub struct ReplyOutput {
    /// Bubble text and motion.
    pub bubble: Mapped,
    /// Text for speech, no longer than the bubble text's length in bytes.
    pub speech: String,
}

/// A reply's bubble text: line breaks made spaces, trimmed, at most this many
/// characters before the ellipsis.
pub const BUBBLE_CHARS: usize = 80;

/// Turns a reply into the bubble's text and motion and the text to speak.
pub fn present_reply(reply: &str) -> (r: ReplyOutput)
    ensures
        r.bubble.text@ == trim(spec_truncate(reply@, BUBBLE_CHARS as nat, true)),
        r.bubble.motion == spec_decide_motion(trim(spec_truncate(reply@, BUBBLE_CHARS as nat, true))),
        r.bubble.priority == crate::protocol::Priority::Normal,
        ({
            let bytes = (vstd::utf8::encode_utf8(r.bubble.text@).len() as usize) as nat;
            r.speech@ == spec_sanitize(reply@, if bytes == 0 { 1 } else { bytes })
        }),
{
    let bubble_text = truncate(reply, BUBBLE_CHARS);
    let bubble = crate::mapper::map(bubble_text.as_str());
    let n = bubble.text.as_str().len();
    let limit = if n == 0 {
        1
    } else {
        n
    };
    let speech = sanitize(reply, limit);
    ReplyOutput { bubble, speech }
}

/// The text sent to the pet when the provider fails: an ellipsis, no error
/// details.
pub open spec fn failure_text() -> Seq<char> {
    "……"@
}

/// One turn of the console chat, once the provider has answered: a reply is
/// recorded (user text, then reply) and shown as a bubble of at most
/// `bubble_max_chars` characters with the motion that the rules give; a
/// failure records nothing and shows an ellipsis. The result is what to send
/// to the pet.
pub fn chat_turn(
    conv: &mut Conversation,
    cfg: &AgentConfig,
    user_text: &str,
    outcome: Result<String, String>,
) -> (r: Mapped)
    requires
        outcome is Ok ==> 2 * old(conv).spec_limit() <= usize::MAX,
    ensures
        final(conv).spec_limit() == old(conv).spec_limit(),
        final(conv).spec_system() == old(conv).spec_system(),
        r.priority == crate::protocol::Priority::Normal,
        match outcome {
            Err(_) => {
                &&& final(conv).spec_turns() == old(conv).spec_turns()
                &&& r.text@ == failure_text()
                &&& r.motion is None
            },
            Ok(reply) => {
                let bubble = trim(spec_truncate(reply@, cfg.bubble_max_chars as nat, false));
                &&& final(conv).spec_turns() == keep_last(
                    keep_last(old(conv).spec_turns().push(("user"@, user_text@)), 2 * old(conv).spec_limit()).push(
                        ("assistant"@, reply@),
                    ),
                    2 * old(conv).spec_limit(),
                )
                &&& r.text@ == bubble
                &&& r.motion == spec_decide_motion(bubble)
            },
        },
{
    match outcome {
        Err(_) => Mapped {
            text: String::from_str("……"),
            motion: None,
            priority: crate::protocol::Priority::Normal,
        },
        Ok(reply) => {
            conv.push_user(user_text);
            conv.push_assistant(reply.as_str());
            let bubble = truncate_for_bubble(reply.as_str(), cfg.bubble_max_chars);
            crate::mapper::map(bubble.as_str())
        },
    }
}

/// A cancelled request's reply is never used: after a cancellation, the
/// result of the generation that was awaited changes nothing.
pub proof fn lemma_cancelled_result_dropped(
    m: SessionModel,
    g: u64,
    outcome: Result<Seq<char>, Seq<char>>,
)
    ensures
        spec_on_result(spec_cancel(m), g, outcome) == spec_cancel(m),
{
}

/// A submitted round enters the history only with its reply: submitting then
/// receiving the reply of that generation records the user text and then
/// the reply as the newest turns.
pub proof fn lemma_round_recorded(m: SessionModel, text: Seq<char>, reply: Seq<char>)
    requires
        !m.thinking,
        m.limit >= 1,
        m.turns.len() <= 2 * m.limit,
    ensures
        ({
            let s = spec_submit(m, text);
            let t = spec_on_result(s, s.generation, Ok(reply));
            &&& t.turns.len() <= 2 * m.limit
            &&& t.turns.last() == ("assistant"@, reply)
            &&& t.turns[t.turns.len() - 2] == ("user"@, text)
            &&& !t.thinking
            &&& t.active is None
        }),
{
    let s = spec_submit(m, text);
    let a = keep_last(m.turns.push(("user"@, text)), 2 * m.limit);
    let b = a.push(("assistant"@, reply));
    assert(a.last() == ("user"@, text)) by {
        let t0 = m.turns.push(("user"@, text));
        if t0.len() > 2 * m.limit {
            assert(t0.skip(t0.len() - 2 * m.limit).last() == t0.last());
        }
    }
    assert(a.len() <= 2 * m.limit);
    assert(a.len() >= 1);
    if b.len() > 2 * m.limit {
        let k = keep_last(b, 2 * m.limit);
        assert(k == b.skip(b.len() - 2 * m.limit));
        assert(k.last() == b.last());
        assert(k[k.len() - 2] == b[b.len() - 2]);
    }
}

/// A failed request leaves the history as it was.
pub proof fn lemma_failure_keeps_history(m: SessionModel, g: u64, e: Seq<char>)
    ensures
        spec_on_result(m, g, Err(e)).turns == m.turns,
{
}

/// A reply that comes back after its request was cancelled and a new one
/// submitted is dropped: only the newest generation is awaited.
pub proof fn lemma_stale_after_resubmit(
    m: SessionModel,
    text: Seq<char>,
    outcome: Result<Seq<char>, Seq<char>>,
)
    requires
        m.active == Some(m.generation),
        m.generation < u64::MAX,
    ensures
        ({
            let s = spec_submit(spec_cancel(m), text);
            spec_on_result(s, m.generation, outcome) == s
        }),
{
}

} // verus!
