//! Short conversation context for the agent: a system prompt and the latest
//! rounds of user and assistant messages.
use vstd::prelude::*;
use crate::config::AgentConfig;

verus! {

/// One chat message: its role ("system", "user" or "assistant") and content.
#[derive(Debug, Clone)]
pub struct ChatMessage {
    pub role: &'static str,
    pub content: String,
}

/// A message as a pair of role and content.
pub open spec fn msg_view(m: ChatMessage) -> (Seq<char>, Seq<char>) {
    (m.role@, m.content@)
}

/// Messages as pairs of role and content.
pub open spec fn msgs_view(ms: Seq<ChatMessage>) -> Seq<(Seq<char>, Seq<char>)> {
    ms.map_values(|m: ChatMessage| msg_view(m))
}

pub(crate) proof fn lemma_msgs_push(ms: Seq<ChatMessage>, m: ChatMessage)
    ensures
        msgs_view(ms.push(m)) == msgs_view(ms).push(msg_view(m)),
{
    assert(msgs_view(ms.push(m)) =~= msgs_view(ms).push(msg_view(m)));
}

/// The conversation: system prompt, how many rounds to keep, and the turns kept.
pub struct Conversation {
    system_prompt: String,
    history_limit: usize,
    turns: Vec<ChatMessage>,
}

/// `turns` after dropping the oldest ones beyond `max`.
pub open spec fn keep_last(turns: Seq<(Seq<char>, Seq<char>)>, max: nat) -> Seq<(Seq<char>, Seq<char>)> {
    if turns.len() > max {
        turns.skip(turns.len() - max)
    } else {
        turns
    }
}

/// A role that a kept turn may have.
pub open spec fn turn_role(r: Seq<char>) -> bool {
    r == "user"@ || r == "assistant"@
}

/// What every conversation keeps to: at least one round, at most `2 * limit`
/// turns, each a user or an assistant message.
pub open spec fn turns_ok(turns: Seq<(Seq<char>, Seq<char>)>, limit: nat) -> bool {
    &&& limit >= 1
    &&& turns.len() <= 2 * limit
    &&& forall|i: int| 0 <= i < turns.len() ==> turn_role(#[trigger] turns[i].0)
}

impl Conversation {
    #[verifier::type_invariant]
    spec fn inv(self) -> bool {
        turns_ok(msgs_view(self.turns@), self.history_limit as nat)
    }

    /// The system prompt.
    pub closed spec fn spec_system(&self) -> Seq<char> {
        self.system_prompt@
    }

    /// Rounds kept (a round is a user and an assistant message).
    pub closed spec fn spec_limit(&self) -> nat {
        self.history_limit as nat
    }

    /// The kept turns, oldest first.
    pub closed spec fn spec_turns(&self) -> Seq<(Seq<char>, Seq<char>)> {
        msgs_view(self.turns@)
    }

    /// An empty conversation with the configured prompt; the limit is at least one round.
    pub fn new(cfg: &AgentConfig) -> (r: Conversation)
        ensures
            r.spec_system() == cfg.system_prompt@,
            r.spec_limit() == if cfg.history_limit >= 1 {
                cfg.history_limit as nat
            } else {
                1nat
            },
            r.spec_turns().len() == 0,
            turns_ok(r.spec_turns(), r.spec_limit()),
    {
        let limit = if cfg.history_limit >= 1 {
            cfg.history_limit
        } else {
            1
        };
        let turns: Vec<ChatMessage> = Vec::new();
        assert(msgs_view(turns@) =~= Seq::empty());
        Conversation { system_prompt: cfg.system_prompt.clone(), history_limit: limit, turns }
    }

    fn push_turn(&mut self, role: &'static str, text: &str)
        requires
            2 * old(self).spec_limit() <= usize::MAX,
            turn_role(role@),
        ensures
            final(self).spec_system() == old(self).spec_system(),
            final(self).spec_limit() == old(self).spec_limit(),
            final(self).spec_turns() == keep_last(
                old(self).spec_turns().push((role@, text@)),
                2 * old(self).spec_limit(),
            ),
    {
        proof {
            use_type_invariant(&*self);
        }
        let mut turns: Vec<ChatMessage> = Vec::new();
        std::mem::swap(&mut turns, &mut self.turns);
        let ghost before = turns@;
        turns.push(ChatMessage { role, content: text.to_owned() });
        proof {
            assert(msgs_view(turns@) =~= msgs_view(before).push((role@, text@)));
        }
        let max = self.history_limit * 2;
        if turns.len() > max {
            let excess = turns.len() - max;
            let ghost pushed = turns@;
            let mut kept: Vec<ChatMessage> = Vec::new();
            let mut i = excess;
            while i < turns.len()
                invariant
                    pushed == turns@,
                    excess <= i <= pushed.len(),
                    msgs_view(kept@) == msgs_view(pushed.subrange(excess as int, i as int)),
                decreases pushed.len() - i,
            {
                let m = ChatMessage { role: turns[i].role, content: turns[i].content.clone() };
                let ghost kept0 = kept@;
                kept.push(m);
                proof {
                    assert(msg_view(m) == msg_view(pushed[i as int]));
                    lemma_msgs_push(kept0, m);
                    assert(pushed.subrange(excess as int, i + 1) =~= pushed.subrange(
                        excess as int,
                        i as int,
                    ).push(pushed[i as int]));
                    lemma_msgs_push(pushed.subrange(excess as int, i as int), pushed[i as int]);
                }
                i = i + 1;
            }
            turns = kept;
            proof {
                assert(msgs_view(pushed.subrange(excess as int, pushed.len() as int)) =~= msgs_view(
                    pushed,
                ).skip(excess as int));
            }
        }
        proof {
            let ghost pv = msgs_view(before).push((role@, text@));
            let ghost lim = self.history_limit as nat;
            assert forall|i: int| 0 <= i < pv.len() implies turn_role(#[trigger] pv[i].0) by {
                if i < msgs_view(before).len() {
                    assert(pv[i] == msgs_view(before)[i]);
                }
            }
            let k = keep_last(pv, 2 * lim);
            assert(msgs_view(turns@) == k);
            assert forall|i: int| 0 <= i < k.len() implies turn_role(#[trigger] k[i].0) by {
                if pv.len() > 2 * lim {
                    assert(k[i] == pv[i + (pv.len() - 2 * lim)]);
                }
            }
        }
        self.turns = turns;
    }

    /// Appends a user message, keeping at most `2 * limit` turns.
    pub fn push_user(&mut self, text: &str)
        requires
            2 * old(self).spec_limit() <= usize::MAX,
        ensures
            final(self).spec_system() == old(self).spec_system(),
            final(self).spec_limit() == old(self).spec_limit(),
            final(self).spec_turns() == keep_last(
                old(self).spec_turns().push(("user"@, text@)),
                2 * old(self).spec_limit(),
            ),
            turns_ok(final(self).spec_turns(), final(self).spec_limit()),
    {
        proof {
            use_type_invariant(&*self);
        }
        self.push_turn("user", text);
        proof {
            use_type_invariant(&*self);
        }
    }

    /// Appends an assistant message, keeping at most `2 * limit` turns.
    pub fn push_assistant(&mut self, text: &str)
        requires
            2 * old(self).spec_limit() <= usize::MAX,
        ensures
            final(self).spec_system() == old(self).spec_system(),
            final(self).spec_limit() == old(self).spec_limit(),
            final(self).spec_turns() == keep_last(
                old(self).spec_turns().push(("assistant"@, text@)),
                2 * old(self).spec_limit(),
            ),
            turns_ok(final(self).spec_turns(), final(self).spec_limit()),
    {
        proof {
            use_type_invariant(&*self);
        }
        self.push_turn("assistant", text);
        proof {
            use_type_invariant(&*self);
        }
    }

    /// The kept turns, without the system message.
    pub fn history(&self) -> (r: Vec<ChatMessage>)
        ensures
            msgs_view(r@) == self.spec_turns(),
            turns_ok(self.spec_turns(), self.spec_limit()),
    {
        proof {
            use_type_invariant(self);
        }
        let mut out: Vec<ChatMessage> = Vec::new();
        let mut i: usize = 0;
        while i < self.turns.len()
            invariant
                i <= self.turns@.len(),
                msgs_view(out@) == msgs_view(self.turns@.take(i as int)),
            decreases self.turns@.len() - i,
        {
            let m = ChatMessage { role: self.turns[i].role, content: self.turns[i].content.clone() };
            let ghost out0 = out@;
            out.push(m);
            proof {
                assert(msg_view(m) == msg_view(self.turns@[i as int]));
                lemma_msgs_push(out0, m);
                assert(self.turns@.take(i + 1) =~= self.turns@.take(i as int).push(self.turns@[i as int]));
                lemma_msgs_push(self.turns@.take(i as int), self.turns@[i as int]);
            }
            i = i + 1;
        }
        assert(self.turns@.take(self.turns@.len() as int) == self.turns@);
        out
    }

    /// Forgets every turn (the system prompt and limit stay).
    pub fn clear(&mut self)
        ensures
            final(self).spec_system() == old(self).spec_system(),
            final(self).spec_limit() == old(self).spec_limit(),
            final(self).spec_turns().len() == 0,
            turns_ok(final(self).spec_turns(), final(self).spec_limit()),
    {
        proof {
            use_type_invariant(&*self);
        }
        let empty: Vec<ChatMessage> = Vec::new();
        assert(msgs_view(empty@) =~= Seq::empty());
        self.turns = empty;
    }

    /// The system message followed by the kept turns.
    pub fn messages(&self) -> (r: Vec<ChatMessage>)
        ensures
            msgs_view(r@) == seq![("system"@, self.spec_system())] + self.spec_turns(),
            turns_ok(self.spec_turns(), self.spec_limit()),
    {
        proof {
            use_type_invariant(self);
        }
        let mut out: Vec<ChatMessage> = Vec::new();
        out.push(ChatMessage { role: "system", content: self.system_prompt.clone() });
        let mut i: usize = 0;
        while i < self.turns.len()
            invariant
                i <= self.turns@.len(),
                msgs_view(out@) == seq![("system"@, self.spec_system())] + msgs_view(
                    self.turns@.take(i as int),
                ),
            decreases self.turns@.len() - i,
        {
            let m = ChatMessage { role: self.turns[i].role, content: self.turns[i].content.clone() };
            let ghost out0 = out@;
            out.push(m);
            proof {
                assert(msg_view(m) == msg_view(self.turns@[i as int]));
                lemma_msgs_push(out0, m);
                assert(self.turns@.take(i + 1) =~= self.turns@.take(i as int).push(self.turns@[i as int]));
                lemma_msgs_push(self.turns@.take(i as int), self.turns@[i as int]);
                assert(msgs_view(out@) =~= seq![("system"@, self.spec_system())] + msgs_view(
                    self.turns@.take(i + 1),
                ));
            }
            i = i + 1;
        }
        assert(self.turns@.take(self.turns@.len() as int) == self.turns@);
        out
    }
}

/// After a push at most `2 * limit` turns are kept, and the newest message is
/// the last of them.
pub proof fn lemma_history_bounded(turns: Seq<(Seq<char>, Seq<char>)>, m: (Seq<char>, Seq<char>), limit: nat)
    requires
        limit >= 1,
        turns.len() <= 2 * limit,
    ensures
        keep_last(turns.push(m), 2 * limit).len() <= 2 * limit,
        keep_last(turns.push(m), 2 * limit).last() == m,
{
    let t = turns.push(m);
    if t.len() > 2 * limit {
        assert(t.skip(t.len() - 2 * limit).last() == t.last());
    }
}

/// What a conversation sends: the system message first, then at most
/// `2 * limit` turns (limit at least one), each a user or an assistant
/// message. Every conversation's turns and limit meet the requirement (the
/// type's invariant, stated by `new`, the pushes, `clear`, `history` and
/// `messages`).
pub proof fn lemma_messages_shape(
    system: Seq<char>,
    turns: Seq<(Seq<char>, Seq<char>)>,
    limit: nat,
)
    requires
        turns_ok(turns, limit),
    ensures
        ({
            let m = seq![("system"@, system)] + turns;
            &&& m[0] == ("system"@, system)
            &&& 1 <= m.len() <= 1 + 2 * limit
            &&& forall|i: int| 1 <= i < m.len() ==> turn_role(#[trigger] m[i].0)
        }),
{
    let m = seq![("system"@, system)] + turns;
    assert forall|i: int| 1 <= i < m.len() implies turn_role(#[trigger] m[i].0) by {
        assert(m[i] == turns[i - 1]);
    }
}

} // verus!
