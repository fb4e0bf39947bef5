use std::collections::HashMap;
use vstd::prelude::*;
use vstd::string::StringExecFns;
use crate::turn::{Role, Turn, TurnView, trim_of, trimmed, turns_view};

verus! {

broadcast use vstd::std_specs::hash::group_hash_axioms;

/// One turn as `view` shows it: its role, a colon and its trimmed text.
pub open spec fn turn_line(t: TurnView) -> Seq<char> {
    t.role.spec_name() + ": "@ + trim_of(t.text)
}

/// The lines of `s`, with a blank line between two of them.
pub open spec fn turn_lines(s: Seq<TurnView>) -> Seq<char>
    decreases s.len(),
{
    if s.len() == 0 {
        Seq::empty()
    } else if s.len() == 1 {
        turn_line(s[0])
    } else {
        turn_lines(s.drop_last()) + "\n\n"@ + turn_line(s.last())
    }
}

/// What `view` replies for a conversation whose history is `s`.
pub open spec fn rendering(s: Seq<TurnView>) -> Seq<char> {
    if s.len() == 0 {
        "Empty chat history."@
    } else {
        turn_lines(s)
    }
}

/// The turns of `turns` that went to conversation `id`, where `ids[i]` is the
/// conversation that `turns[i]` went to.
pub open spec fn turns_sent_to(ids: Seq<i64>, turns: Seq<TurnView>, id: i64) -> Seq<TurnView>
    decreases turns.len(),
{
    if turns.len() == 0 || ids.len() != turns.len() {
        Seq::empty()
    } else if ids.last() == id {
        turns_sent_to(ids.drop_last(), turns.drop_last(), id).push(turns.last())
    } else {
        turns_sent_to(ids.drop_last(), turns.drop_last(), id)
    }
}

/// Identifier of a conversation, as the transport supplies it.
pub type ConversationId = i64;

/// The per-conversation turn histories of the process.
pub struct ConversationStore {
    histories: HashMap<ConversationId, Vec<Turn>>,
}

impl ConversationStore {
    /// The histories of the conversations that have been referenced.
    pub closed spec fn view(&self) -> Map<ConversationId, Seq<TurnView>> {
        Map::new(
            |id: ConversationId| self.histories@.contains_key(id),
            |id: ConversationId| turns_view(self.histories@[id]@),
        )
    }

    /// The history of one conversation; one never referenced is empty.
    pub open spec fn history(&self, id: ConversationId) -> Seq<TurnView> {
        if self@.contains_key(id) {
            self@[id]
        } else {
            Seq::empty()
        }
    }

    /// Every conversation but `id` has the same history in `self` and `other`.
    pub open spec fn same_except(&self, other: &Self, id: ConversationId) -> bool {
        forall|k: ConversationId| k != id ==> #[trigger] other.history(k) == self.history(k)
    }

    pub fn new() -> (r: Self)
        ensures
            forall|id: ConversationId| #[trigger] r.history(id) == Seq::<TurnView>::empty(),
    {
        ConversationStore { histories: HashMap::new() }
    }

    /// Takes the history of `id` out of the map.
    fn take(&mut self, id: ConversationId) -> (r: Vec<Turn>)
        ensures
            turns_view(r@) == old(self).history(id),
            !final(self).histories@.contains_key(id),
            old(self).same_except(final(self), id),
    {
        let r = match self.histories.remove(&id) {
            Some(v) => v,
            None => Vec::new(),
        };
        assert(turns_view(Seq::<Turn>::empty()) =~= Seq::<TurnView>::empty());
        r
    }

    /// Stores `turns` as the history of `id`.
    fn put(&mut self, id: ConversationId, turns: Vec<Turn>)
        ensures
            final(self).history(id) == turns_view(turns@),
            old(self).same_except(final(self), id),
    {
        self.histories.insert(id, turns);
    }

    /// Adds `turn` at the end of the history of `id`.
    pub fn append(&mut self, id: ConversationId, turn: Turn)
        ensures
            final(self).history(id) == old(self).history(id).push(turn@),
            old(self).same_except(final(self), id),
    {
        let mut turns = self.take(id);
        let ghost before = turns@;
        turns.push(turn);
        assert(turns_view(turns@) =~= turns_view(before).push(turn@));
        self.put(id, turns);
    }

    /// A copy of the history of `id`.
    pub fn snapshot(&self, id: ConversationId) -> (r: Vec<Turn>)
        ensures
            turns_view(r@) == self.history(id),
    {
        let mut r: Vec<Turn> = Vec::new();
        match self.histories.get(&id) {
            Some(turns) => {
                let mut i: usize = 0;
                while i < turns.len()
                    invariant
                        i <= turns@.len(),
                        turns_view(r@) =~= turns_view(turns@).take(i as int),
                    decreases turns@.len() - i,
                {
                    let ghost prev = r@;
                    r.push(turns[i].copied());
                    assert(turns_view(r@) =~= turns_view(prev).push(turns@[i as int]@));
                    assert(turns_view(turns@).take(i + 1) =~= turns_view(turns@).take(i as int).push(
                        turns@[i as int]@,
                    ));
                    i = i + 1;
                }
                assert(turns_view(turns@).take(i as int) =~= turns_view(turns@));
            },
            None => {
                assert(turns_view(r@) =~= Seq::<TurnView>::empty());
            },
        }
        r
    }

    /// Replaces the history of `id` by one system turn holding `system_text`.
    pub fn reset(&mut self, id: ConversationId, system_text: String)
        ensures
            final(self).history(id) == seq![TurnView { role: Role::System, text: system_text@ }],
            old(self).same_except(final(self), id),
    {
        let _ = self.take(id);
        let mut turns: Vec<Turn> = Vec::new();
        turns.push(Turn::new(Role::System, system_text));
        assert(turns_view(turns@) =~= seq![TurnView { role: Role::System, text: system_text@ }]);
        self.put(id, turns);
    }

    /// Empties the history of `id`.
    pub fn clear(&mut self, id: ConversationId)
        ensures
            final(self).history(id) == Seq::<TurnView>::empty(),
            old(self).same_except(final(self), id),
    {
        let _ = self.take(id);
        let turns: Vec<Turn> = Vec::new();
        assert(turns_view(turns@) =~= Seq::<TurnView>::empty());
        self.put(id, turns);
    }

    /// The history of `id` as text, one turn per line.
    pub fn view_text(&self, id: ConversationId) -> (r: String)
        ensures
            r@ == rendering(self.history(id)),
    {
        let turns = self.snapshot(id);
        if turns.len() == 0 {
            return String::from_str("Empty chat history.");
        }
        let ghost hist = turns_view(turns@);
        let mut out = String::new();
        let mut i: usize = 0;
        while i < turns.len()
            invariant
                hist == turns_view(turns@),
                0 < turns@.len(),
                i <= turns@.len(),
                out@ == turn_lines(hist.take(i as int)),
            decreases turns@.len() - i,
        {
            let ghost prev = out@;
            if i > 0 {
                out.append("\n\n");
            }
            let turn = &turns[i];
            out.append(turn.role.name());
            out.append(": ");
            out.append(trimmed(turn.text.as_str()));
            assert(hist.take(i + 1).drop_last() =~= hist.take(i as int));
            assert(hist[i as int] == turn@);
            if i == 0 {
                assert(prev =~= Seq::<char>::empty());
                assert(out@ =~= turn_line(turn@));
            } else {
                assert(out@ =~= prev + "\n\n"@ + turn_line(turn@));
            }
            i = i + 1;
        }
        assert(hist.take(i as int) =~= hist);
        out
    }

    pub fn is_empty(&self, id: ConversationId) -> (r: bool)
        ensures
            r == (self.history(id).len() == 0),
    {
        match self.histories.get(&id) {
            Some(turns) => turns.len() == 0,
            None => true,
        }
    }
}

/// Appends keep their order: after `states[i + 1]` came from `states[i]` by
/// appending `turns[i]` to conversation `id`, the history of `id` (which
/// `snapshot` returns) is the first history followed by `turns` in call order.
pub proof fn lemma_appends_in_order(
    states: Seq<ConversationStore>,
    id: ConversationId,
    turns: Seq<TurnView>,
)
    requires
        states.len() == turns.len() + 1,
        forall|i: int|
            0 <= i < turns.len() ==> #[trigger] states[i + 1].history(id) == states[i].history(
                id,
            ).push(turns[i]),
    ensures
        states.last().history(id) == states[0].history(id) + turns,
    decreases turns.len(),
{
    if turns.len() == 0 {
        assert(states[0].history(id) + turns =~= states[0].history(id));
    } else {
        let n = turns.len() - 1;
        let earlier = states.drop_last();
        assert forall|i: int| 0 <= i < n implies #[trigger] earlier[i + 1].history(id)
            == earlier[i].history(id).push(turns.drop_last()[i]) by {
            assert(states[i + 1].history(id) == states[i].history(id).push(turns[i]));
        }
        lemma_appends_in_order(earlier, id, turns.drop_last());
        assert(states[n + 1].history(id) == states[n].history(id).push(turns[n]));
        assert(states[0].history(id) + turns =~= (states[0].history(id) + turns.drop_last()).push(
            turns[n],
        ));
    }
}

/// Conversations do not mix: when appends to several conversations
/// interleave (`states[i + 1]` came from `states[i]` by appending `turns[i]`
/// to conversation `ids[i]`), each conversation ends with its own history
/// followed by exactly the turns sent to it, in order.
pub proof fn lemma_conversations_kept_apart(
    states: Seq<ConversationStore>,
    ids: Seq<ConversationId>,
    turns: Seq<TurnView>,
    id: ConversationId,
)
    requires
        states.len() == turns.len() + 1,
        ids.len() == turns.len(),
        forall|i: int|
            0 <= i < turns.len() ==> #[trigger] states[i + 1].history(ids[i]) == states[i].history(
                ids[i],
            ).push(turns[i]) && states[i].same_except(&states[i + 1], ids[i]),
    ensures
        states.last().history(id) == states[0].history(id) + turns_sent_to(ids, turns, id),
    decreases turns.len(),
{
    if turns.len() == 0 {
        assert(states[0].history(id) + turns_sent_to(ids, turns, id) =~= states[0].history(id));
    } else {
        let n = turns.len() - 1;
        let earlier = states.drop_last();
        assert forall|i: int| 0 <= i < n implies #[trigger] earlier[i + 1].history(
            ids.drop_last()[i],
        ) == earlier[i].history(ids.drop_last()[i]).push(turns.drop_last()[i])
            && earlier[i].same_except(&earlier[i + 1], ids.drop_last()[i]) by {
            assert(states[i + 1].history(ids[i]) == states[i].history(ids[i]).push(turns[i]));
        }
        lemma_conversations_kept_apart(earlier, ids.drop_last(), turns.drop_last(), id);
        let base = states[0].history(id);
        let prior = turns_sent_to(ids.drop_last(), turns.drop_last(), id);
        assert(states[n + 1].history(ids[n]) == states[n].history(ids[n]).push(turns[n]));
        assert(states[n].same_except(&states[n + 1], ids[n]));
        if ids[n] == id {
            assert(base + prior.push(turns[n]) =~= (base + prior).push(turns[n]));
        } else {
            assert(states[n + 1].history(id) == states[n].history(id));
        }
    }
}

} // verus!
