use vstd::prelude::*;
use vstd::string::StringExecFns;
use crate::command::{Command, CommandView};
use crate::store::{ConversationId, ConversationStore, rendering};
use crate::turn::{Role, Turn, TurnView, turns_view};

verus! {

/// What the transport is to do after a command has been handled.
#[derive(Debug)]
pub enum Action {
    /// Send the list of commands.
    Help,
    /// Reply to the triggering message with this text.
    Reply(String),
    /// Run a streaming completion on this context and show its progress.
    Stream(Vec<Turn>),
    /// Do nothing.
    Ignore,
}

/// The value of an action.
pub enum ActionView {
    Help,
    Reply(Seq<char>),
    Stream(Seq<TurnView>),
    Ignore,
}

impl View for Action {
    type V = ActionView;

    open spec fn view(&self) -> ActionView {
        match self {
            Action::Help => ActionView::Help,
            Action::Reply(t) => ActionView::Reply(t@),
            Action::Stream(ctx) => ActionView::Stream(turns_view(ctx@)),
            Action::Ignore => ActionView::Ignore,
        }
    }
}

/// The history of the conversation after `cmd` has been handled on `before`.
pub open spec fn history_after(before: Seq<TurnView>, cmd: CommandView) -> Seq<TurnView> {
    match cmd {
        CommandView::Prompt(t) => seq![TurnView { role: Role::System, text: t }],
        CommandView::Chat(t) => if t.len() > 0 {
            before.push(TurnView { role: Role::User, text: t })
        } else {
            before
        },
        CommandView::Clear => Seq::empty(),
        _ => before,
    }
}

/// What the transport is told to do after `cmd`, on a conversation whose
/// history was `before`.
pub open spec fn action_for(before: Seq<TurnView>, cmd: CommandView) -> ActionView {
    match cmd {
        CommandView::Help => ActionView::Help,
        CommandView::Prompt(_) => ActionView::Reply("Prompt set."@),
        CommandView::Chat(t) => if t.len() > 0 {
            ActionView::Stream(history_after(before, cmd))
        } else {
            ActionView::Ignore
        },
        CommandView::View => ActionView::Reply(rendering(before)),
        CommandView::Clear => ActionView::Reply("Chat histories cleared."@),
    }
}

impl ConversationStore {
    /// Applies `cmd`, received in conversation `id`, to the store and says
    /// what the transport is to do. A chat turn is recorded before its
    /// completion starts, and the context handed out includes it.
    pub fn handle(&mut self, id: ConversationId, cmd: Command) -> (r: Action)
        ensures
            final(self).history(id) == history_after(old(self).history(id), cmd@),
            old(self).same_except(final(self), id),
            r@ == action_for(old(self).history(id), cmd@),
    {
        match cmd {
            Command::Help => Action::Help,
            Command::Prompt(text) => {
                self.reset(id, text);
                Action::Reply(String::from_str("Prompt set."))
            },
            Command::Chat(text) => {
                if text.as_str().is_empty() {
                    return Action::Ignore;
                }
                self.append(id, Turn::new(Role::User, text));
                Action::Stream(self.snapshot(id))
            },
            Command::View => Action::Reply(self.view_text(id)),
            Command::Clear => {
                self.clear(id);
                Action::Reply(String::from_str("Chat histories cleared."))
            },
        }
    }

    /// Records the text that a completion produced as the assistant's turn.
    pub fn record_reply(&mut self, id: ConversationId, text: String)
        ensures
            final(self).history(id) == old(self).history(id).push(
                TurnView { role: Role::Assistant, text: text@ },
            ),
            old(self).same_except(final(self), id),
    {
        self.append(id, Turn::new(Role::Assistant, text));
    }
}

/// Setting the prompt leaves one system turn holding it, whatever the
/// history held before.
pub proof fn lemma_prompt_leaves_one_turn(before: Seq<TurnView>, text: Seq<char>)
    ensures
        history_after(before, CommandView::Prompt(text)) == seq![
            TurnView { role: Role::System, text },
        ],
{
}

/// Clearing empties the history, whatever it held, and `view` then shows
/// that it is empty.
pub proof fn lemma_clear_empties(before: Seq<TurnView>)
    ensures
        history_after(before, CommandView::Clear) == Seq::<TurnView>::empty(),
        action_for(history_after(before, CommandView::Clear), CommandView::View)
            == ActionView::Reply("Empty chat history."@),
{
}

/// `view` changes nothing, so a second `view` replies what the first did.
pub proof fn lemma_view_twice(before: Seq<TurnView>)
    ensures
        history_after(before, CommandView::View) == before,
        action_for(history_after(before, CommandView::View), CommandView::View) == action_for(
            before,
            CommandView::View,
        ),
{
}

} // verus!
