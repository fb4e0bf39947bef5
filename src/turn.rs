use vstd::prelude::*;

verus! {

/// What `str::trim` leaves of a text: the text without its leading and
/// trailing white space, as Unicode defines white space.
pub uninterp spec fn trim_of(s: Seq<char>) -> Seq<char>;

/// Relies on `str::trim`, which returns the text with leading and trailing
/// white space removed; the result depends on the characters alone.
#[verifier::external_body]
pub(crate) fn trimmed(s: &str) -> (r: &str)
    ensures
        r@ == trim_of(s@),
{
    s.trim()
}

/// Who produced a turn of a conversation.
#[derive(Clone, Copy, Debug, PartialEq, Eq, Structural)]
pub enum Role {
    System,
    User,
    Assistant,
}

impl Role {
    /// The lower-case name under which a role is shown to users.
    pub open spec fn spec_name(self) -> Seq<char> {
        match self {
            Role::System => "system"@,
            Role::User => "user"@,
            Role::Assistant => "assistant"@,
        }
    }

    pub fn name(&self) -> (r: &'static str)
        ensures
            r@ == self.spec_name(),
    {
        match self {
            Role::System => "system",
            Role::User => "user",
            Role::Assistant => "assistant",
        }
    }
}

/// One role-tagged message of a conversation.
#[derive(Clone, Debug)]
pub struct Turn {
    pub role: Role,
    pub text: String,
}

/// The mathematical value of a turn.
pub struct TurnView {
    pub role: Role,
    pub text: Seq<char>,
}

impl View for Turn {
    type V = TurnView;

    open spec fn view(&self) -> TurnView {
        TurnView { role: self.role, text: self.text@ }
    }
}

/// The values of a sequence of turns.
pub open spec fn turns_view(s: Seq<Turn>) -> Seq<TurnView> {
    s.map_values(|t: Turn| t@)
}

impl Turn {
    pub fn new(role: Role, text: String) -> (r: Turn)
        ensures
            r@ == (TurnView { role, text: text@ }),
    {
        Turn { role, text }
    }

    /// A separate turn with the same role and text.
    pub fn copied(&self) -> (r: Turn)
        ensures
            r@ == self@,
    {
        Turn { role: self.role, text: self.text.clone() }
    }
}

} // verus!
