use vstd::prelude::*;
use vstd::string::StringExecFns;
use crate::turn::{trim_of, trimmed};

verus! {

/// Number of fragments with visible content between two progress edits.
pub const EDIT_EVERY: u64 = 20;

/// A fragment counts towards progress when it holds more than white space.
pub open spec fn has_content(f: Seq<char>) -> bool {
    trim_of(f).len() > 0
}

/// How many of `frags` have content.
pub open spec fn content_count(frags: Seq<Seq<char>>) -> nat
    decreases frags.len(),
{
    if frags.len() == 0 {
        0
    } else {
        content_count(frags.drop_last()) + if has_content(frags.last()) {
            1nat
        } else {
            0nat
        }
    }
}

/// The fragments joined in order, with nothing between them.
pub open spec fn joined(frags: Seq<Seq<char>>) -> Seq<char>
    decreases frags.len(),
{
    if frags.len() == 0 {
        Seq::empty()
    } else {
        joined(frags.drop_last()) + frags.last()
    }
}

/// The progress edit due once the last of `frags` has arrived, if one is.
pub open spec fn progress_edit(frags: Seq<Seq<char>>) -> Option<Seq<char>> {
    if frags.len() > 0 && has_content(frags.last()) && content_count(frags) % (EDIT_EVERY as nat)
        == 0 {
        Some(joined(frags))
    } else {
        None
    }
}

/// The value of an accumulator: the fragments received so far, and the
/// transport message that shows them.
pub struct StreamState {
    pub fragments: Seq<Seq<char>>,
    pub message_id: i32,
}

/// The state of one streaming completion in flight.
pub struct StreamAccumulator {
    text: String,
    count: u64,
    message_id: i32,
    fragments: Ghost<Seq<Seq<char>>>,
}

impl View for StreamAccumulator {
    type V = StreamState;

    closed spec fn view(&self) -> StreamState {
        StreamState { fragments: self.fragments@, message_id: self.message_id }
    }
}

impl StreamAccumulator {
    pub closed spec fn wf(&self) -> bool {
        &&& self.text@ == joined(self.fragments@)
        &&& self.count == content_count(self.fragments@)
    }

    /// A fresh accumulator whose progress is shown in message `message_id`.
    pub fn new(message_id: i32) -> (r: Self)
        ensures
            r.wf(),
            r@.fragments == Seq::<Seq<char>>::empty(),
            r@.message_id == message_id,
    {
        StreamAccumulator {
            text: String::new(),
            count: 0,
            message_id,
            fragments: Ghost(Seq::empty()),
        }
    }

    pub fn message_id(&self) -> (r: i32)
        ensures
            r == self@.message_id,
    {
        self.message_id
    }

    /// How many fragments with content have arrived.
    pub fn content_fragments(&self) -> (r: u64)
        requires
            self.wf(),
        ensures
            r == content_count(self@.fragments),
    {
        self.count
    }

    /// Takes the next fragment; returns the text of the progress edit due
    /// now, if one is.
    pub fn push(&mut self, fragment: &str) -> (r: Option<String>)
        requires
            old(self).wf(),
            content_count(old(self)@.fragments) < u64::MAX,
        ensures
            final(self).wf(),
            final(self)@.fragments == old(self)@.fragments.push(fragment@),
            final(self)@.message_id == old(self)@.message_id,
            match r {
                Some(s) => progress_edit(final(self)@.fragments) == Some(s@),
                None => progress_edit(final(self)@.fragments) is None,
            },
    {
        let ghost frags = self.fragments@.push(fragment@);
        assert(frags.drop_last() =~= self.fragments@);
        self.text.append(fragment);
        self.fragments = Ghost(frags);
        if trimmed(fragment).is_empty() {
            return None;
        }
        self.count = self.count + 1;
        if self.count % EDIT_EVERY == 0 {
            Some(self.text.clone())
        } else {
            None
        }
    }

    /// The text of the final edit and of the assistant turn: all fragments
    /// joined in order.
    pub fn finish(self) -> (r: String)
        requires
            self.wf(),
        ensures
            r@ == joined(self@.fragments),
    {
        self.text
    }
}

proof fn lemma_all_content_counted(frags: Seq<Seq<char>>)
    requires
        forall|i: int| 0 <= i < frags.len() ==> has_content(#[trigger] frags[i]),
    ensures
        content_count(frags) == frags.len(),
    decreases frags.len(),
{
    if frags.len() > 0 {
        let rest = frags.drop_last();
        assert forall|i: int| 0 <= i < rest.len() implies has_content(#[trigger] rest[i]) by {
            assert(rest[i] == frags[i]);
        }
        lemma_all_content_counted(rest);
    }
}

/// When every fragment has content, a progress edit is due after the 20th,
/// 40th, ... fragment and after no other, and it shows all fragments so far
/// joined in order. (The final edit, after the last fragment, shows what
/// `finish` returns: all fragments joined.)
pub proof fn lemma_edit_schedule(frags: Seq<Seq<char>>, n: int)
    requires
        forall|i: int| 0 <= i < frags.len() ==> has_content(#[trigger] frags[i]),
        0 < n <= frags.len(),
    ensures
        progress_edit(frags.take(n)) == if n % (EDIT_EVERY as int) == 0 {
            Some(joined(frags.take(n)))
        } else {
            None
        },
{
    let prefix = frags.take(n);
    assert forall|i: int| 0 <= i < prefix.len() implies has_content(#[trigger] prefix[i]) by {
        assert(prefix[i] == frags[i]);
    }
    lemma_all_content_counted(prefix);
    assert(prefix.last() == frags[n - 1]);
}

} // verus!
