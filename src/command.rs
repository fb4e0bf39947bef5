use vstd::prelude::*;
use vstd::string::{StrSliceExecFns, StringExecFns};

verus! {

/// A command that a user sends to the relay.
#[derive(Clone, Debug, PartialEq, Eq)]
pub enum Command {
    Help,
    Prompt(String),
    Chat(String),
    View,
    Clear,
}

/// The value of a command.
pub enum CommandView {
    Help,
    Prompt(Seq<char>),
    Chat(Seq<char>),
    View,
    Clear,
}

impl View for Command {
    type V = CommandView;

    open spec fn view(&self) -> CommandView {
        match self {
            Command::Help => CommandView::Help,
            Command::Prompt(t) => CommandView::Prompt(t@),
            Command::Chat(t) => CommandView::Chat(t@),
            Command::View => CommandView::View,
            Command::Clear => CommandView::Clear,
        }
    }
}

/// The index of the first `c` in `s`, or the length of `s` if none is there.
pub open spec fn first_index_of(s: Seq<char>, c: char) -> int
    decreases s.len(),
{
    if s.len() == 0 {
        0
    } else if s[0] == c {
        0
    } else {
        1 + first_index_of(s.drop_first(), c)
    }
}

/// The part of `s` before the first `c`.
pub open spec fn before_first(s: Seq<char>, c: char) -> Seq<char> {
    s.take(first_index_of(s, c))
}

/// The part of `s` after the first `c`, if `s` holds one.
pub open spec fn after_first(s: Seq<char>, c: char) -> Option<Seq<char>> {
    if first_index_of(s, c) < s.len() {
        Some(s.skip(first_index_of(s, c) + 1))
    } else {
        None
    }
}

/// The code of a character once ASCII upper-case letters are made lower case.
pub open spec fn folded_code(c: char) -> u32 {
    if 'A' <= c && c <= 'Z' {
        (c as u32 + 32) as u32
    } else {
        c as u32
    }
}

/// `a` and `b` are equal up to the case of ASCII letters.
pub open spec fn equal_ignoring_ascii_case(a: Seq<char>, b: Seq<char>) -> bool {
    a.len() == b.len() && forall|i: int| 0 <= i < a.len() ==> folded_code(a[i]) == folded_code(b[i])
}

/// The command that `text` holds, for a bot named `bot_name`. The first word
/// (up to the first space) is `/name` or `/name@bot`; the rest after that
/// space is the argument, which `help`, `view` and `clear` ignore. A command
/// addressed to another bot is no command.
pub open spec fn parsed(text: Seq<char>, bot_name: Seq<char>) -> Option<CommandView> {
    let word = before_first(text, ' ');
    let name = before_first(word, '@');
    let arg = match after_first(text, ' ') {
        Some(a) => a,
        None => Seq::empty(),
    };
    let addressed_here = match after_first(word, '@') {
        Some(rest) => equal_ignoring_ascii_case(before_first(rest, '@'), bot_name),
        None => true,
    };
    if !addressed_here {
        None
    } else if name == "/help"@ {
        Some(CommandView::Help)
    } else if name == "/prompt"@ {
        Some(CommandView::Prompt(arg))
    } else if name == "/chat"@ {
        Some(CommandView::Chat(arg))
    } else if name == "/view"@ {
        Some(CommandView::View)
    } else if name == "/clear"@ {
        Some(CommandView::Clear)
    } else {
        None
    }
}

proof fn lemma_first_index_of(s: Seq<char>, c: char, i: int)
    requires
        0 <= i <= s.len(),
        forall|j: int| 0 <= j < i ==> s[j] != c,
        i == s.len() || s[i] == c,
    ensures
        first_index_of(s, c) == i,
    decreases i,
{
    if i > 0 {
        lemma_first_index_of(s.drop_first(), c, i - 1);
    }
}

/// The index of the first `c` in `s`.
fn find_char(s: &str, c: char) -> (r: usize)
    ensures
        r == first_index_of(s@, c),
        r <= s@.len(),
{
    let n = s.unicode_len();
    let mut i: usize = 0;
    while i < n && s.get_char(i) != c
        invariant
            n == s@.len(),
            i <= n,
            forall|j: int| 0 <= j < i ==> s@[j] != c,
        decreases n - i,
    {
        i = i + 1;
    }
    proof {
        lemma_first_index_of(s@, c, i as int);
    }
    i
}

/// Whether `a` and `b` hold the same characters.
fn same_chars(a: &str, b: &str) -> (r: bool)
    ensures
        r == (a@ == b@),
{
    let n = a.unicode_len();
    if n != b.unicode_len() {
        return false;
    }
    let mut i: usize = 0;
    while i < n
        invariant
            n == a@.len(),
            n == b@.len(),
            i <= n,
            forall|j: int| 0 <= j < i ==> a@[j] == b@[j],
        decreases n - i,
    {
        if a.get_char(i) != b.get_char(i) {
            return false;
        }
        i = i + 1;
    }
    assert(a@ =~= b@);
    true
}

fn fold_char(c: char) -> (r: u32)
    ensures
        r == folded_code(c),
{
    if 'A' <= c && c <= 'Z' {
        c as u32 + 32
    } else {
        c as u32
    }
}

/// Whether `a` and `b` are equal up to the case of ASCII letters.
pub fn eq_ignore_ascii_case(a: &str, b: &str) -> (r: bool)
    ensures
        r == equal_ignoring_ascii_case(a@, b@),
{
    let n = a.unicode_len();
    if n != b.unicode_len() {
        return false;
    }
    let mut i: usize = 0;
    while i < n
        invariant
            n == a@.len(),
            n == b@.len(),
            i <= n,
            forall|j: int| 0 <= j < i ==> folded_code(a@[j]) == folded_code(b@[j]),
        decreases n - i,
    {
        if fold_char(a.get_char(i)) != fold_char(b.get_char(i)) {
            return false;
        }
        i = i + 1;
    }
    true
}

/// Reads the command in `text`, sent to the bot named `bot_name`.
pub fn parse_command(text: &str, bot_name: &str) -> (r: Option<Command>)
    ensures
        match r {
            Some(c) => parsed(text@, bot_name@) == Some(c@),
            None => parsed(text@, bot_name@) is None,
        },
{
    let n = text.unicode_len();
    let space = find_char(text, ' ');
    let word = text.substring_char(0, space);
    assert(word@ == before_first(text@, ' '));
    let word_len = word.unicode_len();
    let at = find_char(word, '@');
    let name = word.substring_char(0, at);
    assert(name@ == before_first(word@, '@'));
    if at < word_len {
        let rest = word.substring_char(at + 1, word_len);
        assert(rest@ == word@.skip(at + 1));
        let end = find_char(rest, '@');
        let addressee = rest.substring_char(0, end);
        if !eq_ignore_ascii_case(addressee, bot_name) {
            return None;
        }
    }
    let arg = if space < n {
        assert(text@.subrange(space + 1, n as int) == text@.skip(space + 1));
        String::from_str(text.substring_char(space + 1, n))
    } else {
        String::new()
    };
    if same_chars(name, "/help") {
        Some(Command::Help)
    } else if same_chars(name, "/prompt") {
        Some(Command::Prompt(arg))
    } else if same_chars(name, "/chat") {
        Some(Command::Chat(arg))
    } else if same_chars(name, "/view") {
        Some(Command::View)
    } else if same_chars(name, "/clear") {
        Some(Command::Clear)
    } else {
        None
    }
}

} // verus!
