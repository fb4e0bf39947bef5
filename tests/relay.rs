use chat_relay::command::{eq_ignore_ascii_case, parse_command, Command};
use chat_relay::session::Action;
use chat_relay::store::ConversationStore;
use chat_relay::stream::StreamAccumulator;
use chat_relay::turn::{Role, Turn};

fn reply_text(action: Action) -> String {
    match action {
        Action::Reply(text) => text,
        other => panic!("expected a reply, got {:?}", other),
    }
}

fn texts(turns: &[Turn]) -> Vec<(Role, String)> {
    turns.iter().map(|t| (t.role, t.text.clone())).collect()
}

#[test]
fn terse_prompt_scenario() {
    let mut store = ConversationStore::new();
    let c1: i64 = 1;
    assert_eq!(reply_text(store.handle(c1, Command::View)), "Empty chat history.");
    assert_eq!(
        reply_text(store.handle(c1, Command::Prompt("You are terse.".to_string()))),
        "Prompt set."
    );
    assert_eq!(reply_text(store.handle(c1, Command::View)), "system: You are terse.");

    let context = match store.handle(c1, Command::Chat("2+2?".to_string())) {
        Action::Stream(ctx) => ctx,
        other => panic!("expected a stream, got {:?}", other),
    };
    assert_eq!(
        texts(&context),
        vec![
            (Role::System, "You are terse.".to_string()),
            (Role::User, "2+2?".to_string())
        ]
    );
    let mut acc = StreamAccumulator::new(42);
    assert_eq!(acc.push("4"), None);
    assert_eq!(acc.message_id(), 42);
    let answer = acc.finish();
    assert_eq!(answer, "4");
    store.record_reply(c1, answer);
    assert_eq!(
        reply_text(store.handle(c1, Command::View)),
        "system: You are terse.\n\nuser: 2+2?\n\nassistant: 4"
    );

    assert_eq!(reply_text(store.handle(c1, Command::Clear)), "Chat histories cleared.");
    assert_eq!(reply_text(store.handle(c1, Command::View)), "Empty chat history.");
}

#[test]
fn appends_come_back_in_call_order() {
    let mut store = ConversationStore::new();
    store.append(5, Turn::new(Role::User, "one".to_string()));
    store.append(5, Turn::new(Role::Assistant, "two".to_string()));
    store.append(5, Turn::new(Role::User, "three".to_string()));
    assert_eq!(
        texts(&store.snapshot(5)),
        vec![
            (Role::User, "one".to_string()),
            (Role::Assistant, "two".to_string()),
            (Role::User, "three".to_string())
        ]
    );
    assert!(!store.is_empty(5));
    assert!(store.is_empty(6));
    assert!(store.snapshot(6).is_empty());
}

#[test]
fn snapshot_is_a_copy() {
    let mut store = ConversationStore::new();
    store.append(1, Turn::new(Role::User, "a".to_string()));
    let before = store.snapshot(1);
    store.append(1, Turn::new(Role::User, "b".to_string()));
    assert_eq!(before.len(), 1);
    assert_eq!(store.snapshot(1).len(), 2);
}

#[test]
fn reset_leaves_one_system_turn() {
    let mut store = ConversationStore::new();
    store.append(3, Turn::new(Role::User, "hello".to_string()));
    store.append(3, Turn::new(Role::Assistant, "hi".to_string()));
    store.reset(3, "Be brief.".to_string());
    assert_eq!(texts(&store.snapshot(3)), vec![(Role::System, "Be brief.".to_string())]);
}

#[test]
fn clear_empties_any_history() {
    let mut store = ConversationStore::new();
    store.reset(3, "Be brief.".to_string());
    store.append(3, Turn::new(Role::User, "hello".to_string()));
    store.clear(3);
    assert!(store.snapshot(3).is_empty());
    assert!(store.is_empty(3));
    store.clear(4);
    assert!(store.snapshot(4).is_empty());
}

#[test]
fn progress_edits_every_twentieth_fragment() {
    let mut acc = StreamAccumulator::new(1);
    let mut edits: Vec<(usize, String)> = Vec::new();
    for i in 1..=45usize {
        if let Some(text) = acc.push("a") {
            edits.push((i, text));
        }
    }
    assert_eq!(edits, vec![(20, "a".repeat(20)), (40, "a".repeat(40))]);
    assert_eq!(acc.content_fragments(), 45);
    assert_eq!(acc.finish(), "a".repeat(45));
}

#[test]
fn blank_fragments_are_kept_but_not_counted() {
    let mut acc = StreamAccumulator::new(1);
    for _ in 0..19 {
        assert_eq!(acc.push("x"), None);
    }
    assert_eq!(acc.push(" "), None);
    assert_eq!(acc.push("\n"), None);
    assert_eq!(acc.push(""), None);
    assert_eq!(acc.content_fragments(), 19);
    let expected = format!("{} \n", "x".repeat(19));
    assert_eq!(acc.push("y"), Some(format!("{}y", expected)));
    assert_eq!(acc.finish(), format!("{}y", expected));
}

#[test]
fn empty_stream_finishes_empty() {
    let acc = StreamAccumulator::new(9);
    assert_eq!(acc.content_fragments(), 0);
    assert_eq!(acc.finish(), "");
}

#[test]
fn view_twice_gives_the_same_text() {
    let mut store = ConversationStore::new();
    store.reset(2, "sys".to_string());
    store.append(2, Turn::new(Role::User, "  padded  ".to_string()));
    let first = reply_text(store.handle(2, Command::View));
    let second = reply_text(store.handle(2, Command::View));
    assert_eq!(first, "system: sys\n\nuser: padded");
    assert_eq!(first, second);
    assert_eq!(store.view_text(2), first);
}

#[test]
fn two_conversations_do_not_mix() {
    let mut store = ConversationStore::new();
    let a = match store.handle(10, Command::Chat("from a".to_string())) {
        Action::Stream(ctx) => ctx,
        other => panic!("expected a stream, got {:?}", other),
    };
    let b = match store.handle(-20, Command::Chat("from b".to_string())) {
        Action::Stream(ctx) => ctx,
        other => panic!("expected a stream, got {:?}", other),
    };
    assert_eq!(texts(&a), vec![(Role::User, "from a".to_string())]);
    assert_eq!(texts(&b), vec![(Role::User, "from b".to_string())]);
    store.record_reply(-20, "answer b".to_string());
    store.record_reply(10, "answer a".to_string());
    assert_eq!(
        texts(&store.snapshot(10)),
        vec![(Role::User, "from a".to_string()), (Role::Assistant, "answer a".to_string())]
    );
    assert_eq!(
        texts(&store.snapshot(-20)),
        vec![(Role::User, "from b".to_string()), (Role::Assistant, "answer b".to_string())]
    );
}

#[test]
fn empty_chat_is_ignored() {
    let mut store = ConversationStore::new();
    assert!(matches!(store.handle(1, Command::Chat(String::new())), Action::Ignore));
    assert!(store.is_empty(1));
    assert!(matches!(store.handle(1, Command::Help), Action::Help));
    assert!(store.is_empty(1));
}

#[test]
fn parses_commands_with_arguments() {
    assert_eq!(
        parse_command("/chat hello there", "bot"),
        Some(Command::Chat("hello there".to_string()))
    );
    assert_eq!(
        parse_command("/prompt  You are terse.", "bot"),
        Some(Command::Prompt(" You are terse.".to_string()))
    );
    assert_eq!(parse_command("/chat", "bot"), Some(Command::Chat(String::new())));
    assert_eq!(parse_command("/help", "bot"), Some(Command::Help));
    assert_eq!(parse_command("/view now", "bot"), Some(Command::View));
    assert_eq!(parse_command("/clear", "bot"), Some(Command::Clear));
}

#[test]
fn rejects_unknown_commands_and_other_bots() {
    assert_eq!(parse_command("hello", "bot"), None);
    assert_eq!(parse_command("/unknown x", "bot"), None);
    assert_eq!(parse_command("/Help", "bot"), None);
    assert_eq!(parse_command("", "bot"), None);
    assert_eq!(parse_command("/help@RelayBot", "relaybot"), Some(Command::Help));
    assert_eq!(parse_command("/chat@relaybot hi @you", "RelayBot"), Some(Command::Chat("hi @you".to_string())));
    assert_eq!(parse_command("/help@otherbot", "relaybot"), None);
}

#[test]
fn ascii_case_folding() {
    assert!(eq_ignore_ascii_case("RelayBot", "relaybot"));
    assert!(!eq_ignore_ascii_case("relay", "relaybot"));
    assert!(!eq_ignore_ascii_case("a[", "A{"));
    assert!(eq_ignore_ascii_case("", ""));
}

#[test]
fn role_names() {
    assert_eq!(Role::System.name(), "system");
    assert_eq!(Role::User.name(), "user");
    assert_eq!(Role::Assistant.name(), "assistant");
    let t = Turn::new(Role::User, "x".to_string());
    assert_eq!(t.copied().text, "x");
}
