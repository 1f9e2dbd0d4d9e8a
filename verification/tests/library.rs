use rusty_group_chat::chat::{Chat, ChatSender};
use rusty_group_chat::cli::chat::GroupChatDetails as PlainGroupChatDetails;
use rusty_group_chat::cli::group_chat::{GroupChat, GroupChatDetails};
use rusty_group_chat::cli::terminal::{InputStep, Terminal, TerminalInput};
use rusty_group_chat::cli::websocket::WebsocketURL;
use rusty_group_chat::cli::websocket_url::WebsocketURL as PrefixedWebsocketURL;
use rusty_group_chat::system_chat_message::SystemChatMessage;
use rusty_group_chat::text::{contains, is_whitespace, replace_all, starts_with, trim};
use rusty_group_chat::user::User;
use rusty_group_chat::user_repo::{UserRepo, UserRepoError};
use rusty_group_chat::web::handlers::group_chat_handler::{chat_from, disconnect_user, join, JoinOutcome};

fn user(name: &str) -> User {
    User::from_name(name.to_string())
}

#[test]
fn user_from_name_keeps_name() {
    assert_eq!(user("alice").name, "alice");
}

#[test]
fn users_with_equal_names_are_equal() {
    assert!(user("alice").is_equal_to(&user("alice")));
    assert!(!user("alice").is_equal_to(&user("Alice")));
}

#[test]
fn repo_refuses_a_taken_name() {
    let mut repo = UserRepo::new();
    assert!(repo.add_user(&user("bob")).is_ok());
    assert!(repo.contains("bob"));
    assert!(matches!(repo.add_user(&user("bob")), Err(UserRepoError::UserAlreadyExists)));
    assert!(repo.add_user(&user("carol")).is_ok());
}

#[test]
fn repo_frees_a_removed_name() {
    let mut repo = UserRepo::default();
    repo.add_user(&user("bob")).unwrap();
    repo.remove_user(user("bob"));
    assert!(!repo.contains("bob"));
    assert!(repo.add_user(&user("bob")).is_ok());
}

#[test]
fn repo_remove_of_unknown_name_changes_nothing() {
    let mut repo = UserRepo::new();
    repo.add_user(&user("bob")).unwrap();
    repo.remove_user(user("eve"));
    assert!(repo.contains("bob"));
    assert!(!repo.contains("eve"));
}

#[test]
fn repo_error_text() {
    let text: String = UserRepoError::UserAlreadyExists.into();
    assert_eq!(text, "Already Exists");
    assert_eq!(UserRepoError::UserAlreadyExists.message(), "Already Exists");
}

#[test]
fn chat_from_system_fields() {
    let chat = Chat::from_system("hello");
    assert!(matches!(chat.from, ChatSender::System));
    assert_eq!(chat.message, "hello");
}

#[test]
fn chat_from_user_fields() {
    let chat = Chat::from_user("hi", &user("dan"));
    match chat.from {
        ChatSender::User(u) => assert_eq!(u.name, "dan"),
        ChatSender::System => panic!("expected a user"),
    }
    assert_eq!(chat.message, "hi");
}

#[test]
fn system_chat_json() {
    assert_eq!(Chat::from_system("hello").to_string(), r#"{"from":"System","message":"hello"}"#);
}

#[test]
fn user_chat_json() {
    assert_eq!(
        Chat::from_user("hi", &user("dan")).to_string(),
        r#"{"from":{"User":{"name":"dan"}},"message":"hi"}"#
    );
}

#[test]
fn chat_json_escapes_text() {
    assert_eq!(
        Chat::from_user("say \"hi\"\n\\", &user("d\"a")).to_string(),
        r#"{"from":{"User":{"name":"d\"a"}},"message":"say \"hi\"\n\\"}"#
    );
    assert_eq!(Chat::from_system("\u{1}").to_string(), r#"{"from":"System","message":"\u0001"}"#);
}

#[test]
fn user_joined_announcement() {
    assert_eq!(
        SystemChatMessage::user_joined(&user("bob")),
        r#"{"from":"System","message":"bob joined."}"#
    );
}

#[test]
fn user_left_announcement() {
    assert_eq!(
        SystemChatMessage::user_left(&user("bob")),
        r#"{"from":"System","message":"bob left."}"#
    );
}

#[test]
fn text_trim() {
    assert_eq!(trim("  a b \t\n"), "a b");
    assert_eq!(trim("\u{3000}x\u{a0}"), "x");
    assert_eq!(trim("   "), "");
    assert_eq!(trim(""), "");
}

#[test]
fn text_replace_all() {
    assert_eq!(replace_all("aXbX", "X", "yy"), "ayybyy");
    assert_eq!(replace_all("aaa", "aa", "b"), "ba");
    assert_eq!(replace_all("ab", "", "X"), "XaXbX");
    assert_eq!(replace_all("abc", "z", "y"), "abc");
}

#[test]
fn text_contains_and_starts_with() {
    assert!(contains("hello bob!", "bob"));
    assert!(contains("x", ""));
    assert!(!contains("bo", "bob"));
    assert!(starts_with("wss://x", "wss://"));
    assert!(!starts_with("wss://x", "ws://"));
    assert!(starts_with("é", ""));
}

#[test]
fn websocket_url_from_http() {
    assert_eq!(WebsocketURL::new("http://example.com".to_string()).value(), "ws://example.com");
    assert_eq!(WebsocketURL::new("https://example.com".to_string()).value(), "wss://example.com");
    assert_eq!(
        WebsocketURL::new("http://a.com/http://b ".to_string()).value(),
        "ws://a.com/ws://b"
    );
}

#[test]
fn websocket_url_adds_missing_scheme() {
    assert_eq!(WebsocketURL::new("example.com:3000".to_string()).value(), "wss://example.com:3000");
    assert_eq!(WebsocketURL::new("  ws://x  ".to_string()).value(), "wss://  ws://x");
}

#[test]
fn websocket_url_keeps_ws_scheme() {
    assert_eq!(WebsocketURL::new("ws://localhost:3000 ".to_string()).value(), "ws://localhost:3000");
    let once = WebsocketURL::new("https://chat.example.org".to_string());
    let twice = WebsocketURL::new(once.value().to_string());
    assert_eq!(once.value(), twice.value());
}

#[test]
fn websocket_url_query_param() {
    let ws = WebsocketURL::new("ws://localhost:3000".to_string());
    assert_eq!(ws.append_query_param("name", "bob").value(), "ws://localhost:3000/?name=bob");
    let spaced = ws.try_append_query_param("name", "bob smith").ok().unwrap();
    assert_eq!(spaced.value(), "ws://localhost:3000/?name=bob+smith");
}

#[test]
fn websocket_url_query_param_on_unparsable_url() {
    let ws = WebsocketURL::new("wss://".to_string());
    assert!(ws.try_append_query_param("name", "bob").is_err());
}

#[test]
fn prefixed_websocket_url() {
    assert_eq!(PrefixedWebsocketURL::new("example.com".to_string()).value(), "wss://example.com");
    assert_eq!(PrefixedWebsocketURL::new("http://x".to_string()).value(), "wss://http://x");
    assert_eq!(PrefixedWebsocketURL::new("ws://x ".to_string()).value(), "ws://x ");
}

#[test]
fn plain_details_carry_name_in_url() {
    let details = PlainGroupChatDetails::from_answers("localhost:3000".to_string(), "bob".to_string())
        .ok()
        .unwrap();
    assert_eq!(details.url(), "wss://localhost:3000/?name=bob");
}

#[test]
fn details_trim_alias() {
    let details = GroupChatDetails::from_answers("http://localhost:3000".to_string(), "  bob \n".to_string())
        .ok()
        .unwrap();
    assert_eq!(details.url(), "ws://localhost:3000/?name=bob");
    assert_eq!(details.user().name, "bob");
}

#[test]
fn details_refuse_unparsable_url() {
    assert!(GroupChatDetails::from_answers("wss://".to_string(), "bob".to_string()).is_err());
}

#[test]
fn shown_own_arrival() {
    let lines = GroupChat::shown(&Chat::from_system("bob joined."), &user("bob"));
    assert_eq!(lines, vec!["\nYou joined.".to_string(), "Bravo! You can now type and send your chat messages.\n".to_string()]);
}

#[test]
fn shown_other_arrival() {
    let lines = GroupChat::shown(&Chat::from_system("amy joined."), &user("bob"));
    assert_eq!(lines, vec!["amy joined.".to_string()]);
}

#[test]
fn shown_chats() {
    assert_eq!(GroupChat::shown(&Chat::from_user("hi", &user("bob")), &user("bob")), vec!["You: hi\n".to_string()]);
    assert_eq!(GroupChat::shown(&Chat::from_user("hi", &user("amy")), &user("bob")), vec!["amy: hi\n".to_string()]);
}

#[test]
fn outgoing_skips_empty_lines() {
    assert_eq!(GroupChat::outgoing(String::new()), None);
    assert_eq!(GroupChat::outgoing("hey".to_string()), Some("hey".to_string()));
}

#[test]
fn terminal_reads_a_line() {
    let mut line = String::new();
    assert_eq!(Terminal::take_input(&mut line, TerminalInput::Char('h')), InputStep::Continue);
    assert_eq!(Terminal::take_input(&mut line, TerminalInput::OtherKey), InputStep::Continue);
    assert_eq!(Terminal::take_input(&mut line, TerminalInput::Char('i')), InputStep::Continue);
    assert_eq!(Terminal::take_input(&mut line, TerminalInput::Enter), InputStep::LineDone);
    assert_eq!(line, "hi");
    assert_eq!(Terminal::take_input(&mut line, TerminalInput::NotAKey), InputStep::LineDone);
    assert_eq!(line, "hi");
}

#[test]
fn terminal_escape_quits() {
    let mut line = "half a li".to_string();
    assert_eq!(Terminal::take_input(&mut line, TerminalInput::Escape), InputStep::Quit);
    assert_eq!(line, "half a li");
}

#[test]
fn server_admits_then_refuses_same_name() {
    let mut repo = UserRepo::new();
    match join(&mut repo, &user("bob")) {
        JoinOutcome::Admitted { session, announcement } => {
            assert_eq!(session.user().name, "bob");
            assert_eq!(announcement, r#"{"from":"System","message":"bob joined."}"#)
        }
        JoinOutcome::Refused { .. } => panic!("bob was free"),
    }
    match join(&mut repo, &user("bob")) {
        JoinOutcome::Refused { reply } => assert_eq!(reply, "Already Exists"),
        JoinOutcome::Admitted { .. } => panic!("bob was taken"),
    }
}

#[test]
fn server_relays_and_disconnects() {
    let mut repo = UserRepo::new();
    let bob = user("bob");
    let session = match join(&mut repo, &bob) {
        JoinOutcome::Admitted { session, .. } => session,
        JoinOutcome::Refused { .. } => panic!("bob was free"),
    };
    assert_eq!(chat_from(session.user(), "yo"), r#"{"from":{"User":{"name":"bob"}},"message":"yo"}"#);
    assert_eq!(disconnect_user(session, &mut repo), r#"{"from":"System","message":"bob left."}"#);
    assert!(!repo.contains("bob"));
    assert!(matches!(join(&mut repo, &bob), JoinOutcome::Admitted { .. }));
}

#[test]
fn refused_join_keeps_the_holder() {
    let mut repo = UserRepo::new();
    assert!(matches!(join(&mut repo, &user("bob")), JoinOutcome::Admitted { .. }));
    assert!(matches!(join(&mut repo, &user("bob")), JoinOutcome::Refused { .. }));
    assert!(repo.contains("bob"));
}

#[test]
fn trim_removes_every_unicode_white_space() {
    let white: Vec<char> = vec![
        '\u{9}', '\u{a}', '\u{b}', '\u{c}', '\u{d}', '\u{20}', '\u{85}', '\u{a0}', '\u{1680}',
        '\u{2000}', '\u{2001}', '\u{2002}', '\u{2003}', '\u{2004}', '\u{2005}', '\u{2006}',
        '\u{2007}', '\u{2008}', '\u{2009}', '\u{200a}', '\u{2028}', '\u{2029}', '\u{202f}',
        '\u{205f}', '\u{3000}',
    ];
    for c in white {
        assert_eq!(trim(&format!("{c}x{c}")), "x");
    }
    for c in ['\u{200b}', '\u{180e}', '\u{feff}', 'a', '\u{0}'] {
        assert_eq!(trim(&format!("{c}x{c}")), format!("{c}x{c}"));
    }
}

#[test]
fn whitespace_agrees_with_std() {
    for u in 0u32..=0x10ffff {
        if let Some(c) = char::from_u32(u) {
            assert_eq!(is_whitespace(c), c.is_whitespace(), "U+{u:04X}");
        }
    }
}

#[test]
fn chat_json_escapes_every_control_character() {
    let text: String = (0u32..0x20).map(|u| char::from_u32(u).unwrap()).collect();
    let json = Chat::from_system(&text).to_string();
    assert_eq!(
        json,
        [
            r#"{"from":"System","message":""#,
            r#"\u0000\u0001\u0002\u0003\u0004\u0005\u0006\u0007\b\t\n\u000b\f\r\u000e\u000f"#,
            r#"\u0010\u0011\u0012\u0013\u0014\u0015\u0016\u0017\u0018\u0019\u001a\u001b\u001c\u001d\u001e\u001f"#,
            r#""}"#,
        ]
        .concat()
    );
}
