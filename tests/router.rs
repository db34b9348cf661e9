use tg_bot::router::{is_command_message, needs_channel, route, select_content, Route, ACCESS_DENIED};
use tg_bot::user::{find_user_by_username, State, User};

fn user(name: &str, chat_id: Option<i64>) -> User {
    User {
        user_name: name.to_string(),
        chat_id,
        contact_name: name.to_string(),
        contact_form: "ты".to_string(),
        is_voice: false,
    }
}

#[test]
fn command_marker_decides() {
    assert!(is_command_message(Some("/help")));
    assert!(is_command_message(Some("/")));
    assert!(!is_command_message(Some("help")));
    assert!(!is_command_message(Some(" /help")));
    assert!(!is_command_message(Some("")));
    assert!(!is_command_message(None));
}

#[test]
fn unknown_sender_is_denied() {
    let users = vec![user("alice", Some(1))];
    assert_eq!(route(&users, Some("mallory"), Some("Hello")), Route::Denied);
    assert_eq!(route(&users, Some("Alice"), Some("/new")), Route::Denied);
    assert_eq!(route(&users, None, Some("Hello")), Route::Denied);
    assert_eq!(ACCESS_DENIED, "Access denied");
}

#[test]
fn known_sender_is_routed() {
    let users = vec![user("bob", None), user("alice", Some(1)), user("alice", Some(2))];
    assert_eq!(route(&users, Some("alice"), Some("Hello")), Route::Conversation(1));
    assert_eq!(route(&users, Some("alice"), Some("/new")), Route::Command(1));
    assert_eq!(route(&users, Some("bob"), None), Route::Conversation(0));
    assert_eq!(route(&users, Some("bob"), Some("")), Route::Conversation(0));
}

#[test]
fn content_selection() {
    assert_eq!(select_content(Some("Hi"), None), Some("Hi".to_string()));
    assert_eq!(select_content(Some("Hi"), Some("spoken")), Some("Hi".to_string()));
    assert_eq!(select_content(None, Some("spoken")), Some("spoken".to_string()));
    assert_eq!(select_content(None, None), None);
    assert_eq!(select_content(Some("  \n\t"), None), None);
    assert_eq!(select_content(None, Some("")), None);
}

#[test]
fn directory_lookup_is_exact() {
    let users = vec![user("alice", Some(1)), user("bob", None)];
    assert_eq!(find_user_by_username(&users, "bob").map(|u| u.chat_id), Some(None));
    assert!(find_user_by_username(&users, "Bob").is_none());
    assert!(find_user_by_username(&users, "ali").is_none());
    let mut state = State::new();
    assert!(state.find("alice").is_none());
    state.reload(users);
    assert_eq!(state.find("alice").map(|u| u.chat_id), Some(Some(1)));
    state.reload(vec![user("carol", None)]);
    assert!(state.find("alice").is_none());
    assert!(state.find("carol").is_some());
}

#[test]
fn channel_recorded_once() {
    assert!(needs_channel(&user("a", None)));
    assert!(!needs_channel(&user("a", Some(9))));
}
