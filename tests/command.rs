use tg_bot::command::{
    broadcast_recipients, broadcast_summary, plan_command, Command, CommandAction, HELP_TEXT,
};
use tg_bot::user::User;

fn user(name: &str, chat_id: Option<i64>) -> User {
    User {
        user_name: name.to_string(),
        chat_id,
        contact_name: name.to_string(),
        contact_form: "ты".to_string(),
        is_voice: false,
    }
}

#[test]
fn command_names_parse() {
    assert_eq!(Command::from_str("help"), Some(Command::Help));
    assert_eq!(Command::from_str("new"), Some(Command::New));
    assert_eq!(Command::from_str("text"), Some(Command::Text));
    assert_eq!(Command::from_str("voice"), Some(Command::Voice));
    assert_eq!(Command::from_str("broadcast"), Some(Command::Broadcast));
    assert_eq!(Command::from_str("Help"), None);
    assert_eq!(Command::from_str("start"), None);
    assert_eq!(Command::from_str(""), None);
}

#[test]
fn help_lists_every_command() {
    match plan_command("/help") {
        CommandAction::Reply(m) => {
            assert_eq!(m, HELP_TEXT);
            assert_eq!(
                m,
                "These commands are supported:\n\n/help — display this text.\n/new — New conversation\n/text — Text responses\n/voice — Voice responses\n/broadcast — Broadcast message"
            );
        }
        other => panic!("unexpected {:?}", other),
    }
}

#[test]
fn new_clears_history() {
    match plan_command("/new") {
        CommandAction::ClearHistory { reply } => assert_eq!(reply, "New conversation started"),
        other => panic!("unexpected {:?}", other),
    }
}

#[test]
fn text_and_voice_toggle() {
    match plan_command("/text") {
        CommandAction::SetVoice { enabled, reply } => {
            assert!(!enabled);
            assert_eq!(reply, "Text responses enabled");
        }
        other => panic!("unexpected {:?}", other),
    }
    match plan_command("/voice  ") {
        CommandAction::SetVoice { enabled, reply } => {
            assert!(enabled);
            assert_eq!(reply, "Voice responses enabled");
        }
        other => panic!("unexpected {:?}", other),
    }
}

#[test]
fn broadcast_joins_remaining_words() {
    match plan_command("/broadcast  Hello   all\tof you ") {
        CommandAction::Broadcast(m) => assert_eq!(m, "Hello all of you"),
        other => panic!("unexpected {:?}", other),
    }
    match plan_command("/broadcast") {
        CommandAction::Broadcast(m) => assert_eq!(m, ""),
        other => panic!("unexpected {:?}", other),
    }
}

#[test]
fn unknown_or_empty_command_is_ignored() {
    assert!(matches!(plan_command("/start"), CommandAction::Ignore));
    assert!(matches!(plan_command("/"), CommandAction::Ignore));
    assert!(matches!(plan_command("/   "), CommandAction::Ignore));
    assert!(matches!(plan_command("/NEW"), CommandAction::Ignore));
}

#[test]
fn broadcast_skips_users_without_channel() {
    let users = vec![user("a", Some(11)), user("b", None), user("c", Some(-5))];
    assert_eq!(broadcast_recipients(&users), vec![11, -5]);
    assert_eq!(broadcast_recipients(&vec![]), Vec::<i64>::new());
}

#[test]
fn broadcast_summary_counts() {
    assert_eq!(broadcast_summary(3), "Message successfully broadcaster for 3 users!");
    assert_eq!(broadcast_summary(0), "Message successfully broadcaster for 0 users!");
    assert_eq!(broadcast_summary(1204), "Message successfully broadcaster for 1204 users!");
    assert_eq!(
        broadcast_summary(u64::MAX),
        "Message successfully broadcaster for 18446744073709551615 users!"
    );
}
