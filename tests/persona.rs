use tg_bot::history::{ChatMessage, Role};
use tg_bot::persona::{build_history, PREAMBLE_LEN};
use tg_bot::user::User;

fn anna() -> User {
    User {
        user_name: "anna".to_string(),
        chat_id: Some(1),
        contact_name: "Аня".to_string(),
        contact_form: "ты".to_string(),
        is_voice: false,
    }
}

#[test]
fn preamble_then_history_unchanged() {
    let history = vec![
        ChatMessage { role: Role::User, content: "Привет".to_string() },
        ChatMessage { role: Role::Assistant, content: "Здравствуй".to_string() },
        ChatMessage { role: Role::User, content: "Как дела?".to_string() },
    ];
    let copy = history.clone();
    let r = build_history(history, &anna());
    assert_eq!(r.len(), copy.len() + PREAMBLE_LEN);
    assert_eq!(PREAMBLE_LEN, 2);
    assert_eq!(r[0].role, Role::User);
    assert_eq!(
        r[0].content,
        "Называй меня Аня. Говори со мной на ты, как будто мы с тобой давно знакомы"
    );
    assert_eq!(r[1].role, Role::Assistant);
    assert_eq!(
        r[1].content,
        "Привет, Аня! Конечно, мы можем общаться на 'ты'. Как дела? Чем я могу тебе помочь? Меня зовут Валя"
    );
    for (a, b) in r[2..].iter().zip(copy.iter()) {
        assert_eq!(a.role, b.role);
        assert_eq!(a.content, b.content);
    }
}

#[test]
fn preamble_is_deterministic() {
    let a = build_history(vec![], &anna());
    let b = build_history(vec![], &anna());
    assert_eq!(a.len(), 2);
    assert_eq!(a[0].content, b[0].content);
    assert_eq!(a[1].content, b[1].content);
}
