use tg_bot::reply::{
    deliver_chunk, is_code_listing, is_tts_enabled, plan_delivery, voice_chunks, ChunkDelivery,
    Delivery, VOICE_CHUNK_WIDTH,
};
use tg_bot::user::User;

fn voice_user(is_voice: bool) -> User {
    User {
        user_name: "bob".to_string(),
        chat_id: Some(3),
        contact_name: "Bob".to_string(),
        contact_form: "вы".to_string(),
        is_voice,
    }
}

#[test]
fn six_of_ten_indented_lines_is_code() {
    let mut lines = Vec::new();
    for i in 0..10 {
        if i < 6 {
            lines.push(format!("    let x{} = 1;", i));
        } else {
            lines.push(format!("note number {}", i));
        }
    }
    let text = lines.join("\n");
    assert!(!text.contains('('));
    assert!(is_code_listing(&text));
}

#[test]
fn half_indented_is_not_code() {
    let text = "    one\ntwo\n    three\nfour";
    assert!(!is_code_listing(text));
    let text2 = "    one\ntwo\n    three\n";
    assert!(is_code_listing(text2));
}

#[test]
fn plain_sentence_is_prose() {
    assert!(!is_code_listing("The weather is lovely today, isn't it?"));
    assert!(!is_code_listing(""));
    assert!(!is_code_listing("\n\n"));
}

#[test]
fn keywords_and_brackets_are_code() {
    assert!(is_code_listing("use fn main to start"));
    assert!(is_code_listing("a { b"));
    assert!(is_code_listing("a } b"));
    assert!(is_code_listing("call it (maybe)"));
    assert!(is_code_listing("x)"));
    assert!(is_code_listing("run `ls`"));
    assert!(!is_code_listing("f n"));
}

#[test]
fn tts_needs_backend_and_preference() {
    assert!(is_tts_enabled("http://tts/api", &voice_user(true)));
    assert!(!is_tts_enabled("", &voice_user(true)));
    assert!(!is_tts_enabled("http://tts/api", &voice_user(false)));
}

#[test]
fn long_word_splits_into_budgeted_chunks() {
    let content = "a".repeat(2000);
    let chunks = voice_chunks(&content);
    let sizes: Vec<usize> = chunks.iter().map(|c| c.chars().count()).collect();
    assert_eq!(sizes, vec![800, 800, 400]);
    assert_eq!(chunks.concat(), content);
}

#[test]
fn short_reply_is_one_chunk() {
    assert_eq!(voice_chunks("Hi there!"), vec!["Hi there!".to_string()]);
}

#[test]
fn chunks_keep_words_whole() {
    let mut words = Vec::new();
    for i in 0..400 {
        words.push(format!("word{}", i));
    }
    let content = words.join(" ");
    let chunks = voice_chunks(&content);
    assert!(chunks.len() > 1);
    for c in &chunks {
        assert!(c.chars().count() <= VOICE_CHUNK_WIDTH);
        assert!(!c.starts_with(' ') && !c.ends_with(' '));
    }
    assert_eq!(chunks.join(" "), content);
}

#[test]
fn delivery_choice() {
    match plan_delivery("Hello", false) {
        Delivery::Text(t) => assert_eq!(t, "Hello"),
        other => panic!("unexpected {:?}", other),
    }
    match plan_delivery("Hello", true) {
        Delivery::Voice(chunks) => assert_eq!(chunks, vec!["Hello".to_string()]),
        other => panic!("unexpected {:?}", other),
    }
    match plan_delivery("fn main() {}", true) {
        Delivery::Text(t) => assert_eq!(t, "fn main() {}"),
        other => panic!("unexpected {:?}", other),
    }
}

#[test]
fn failed_chunk_falls_back_to_text() {
    let chunk = "chunk2".to_string();
    assert!(matches!(deliver_chunk(&chunk, true), ChunkDelivery::Audio));
    match deliver_chunk(&chunk, false) {
        ChunkDelivery::Text(t) => assert_eq!(t, "chunk2"),
        other => panic!("unexpected {:?}", other),
    }
}
