use latex_preview::api::{AiChunk, Message, MessageRole, ThinkingFilter};

fn content(chunk: &AiChunk) -> Option<&str> {
    match chunk {
        AiChunk::Content(s) => Some(s.as_str()),
        AiChunk::Reasoning(_) => None,
    }
}

fn reasoning(chunk: &AiChunk) -> Option<&str> {
    match chunk {
        AiChunk::Content(_) => None,
        AiChunk::Reasoning(s) => Some(s.as_str()),
    }
}

#[test]
fn test_filter_passes_plain_text_through() {
    let mut f = ThinkingFilter::new();
    let chunks = f.process("Hello world".to_string());
    assert_eq!(chunks.len(), 1);
    assert_eq!(content(&chunks[0]), Some("Hello world"));
}

#[test]
fn test_filter_splits_thinking_from_content() {
    let mut f = ThinkingFilter::new();
    let chunks = f.process("Hello <think>ponder</think> world".to_string());
    assert_eq!(chunks.len(), 3);
    assert_eq!(content(&chunks[0]), Some("Hello "));
    assert_eq!(reasoning(&chunks[1]), Some("ponder"));
    assert_eq!(content(&chunks[2]), Some(" world"));
}

#[test]
fn test_filter_holds_partial_tag_across_pieces() {
    let mut f = ThinkingFilter::new();
    let first = f.process("abc<thi".to_string());
    assert_eq!(first.len(), 1);
    assert_eq!(content(&first[0]), Some("abc"));
    let second = f.process("nk>secret</think>xyz".to_string());
    assert_eq!(second.len(), 2);
    assert_eq!(reasoning(&second[0]), Some("secret"));
    assert_eq!(content(&second[1]), Some("xyz"));
}

#[test]
fn test_filter_releases_false_partial_tag() {
    let mut f = ThinkingFilter::new();
    let chunks = f.process("a<thx".to_string());
    assert_eq!(chunks.len(), 1);
    assert_eq!(content(&chunks[0]), Some("a<thx"));
}

#[test]
fn test_filter_reasoning_spanning_calls() {
    let mut f = ThinkingFilter::new();
    let first = f.process("<think>part one ".to_string());
    assert_eq!(first.len(), 1);
    assert_eq!(reasoning(&first[0]), Some("part one "));
    let second = f.process("part two</think>done".to_string());
    assert_eq!(second.len(), 2);
    assert_eq!(reasoning(&second[0]), Some("part two"));
    assert_eq!(content(&second[1]), Some("done"));
}

#[test]
fn test_filter_restart_after_tag() {
    let mut f = ThinkingFilter::new();
    let chunks = f.process("a<think></think>b<think>r</think>c".to_string());
    let text: Vec<&str> = chunks
        .iter()
        .map(|c| match c {
            AiChunk::Content(s) => s.as_str(),
            AiChunk::Reasoning(s) => s.as_str(),
        })
        .collect();
    assert_eq!(text.join(""), "abrc");
    assert_eq!(reasoning(&chunks[1]), Some("r"));
}

#[test]
fn test_message_roles_exist() {
    let m = Message { role: MessageRole::User, content: "hi".to_string() };
    assert!(matches!(m.role, MessageRole::User));
    let m2 = Message { role: MessageRole::System, content: String::new() };
    assert!(matches!(m2.role, MessageRole::System));
    let m3 = Message { role: MessageRole::Assistant, content: "ok".to_string() };
    assert!(matches!(m3.role, MessageRole::Assistant));
}
