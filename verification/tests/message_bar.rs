use alacritty_core::message_bar::{
    Message, MessageBuffer, MessageType, CLOSE_BUTTON_TEXT, MIN_FREE_LINES,
};

fn lines_of(text: &str, num_cols: usize, total_lines: usize) -> Vec<String> {
    Message::new(text.into(), MessageType::Error).text(num_cols, total_lines)
}

#[test]
fn appends_close_button() {
    assert_eq!(lines_of("a", 7, 10), vec![String::from("a   [X]")]);
    assert_eq!(CLOSE_BUTTON_TEXT, "[X]");
}

#[test]
fn multiline_close_button_first_line() {
    assert_eq!(lines_of("fo\nbar", 6, 10), vec![String::from("fo [X]"), String::from("bar   ")]);
}

#[test]
fn splits_on_newline() {
    assert_eq!(lines_of("a\nb", 6, 10).len(), 2);
}

#[test]
fn splits_on_length() {
    assert_eq!(lines_of("foobar1", 6, 10).len(), 2);
}

#[test]
fn empty_with_shortterm() {
    assert_eq!(lines_of("foobar", 6, 0).len(), 0);
    assert_eq!(lines_of("foobar", 6, MIN_FREE_LINES).len(), 0);
}

#[test]
fn truncates_long_messages() {
    let lines = lines_of(
        "hahahahahahahahahahaha truncate this because it's too long for the term",
        22,
        MIN_FREE_LINES + 2,
    );
    assert_eq!(
        lines,
        vec![String::from("hahahahahahahahaha [X]"), String::from("[MESSAGE TRUNCATED]   ")]
    );
}

#[test]
fn hide_button_when_too_narrow() {
    assert_eq!(lines_of("ha", 2, 10), vec![String::from("ha")]);
}

#[test]
fn hide_truncated_when_too_narrow() {
    assert_eq!(
        lines_of("hahahahahahahahaha", 2, MIN_FREE_LINES + 2),
        vec![String::from("ha"), String::from("ha")]
    );
}

#[test]
fn add_newline_for_button() {
    assert_eq!(lines_of("test", 5, 10), vec![String::from("t [X]"), String::from("est  ")]);
}

#[test]
fn wrap_on_words() {
    assert_eq!(
        lines_of("a\nbc defg", 5, 10),
        vec![String::from("a [X]"), String::from("bc   "), String::from("defg ")]
    );
}

#[test]
fn wrap_with_unicode() {
    assert_eq!(
        lines_of("ab\nc 👩d fgh", 7, 10),
        vec![String::from("ab  [X]"), String::from("c 👩 d  "), String::from("fgh    ")]
    );
}

#[test]
fn strip_whitespace_at_linebreak() {
    assert_eq!(
        lines_of("\n0 1 2 3", 3, 10),
        vec![String::from("[X]"), String::from("0 1"), String::from("2 3")]
    );
}

#[test]
fn surrounding_whitespace_is_trimmed() {
    assert_eq!(lines_of("  a \n\t", 7, 10), vec![String::from("a   [X]")]);
    assert_eq!(lines_of("   ", 7, 10), vec![String::from("    [X]")]);
    assert_eq!(lines_of("", 7, 10), vec![String::from("    [X]")]);
}

#[test]
fn text_lines_agree_with_text() {
    let text = "one two three\nfour";
    let chars: Vec<char> = text.chars().collect();
    let lines: Vec<String> =
        Message::text_lines(&chars, 8, 10).iter().map(|line| line.iter().collect()).collect();
    assert_eq!(lines, lines_of(text, 8, 10));
    assert_eq!(lines[0], "one  [X]");
}

#[test]
fn pad_text_fills_with_spaces() {
    assert_eq!(Message::pad_text("ab".into(), 5), "ab   ");
    assert_eq!(Message::pad_text("abcdef".into(), 5), "abcdef");
    assert_eq!(Message::pad_text("".into(), 0), "");
    // Characters are counted, not columns.
    assert_eq!(Message::pad_text("ちは".into(), 4), "ちは  ");
}

#[test]
fn message_keeps_type_and_target() {
    let mut message = Message::new("text".into(), MessageType::Warning);
    assert_eq!(message.ty(), MessageType::Warning);
    assert_eq!(message.target(), None);
    message.set_target("target".into());
    assert_eq!(message.target(), Some(&String::from("target")));
    assert_eq!(message.ty(), MessageType::Warning);
}

#[test]
fn same_as_compares_all_parts() {
    let a = Message::new("a".into(), MessageType::Error);
    let mut with_target = Message::new("a".into(), MessageType::Error);
    with_target.set_target("t".into());
    assert!(a.same_as(&Message::new("a".into(), MessageType::Error)));
    assert!(!a.same_as(&Message::new("b".into(), MessageType::Error)));
    assert!(!a.same_as(&Message::new("a".into(), MessageType::Warning)));
    assert!(!a.same_as(&with_target));
    assert!(with_target.same_as(&with_target));
}

#[test]
fn buffer_shows_messages_in_order() {
    let mut buffer = MessageBuffer::new();
    assert!(buffer.is_empty());
    assert!(buffer.message().is_none());
    buffer.push(Message::new("a".into(), MessageType::Error));
    buffer.push(Message::new("b".into(), MessageType::Warning));
    assert!(!buffer.is_empty());
    assert_eq!(buffer.message().unwrap().text(7, 10), vec![String::from("a   [X]")]);
    buffer.pop();
    assert_eq!(buffer.message().unwrap().ty(), MessageType::Warning);
    buffer.pop();
    assert!(buffer.is_empty());
    // Nothing to take off.
    buffer.pop();
    assert!(buffer.is_empty());
}

#[test]
fn remove_duplicates() {
    let mut buffer = MessageBuffer::new();
    for _ in 0..10 {
        buffer.push(Message::new("test".into(), MessageType::Error));
    }
    buffer.push(Message::new("other".into(), MessageType::Error));
    buffer.push(Message::new("test".into(), MessageType::Warning));
    buffer.push(Message::new("test".into(), MessageType::Error));
    // The message and everything that equals it leaves.
    buffer.pop();
    assert!(buffer.message().unwrap().same_as(&Message::new("other".into(), MessageType::Error)));
    assert!(!buffer.is_queued(&Message::new("test".into(), MessageType::Error)));
    // The warning with the same text is another message.
    buffer.pop();
    assert!(buffer.message().unwrap().same_as(&Message::new("test".into(), MessageType::Warning)));
    buffer.pop();
    assert!(buffer.is_empty());
}

#[test]
fn is_queued_finds_equal_messages() {
    let mut buffer = MessageBuffer::new();
    let message = Message::new("a".into(), MessageType::Error);
    assert!(!buffer.is_queued(&message));
    buffer.push(Message::new("b".into(), MessageType::Error));
    buffer.push(Message::new("a".into(), MessageType::Error));
    assert!(buffer.is_queued(&message));
    assert!(!buffer.is_queued(&Message::new("a".into(), MessageType::Warning)));
}
