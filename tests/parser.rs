use chat_tui::sse::{SseEvent, SseParser};

#[test]
fn test_sse_parser_single_line() {
    let mut parser = SseParser::new();
    assert_eq!(parser.process_line("data: test"), None);
    assert_eq!(
        parser.process_line(""),
        Some(SseEvent {
            data: "test".to_string(),
            ..Default::default()
        })
    );
}

#[test]
fn test_sse_parser_multi_line() {
    let mut parser = SseParser::new();
    assert_eq!(parser.process_line("data: line1"), None);
    assert_eq!(parser.process_line("data: line2"), None);
    assert_eq!(
        parser.process_line(""),
        Some(SseEvent {
            data: "line1\nline2".to_string(),
            ..Default::default()
        })
    );
}

#[test]
fn test_sse_parser_with_id_and_event() {
    let mut parser = SseParser::new();
    assert_eq!(parser.process_line("id: 123"), None);
    assert_eq!(parser.process_line("event: token"), None);
    assert_eq!(parser.process_line("data: test"), None);
    assert_eq!(
        parser.process_line(""),
        Some(SseEvent {
            id: Some("123".to_string()),
            event: Some("token".to_string()),
            data: "test".to_string(),
            ..Default::default()
        })
    );
}

#[test]
fn test_sse_parser_comment_ignored() {
    let mut parser = SseParser::new();
    assert_eq!(parser.process_line(": this is a comment"), None);
    assert_eq!(parser.process_line("data: test"), None);
    assert_eq!(
        parser.process_line(""),
        Some(SseEvent {
            data: "test".to_string(),
            ..Default::default()
        })
    );
}

#[test]
fn test_sse_parser_data_without_space() {
    let mut parser = SseParser::new();
    assert_eq!(parser.process_line("data:line1"), None);
    assert_eq!(parser.process_line("data:line2"), None);
    assert_eq!(
        parser.process_line(""),
        Some(SseEvent {
            data: "line1\nline2".to_string(),
            ..Default::default()
        })
    );
}

#[test]
fn split_data_joined_in_order() {
    let mut parser = SseParser::new();
    for frag in ["a", "", "b c", "d"] {
        assert_eq!(parser.process_line(&format!("data: {}", frag)), None);
    }
    let ev = parser.process_line("").unwrap();
    assert_eq!(ev.data, "a\n\nb c\nd");
    assert!(!parser.has_pending_data());
}

#[test]
fn comment_between_data_lines_dropped() {
    let mut parser = SseParser::new();
    assert_eq!(parser.process_line("data: one"), None);
    assert_eq!(parser.process_line(":keepalive"), None);
    assert!(parser.has_pending_data());
    assert_eq!(parser.process_line("data: two"), None);
    assert_eq!(parser.process_line(": more"), None);
    let ev = parser.process_line("").unwrap();
    assert_eq!(ev.data, "one\ntwo");
}

#[test]
fn blank_lines_alone_emit_nothing() {
    let mut parser = SseParser::new();
    for line in ["", "\r", "", "\r\r"] {
        assert_eq!(parser.process_line(line), None);
    }
    assert!(!parser.has_pending_data());
}

#[test]
fn fields_trimmed_and_overwritten() {
    let mut parser = SseParser::new();
    assert_eq!(parser.process_line("id: 1"), None);
    assert_eq!(parser.process_line("id:   7  \r"), None);
    assert_eq!(parser.process_line("retry: 500"), None);
    let ev = parser.process_line("").unwrap();
    assert_eq!(ev.id.as_deref(), Some("7"));
    assert_eq!(ev.get_id(), Some("7"));
    assert_eq!(ev.retry.as_deref(), Some("500"));
    assert_eq!(ev.event, None);
    assert_eq!(ev.data, "");
}

#[test]
fn unprefixed_line_continues_data_only_when_pending() {
    let mut parser = SseParser::new();
    assert_eq!(parser.process_line("stray"), None);
    assert!(!parser.has_pending_data());
    assert_eq!(parser.process_line("data: x"), None);
    assert_eq!(parser.process_line("more"), None);
    let ev = parser.process_line("").unwrap();
    assert_eq!(ev.data, "x\nmore");
    assert_eq!(parser.process_line("stray"), None);
    assert_eq!(parser.process_line(""), None);
}

#[test]
fn crlf_line_endings_stripped() {
    let mut parser = SseParser::new();
    assert_eq!(parser.process_line("event: token\r"), None);
    assert_eq!(parser.process_line("data: hi\r"), None);
    let ev = parser.process_line("\r").unwrap();
    assert_eq!(ev.event.as_deref(), Some("token"));
    assert_eq!(ev.data, "hi");
}
