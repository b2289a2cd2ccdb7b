use chat_tui::driver::{resume_header_value, stream_status_message, StreamDriver};
use chat_tui::events::{payload_event, DomainEvent, EventKind};
use chat_tui::session::{deliver, ChatSession, Speaker, TurnState};
use chat_tui::sse::SseEvent;

fn feed_all(driver: &mut StreamDriver, body: &[u8], chunk: usize) -> Vec<DomainEvent> {
    let mut out = Vec::new();
    for c in body.chunks(chunk) {
        out.extend(driver.feed_bytes(c));
    }
    out
}

#[test]
fn send_stream_and_close_scenario() {
    let mut sessions = vec![ChatSession::new()];
    let start = sessions[0].begin_send(10, 1_700_000_000_000, true).unwrap();
    assert_eq!(start.generation, 1);
    assert_eq!(start.conversation_id, "conv-1700000000000");
    assert_eq!(start.resume_id, None);
    assert_eq!(sessions[0].turn_state(), &TurnState::Sending);
    assert!(sessions[0].post_outcome(start.generation, Some(200), 20));
    assert_eq!(sessions[0].turn_state(), &TurnState::AwaitingResponse);

    let mut driver = StreamDriver::new(0, start.generation);
    let body = "id: 1\nevent:\ndata: {\"event\":\"token\",\"text\":\"Hel\"}\n\n\
                id: 2\n\ndata: {\"event\":\"token\",\"text\":\"lo\"}\n\n\
                data: {\"event\":\"output\",\"text\":\"Hello\"}\n\n";
    for ev in feed_all(&mut driver, body.as_bytes(), 7) {
        deliver(&mut sessions, ev, 30);
    }
    deliver(&mut sessions, driver.finish(), 40);

    let s = &sessions[0];
    let msgs = s.messages();
    assert_eq!(msgs.len(), 1);
    assert_eq!(msgs[0].speaker, Speaker::Model);
    assert_eq!(msgs[0].content, "Hello");
    assert_eq!(s.last_event_id(), Some("2"));
    assert_eq!(s.turn_state(), &TurnState::Idle);
    assert_eq!(s.busy_since(), None);
}

#[test]
fn post_failure_scenario() {
    let mut session = ChatSession::new();
    let start = session.begin_send(5, 42, true).unwrap();
    let open_stream = session.post_outcome(start.generation, Some(500), 6);
    assert!(!open_stream);
    assert_eq!(
        session.turn_state(),
        &TurnState::Errored {
            message: "send failed (500)".to_string()
        }
    );
    assert_eq!(session.busy_since(), Some(6));
    assert!(session.messages().is_empty());
}

#[test]
fn post_transport_error() {
    let mut session = ChatSession::new();
    let start = session.begin_send(5, 42, true).unwrap();
    assert!(!session.post_outcome(start.generation, None, 6));
    assert_eq!(
        session.turn_state(),
        &TurnState::Errored {
            message: "send failed".to_string()
        }
    );
}

#[test]
fn gateway_down_fails_at_once() {
    let mut session = ChatSession::new();
    assert!(session.begin_send(5, 99, false).is_none());
    assert_eq!(session.generation(), 1);
    assert_eq!(session.conversation_id(), Some("conv-99"));
    assert_eq!(
        session.turn_state(),
        &TurnState::Errored {
            message: "gateway unreachable".to_string()
        }
    );
    assert!(session.messages().is_empty());
}

#[test]
fn stale_generation_ignored() {
    let mut session = ChatSession::new();
    session.begin_send(1, 1, true).unwrap();
    let start = session.begin_send(2, 1, true).unwrap();
    assert_eq!(start.generation, 2);
    assert_eq!(start.conversation_id, "conv-1");
    session.apply(1, EventKind::ModelTokenDelta { text: "old".to_string() }, 3);
    session.apply(1, EventKind::ResumeCursor { id: "9".to_string() }, 3);
    session.apply(2, EventKind::ModelTokenDelta { text: "new".to_string() }, 4);
    session.apply(1, EventKind::StreamEnded, 5);
    assert_eq!(session.messages().len(), 1);
    assert_eq!(session.messages()[0].content, "new");
    assert_eq!(session.last_event_id(), None);
    assert_eq!(session.turn_state(), &TurnState::StreamingTokens);
}

#[test]
fn cursor_kept_when_fault_follows() {
    let mut session = ChatSession::new();
    let start = session.begin_send(1, 1, true).unwrap();
    assert!(session.post_outcome(start.generation, Some(204), 2));
    let mut driver = StreamDriver::new(0, start.generation);
    let mut evs = driver.feed_bytes(b"id: 5\ndata: {\"event\":\"token\",\"text\":\"x\"}\n\nid: 6\ndata: {\"eve");
    assert_eq!(evs.len(), 2);
    assert_eq!(evs[0].kind, EventKind::ResumeCursor { id: "5".to_string() });
    evs.push(driver.read_failed());
    let mut sessions = vec![session];
    for ev in evs {
        deliver(&mut sessions, ev, 3);
    }
    assert_eq!(sessions[0].last_event_id(), Some("5"));
    assert_eq!(
        sessions[0].turn_state(),
        &TurnState::Errored {
            message: "stream interrupted".to_string()
        }
    );
    let next = sessions[0].begin_send(4, 1, true).unwrap();
    assert_eq!(next.resume_id.as_deref(), Some("5"));
}

fn tool(name: &str, status: &str) -> EventKind {
    EventKind::ToolStep {
        name: name.to_string(),
        status: status.to_string(),
        summary: None,
    }
}

#[test]
fn tool_timer_kept_for_same_tool() {
    let mut session = ChatSession::new();
    let g = session.begin_send(1, 1, true).unwrap().generation;
    session.apply(g, tool("search", "running"), 100);
    assert_eq!(session.busy_since(), Some(100));
    session.apply(g, tool("search", "running"), 250);
    assert_eq!(session.busy_since(), Some(100));
    session.apply(g, tool("search", "indexing"), 300);
    assert_eq!(session.busy_since(), Some(100));
    session.apply(g, tool("fetch", "running"), 400);
    assert_eq!(session.busy_since(), Some(400));
}

#[test]
fn awaiting_response_timer_kept() {
    let mut session = ChatSession::new();
    let g = session.begin_send(1, 1, true).unwrap().generation;
    assert!(session.post_outcome(g, Some(200), 10));
    assert_eq!(session.busy_since(), Some(10));
    session.apply(g, tool("x", "succeeded"), 20);
    assert_eq!(session.turn_state(), &TurnState::AwaitingResponse);
    assert_eq!(session.busy_since(), Some(10));
}

#[test]
fn tool_failure_and_transcript_lines() {
    let mut session = ChatSession::new();
    let g = session.begin_send(1, 1, true).unwrap().generation;
    session.apply(
        g,
        EventKind::ToolStep {
            name: "grep".to_string(),
            status: "running".to_string(),
            summary: Some("3 hits".to_string()),
        },
        2,
    );
    assert_eq!(
        session.turn_state(),
        &TurnState::StreamingTool {
            name: "grep".to_string(),
            status: "running".to_string(),
            summary: Some("3 hits".to_string()),
        }
    );
    session.apply(g, tool("grep", "failed"), 3);
    assert_eq!(
        session.turn_state(),
        &TurnState::Errored {
            message: "Tool grep failed".to_string()
        }
    );
    let msgs = session.messages();
    assert_eq!(msgs[0].content, "[tool:running] grep: 3 hits");
    assert_eq!(msgs[1].content, "[tool:failed] grep");
    assert_eq!(msgs[1].speaker, Speaker::Tool);
}

#[test]
fn user_echo_and_new_model_message() {
    let mut session = ChatSession::new();
    let g = session.begin_send(1, 1, true).unwrap().generation;
    session.apply(g, EventKind::ModelFinal { text: "a".to_string() }, 2);
    session.apply(g, EventKind::UserEcho { text: "q".to_string() }, 3);
    session.apply(g, EventKind::ModelTokenDelta { text: "b".to_string() }, 4);
    session.apply(g, EventKind::ModelTokenDelta { text: "c".to_string() }, 5);
    let msgs = session.messages();
    assert_eq!(msgs.len(), 3);
    assert_eq!(msgs[0].content, "a");
    assert_eq!(msgs[1].speaker, Speaker::User);
    assert_eq!(msgs[2].content, "bc");
}

#[test]
fn open_conversation_resets() {
    let mut session = ChatSession::new();
    let g = session.begin_send(1, 1, true).unwrap().generation;
    session.apply(g, EventKind::ResumeCursor { id: "3".to_string() }, 2);
    session.apply(g, EventKind::UserEcho { text: "q".to_string() }, 3);
    let g2 = session.open_conversation("conv-7".to_string());
    assert_eq!(g2, 2);
    assert_eq!(session.conversation_id(), Some("conv-7"));
    assert_eq!(session.last_event_id(), None);
    assert!(session.messages().is_empty());
}

#[test]
fn deliver_to_missing_session_dropped() {
    let mut sessions = vec![ChatSession::new()];
    deliver(
        &mut sessions,
        DomainEvent {
            session: 3,
            generation: 0,
            kind: EventKind::StreamEnded,
        },
        1,
    );
    assert_eq!(sessions.len(), 1);
    assert!(sessions[0].messages().is_empty());
}

#[test]
fn payload_kinds_decoded() {
    assert_eq!(
        payload_event("{\"event\":\"user_message\",\"text\":\"hi\"}"),
        Some(EventKind::UserEcho { text: "hi".to_string() })
    );
    assert_eq!(
        payload_event("{\"event\":\"tool_step\",\"status\":\"running\",\"result_summary\":\"\"}"),
        Some(EventKind::ToolStep {
            name: "tool".to_string(),
            status: "running".to_string(),
            summary: None
        })
    );
    assert_eq!(payload_event("{\"event\":\"token\"}"), None);
    assert_eq!(payload_event("{\"event\":\"heartbeat\",\"text\":\"x\"}"), None);
    assert_eq!(payload_event("not json"), None);
    assert_eq!(payload_event(""), None);
}

#[test]
fn dispatch_tags_event() {
    let ev = SseEvent {
        data: "{\"event\":\"output\",\"text\":\"done\"}".to_string(),
        ..Default::default()
    };
    assert_eq!(
        ev.dispatch_to_ui(2, 9),
        Some(DomainEvent {
            session: 2,
            generation: 9,
            kind: EventKind::ModelFinal { text: "done".to_string() }
        })
    );
    assert_eq!(SseEvent::default().dispatch_to_ui(0, 0), None);
}

#[test]
fn response_faults() {
    let driver = StreamDriver::new(1, 4);
    assert_eq!(driver.response_fault(Some(200)), None);
    assert_eq!(
        driver.response_fault(Some(404)),
        Some(DomainEvent {
            session: 1,
            generation: 4,
            kind: EventKind::StreamFault {
                message: "stream failed with status 404 Not Found".to_string()
            }
        })
    );
    assert_eq!(
        driver.response_fault(None).unwrap().kind,
        EventKind::StreamFault {
            message: "stream request failed".to_string()
        }
    );
    assert_eq!(driver.finish().kind, EventKind::StreamEnded);
}

#[test]
fn invalid_utf8_line_skipped() {
    let mut driver = StreamDriver::new(0, 1);
    let evs = driver.feed_bytes(b"data: \xff\xfe\ndata: {\"event\":\"token\",\"text\":\"ok\"}\n\n");
    assert_eq!(evs.len(), 1);
    assert_eq!(evs[0].kind, EventKind::ModelTokenDelta { text: "ok".to_string() });
}

#[test]
fn chunking_does_not_matter() {
    let body = b"id: 7\ndata: {\"event\":\"token\",\"text\":\"a\"}\n\ndata: {\"event\":\"output\",\"text\":\"ab\"}\n\n";
    let mut whole = StreamDriver::new(0, 1);
    let all = whole.feed_bytes(body);
    let mut bytewise = StreamDriver::new(0, 1);
    let pieces = feed_all(&mut bytewise, body, 1);
    assert_eq!(all, pieces);
    assert_eq!(all.len(), 3);
    assert_eq!(all[0].kind, EventKind::ResumeCursor { id: "7".to_string() });
}

fn fault_text(ev: Option<DomainEvent>) -> String {
    match ev.map(|e| e.kind) {
        Some(EventKind::StreamFault { message }) => message,
        _ => panic!("expected a fault"),
    }
}

#[test]
fn stream_status_faults_carry_reason() {
    let driver = StreamDriver::new(0, 1);
    assert_eq!(
        fault_text(driver.response_fault(Some(500))),
        "stream failed with status 500 Internal Server Error"
    );
    assert_eq!(
        fault_text(driver.response_fault(Some(302))),
        "stream failed with status 302 Found"
    );
    assert_eq!(
        fault_text(driver.response_fault(Some(599))),
        "stream failed with status 599 <unknown status code>"
    );
    assert_eq!(
        fault_text(driver.response_fault(Some(42))),
        "stream failed with status 42"
    );
    assert_eq!(driver.response_fault(Some(299)), None);
}

#[test]
fn status_message_from_shown_status() {
    assert_eq!(
        stream_status_message(503, Some("503 Service Unavailable")),
        "stream failed with status 503 Service Unavailable"
    );
    assert_eq!(stream_status_message(7, None), "stream failed with status 7");
}

#[test]
fn resume_header_only_for_nonempty_cursor() {
    assert_eq!(resume_header_value(Some("12")), Some("12"));
    assert_eq!(resume_header_value(Some("")), None);
    assert_eq!(resume_header_value(None), None);
}

#[test]
fn interleaved_stale_run_ignored() {
    let mut sessions = vec![ChatSession::new()];
    let g1 = sessions[0].begin_send(1, 1, true).unwrap().generation;
    let g2 = sessions[0].begin_send(2, 1, true).unwrap().generation;
    let mut old = StreamDriver::new(0, g1);
    let mut cur = StreamDriver::new(0, g2);
    let a = old.feed_bytes(b"id: 1\ndata: {\"event\":\"token\",\"text\":\"stale\"}\n\n");
    let b = cur.feed_bytes(b"id: 2\ndata: {\"event\":\"token\",\"text\":\"fresh\"}\n\n");
    let mut mixed = Vec::new();
    for (x, y) in a.into_iter().zip(b) {
        mixed.push(x);
        mixed.push(y);
    }
    mixed.push(old.finish());
    for ev in mixed {
        deliver(&mut sessions, ev, 5);
    }
    assert_eq!(sessions[0].messages().len(), 1);
    assert_eq!(sessions[0].messages()[0].content, "fresh");
    assert_eq!(sessions[0].last_event_id(), Some("2"));
    assert_eq!(sessions[0].turn_state(), &TurnState::StreamingTokens);
}
