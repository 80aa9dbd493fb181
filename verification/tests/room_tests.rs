use tui_chat::room::{
    relay_decision, session_step, writer_decision, ChatHistory, QueueEvent, RelayEvent,
    SessionAction, SessionEvent,
};

#[test]
fn history_replays_everything_in_order() {
    let mut h = ChatHistory::new();
    assert_eq!(h.replay(), Vec::<String>::new());
    h.record("one".to_string());
    h.record("two".to_string());
    assert_eq!(h.len(), 2);
    assert_eq!(h.replay(), vec!["one".to_string(), "two".to_string()]);
}

#[test]
fn client_line_is_recorded_and_broadcast() {
    let mut h = ChatHistory::new();
    h.record("old".to_string());
    let a = session_step(&mut h, SessionEvent::ClientLine("hi".to_string()));
    assert_eq!(
        a,
        vec![SessionAction::Log("hi".to_string()), SessionAction::Broadcast("hi".to_string())]
    );
    assert_eq!(h.replay(), vec!["old".to_string(), "hi".to_string()]);
}

#[test]
fn room_line_is_delivered_without_recording() {
    let mut h = ChatHistory::new();
    let a = session_step(&mut h, SessionEvent::RoomLine("x".to_string()));
    assert_eq!(a, vec![SessionAction::Deliver("x".to_string())]);
    assert_eq!(h.len(), 0);
}

#[test]
fn failures_end_the_session() {
    let mut h = ChatHistory::new();
    assert_eq!(session_step(&mut h, SessionEvent::ClientEnded), vec![SessionAction::Stop]);
    assert_eq!(session_step(&mut h, SessionEvent::RoomFailed), vec![SessionAction::Stop]);
    assert_eq!(h.len(), 0);
}

#[test]
fn history_grows_by_client_lines_only() {
    let mut h = ChatHistory::new();
    let events = vec![
        SessionEvent::ClientLine("a".to_string()),
        SessionEvent::RoomLine("b".to_string()),
        SessionEvent::ClientLine("c".to_string()),
        SessionEvent::RoomFailed,
    ];
    for e in events {
        session_step(&mut h, e);
    }
    assert_eq!(h.replay(), vec!["a".to_string(), "c".to_string()]);
}

#[test]
fn relay_forwards_lines_and_stops_otherwise() {
    assert_eq!(relay_decision(RelayEvent::Line("m".to_string())), Some("m".to_string()));
    assert_eq!(relay_decision(RelayEvent::Failed), None);
    assert_eq!(relay_decision(RelayEvent::Ended), None);
}

#[test]
fn session_broadcasts_and_logs_client_lines_in_order() {
    let mut h = ChatHistory::new();
    let events = vec![
        SessionEvent::ClientLine("a".to_string()),
        SessionEvent::RoomLine("x".to_string()),
        SessionEvent::ClientLine("b".to_string()),
        SessionEvent::RoomLine("a".to_string()),
    ];
    let mut broadcast = Vec::new();
    let mut logged = Vec::new();
    let mut delivered = Vec::new();
    for e in events {
        for a in session_step(&mut h, e) {
            match a {
                SessionAction::Broadcast(m) => broadcast.push(m),
                SessionAction::Log(m) => logged.push(m),
                SessionAction::Deliver(m) => delivered.push(m),
                SessionAction::Stop => panic!("no stop expected"),
            }
        }
    }
    assert_eq!(broadcast, vec!["a".to_string(), "b".to_string()]);
    assert_eq!(logged, broadcast);
    assert_eq!(delivered, vec!["x".to_string(), "a".to_string()]);
}

#[test]
fn relay_passes_on_a_prefix_of_the_lines() {
    let events = vec![
        RelayEvent::Line("1".to_string()),
        RelayEvent::Line("2".to_string()),
        RelayEvent::Failed,
        RelayEvent::Line("3".to_string()),
    ];
    let mut forwarded = Vec::new();
    for e in events {
        match relay_decision(e) {
            Some(l) => forwarded.push(l),
            None => break,
        }
    }
    assert_eq!(forwarded, vec!["1".to_string(), "2".to_string()]);
}

#[test]
fn writer_sends_queued_lines_and_skips_the_rest() {
    assert_eq!(writer_decision(QueueEvent::Message("m".to_string())), Some("m".to_string()));
    assert_eq!(writer_decision(QueueEvent::Empty), None);
    assert_eq!(writer_decision(QueueEvent::Lagged), None);
    assert_eq!(writer_decision(QueueEvent::Closed), None);
}

#[test]
fn writer_sends_exactly_the_queued_messages_in_order() {
    let events = vec![
        QueueEvent::Empty,
        QueueEvent::Message("first".to_string()),
        QueueEvent::Lagged,
        QueueEvent::Message("second".to_string()),
        QueueEvent::Closed,
        QueueEvent::Message("third".to_string()),
    ];
    let sent: Vec<String> = events.into_iter().filter_map(writer_decision).collect();
    assert_eq!(sent, vec!["first".to_string(), "second".to_string(), "third".to_string()]);
}
