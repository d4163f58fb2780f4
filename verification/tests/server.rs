use panewatch::registry::PaneRegistry;
use panewatch::server::{lag_event, lag_message, ping_event, replay, snapshot_event, tail_events, wants_event};
use panewatch::types::{AnsiStyle, EventType, PaneEvent, SemanticContent};

fn line(n: i64) -> PaneEvent {
    PaneEvent {
        stream_id: "s".to_string(),
        pane_id: "p:0.0".to_string(),
        timestamp: n,
        event_type: EventType::Line {
            raw: String::new(),
            clean: String::new(),
            style: AnsiStyle::default(),
            semantic: SemanticContent::Raw,
            line_number: n as u64,
        },
    }
}

#[test]
fn tails() {
    let all: Vec<PaneEvent> = (0..5).map(line).collect();
    let t: Vec<i64> = tail_events(all, Some(2)).iter().map(|e| e.timestamp).collect();
    assert_eq!(t, vec![3, 4]);
    let all: Vec<PaneEvent> = (0..3).map(line).collect();
    assert_eq!(tail_events(all, Some(10)).len(), 3);
    let all: Vec<PaneEvent> = (0..3).map(line).collect();
    assert_eq!(tail_events(all, None).len(), 3);
}

#[test]
fn replay_and_snapshot() {
    let mut reg = PaneRegistry::new(10);
    let pane = "p:0.0".to_string();
    reg.register_with_id(&pane, None, "sid".to_string());
    for n in 0..4 {
        reg.push_line(&pane, line(n));
    }
    let (lines, total) = replay(&reg, &pane, Some(1)).unwrap();
    assert_eq!(lines.len(), 1);
    assert_eq!(lines[0].timestamp, 3);
    assert_eq!(total, 4);
    let snap = snapshot_event(&reg, &pane, None, 99).unwrap();
    assert_eq!(snap.stream_id, "sid");
    assert_eq!(snap.timestamp, 99);
    match snap.event_type {
        EventType::Snapshot { lines, total_lines } => {
            assert_eq!(lines.len(), 4);
            assert_eq!(total_lines, 4);
        }
        _ => panic!("expected a snapshot"),
    }
    assert!(snapshot_event(&reg, &"x:0.0".to_string(), None, 0).is_none());
}

#[test]
fn filters_and_system_events() {
    let p = "p:0.0".to_string();
    assert!(wants_event(&None, &p));
    assert!(wants_event(&Some(p.clone()), &p));
    assert!(!wants_event(&Some("q:0.0".to_string()), &p));
    assert_eq!(lag_message(17), "Slow consumer: 17 lines dropped");
    let e = lag_event(&Some(p.clone()), 0, 5);
    assert_eq!(e.stream_id, "system");
    assert_eq!(e.pane_id, "p:0.0");
    match e.event_type {
        EventType::Error { message } => assert_eq!(message, "Slow consumer: 0 lines dropped"),
        _ => panic!("expected an error event"),
    }
    let ping = ping_event(7);
    assert!(matches!(ping.event_type, EventType::Ping));
    assert_eq!(ping.pane_id, "");
}
