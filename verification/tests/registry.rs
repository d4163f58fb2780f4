use panewatch::registry::pane::{PaneEntry, PaneState};
use panewatch::registry::PaneRegistry;
use panewatch::types::{AnsiStyle, EventType, PaneEvent, SemanticContent};

fn line(n: u64) -> PaneEvent {
    PaneEvent {
        stream_id: "s".to_string(),
        pane_id: "bot:0.0".to_string(),
        timestamp: n as i64,
        event_type: EventType::Line {
            raw: format!("line {n}"),
            clean: format!("line {n}"),
            style: AnsiStyle::default(),
            semantic: SemanticContent::Raw,
            line_number: n,
        },
    }
}

fn numbers(events: &[PaneEvent]) -> Vec<i64> {
    events.iter().map(|e| e.timestamp).collect()
}

#[test]
fn register_is_idempotent() {
    let mut reg = PaneRegistry::new(3);
    let pane = "bot:0.0".to_string();
    let first = reg.register(&pane, Some("main".to_string()));
    assert_eq!(first.len(), 36);
    let chars: Vec<char> = first.chars().collect();
    for (i, c) in chars.iter().enumerate() {
        if i == 8 || i == 13 || i == 18 || i == 23 {
            assert_eq!(*c, '-');
        } else {
            assert!(c.is_ascii_digit() || ('a'..='f').contains(c));
        }
    }
    assert_eq!(chars[14], '4');
    assert!(['8', '9', 'a', 'b'].contains(&chars[19]));
    let again = reg.register(&pane, None);
    assert_eq!(first, again);
    assert_eq!(reg.list().len(), 1);
    assert_eq!(reg.stream_id(&pane), Some(first));
}

#[test]
fn register_with_given_id() {
    let mut reg = PaneRegistry::new(3);
    let pane = "bot:1.0".to_string();
    assert_eq!(reg.register_with_id(&pane, None, "abc".to_string()), "abc");
    assert_eq!(reg.register_with_id(&pane, None, "xyz".to_string()), "abc");
    let info = &reg.list()[0];
    assert_eq!(info.pane_id, "bot:1.0");
    assert_eq!(info.stream_id, "abc");
    assert_eq!(info.state, PaneState::Detached);
    assert_eq!(info.line_count, 0);
}

#[test]
fn unregister_removes_only_that_pane() {
    let mut reg = PaneRegistry::new(3);
    let a = "a:0.0".to_string();
    let b = "b:0.0".to_string();
    reg.register_with_id(&a, None, "1".to_string());
    reg.register_with_id(&b, None, "2".to_string());
    assert!(reg.unregister(&a).is_none());
    assert!(!reg.contains(&a));
    assert!(reg.contains(&b));
    assert_eq!(reg.stream_id(&b).as_deref(), Some("2"));
    assert!(reg.unregister(&a).is_none());
    assert_eq!(reg.list().len(), 1);
}

#[test]
fn attach_and_detach_states() {
    let mut reg = PaneRegistry::new(3);
    let pane = "a:0.0".to_string();
    reg.register_with_id(&pane, None, "1".to_string());
    assert!(!reg.is_attached(&pane));
    let (tx, mut rx) = tokio::sync::oneshot::channel::<()>();
    reg.set_attached(&pane, tx);
    assert!(reg.is_attached(&pane));
    assert!(reg.unregister(&pane).is_some());
    assert!(rx.try_recv().is_ok());

    reg.register_with_id(&pane, None, "1".to_string());
    let (tx, _rx) = tokio::sync::oneshot::channel::<()>();
    reg.set_attached(&pane, tx);
    reg.set_detached(&pane);
    assert!(!reg.is_attached(&pane));
    assert!(!reg.is_attached(&"unknown:0.0".to_string()));
}

#[test]
fn replay_keeps_the_latest_lines() {
    let mut reg = PaneRegistry::new(3);
    let pane = "bot:0.0".to_string();
    reg.register_with_id(&pane, None, "s".to_string());
    for n in 0..5 {
        reg.push_line(&pane, line(n));
    }
    let (lines, total) = reg.snapshot(&pane).unwrap();
    assert_eq!(numbers(&lines), vec![2, 3, 4]);
    assert_eq!(total, 5);
    assert!(reg.snapshot(&"other:0.0".to_string()).is_none());
}

#[test]
fn zero_capacity_keeps_one_line() {
    let mut entry = PaneEntry::new("s".to_string(), None, 0);
    entry.push_line(line(1));
    entry.push_line(line(2));
    assert_eq!(numbers(&entry.snapshot()), vec![2]);
    assert_eq!(entry.line_count, 2);
}

#[test]
fn push_to_unknown_pane_changes_nothing() {
    let mut reg = PaneRegistry::new(3);
    reg.push_line(&"ghost:0.0".to_string(), line(0));
    assert!(reg.list().is_empty());
    assert_eq!(reg.line_count(&"ghost:0.0".to_string()), None);
}

#[test]
fn changing_one_pane_leaves_the_others() {
    let mut reg = PaneRegistry::new(2);
    let a = "a:0.0".to_string();
    let b = "b:0.0".to_string();
    reg.register_with_id(&a, Some("left".to_string()), "1".to_string());
    reg.register_with_id(&b, Some("right".to_string()), "2".to_string());
    reg.push_line(&b, line(7));
    let (tx, _rx) = tokio::sync::oneshot::channel::<()>();
    reg.set_attached(&a, tx);
    reg.push_line(&a, line(1));
    reg.push_line(&a, line(2));
    reg.push_line(&a, line(3));

    let (b_lines, b_total) = reg.snapshot(&b).unwrap();
    assert_eq!(numbers(&b_lines), vec![7]);
    assert_eq!(b_total, 1);
    assert!(!reg.is_attached(&b));
    let (a_lines, a_total) = reg.snapshot(&a).unwrap();
    assert_eq!(numbers(&a_lines), vec![2, 3]);
    assert_eq!(a_total, 3);
    let infos = reg.list();
    assert_eq!(infos[1].label.as_deref(), Some("right"));
    assert_eq!(infos[1].stream_id, "2");
}
