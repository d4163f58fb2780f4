use panewatch::config::ProjectSource;
use panewatch::pipeline::{process_line, strip_line_ending};
use panewatch::registry::PaneRegistry;
use panewatch::semantic::SemanticParser;
use panewatch::types::{AnsiStyle, EventType, SemanticContent};

#[test]
fn line_endings() {
    assert_eq!(strip_line_ending("abc\r\n"), "abc");
    assert_eq!(strip_line_ending("abc\n\n"), "abc");
    assert_eq!(strip_line_ending("abc\n\r"), "abc\n");
    assert_eq!(strip_line_ending("abc"), "abc");
}

#[test]
fn lines_are_numbered_and_stored() {
    let mut reg = PaneRegistry::new(2);
    let pane = "bot:0.0".to_string();
    reg.register_with_id(&pane, None, "sid".to_string());
    let mut parser = SemanticParser::new(ProjectSource::Python);
    for n in 0..3u64 {
        let ev = process_line(
            "\u{1b}[1mhello",
            "hello".to_string(),
            AnsiStyle::default(),
            &pane,
            &mut reg,
            &mut parser,
            10,
        )
        .unwrap();
        match ev.event_type {
            EventType::Line { line_number, raw, clean, semantic, .. } => {
                assert_eq!(line_number, n);
                assert_eq!(raw, "\u{1b}[1mhello");
                assert_eq!(clean, "hello");
                assert!(matches!(semantic, SemanticContent::Raw));
            }
            _ => panic!("expected a line event"),
        }
        assert_eq!(ev.stream_id, "sid");
    }
    let (lines, total) = reg.snapshot(&pane).unwrap();
    assert_eq!(lines.len(), 2);
    assert_eq!(total, 3);
}

#[test]
fn lines_of_unknown_panes_are_dropped() {
    let mut reg = PaneRegistry::new(2);
    let mut parser = SemanticParser::new(ProjectSource::Python);
    let ev = process_line(
        "x",
        "x".to_string(),
        AnsiStyle::default(),
        &"nobody:0.0".to_string(),
        &mut reg,
        &mut parser,
        0,
    );
    assert!(ev.is_none());
}
