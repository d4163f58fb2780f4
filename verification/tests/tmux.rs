use panewatch::registry::PaneRegistry;
use panewatch::tmux::{
    begin_attach, discovery_plan, fifo_file_name, finish_detach, pipe_command, validate_pane_id,
};

fn strings(list: &[&str]) -> Vec<String> {
    list.iter().map(|s| s.to_string()).collect()
}

#[test]
fn pane_id_validation() {
    assert!(validate_pane_id("bot:0.1").is_ok());
    assert!(validate_pane_id("my-bot_2.x:12.3").is_ok());
    assert_eq!(
        validate_pane_id("bot; rm -rf /:0.1").unwrap_err(),
        "Invalid pane_id 'bot; rm -rf /:0.1': must match session:window.pane"
    );
    assert!(validate_pane_id("bot:0").is_err());
}

#[test]
fn fifo_and_pipe_command() {
    assert_eq!(fifo_file_name("abc"), "abc.fifo");
    assert_eq!(pipe_command("/tmp/p/abc.fifo"), "cat >> /tmp/p/abc.fifo");
}

#[test]
fn attach_registers_once() {
    let mut reg = PaneRegistry::new(10);
    let pane = "bot:0.0".to_string();
    let id = begin_attach(&mut reg, &pane, None).unwrap().unwrap();
    assert_eq!(reg.stream_id(&pane), Some(id.clone()));
    let (tx, mut rx) = tokio::sync::oneshot::channel::<()>();
    reg.set_attached(&pane, tx);
    assert_eq!(begin_attach(&mut reg, &pane, None), Ok(None));
    assert!(begin_attach(&mut reg, &"bad id".to_string(), None).is_err());
    let (detached_id, signal) = finish_detach(&mut reg, &pane);
    assert_eq!(detached_id, id);
    assert!(signal.is_some());
    assert!(rx.try_recv().is_ok());
    assert!(!reg.contains(&pane));
    let (gone_id, gone_signal) = finish_detach(&mut reg, &pane);
    assert_eq!(gone_id, "");
    assert!(gone_signal.is_none());
}

#[test]
fn discovery_attaches_new_and_detaches_gone() {
    let listing = "bot:0.0\nbot:0.1\r\nother:1.0\nbot:0.0\n";
    let (attach, detach) = discovery_plan(
        listing,
        &strings(&["bot"]),
        &strings(&["bot:0.1", "bot:9.9", "other:1.0"]),
    );
    assert_eq!(attach, strings(&["bot:0.0"]));
    assert_eq!(detach, strings(&["bot:9.9", "other:1.0"]));
}

#[test]
fn discovery_without_sessions_detaches_all() {
    let (attach, detach) = discovery_plan("bot:0.0\n", &strings(&[]), &strings(&["bot:0.0"]));
    assert!(attach.is_empty());
    assert_eq!(detach, strings(&["bot:0.0"]));
}
