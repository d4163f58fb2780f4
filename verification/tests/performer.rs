use panewatch::performer::{ansi_color_name, BotPerformer};

fn run(perf: &mut BotPerformer, text: &str) {
    for c in text.chars() {
        perf.print(c);
    }
}

#[test]
fn new_performer_is_empty_and_plain() {
    let perf = BotPerformer::new();
    assert!(perf.clean_buf.is_empty());
    assert!(perf.lines.is_empty());
    assert_eq!(perf.style.fg, None);
    assert!(!perf.style.bold);
}

#[test]
fn sgr_sets_and_resets_attributes() {
    let mut perf = BotPerformer::new();
    perf.csi_dispatch(&vec![1, 31, 44], 'm');
    assert!(perf.style.bold);
    assert_eq!(perf.style.fg.as_deref(), Some("red"));
    assert_eq!(perf.style.bg.as_deref(), Some("blue"));
    perf.csi_dispatch(&vec![22, 39], 'm');
    assert!(!perf.style.bold);
    assert_eq!(perf.style.fg, None);
    assert_eq!(perf.style.bg.as_deref(), Some("blue"));
    perf.csi_dispatch(&vec![0], 'm');
    assert_eq!(perf.style.bg, None);
    perf.csi_dispatch(&vec![3, 4, 5, 2], 'm');
    assert!(perf.style.italic && perf.style.underline && perf.style.blink && perf.style.dim);
    perf.csi_dispatch(&vec![], 'm');
    assert!(!perf.style.italic && !perf.style.underline && !perf.style.blink && !perf.style.dim);
}

#[test]
fn extended_colours_use_palette_names() {
    let mut perf = BotPerformer::new();
    perf.csi_dispatch(&vec![38, 5, 208, 48, 5, 17], 'm');
    assert_eq!(perf.style.fg.as_deref(), Some("ansi208"));
    assert_eq!(perf.style.bg.as_deref(), Some("ansi17"));
    // 38 without the 5 selector is ignored, and so are bright colours.
    perf.csi_dispatch(&vec![38, 2, 91], 'm');
    assert_eq!(perf.style.fg.as_deref(), Some("ansi208"));
}

#[test]
fn non_sgr_sequences_are_ignored() {
    let mut perf = BotPerformer::new();
    perf.csi_dispatch(&vec![1], 'K');
    assert!(!perf.style.bold);
}

#[test]
fn newline_ends_a_line_with_its_style() {
    let mut perf = BotPerformer::new();
    perf.csi_dispatch(&vec![32], 'm');
    run(&mut perf, "ok");
    perf.execute(b'\r');
    perf.execute(b'\n');
    assert_eq!(perf.lines.len(), 1);
    assert_eq!(perf.lines[0].0, "ok");
    assert_eq!(perf.lines[0].1.fg.as_deref(), Some("green"));
    assert!(perf.clean_buf.is_empty());
}

#[test]
fn finish_returns_the_last_line() {
    let mut perf = BotPerformer::new();
    run(&mut perf, "first");
    perf.execute(b'\n');
    run(&mut perf, "second");
    let (text, _) = perf.finish();
    assert_eq!(text, "second");

    let empty = BotPerformer::new();
    let (text, style) = empty.finish();
    assert_eq!(text, "");
    assert_eq!(style.fg, None);
}

#[test]
fn colour_names() {
    assert_eq!(ansi_color_name(0), "black");
    assert_eq!(ansi_color_name(6), "cyan");
    assert_eq!(ansi_color_name(9), "white");
}
