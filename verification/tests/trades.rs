use panewatch::config::ProjectSource;
use panewatch::trades::{
    classify_row, date_of, include_trade_file, infer_window_bounds_from_slug, is_executed_trade,
    is_invalid_reason, is_skip_reason, latest_trades, parse_trade_row, session_label_from_stem,
    text_less, DailyBook, RowOutcome, TradeCounts, MAX_TRADES_SHOWN,
};

#[test]
fn trade_files_per_project() {
    assert!(include_trade_file(ProjectSource::Python, "live_algo_20260218_133426.csv"));
    assert!(!include_trade_file(ProjectSource::Python, "paper_x.csv"));
    assert!(include_trade_file(ProjectSource::Rust, "paper_x.csv"));
    assert!(include_trade_file(ProjectSource::Rust, "dry_run_x.csv"));
    assert!(include_trade_file(ProjectSource::Rust, "backtest_x.csv"));
    assert!(!include_trade_file(ProjectSource::Rust, "live_x.txt"));
    assert!(!include_trade_file(ProjectSource::Rust, "notes.csv"));
}

#[test]
fn session_labels() {
    assert_eq!(
        session_label_from_stem("live_Adv_20260218_133426").as_deref(),
        Some("20260218_133426")
    );
    assert_eq!(session_label_from_stem("a_b").as_deref(), Some("a_b"));
    assert_eq!(session_label_from_stem("plain"), None);
}

#[test]
fn row_reasons() {
    assert!(is_skip_reason("skip"));
    assert!(!is_skip_reason("Skip"));
    assert!(is_invalid_reason("too_small"));
    assert!(is_invalid_reason("liquidity_blocked"));
    assert!(!is_invalid_reason("resolution"));
    assert!(is_executed_trade(" UP ", true, true, "resolution"));
    assert!(!is_executed_trade("  ", true, true, "resolution"));
    assert!(!is_executed_trade("UP", true, true, "open"));
    assert!(!is_executed_trade("UP", false, true, "resolution"));
    assert_eq!(classify_row("skip", true), RowOutcome::Skip);
    assert_eq!(classify_row("buy_failed", true), RowOutcome::Invalid);
    assert_eq!(classify_row("resolution", true), RowOutcome::Bet);
    assert_eq!(classify_row("open", false), RowOutcome::Other);
}

#[test]
fn window_from_slug() {
    assert_eq!(
        infer_window_bounds_from_slug("btc-updown-15m-1771455600"),
        Some(("2026-02-18 23:00:00".to_string(), "2026-02-18 23:15:00".to_string()))
    );
    assert_eq!(infer_window_bounds_from_slug("btc-updown-15m-12345"), None);
    assert_eq!(infer_window_bounds_from_slug("btc-updown"), None);
}

#[test]
fn rows_need_27_columns() {
    let mut cols: Vec<String> = (0..27).map(|i| format!("c{i}")).collect();
    cols[2] = String::new();
    cols[1] = "btc-updown-15m-1771455600".to_string();
    let line = cols.join(",");
    let row = parse_trade_row(&line).unwrap();
    assert_eq!(row.timestamp, "c0");
    assert_eq!(row.window_start, "2026-02-18 23:00:00");
    assert_eq!(row.window_end, "2026-02-18 23:15:00");
    assert_eq!(row.side, "c19");
    assert_eq!(row.balance_after, "c25");
    assert!(parse_trade_row("a,b,c").is_none());
    let long = format!("{},x,y", (0..27).map(|i| i.to_string()).collect::<Vec<_>>().join(","));
    assert_eq!(parse_trade_row(&long).unwrap().balance_after, "25");
}

#[test]
fn date_prefix() {
    assert_eq!(date_of("2026-02-18 23:00:00"), "2026-02-18");
    assert_eq!(date_of("2026"), "2026");
}

#[test]
fn counts_keep_bets_balanced() {
    let mut c = TradeCounts::new();
    c.record(RowOutcome::Bet, true);
    c.record(RowOutcome::Bet, false);
    c.record(RowOutcome::Skip, false);
    c.record(RowOutcome::Invalid, false);
    c.record(RowOutcome::Other, false);
    assert_eq!(c.total_windows, 5);
    assert_eq!(c.bets_placed, 2);
    assert_eq!(c.wins, 1);
    assert_eq!(c.losses, 1);
    assert_eq!(c.skips, 1);
    assert_eq!(c.invalid, 1);
}

#[test]
fn window_bounds_at_the_range_edges() {
    let (start, end) = infer_window_bounds_from_slug("m-1500000000").unwrap();
    assert_eq!(start, "2017-07-14 02:40:00");
    assert_eq!(end, "2017-07-14 02:55:00");
    let (start, end) = infer_window_bounds_from_slug("m-4000000000").unwrap();
    assert_eq!(start, "2096-10-02 07:06:40");
    assert_eq!(end, "2096-10-02 07:21:40");
    assert_eq!(infer_window_bounds_from_slug("m-1499999999"), None);
    assert_eq!(infer_window_bounds_from_slug("m-4000000001"), None);
}

#[test]
fn only_the_latest_trades_are_kept() {
    let records: Vec<u32> = (0..600).collect();
    let kept = latest_trades(records);
    assert_eq!(kept.len(), MAX_TRADES_SHOWN);
    assert_eq!(kept[0], 100);
    assert_eq!(kept[MAX_TRADES_SHOWN - 1], 599);
    assert_eq!(latest_trades(vec![1, 2, 3]), vec![1, 2, 3]);
}

#[test]
fn texts_order_as_strings_do() {
    for (a, b) in [("2026-01-02", "2026-01-10"), ("2026", "2026-01"), ("", "a"), ("b", "ab"), ("a", "a")] {
        assert_eq!(text_less(a, b), a < b);
        assert_eq!(text_less(b, a), b < a);
    }
}

#[test]
fn days_are_ordered_and_counted() {
    let mut book = DailyBook::new();
    assert_eq!(book.record_bet("2026-02-18".to_string(), true), (0, true));
    assert_eq!(book.record_bet("2026-02-16".to_string(), false), (0, true));
    assert_eq!(book.record_bet("2026-02-18".to_string(), false), (1, false));
    assert_eq!(book.record_bet("2026-02-17".to_string(), true), (1, true));
    assert_eq!(book.day_counts("2026-02-19"), None);
    let day = book.day_counts("2026-02-18").unwrap();
    assert_eq!((day.bets_placed, day.wins, day.losses), (2, 1, 1));
    let days = book.into_days();
    let dates: Vec<&str> = days.iter().map(|(d, _)| d.as_str()).collect();
    assert_eq!(dates, vec!["2026-02-16", "2026-02-17", "2026-02-18"]);
    assert_eq!((days[0].1.bets_placed, days[0].1.wins, days[0].1.losses), (1, 0, 1));
    assert_eq!((days[1].1.bets_placed, days[1].1.wins, days[1].1.losses), (1, 1, 0));
}
