use panewatch::config::ProjectSource;
use panewatch::semantic::SemanticParser;
use panewatch::types::SemanticContent;

/// The number a printed decimal stands for, as the monitor reports it.
fn number(text: &str) -> f64 {
    text.replace(',', "").parse::<f64>().unwrap_or(0.0)
}

#[test]
fn parses_python_session_summary() {
    let mut parser = SemanticParser::new(ProjectSource::Python);

    for line in [
        "SESSION SUMMARY",
        "==========",
        "Duration: 1.5 hours",
        "Trades executed: 2",
        "Wins: 1",
        "Losses: 1",
        "Win rate: 50.0%",
        "Total P&L: $+12.34",
        "Final balance: $100.12",
    ] {
        let _ = parser.feed(line);
    }

    let event = parser.feed("==========");
    match event {
        SemanticContent::SessionSummary {
            total_trades,
            wins,
            losses,
            total_pnl,
            final_balance,
            ..
        } => {
            assert_eq!(total_trades, 2);
            assert_eq!(wins, 1);
            assert_eq!(losses, 1);
            assert!((number(&total_pnl) - 12.34).abs() < 0.001);
            assert!((number(&final_balance) - 100.12).abs() < 0.001);
        }
        _ => panic!("expected python session summary event"),
    }
}

#[test]
fn parses_rust_market_end_and_session_summary() {
    let mut parser = SemanticParser::new(ProjectSource::Rust);

    let market_lines = [
        "MARKET END | mode=trading_live | market=btc-updown-15m-test",
        "  Prediction:      UP",
        "  Exit reason:     resolution",
        "  Window P&L:      $+1.20",
        "  Session P&L:     $-0.80",
        "  Wins/Losses:     3/2  (skipped: 1)",
    ];
    for line in market_lines {
        let _ = parser.feed(line);
    }

    let market_event = parser.feed("----------");
    match market_event {
        SemanticContent::RustMarketEnd {
            mode,
            prediction,
            exit_reason,
            wins,
            losses,
            skipped,
            ..
        } => {
            assert_eq!(mode, "trading_live");
            assert_eq!(prediction, "UP");
            assert_eq!(exit_reason, "resolution");
            assert_eq!(wins, 3);
            assert_eq!(losses, 2);
            assert_eq!(skipped, 1);
        }
        _ => panic!("expected rust market end event"),
    }

    let session_lines = [
        "SESSION SUMMARY | mode=paper | algo=advanced_momentum",
        "==========",
        "Duration: 2.0 hours",
        "Windows seen: 8",
        "Trades executed: 5",
        "Skipped: 3",
        "Wins: 3",
        "Losses: 2",
        "Win rate: 60.0%",
        "Total P&L: $+4.56",
        "Final balance: $123.45",
        "CSV log: data/btc_live_trades/paper_x.csv",
    ];
    for line in session_lines {
        let _ = parser.feed(line);
    }

    let session_event = parser.feed("==========");
    match session_event {
        SemanticContent::RustSessionSummary {
            mode,
            algo,
            windows_seen,
            total_trades,
            skipped,
            ..
        } => {
            assert_eq!(mode, "paper");
            assert_eq!(algo, "advanced_momentum");
            assert_eq!(windows_seen, 8);
            assert_eq!(total_trades, 5);
            assert_eq!(skipped, 3);
        }
        _ => panic!("expected rust session summary event"),
    }
}

#[test]
fn log_lines_in_both_formats() {
    let mut parser = SemanticParser::new(ProjectSource::Python);
    match parser.feed("2026-02-18 23:04:00,725 [INFO] live_trader.main: started") {
        SemanticContent::LogLine { level, module, message } => {
            assert_eq!(level, "INFO");
            assert_eq!(module, "live_trader.main");
            assert_eq!(message, "started");
        }
        other => panic!("expected a log line, got {other:?}"),
    }
    match parser.feed("2026-02-18 23:04:00 | WARNING | feed | stale quote") {
        SemanticContent::LogLine { level, module, message } => {
            assert_eq!(level, "WARNING");
            assert_eq!(module, "feed");
            assert_eq!(message, "stale quote");
        }
        other => panic!("expected a log line, got {other:?}"),
    }
    assert!(parser.is_scanning());
}

#[test]
fn python_analytics_block() {
    let mut parser = SemanticParser::new(ProjectSource::Python);
    let block = [
        "  ──────────────────────────────",
        "  Market:           btc-updown-15m-1771455600",
        "  Window:           23:00 - 23:15 UTC",
        "  BTC Open:         $95,123.45",
        "  BTC Close:        $95,200.00",
        "  BTC High:         $95,300.10",
        "  BTC Low:          $95,000.00",
        "  BTC Diff:         $+76.55  (+0.08%)",
        "  Up midpoint:      0.55",
        "  Down midpoint:    0.45",
    ];
    for line in block {
        assert!(matches!(parser.feed(line), SemanticContent::Raw));
    }
    match parser.feed("  Prediction:       UP") {
        SemanticContent::BtcAnalytics {
            market,
            window_start,
            window_end,
            btc_open,
            btc_diff,
            gap_pct,
            up_midpoint,
            prediction,
            ..
        } => {
            assert_eq!(market, "btc-updown-15m-1771455600");
            assert_eq!(window_start, "23:00");
            assert_eq!(window_end, "23:15");
            assert!((number(&btc_open) - 95123.45).abs() < 0.001);
            assert!((number(&btc_diff) - 76.55).abs() < 0.001);
            assert!((number(&gap_pct) - 0.08).abs() < 0.001);
            assert!((number(&up_midpoint) - 0.55).abs() < 0.001);
            assert_eq!(prediction, "UP");
        }
        other => panic!("expected analytics, got {other:?}"),
    }
    assert!(parser.is_scanning());
}

#[test]
fn trade_action_from_analytics_then_exit() {
    let mut parser = SemanticParser::new(ProjectSource::Python);
    let _ = parser.feed("  ──────────────────────────────");
    assert!(matches!(parser.feed("  Action:           BUY_UP"), SemanticContent::Raw));
    for line in [
        "  Entry price:      $0.55",
        "  Shares:           18.18",
        "  Stake:            $10.00",
        "  Balance before:   $100.00",
    ] {
        assert!(matches!(parser.feed(line), SemanticContent::Raw));
    }
    match parser.feed("  ──────────────────────────────") {
        SemanticContent::TradeAction { action, entry_price, shares, stake_usd, balance } => {
            assert_eq!(action, "BUY_UP");
            assert_eq!(entry_price.as_deref(), Some("0.55"));
            assert_eq!(shares.as_deref(), Some("18.18"));
            assert_eq!(stake_usd.as_deref(), Some("10.00"));
            assert_eq!(balance.as_deref(), Some("100.00"));
        }
        other => panic!("expected trade action, got {other:?}"),
    }
    // The exit block: reported at its second separator once a positive
    // exit price has been read.
    for line in [
        "  Exit price:       $1.00",
        "  Exit reason:      resolution",
        "  P&L:              $+8.18",
        "  Balance after:    $108.18",
    ] {
        assert!(matches!(parser.feed(line), SemanticContent::Raw));
    }
    assert!(matches!(parser.feed("  ──────────────────────────────"), SemanticContent::Raw));
    match parser.feed("  ──────────────────────────────") {
        SemanticContent::TradeExit { exit_price, pnl, balance, exit_reason } => {
            assert_eq!(exit_price, "1.00");
            assert_eq!(pnl, "+8.18");
            assert_eq!(balance, "108.18");
            assert_eq!(exit_reason, "resolution");
        }
        other => panic!("expected trade exit, got {other:?}"),
    }
    assert!(parser.is_scanning());
}

#[test]
fn skip_action_ends_at_its_balance() {
    let mut parser = SemanticParser::new(ProjectSource::Python);
    let _ = parser.feed("----------");
    let _ = parser.feed("Action:   SKIP (no edge)");
    match parser.feed("Balance:  $123.45") {
        SemanticContent::TradeAction { action, entry_price, balance, .. } => {
            assert_eq!(action, "SKIP (no edge)");
            assert_eq!(entry_price, None);
            assert_eq!(balance.as_deref(), Some("123.45"));
        }
        other => panic!("expected skip action, got {other:?}"),
    }
    assert!(parser.is_scanning());
}

#[test]
fn zero_exit_price_keeps_exit_block_open() {
    let mut parser = SemanticParser::new(ProjectSource::Python);
    let _ = parser.feed("----------");
    let _ = parser.feed("Action: BUY_DOWN");
    assert!(matches!(parser.feed("----------"), SemanticContent::TradeAction { .. }));
    let _ = parser.feed("Exit price: $0.00");
    assert!(matches!(parser.feed("----------"), SemanticContent::Raw));
    assert!(matches!(parser.feed("----------"), SemanticContent::Raw));
    assert!(!parser.is_scanning());
}

#[test]
fn rust_session_with_missing_final_balance() {
    let mut parser = SemanticParser::new(ProjectSource::Rust);
    for line in [
        "SESSION SUMMARY | mode=dry_run | algo=basic",
        "==========",
        "Final balance: $50.00",
        "FINAL BALANCE: N/A",
    ] {
        let _ = parser.feed(line);
    }
    match parser.feed("==========") {
        SemanticContent::RustSessionSummary { final_balance, total_trades, .. } => {
            assert_eq!(final_balance, None);
            assert_eq!(total_trades, 0);
        }
        other => panic!("expected rust session summary, got {other:?}"),
    }
}

#[test]
fn rust_parser_ignores_python_blocks() {
    let mut parser = SemanticParser::new(ProjectSource::Rust);
    assert!(matches!(parser.feed("----------"), SemanticContent::Raw));
    assert!(parser.is_scanning());
    assert!(matches!(parser.feed("SESSION SUMMARY"), SemanticContent::Raw));
    assert!(parser.is_scanning());
}

#[test]
fn default_content_is_raw() {
    assert!(matches!(SemanticContent::default(), SemanticContent::Raw));
}

#[test]
fn surrounding_whitespace_changes_nothing() {
    let lines = [
        "MARKET END | mode=paper | market=btc-updown-15m-test",
        "  Prediction:      DOWN",
        "  Wins/Losses:     4/1  (skipped: 2)",
        "----------",
        "2026-02-18 23:04:00 | INFO | bot | started",
    ];
    let mut padded = SemanticParser::new(ProjectSource::Rust);
    let mut trimmed = SemanticParser::new(ProjectSource::Rust);
    for line in lines {
        let a = format!("{:?}", padded.feed(&format!(" \t{line}  \u{3000}")));
        let b = format!("{:?}", trimmed.feed(line.trim()));
        assert_eq!(a, b);
        assert_eq!(padded.is_scanning(), trimmed.is_scanning());
    }
    let last = format!("{:?}", padded.feed("   "));
    assert_eq!(last, format!("{:?}", trimmed.feed("")));
}
