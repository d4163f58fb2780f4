//! A per-pane state machine that reads trading-bot output line by line and
//! recognises its structured blocks: log lines, BTC analytics blocks, trade
//! actions and exits, session summaries and (for the Rust bot) market-end
//! blocks.
//!
//! Each line is first trimmed, then matched against the regular expressions
//! that the current state looks at (`line_matches`), then the state advances
//! (`SemanticParser::apply`). `SemanticParser::feed` does all three.
use vstd::prelude::*;

use crate::config::ProjectSource;
use crate::pattern::{
    caps_model, group_present, group_present_exec, group_text, group_text_exec, regex_capture,
    regex_captures, CapsModel, TextCaps,
};
use crate::text::{
    ascii_lower, ascii_lowercase, chars_of, contains, contains_seq, has_prefix,
    is_positive_decimal, parse_u32_or_zero, starts_with, string_of, trim, trim_chars, trim_start,
    trim_start_chars, u32_or_zero, lemma_trim_idempotent,
};
use crate::types::{SemanticContent, SemanticModel};

verus! {

// ─── Patterns ──────────────────────────────────────────────────────────────

/// A log line, in the Python default format
/// (`2026-02-18 23:04:00,725 [INFO] module.name: message`) or in the
/// pipe-separated one (`2026-02-18 23:04:00 | INFO | module | message`).
pub const LOG_LINE_PATTERN: &'static str = r"^\d{4}-\d{2}-\d{2} \d{2}:\d{2}:\d{2}[,.]?\d*\s+(?:\[(INFO|WARNING|ERROR|DEBUG|CRITICAL)\]\s+([\w.]+):\s+(.+)|\| ?(INFO|WARNING|ERROR|DEBUG|CRITICAL)\s*\| ?([\w.]+)\s*\| ?(.+))$";
pub const SEPARATOR_PATTERN: &'static str = r"^\s*[─\-]{10,}";
pub const MARKET_PATTERN: &'static str = r"Market:\s+(.+)";
pub const WINDOW_PATTERN: &'static str = r"Window:\s+(\d{2}:\d{2}) - (\d{2}:\d{2}) UTC";
pub const BTC_OPEN_PATTERN: &'static str = r"BTC Open[^:]*:\s+\$([0-9,]+\.?\d*)";
pub const BTC_CLOSE_PATTERN: &'static str = r"BTC Close[^:]*:\s+\$([0-9,]+\.?\d*)";
pub const BTC_HIGH_PATTERN: &'static str = r"BTC High[^:]*:\s+\$([0-9,]+\.?\d*)";
pub const BTC_LOW_PATTERN: &'static str = r"BTC Low[^:]*:\s+\$([0-9,]+\.?\d*)";
pub const BTC_DIFF_PATTERN: &'static str = r"BTC Diff[^:]*:\s+\$([+-]?[0-9,]+\.?\d*)";
pub const GAP_PCT_PATTERN: &'static str = r"\(([+-]?[0-9.]+)%\)";
pub const UP_MID_PATTERN: &'static str = r"Up midpoint:\s+([0-9.]+)";
pub const DOWN_MID_PATTERN: &'static str = r"Down midpoint:\s+([0-9.]+)";
pub const PREDICTION_PATTERN: &'static str = r"Prediction:\s+(UP|DOWN|SKIP)";
pub const ACTION_PATTERN: &'static str = r"Action:\s+(BUY_UP|BUY_DOWN|SKIP[^\n]*)";
pub const ENTRY_PRICE_PATTERN: &'static str = r"Entry price:\s+\$([0-9.]+)";
pub const SHARES_PATTERN: &'static str = r"Shares:\s+([0-9.]+)";
pub const STAKE_PATTERN: &'static str = r"Stake:\s+\$([0-9.]+)";
/// `Balance:  $123.45` (after a skip) or `Balance before:  $123.45`.
pub const BALANCE_LINE_PATTERN: &'static str = r"Balance[^:]*:\s+\$([0-9.]+)";
pub const EXIT_PRICE_PATTERN: &'static str = r"Exit price:\s+\$([0-9.]+)";
pub const EXIT_REASON_PATTERN: &'static str = r"Exit reason:\s+(\S+)";
pub const PNL_PATTERN: &'static str = r"P&L:\s+\$([+-]?[0-9.]+)";
pub const BALANCE_AFTER_PATTERN: &'static str = r"Balance after:\s+\$([0-9.]+)";
pub const SESSION_SUMMARY_PATTERN: &'static str = r"SESSION SUMMARY";
pub const SESSION_HEADER_PATTERN: &'static str = r"SESSION SUMMARY\s*\|\s*mode=([^|]+)\|\s*algo=(.+)$";
pub const MARKET_END_PATTERN: &'static str = r"MARKET END\s*\|\s*mode=([^|]+)\|\s*market=(.+)$";
pub const WINDOWS_SEEN_PATTERN: &'static str = r"Windows seen:\s+(\d+)";
pub const SKIPPED_PATTERN: &'static str = r"Skipped:\s+(\d+)";
pub const WINDOW_PNL_PATTERN: &'static str = r"Window P&L:\s+\$([+-]?[0-9.]+)";
pub const SESSION_PNL_PATTERN: &'static str = r"Session P&L:\s+\$([+-]?[0-9.]+)";
pub const CSV_LOG_PATTERN: &'static str = r"CSV log:\s+(.+)";
pub const WINS_LOSSES_PATTERN: &'static str = r"Wins/Losses:\s+(\d+)\s*/\s*(\d+)\s*\(skipped:\s*(\d+)\)";
pub const DURATION_PATTERN: &'static str = r"Duration:\s+([0-9.]+)\s+hours?";
pub const TRADES_PATTERN: &'static str = r"Trades executed:\s+(\d+)";
pub const WINS_PATTERN: &'static str = r"Wins:\s+(\d+)";
pub const LOSSES_PATTERN: &'static str = r"Losses:\s+(\d+)";
pub const WIN_RATE_PATTERN: &'static str = r"Win rate:\s+([0-9.]+)%";
pub const TOTAL_PNL_PATTERN: &'static str = r"Total P&L:\s+\$([+-]?[0-9.]+)";
pub const FINAL_BAL_PATTERN: &'static str = r"Final balance:\s+\$([0-9.]+)";
pub const SESSION_END_PATTERN: &'static str = r"^[=]{10,}";

// Positions of the patterns in a `LineMatches` table.
pub const P_LOG_LINE: usize = 0;
pub const P_SEPARATOR: usize = 1;
pub const P_MARKET: usize = 2;
pub const P_WINDOW: usize = 3;
pub const P_BTC_OPEN: usize = 4;
pub const P_BTC_CLOSE: usize = 5;
pub const P_BTC_HIGH: usize = 6;
pub const P_BTC_LOW: usize = 7;
pub const P_BTC_DIFF: usize = 8;
pub const P_GAP_PCT: usize = 9;
pub const P_UP_MID: usize = 10;
pub const P_DOWN_MID: usize = 11;
pub const P_PREDICTION: usize = 12;
pub const P_ACTION: usize = 13;
pub const P_ENTRY_PRICE: usize = 14;
pub const P_SHARES: usize = 15;
pub const P_STAKE: usize = 16;
pub const P_BALANCE_LINE: usize = 17;
pub const P_EXIT_PRICE: usize = 18;
pub const P_EXIT_REASON: usize = 19;
pub const P_PNL: usize = 20;
pub const P_BALANCE_AFTER: usize = 21;
pub const P_SESSION_SUMMARY: usize = 22;
pub const P_SESSION_HEADER: usize = 23;
pub const P_MARKET_END: usize = 24;
pub const P_WINDOWS_SEEN: usize = 25;
pub const P_SKIPPED: usize = 26;
pub const P_WINDOW_PNL: usize = 27;
pub const P_SESSION_PNL: usize = 28;
pub const P_CSV_LOG: usize = 29;
pub const P_WINS_LOSSES: usize = 30;
pub const P_DURATION: usize = 31;
pub const P_TRADES: usize = 32;
pub const P_WINS: usize = 33;
pub const P_LOSSES: usize = 34;
pub const P_WIN_RATE: usize = 35;
pub const P_TOTAL_PNL: usize = 36;
pub const P_FINAL_BAL: usize = 37;
pub const P_SESSION_END: usize = 38;
pub const PATTERN_COUNT: usize = 39;

/// The pattern at position `i` of the table.
pub open spec fn pattern_at(i: int) -> Seq<char> {
    if i == P_LOG_LINE { LOG_LINE_PATTERN@ }
    else if i == P_SEPARATOR { SEPARATOR_PATTERN@ }
    else if i == P_MARKET { MARKET_PATTERN@ }
    else if i == P_WINDOW { WINDOW_PATTERN@ }
    else if i == P_BTC_OPEN { BTC_OPEN_PATTERN@ }
    else if i == P_BTC_CLOSE { BTC_CLOSE_PATTERN@ }
    else if i == P_BTC_HIGH { BTC_HIGH_PATTERN@ }
    else if i == P_BTC_LOW { BTC_LOW_PATTERN@ }
    else if i == P_BTC_DIFF { BTC_DIFF_PATTERN@ }
    else if i == P_GAP_PCT { GAP_PCT_PATTERN@ }
    else if i == P_UP_MID { UP_MID_PATTERN@ }
    else if i == P_DOWN_MID { DOWN_MID_PATTERN@ }
    else if i == P_PREDICTION { PREDICTION_PATTERN@ }
    else if i == P_ACTION { ACTION_PATTERN@ }
    else if i == P_ENTRY_PRICE { ENTRY_PRICE_PATTERN@ }
    else if i == P_SHARES { SHARES_PATTERN@ }
    else if i == P_STAKE { STAKE_PATTERN@ }
    else if i == P_BALANCE_LINE { BALANCE_LINE_PATTERN@ }
    else if i == P_EXIT_PRICE { EXIT_PRICE_PATTERN@ }
    else if i == P_EXIT_REASON { EXIT_REASON_PATTERN@ }
    else if i == P_PNL { PNL_PATTERN@ }
    else if i == P_BALANCE_AFTER { BALANCE_AFTER_PATTERN@ }
    else if i == P_SESSION_SUMMARY { SESSION_SUMMARY_PATTERN@ }
    else if i == P_SESSION_HEADER { SESSION_HEADER_PATTERN@ }
    else if i == P_MARKET_END { MARKET_END_PATTERN@ }
    else if i == P_WINDOWS_SEEN { WINDOWS_SEEN_PATTERN@ }
    else if i == P_SKIPPED { SKIPPED_PATTERN@ }
    else if i == P_WINDOW_PNL { WINDOW_PNL_PATTERN@ }
    else if i == P_SESSION_PNL { SESSION_PNL_PATTERN@ }
    else if i == P_CSV_LOG { CSV_LOG_PATTERN@ }
    else if i == P_WINS_LOSSES { WINS_LOSSES_PATTERN@ }
    else if i == P_DURATION { DURATION_PATTERN@ }
    else if i == P_TRADES { TRADES_PATTERN@ }
    else if i == P_WINS { WINS_PATTERN@ }
    else if i == P_LOSSES { LOSSES_PATTERN@ }
    else if i == P_WIN_RATE { WIN_RATE_PATTERN@ }
    else if i == P_TOTAL_PNL { TOTAL_PNL_PATTERN@ }
    else if i == P_FINAL_BAL { FINAL_BAL_PATTERN@ }
    else { SESSION_END_PATTERN@ }
}

/// The pattern at position `i` of the table.
pub fn pattern_str(i: usize) -> (res: &'static str)
    ensures
        res@ == pattern_at(i as int),
{
    if i == P_LOG_LINE { LOG_LINE_PATTERN }
    else if i == P_SEPARATOR { SEPARATOR_PATTERN }
    else if i == P_MARKET { MARKET_PATTERN }
    else if i == P_WINDOW { WINDOW_PATTERN }
    else if i == P_BTC_OPEN { BTC_OPEN_PATTERN }
    else if i == P_BTC_CLOSE { BTC_CLOSE_PATTERN }
    else if i == P_BTC_HIGH { BTC_HIGH_PATTERN }
    else if i == P_BTC_LOW { BTC_LOW_PATTERN }
    else if i == P_BTC_DIFF { BTC_DIFF_PATTERN }
    else if i == P_GAP_PCT { GAP_PCT_PATTERN }
    else if i == P_UP_MID { UP_MID_PATTERN }
    else if i == P_DOWN_MID { DOWN_MID_PATTERN }
    else if i == P_PREDICTION { PREDICTION_PATTERN }
    else if i == P_ACTION { ACTION_PATTERN }
    else if i == P_ENTRY_PRICE { ENTRY_PRICE_PATTERN }
    else if i == P_SHARES { SHARES_PATTERN }
    else if i == P_STAKE { STAKE_PATTERN }
    else if i == P_BALANCE_LINE { BALANCE_LINE_PATTERN }
    else if i == P_EXIT_PRICE { EXIT_PRICE_PATTERN }
    else if i == P_EXIT_REASON { EXIT_REASON_PATTERN }
    else if i == P_PNL { PNL_PATTERN }
    else if i == P_BALANCE_AFTER { BALANCE_AFTER_PATTERN }
    else if i == P_SESSION_SUMMARY { SESSION_SUMMARY_PATTERN }
    else if i == P_SESSION_HEADER { SESSION_HEADER_PATTERN }
    else if i == P_MARKET_END { MARKET_END_PATTERN }
    else if i == P_WINDOWS_SEEN { WINDOWS_SEEN_PATTERN }
    else if i == P_SKIPPED { SKIPPED_PATTERN }
    else if i == P_WINDOW_PNL { WINDOW_PNL_PATTERN }
    else if i == P_SESSION_PNL { SESSION_PNL_PATTERN }
    else if i == P_CSV_LOG { CSV_LOG_PATTERN }
    else if i == P_WINS_LOSSES { WINS_LOSSES_PATTERN }
    else if i == P_DURATION { DURATION_PATTERN }
    else if i == P_TRADES { TRADES_PATTERN }
    else if i == P_WINS { WINS_PATTERN }
    else if i == P_LOSSES { LOSSES_PATTERN }
    else if i == P_WIN_RATE { WIN_RATE_PATTERN }
    else if i == P_TOTAL_PNL { TOTAL_PNL_PATTERN }
    else if i == P_FINAL_BAL { FINAL_BAL_PATTERN }
    else { SESSION_END_PATTERN }
}


// ─── Line matches ──────────────────────────────────────────────────────────

/// What the patterns of the table gave for one line, by position.
pub open spec fn matches_model(m: Seq<TextCaps>) -> Seq<CapsModel> {
    m.map_values(|c: TextCaps| caps_model(c))
}

/// Whether pattern `i` matched.
pub open spec fn hit(m: Seq<CapsModel>, i: usize) -> bool {
    (i as int) < m.len() && m[i as int] is Some
}

/// The text of group `k` of pattern `i`, empty where absent.
pub open spec fn grp(m: Seq<CapsModel>, i: usize, k: int) -> Seq<char> {
    if (i as int) < m.len() {
        group_text(m[i as int], k)
    } else {
        Seq::empty()
    }
}

/// Whether group `k` of pattern `i` took part in a match.
pub open spec fn grp_present(m: Seq<CapsModel>, i: usize, k: int) -> bool {
    (i as int) < m.len() && group_present(m[i as int], k)
}

fn hit_exec(m: &Vec<TextCaps>, i: usize) -> (res: bool)
    ensures
        res == hit(matches_model(m@), i),
{
    i < m.len() && m[i].is_some()
}

fn grp_exec(m: &Vec<TextCaps>, i: usize, k: usize) -> (res: Vec<char>)
    ensures
        res@ == grp(matches_model(m@), i, k as int),
{
    if i < m.len() {
        group_text_exec(&m[i], k)
    } else {
        Vec::new()
    }
}

fn grp_present_exec(m: &Vec<TextCaps>, i: usize, k: usize) -> (res: bool)
    ensures
        res == grp_present(matches_model(m@), i, k as int),
{
    i < m.len() && group_present_exec(&m[i], k)
}

// ─── States ────────────────────────────────────────────────────────────────

/// Fields of a BTC analytics block read so far.
pub struct AnalyticsModel {
    pub market: Seq<char>,
    pub window_start: Seq<char>,
    pub window_end: Seq<char>,
    pub btc_open: Seq<char>,
    pub btc_close: Seq<char>,
    pub btc_high: Seq<char>,
    pub btc_low: Seq<char>,
    pub btc_diff: Seq<char>,
    pub gap_pct: Seq<char>,
    pub up_midpoint: Seq<char>,
    pub down_midpoint: Seq<char>,
    pub sep_count: u32,
}

/// Fields of a trade action block read so far.
pub struct TradeActionModel {
    pub action: Seq<char>,
    pub entry_price: Option<Seq<char>>,
    pub shares: Option<Seq<char>>,
    pub stake_usd: Option<Seq<char>>,
    pub balance: Option<Seq<char>>,
    pub sep_count: u32,
}

/// Fields of a trade exit block read so far.
pub struct TradeExitModel {
    pub exit_price: Seq<char>,
    pub pnl: Seq<char>,
    pub balance: Seq<char>,
    pub exit_reason: Seq<char>,
    pub sep_count: u32,
}

/// Fields of a session summary read so far.
pub struct SessionModel {
    pub mode: Seq<char>,
    pub algo: Seq<char>,
    pub duration_hours: Seq<char>,
    pub windows_seen: u32,
    pub total_trades: u32,
    pub skipped: u32,
    pub wins: u32,
    pub losses: u32,
    pub win_rate: Seq<char>,
    pub total_pnl: Seq<char>,
    pub final_balance: Option<Seq<char>>,
    pub csv_log: Seq<char>,
    pub end_sep_seen: bool,
}

/// Fields of a Rust market-end block read so far.
pub struct MarketEndModel {
    pub mode: Seq<char>,
    pub market: Seq<char>,
    pub prediction: Seq<char>,
    pub exit_reason: Seq<char>,
    pub window_pnl: Seq<char>,
    pub session_pnl: Seq<char>,
    pub wins: u32,
    pub losses: u32,
    pub skipped: u32,
    pub sep_count: u32,
}

/// Where the parser is: between blocks, or inside one.
pub enum ParseStateModel {
    Scanning,
    InAnalyticsBlock(AnalyticsModel),
    InTradeAction(TradeActionModel),
    InTradeExit(TradeExitModel),
    InSessionSummary(SessionModel),
    InRustMarketEnd(MarketEndModel),
}

/// A parser: the bot it reads and the state it is in.
pub struct ParserModel {
    pub source: ProjectSource,
    pub state: ParseStateModel,
}

pub open spec fn empty_analytics() -> AnalyticsModel {
    AnalyticsModel {
        market: Seq::empty(),
        window_start: Seq::empty(),
        window_end: Seq::empty(),
        btc_open: Seq::empty(),
        btc_close: Seq::empty(),
        btc_high: Seq::empty(),
        btc_low: Seq::empty(),
        btc_diff: Seq::empty(),
        gap_pct: Seq::empty(),
        up_midpoint: Seq::empty(),
        down_midpoint: Seq::empty(),
        sep_count: 0,
    }
}

pub open spec fn empty_trade_action() -> TradeActionModel {
    TradeActionModel {
        action: Seq::empty(),
        entry_price: None,
        shares: None,
        stake_usd: None,
        balance: None,
        sep_count: 0,
    }
}

pub open spec fn empty_trade_exit() -> TradeExitModel {
    TradeExitModel {
        exit_price: Seq::empty(),
        pnl: Seq::empty(),
        balance: Seq::empty(),
        exit_reason: Seq::empty(),
        sep_count: 0,
    }
}

pub open spec fn empty_session() -> SessionModel {
    SessionModel {
        mode: Seq::empty(),
        algo: Seq::empty(),
        duration_hours: Seq::empty(),
        windows_seen: 0,
        total_trades: 0,
        skipped: 0,
        wins: 0,
        losses: 0,
        win_rate: Seq::empty(),
        total_pnl: Seq::empty(),
        final_balance: None,
        csv_log: Seq::empty(),
        end_sep_seen: false,
    }
}

pub open spec fn empty_market_end() -> MarketEndModel {
    MarketEndModel {
        mode: Seq::empty(),
        market: Seq::empty(),
        prediction: Seq::empty(),
        exit_reason: Seq::empty(),
        window_pnl: Seq::empty(),
        session_pnl: Seq::empty(),
        wins: 0,
        losses: 0,
        skipped: 0,
        sep_count: 0,
    }
}

/// A separator count one higher, wrapping at `u32::MAX`.
pub open spec fn next_count(n: u32) -> u32 {
    if n == u32::MAX {
        0
    } else {
        (n + 1) as u32
    }
}

/// `new` where pattern `i` matched, else `old`.
pub open spec fn pick(m: Seq<CapsModel>, i: usize, new: Seq<char>, old: Seq<char>) -> Seq<char> {
    if hit(m, i) {
        new
    } else {
        old
    }
}

/// `Some(group 1 of pattern i)` where pattern `i` matched, else `old`.
pub open spec fn pick_opt(m: Seq<CapsModel>, i: usize, old: Option<Seq<char>>) -> Option<
    Seq<char>,
> {
    if hit(m, i) {
        Some(grp(m, i, 1))
    } else {
        old
    }
}

/// The integer in group `k` of pattern `i` where it matched, else `old`.
pub open spec fn pick_count(m: Seq<CapsModel>, i: usize, k: int, old: u32) -> u32 {
    if hit(m, i) {
        u32_or_zero(grp(m, i, k))
    } else {
        old
    }
}

/// Which patterns a state looks at.
pub open spec fn pattern_used(state: ParseStateModel, i: usize) -> bool {
    match state {
        ParseStateModel::Scanning => i == P_LOG_LINE || i == P_SEPARATOR || i == P_SESSION_SUMMARY
            || i == P_SESSION_HEADER || i == P_MARKET_END,
        ParseStateModel::InAnalyticsBlock(_) => P_SEPARATOR <= i <= P_ACTION,
        ParseStateModel::InTradeAction(_) => i == P_SEPARATOR || P_ACTION <= i <= P_BALANCE_LINE,
        ParseStateModel::InTradeExit(_) => i == P_SEPARATOR || P_EXIT_PRICE <= i <= P_BALANCE_AFTER,
        ParseStateModel::InSessionSummary(_) => i == P_SESSION_HEADER || i == P_WINDOWS_SEEN || i
            == P_SKIPPED || i == P_CSV_LOG || P_DURATION <= i <= P_SESSION_END,
        ParseStateModel::InRustMarketEnd(_) => i == P_SEPARATOR || i == P_PREDICTION || i
            == P_EXIT_REASON || i == P_WINDOW_PNL || i == P_SESSION_PNL || i == P_WINS_LOSSES,
    }
}

/// The text pattern `i` is matched against: the trimmed line, and for the
/// session-end rule that line without leading whitespace.
pub open spec fn subject_of(i: usize, line: Seq<char>) -> Seq<char> {
    if i == P_SESSION_END {
        trim_start(line)
    } else {
        line
    }
}

/// What each pattern gives on `line` in `state`: the regex result for the
/// patterns the state looks at, no match for the others.
pub open spec fn expected_matches(state: ParseStateModel, line: Seq<char>) -> Seq<CapsModel> {
    Seq::new(
        PATTERN_COUNT as nat,
        |i: int|
            if pattern_used(state, i as usize) {
                regex_captures(pattern_at(i), subject_of(i as usize, line))
            } else {
                None
            },
    )
}

// ─── Transitions ───────────────────────────────────────────────────────────

/// Between blocks: a log line is reported at once; otherwise a block header
/// of the bot being read opens a block.
pub open spec fn scan_spec(source: ProjectSource, m: Seq<CapsModel>) -> (
    ParseStateModel,
    SemanticModel,
) {
    if hit(m, P_LOG_LINE) {
        let content = if grp_present(m, P_LOG_LINE, 1) {
            SemanticModel::LogLine {
                level: grp(m, P_LOG_LINE, 1),
                module: grp(m, P_LOG_LINE, 2),
                message: grp(m, P_LOG_LINE, 3),
            }
        } else {
            SemanticModel::LogLine {
                level: grp(m, P_LOG_LINE, 4),
                module: grp(m, P_LOG_LINE, 5),
                message: grp(m, P_LOG_LINE, 6),
            }
        };
        (ParseStateModel::Scanning, content)
    } else {
        match source {
            ProjectSource::Python => if hit(m, P_SEPARATOR) {
                (
                    ParseStateModel::InAnalyticsBlock(
                        AnalyticsModel { sep_count: 1, ..empty_analytics() },
                    ),
                    SemanticModel::Raw,
                )
            } else if hit(m, P_SESSION_SUMMARY) {
                (ParseStateModel::InSessionSummary(empty_session()), SemanticModel::Raw)
            } else {
                (ParseStateModel::Scanning, SemanticModel::Raw)
            },
            ProjectSource::Rust => if hit(m, P_MARKET_END) {
                (
                    ParseStateModel::InRustMarketEnd(
                        MarketEndModel {
                            mode: trim(grp(m, P_MARKET_END, 1)),
                            market: trim(grp(m, P_MARKET_END, 2)),
                            ..empty_market_end()
                        },
                    ),
                    SemanticModel::Raw,
                )
            } else if hit(m, P_SESSION_HEADER) {
                (
                    ParseStateModel::InSessionSummary(
                        SessionModel {
                            mode: trim(grp(m, P_SESSION_HEADER, 1)),
                            algo: trim(grp(m, P_SESSION_HEADER, 2)),
                            ..empty_session()
                        },
                    ),
                    SemanticModel::Raw,
                )
            } else {
                (ParseStateModel::Scanning, SemanticModel::Raw)
            },
        }
    }
}

/// The analytics fields that a line sets.
pub open spec fn analytics_fields(a: AnalyticsModel, m: Seq<CapsModel>) -> AnalyticsModel {
    AnalyticsModel {
        market: pick(m, P_MARKET, trim(grp(m, P_MARKET, 1)), a.market),
        window_start: pick(m, P_WINDOW, grp(m, P_WINDOW, 1), a.window_start),
        window_end: pick(m, P_WINDOW, grp(m, P_WINDOW, 2), a.window_end),
        btc_open: pick(m, P_BTC_OPEN, grp(m, P_BTC_OPEN, 1), a.btc_open),
        btc_close: pick(m, P_BTC_CLOSE, grp(m, P_BTC_CLOSE, 1), a.btc_close),
        btc_high: pick(m, P_BTC_HIGH, grp(m, P_BTC_HIGH, 1), a.btc_high),
        btc_low: pick(m, P_BTC_LOW, grp(m, P_BTC_LOW, 1), a.btc_low),
        btc_diff: pick(m, P_BTC_DIFF, grp(m, P_BTC_DIFF, 1), a.btc_diff),
        gap_pct: pick(m, P_GAP_PCT, grp(m, P_GAP_PCT, 1), a.gap_pct),
        up_midpoint: pick(m, P_UP_MID, grp(m, P_UP_MID, 1), a.up_midpoint),
        down_midpoint: pick(m, P_DOWN_MID, grp(m, P_DOWN_MID, 1), a.down_midpoint),
        sep_count: a.sep_count,
    }
}

/// Inside an analytics block: separators are counted, fields collected; a
/// prediction line completes the block, an action line opens a trade action.
pub open spec fn analytics_spec(a: AnalyticsModel, m: Seq<CapsModel>) -> (
    ParseStateModel,
    Option<SemanticModel>,
) {
    if hit(m, P_SEPARATOR) {
        (
            ParseStateModel::InAnalyticsBlock(
                AnalyticsModel { sep_count: next_count(a.sep_count), ..a },
            ),
            None,
        )
    } else {
        let b = analytics_fields(a, m);
        if hit(m, P_PREDICTION) {
            (
                ParseStateModel::Scanning,
                Some(
                    SemanticModel::BtcAnalytics {
                        market: b.market,
                        window_start: b.window_start,
                        window_end: b.window_end,
                        btc_open: b.btc_open,
                        btc_close: b.btc_close,
                        btc_high: b.btc_high,
                        btc_low: b.btc_low,
                        btc_diff: b.btc_diff,
                        gap_pct: b.gap_pct,
                        up_midpoint: b.up_midpoint,
                        down_midpoint: b.down_midpoint,
                        prediction: grp(m, P_PREDICTION, 1),
                    },
                ),
            )
        } else if hit(m, P_ACTION) {
            (
                ParseStateModel::InTradeAction(
                    TradeActionModel {
                        action: trim(grp(m, P_ACTION, 1)),
                        ..empty_trade_action()
                    },
                ),
                None,
            )
        } else {
            (ParseStateModel::InAnalyticsBlock(b), None)
        }
    }
}

/// Whether an action is a skip.
pub open spec fn is_skip_action(action: Seq<char>) -> bool {
    has_prefix(action, "SKIP"@)
}

/// Inside a trade action: the first separator reports the action (a skip
/// then returns to scanning, a trade goes on to its exit block); a skip also
/// ends as soon as its balance is known.
pub open spec fn trade_action_spec(a: TradeActionModel, m: Seq<CapsModel>) -> (
    ParseStateModel,
    Option<SemanticModel>,
) {
    if hit(m, P_SEPARATOR) {
        let count = next_count(a.sep_count);
        if count >= 1 && a.action.len() != 0 {
            (
                if is_skip_action(a.action) {
                    ParseStateModel::Scanning
                } else {
                    ParseStateModel::InTradeExit(empty_trade_exit())
                },
                Some(
                    SemanticModel::TradeAction {
                        action: a.action,
                        entry_price: a.entry_price,
                        shares: a.shares,
                        stake_usd: a.stake_usd,
                        balance: a.balance,
                    },
                ),
            )
        } else {
            (ParseStateModel::InTradeAction(TradeActionModel { sep_count: count, ..a }), None)
        }
    } else if a.action.len() == 0 && hit(m, P_ACTION) {
        (
            ParseStateModel::InTradeAction(
                TradeActionModel { action: trim(grp(m, P_ACTION, 1)), ..a },
            ),
            None,
        )
    } else {
        let b = TradeActionModel {
            entry_price: pick_opt(m, P_ENTRY_PRICE, a.entry_price),
            shares: pick_opt(m, P_SHARES, a.shares),
            stake_usd: pick_opt(m, P_STAKE, a.stake_usd),
            balance: pick_opt(m, P_BALANCE_LINE, a.balance),
            ..a
        };
        if is_skip_action(b.action) && b.balance is Some {
            (
                ParseStateModel::Scanning,
                Some(
                    SemanticModel::TradeAction {
                        action: b.action,
                        entry_price: None,
                        shares: None,
                        stake_usd: None,
                        balance: b.balance,
                    },
                ),
            )
        } else {
            (ParseStateModel::InTradeAction(b), None)
        }
    }
}

/// Inside a trade exit: from the second separator on, the exit is reported
/// once a positive exit price has been read.
pub open spec fn trade_exit_spec(a: TradeExitModel, m: Seq<CapsModel>) -> (
    ParseStateModel,
    Option<SemanticModel>,
) {
    if hit(m, P_SEPARATOR) {
        let count = next_count(a.sep_count);
        if count >= 2 && is_positive_decimal(a.exit_price) {
            (
                ParseStateModel::Scanning,
                Some(
                    SemanticModel::TradeExit {
                        exit_price: a.exit_price,
                        pnl: a.pnl,
                        balance: a.balance,
                        exit_reason: a.exit_reason,
                    },
                ),
            )
        } else {
            (ParseStateModel::InTradeExit(TradeExitModel { sep_count: count, ..a }), None)
        }
    } else {
        (
            ParseStateModel::InTradeExit(
                TradeExitModel {
                    exit_price: pick(m, P_EXIT_PRICE, grp(m, P_EXIT_PRICE, 1), a.exit_price),
                    exit_reason: pick(m, P_EXIT_REASON, grp(m, P_EXIT_REASON, 1), a.exit_reason),
                    pnl: pick(m, P_PNL, grp(m, P_PNL, 1), a.pnl),
                    balance: pick(m, P_BALANCE_AFTER, grp(m, P_BALANCE_AFTER, 1), a.balance),
                    sep_count: a.sep_count,
                },
            ),
            None,
        )
    }
}

/// The summary a finished session block reports, in the bot's own shape.
pub open spec fn session_report(source: ProjectSource, a: SessionModel) -> SemanticModel {
    match source {
        ProjectSource::Python => SemanticModel::SessionSummary {
            duration_hours: a.duration_hours,
            total_trades: a.total_trades,
            wins: a.wins,
            losses: a.losses,
            win_rate: a.win_rate,
            total_pnl: a.total_pnl,
            final_balance: match a.final_balance {
                Some(b) => b,
                None => Seq::empty(),
            },
        },
        ProjectSource::Rust => SemanticModel::RustSessionSummary {
            mode: a.mode,
            algo: a.algo,
            duration_hours: a.duration_hours,
            windows_seen: a.windows_seen,
            total_trades: a.total_trades,
            skipped: a.skipped,
            wins: a.wins,
            losses: a.losses,
            win_rate: a.win_rate,
            total_pnl: a.total_pnl,
            final_balance: a.final_balance,
            csv_log: a.csv_log,
        },
    }
}

/// Whether a line says that there is no final balance.
pub open spec fn says_no_final_balance(line: Seq<char>) -> bool {
    contains_seq(ascii_lower(line), "final balance:"@) && contains_seq(ascii_lower(line), "n/a"@)
}

/// The session fields that a line sets.
pub open spec fn session_fields(a: SessionModel, line: Seq<char>, m: Seq<CapsModel>) -> SessionModel {
    SessionModel {
        mode: pick(m, P_SESSION_HEADER, trim(grp(m, P_SESSION_HEADER, 1)), a.mode),
        algo: pick(m, P_SESSION_HEADER, trim(grp(m, P_SESSION_HEADER, 2)), a.algo),
        duration_hours: pick(m, P_DURATION, grp(m, P_DURATION, 1), a.duration_hours),
        windows_seen: pick_count(m, P_WINDOWS_SEEN, 1, a.windows_seen),
        total_trades: pick_count(m, P_TRADES, 1, a.total_trades),
        skipped: pick_count(m, P_SKIPPED, 1, a.skipped),
        wins: pick_count(m, P_WINS, 1, a.wins),
        losses: pick_count(m, P_LOSSES, 1, a.losses),
        win_rate: pick(m, P_WIN_RATE, grp(m, P_WIN_RATE, 1), a.win_rate),
        total_pnl: pick(m, P_TOTAL_PNL, grp(m, P_TOTAL_PNL, 1), a.total_pnl),
        final_balance: if hit(m, P_FINAL_BAL) {
            Some(grp(m, P_FINAL_BAL, 1))
        } else if says_no_final_balance(line) {
            None
        } else {
            a.final_balance
        },
        csv_log: pick(m, P_CSV_LOG, trim(grp(m, P_CSV_LOG, 1)), a.csv_log),
        end_sep_seen: a.end_sep_seen,
    }
}

/// Inside a session summary: the second `==========` line reports it.
pub open spec fn session_spec(
    source: ProjectSource,
    a: SessionModel,
    line: Seq<char>,
    m: Seq<CapsModel>,
) -> (ParseStateModel, Option<SemanticModel>) {
    if hit(m, P_SESSION_END) {
        if a.end_sep_seen {
            (ParseStateModel::Scanning, Some(session_report(source, a)))
        } else {
            (ParseStateModel::InSessionSummary(SessionModel { end_sep_seen: true, ..a }), None)
        }
    } else {
        (ParseStateModel::InSessionSummary(session_fields(a, line, m)), None)
    }
}

/// Inside a Rust market-end block: the first separator reports it, if it
/// names a market.
pub open spec fn market_end_spec(a: MarketEndModel, m: Seq<CapsModel>) -> (
    ParseStateModel,
    Option<SemanticModel>,
) {
    if hit(m, P_SEPARATOR) {
        let count = next_count(a.sep_count);
        if count >= 1 && a.market.len() != 0 {
            (
                ParseStateModel::Scanning,
                Some(
                    SemanticModel::RustMarketEnd {
                        mode: a.mode,
                        market: a.market,
                        prediction: a.prediction,
                        exit_reason: a.exit_reason,
                        window_pnl: a.window_pnl,
                        session_pnl: a.session_pnl,
                        wins: a.wins,
                        losses: a.losses,
                        skipped: a.skipped,
                    },
                ),
            )
        } else {
            (ParseStateModel::InRustMarketEnd(MarketEndModel { sep_count: count, ..a }), None)
        }
    } else {
        (
            ParseStateModel::InRustMarketEnd(
                MarketEndModel {
                    prediction: pick(m, P_PREDICTION, grp(m, P_PREDICTION, 1), a.prediction),
                    exit_reason: pick(m, P_EXIT_REASON, grp(m, P_EXIT_REASON, 1), a.exit_reason),
                    window_pnl: pick(m, P_WINDOW_PNL, grp(m, P_WINDOW_PNL, 1), a.window_pnl),
                    session_pnl: pick(m, P_SESSION_PNL, grp(m, P_SESSION_PNL, 1), a.session_pnl),
                    wins: pick_count(m, P_WINS_LOSSES, 1, a.wins),
                    losses: pick_count(m, P_WINS_LOSSES, 2, a.losses),
                    skipped: pick_count(m, P_WINS_LOSSES, 3, a.skipped),
                    ..a
                },
            ),
            None,
        )
    }
}

pub open spec fn or_raw(o: Option<SemanticModel>) -> SemanticModel {
    match o {
        Some(c) => c,
        None => SemanticModel::Raw,
    }
}

/// One step of the parser on a trimmed line and what the patterns gave on it.
pub open spec fn apply_spec(p: ParserModel, line: Seq<char>, m: Seq<CapsModel>) -> (
    ParserModel,
    SemanticModel,
) {
    let (state, content) = match p.state {
        ParseStateModel::Scanning => scan_spec(p.source, m),
        ParseStateModel::InAnalyticsBlock(a) => {
            let (s, o) = analytics_spec(a, m);
            (s, or_raw(o))
        },
        ParseStateModel::InTradeAction(a) => {
            let (s, o) = trade_action_spec(a, m);
            (s, or_raw(o))
        },
        ParseStateModel::InTradeExit(a) => {
            let (s, o) = trade_exit_spec(a, m);
            (s, or_raw(o))
        },
        ParseStateModel::InSessionSummary(a) => {
            let (s, o) = session_spec(p.source, a, line, m);
            (s, or_raw(o))
        },
        ParseStateModel::InRustMarketEnd(a) => {
            let (s, o) = market_end_spec(a, m);
            (s, or_raw(o))
        },
    };
    (ParserModel { source: p.source, state }, content)
}

/// One step of the parser on a raw line: trim it, match it, advance.
pub open spec fn feed_spec(p: ParserModel, line: Seq<char>) -> (ParserModel, SemanticModel) {
    apply_spec(p, trim(line), expected_matches(p.state, trim(line)))
}


// ─── Executable state ──────────────────────────────────────────────────────

struct AnalyticsAccum {
    market: Vec<char>,
    window_start: Vec<char>,
    window_end: Vec<char>,
    btc_open: Vec<char>,
    btc_close: Vec<char>,
    btc_high: Vec<char>,
    btc_low: Vec<char>,
    btc_diff: Vec<char>,
    gap_pct: Vec<char>,
    up_midpoint: Vec<char>,
    down_midpoint: Vec<char>,
    sep_count: u32,
}

impl View for AnalyticsAccum {
    type V = AnalyticsModel;

    closed spec fn view(&self) -> AnalyticsModel {
        AnalyticsModel {
            market: self.market@,
            window_start: self.window_start@,
            window_end: self.window_end@,
            btc_open: self.btc_open@,
            btc_close: self.btc_close@,
            btc_high: self.btc_high@,
            btc_low: self.btc_low@,
            btc_diff: self.btc_diff@,
            gap_pct: self.gap_pct@,
            up_midpoint: self.up_midpoint@,
            down_midpoint: self.down_midpoint@,
            sep_count: self.sep_count,
        }
    }
}

pub open spec fn opt_chars(o: Option<Vec<char>>) -> Option<Seq<char>> {
    match o {
        Some(v) => Some(v@),
        None => None,
    }
}

struct TradeActionAccum {
    action: Vec<char>,
    entry_price: Option<Vec<char>>,
    shares: Option<Vec<char>>,
    stake_usd: Option<Vec<char>>,
    balance: Option<Vec<char>>,
    sep_count: u32,
}

impl View for TradeActionAccum {
    type V = TradeActionModel;

    closed spec fn view(&self) -> TradeActionModel {
        TradeActionModel {
            action: self.action@,
            entry_price: opt_chars(self.entry_price),
            shares: opt_chars(self.shares),
            stake_usd: opt_chars(self.stake_usd),
            balance: opt_chars(self.balance),
            sep_count: self.sep_count,
        }
    }
}

struct TradeExitAccum {
    exit_price: Vec<char>,
    pnl: Vec<char>,
    balance: Vec<char>,
    exit_reason: Vec<char>,
    sep_count: u32,
}

impl View for TradeExitAccum {
    type V = TradeExitModel;

    closed spec fn view(&self) -> TradeExitModel {
        TradeExitModel {
            exit_price: self.exit_price@,
            pnl: self.pnl@,
            balance: self.balance@,
            exit_reason: self.exit_reason@,
            sep_count: self.sep_count,
        }
    }
}

struct SessionAccum {
    mode: Vec<char>,
    algo: Vec<char>,
    duration_hours: Vec<char>,
    windows_seen: u32,
    total_trades: u32,
    skipped: u32,
    wins: u32,
    losses: u32,
    win_rate: Vec<char>,
    total_pnl: Vec<char>,
    final_balance: Option<Vec<char>>,
    csv_log: Vec<char>,
    end_sep_seen: bool,
}

impl View for SessionAccum {
    type V = SessionModel;

    closed spec fn view(&self) -> SessionModel {
        SessionModel {
            mode: self.mode@,
            algo: self.algo@,
            duration_hours: self.duration_hours@,
            windows_seen: self.windows_seen,
            total_trades: self.total_trades,
            skipped: self.skipped,
            wins: self.wins,
            losses: self.losses,
            win_rate: self.win_rate@,
            total_pnl: self.total_pnl@,
            final_balance: opt_chars(self.final_balance),
            csv_log: self.csv_log@,
            end_sep_seen: self.end_sep_seen,
        }
    }
}

struct MarketEndAccum {
    mode: Vec<char>,
    market: Vec<char>,
    prediction: Vec<char>,
    exit_reason: Vec<char>,
    window_pnl: Vec<char>,
    session_pnl: Vec<char>,
    wins: u32,
    losses: u32,
    skipped: u32,
    sep_count: u32,
}

impl View for MarketEndAccum {
    type V = MarketEndModel;

    closed spec fn view(&self) -> MarketEndModel {
        MarketEndModel {
            mode: self.mode@,
            market: self.market@,
            prediction: self.prediction@,
            exit_reason: self.exit_reason@,
            window_pnl: self.window_pnl@,
            session_pnl: self.session_pnl@,
            wins: self.wins,
            losses: self.losses,
            skipped: self.skipped,
            sep_count: self.sep_count,
        }
    }
}

enum ParseState {
    Scanning,
    InAnalyticsBlock(AnalyticsAccum),
    InTradeAction(TradeActionAccum),
    InTradeExit(TradeExitAccum),
    InSessionSummary(SessionAccum),
    InRustMarketEnd(MarketEndAccum),
}

impl View for ParseState {
    type V = ParseStateModel;

    closed spec fn view(&self) -> ParseStateModel {
        match self {
            ParseState::Scanning => ParseStateModel::Scanning,
            ParseState::InAnalyticsBlock(a) => ParseStateModel::InAnalyticsBlock(a@),
            ParseState::InTradeAction(a) => ParseStateModel::InTradeAction(a@),
            ParseState::InTradeExit(a) => ParseStateModel::InTradeExit(a@),
            ParseState::InSessionSummary(a) => ParseStateModel::InSessionSummary(a@),
            ParseState::InRustMarketEnd(a) => ParseStateModel::InRustMarketEnd(a@),
        }
    }
}

pub open spec fn opt_content(o: Option<SemanticContent>) -> Option<SemanticModel> {
    match o {
        Some(c) => Some(c@),
        None => None,
    }
}

fn next_count_exec(n: u32) -> (res: u32)
    ensures
        res == next_count(n),
{
    if n == u32::MAX {
        0
    } else {
        n + 1
    }
}

fn opt_string_of(o: &Option<Vec<char>>) -> (res: Option<String>)
    ensures
        crate::types::opt_text(res) == opt_chars(*o),
{
    match o {
        Some(v) => Some(string_of(v)),
        None => None,
    }
}

fn empty_analytics_accum() -> (res: AnalyticsAccum)
    ensures
        res@ == empty_analytics(),
{
    AnalyticsAccum {
        market: Vec::new(),
        window_start: Vec::new(),
        window_end: Vec::new(),
        btc_open: Vec::new(),
        btc_close: Vec::new(),
        btc_high: Vec::new(),
        btc_low: Vec::new(),
        btc_diff: Vec::new(),
        gap_pct: Vec::new(),
        up_midpoint: Vec::new(),
        down_midpoint: Vec::new(),
        sep_count: 0,
    }
}

fn empty_trade_exit_accum() -> (res: TradeExitAccum)
    ensures
        res@ == empty_trade_exit(),
{
    TradeExitAccum {
        exit_price: Vec::new(),
        pnl: Vec::new(),
        balance: Vec::new(),
        exit_reason: Vec::new(),
        sep_count: 0,
    }
}

fn session_accum(mode: Vec<char>, algo: Vec<char>) -> (res: SessionAccum)
    ensures
        res@ == (SessionModel { mode: mode@, algo: algo@, ..empty_session() }),
{
    SessionAccum {
        mode,
        algo,
        duration_hours: Vec::new(),
        windows_seen: 0,
        total_trades: 0,
        skipped: 0,
        wins: 0,
        losses: 0,
        win_rate: Vec::new(),
        total_pnl: Vec::new(),
        final_balance: None,
        csv_log: Vec::new(),
        end_sep_seen: false,
    }
}

fn scan_step(source: ProjectSource, m: &Vec<TextCaps>) -> (res: (ParseState, SemanticContent))
    ensures
        (res.0@, res.1@) == scan_spec(source, matches_model(m@)),
{
    if hit_exec(m, P_LOG_LINE) {
        let content = if grp_present_exec(m, P_LOG_LINE, 1) {
            SemanticContent::LogLine {
                level: string_of(&grp_exec(m, P_LOG_LINE, 1)),
                module: string_of(&grp_exec(m, P_LOG_LINE, 2)),
                message: string_of(&grp_exec(m, P_LOG_LINE, 3)),
            }
        } else {
            SemanticContent::LogLine {
                level: string_of(&grp_exec(m, P_LOG_LINE, 4)),
                module: string_of(&grp_exec(m, P_LOG_LINE, 5)),
                message: string_of(&grp_exec(m, P_LOG_LINE, 6)),
            }
        };
        return (ParseState::Scanning, content);
    }
    match source {
        ProjectSource::Python => {
            if hit_exec(m, P_SEPARATOR) {
                let mut a = empty_analytics_accum();
                a.sep_count = 1;
                return (ParseState::InAnalyticsBlock(a), SemanticContent::Raw);
            }
            if hit_exec(m, P_SESSION_SUMMARY) {
                return (
                    ParseState::InSessionSummary(session_accum(Vec::new(), Vec::new())),
                    SemanticContent::Raw,
                );
            }
        },
        ProjectSource::Rust => {
            if hit_exec(m, P_MARKET_END) {
                let a = MarketEndAccum {
                    mode: trim_chars(&grp_exec(m, P_MARKET_END, 1)),
                    market: trim_chars(&grp_exec(m, P_MARKET_END, 2)),
                    prediction: Vec::new(),
                    exit_reason: Vec::new(),
                    window_pnl: Vec::new(),
                    session_pnl: Vec::new(),
                    wins: 0,
                    losses: 0,
                    skipped: 0,
                    sep_count: 0,
                };
                return (ParseState::InRustMarketEnd(a), SemanticContent::Raw);
            }
            if hit_exec(m, P_SESSION_HEADER) {
                let a = session_accum(
                    trim_chars(&grp_exec(m, P_SESSION_HEADER, 1)),
                    trim_chars(&grp_exec(m, P_SESSION_HEADER, 2)),
                );
                return (ParseState::InSessionSummary(a), SemanticContent::Raw);
            }
        },
    }
    (ParseState::Scanning, SemanticContent::Raw)
}

fn analytics_step(a: AnalyticsAccum, m: &Vec<TextCaps>) -> (res: (
    ParseState,
    Option<SemanticContent>,
))
    ensures
        (res.0@, opt_content(res.1)) == analytics_spec(a@, matches_model(m@)),
{
    let ghost mm = matches_model(m@);
    let mut a = a;
    if hit_exec(m, P_SEPARATOR) {
        a.sep_count = next_count_exec(a.sep_count);
        return (ParseState::InAnalyticsBlock(a), None);
    }
    let ghost a0 = a@;
    if hit_exec(m, P_MARKET) {
        a.market = trim_chars(&grp_exec(m, P_MARKET, 1));
    }
    if hit_exec(m, P_WINDOW) {
        a.window_start = grp_exec(m, P_WINDOW, 1);
        a.window_end = grp_exec(m, P_WINDOW, 2);
    }
    if hit_exec(m, P_BTC_OPEN) {
        a.btc_open = grp_exec(m, P_BTC_OPEN, 1);
    }
    if hit_exec(m, P_BTC_CLOSE) {
        a.btc_close = grp_exec(m, P_BTC_CLOSE, 1);
    }
    if hit_exec(m, P_BTC_HIGH) {
        a.btc_high = grp_exec(m, P_BTC_HIGH, 1);
    }
    if hit_exec(m, P_BTC_LOW) {
        a.btc_low = grp_exec(m, P_BTC_LOW, 1);
    }
    if hit_exec(m, P_BTC_DIFF) {
        a.btc_diff = grp_exec(m, P_BTC_DIFF, 1);
    }
    if hit_exec(m, P_GAP_PCT) {
        a.gap_pct = grp_exec(m, P_GAP_PCT, 1);
    }
    if hit_exec(m, P_UP_MID) {
        a.up_midpoint = grp_exec(m, P_UP_MID, 1);
    }
    if hit_exec(m, P_DOWN_MID) {
        a.down_midpoint = grp_exec(m, P_DOWN_MID, 1);
    }
    assert(a@ == analytics_fields(a0, mm));
    if hit_exec(m, P_PREDICTION) {
        let content = SemanticContent::BtcAnalytics {
            market: string_of(&a.market),
            window_start: string_of(&a.window_start),
            window_end: string_of(&a.window_end),
            btc_open: string_of(&a.btc_open),
            btc_close: string_of(&a.btc_close),
            btc_high: string_of(&a.btc_high),
            btc_low: string_of(&a.btc_low),
            btc_diff: string_of(&a.btc_diff),
            gap_pct: string_of(&a.gap_pct),
            up_midpoint: string_of(&a.up_midpoint),
            down_midpoint: string_of(&a.down_midpoint),
            prediction: string_of(&grp_exec(m, P_PREDICTION, 1)),
        };
        return (ParseState::Scanning, Some(content));
    }
    if hit_exec(m, P_ACTION) {
        let t = TradeActionAccum {
            action: trim_chars(&grp_exec(m, P_ACTION, 1)),
            entry_price: None,
            shares: None,
            stake_usd: None,
            balance: None,
            sep_count: 0,
        };
        return (ParseState::InTradeAction(t), None);
    }
    (ParseState::InAnalyticsBlock(a), None)
}

fn trade_action_step(a: TradeActionAccum, m: &Vec<TextCaps>) -> (res: (
    ParseState,
    Option<SemanticContent>,
))
    ensures
        (res.0@, opt_content(res.1)) == trade_action_spec(a@, matches_model(m@)),
{
    let mut a = a;
    if hit_exec(m, P_SEPARATOR) {
        a.sep_count = next_count_exec(a.sep_count);
        if a.sep_count >= 1 && a.action.len() != 0 {
            let skip = starts_with(&a.action, "SKIP");
            let content = SemanticContent::TradeAction {
                action: string_of(&a.action),
                entry_price: opt_string_of(&a.entry_price),
                shares: opt_string_of(&a.shares),
                stake_usd: opt_string_of(&a.stake_usd),
                balance: opt_string_of(&a.balance),
            };
            let next = if skip {
                ParseState::Scanning
            } else {
                ParseState::InTradeExit(empty_trade_exit_accum())
            };
            return (next, Some(content));
        }
        return (ParseState::InTradeAction(a), None);
    }
    if a.action.len() == 0 && hit_exec(m, P_ACTION) {
        a.action = trim_chars(&grp_exec(m, P_ACTION, 1));
        return (ParseState::InTradeAction(a), None);
    }
    if hit_exec(m, P_ENTRY_PRICE) {
        a.entry_price = Some(grp_exec(m, P_ENTRY_PRICE, 1));
    }
    if hit_exec(m, P_SHARES) {
        a.shares = Some(grp_exec(m, P_SHARES, 1));
    }
    if hit_exec(m, P_STAKE) {
        a.stake_usd = Some(grp_exec(m, P_STAKE, 1));
    }
    if hit_exec(m, P_BALANCE_LINE) {
        a.balance = Some(grp_exec(m, P_BALANCE_LINE, 1));
    }
    if starts_with(&a.action, "SKIP") && a.balance.is_some() {
        let content = SemanticContent::TradeAction {
            action: string_of(&a.action),
            entry_price: None,
            shares: None,
            stake_usd: None,
            balance: opt_string_of(&a.balance),
        };
        return (ParseState::Scanning, Some(content));
    }
    (ParseState::InTradeAction(a), None)
}

fn trade_exit_step(a: TradeExitAccum, m: &Vec<TextCaps>) -> (res: (
    ParseState,
    Option<SemanticContent>,
))
    ensures
        (res.0@, opt_content(res.1)) == trade_exit_spec(a@, matches_model(m@)),
{
    let mut a = a;
    if hit_exec(m, P_SEPARATOR) {
        a.sep_count = next_count_exec(a.sep_count);
        if a.sep_count >= 2 && crate::text::positive_decimal(&a.exit_price) {
            let content = SemanticContent::TradeExit {
                exit_price: string_of(&a.exit_price),
                pnl: string_of(&a.pnl),
                balance: string_of(&a.balance),
                exit_reason: string_of(&a.exit_reason),
            };
            return (ParseState::Scanning, Some(content));
        }
        return (ParseState::InTradeExit(a), None);
    }
    if hit_exec(m, P_EXIT_PRICE) {
        a.exit_price = grp_exec(m, P_EXIT_PRICE, 1);
    }
    if hit_exec(m, P_EXIT_REASON) {
        a.exit_reason = grp_exec(m, P_EXIT_REASON, 1);
    }
    if hit_exec(m, P_PNL) {
        a.pnl = grp_exec(m, P_PNL, 1);
    }
    if hit_exec(m, P_BALANCE_AFTER) {
        a.balance = grp_exec(m, P_BALANCE_AFTER, 1);
    }
    (ParseState::InTradeExit(a), None)
}

fn session_report_exec(source: ProjectSource, a: &SessionAccum) -> (res: SemanticContent)
    ensures
        res@ == session_report(source, a@),
{
    match source {
        ProjectSource::Python => SemanticContent::SessionSummary {
            duration_hours: string_of(&a.duration_hours),
            total_trades: a.total_trades,
            wins: a.wins,
            losses: a.losses,
            win_rate: string_of(&a.win_rate),
            total_pnl: string_of(&a.total_pnl),
            final_balance: match &a.final_balance {
                Some(b) => string_of(b),
                None => String::new(),
            },
        },
        ProjectSource::Rust => SemanticContent::RustSessionSummary {
            mode: string_of(&a.mode),
            algo: string_of(&a.algo),
            duration_hours: string_of(&a.duration_hours),
            windows_seen: a.windows_seen,
            total_trades: a.total_trades,
            skipped: a.skipped,
            wins: a.wins,
            losses: a.losses,
            win_rate: string_of(&a.win_rate),
            total_pnl: string_of(&a.total_pnl),
            final_balance: opt_string_of(&a.final_balance),
            csv_log: string_of(&a.csv_log),
        },
    }
}

fn session_step(source: ProjectSource, a: SessionAccum, line: &Vec<char>, m: &Vec<TextCaps>) -> (res: (
    ParseState,
    Option<SemanticContent>,
))
    ensures
        (res.0@, opt_content(res.1)) == session_spec(source, a@, line@, matches_model(m@)),
{
    let ghost mm = matches_model(m@);
    let mut a = a;
    if hit_exec(m, P_SESSION_END) {
        if a.end_sep_seen {
            let content = session_report_exec(source, &a);
            return (ParseState::Scanning, Some(content));
        }
        a.end_sep_seen = true;
        return (ParseState::InSessionSummary(a), None);
    }
    let ghost a0 = a@;
    if hit_exec(m, P_DURATION) {
        a.duration_hours = grp_exec(m, P_DURATION, 1);
    }
    if hit_exec(m, P_WINDOWS_SEEN) {
        a.windows_seen = parse_u32_or_zero(&grp_exec(m, P_WINDOWS_SEEN, 1));
    }
    if hit_exec(m, P_TRADES) {
        a.total_trades = parse_u32_or_zero(&grp_exec(m, P_TRADES, 1));
    }
    if hit_exec(m, P_SKIPPED) {
        a.skipped = parse_u32_or_zero(&grp_exec(m, P_SKIPPED, 1));
    }
    if hit_exec(m, P_WINS) {
        a.wins = parse_u32_or_zero(&grp_exec(m, P_WINS, 1));
    }
    if hit_exec(m, P_LOSSES) {
        a.losses = parse_u32_or_zero(&grp_exec(m, P_LOSSES, 1));
    }
    if hit_exec(m, P_WIN_RATE) {
        a.win_rate = grp_exec(m, P_WIN_RATE, 1);
    }
    if hit_exec(m, P_TOTAL_PNL) {
        a.total_pnl = grp_exec(m, P_TOTAL_PNL, 1);
    }
    if hit_exec(m, P_SESSION_HEADER) {
        a.mode = trim_chars(&grp_exec(m, P_SESSION_HEADER, 1));
        a.algo = trim_chars(&grp_exec(m, P_SESSION_HEADER, 2));
    }
    if hit_exec(m, P_FINAL_BAL) {
        a.final_balance = Some(grp_exec(m, P_FINAL_BAL, 1));
    } else {
        let lower = ascii_lowercase(line);
        if contains(&lower, "final balance:") && contains(&lower, "n/a") {
            a.final_balance = None;
        }
    }
    if hit_exec(m, P_CSV_LOG) {
        a.csv_log = trim_chars(&grp_exec(m, P_CSV_LOG, 1));
    }
    assert(a@ == session_fields(a0, line@, mm));
    (ParseState::InSessionSummary(a), None)
}

fn market_end_step(a: MarketEndAccum, m: &Vec<TextCaps>) -> (res: (
    ParseState,
    Option<SemanticContent>,
))
    ensures
        (res.0@, opt_content(res.1)) == market_end_spec(a@, matches_model(m@)),
{
    let mut a = a;
    if hit_exec(m, P_SEPARATOR) {
        a.sep_count = next_count_exec(a.sep_count);
        if a.sep_count >= 1 && a.market.len() != 0 {
            let content = SemanticContent::RustMarketEnd {
                mode: string_of(&a.mode),
                market: string_of(&a.market),
                prediction: string_of(&a.prediction),
                exit_reason: string_of(&a.exit_reason),
                window_pnl: string_of(&a.window_pnl),
                session_pnl: string_of(&a.session_pnl),
                wins: a.wins,
                losses: a.losses,
                skipped: a.skipped,
            };
            return (ParseState::Scanning, Some(content));
        }
        return (ParseState::InRustMarketEnd(a), None);
    }
    if hit_exec(m, P_PREDICTION) {
        a.prediction = grp_exec(m, P_PREDICTION, 1);
    }
    if hit_exec(m, P_EXIT_REASON) {
        a.exit_reason = grp_exec(m, P_EXIT_REASON, 1);
    }
    if hit_exec(m, P_WINDOW_PNL) {
        a.window_pnl = grp_exec(m, P_WINDOW_PNL, 1);
    }
    if hit_exec(m, P_SESSION_PNL) {
        a.session_pnl = grp_exec(m, P_SESSION_PNL, 1);
    }
    if hit_exec(m, P_WINS_LOSSES) {
        a.wins = parse_u32_or_zero(&grp_exec(m, P_WINS_LOSSES, 1));
        a.losses = parse_u32_or_zero(&grp_exec(m, P_WINS_LOSSES, 2));
        a.skipped = parse_u32_or_zero(&grp_exec(m, P_WINS_LOSSES, 3));
    }
    (ParseState::InRustMarketEnd(a), None)
}


// ─── The parser ────────────────────────────────────────────────────────────

/// Per-pane stateful semantic parser.
pub struct SemanticParser {
    source: ProjectSource,
    state: ParseState,
}

impl View for SemanticParser {
    type V = ParserModel;

    closed spec fn view(&self) -> ParserModel {
        ParserModel { source: self.source, state: self.state@ }
    }
}

fn uses_pattern(state: &ParseState, i: usize) -> (res: bool)
    ensures
        res == pattern_used(state@, i),
{
    match state {
        ParseState::Scanning => i == P_LOG_LINE || i == P_SEPARATOR || i == P_SESSION_SUMMARY || i
            == P_SESSION_HEADER || i == P_MARKET_END,
        ParseState::InAnalyticsBlock(_) => P_SEPARATOR <= i && i <= P_ACTION,
        ParseState::InTradeAction(_) => i == P_SEPARATOR || (P_ACTION <= i && i <= P_BALANCE_LINE),
        ParseState::InTradeExit(_) => i == P_SEPARATOR || (P_EXIT_PRICE <= i && i
            <= P_BALANCE_AFTER),
        ParseState::InSessionSummary(_) => i == P_SESSION_HEADER || i == P_WINDOWS_SEEN || i
            == P_SKIPPED || i == P_CSV_LOG || (P_DURATION <= i && i <= P_SESSION_END),
        ParseState::InRustMarketEnd(_) => i == P_SEPARATOR || i == P_PREDICTION || i
            == P_EXIT_REASON || i == P_WINDOW_PNL || i == P_SESSION_PNL || i == P_WINS_LOSSES,
    }
}

impl SemanticParser {
    /// A parser for output of the given bot, between blocks.
    pub fn new(source: ProjectSource) -> (res: SemanticParser)
        ensures
            res@ == (ParserModel { source, state: ParseStateModel::Scanning }),
    {
        SemanticParser { source, state: ParseState::Scanning }
    }

    /// The bot whose output this parser reads.
    pub fn source(&self) -> (res: ProjectSource)
        ensures
            res == self@.source,
    {
        self.source
    }

    /// Whether the parser is between blocks.
    pub fn is_scanning(&self) -> (res: bool)
        ensures
            res == (self@.state is Scanning),
    {
        match self.state {
            ParseState::Scanning => true,
            _ => false,
        }
    }

    /// Matches the trimmed `line` against the patterns the current state
    /// looks at; the others are reported as no match.
    pub fn line_matches(&self, line: &Vec<char>) -> (res: Vec<TextCaps>)
        ensures
            matches_model(res@) == expected_matches(self@.state, line@),
    {
        let mut res: Vec<TextCaps> = Vec::new();
        let mut i: usize = 0;
        while i < PATTERN_COUNT
            invariant
                i <= PATTERN_COUNT,
                res@.len() == i,
                forall|k: int|
                    0 <= k < i ==> caps_model(#[trigger] res@[k]) == expected_matches(
                        self@.state,
                        line@,
                    )[k],
            decreases PATTERN_COUNT - i,
        {
            if uses_pattern(&self.state, i) {
                let caps = if i == P_SESSION_END {
                    regex_capture(pattern_str(i), &trim_start_chars(line))
                } else {
                    regex_capture(pattern_str(i), line)
                };
                res.push(caps);
            } else {
                res.push(None);
            }
            i += 1;
        }
        assert(matches_model(res@) =~= expected_matches(self@.state, line@));
        res
    }

    /// Advances on the trimmed `line`, given what the patterns gave on it
    /// (`m`, by position; a missing position counts as no match).
    pub fn apply(&mut self, line: &Vec<char>, m: &Vec<TextCaps>) -> (res: SemanticContent)
        ensures
            (final(self)@, res@) == apply_spec(old(self)@, line@, matches_model(m@)),
    {
        let mut state = ParseState::Scanning;
        std::mem::swap(&mut state, &mut self.state);
        let (next, content) = match state {
            ParseState::Scanning => scan_step(self.source, m),
            ParseState::InAnalyticsBlock(a) => {
                let (s, o) = analytics_step(a, m);
                (s, or_raw_exec(o))
            },
            ParseState::InTradeAction(a) => {
                let (s, o) = trade_action_step(a, m);
                (s, or_raw_exec(o))
            },
            ParseState::InTradeExit(a) => {
                let (s, o) = trade_exit_step(a, m);
                (s, or_raw_exec(o))
            },
            ParseState::InSessionSummary(a) => {
                let (s, o) = session_step(self.source, a, line, m);
                (s, or_raw_exec(o))
            },
            ParseState::InRustMarketEnd(a) => {
                let (s, o) = market_end_step(a, m);
                (s, or_raw_exec(o))
            },
        };
        self.state = next;
        content
    }

    /// Feeds one clean (ANSI-stripped) line. Returns `Raw` unless the line
    /// is a log line or completes a structured block.
    pub fn feed(&mut self, line: &str) -> (res: SemanticContent)
        ensures
            (final(self)@, res@) == feed_spec(old(self)@, line@),
    {
        let chars = chars_of(line);
        let trimmed = trim_chars(&chars);
        let m = self.line_matches(&trimmed);
        self.apply(&trimmed, &m)
    }
}

fn or_raw_exec(o: Option<SemanticContent>) -> (res: SemanticContent)
    ensures
        res@ == or_raw(opt_content(o)),
{
    match o {
        Some(c) => c,
        None => SemanticContent::Raw,
    }
}


// ─── Laws ──────────────────────────────────────────────────────────────────

/// The blocks a parser can be inside: the analytics and trade blocks are the
/// Python bot's, the market-end block the Rust bot's.
pub open spec fn state_fits_source(p: ParserModel) -> bool {
    match p.state {
        ParseStateModel::InAnalyticsBlock(_) => p.source == ProjectSource::Python,
        ParseStateModel::InTradeAction(_) => p.source == ProjectSource::Python,
        ParseStateModel::InTradeExit(_) => p.source == ProjectSource::Python,
        ParseStateModel::InRustMarketEnd(_) => p.source == ProjectSource::Rust,
        _ => true,
    }
}

/// The reports each bot's output can give.
pub open spec fn content_fits_source(c: SemanticModel, source: ProjectSource) -> bool {
    match c {
        SemanticModel::BtcAnalytics { .. } => source == ProjectSource::Python,
        SemanticModel::TradeAction { .. } => source == ProjectSource::Python,
        SemanticModel::TradeExit { .. } => source == ProjectSource::Python,
        SemanticModel::SessionSummary { .. } => source == ProjectSource::Python,
        SemanticModel::RustSessionSummary { .. } => source == ProjectSource::Rust,
        SemanticModel::RustMarketEnd { .. } => source == ProjectSource::Rust,
        _ => true,
    }
}

/// A parser only enters its own bot's blocks and only reports its own
/// bot's blocks: a Python parser never reports a Rust summary or market end,
/// a Rust parser never an analytics block, a trade or a Python summary.
pub proof fn lemma_parser_keeps_to_its_bot(p: ParserModel, line: Seq<char>, m: Seq<CapsModel>)
    requires
        state_fits_source(p),
    ensures
        state_fits_source(apply_spec(p, line, m).0),
        content_fits_source(apply_spec(p, line, m).1, p.source),
        apply_spec(p, line, m).0.source == p.source,
{
}

/// The parser after feeding `lines` in order, and its reports, in order.
pub open spec fn feed_all(p: ParserModel, lines: Seq<Seq<char>>) -> (ParserModel, Seq<SemanticModel>)
    decreases lines.len(),
{
    if lines.len() == 0 {
        (p, Seq::empty())
    } else {
        let (q, reports) = feed_all(p, lines.drop_last());
        let (r, c) = feed_spec(q, lines.last());
        (r, reports.push(c))
    }
}

/// Leading and trailing whitespace never changes what a line does: feeding
/// a line or its trimmed form gives the same report and the same parser.
pub proof fn lemma_feed_ignores_surrounding_whitespace(p: ParserModel, line: Seq<char>)
    ensures
        feed_spec(p, line) == feed_spec(p, trim(line)),
{
    lemma_trim_idempotent(line);
}

/// The same holds of any run of lines: feeding them, or each of them
/// trimmed, gives the same reports and leaves the same parser, so every
/// further line is then treated alike.
pub proof fn lemma_feed_all_ignores_surrounding_whitespace(p: ParserModel, lines: Seq<Seq<char>>)
    ensures
        feed_all(p, lines) == feed_all(p, lines.map_values(|l: Seq<char>| trim(l))),
    decreases lines.len(),
{
    let trimmed = lines.map_values(|l: Seq<char>| trim(l));
    if lines.len() > 0 {
        assert(trimmed.drop_last() =~= lines.drop_last().map_values(|l: Seq<char>| trim(l)));
        lemma_feed_all_ignores_surrounding_whitespace(p, lines.drop_last());
        let q = feed_all(p, lines.drop_last()).0;
        lemma_feed_ignores_surrounding_whitespace(q, lines.last());
        assert(trimmed.last() == trim(lines.last()));
    }
}

/// A new parser is between blocks, as its bot allows.
pub proof fn lemma_new_parser_fits(source: ProjectSource)
    ensures
        state_fits_source(ParserModel { source, state: ParseStateModel::Scanning }),
{
}

/// Reporting a block ends it: after any report other than a log line the
/// parser is between blocks again, except that a trade that was not skipped
/// opens its (empty) exit block. Log lines are reported only between blocks
/// and leave the parser there.
pub proof fn lemma_report_ends_block(p: ParserModel, line: Seq<char>, m: Seq<CapsModel>)
    ensures
        ({
            let (q, c) = apply_spec(p, line, m);
            &&& (c !is Raw && c !is LogLine) ==> (q.state is Scanning || (c is TradeAction
                && q.state == ParseStateModel::InTradeExit(empty_trade_exit())))
            &&& c is LogLine ==> (p.state is Scanning && q.state is Scanning)
        }),
{
}

/// Between blocks, a line that no pattern matches is reported as raw and
/// leaves the parser as it was.
pub proof fn lemma_unmatched_line_is_raw(p: ParserModel, line: Seq<char>, m: Seq<CapsModel>)
    requires
        p.state is Scanning,
        forall|i: usize| !hit(m, i),
    ensures
        apply_spec(p, line, m) == (p, SemanticModel::Raw),
{
    assert(!hit(m, P_LOG_LINE));
    assert(!hit(m, P_SEPARATOR));
    assert(!hit(m, P_SESSION_SUMMARY));
    assert(!hit(m, P_MARKET_END));
    assert(!hit(m, P_SESSION_HEADER));
}

/// Inside a block, every line that does not complete it is reported as raw.
pub proof fn lemma_inside_block_reports_only_completions(p: ParserModel, line: Seq<char>, m: Seq<CapsModel>)
    requires
        p.state !is Scanning,
    ensures
        apply_spec(p, line, m).1 !is LogLine,
        apply_spec(p, line, m).1 is Raw <==> match p.state {
            ParseStateModel::InAnalyticsBlock(a) => analytics_spec(a, m).1 is None,
            ParseStateModel::InTradeAction(a) => trade_action_spec(a, m).1 is None,
            ParseStateModel::InTradeExit(a) => trade_exit_spec(a, m).1 is None,
            ParseStateModel::InSessionSummary(a) => session_spec(p.source, a, line, m).1 is None,
            ParseStateModel::InRustMarketEnd(a) => market_end_spec(a, m).1 is None,
            ParseStateModel::Scanning => true,
        },
{
}

} // verus!
