//! What the semantic parser reports of whole blocks, stated over the lines
//! fed to it and what each named pattern captures on them.
use vstd::prelude::*;

use crate::config::ProjectSource;
use crate::pattern::{group_present, group_text, regex_captures};
use crate::semantic::{
    analytics_fields, empty_analytics, expected_matches, feed_all, feed_spec, grp, hit,
    pattern_at, pattern_used, AnalyticsModel, ParseStateModel, ParserModel, ACTION_PATTERN,
    BTC_CLOSE_PATTERN, BTC_DIFF_PATTERN, BTC_HIGH_PATTERN, BTC_LOW_PATTERN, BTC_OPEN_PATTERN,
    DOWN_MID_PATTERN, GAP_PCT_PATTERN, LOG_LINE_PATTERN, MARKET_PATTERN, PATTERN_COUNT,
    PREDICTION_PATTERN, P_ACTION, P_BTC_CLOSE, P_BTC_DIFF, P_BTC_HIGH, P_BTC_LOW, P_BTC_OPEN,
    P_DOWN_MID, P_GAP_PCT, P_LOG_LINE, P_MARKET, P_PREDICTION, P_SEPARATOR, P_SESSION_END,
    P_UP_MID, P_WINDOW, SEPARATOR_PATTERN, UP_MID_PATTERN, WINDOW_PATTERN, empty_market_end,
    MarketEndModel, EXIT_REASON_PATTERN, MARKET_END_PATTERN, SESSION_PNL_PATTERN,
    WINDOW_PNL_PATTERN, WINS_LOSSES_PATTERN, P_EXIT_REASON, P_MARKET_END, P_SESSION_PNL,
    P_WINDOW_PNL, P_WINS_LOSSES, empty_trade_action, empty_trade_exit, TradeActionModel,
    TradeExitModel, ENTRY_PRICE_PATTERN, SHARES_PATTERN, STAKE_PATTERN, BALANCE_LINE_PATTERN,
    EXIT_PRICE_PATTERN, PNL_PATTERN, BALANCE_AFTER_PATTERN, P_ENTRY_PRICE, P_SHARES, P_STAKE,
    P_BALANCE_LINE, P_EXIT_PRICE, P_PNL, P_BALANCE_AFTER, empty_session, session_report,
    says_no_final_balance, session_fields, SessionModel, SESSION_END_PATTERN, SESSION_HEADER_PATTERN,
    SESSION_SUMMARY_PATTERN, DURATION_PATTERN, WINDOWS_SEEN_PATTERN, TRADES_PATTERN,
    SKIPPED_PATTERN, WINS_PATTERN, LOSSES_PATTERN, WIN_RATE_PATTERN, TOTAL_PNL_PATTERN,
    FINAL_BAL_PATTERN, CSV_LOG_PATTERN, P_SESSION_HEADER, P_SESSION_SUMMARY, P_WINDOWS_SEEN,
    P_SKIPPED, P_CSV_LOG, P_DURATION, P_TRADES, P_WINS, P_LOSSES, P_WIN_RATE, P_TOTAL_PNL,
    P_FINAL_BAL,
};
use crate::text::{has_prefix, is_positive_decimal, trim, trim_end, trim_start, u32_or_zero, unsigned_body};
use crate::types::SemanticModel;

verus! {

/// Whether `pattern` matches `line` once the line is trimmed.
pub open spec fn matched(pattern: Seq<char>, line: Seq<char>) -> bool {
    regex_captures(pattern, trim(line)) is Some
}

/// Group `k` of `pattern` on the trimmed `line`, empty where absent.
pub open spec fn captured(pattern: Seq<char>, line: Seq<char>, k: int) -> Seq<char> {
    group_text(regex_captures(pattern, trim(line)), k)
}

/// Group `k` of `pattern` on the last of `lines` that it matches, empty if
/// it matches none.
pub open spec fn last_captured(lines: Seq<Seq<char>>, pattern: Seq<char>, k: int) -> Seq<char>
    decreases lines.len(),
{
    if lines.len() == 0 {
        Seq::empty()
    } else if matched(pattern, lines.last()) {
        captured(pattern, lines.last(), k)
    } else {
        last_captured(lines.drop_last(), pattern, k)
    }
}

/// A new parser for the given bot.
pub open spec fn fresh_parser(source: ProjectSource) -> ParserModel {
    ParserModel { source, state: ParseStateModel::Scanning }
}

proof fn lemma_trim_empty()
    ensures
        trim(Seq::<char>::empty()) == Seq::<char>::empty(),
{
    assert(trim_start(Seq::<char>::empty()) == Seq::<char>::empty());
    assert(trim_end(Seq::<char>::empty()) == Seq::<char>::empty());
}

/// In a state that looks at pattern `i` (other than the session end), the
/// match of `i` on the trimmed line is the regex's.
proof fn lemma_expected_at(state: ParseStateModel, line: Seq<char>, i: usize)
    requires
        i < PATTERN_COUNT,
        i != P_SESSION_END,
        pattern_used(state, i),
    ensures
        hit(expected_matches(state, trim(line)), i) == matched(pattern_at(i as int), line),
        forall|k: int| #[trigger] grp(expected_matches(state, trim(line)), i, k) == captured(pattern_at(i as int), line, k),
{
}

proof fn lemma_feed_all_step(p: ParserModel, lines: Seq<Seq<char>>, l: Seq<char>)
    ensures
        feed_all(p, lines.push(l)) == ({
            let (q, reports) = feed_all(p, lines);
            let (r, c) = feed_spec(q, l);
            (r, reports.push(c))
        }),
{
    assert(lines.push(l).drop_last() =~= lines);
}

// ─── Analytics blocks ──────────────────────────────────────────────────────

/// The analytics fields read from `lines`: each the capture of its own
/// pattern on the last line that pattern matches.
pub open spec fn analytics_read(lines: Seq<Seq<char>>) -> AnalyticsModel {
    AnalyticsModel {
        market: trim(last_captured(lines, MARKET_PATTERN@, 1)),
        window_start: last_captured(lines, WINDOW_PATTERN@, 1),
        window_end: last_captured(lines, WINDOW_PATTERN@, 2),
        btc_open: last_captured(lines, BTC_OPEN_PATTERN@, 1),
        btc_close: last_captured(lines, BTC_CLOSE_PATTERN@, 1),
        btc_high: last_captured(lines, BTC_HIGH_PATTERN@, 1),
        btc_low: last_captured(lines, BTC_LOW_PATTERN@, 1),
        btc_diff: last_captured(lines, BTC_DIFF_PATTERN@, 1),
        gap_pct: last_captured(lines, GAP_PCT_PATTERN@, 1),
        up_midpoint: last_captured(lines, UP_MID_PATTERN@, 1),
        down_midpoint: last_captured(lines, DOWN_MID_PATTERN@, 1),
        sep_count: 1,
    }
}

/// A line inside an analytics block that neither ends it nor leaves it.
pub open spec fn analytics_body_line(l: Seq<char>) -> bool {
    !matched(SEPARATOR_PATTERN@, l) && !matched(PREDICTION_PATTERN@, l) && !matched(ACTION_PATTERN@, l)
}

proof fn lemma_analytics_fields_step(a: AnalyticsModel, body: Seq<Seq<char>>, l: Seq<char>)
    requires
        a == analytics_read(body),
    ensures
        analytics_fields(a, expected_matches(ParseStateModel::InAnalyticsBlock(a), trim(l)))
            == analytics_read(body.push(l)),
{
    let st = ParseStateModel::InAnalyticsBlock(a);
    let lines = body.push(l);
    assert(lines.drop_last() =~= body);
    lemma_expected_at(st, l, P_MARKET);
    lemma_expected_at(st, l, P_WINDOW);
    lemma_expected_at(st, l, P_BTC_OPEN);
    lemma_expected_at(st, l, P_BTC_CLOSE);
    lemma_expected_at(st, l, P_BTC_HIGH);
    lemma_expected_at(st, l, P_BTC_LOW);
    lemma_expected_at(st, l, P_BTC_DIFF);
    lemma_expected_at(st, l, P_GAP_PCT);
    lemma_expected_at(st, l, P_UP_MID);
    lemma_expected_at(st, l, P_DOWN_MID);
}

proof fn lemma_analytics_body(open: Seq<char>, body: Seq<Seq<char>>)
    requires
        matched(SEPARATOR_PATTERN@, open),
        !matched(LOG_LINE_PATTERN@, open),
        forall|i: int| 0 <= i < body.len() ==> analytics_body_line(#[trigger] body[i]),
    ensures
        feed_all(fresh_parser(ProjectSource::Python), seq![open] + body).0 == (ParserModel {
            source: ProjectSource::Python,
            state: ParseStateModel::InAnalyticsBlock(analytics_read(body)),
        }),
        feed_all(fresh_parser(ProjectSource::Python), seq![open] + body).1.len() == body.len() + 1,
        forall|i: int|
            0 <= i < body.len() + 1 ==> (#[trigger] feed_all(fresh_parser(ProjectSource::Python), seq![open] + body).1[i]) is Raw,
    decreases body.len(),
{
    let p = fresh_parser(ProjectSource::Python);
    if body.len() == 0 {
        assert(seq![open] + body =~= Seq::<Seq<char>>::empty().push(open));
        lemma_feed_all_step(p, Seq::empty(), open);
        lemma_expected_at(ParseStateModel::Scanning, open, P_LOG_LINE);
        lemma_expected_at(ParseStateModel::Scanning, open, P_SEPARATOR);
        lemma_trim_empty();
        assert(analytics_read(body) == AnalyticsModel { sep_count: 1, ..empty_analytics() });
    } else {
        let b0 = body.drop_last();
        let l = body.last();
        assert(forall|i: int| 0 <= i < b0.len() ==> b0[i] == body[i]);
        lemma_analytics_body(open, b0);
        assert(seq![open] + body =~= (seq![open] + b0).push(l));
        lemma_feed_all_step(p, seq![open] + b0, l);
        assert(analytics_body_line(body[body.len() - 1]));
        let a = analytics_read(b0);
        let st = ParseStateModel::InAnalyticsBlock(a);
        lemma_expected_at(st, l, P_SEPARATOR);
        lemma_expected_at(st, l, P_PREDICTION);
        lemma_expected_at(st, l, P_ACTION);
        lemma_analytics_fields_step(a, b0, l);
        assert(b0.push(l) =~= body);
    }
}

/// A Python analytics block is reported with each field read from its own
/// line: fed to a new Python parser, a separator line that opens the block,
/// lines that neither end nor leave it, then a prediction line, give raw
/// reports up to the prediction line, which reports the block. Each field
/// (market, window bounds, BTC open, close, high, low, diff, gap, the up and
/// down midpoints) is the capture of the pattern of the same name on the
/// last line it matched, empty if none did, and the prediction is that of
/// the last line. The parser is then between blocks again.
pub proof fn lemma_analytics_block_report(open: Seq<char>, body: Seq<Seq<char>>, last: Seq<char>)
    requires
        matched(SEPARATOR_PATTERN@, open),
        !matched(LOG_LINE_PATTERN@, open),
        forall|i: int| 0 <= i < body.len() ==> analytics_body_line(#[trigger] body[i]),
        matched(PREDICTION_PATTERN@, last),
        !matched(SEPARATOR_PATTERN@, last),
    ensures
        ({
            let lines = body.push(last);
            let (q, reports) = feed_all(fresh_parser(ProjectSource::Python), seq![open] + lines);
            &&& q == fresh_parser(ProjectSource::Python)
            &&& reports.len() == lines.len() + 1
            &&& forall|i: int| 0 <= i < lines.len() ==> (#[trigger] reports[i]) is Raw
            &&& reports.last() == SemanticModel::BtcAnalytics {
                market: trim(last_captured(lines, MARKET_PATTERN@, 1)),
                window_start: last_captured(lines, WINDOW_PATTERN@, 1),
                window_end: last_captured(lines, WINDOW_PATTERN@, 2),
                btc_open: last_captured(lines, BTC_OPEN_PATTERN@, 1),
                btc_close: last_captured(lines, BTC_CLOSE_PATTERN@, 1),
                btc_high: last_captured(lines, BTC_HIGH_PATTERN@, 1),
                btc_low: last_captured(lines, BTC_LOW_PATTERN@, 1),
                btc_diff: last_captured(lines, BTC_DIFF_PATTERN@, 1),
                gap_pct: last_captured(lines, GAP_PCT_PATTERN@, 1),
                up_midpoint: last_captured(lines, UP_MID_PATTERN@, 1),
                down_midpoint: last_captured(lines, DOWN_MID_PATTERN@, 1),
                prediction: captured(PREDICTION_PATTERN@, last, 1),
            }
        }),
{
    let p = fresh_parser(ProjectSource::Python);
    lemma_analytics_body(open, body);
    assert(seq![open] + body.push(last) =~= (seq![open] + body).push(last));
    lemma_feed_all_step(p, seq![open] + body, last);
    let a = analytics_read(body);
    let st = ParseStateModel::InAnalyticsBlock(a);
    lemma_expected_at(st, last, P_SEPARATOR);
    lemma_expected_at(st, last, P_PREDICTION);
    lemma_analytics_fields_step(a, body, last);
}

// ─── Market-end blocks ─────────────────────────────────────────────────────

/// The market-end fields read from the header `open` and the lines
/// `lines` after it: mode and market from the header, every other field the
/// capture of its own pattern on the last line that pattern matches (the
/// counts read as numbers, zero when absent or unreadable).
pub open spec fn market_end_read(open: Seq<char>, lines: Seq<Seq<char>>) -> MarketEndModel {
    MarketEndModel {
        mode: trim(captured(MARKET_END_PATTERN@, open, 1)),
        market: trim(captured(MARKET_END_PATTERN@, open, 2)),
        prediction: last_captured(lines, PREDICTION_PATTERN@, 1),
        exit_reason: last_captured(lines, EXIT_REASON_PATTERN@, 1),
        window_pnl: last_captured(lines, WINDOW_PNL_PATTERN@, 1),
        session_pnl: last_captured(lines, SESSION_PNL_PATTERN@, 1),
        wins: u32_or_zero(last_captured(lines, WINS_LOSSES_PATTERN@, 1)),
        losses: u32_or_zero(last_captured(lines, WINS_LOSSES_PATTERN@, 2)),
        skipped: u32_or_zero(last_captured(lines, WINS_LOSSES_PATTERN@, 3)),
        sep_count: 0,
    }
}

proof fn lemma_u32_or_zero_empty()
    ensures
        u32_or_zero(Seq::<char>::empty()) == 0,
{
    assert(unsigned_body(Seq::<char>::empty()) =~= Seq::<char>::empty());
}

proof fn lemma_market_end_body(open: Seq<char>, body: Seq<Seq<char>>)
    requires
        matched(MARKET_END_PATTERN@, open),
        !matched(LOG_LINE_PATTERN@, open),
        forall|i: int| 0 <= i < body.len() ==> !matched(SEPARATOR_PATTERN@, #[trigger] body[i]),
    ensures
        feed_all(fresh_parser(ProjectSource::Rust), seq![open] + body).0 == (ParserModel {
            source: ProjectSource::Rust,
            state: ParseStateModel::InRustMarketEnd(market_end_read(open, body)),
        }),
        feed_all(fresh_parser(ProjectSource::Rust), seq![open] + body).1.len() == body.len() + 1,
        forall|i: int|
            0 <= i < body.len() + 1 ==> (#[trigger] feed_all(fresh_parser(ProjectSource::Rust), seq![open] + body).1[i]) is Raw,
    decreases body.len(),
{
    let p = fresh_parser(ProjectSource::Rust);
    if body.len() == 0 {
        assert(seq![open] + body =~= Seq::<Seq<char>>::empty().push(open));
        lemma_feed_all_step(p, Seq::empty(), open);
        lemma_expected_at(ParseStateModel::Scanning, open, P_LOG_LINE);
        lemma_expected_at(ParseStateModel::Scanning, open, P_MARKET_END);
        lemma_u32_or_zero_empty();
        assert(market_end_read(open, body) == MarketEndModel {
            mode: trim(captured(MARKET_END_PATTERN@, open, 1)),
            market: trim(captured(MARKET_END_PATTERN@, open, 2)),
            ..empty_market_end()
        });
    } else {
        let b0 = body.drop_last();
        let l = body.last();
        assert(forall|i: int| 0 <= i < b0.len() ==> b0[i] == body[i]);
        lemma_market_end_body(open, b0);
        assert(seq![open] + body =~= (seq![open] + b0).push(l));
        lemma_feed_all_step(p, seq![open] + b0, l);
        assert(!matched(SEPARATOR_PATTERN@, body[body.len() - 1]));
        let a = market_end_read(open, b0);
        let st = ParseStateModel::InRustMarketEnd(a);
        lemma_expected_at(st, l, P_SEPARATOR);
        lemma_expected_at(st, l, P_PREDICTION);
        lemma_expected_at(st, l, P_EXIT_REASON);
        lemma_expected_at(st, l, P_WINDOW_PNL);
        lemma_expected_at(st, l, P_SESSION_PNL);
        lemma_expected_at(st, l, P_WINS_LOSSES);
        assert(body.drop_last() =~= b0);
    }
}

/// A Rust market-end block is reported with each field read from its own
/// line: fed to a new Rust parser, a `MARKET END` header that names a
/// market, lines that are not separators, then a separator, give raw
/// reports up to the separator, which reports the block. Mode and market
/// come from the header; the prediction, exit reason, window P&L, session
/// P&L and the wins, losses and skipped counts are each the capture of the
/// pattern of the same name on the last line it matched (empty, or zero,
/// if none did). The parser is then between blocks again.
pub proof fn lemma_market_end_block_report(open: Seq<char>, body: Seq<Seq<char>>, last: Seq<char>)
    requires
        matched(MARKET_END_PATTERN@, open),
        !matched(LOG_LINE_PATTERN@, open),
        trim(captured(MARKET_END_PATTERN@, open, 2)).len() > 0,
        forall|i: int| 0 <= i < body.len() ==> !matched(SEPARATOR_PATTERN@, #[trigger] body[i]),
        matched(SEPARATOR_PATTERN@, last),
    ensures
        ({
            let (q, reports) = feed_all(fresh_parser(ProjectSource::Rust), seq![open] + body.push(last));
            &&& q == fresh_parser(ProjectSource::Rust)
            &&& reports.len() == body.len() + 2
            &&& forall|i: int| 0 <= i < body.len() + 1 ==> (#[trigger] reports[i]) is Raw
            &&& reports.last() == SemanticModel::RustMarketEnd {
                mode: trim(captured(MARKET_END_PATTERN@, open, 1)),
                market: trim(captured(MARKET_END_PATTERN@, open, 2)),
                prediction: last_captured(body, PREDICTION_PATTERN@, 1),
                exit_reason: last_captured(body, EXIT_REASON_PATTERN@, 1),
                window_pnl: last_captured(body, WINDOW_PNL_PATTERN@, 1),
                session_pnl: last_captured(body, SESSION_PNL_PATTERN@, 1),
                wins: u32_or_zero(last_captured(body, WINS_LOSSES_PATTERN@, 1)),
                losses: u32_or_zero(last_captured(body, WINS_LOSSES_PATTERN@, 2)),
                skipped: u32_or_zero(last_captured(body, WINS_LOSSES_PATTERN@, 3)),
            }
        }),
{
    let p = fresh_parser(ProjectSource::Rust);
    lemma_market_end_body(open, body);
    assert(seq![open] + body.push(last) =~= (seq![open] + body).push(last));
    lemma_feed_all_step(p, seq![open] + body, last);
    let st = ParseStateModel::InRustMarketEnd(market_end_read(open, body));
    lemma_expected_at(st, last, P_SEPARATOR);
}

// ─── Runs of lines ─────────────────────────────────────────────────────────

/// Feeding two runs of lines is feeding the first, then the second from
/// where the first left the parser.
pub proof fn lemma_feed_all_append(p: ParserModel, xs: Seq<Seq<char>>, ys: Seq<Seq<char>>)
    ensures
        feed_all(p, xs + ys) == ({
            let (q, r1) = feed_all(p, xs);
            let (u, r2) = feed_all(q, ys);
            (u, r1 + r2)
        }),
    decreases ys.len(),
{
    if ys.len() == 0 {
        assert(xs + ys =~= xs);
        assert(feed_all(p, xs).1 + Seq::<SemanticModel>::empty() =~= feed_all(p, xs).1);
    } else {
        let y0 = ys.drop_last();
        let l = ys.last();
        lemma_feed_all_append(p, xs, y0);
        assert(xs + ys =~= (xs + y0).push(l));
        lemma_feed_all_step(p, xs + y0, l);
        let q = feed_all(p, xs).0;
        lemma_feed_all_step(q, y0, l);
        assert(y0.push(l) =~= ys);
        let r1 = feed_all(p, xs).1;
        let r2 = feed_all(q, y0).1;
        let c = feed_spec(feed_all(q, y0).0, l).1;
        assert((r1 + r2).push(c) =~= r1 + r2.push(c));
    }
}

/// Group 1 of `pattern` on the last of `lines` it matches, if any.
pub open spec fn last_found(lines: Seq<Seq<char>>, pattern: Seq<char>) -> Option<Seq<char>>
    decreases lines.len(),
{
    if lines.len() == 0 {
        None
    } else if matched(pattern, lines.last()) {
        Some(captured(pattern, lines.last(), 1))
    } else {
        last_found(lines.drop_last(), pattern)
    }
}

// ─── Trade actions ─────────────────────────────────────────────────────────

/// A trade action's fields read from `lines` after its action line.
pub open spec fn action_read(action: Seq<char>, lines: Seq<Seq<char>>) -> TradeActionModel {
    TradeActionModel {
        action,
        entry_price: last_found(lines, ENTRY_PRICE_PATTERN@),
        shares: last_found(lines, SHARES_PATTERN@),
        stake_usd: last_found(lines, STAKE_PATTERN@),
        balance: last_found(lines, BALANCE_LINE_PATTERN@),
        sep_count: 0,
    }
}

proof fn lemma_action_body(p: ParserModel, opener: Seq<char>, body: Seq<Seq<char>>)
    requires
        p.state is InAnalyticsBlock,
        matched(ACTION_PATTERN@, opener),
        !matched(SEPARATOR_PATTERN@, opener),
        !matched(PREDICTION_PATTERN@, opener),
        trim(captured(ACTION_PATTERN@, opener, 1)).len() > 0,
        !has_prefix(trim(captured(ACTION_PATTERN@, opener, 1)), "SKIP"@),
        forall|i: int| 0 <= i < body.len() ==> !matched(SEPARATOR_PATTERN@, #[trigger] body[i]),
    ensures
        feed_all(p, seq![opener] + body).0 == (ParserModel {
            source: p.source,
            state: ParseStateModel::InTradeAction(
                action_read(trim(captured(ACTION_PATTERN@, opener, 1)), body),
            ),
        }),
        feed_all(p, seq![opener] + body).1.len() == body.len() + 1,
        forall|i: int| 0 <= i < body.len() + 1 ==> (#[trigger] feed_all(p, seq![opener] + body).1[i]) is Raw,
    decreases body.len(),
{
    let act = trim(captured(ACTION_PATTERN@, opener, 1));
    if body.len() == 0 {
        assert(seq![opener] + body =~= Seq::<Seq<char>>::empty().push(opener));
        lemma_feed_all_step(p, Seq::empty(), opener);
        lemma_expected_at(p.state, opener, P_SEPARATOR);
        lemma_expected_at(p.state, opener, P_PREDICTION);
        lemma_expected_at(p.state, opener, P_ACTION);
        assert(action_read(act, body) == TradeActionModel { action: act, ..empty_trade_action() });
    } else {
        let b0 = body.drop_last();
        let l = body.last();
        assert(forall|i: int| 0 <= i < b0.len() ==> b0[i] == body[i]);
        lemma_action_body(p, opener, b0);
        assert(seq![opener] + body =~= (seq![opener] + b0).push(l));
        lemma_feed_all_step(p, seq![opener] + b0, l);
        assert(!matched(SEPARATOR_PATTERN@, body[body.len() - 1]));
        let st = ParseStateModel::InTradeAction(action_read(act, b0));
        lemma_expected_at(st, l, P_SEPARATOR);
        lemma_expected_at(st, l, P_ENTRY_PRICE);
        lemma_expected_at(st, l, P_SHARES);
        lemma_expected_at(st, l, P_STAKE);
        lemma_expected_at(st, l, P_BALANCE_LINE);
        assert(body.drop_last() =~= b0);
    }
}

/// A trade that is not a skip is reported with each field read from its
/// own line: inside an analytics block, an action line naming the trade,
/// lines that are not separators, then a separator, give raw reports up to
/// the separator, which reports the action; the entry price, shares, stake
/// and balance are each `Some` capture of the pattern of the same name on
/// the last line it matched, `None` if none did. The parser then awaits the
/// trade's exit block.
pub proof fn lemma_trade_action_report(p: ParserModel, opener: Seq<char>, body: Seq<Seq<char>>, last: Seq<char>)
    requires
        p.state is InAnalyticsBlock,
        matched(ACTION_PATTERN@, opener),
        !matched(SEPARATOR_PATTERN@, opener),
        !matched(PREDICTION_PATTERN@, opener),
        trim(captured(ACTION_PATTERN@, opener, 1)).len() > 0,
        !has_prefix(trim(captured(ACTION_PATTERN@, opener, 1)), "SKIP"@),
        forall|i: int| 0 <= i < body.len() ==> !matched(SEPARATOR_PATTERN@, #[trigger] body[i]),
        matched(SEPARATOR_PATTERN@, last),
    ensures
        ({
            let (q, reports) = feed_all(p, seq![opener] + body.push(last));
            &&& q == (ParserModel {
                source: p.source,
                state: ParseStateModel::InTradeExit(empty_trade_exit()),
            })
            &&& reports.len() == body.len() + 2
            &&& forall|i: int| 0 <= i < body.len() + 1 ==> (#[trigger] reports[i]) is Raw
            &&& reports.last() == SemanticModel::TradeAction {
                action: trim(captured(ACTION_PATTERN@, opener, 1)),
                entry_price: last_found(body, ENTRY_PRICE_PATTERN@),
                shares: last_found(body, SHARES_PATTERN@),
                stake_usd: last_found(body, STAKE_PATTERN@),
                balance: last_found(body, BALANCE_LINE_PATTERN@),
            }
        }),
{
    lemma_action_body(p, opener, body);
    assert(seq![opener] + body.push(last) =~= (seq![opener] + body).push(last));
    lemma_feed_all_step(p, seq![opener] + body, last);
    let st = ParseStateModel::InTradeAction(action_read(trim(captured(ACTION_PATTERN@, opener, 1)), body));
    lemma_expected_at(st, last, P_SEPARATOR);
}

// ─── Trade exits ───────────────────────────────────────────────────────────

/// A trade exit's fields read from `lines`, after `count` separators.
pub open spec fn exit_read(lines: Seq<Seq<char>>, count: u32) -> TradeExitModel {
    TradeExitModel {
        exit_price: last_captured(lines, EXIT_PRICE_PATTERN@, 1),
        pnl: last_captured(lines, PNL_PATTERN@, 1),
        balance: last_captured(lines, BALANCE_AFTER_PATTERN@, 1),
        exit_reason: last_captured(lines, EXIT_REASON_PATTERN@, 1),
        sep_count: count,
    }
}

proof fn lemma_exit_lines(p: ParserModel, prev: Seq<Seq<char>>, count: u32, body: Seq<Seq<char>>)
    requires
        p.state == ParseStateModel::InTradeExit(exit_read(prev, count)),
        forall|i: int| 0 <= i < body.len() ==> !matched(SEPARATOR_PATTERN@, #[trigger] body[i]),
    ensures
        feed_all(p, body).0 == (ParserModel {
            source: p.source,
            state: ParseStateModel::InTradeExit(exit_read(prev + body, count)),
        }),
        feed_all(p, body).1.len() == body.len(),
        forall|i: int| 0 <= i < body.len() ==> (#[trigger] feed_all(p, body).1[i]) is Raw,
    decreases body.len(),
{
    if body.len() == 0 {
        assert(prev + body =~= prev);
    } else {
        let b0 = body.drop_last();
        let l = body.last();
        assert(forall|i: int| 0 <= i < b0.len() ==> b0[i] == body[i]);
        lemma_exit_lines(p, prev, count, b0);
        assert(body =~= b0.push(l));
        lemma_feed_all_step(p, b0, l);
        assert(!matched(SEPARATOR_PATTERN@, body[body.len() - 1]));
        let st = ParseStateModel::InTradeExit(exit_read(prev + b0, count));
        lemma_expected_at(st, l, P_SEPARATOR);
        lemma_expected_at(st, l, P_EXIT_PRICE);
        lemma_expected_at(st, l, P_EXIT_REASON);
        lemma_expected_at(st, l, P_PNL);
        lemma_expected_at(st, l, P_BALANCE_AFTER);
        assert((prev + b0).push(l) =~= prev + body);
        assert((prev + body).drop_last() =~= prev + b0);
    }
}

/// A trade exit is reported with each field read from its own line: from
/// the exit block a trade action leaves, lines that are not separators, a
/// separator, more such lines and a second separator give raw reports up
/// to the second separator, which reports the exit when the exit price read
/// is positive. The exit price, P&L, balance after and exit reason are each
/// the capture of the pattern of the same name on the last line it matched,
/// empty if none did. The parser is then between blocks again.
pub proof fn lemma_trade_exit_report(
    p: ParserModel,
    first: Seq<Seq<char>>,
    sep1: Seq<char>,
    second: Seq<Seq<char>>,
    sep2: Seq<char>,
)
    requires
        p.state == ParseStateModel::InTradeExit(empty_trade_exit()),
        forall|i: int| 0 <= i < first.len() ==> !matched(SEPARATOR_PATTERN@, #[trigger] first[i]),
        forall|i: int| 0 <= i < second.len() ==> !matched(SEPARATOR_PATTERN@, #[trigger] second[i]),
        matched(SEPARATOR_PATTERN@, sep1),
        matched(SEPARATOR_PATTERN@, sep2),
        is_positive_decimal(last_captured(first + second, EXIT_PRICE_PATTERN@, 1)),
    ensures
        ({
            let lines = first + second;
            let (q, reports) = feed_all(p, first.push(sep1) + second.push(sep2));
            &&& q == (ParserModel { source: p.source, state: ParseStateModel::Scanning })
            &&& reports.len() == lines.len() + 2
            &&& forall|i: int| 0 <= i < lines.len() + 1 ==> (#[trigger] reports[i]) is Raw
            &&& reports.last() == SemanticModel::TradeExit {
                exit_price: last_captured(lines, EXIT_PRICE_PATTERN@, 1),
                pnl: last_captured(lines, PNL_PATTERN@, 1),
                balance: last_captured(lines, BALANCE_AFTER_PATTERN@, 1),
                exit_reason: last_captured(lines, EXIT_REASON_PATTERN@, 1),
            }
        }),
{
    let e: Seq<Seq<char>> = Seq::empty();
    assert(exit_read(e, 0) == empty_trade_exit());
    assert(e + first =~= first);
    lemma_exit_lines(p, e, 0, first);
    let p1 = feed_all(p, first).0;
    lemma_feed_all_step(p, first, sep1);
    lemma_expected_at(p1.state, sep1, P_SEPARATOR);
    let p2 = feed_all(p, first.push(sep1)).0;
    assert(p2.state == ParseStateModel::InTradeExit(exit_read(first, 1)));
    lemma_exit_lines(p2, first, 1, second);
    let p3 = feed_all(p2, second).0;
    lemma_feed_all_step(p2, second, sep2);
    lemma_expected_at(p3.state, sep2, P_SEPARATOR);
    lemma_feed_all_append(p, first.push(sep1), second.push(sep2));
    let r1 = feed_all(p, first.push(sep1)).1;
    let r2 = feed_all(p2, second.push(sep2)).1;
    assert forall|i: int| 0 <= i < first.len() + second.len() + 1 implies #[trigger] (r1 + r2)[i] is Raw by {
        if i < r1.len() {
            assert((r1 + r2)[i] == r1[i]);
        } else {
            assert((r1 + r2)[i] == r2[i - r1.len()]);
        }
    }
}

// ─── Session summaries ─────────────────────────────────────────────────────

/// Whether `line` is a `==========` line that ends a part of a session
/// summary.
pub open spec fn ends_session(line: Seq<char>) -> bool {
    regex_captures(SESSION_END_PATTERN@, trim_start(trim(line))) is Some
}

/// Group `k` of `pattern` on the last of `lines` it matches, `d` if none.
pub open spec fn last_captured_or(lines: Seq<Seq<char>>, pattern: Seq<char>, k: int, d: Seq<char>) -> Seq<char>
    decreases lines.len(),
{
    if lines.len() == 0 {
        d
    } else if matched(pattern, lines.last()) {
        captured(pattern, lines.last(), k)
    } else {
        last_captured_or(lines.drop_last(), pattern, k, d)
    }
}

/// The final balance `lines` give: the capture of the last line that states
/// one, unless a later line says there is none.
pub open spec fn last_final_balance(lines: Seq<Seq<char>>) -> Option<Seq<char>>
    decreases lines.len(),
{
    if lines.len() == 0 {
        None
    } else if matched(FINAL_BAL_PATTERN@, lines.last()) {
        Some(captured(FINAL_BAL_PATTERN@, lines.last(), 1))
    } else if says_no_final_balance(trim(lines.last())) {
        None
    } else {
        last_final_balance(lines.drop_last())
    }
}

/// A session summary's fields read from `lines`, with the mode and algorithm
/// of the header (`mode0`, `algo0`) unless a line restates them.
pub open spec fn session_read(mode0: Seq<char>, algo0: Seq<char>, lines: Seq<Seq<char>>, seen: bool) -> SessionModel {
    SessionModel {
        mode: trim(last_captured_or(lines, SESSION_HEADER_PATTERN@, 1, mode0)),
        algo: trim(last_captured_or(lines, SESSION_HEADER_PATTERN@, 2, algo0)),
        duration_hours: last_captured(lines, DURATION_PATTERN@, 1),
        windows_seen: u32_or_zero(last_captured(lines, WINDOWS_SEEN_PATTERN@, 1)),
        total_trades: u32_or_zero(last_captured(lines, TRADES_PATTERN@, 1)),
        skipped: u32_or_zero(last_captured(lines, SKIPPED_PATTERN@, 1)),
        wins: u32_or_zero(last_captured(lines, WINS_PATTERN@, 1)),
        losses: u32_or_zero(last_captured(lines, LOSSES_PATTERN@, 1)),
        win_rate: last_captured(lines, WIN_RATE_PATTERN@, 1),
        total_pnl: last_captured(lines, TOTAL_PNL_PATTERN@, 1),
        final_balance: last_final_balance(lines),
        csv_log: trim(last_captured(lines, CSV_LOG_PATTERN@, 1)),
        end_sep_seen: seen,
    }
}

proof fn lemma_expected_end(state: ParseStateModel, line: Seq<char>)
    requires
        pattern_used(state, P_SESSION_END),
    ensures
        hit(expected_matches(state, trim(line)), P_SESSION_END) == ends_session(line),
{
}

proof fn lemma_session_lines(
    p: ParserModel,
    mode0: Seq<char>,
    algo0: Seq<char>,
    prev: Seq<Seq<char>>,
    seen: bool,
    body: Seq<Seq<char>>,
)
    requires
        p.state == ParseStateModel::InSessionSummary(session_read(mode0, algo0, prev, seen)),
        forall|i: int| 0 <= i < body.len() ==> !ends_session(#[trigger] body[i]),
    ensures
        feed_all(p, body).0 == (ParserModel {
            source: p.source,
            state: ParseStateModel::InSessionSummary(session_read(mode0, algo0, prev + body, seen)),
        }),
        feed_all(p, body).1.len() == body.len(),
        forall|i: int| 0 <= i < body.len() ==> (#[trigger] feed_all(p, body).1[i]) is Raw,
    decreases body.len(),
{
    if body.len() == 0 {
        assert(prev + body =~= prev);
    } else {
        let b0 = body.drop_last();
        let l = body.last();
        assert(forall|i: int| 0 <= i < b0.len() ==> b0[i] == body[i]);
        lemma_session_lines(p, mode0, algo0, prev, seen, b0);
        assert(body =~= b0.push(l));
        lemma_feed_all_step(p, b0, l);
        assert(!ends_session(body[body.len() - 1]));
        let st = ParseStateModel::InSessionSummary(session_read(mode0, algo0, prev + b0, seen));
        lemma_expected_end(st, l);
        lemma_session_fields_step(mode0, algo0, prev + b0, seen, l);
        assert((prev + b0).push(l) =~= prev + body);
    }
}

proof fn lemma_session_fields_step(mode0: Seq<char>, algo0: Seq<char>, lines: Seq<Seq<char>>, seen: bool, l: Seq<char>)
    ensures
        session_fields(
            session_read(mode0, algo0, lines, seen),
            trim(l),
            expected_matches(ParseStateModel::InSessionSummary(session_read(mode0, algo0, lines, seen)), trim(l)),
        ) == session_read(mode0, algo0, lines.push(l), seen),
{
    let st = ParseStateModel::InSessionSummary(session_read(mode0, algo0, lines, seen));
    assert(lines.push(l).drop_last() =~= lines);
    lemma_expected_at(st, l, P_SESSION_HEADER);
    lemma_expected_at(st, l, P_WINDOWS_SEEN);
    lemma_expected_at(st, l, P_SKIPPED);
    lemma_expected_at(st, l, P_CSV_LOG);
    lemma_expected_at(st, l, P_DURATION);
    lemma_expected_at(st, l, P_TRADES);
    lemma_expected_at(st, l, P_WINS);
    lemma_expected_at(st, l, P_LOSSES);
    lemma_expected_at(st, l, P_WIN_RATE);
    lemma_expected_at(st, l, P_TOTAL_PNL);
    lemma_expected_at(st, l, P_FINAL_BAL);
}

/// The two parts of a session summary: from the state its header leaves,
/// lines, a `==========` line, more lines and another `==========` line
/// give raw reports up to the last line, which reports the session read
/// from all the lines between; the parser is then between blocks again.
proof fn lemma_session_parts(
    p: ParserModel,
    mode0: Seq<char>,
    algo0: Seq<char>,
    first: Seq<Seq<char>>,
    end1: Seq<char>,
    second: Seq<Seq<char>>,
    end2: Seq<char>,
)
    requires
        p.state == ParseStateModel::InSessionSummary(
            session_read(mode0, algo0, Seq::empty(), false),
        ),
        forall|i: int| 0 <= i < first.len() ==> !ends_session(#[trigger] first[i]),
        forall|i: int| 0 <= i < second.len() ==> !ends_session(#[trigger] second[i]),
        ends_session(end1),
        ends_session(end2),
    ensures
        ({
            let (q, reports) = feed_all(p, first.push(end1) + second.push(end2));
            &&& q == (ParserModel { source: p.source, state: ParseStateModel::Scanning })
            &&& reports.len() == first.len() + second.len() + 2
            &&& forall|i: int| 0 <= i < first.len() + second.len() + 1 ==> (#[trigger] reports[i]) is Raw
            &&& reports.last() == session_report(
                p.source,
                session_read(mode0, algo0, first + second, true),
            )
        }),
{
    let e: Seq<Seq<char>> = Seq::empty();
    assert(e + first =~= first);
    lemma_session_lines(p, mode0, algo0, e, false, first);
    let p1 = feed_all(p, first).0;
    lemma_feed_all_step(p, first, end1);
    lemma_expected_end(p1.state, end1);
    let p2 = feed_all(p, first.push(end1)).0;
    assert(p2.state == ParseStateModel::InSessionSummary(session_read(mode0, algo0, first, true)));
    lemma_session_lines(p2, mode0, algo0, first, true, second);
    let p3 = feed_all(p2, second).0;
    lemma_feed_all_step(p2, second, end2);
    lemma_expected_end(p3.state, end2);
    lemma_feed_all_append(p, first.push(end1), second.push(end2));
    let r1 = feed_all(p, first.push(end1)).1;
    let r2 = feed_all(p2, second.push(end2)).1;
    assert forall|i: int| 0 <= i < first.len() + second.len() + 1 implies #[trigger] (r1 + r2)[i] is Raw by {
        if i < r1.len() {
            assert((r1 + r2)[i] == r1[i]);
        } else {
            assert((r1 + r2)[i] == r2[i - r1.len()]);
        }
    }
}

proof fn lemma_session_start(p: ParserModel, open: Seq<char>)
    requires
        p.state is Scanning,
        !matched(LOG_LINE_PATTERN@, open),
        p.source == ProjectSource::Python ==> matched(SESSION_SUMMARY_PATTERN@, open) && !matched(SEPARATOR_PATTERN@, open),
        p.source == ProjectSource::Rust ==> matched(SESSION_HEADER_PATTERN@, open) && !matched(MARKET_END_PATTERN@, open),
    ensures
        feed_spec(p, open) == (
            ParserModel {
                source: p.source,
                state: ParseStateModel::InSessionSummary(
                    if p.source == ProjectSource::Python {
                        session_read(Seq::empty(), Seq::empty(), Seq::empty(), false)
                    } else {
                        session_read(
                            captured(SESSION_HEADER_PATTERN@, open, 1),
                            captured(SESSION_HEADER_PATTERN@, open, 2),
                            Seq::empty(),
                            false,
                        )
                    },
                ),
            },
            SemanticModel::Raw,
        ),
{
    lemma_expected_at(p.state, open, P_LOG_LINE);
    lemma_expected_at(p.state, open, P_SEPARATOR);
    lemma_expected_at(p.state, open, P_SESSION_SUMMARY);
    lemma_expected_at(p.state, open, P_SESSION_HEADER);
    lemma_expected_at(p.state, open, P_MARKET_END);
    lemma_trim_empty();
    lemma_u32_or_zero_empty();
    let e: Seq<Seq<char>> = Seq::empty();
    assert(session_read(Seq::empty(), Seq::empty(), e, false) == empty_session());
}

proof fn lemma_header_first(open: Seq<char>, lines: Seq<Seq<char>>, k: int)
    requires
        matched(SESSION_HEADER_PATTERN@, open),
    ensures
        last_captured(seq![open] + lines, SESSION_HEADER_PATTERN@, k) == last_captured_or(
            lines,
            SESSION_HEADER_PATTERN@,
            k,
            captured(SESSION_HEADER_PATTERN@, open, k),
        ),
    decreases lines.len(),
{
    if lines.len() == 0 {
        assert(seq![open] + lines =~= seq![open]);
        assert(seq![open].drop_last() =~= Seq::<Seq<char>>::empty());
    } else {
        lemma_header_first(open, lines.drop_last(), k);
        assert((seq![open] + lines).drop_last() =~= seq![open] + lines.drop_last());
        assert((seq![open] + lines).last() == lines.last());
    }
}

/// A Python session summary is reported with each field read from its own
/// line: fed to a new Python parser, a `SESSION SUMMARY` line, lines that do
/// not end it, a `==========` line, more such lines and another
/// `==========` line give raw reports up to the last line, which reports the
/// session. Duration, win rate and total P&L are each the capture of the
/// pattern of the same name on the last line it matched (empty if none did);
/// the trades executed, wins and losses are those captures read as numbers
/// (zero when absent or unreadable); the final balance is that of the last
/// line stating one, empty if there is none or a later line says it is not
/// available. The parser is then between blocks again.
pub proof fn lemma_python_session_report(
    open: Seq<char>,
    first: Seq<Seq<char>>,
    end1: Seq<char>,
    second: Seq<Seq<char>>,
    end2: Seq<char>,
)
    requires
        matched(SESSION_SUMMARY_PATTERN@, open),
        !matched(LOG_LINE_PATTERN@, open),
        !matched(SEPARATOR_PATTERN@, open),
        forall|i: int| 0 <= i < first.len() ==> !ends_session(#[trigger] first[i]),
        forall|i: int| 0 <= i < second.len() ==> !ends_session(#[trigger] second[i]),
        ends_session(end1),
        ends_session(end2),
    ensures
        ({
            let lines = first + second;
            let (q, reports) = feed_all(
                fresh_parser(ProjectSource::Python),
                seq![open] + (first.push(end1) + second.push(end2)),
            );
            &&& q == fresh_parser(ProjectSource::Python)
            &&& reports.len() == lines.len() + 3
            &&& forall|i: int| 0 <= i < lines.len() + 2 ==> (#[trigger] reports[i]) is Raw
            &&& reports.last() == SemanticModel::SessionSummary {
                duration_hours: last_captured(lines, DURATION_PATTERN@, 1),
                total_trades: u32_or_zero(last_captured(lines, TRADES_PATTERN@, 1)),
                wins: u32_or_zero(last_captured(lines, WINS_PATTERN@, 1)),
                losses: u32_or_zero(last_captured(lines, LOSSES_PATTERN@, 1)),
                win_rate: last_captured(lines, WIN_RATE_PATTERN@, 1),
                total_pnl: last_captured(lines, TOTAL_PNL_PATTERN@, 1),
                final_balance: match last_final_balance(lines) {
                    Some(b) => b,
                    None => Seq::empty(),
                },
            }
        }),
{
    let p = fresh_parser(ProjectSource::Python);
    let rest = first.push(end1) + second.push(end2);
    lemma_session_start(p, open);
    assert(seq![open] =~= Seq::<Seq<char>>::empty().push(open));
    lemma_feed_all_step(p, Seq::empty(), open);
    let p1 = feed_spec(p, open).0;
    lemma_session_parts(p1, Seq::empty(), Seq::empty(), first, end1, second, end2);
    lemma_feed_all_append(p, seq![open], rest);
    let r1 = feed_all(p, seq![open]).1;
    let r2 = feed_all(p1, rest).1;
    assert forall|i: int| 0 <= i < first.len() + second.len() + 2 implies #[trigger] (r1 + r2)[i] is Raw by {
        if i < 1 {
            assert((r1 + r2)[i] == r1[i]);
        } else {
            assert((r1 + r2)[i] == r2[i - 1]);
        }
    }
}

/// A Rust session summary is reported with each field read from its own
/// line: fed to a new Rust parser, a `SESSION SUMMARY | mode=… | algo=…`
/// header, lines that do not end it, a `==========` line, more such lines
/// and another `==========` line give raw reports up to the last line,
/// which reports the session. Mode and algorithm are those of the last
/// header line; duration, win rate, total P&L and the CSV log are each the
/// capture of the pattern of the same name on the last line it matched
/// (empty if none did); windows seen, trades executed, skipped, wins and
/// losses are those captures read as numbers (zero when absent or
/// unreadable); the final balance is that of the last line stating one,
/// `None` if there is none or a later line says it is not available. The
/// parser is then between blocks again.
pub proof fn lemma_rust_session_report(
    open: Seq<char>,
    first: Seq<Seq<char>>,
    end1: Seq<char>,
    second: Seq<Seq<char>>,
    end2: Seq<char>,
)
    requires
        matched(SESSION_HEADER_PATTERN@, open),
        !matched(LOG_LINE_PATTERN@, open),
        !matched(MARKET_END_PATTERN@, open),
        forall|i: int| 0 <= i < first.len() ==> !ends_session(#[trigger] first[i]),
        forall|i: int| 0 <= i < second.len() ==> !ends_session(#[trigger] second[i]),
        ends_session(end1),
        ends_session(end2),
    ensures
        ({
            let lines = first + second;
            let (q, reports) = feed_all(
                fresh_parser(ProjectSource::Rust),
                seq![open] + (first.push(end1) + second.push(end2)),
            );
            &&& q == fresh_parser(ProjectSource::Rust)
            &&& reports.len() == lines.len() + 3
            &&& forall|i: int| 0 <= i < lines.len() + 2 ==> (#[trigger] reports[i]) is Raw
            &&& reports.last() == SemanticModel::RustSessionSummary {
                mode: trim(last_captured(seq![open] + lines, SESSION_HEADER_PATTERN@, 1)),
                algo: trim(last_captured(seq![open] + lines, SESSION_HEADER_PATTERN@, 2)),
                duration_hours: last_captured(lines, DURATION_PATTERN@, 1),
                windows_seen: u32_or_zero(last_captured(lines, WINDOWS_SEEN_PATTERN@, 1)),
                total_trades: u32_or_zero(last_captured(lines, TRADES_PATTERN@, 1)),
                skipped: u32_or_zero(last_captured(lines, SKIPPED_PATTERN@, 1)),
                wins: u32_or_zero(last_captured(lines, WINS_PATTERN@, 1)),
                losses: u32_or_zero(last_captured(lines, LOSSES_PATTERN@, 1)),
                win_rate: last_captured(lines, WIN_RATE_PATTERN@, 1),
                total_pnl: last_captured(lines, TOTAL_PNL_PATTERN@, 1),
                final_balance: last_final_balance(lines),
                csv_log: trim(last_captured(lines, CSV_LOG_PATTERN@, 1)),
            }
        }),
{
    let p = fresh_parser(ProjectSource::Rust);
    let rest = first.push(end1) + second.push(end2);
    let m0 = captured(SESSION_HEADER_PATTERN@, open, 1);
    let a0 = captured(SESSION_HEADER_PATTERN@, open, 2);
    lemma_session_start(p, open);
    assert(seq![open] =~= Seq::<Seq<char>>::empty().push(open));
    lemma_feed_all_step(p, Seq::empty(), open);
    let p1 = feed_spec(p, open).0;
    lemma_session_parts(p1, m0, a0, first, end1, second, end2);
    lemma_feed_all_append(p, seq![open], rest);
    lemma_header_first(open, first + second, 1);
    lemma_header_first(open, first + second, 2);
    let r1 = feed_all(p, seq![open]).1;
    let r2 = feed_all(p1, rest).1;
    assert forall|i: int| 0 <= i < first.len() + second.len() + 2 implies #[trigger] (r1 + r2)[i] is Raw by {
        if i < 1 {
            assert((r1 + r2)[i] == r1[i]);
        } else {
            assert((r1 + r2)[i] == r2[i - 1]);
        }
    }
}

// ─── Log lines ─────────────────────────────────────────────────────────────

/// Between blocks, a log line is reported at once, in either of its two
/// layouts, and leaves the parser as it was: `[LEVEL] module: message`
/// gives groups 1 to 3, `| LEVEL | module | message` groups 4 to 6, as
/// level, module and message in that order.
pub proof fn lemma_log_line_report(p: ParserModel, line: Seq<char>)
    requires
        p.state is Scanning,
        matched(LOG_LINE_PATTERN@, line),
    ensures
        feed_spec(p, line).0 == p,
        feed_spec(p, line).1 == if group_present(regex_captures(LOG_LINE_PATTERN@, trim(line)), 1) {
            SemanticModel::LogLine {
                level: captured(LOG_LINE_PATTERN@, line, 1),
                module: captured(LOG_LINE_PATTERN@, line, 2),
                message: captured(LOG_LINE_PATTERN@, line, 3),
            }
        } else {
            SemanticModel::LogLine {
                level: captured(LOG_LINE_PATTERN@, line, 4),
                module: captured(LOG_LINE_PATTERN@, line, 5),
                message: captured(LOG_LINE_PATTERN@, line, 6),
            }
        },
{
    lemma_expected_at(p.state, line, P_LOG_LINE);
}

// ─── Skipped trades ────────────────────────────────────────────────────────

/// A skipped trade is reported as soon as its balance is known: inside an
/// analytics block, a `SKIP` action line, lines that are neither separators
/// nor state a balance, then a line that states a balance (and is not a
/// separator) give raw reports up to that line, which reports the skip with
/// no entry price, shares or stake and that line's balance. The parser is
/// then between blocks again.
pub proof fn lemma_skip_action_report(p: ParserModel, opener: Seq<char>, body: Seq<Seq<char>>, last: Seq<char>)
    requires
        p.state is InAnalyticsBlock,
        matched(ACTION_PATTERN@, opener),
        !matched(SEPARATOR_PATTERN@, opener),
        !matched(PREDICTION_PATTERN@, opener),
        has_prefix(trim(captured(ACTION_PATTERN@, opener, 1)), "SKIP"@),
        forall|i: int| 0 <= i < body.len() ==> !matched(SEPARATOR_PATTERN@, #[trigger] body[i])
            && !matched(BALANCE_LINE_PATTERN@, body[i]),
        !matched(SEPARATOR_PATTERN@, last),
        matched(BALANCE_LINE_PATTERN@, last),
    ensures
        ({
            let (q, reports) = feed_all(p, seq![opener] + body.push(last));
            &&& q == (ParserModel { source: p.source, state: ParseStateModel::Scanning })
            &&& reports.len() == body.len() + 2
            &&& forall|i: int| 0 <= i < body.len() + 1 ==> (#[trigger] reports[i]) is Raw
            &&& reports.last() == SemanticModel::TradeAction {
                action: trim(captured(ACTION_PATTERN@, opener, 1)),
                entry_price: None,
                shares: None,
                stake_usd: None,
                balance: Some(captured(BALANCE_LINE_PATTERN@, last, 1)),
            }
        }),
{
    reveal_strlit("SKIP");
    lemma_skip_body(p, opener, body);
    assert(seq![opener] + body.push(last) =~= (seq![opener] + body).push(last));
    lemma_feed_all_step(p, seq![opener] + body, last);
    let st = ParseStateModel::InTradeAction(action_read(trim(captured(ACTION_PATTERN@, opener, 1)), body));
    lemma_expected_at(st, last, P_SEPARATOR);
    lemma_expected_at(st, last, P_ENTRY_PRICE);
    lemma_expected_at(st, last, P_SHARES);
    lemma_expected_at(st, last, P_STAKE);
    lemma_expected_at(st, last, P_BALANCE_LINE);
}

proof fn lemma_skip_body(p: ParserModel, opener: Seq<char>, body: Seq<Seq<char>>)
    requires
        p.state is InAnalyticsBlock,
        matched(ACTION_PATTERN@, opener),
        !matched(SEPARATOR_PATTERN@, opener),
        !matched(PREDICTION_PATTERN@, opener),
        has_prefix(trim(captured(ACTION_PATTERN@, opener, 1)), "SKIP"@),
        forall|i: int| 0 <= i < body.len() ==> !matched(SEPARATOR_PATTERN@, #[trigger] body[i])
            && !matched(BALANCE_LINE_PATTERN@, body[i]),
    ensures
        feed_all(p, seq![opener] + body).0 == (ParserModel {
            source: p.source,
            state: ParseStateModel::InTradeAction(
                action_read(trim(captured(ACTION_PATTERN@, opener, 1)), body),
            ),
        }),
        feed_all(p, seq![opener] + body).1.len() == body.len() + 1,
        forall|i: int| 0 <= i < body.len() + 1 ==> (#[trigger] feed_all(p, seq![opener] + body).1[i]) is Raw,
        last_found(body, BALANCE_LINE_PATTERN@) is None,
    decreases body.len(),
{
    let act = trim(captured(ACTION_PATTERN@, opener, 1));
    reveal_strlit("SKIP");
    if body.len() == 0 {
        assert(seq![opener] + body =~= Seq::<Seq<char>>::empty().push(opener));
        lemma_feed_all_step(p, Seq::empty(), opener);
        lemma_expected_at(p.state, opener, P_SEPARATOR);
        lemma_expected_at(p.state, opener, P_PREDICTION);
        lemma_expected_at(p.state, opener, P_ACTION);
        assert(action_read(act, body) == TradeActionModel { action: act, ..empty_trade_action() });
    } else {
        let b0 = body.drop_last();
        let l = body.last();
        assert(forall|i: int| 0 <= i < b0.len() ==> b0[i] == body[i]);
        lemma_skip_body(p, opener, b0);
        assert(seq![opener] + body =~= (seq![opener] + b0).push(l));
        lemma_feed_all_step(p, seq![opener] + b0, l);
        assert(!matched(SEPARATOR_PATTERN@, body[body.len() - 1]));
        assert(!matched(BALANCE_LINE_PATTERN@, body[body.len() - 1]));
        let st = ParseStateModel::InTradeAction(action_read(act, b0));
        lemma_expected_at(st, l, P_SEPARATOR);
        lemma_expected_at(st, l, P_ACTION);
        lemma_expected_at(st, l, P_ENTRY_PRICE);
        lemma_expected_at(st, l, P_SHARES);
        lemma_expected_at(st, l, P_STAKE);
        lemma_expected_at(st, l, P_BALANCE_LINE);
        assert(body.drop_last() =~= b0);
    }
}

} // verus!
