//! Reading the bots' trade logs: which files are logs, the session label in
//! a file name, the columns of a row, the outcome of a row and the counts
//! kept over all rows.
use vstd::prelude::*;

use crate::config::ProjectSource;
use crate::text::{
    chars_of, equals_str, ends_with, has_prefix, has_suffix, is_ascii_digit, parse_i64, parse_i64_spec,
    slice_chars, starts_with, string_of, trim, trim_chars,
};
use crate::types::opt_text;
use crate::registry::pane::latest;
use crate::server::tail_events;

verus! {

// ─── Files ─────────────────────────────────────────────────────────────────

/// Whether file `name` is a trade log of `source`'s bot.
pub open spec fn is_trade_file(source: ProjectSource, name: Seq<char>) -> bool {
    has_suffix(name, ".csv"@) && match source {
        ProjectSource::Python => has_prefix(name, "live_"@),
        ProjectSource::Rust => has_prefix(name, "live_"@) || has_prefix(name, "paper_"@)
            || has_prefix(name, "dry_run_"@) || has_prefix(name, "backtest_"@),
    }
}

/// Whether file `name` is a trade log of `source`'s bot.
pub fn include_trade_file(source: ProjectSource, name: &str) -> (res: bool)
    ensures
        res == is_trade_file(source, name@),
{
    let n = chars_of(name);
    if !ends_with(&n, ".csv") {
        return false;
    }
    match source {
        ProjectSource::Python => starts_with(&n, "live_"),
        ProjectSource::Rust => starts_with(&n, "live_") || starts_with(&n, "paper_") || starts_with(
            &n,
            "dry_run_",
        ) || starts_with(&n, "backtest_"),
    }
}

/// The position of the last `c` in `s`, or -1.
pub open spec fn last_pos(s: Seq<char>, c: char) -> int
    decreases s.len(),
{
    if s.len() == 0 {
        -1
    } else if s.last() == c {
        s.len() - 1
    } else {
        last_pos(s.drop_last(), c)
    }
}

/// The position of the first `c` in `s`, or -1.
pub open spec fn first_pos(s: Seq<char>, c: char) -> int
    decreases s.len(),
{
    if s.len() == 0 {
        -1
    } else if s[0] == c {
        0
    } else {
        let r = first_pos(s.drop_first(), c);
        if r < 0 {
            -1
        } else {
            r + 1
        }
    }
}

proof fn lemma_last_pos(s: Seq<char>, c: char)
    ensures
        -1 <= last_pos(s, c) < s.len(),
        last_pos(s, c) >= 0 ==> s[last_pos(s, c)] == c,
        forall|k: int| last_pos(s, c) < k < s.len() ==> s[k] != c,
    decreases s.len(),
{
    if s.len() > 0 && s.last() != c {
        lemma_last_pos(s.drop_last(), c);
        assert forall|k: int| last_pos(s, c) < k < s.len() implies s[k] != c by {
            if k < s.len() - 1 {
                assert(s[k] == s.drop_last()[k]);
            }
        }
    }
}

/// The position of the last `c` in `v`, if any.
fn find_last(v: &Vec<char>, c: char) -> (res: Option<usize>)
    ensures
        match res {
            Some(i) => i < v@.len() && i as int == last_pos(v@, c),
            None => last_pos(v@, c) == -1,
        },
{
    proof {
        lemma_last_pos(v@, c);
    }
    let mut j: usize = v.len();
    while j > 0
        invariant
            j <= v.len(),
            forall|k: int| j <= k < v@.len() ==> v@[k] != c,
            -1 <= last_pos(v@, c) < v@.len(),
            last_pos(v@, c) >= 0 ==> v@[last_pos(v@, c)] == c,
            forall|k: int| last_pos(v@, c) < k < v@.len() ==> v@[k] != c,
        decreases j,
    {
        if v[j - 1] == c {
            return Some(j - 1);
        }
        j -= 1;
    }
    None
}

/// The position of the first `c` in `v` from `from` on, if any.
fn find_first_from(v: &Vec<char>, c: char, from: usize) -> (res: Option<usize>)
    requires
        from <= v.len(),
    ensures
        match res {
            Some(i) => from <= i < v@.len() && v@[i as int] == c && forall|k: int|
                from <= k < i ==> v@[k] != c,
            None => forall|k: int| from <= k < v@.len() ==> v@[k] != c,
        },
{
    let mut j: usize = from;
    while j < v.len()
        invariant
            from <= j <= v.len(),
            forall|k: int| from <= k < j ==> v@[k] != c,
        decreases v.len() - j,
    {
        if v[j] == c {
            return Some(j);
        }
        j += 1;
    }
    None
}

/// The session label in a log file's stem: its last two `_`-separated
/// parts, joined by `_` (`live_algo_20260218_133426` gives
/// `20260218_133426`); none without a `_`.
pub open spec fn session_label_spec(stem: Seq<char>) -> Option<Seq<char>> {
    let k = last_pos(stem, '_');
    if k < 0 {
        None
    } else {
        let head = stem.take(k);
        let prev = head.skip(last_pos(head, '_') + 1);
        Some(prev + "_"@ + stem.skip(k + 1))
    }
}

/// The session label is the stem's last two `_`-separated parts: a stem
/// `head_date_time`, where neither `date` nor `time` holds a `_`, gives
/// `date_time` whatever `head` is; a stem without `_` gives none.
pub proof fn lemma_session_label_parts(head: Seq<char>, date: Seq<char>, time: Seq<char>)
    requires
        forall|k: int| 0 <= k < date.len() ==> date[k] != '_',
        forall|k: int| 0 <= k < time.len() ==> time[k] != '_',
    ensures
        session_label_spec(head + seq!['_'] + date + seq!['_'] + time) == Some(date + seq!['_'] + time),
        session_label_spec(time) is None,
{
    reveal_strlit("_");
    let stem = head + seq!['_'] + date + seq!['_'] + time;
    let k = stem.len() - time.len() - 1;
    lemma_last_pos(stem, '_');
    lemma_last_pos(time, '_');
    assert(stem[k] == '_');
    assert forall|j: int| k < j < stem.len() implies stem[j] != '_' by {
        assert(stem[j] == time[j - k - 1]);
    }
    assert(last_pos(stem, '_') == k);
    let hd = stem.take(k);
    assert(hd =~= head + seq!['_'] + date);
    lemma_last_pos(hd, '_');
    let h = head.len() as int;
    assert(hd[h] == '_');
    assert forall|j: int| h < j < hd.len() implies hd[j] != '_' by {
        assert(hd[j] == date[j - h - 1]);
    }
    assert(last_pos(hd, '_') == h);
    assert(hd.skip(h + 1) =~= date);
    assert(stem.skip(k + 1) =~= time);
    assert("_"@ =~= seq!['_']);
    if last_pos(time, '_') >= 0 {
        assert(time[last_pos(time, '_')] == '_');
    }
}

/// The session label in a log file's stem (`session_label_spec`).
pub fn session_label_from_stem(stem: &str) -> (res: Option<String>)
    ensures
        opt_text(res) == session_label_spec(stem@),
{
    let s = chars_of(stem);
    match find_last(&s, '_') {
        None => None,
        Some(k) => {
            let head = slice_chars(&s, 0, k);
            assert(head@ =~= s@.take(k as int));
            let start = match find_last(&head, '_') {
                Some(j) => j + 1,
                None => 0,
            };
            let prev = slice_chars(&head, start, head.len());
            assert(prev@ =~= head@.skip(last_pos(head@, '_') + 1));
            let mut out = prev;
            out.push('_');
            let tail = slice_chars(&s, k + 1, s.len());
            assert(tail@ =~= s@.skip(k + 1));
            let mut i: usize = 0;
            let ghost base = out@;
            while i < tail.len()
                invariant
                    i <= tail.len(),
                    out@ == base + tail@.take(i as int),
                decreases tail.len() - i,
            {
                out.push(tail[i]);
                i += 1;
                assert(out@ =~= base + tail@.take(i as int));
            }
            proof {
                reveal_strlit("_");
                assert(tail@.take(tail@.len() as int) =~= tail@);
                assert(base =~= prev@ + "_"@);
            }
            Some(string_of(&out))
        },
    }
}

// ─── Rows ──────────────────────────────────────────────────────────────────

/// Whether a row's exit reason marks a skipped window.
pub fn is_skip_reason(reason: &str) -> (res: bool)
    ensures
        res == (reason@ == "skip"@),
{
    equals_str(&chars_of(reason), "skip")
}

/// The exit reasons of rows that were refused before trading.
pub open spec fn is_invalid_reason_spec(reason: Seq<char>) -> bool {
    reason == "invalid_price"@ || reason == "too_small"@ || reason == "buy_failed"@ || reason
        == "liquidity_blocked"@
}

/// Whether a row's exit reason marks a refused trade.
pub fn is_invalid_reason(reason: &str) -> (res: bool)
    ensures
        res == is_invalid_reason_spec(reason@),
{
    let r = chars_of(reason);
    equals_str(&r, "invalid_price") || equals_str(&r, "too_small") || equals_str(&r, "buy_failed")
        || equals_str(&r, "liquidity_blocked")
}

/// Whether a row is an executed trade: it names a side, its share count and
/// stake are positive (as the caller read those numbers), and it is not
/// still open.
pub fn is_executed_trade(side: &str, shares_positive: bool, stake_positive: bool, reason: &str) -> (res:
    bool)
    ensures
        res == (trim(side@).len() != 0 && shares_positive && stake_positive && reason@ != "open"@),
{
    let side_chars = trim_chars(&chars_of(side));
    side_chars.len() != 0 && shares_positive && stake_positive && !equals_str(
        &chars_of(reason),
        "open",
    )
}

/// The pieces of `s` split at `sep`, at most `n`: the last piece holds the
/// rest of `s` (`str::splitn`).
pub open spec fn splitn_spec(s: Seq<char>, n: nat, sep: char) -> Seq<Seq<char>>
    decreases n,
{
    if n == 0 {
        Seq::empty()
    } else if n == 1 {
        seq![s]
    } else {
        let i = first_pos(s, sep);
        if i < 0 {
            seq![s]
        } else {
            seq![s.take(i)] + splitn_spec(s.skip(i + 1), (n - 1) as nat, sep)
        }
    }
}

proof fn lemma_first_pos_skip(s: Seq<char>, from: int, c: char, i: int)
    requires
        0 <= from <= i < s.len(),
        s[i] == c,
        forall|k: int| from <= k < i ==> s[k] != c,
    ensures
        first_pos(s.skip(from), c) == i - from,
    decreases i - from,
{
    if from < i {
        assert(s.skip(from).drop_first() =~= s.skip(from + 1));
        lemma_first_pos_skip(s, from + 1, c, i);
    }
}

proof fn lemma_first_pos_none(s: Seq<char>, from: int, c: char)
    requires
        0 <= from <= s.len(),
        forall|k: int| from <= k < s.len() ==> s[k] != c,
    ensures
        first_pos(s.skip(from), c) == -1,
    decreases s.len() - from,
{
    if from < s.len() {
        assert(s.skip(from).drop_first() =~= s.skip(from + 1));
        lemma_first_pos_none(s, from + 1, c);
    }
}

/// `s` split at `sep` into at most `n` pieces (`str::splitn`).
pub fn split_n(s: &Vec<char>, n: usize, sep: char) -> (res: Vec<Vec<char>>)
    ensures
        crate::text::chars_model(res@) == splitn_spec(s@, n as nat, sep),
{
    let mut out: Vec<Vec<char>> = Vec::new();
    if n == 0 {
        assert(crate::text::chars_model(out@) =~= Seq::<Seq<char>>::empty());
        return out;
    }
    let mut start: usize = 0;
    let mut left: usize = n;
    assert(s@.skip(0) =~= s@);
    assert(crate::text::chars_model(out@) + splitn_spec(s@, n as nat, sep) =~= splitn_spec(
        s@,
        n as nat,
        sep,
    ));
    loop
        invariant
            1 <= left <= n,
            start <= s.len(),
            splitn_spec(s@, n as nat, sep) == crate::text::chars_model(out@) + splitn_spec(
                s@.skip(start as int),
                left as nat,
                sep,
            ),
        decreases left,
    {
        let ghost rest = s@.skip(start as int);
        if left == 1 {
            let piece = slice_chars(s, start, s.len());
            let ghost before = crate::text::chars_model(out@);
            out.push(piece);
            assert(piece@ =~= rest);
            assert(crate::text::chars_model(out@) =~= before + splitn_spec(rest, 1, sep));
            return out;
        }
        match find_first_from(s, sep, start) {
            None => {
                proof {
                    lemma_first_pos_none(s@, start as int, sep);
                }
                let piece = slice_chars(s, start, s.len());
                let ghost before = crate::text::chars_model(out@);
                out.push(piece);
                assert(piece@ =~= rest);
                assert(crate::text::chars_model(out@) =~= before + splitn_spec(rest, left as nat, sep));
                return out;
            },
            Some(i) => {
                proof {
                    lemma_first_pos_skip(s@, start as int, sep, i as int);
                }
                let piece = slice_chars(s, start, i);
                let ghost before = crate::text::chars_model(out@);
                assert(piece@ =~= rest.take(i - start));
                assert(rest.skip(i - start + 1) =~= s@.skip(i + 1));
                out.push(piece);
                assert(crate::text::chars_model(out@) + splitn_spec(s@.skip(i + 1), (left - 1) as nat, sep)
                    =~= before + splitn_spec(rest, left as nat, sep));
                start = i + 1;
                left = left - 1;
            },
        }
    }
}

/// The date part of a row's timestamp: its first ten characters.
pub fn date_of(timestamp: &str) -> (res: String)
    ensures
        res@ == timestamp@.take(if timestamp@.len() < 10 { timestamp@.len() as int } else { 10 }),
{
    let t = chars_of(timestamp);
    let end = if t.len() < 10 {
        t.len()
    } else {
        10
    };
    let d = slice_chars(&t, 0, end);
    assert(d@ =~= t@.take(end as int));
    string_of(&d)
}

// ─── Window bounds ─────────────────────────────────────────────────────────

/// What `chrono::DateTime::from_timestamp(secs, 0)` formatted with
/// `%Y-%m-%d %H:%M:%S` gives, the UTC date and time of a UNIX time;
/// `None` where chrono refuses the time.
pub uninterp spec fn utc_timestamp_text(secs: i64) -> Option<Seq<char>>;

/// The latest UNIX time for which the library relies on chrono's formatting,
/// in the year 5138: far inside chrono's range, and with a four-digit year.
pub const LATEST_FORMATTED_TIME: i64 = 100_000_000_000;

/// Whether `s` reads `YYYY-MM-DD HH:MM:SS`, with a digit at each letter.
pub open spec fn is_date_time_text(s: Seq<char>) -> bool {
    &&& s.len() == 19
    &&& forall|i: int|
        0 <= i < 19 ==> if i == 4 || i == 7 {
            s[i] == '-'
        } else if i == 10 {
            s[i] == ' '
        } else if i == 13 || i == 16 {
            s[i] == ':'
        } else {
            is_ascii_digit(#[trigger] s[i])
        }
}

/// Formats a UNIX time as a UTC date and time with chrono
/// (`DateTime::from_timestamp`, then `format("%Y-%m-%d %H:%M:%S")`). The
/// contract claims that the result is `utc_timestamp_text(secs)`, and, for
/// times from 1970 to `LATEST_FORMATTED_TIME`, that chrono gives a text
/// (`from_timestamp` fails only outside its range of about 262,000 years)
/// in the documented `%Y-%m-%d %H:%M:%S` shape with a four-digit year.
#[verifier::external_body]
fn format_utc_timestamp(secs: i64) -> (res: Option<String>)
    ensures
        opt_text(res) == utc_timestamp_text(secs),
        0 <= secs <= LATEST_FORMATTED_TIME ==> res is Some && is_date_time_text(res.unwrap()@),
{
    chrono::DateTime::from_timestamp(secs, 0).map(|d| d.format("%Y-%m-%d %H:%M:%S").to_string())
}

/// The UNIX time at the end of a market slug (its last `-`-separated part),
/// if it reads as one.
pub open spec fn slug_timestamp(slug: Seq<char>) -> Option<i64> {
    parse_i64_spec(slug.skip(last_pos(slug, '-') + 1))
}

/// The window a market slug names: the fifteen minutes from the UNIX time at
/// its end, if that time lies between 1,500,000,000 and 4,000,000,000.
pub open spec fn slug_window(slug: Seq<char>) -> Option<(Seq<char>, Seq<char>)> {
    match slug_timestamp(slug) {
        Some(ts) => if 1_500_000_000 <= ts <= 4_000_000_000 {
            match (utc_timestamp_text(ts), utc_timestamp_text((ts + 900) as i64)) {
                (Some(start), Some(end)) => Some((start, end)),
                _ => None,
            }
        } else {
            None
        },
        None => None,
    }
}

/// The window a market slug names (`slug_window`): there is one exactly when
/// the slug ends in a UNIX time between 1,500,000,000 and 4,000,000,000, and
/// its bounds read `YYYY-MM-DD HH:MM:SS`.
pub fn infer_window_bounds_from_slug(slug: &str) -> (res: Option<(String, String)>)
    ensures
        match res {
            Some((start, end)) => slug_window(slug@) == Some((start@, end@)),
            None => slug_window(slug@) is None,
        },
        res is Some <==> (slug_timestamp(slug@) matches Some(ts) && 1_500_000_000 <= ts
            <= 4_000_000_000),
        res matches Some((start, end)) ==> is_date_time_text(start@) && is_date_time_text(end@),
{
    let s = chars_of(slug);
    let from = match find_last(&s, '-') {
        Some(i) => i + 1,
        None => 0,
    };
    let tail = slice_chars(&s, from, s.len());
    assert(tail@ =~= s@.skip(last_pos(s@, '-') + 1));
    let ts = match parse_i64(&tail) {
        Some(t) => t,
        None => return None,
    };
    if !(1_500_000_000 <= ts && ts <= 4_000_000_000) {
        return None;
    }
    let start = match format_utc_timestamp(ts) {
        Some(t) => t,
        None => return None,
    };
    let end = match format_utc_timestamp(ts + 900) {
        Some(t) => t,
        None => return None,
    };
    Some((start, end))
}

// ─── Counts ────────────────────────────────────────────────────────────────

/// What a row of a trade log records.
#[derive(Debug, Clone, Copy, PartialEq, Eq, Structural)]
pub enum RowOutcome {
    /// The bot skipped the window.
    Skip,
    /// The trade was refused before it was placed.
    Invalid,
    /// A bet was placed.
    Bet,
    /// Anything else, such as a still open trade.
    Other,
}

/// How a row is classified: exit reason `skip` is a skip, and
/// `invalid_price`, `too_small`, `buy_failed` and `liquidity_blocked` are
/// refusals, whether or not the trade looks executed; any other row is a
/// bet exactly when it is an executed trade.
pub proof fn lemma_outcome_rules(reason: Seq<char>, executed: bool)
    ensures
        outcome_spec("skip"@, executed) == RowOutcome::Skip,
        outcome_spec("invalid_price"@, executed) == RowOutcome::Invalid,
        outcome_spec("too_small"@, executed) == RowOutcome::Invalid,
        outcome_spec("buy_failed"@, executed) == RowOutcome::Invalid,
        outcome_spec("liquidity_blocked"@, executed) == RowOutcome::Invalid,
        reason != "skip"@ && reason != "invalid_price"@ && reason != "too_small"@ && reason
            != "buy_failed"@ && reason != "liquidity_blocked"@ ==> outcome_spec(reason, executed)
            == if executed {
            RowOutcome::Bet
        } else {
            RowOutcome::Other
        },
{
    reveal_strlit("skip");
    reveal_strlit("invalid_price");
    reveal_strlit("too_small");
    reveal_strlit("buy_failed");
    reveal_strlit("liquidity_blocked");
    assert("skip"@.len() == 4);
    assert("invalid_price"@.len() == 13);
    assert("too_small"@.len() == 9);
    assert("buy_failed"@.len() == 10);
    assert("liquidity_blocked"@.len() == 17);
}

/// The outcome of a row, from its exit reason and whether it is an
/// executed trade.
pub open spec fn outcome_spec(reason: Seq<char>, executed: bool) -> RowOutcome {
    if reason == "skip"@ {
        RowOutcome::Skip
    } else if is_invalid_reason_spec(reason) {
        RowOutcome::Invalid
    } else if executed {
        RowOutcome::Bet
    } else {
        RowOutcome::Other
    }
}

/// The outcome of a row, from its exit reason and whether it is an
/// executed trade.
pub fn classify_row(reason: &str, executed: bool) -> (res: RowOutcome)
    ensures
        res == outcome_spec(reason@, executed),
{
    if is_skip_reason(reason) {
        RowOutcome::Skip
    } else if is_invalid_reason(reason) {
        RowOutcome::Invalid
    } else if executed {
        RowOutcome::Bet
    } else {
        RowOutcome::Other
    }
}

/// Counts over the rows of the trade logs.
#[derive(Debug, Clone, Copy, PartialEq, Eq, Structural)]
pub struct TradeCounts {
    pub total_windows: u64,
    pub bets_placed: u64,
    pub wins: u64,
    pub losses: u64,
    pub skips: u64,
    pub invalid: u64,
}

impl TradeCounts {
    /// Every bet is won or lost, and skips, refusals and bets are rows.
    pub open spec fn wf(self) -> bool {
        &&& self.bets_placed == self.wins + self.losses
        &&& self.skips + self.invalid + self.bets_placed <= self.total_windows
    }

    /// The counts after one more row: a bet with a positive profit is a win,
    /// any other bet a loss.
    pub open spec fn after(self, outcome: RowOutcome, pnl_positive: bool) -> TradeCounts {
        let t = TradeCounts { total_windows: (self.total_windows + 1) as u64, ..self };
        match outcome {
            RowOutcome::Skip => TradeCounts { skips: (t.skips + 1) as u64, ..t },
            RowOutcome::Invalid => TradeCounts { invalid: (t.invalid + 1) as u64, ..t },
            RowOutcome::Bet => if pnl_positive {
                TradeCounts {
                    bets_placed: (t.bets_placed + 1) as u64,
                    wins: (t.wins + 1) as u64,
                    ..t
                }
            } else {
                TradeCounts {
                    bets_placed: (t.bets_placed + 1) as u64,
                    losses: (t.losses + 1) as u64,
                    ..t
                }
            },
            RowOutcome::Other => t,
        }
    }

    /// No row counted.
    pub fn new() -> (res: TradeCounts)
        ensures
            res.total_windows == 0 && res.bets_placed == 0 && res.wins == 0 && res.losses == 0
                && res.skips == 0 && res.invalid == 0,
            res.wf(),
    {
        TradeCounts { total_windows: 0, bets_placed: 0, wins: 0, losses: 0, skips: 0, invalid: 0 }
    }

    /// Counts one more row.
    pub fn record(&mut self, outcome: RowOutcome, pnl_positive: bool)
        requires
            old(self).total_windows < u64::MAX,
            outcome == RowOutcome::Skip ==> old(self).skips < u64::MAX,
            outcome == RowOutcome::Invalid ==> old(self).invalid < u64::MAX,
            outcome == RowOutcome::Bet ==> old(self).bets_placed < u64::MAX,
            outcome == RowOutcome::Bet && pnl_positive ==> old(self).wins < u64::MAX,
            outcome == RowOutcome::Bet && !pnl_positive ==> old(self).losses < u64::MAX,
        ensures
            *final(self) == old(self).after(outcome, pnl_positive),
            old(self).wf() ==> final(self).wf(),
    {
        self.total_windows = self.total_windows + 1;
        match outcome {
            RowOutcome::Skip => {
                self.skips = self.skips + 1;
            },
            RowOutcome::Invalid => {
                self.invalid = self.invalid + 1;
            },
            RowOutcome::Bet => {
                self.bets_placed = self.bets_placed + 1;
                if pnl_positive {
                    self.wins = self.wins + 1;
                } else {
                    self.losses = self.losses + 1;
                }
            },
            RowOutcome::Other => {},
        }
    }
}


/// The counts after the rows of `rows` (outcome and whether the profit was
/// positive), in order, from none.
pub open spec fn counts_of(rows: Seq<(RowOutcome, bool)>) -> TradeCounts
    decreases rows.len(),
{
    if rows.len() == 0 {
        no_counts()
    } else {
        counts_of(rows.drop_last()).after(rows.last().0, rows.last().1)
    }
}

/// Counting rows from none keeps the counts balanced and counts every row:
/// every bet is won or lost, skips, refusals and bets never outnumber the
/// rows, and the row count is the number of rows read (as long as it fits in
/// a `u64`).
pub proof fn lemma_counts_balanced(rows: Seq<(RowOutcome, bool)>)
    requires
        rows.len() <= u64::MAX,
    ensures
        counts_of(rows).wf(),
        counts_of(rows).total_windows == rows.len(),
    decreases rows.len(),
{
    if rows.len() > 0 {
        lemma_counts_balanced(rows.drop_last());
    }
}

/// How many of `rows` have outcome `o` (and, for bets, a positive profit
/// exactly when `won`).
pub open spec fn rows_like(rows: Seq<(RowOutcome, bool)>, o: RowOutcome, won: bool) -> nat
    decreases rows.len(),
{
    if rows.len() == 0 {
        0
    } else {
        let r = rows.last();
        rows_like(rows.drop_last(), o, won) + if r.0 == o && (o != RowOutcome::Bet || r.1 == won) {
            1nat
        } else {
            0nat
        }
    }
}

/// Each count counts its own rows: the wins are the bets with a positive
/// profit, the losses the other bets, the skips and refusals the rows with
/// those outcomes, and the bets all bets (as long as the rows fit in a
/// `u64`).
pub proof fn lemma_counts_count_their_rows(rows: Seq<(RowOutcome, bool)>)
    requires
        rows.len() <= u64::MAX,
    ensures
        counts_of(rows).wins == rows_like(rows, RowOutcome::Bet, true),
        counts_of(rows).losses == rows_like(rows, RowOutcome::Bet, false),
        counts_of(rows).bets_placed == rows_like(rows, RowOutcome::Bet, true) + rows_like(
            rows,
            RowOutcome::Bet,
            false,
        ),
        counts_of(rows).skips == rows_like(rows, RowOutcome::Skip, true),
        counts_of(rows).invalid == rows_like(rows, RowOutcome::Invalid, true),
    decreases rows.len(),
{
    if rows.len() > 0 {
        lemma_counts_count_their_rows(rows.drop_last());
        lemma_counts_balanced(rows.drop_last());
        lemma_rows_like_bound(rows.drop_last());
    }
}

proof fn lemma_rows_like_bound(rows: Seq<(RowOutcome, bool)>)
    ensures
        rows_like(rows, RowOutcome::Bet, true) + rows_like(rows, RowOutcome::Bet, false)
            + rows_like(rows, RowOutcome::Skip, true) + rows_like(rows, RowOutcome::Invalid, true)
            <= rows.len(),
    decreases rows.len(),
{
    if rows.len() > 0 {
        lemma_rows_like_bound(rows.drop_last());
    }
}

// ─── Per-day tallies ───────────────────────────────────────────────────────

/// The most recent trade records a summary shows.
pub const MAX_TRADES_SHOWN: usize = 500;

/// The most recent `MAX_TRADES_SHOWN` of `records` (all of them when there
/// are fewer), oldest first.
pub fn latest_trades<T>(records: Vec<T>) -> (res: Vec<T>)
    ensures
        res@ == latest(records@, MAX_TRADES_SHOWN as nat),
{
    tail_events(records, Some(MAX_TRADES_SHOWN))
}

/// Whether `a` comes before `b` in the order of `String`'s `<`: character by
/// character (UTF-8 bytes order as the characters do), a proper prefix first.
pub open spec fn text_lt(a: Seq<char>, b: Seq<char>) -> bool
    decreases a.len(),
{
    if a.len() == 0 {
        b.len() > 0
    } else if b.len() == 0 {
        false
    } else if a[0] != b[0] {
        (a[0] as int) < (b[0] as int)
    } else {
        text_lt(a.drop_first(), b.drop_first())
    }
}

/// Of two different texts, exactly one comes first.
pub proof fn lemma_text_lt_total(a: Seq<char>, b: Seq<char>)
    ensures
        a != b ==> (text_lt(a, b) || text_lt(b, a)),
        !(text_lt(a, b) && text_lt(b, a)),
        !text_lt(a, a),
    decreases a.len(),
{
    if a.len() == 0 && b.len() == 0 {
        assert(a =~= b);
    }
    if a.len() > 0 {
        lemma_text_lt_total(a.drop_first(), a.drop_first());
    }
    if a.len() > 0 && b.len() > 0 && a[0] == b[0] {
        lemma_text_lt_total(a.drop_first(), b.drop_first());
        if a.drop_first() == b.drop_first() {
            assert forall|k: int| 0 <= k < a.len() implies a[k] == b[k] by {
                if k > 0 {
                    assert(a[k] == a.drop_first()[k - 1]);
                    assert(b[k] == b.drop_first()[k - 1]);
                }
            }
            assert(a =~= b);
        }
    }
}

/// The order of texts is transitive.
pub proof fn lemma_text_lt_trans(a: Seq<char>, b: Seq<char>, c: Seq<char>)
    requires
        text_lt(a, b),
        text_lt(b, c),
    ensures
        text_lt(a, c),
    decreases a.len(),
{
    if a.len() > 0 && b.len() > 0 && c.len() > 0 && a[0] == b[0] && b[0] == c[0] {
        lemma_text_lt_trans(a.drop_first(), b.drop_first(), c.drop_first());
    }
}

proof fn lemma_text_lt_skip(a: Seq<char>, b: Seq<char>, i: int)
    requires
        0 <= i <= a.len(),
        i <= b.len(),
        forall|k: int| 0 <= k < i ==> a[k] == b[k],
    ensures
        text_lt(a, b) == text_lt(a.skip(i), b.skip(i)),
    decreases i,
{
    if i > 0 {
        assert(a[0] == b[0]);
        assert forall|k: int| 0 <= k < i - 1 implies a.drop_first()[k] == b.drop_first()[k] by {
            assert(a[k + 1] == b[k + 1]);
        }
        lemma_text_lt_skip(a.drop_first(), b.drop_first(), i - 1);
        assert(a.drop_first().skip(i - 1) =~= a.skip(i));
        assert(b.drop_first().skip(i - 1) =~= b.skip(i));
    } else {
        assert(a.skip(0) =~= a);
        assert(b.skip(0) =~= b);
    }
}

/// The order of texts is `String`'s: after a common beginning, the first
/// differing character decides by its code, and a text that ends there
/// comes before any longer one.
pub proof fn lemma_text_lt_is_string_order(a: Seq<char>, b: Seq<char>, i: int)
    requires
        0 <= i <= a.len(),
        i <= b.len(),
        forall|k: int| 0 <= k < i ==> a[k] == b[k],
    ensures
        i < a.len() && i < b.len() && a[i] != b[i] ==> (text_lt(a, b) <==> (a[i] as int) < (b[i] as int)),
        i == a.len() ==> (text_lt(a, b) <==> i < b.len()),
        i == b.len() && i < a.len() ==> !text_lt(a, b),
{
    lemma_text_lt_skip(a, b, i);
    if i < a.len() {
        assert(a.skip(i)[0] == a[i]);
    }
    if i < b.len() {
        assert(b.skip(i)[0] == b[i]);
    }
}

/// Whether text `a` comes before text `b` (`text_lt`).
pub fn text_less(a: &str, b: &str) -> (res: bool)
    ensures
        res == text_lt(a@, b@),
{
    let x = chars_of(a);
    let y = chars_of(b);
    let mut i: usize = 0;
    while i < x.len() && i < y.len() && x[i] == y[i]
        invariant
            i <= x@.len(),
            i <= y@.len(),
            forall|k: int| 0 <= k < i ==> x@[k] == y@[k],
        decreases x@.len() - i,
    {
        i += 1;
    }
    proof {
        lemma_text_lt_skip(x@, y@, i as int);
    }
    if i < x.len() && i < y.len() {
        assert(x@.skip(i as int)[0] == x@[i as int]);
        assert(y@.skip(i as int)[0] == y@[i as int]);
        x[i] < y[i]
    } else {
        i == x.len() && i < y.len()
    }
}

/// No row counted (`TradeCounts::new`).
pub open spec fn no_counts() -> TradeCounts {
    TradeCounts { total_windows: 0, bets_placed: 0, wins: 0, losses: 0, skips: 0, invalid: 0 }
}

/// The bets of each day, keyed by the date that opens their rows, in the
/// order of the dates.
pub struct DailyBook {
    days: Vec<(String, TradeCounts)>,
}

pub open spec fn day_pair(p: (String, TradeCounts)) -> (Seq<char>, TradeCounts) {
    (p.0@, p.1)
}

impl View for DailyBook {
    type V = Seq<(Seq<char>, TradeCounts)>;

    closed spec fn view(&self) -> Seq<(Seq<char>, TradeCounts)> {
        self.days@.map_values(|p: (String, TradeCounts)| day_pair(p))
    }
}

/// Days in increasing order of their dates, so each date once, each with
/// balanced counts.
pub open spec fn days_wf(d: Seq<(Seq<char>, TradeCounts)>) -> bool {
    &&& forall|i: int, j: int| 0 <= i < j < d.len() ==> text_lt(#[trigger] d[i].0, #[trigger] d[j].0)
    &&& forall|i: int| 0 <= i < d.len() ==> (#[trigger] d[i]).1.wf()
}

/// The position of `date` among the days: after every day whose date comes
/// before it.
pub open spec fn day_slot(d: Seq<(Seq<char>, TradeCounts)>, date: Seq<char>) -> int
    decreases d.len(),
{
    if d.len() == 0 {
        0
    } else if text_lt(d[0].0, date) {
        1 + day_slot(d.drop_first(), date)
    } else {
        0
    }
}

/// Whether `date` has a day.
pub open spec fn day_found(d: Seq<(Seq<char>, TradeCounts)>, date: Seq<char>) -> bool {
    day_slot(d, date) < d.len() && d[day_slot(d, date)].0 == date
}

/// The days after one more bet on `date`, won or lost: that day's counts
/// take it, or a new day holding only it takes its place.
pub open spec fn days_after_bet(d: Seq<(Seq<char>, TradeCounts)>, date: Seq<char>, won: bool) -> Seq<
    (Seq<char>, TradeCounts),
> {
    let p = day_slot(d, date);
    if day_found(d, date) {
        d.update(p, (date, d[p].1.after(RowOutcome::Bet, won)))
    } else {
        d.insert(p, (date, no_counts().after(RowOutcome::Bet, won)))
    }
}

proof fn lemma_day_slot(d: Seq<(Seq<char>, TradeCounts)>, date: Seq<char>)
    ensures
        0 <= day_slot(d, date) <= d.len(),
        forall|k: int| 0 <= k < day_slot(d, date) ==> text_lt(#[trigger] d[k].0, date),
        day_slot(d, date) < d.len() ==> !text_lt(d[day_slot(d, date)].0, date),
    decreases d.len(),
{
    if d.len() > 0 && text_lt(d[0].0, date) {
        lemma_day_slot(d.drop_first(), date);
        assert forall|k: int| 0 <= k < day_slot(d, date) implies text_lt(#[trigger] d[k].0, date) by {
            if k > 0 {
                assert(d[k] == d.drop_first()[k - 1]);
            }
        }
    }
}

proof fn lemma_day_slot_is(d: Seq<(Seq<char>, TradeCounts)>, date: Seq<char>, i: int)
    requires
        0 <= i <= d.len(),
        forall|k: int| 0 <= k < i ==> text_lt(#[trigger] d[k].0, date),
        i < d.len() ==> !text_lt(d[i].0, date),
    ensures
        day_slot(d, date) == i,
    decreases i,
{
    if i > 0 {
        assert(text_lt(d[0].0, date));
        assert forall|k: int| 0 <= k < i - 1 implies text_lt(#[trigger] d.drop_first()[k].0, date) by {
            assert(d.drop_first()[k] == d[k + 1]);
        }
        lemma_day_slot_is(d.drop_first(), date, i - 1);
    }
}

/// One more bet keeps the days ordered and balanced.
pub proof fn lemma_bet_keeps_days(d: Seq<(Seq<char>, TradeCounts)>, date: Seq<char>, won: bool)
    requires
        days_wf(d),
        day_found(d, date) ==> d[day_slot(d, date)].1.total_windows < u64::MAX,
    ensures
        days_wf(days_after_bet(d, date, won)),
        day_found(days_after_bet(d, date, won), date),
{
    lemma_day_slot(d, date);
    let p = day_slot(d, date);
    let r = days_after_bet(d, date, won);
    if day_found(d, date) {
        assert forall|i: int, j: int| 0 <= i < j < r.len() implies text_lt(#[trigger] r[i].0, #[trigger] r[j].0) by {
            assert(text_lt(d[i].0, d[j].0));
        }
        lemma_day_slot(r, date);
        assert forall|k: int| 0 <= k < p implies text_lt(#[trigger] r[k].0, date) by {
            assert(r[k] == d[k]);
        }
        lemma_day_slot_is(r, date, p);
    } else {
        if p < d.len() {
            lemma_text_lt_total(d[p].0, date);
        }
        assert forall|j: int| p <= j < d.len() implies text_lt(date, #[trigger] d[j].0) by {
            if j > p {
                assert(text_lt(d[p].0, d[j].0));
                lemma_text_lt_trans(date, d[p].0, d[j].0);
            }
        }
        assert forall|i: int, j: int| 0 <= i < j < r.len() implies text_lt(#[trigger] r[i].0, #[trigger] r[j].0) by {
            if j < p {
                assert(r[i] == d[i] && r[j] == d[j]);
                assert(text_lt(d[i].0, d[j].0));
            } else if j == p {
                assert(r[i] == d[i]);
                assert(text_lt(d[i].0, date));
            } else if i < p {
                assert(r[i] == d[i] && r[j] == d[j - 1]);
                assert(text_lt(d[i].0, d[j - 1].0));
            } else if i == p {
                assert(r[j] == d[j - 1]);
                assert(text_lt(date, d[j - 1].0));
            } else {
                assert(r[i] == d[i - 1] && r[j] == d[j - 1]);
                assert(text_lt(d[i - 1].0, d[j - 1].0));
            }
        }
        assert forall|i: int| 0 <= i < r.len() implies (#[trigger] r[i]).1.wf() by {
            if i < p {
                assert(r[i] == d[i]);
            } else if i > p {
                assert(r[i] == d[i - 1]);
            }
        }
        assert forall|k: int| 0 <= k < p implies text_lt(#[trigger] r[k].0, date) by {
            assert(r[k] == d[k]);
        }
        lemma_text_lt_total(date, date);
        lemma_day_slot_is(r, date, p);
    }
}

/// A bet counts on its own day only: after it, its date has a day whose
/// bets went up by one, and whose wins (for a won bet) or losses (for a
/// lost one) went up by one, the other staying; every other day is kept
/// with its counts, and no day but that date's is added.
pub proof fn lemma_bet_counts_on_its_day(d: Seq<(Seq<char>, TradeCounts)>, date: Seq<char>, won: bool)
    requires
        days_wf(d),
        day_found(d, date) ==> d[day_slot(d, date)].1.total_windows < u64::MAX,
    ensures
        ({
            let r = days_after_bet(d, date, won);
            let before = if day_found(d, date) {
                d[day_slot(d, date)].1
            } else {
                no_counts()
            };
            let after = r[day_slot(r, date)].1;
            &&& day_found(r, date)
            &&& after.bets_placed == before.bets_placed + 1
            &&& after.wins == before.wins + if won { 1int } else { 0int }
            &&& after.losses == before.losses + if won { 0int } else { 1int }
            &&& r.len() == d.len() + if day_found(d, date) { 0int } else { 1int }
            &&& forall|i: int| 0 <= i < d.len() && d[i].0 != date ==> r.contains(#[trigger] d[i])
            &&& forall|j: int| 0 <= j < r.len() && r[j].0 != date ==> d.contains(#[trigger] r[j])
        }),
{
    lemma_day_slot(d, date);
    lemma_bet_keeps_days(d, date, won);
    let p = day_slot(d, date);
    let r = days_after_bet(d, date, won);
    lemma_day_slot(r, date);
    assert(day_slot(r, date) == p) by {
        // The day sits where `date` belongs, before and after the bet.
        assert forall|k: int| 0 <= k < p implies text_lt(#[trigger] r[k].0, date) by {
            assert(r[k] == d[k]);
        }
        lemma_text_lt_total(date, date);
        lemma_day_slot_is(r, date, p);
    }
    if day_found(d, date) {
        assert(d[p].1.wf());
        assert forall|i: int| 0 <= i < d.len() && d[i].0 != date implies r.contains(#[trigger] d[i]) by {
            assert(r[i] == d[i]);
        }
        assert forall|j: int| 0 <= j < r.len() && r[j].0 != date implies d.contains(#[trigger] r[j]) by {
            assert(r[j] == d[j]);
        }
    } else {
        assert forall|i: int| 0 <= i < d.len() && d[i].0 != date implies r.contains(#[trigger] d[i]) by {
            if i < p {
                assert(r[i] == d[i]);
            } else {
                assert(r[i + 1] == d[i]);
            }
        }
        assert forall|j: int| 0 <= j < r.len() && r[j].0 != date implies d.contains(#[trigger] r[j]) by {
            if j < p {
                assert(r[j] == d[j]);
            } else {
                assert(j != p);
                assert(r[j] == d[j - 1]);
            }
        }
    }
}

impl DailyBook {
    /// No day yet.
    pub fn new() -> (res: DailyBook)
        ensures
            res@.len() == 0,
    {
        let res = DailyBook { days: Vec::new() };
        assert(res@ =~= Seq::<(Seq<char>, TradeCounts)>::empty());
        res
    }

    fn slot(&self, date: &str) -> (res: usize)
        ensures
            res == day_slot(self@, date@),
    {
        let mut i: usize = 0;
        while i < self.days.len() && text_less(self.days[i].0.as_str(), date)
            invariant
                i <= self.days@.len(),
                self@.len() == self.days@.len(),
                forall|k: int| 0 <= k < i ==> text_lt(#[trigger] self@[k].0, date@),
            decreases self.days@.len() - i,
        {
            assert(self@[i as int] == day_pair(self.days@[i as int]));
            i += 1;
        }
        proof {
            if i < self.days@.len() {
                assert(self@[i as int] == day_pair(self.days@[i as int]));
            }
            lemma_day_slot_is(self@, date@, i as int);
        }
        i
    }

    /// The counts of the day `date`, if it has bets.
    pub fn day_counts(&self, date: &str) -> (res: Option<TradeCounts>)
        ensures
            res == if day_found(self@, date@) {
                Some(self@[day_slot(self@, date@)].1)
            } else {
                None
            },
    {
        proof {
            lemma_day_slot(self@, date@);
        }
        let p = self.slot(date);
        if p < self.days.len() && equals_str(&chars_of(self.days[p].0.as_str()), date) {
            assert(self@[p as int] == day_pair(self.days@[p as int]));
            Some(self.days[p].1)
        } else {
            proof {
                if p < self.days@.len() {
                    assert(self@[p as int] == day_pair(self.days@[p as int]));
                }
            }
            None
        }
    }

    /// Counts one more bet on `date`, won or lost. Gives the day's position
    /// and whether the day is new.
    pub fn record_bet(&mut self, date: String, won: bool) -> (res: (usize, bool))
        requires
            days_wf(old(self)@),
            day_found(old(self)@, date@) ==> old(self)@[day_slot(old(self)@, date@)].1.total_windows
                < u64::MAX,
        ensures
            final(self)@ == days_after_bet(old(self)@, date@, won),
            days_wf(final(self)@),
            res.0 == day_slot(old(self)@, date@),
            res.1 == !day_found(old(self)@, date@),
    {
        proof {
            lemma_day_slot(self@, date@);
            lemma_bet_keeps_days(self@, date@, won);
        }
        let p = self.slot(date.as_str());
        if p < self.days.len() && equals_str(&chars_of(self.days[p].0.as_str()), date.as_str()) {
            let (key, mut counts) = self.days.remove(p);
            proof {
                assert(old(self)@[p as int] == day_pair(old(self).days@[p as int]));
            }
            counts.record(RowOutcome::Bet, won);
            self.days.insert(p, (key, counts));
            proof {
                assert(self@ =~= days_after_bet(old(self)@, date@, won));
            }
            (p, false)
        } else {
            proof {
                if p < old(self).days@.len() {
                    assert(old(self)@[p as int] == day_pair(old(self).days@[p as int]));
                }
            }
            let mut counts = TradeCounts::new();
            counts.record(RowOutcome::Bet, won);
            let ghost d = date@;
            self.days.insert(p, (date, counts));
            proof {
                assert(self@ =~= days_after_bet(old(self)@, d, won));
            }
            (p, true)
        }
    }

    /// The days and their counts, in the order of their dates.
    pub fn into_days(self) -> (res: Vec<(String, TradeCounts)>)
        ensures
            res@.map_values(|p: (String, TradeCounts)| day_pair(p)) == self@,
    {
        self.days
    }
}

// ─── Row columns ───────────────────────────────────────────────────────────

/// The columns of a trade-log row that the statistics read, as text.
#[derive(Debug)]
pub struct TradeRow {
    pub timestamp: String,
    pub market_slug: String,
    pub window_start: String,
    pub window_end: String,
    pub algo: String,
    pub prediction: String,
    pub btc_open: String,
    pub btc_diff: String,
    pub btc_gap_pct: String,
    pub up_midpoint: String,
    pub down_midpoint: String,
    pub side: String,
    pub shares: String,
    pub stake_usd: String,
    pub pnl: String,
    pub exit_reason: String,
    pub balance_before: String,
    pub balance_after: String,
}

pub struct TradeRowModel {
    pub timestamp: Seq<char>,
    pub market_slug: Seq<char>,
    pub window_start: Seq<char>,
    pub window_end: Seq<char>,
    pub algo: Seq<char>,
    pub prediction: Seq<char>,
    pub btc_open: Seq<char>,
    pub btc_diff: Seq<char>,
    pub btc_gap_pct: Seq<char>,
    pub up_midpoint: Seq<char>,
    pub down_midpoint: Seq<char>,
    pub side: Seq<char>,
    pub shares: Seq<char>,
    pub stake_usd: Seq<char>,
    pub pnl: Seq<char>,
    pub exit_reason: Seq<char>,
    pub balance_before: Seq<char>,
    pub balance_after: Seq<char>,
}

impl View for TradeRow {
    type V = TradeRowModel;

    open spec fn view(&self) -> TradeRowModel {
        TradeRowModel {
            timestamp: self.timestamp@,
            market_slug: self.market_slug@,
            window_start: self.window_start@,
            window_end: self.window_end@,
            algo: self.algo@,
            prediction: self.prediction@,
            btc_open: self.btc_open@,
            btc_diff: self.btc_diff@,
            btc_gap_pct: self.btc_gap_pct@,
            up_midpoint: self.up_midpoint@,
            down_midpoint: self.down_midpoint@,
            side: self.side@,
            shares: self.shares@,
            stake_usd: self.stake_usd@,
            pnl: self.pnl@,
            exit_reason: self.exit_reason@,
            balance_before: self.balance_before@,
            balance_after: self.balance_after@,
        }
    }
}

/// A row's window bounds: as logged, or, where one is missing, the window
/// its market slug names (if it names one).
pub open spec fn row_window(slug: Seq<char>, start: Seq<char>, end: Seq<char>) -> (Seq<char>, Seq<char>) {
    if start.len() == 0 || end.len() == 0 {
        match slug_window(slug) {
            Some(w) => w,
            None => (start, end),
        }
    } else {
        (start, end)
    }
}

/// The columns of a row: it is split at commas into at most 28 pieces, and
/// is no row with fewer than 27.
pub open spec fn row_spec(line: Seq<char>) -> Option<TradeRowModel> {
    let cols = splitn_spec(line, 28, ',');
    if cols.len() < 27 {
        None
    } else {
        let w = row_window(cols[1], cols[2], cols[3]);
        Some(TradeRowModel {
            timestamp: cols[0],
            market_slug: cols[1],
            window_start: w.0,
            window_end: w.1,
            algo: cols[4],
            prediction: cols[5],
            btc_open: cols[6],
            btc_diff: cols[10],
            btc_gap_pct: cols[12],
            up_midpoint: cols[15],
            down_midpoint: cols[16],
            side: cols[19],
            shares: cols[20],
            stake_usd: cols[21],
            pnl: cols[22],
            exit_reason: cols[23],
            balance_before: cols[24],
            balance_after: cols[25],
        })
    }
}

/// The columns of a trade-log row (`row_spec`).
pub fn parse_trade_row(line: &str) -> (res: Option<TradeRow>)
    ensures
        match res {
            Some(r) => row_spec(line@) == Some(r@),
            None => row_spec(line@) is None,
        },
{
    let chars = chars_of(line);
    let cols = split_n(&chars, 28, ',');
    if cols.len() < 27 {
        return None;
    }
    proof {
        assert forall|k: int| 0 <= k < cols@.len() implies #[trigger] crate::text::chars_model(cols@)[k] == cols@[k]@ by {}
    }
    let slug = string_of(&cols[1]);
    let mut window_start = string_of(&cols[2]);
    let mut window_end = string_of(&cols[3]);
    if cols[2].len() == 0 || cols[3].len() == 0 {
        match infer_window_bounds_from_slug(slug.as_str()) {
            Some((a, b)) => {
                window_start = a;
                window_end = b;
            },
            None => {},
        }
    }
    Some(TradeRow {
        timestamp: string_of(&cols[0]),
        market_slug: slug,
        window_start,
        window_end,
        algo: string_of(&cols[4]),
        prediction: string_of(&cols[5]),
        btc_open: string_of(&cols[6]),
        btc_diff: string_of(&cols[10]),
        btc_gap_pct: string_of(&cols[12]),
        up_midpoint: string_of(&cols[15]),
        down_midpoint: string_of(&cols[16]),
        side: string_of(&cols[19]),
        shares: string_of(&cols[20]),
        stake_usd: string_of(&cols[21]),
        pnl: string_of(&cols[22]),
        exit_reason: string_of(&cols[23]),
        balance_before: string_of(&cols[24]),
        balance_after: string_of(&cols[25]),
    })
}


// ─── Row law ───────────────────────────────────────────────────────────────

/// The columns `cols` joined into one line with commas between them.
pub open spec fn join_columns(cols: Seq<Seq<char>>) -> Seq<char>
    decreases cols.len(),
{
    if cols.len() == 0 {
        Seq::empty()
    } else if cols.len() == 1 {
        cols[0]
    } else {
        cols[0] + seq![','] + join_columns(cols.drop_first())
    }
}

/// Whether `t` holds no comma.
pub open spec fn comma_free(t: Seq<char>) -> bool {
    forall|k: int| 0 <= k < t.len() ==> t[k] != ','
}

proof fn lemma_split_joined(cols: Seq<Seq<char>>, n: nat)
    requires
        1 <= cols.len() <= n,
        forall|i: int| 0 <= i < cols.len() - 1 ==> comma_free(#[trigger] cols[i]),
        cols.len() < n ==> comma_free(cols.last()),
    ensures
        splitn_spec(join_columns(cols), n, ',') == cols,
    decreases cols.len(),
{
    let s = join_columns(cols);
    if cols.len() == 1 {
        if n > 1 {
            assert(comma_free(cols[0]));
            lemma_first_pos_none(s, 0, ',');
            assert(s.skip(0) =~= s);
        }
        assert(seq![s] =~= cols);
    } else {
        let c0 = cols[0];
        let rest = cols.drop_first();
        let tail = join_columns(rest);
        assert(comma_free(cols[0]));
        assert(s == c0 + seq![','] + tail);
        assert(s[c0.len() as int] == ',');
        lemma_first_pos_skip(s, 0, ',', c0.len() as int);
        assert(s.skip(0) =~= s);
        assert(s.take(c0.len() as int) =~= c0);
        assert(s.skip(c0.len() as int + 1) =~= tail);
        assert forall|i: int| 0 <= i < rest.len() - 1 implies comma_free(#[trigger] rest[i]) by {
            assert(rest[i] == cols[i + 1]);
        }
        lemma_split_joined(rest, (n - 1) as nat);
        assert(seq![c0] + rest =~= cols);
    }
}

/// A row is read column by column: joining 27 or 28 columns with commas
/// (only the last of 28 may hold commas) gives a row whose every field is
/// the column of its documented position: timestamp 0, market slug 1,
/// algorithm 4, prediction 5, BTC open 6, BTC diff 10, gap 12, up and down
/// midpoints 15 and 16, side 19, shares 20, stake 21, P&L 22, exit reason
/// 23, balances before and after 24 and 25. The window bounds are columns 2
/// and 3 when both are given, else the window the slug names, if it names
/// one. Fewer columns, none holding a comma, give no row.
pub proof fn lemma_row_columns(cols: Seq<Seq<char>>)
    requires
        1 <= cols.len() <= 28,
        forall|i: int| 0 <= i < cols.len() && i < 27 ==> comma_free(#[trigger] cols[i]),
    ensures
        cols.len() < 27 ==> row_spec(join_columns(cols)) is None,
        cols.len() >= 27 ==> row_spec(join_columns(cols)) is Some,
        cols.len() >= 27 ==> ({
            let r = row_spec(join_columns(cols)).unwrap();
            &&& r.timestamp == cols[0]
            &&& r.market_slug == cols[1]
            &&& r.algo == cols[4]
            &&& r.prediction == cols[5]
            &&& r.btc_open == cols[6]
            &&& r.btc_diff == cols[10]
            &&& r.btc_gap_pct == cols[12]
            &&& r.up_midpoint == cols[15]
            &&& r.down_midpoint == cols[16]
            &&& r.side == cols[19]
            &&& r.shares == cols[20]
            &&& r.stake_usd == cols[21]
            &&& r.pnl == cols[22]
            &&& r.exit_reason == cols[23]
            &&& r.balance_before == cols[24]
            &&& r.balance_after == cols[25]
            &&& (cols[2].len() > 0 && cols[3].len() > 0) ==> (r.window_start == cols[2]
                && r.window_end == cols[3])
            &&& (cols[2].len() == 0 || cols[3].len() == 0) ==> (match slug_window(cols[1]) {
                Some(w) => r.window_start == w.0 && r.window_end == w.1,
                None => r.window_start == cols[2] && r.window_end == cols[3],
            })
        }),
{
    assert forall|i: int| 0 <= i < cols.len() - 1 implies comma_free(#[trigger] cols[i]) by {
        assert(i < 27);
    }
    if cols.len() < 28 {
        assert(comma_free(cols[cols.len() - 1]));
    }
    lemma_split_joined(cols, 28);
}

} // verus!
