//! Values exchanged between the parsers, the registry and clients.
//!
//! Numbers that the monitored programs print with a fractional part are kept
//! as the decimal text that was printed (`"+12.34"`); an empty text stands
//! for zero. Counts are kept as integers.
use vstd::prelude::*;

verus! {

pub open spec fn opt_text(o: Option<String>) -> Option<Seq<char>> {
    match o {
        Some(s) => Some(s@),
        None => None,
    }
}

/// A copy of `o`.
pub fn copy_opt_string(o: &Option<String>) -> (res: Option<String>)
    ensures
        opt_text(res) == opt_text(*o),
{
    match o {
        Some(s) => Some(s.clone()),
        None => None,
    }
}

/// The SGR text attributes in force for a line of terminal output.
#[derive(Debug)]
pub struct AnsiStyle {
    pub fg: Option<String>,
    pub bg: Option<String>,
    pub bold: bool,
    pub italic: bool,
    pub underline: bool,
    pub dim: bool,
    pub blink: bool,
}

pub struct AnsiStyleModel {
    pub fg: Option<Seq<char>>,
    pub bg: Option<Seq<char>>,
    pub bold: bool,
    pub italic: bool,
    pub underline: bool,
    pub dim: bool,
    pub blink: bool,
}

impl AnsiStyleModel {
    /// No colour and no attribute.
    pub open spec fn plain() -> AnsiStyleModel {
        AnsiStyleModel {
            fg: None,
            bg: None,
            bold: false,
            italic: false,
            underline: false,
            dim: false,
            blink: false,
        }
    }
}

impl View for AnsiStyle {
    type V = AnsiStyleModel;

    open spec fn view(&self) -> AnsiStyleModel {
        AnsiStyleModel {
            fg: opt_text(self.fg),
            bg: opt_text(self.bg),
            bold: self.bold,
            italic: self.italic,
            underline: self.underline,
            dim: self.dim,
            blink: self.blink,
        }
    }
}

impl Default for AnsiStyle {
    fn default() -> (res: AnsiStyle)
        ensures
            res@ == AnsiStyleModel::plain(),
    {
        AnsiStyle {
            fg: None,
            bg: None,
            bold: false,
            italic: false,
            underline: false,
            dim: false,
            blink: false,
        }
    }
}

impl AnsiStyle {
    /// A copy of this style.
    pub fn copy(&self) -> (res: AnsiStyle)
        ensures
            res@ == self@,
    {
        AnsiStyle {
            fg: copy_opt_string(&self.fg),
            bg: copy_opt_string(&self.bg),
            bold: self.bold,
            italic: self.italic,
            underline: self.underline,
            dim: self.dim,
            blink: self.blink,
        }
    }
}

/// What a line of bot output means, once a whole block has been read.
#[derive(Debug)]
#[allow(inconsistent_fields)]
pub enum SemanticContent {
    Raw,
    LogLine { level: String, module: String, message: String },
    BtcAnalytics {
        market: String,
        window_start: String,
        window_end: String,
        btc_open: String,
        btc_close: String,
        btc_high: String,
        btc_low: String,
        btc_diff: String,
        gap_pct: String,
        up_midpoint: String,
        down_midpoint: String,
        prediction: String,
    },
    TradeAction {
        action: String,
        entry_price: Option<String>,
        shares: Option<String>,
        stake_usd: Option<String>,
        balance: Option<String>,
    },
    TradeExit { exit_price: String, pnl: String, balance: String, exit_reason: String },
    SessionSummary {
        duration_hours: String,
        total_trades: u32,
        wins: u32,
        losses: u32,
        win_rate: String,
        total_pnl: String,
        final_balance: String,
    },
    RustSessionSummary {
        mode: String,
        algo: String,
        duration_hours: String,
        windows_seen: u32,
        total_trades: u32,
        skipped: u32,
        wins: u32,
        losses: u32,
        win_rate: String,
        total_pnl: String,
        final_balance: Option<String>,
        csv_log: String,
    },
    RustMarketEnd {
        mode: String,
        market: String,
        prediction: String,
        exit_reason: String,
        window_pnl: String,
        session_pnl: String,
        wins: u32,
        losses: u32,
        skipped: u32,
    },
}

#[allow(inconsistent_fields)]
pub enum SemanticModel {
    Raw,
    LogLine { level: Seq<char>, module: Seq<char>, message: Seq<char> },
    BtcAnalytics {
        market: Seq<char>,
        window_start: Seq<char>,
        window_end: Seq<char>,
        btc_open: Seq<char>,
        btc_close: Seq<char>,
        btc_high: Seq<char>,
        btc_low: Seq<char>,
        btc_diff: Seq<char>,
        gap_pct: Seq<char>,
        up_midpoint: Seq<char>,
        down_midpoint: Seq<char>,
        prediction: Seq<char>,
    },
    TradeAction {
        action: Seq<char>,
        entry_price: Option<Seq<char>>,
        shares: Option<Seq<char>>,
        stake_usd: Option<Seq<char>>,
        balance: Option<Seq<char>>,
    },
    TradeExit { exit_price: Seq<char>, pnl: Seq<char>, balance: Seq<char>, exit_reason: Seq<char> },
    SessionSummary {
        duration_hours: Seq<char>,
        total_trades: u32,
        wins: u32,
        losses: u32,
        win_rate: Seq<char>,
        total_pnl: Seq<char>,
        final_balance: Seq<char>,
    },
    RustSessionSummary {
        mode: Seq<char>,
        algo: Seq<char>,
        duration_hours: Seq<char>,
        windows_seen: u32,
        total_trades: u32,
        skipped: u32,
        wins: u32,
        losses: u32,
        win_rate: Seq<char>,
        total_pnl: Seq<char>,
        final_balance: Option<Seq<char>>,
        csv_log: Seq<char>,
    },
    RustMarketEnd {
        mode: Seq<char>,
        market: Seq<char>,
        prediction: Seq<char>,
        exit_reason: Seq<char>,
        window_pnl: Seq<char>,
        session_pnl: Seq<char>,
        wins: u32,
        losses: u32,
        skipped: u32,
    },
}

impl View for SemanticContent {
    type V = SemanticModel;

    open spec fn view(&self) -> SemanticModel {
        match self {
            SemanticContent::Raw => SemanticModel::Raw,
            SemanticContent::LogLine { level, module, message } => SemanticModel::LogLine {
                level: level@,
                module: module@,
                message: message@,
            },
            SemanticContent::BtcAnalytics {
                market,
                window_start,
                window_end,
                btc_open,
                btc_close,
                btc_high,
                btc_low,
                btc_diff,
                gap_pct,
                up_midpoint,
                down_midpoint,
                prediction,
            } => SemanticModel::BtcAnalytics {
                market: market@,
                window_start: window_start@,
                window_end: window_end@,
                btc_open: btc_open@,
                btc_close: btc_close@,
                btc_high: btc_high@,
                btc_low: btc_low@,
                btc_diff: btc_diff@,
                gap_pct: gap_pct@,
                up_midpoint: up_midpoint@,
                down_midpoint: down_midpoint@,
                prediction: prediction@,
            },
            SemanticContent::TradeAction { action, entry_price, shares, stake_usd, balance } =>
            SemanticModel::TradeAction {
                action: action@,
                entry_price: opt_text(*entry_price),
                shares: opt_text(*shares),
                stake_usd: opt_text(*stake_usd),
                balance: opt_text(*balance),
            },
            SemanticContent::TradeExit { exit_price, pnl, balance, exit_reason } =>
            SemanticModel::TradeExit {
                exit_price: exit_price@,
                pnl: pnl@,
                balance: balance@,
                exit_reason: exit_reason@,
            },
            SemanticContent::SessionSummary {
                duration_hours,
                total_trades,
                wins,
                losses,
                win_rate,
                total_pnl,
                final_balance,
            } => SemanticModel::SessionSummary {
                duration_hours: duration_hours@,
                total_trades: *total_trades,
                wins: *wins,
                losses: *losses,
                win_rate: win_rate@,
                total_pnl: total_pnl@,
                final_balance: final_balance@,
            },
            SemanticContent::RustSessionSummary {
                mode,
                algo,
                duration_hours,
                windows_seen,
                total_trades,
                skipped,
                wins,
                losses,
                win_rate,
                total_pnl,
                final_balance,
                csv_log,
            } => SemanticModel::RustSessionSummary {
                mode: mode@,
                algo: algo@,
                duration_hours: duration_hours@,
                windows_seen: *windows_seen,
                total_trades: *total_trades,
                skipped: *skipped,
                wins: *wins,
                losses: *losses,
                win_rate: win_rate@,
                total_pnl: total_pnl@,
                final_balance: opt_text(*final_balance),
                csv_log: csv_log@,
            },
            SemanticContent::RustMarketEnd {
                mode,
                market,
                prediction,
                exit_reason,
                window_pnl,
                session_pnl,
                wins,
                losses,
                skipped,
            } => SemanticModel::RustMarketEnd {
                mode: mode@,
                market: market@,
                prediction: prediction@,
                exit_reason: exit_reason@,
                window_pnl: window_pnl@,
                session_pnl: session_pnl@,
                wins: *wins,
                losses: *losses,
                skipped: *skipped,
            },
        }
    }
}

impl Default for SemanticContent {
    fn default() -> (res: SemanticContent)
        ensures
            res@ == SemanticModel::Raw,
    {
        SemanticContent::Raw
    }
}


impl SemanticContent {
    /// A copy of this content.
    pub fn copy(&self) -> (res: SemanticContent)
        ensures
            res@ == self@,
    {
        match self {
            SemanticContent::Raw => SemanticContent::Raw,
            SemanticContent::LogLine { level, module, message } => SemanticContent::LogLine {
                level: level.clone(),
                module: module.clone(),
                message: message.clone(),
            },
            SemanticContent::BtcAnalytics {
                market,
                window_start,
                window_end,
                btc_open,
                btc_close,
                btc_high,
                btc_low,
                btc_diff,
                gap_pct,
                up_midpoint,
                down_midpoint,
                prediction,
            } => SemanticContent::BtcAnalytics {
                market: market.clone(),
                window_start: window_start.clone(),
                window_end: window_end.clone(),
                btc_open: btc_open.clone(),
                btc_close: btc_close.clone(),
                btc_high: btc_high.clone(),
                btc_low: btc_low.clone(),
                btc_diff: btc_diff.clone(),
                gap_pct: gap_pct.clone(),
                up_midpoint: up_midpoint.clone(),
                down_midpoint: down_midpoint.clone(),
                prediction: prediction.clone(),
            },
            SemanticContent::TradeAction { action, entry_price, shares, stake_usd, balance } =>
            SemanticContent::TradeAction {
                action: action.clone(),
                entry_price: copy_opt_string(entry_price),
                shares: copy_opt_string(shares),
                stake_usd: copy_opt_string(stake_usd),
                balance: copy_opt_string(balance),
            },
            SemanticContent::TradeExit { exit_price, pnl, balance, exit_reason } =>
            SemanticContent::TradeExit {
                exit_price: exit_price.clone(),
                pnl: pnl.clone(),
                balance: balance.clone(),
                exit_reason: exit_reason.clone(),
            },
            SemanticContent::SessionSummary {
                duration_hours,
                total_trades,
                wins,
                losses,
                win_rate,
                total_pnl,
                final_balance,
            } => SemanticContent::SessionSummary {
                duration_hours: duration_hours.clone(),
                total_trades: *total_trades,
                wins: *wins,
                losses: *losses,
                win_rate: win_rate.clone(),
                total_pnl: total_pnl.clone(),
                final_balance: final_balance.clone(),
            },
            SemanticContent::RustSessionSummary {
                mode,
                algo,
                duration_hours,
                windows_seen,
                total_trades,
                skipped,
                wins,
                losses,
                win_rate,
                total_pnl,
                final_balance,
                csv_log,
            } => SemanticContent::RustSessionSummary {
                mode: mode.clone(),
                algo: algo.clone(),
                duration_hours: duration_hours.clone(),
                windows_seen: *windows_seen,
                total_trades: *total_trades,
                skipped: *skipped,
                wins: *wins,
                losses: *losses,
                win_rate: win_rate.clone(),
                total_pnl: total_pnl.clone(),
                final_balance: copy_opt_string(final_balance),
                csv_log: csv_log.clone(),
            },
            SemanticContent::RustMarketEnd {
                mode,
                market,
                prediction,
                exit_reason,
                window_pnl,
                session_pnl,
                wins,
                losses,
                skipped,
            } => SemanticContent::RustMarketEnd {
                mode: mode.clone(),
                market: market.clone(),
                prediction: prediction.clone(),
                exit_reason: exit_reason.clone(),
                window_pnl: window_pnl.clone(),
                session_pnl: session_pnl.clone(),
                wins: *wins,
                losses: *losses,
                skipped: *skipped,
            },
        }
    }
}

/// One event of a pane's stream, as clients receive it.
#[derive(Debug)]
pub struct PaneEvent {
    pub stream_id: String,
    pub pane_id: String,
    pub timestamp: i64,
    pub event_type: EventType,
}

/// What happened.
#[derive(Debug)]
pub enum EventType {
    Line {
        raw: String,
        clean: String,
        style: AnsiStyle,
        semantic: SemanticContent,
        line_number: u64,
    },
    PaneRegistered { label: Option<String> },
    PaneUnregistered { reason: String },
    Snapshot { lines: Vec<PaneEvent>, total_lines: u64 },
    Ping,
    Error { message: String },
}

pub struct PaneEventModel {
    pub stream_id: Seq<char>,
    pub pane_id: Seq<char>,
    pub timestamp: i64,
    pub event_type: EventTypeModel,
}

pub enum EventTypeModel {
    Line {
        raw: Seq<char>,
        clean: Seq<char>,
        style: AnsiStyleModel,
        semantic: SemanticModel,
        line_number: u64,
    },
    PaneRegistered { label: Option<Seq<char>> },
    PaneUnregistered { reason: Seq<char> },
    Snapshot { lines: Seq<PaneEventModel>, total_lines: u64 },
    Ping,
    Error { message: Seq<char> },
}

/// What an event stands for.
pub open spec fn event_model(e: PaneEvent) -> PaneEventModel
    decreases e,
{
    PaneEventModel {
        stream_id: e.stream_id@,
        pane_id: e.pane_id@,
        timestamp: e.timestamp,
        event_type: match e.event_type {
            EventType::Line { raw, clean, style, semantic, line_number } => EventTypeModel::Line {
                raw: raw@,
                clean: clean@,
                style: style@,
                semantic: semantic@,
                line_number,
            },
            EventType::PaneRegistered { label } => EventTypeModel::PaneRegistered {
                label: opt_text(label),
            },
            EventType::PaneUnregistered { reason } => EventTypeModel::PaneUnregistered {
                reason: reason@,
            },
            EventType::Snapshot { lines, total_lines } => EventTypeModel::Snapshot {
                lines: Seq::new(
                    lines@.len(),
                    |i: int|
                        if 0 <= i < lines@.len() {
                            event_model(lines@[i])
                        } else {
                            PaneEventModel {
                                stream_id: Seq::empty(),
                                pane_id: Seq::empty(),
                                timestamp: 0,
                                event_type: EventTypeModel::Ping,
                            }
                        },
                ),
                total_lines,
            },
            EventType::Ping => EventTypeModel::Ping,
            EventType::Error { message } => EventTypeModel::Error { message: message@ },
        },
    }
}

impl View for PaneEvent {
    type V = PaneEventModel;

    open spec fn view(&self) -> PaneEventModel {
        event_model(*self)
    }
}

/// The models of a sequence of events.
pub open spec fn events_model(s: Seq<PaneEvent>) -> Seq<PaneEventModel> {
    s.map_values(|e: PaneEvent| e@)
}

impl PaneEvent {
    /// A copy of this event.
    pub fn copy(&self) -> (res: PaneEvent)
        ensures
            res@ == self@,
        decreases self,
    {
        let event_type = match &self.event_type {
            EventType::Line { raw, clean, style, semantic, line_number } => EventType::Line {
                raw: raw.clone(),
                clean: clean.clone(),
                style: style.copy(),
                semantic: semantic.copy(),
                line_number: *line_number,
            },
            EventType::PaneRegistered { label } => EventType::PaneRegistered {
                label: copy_opt_string(label),
            },
            EventType::PaneUnregistered { reason } => EventType::PaneUnregistered {
                reason: reason.clone(),
            },
            EventType::Snapshot { lines, total_lines } => {
                let mut out: Vec<PaneEvent> = Vec::new();
                let mut i: usize = 0;
                while i < lines.len()
                    invariant
                        i <= lines.len(),
                        out@.len() == i,
                        self.event_type == (EventType::Snapshot {
                            lines: *lines,
                            total_lines: *total_lines,
                        }),
                        forall|k: int| 0 <= k < i ==> (#[trigger] out@[k])@ == lines@[k]@,
                    decreases lines.len() - i,
                {
                    proof {
                        vstd::std_specs::vec::axiom_vec_index_decreases(*lines, i as int);
                        assert(decreases_to!(self.event_type => self.event_type->Snapshot_lines));
                        assert(decreases_to!(*self => lines@[i as int]));
                    }
                    out.push(lines[i].copy());
                    i += 1;
                }
                EventType::Snapshot { lines: out, total_lines: *total_lines }
            },
            EventType::Ping => EventType::Ping,
            EventType::Error { message } => EventType::Error { message: message.clone() },
        };
        let res = PaneEvent {
            stream_id: self.stream_id.clone(),
            pane_id: self.pane_id.clone(),
            timestamp: self.timestamp,
            event_type,
        };
        proof {
            let a = res@.event_type;
            let b = self@.event_type;
            if let EventTypeModel::Snapshot { lines: la, .. } = a {
                if let EventTypeModel::Snapshot { lines: lb, .. } = b {
                    assert(la =~= lb);
                }
            }
        }
        res
    }
}

/// A command a WebSocket client sends.
#[derive(Debug)]
pub enum ClientCommand {
    Subscribe { pane_id: String },
    Unsubscribe { pane_id: String },
    Replay { pane_id: String, lines: Option<usize> },
}

} // verus!
