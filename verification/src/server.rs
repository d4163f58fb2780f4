//! What the HTTP API and the WebSocket sessions decide: request shapes,
//! replay windows, which events a client receives, and the events the
//! server makes up itself.
use vstd::prelude::*;

use crate::registry::PaneRegistry;
use crate::registry::pane::{latest, replay_model};
use crate::text::{chars_of, decimal, push_decimal, string_of};
use crate::types::{EventType, EventTypeModel, PaneEvent, PaneEventModel, events_model};

verus! {

/// `POST /api/panes` body.
#[derive(Debug)]
pub struct RegisterRequest {
    pub pane_id: String,
    pub label: Option<String>,
}

/// `GET /api/panes/:id/replay` query.
#[derive(Debug)]
pub struct ReplayQuery {
    pub lines: Option<usize>,
}

/// `GET /ws` query: the pane whose events the client wants, if one.
#[derive(Debug)]
pub struct WsQuery {
    pub pane_id: Option<String>,
}

/// The last `n` events of `events` (all of them without `n`, or when there
/// are fewer).
pub open spec fn last_n<T>(events: Seq<T>, n: Option<usize>) -> Seq<T> {
    match n {
        Some(k) => latest(events, k as nat),
        None => events,
    }
}

/// Keeps the last `n` items of `lines` (all of them without `n`).
pub fn tail_events<T>(lines: Vec<T>, n: Option<usize>) -> (res: Vec<T>)
    ensures
        res@ == last_n(lines@, n),
{
    match n {
        Some(k) => {
            if k < lines.len() {
                let ghost all = lines@;
                let mut lines = lines;
                let skip = lines.len() - k;
                let rest = lines.split_off(skip);
                assert(rest@ =~= last_n(all, n));
                rest
            } else {
                lines
            }
        },
        None => lines,
    }
}

/// The replay of pane `pane_id`: its last `n` stored lines (all without
/// `n`) and its line count; none for an unknown pane.
pub fn replay(registry: &PaneRegistry, pane_id: &String, n: Option<usize>) -> (res: Option<(
    Vec<PaneEvent>,
    u64,
)>)
    requires
        registry@.wf(),
    ensures
        match res {
            Some((lines, total)) => registry@.has(pane_id@) && events_model(lines@) == last_n(
                registry@.lookup(pane_id@).unwrap().replay,
                n,
            ) && total == registry@.lookup(pane_id@).unwrap().line_count,
            None => !registry@.has(pane_id@),
        },
{
    match registry.snapshot(pane_id) {
        Some((lines, total)) => {
            let ghost all = lines@;
            let kept = tail_events(lines, n);
            proof {
                assert(replay_model(all) == events_model(all));
                assert(events_model(kept@) =~= last_n(events_model(all), n));
            }
            Some((kept, total))
        },
        None => None,
    }
}

/// Whether a client that asked for the events of `filter` (all panes
/// without one) receives an event of pane `event_pane`.
pub fn wants_event(filter: &Option<String>, event_pane: &String) -> (res: bool)
    ensures
        res == match filter {
            Some(f) => f@ == event_pane@,
            None => true,
        },
{
    match filter {
        Some(f) => *f == *event_pane,
        None => true,
    }
}

/// The message telling a slow client how many events it missed.
pub open spec fn lag_message_spec(n: u64) -> Seq<char> {
    "Slow consumer: "@ + decimal(n as nat) + " lines dropped"@
}

/// The message telling a slow client how many events it missed.
pub fn lag_message(n: u64) -> (res: String)
    ensures
        res@ == lag_message_spec(n),
{
    let mut v = chars_of("Slow consumer: ");
    push_decimal(&mut v, n);
    let tail = chars_of(" lines dropped");
    let ghost mid = v@;
    let mut i: usize = 0;
    while i < tail.len()
        invariant
            i <= tail.len(),
            v@ == mid + tail@.take(i as int),
        decreases tail.len() - i,
    {
        v.push(tail[i]);
        i += 1;
        assert(v@ =~= mid + tail@.take(i as int));
    }
    assert(tail@.take(tail@.len() as int) =~= tail@);
    string_of(&v)
}

/// The error event a slow client receives.
pub fn lag_event(filter: &Option<String>, n: u64, timestamp: i64) -> (res: PaneEvent)
    ensures
        res@ == (PaneEventModel {
            stream_id: "system"@,
            pane_id: match filter {
                Some(f) => f@,
                None => Seq::empty(),
            },
            timestamp,
            event_type: EventTypeModel::Error { message: lag_message_spec(n) },
        }),
{
    let pane_id = match filter {
        Some(f) => f.clone(),
        None => String::new(),
    };
    PaneEvent {
        stream_id: "system".to_owned(),
        pane_id,
        timestamp,
        event_type: EventType::Error { message: lag_message(n) },
    }
}

/// The keep-alive event a client receives periodically.
pub fn ping_event(timestamp: i64) -> (res: PaneEvent)
    ensures
        res@ == (PaneEventModel {
            stream_id: "system"@,
            pane_id: Seq::empty(),
            timestamp,
            event_type: EventTypeModel::Ping,
        }),
{
    PaneEvent {
        stream_id: "system".to_owned(),
        pane_id: String::new(),
        timestamp,
        event_type: EventType::Ping,
    }
}

/// The snapshot event of pane `pane_id`: its last `n` stored lines (all
/// without `n`) and its line count, under its stream id; none for an
/// unknown pane.
pub fn snapshot_event(registry: &PaneRegistry, pane_id: &String, n: Option<usize>, timestamp: i64) -> (res:
    Option<PaneEvent>)
    requires
        registry@.wf(),
    ensures
        match res {
            Some(e) => registry@.has(pane_id@) && e@ == (PaneEventModel {
                stream_id: registry@.lookup(pane_id@).unwrap().stream_id,
                pane_id: pane_id@,
                timestamp,
                event_type: EventTypeModel::Snapshot {
                    lines: last_n(registry@.lookup(pane_id@).unwrap().replay, n),
                    total_lines: registry@.lookup(pane_id@).unwrap().line_count,
                },
            }),
            None => !registry@.has(pane_id@),
        },
{
    match replay(registry, pane_id, n) {
        Some((lines, total)) => {
            let stream_id = match registry.stream_id(pane_id) {
                Some(s) => s,
                None => String::new(),
            };
            let e = PaneEvent {
                stream_id,
                pane_id: pane_id.clone(),
                timestamp,
                event_type: EventType::Snapshot { lines, total_lines: total },
            };
            proof {
                if let EventTypeModel::Snapshot { lines: l, .. } = e@.event_type {
                    assert(l =~= events_model(lines@));
                }
            }
            Some(e)
        },
        None => None,
    }
}

} // verus!
