//! One monitored pane: its identity, attachment state, line count and a
//! bounded buffer of its most recent lines.
use std::collections::VecDeque;
use vstd::prelude::*;

use crate::types::{PaneEvent, PaneEventModel, opt_text};

verus! {

#[verifier::external_type_specification]
#[verifier::external_body]
#[verifier::reject_recursive_types(T)]
pub struct ExOneshotSender<T>(tokio::sync::oneshot::Sender<T>);

/// A receipt for a stop signal sent to a pane's reader task. Its field is
/// private, so outside this module only `signal_shutdown` gives one.
#[derive(Debug)]
pub struct StopSignal {
    sent: (),
}

/// Sends the stop signal to a pane's reader task with
/// `tokio::sync::oneshot::Sender::send`, and hands back the receipt. Whether
/// the reader still listens (the `Result` of `send`) is not reported; nothing
/// is claimed of it.
#[verifier::external_body]
pub(crate) fn signal_shutdown(tx: tokio::sync::oneshot::Sender<()>) -> (res: StopSignal) {
    let _ = tx.send(());
    StopSignal { sent: () }
}

/// Whether a pane's output is being piped to the monitor.
#[derive(Debug, PartialEq, Eq, Clone, Copy, Structural)]
pub enum PaneState {
    Attached,
    Detached,
}

/// A registered pane.
pub struct PaneEntry {
    pub stream_id: String,
    pub label: Option<String>,
    pub state: PaneState,
    pub line_count: u64,
    /// Bounded replay buffer
    pub replay: VecDeque<PaneEvent>,
    pub replay_cap: usize,
    /// Signal sender to stop the pipe reader task
    pub shutdown_tx: Option<tokio::sync::oneshot::Sender<()>>,
}

pub struct PaneEntryModel {
    pub stream_id: Seq<char>,
    pub label: Option<Seq<char>>,
    pub state: PaneState,
    pub line_count: u64,
    pub replay: Seq<PaneEventModel>,
    pub replay_cap: usize,
    pub has_shutdown: bool,
}

/// The models of the events in a replay buffer, oldest first.
pub open spec fn replay_model(r: Seq<PaneEvent>) -> Seq<PaneEventModel> {
    r.map_values(|e: PaneEvent| e@)
}

impl View for PaneEntry {
    type V = PaneEntryModel;

    open spec fn view(&self) -> PaneEntryModel {
        PaneEntryModel {
            stream_id: self.stream_id@,
            label: opt_text(self.label),
            state: self.state,
            line_count: self.line_count,
            replay: replay_model(self.replay@),
            replay_cap: self.replay_cap,
            has_shutdown: self.shutdown_tx is Some,
        }
    }
}

/// The most events a replay buffer with capacity `cap` holds: `cap`, but at
/// least one, since a line is stored even with capacity zero.
pub open spec fn replay_bound(cap: usize) -> nat {
    if cap == 0 {
        1
    } else {
        cap as nat
    }
}

/// The buffer after one more event: the oldest one is dropped first when
/// the buffer is full.
pub open spec fn replay_push(
    replay: Seq<PaneEventModel>,
    cap: usize,
    e: PaneEventModel,
) -> Seq<PaneEventModel> {
    let kept = if replay.len() >= cap && replay.len() > 0 {
        replay.drop_first()
    } else {
        replay
    };
    kept.push(e)
}

/// The last `n` elements of `s` (all of them when there are fewer).
pub open spec fn latest<T>(s: Seq<T>, n: nat) -> Seq<T> {
    if s.len() > n {
        s.skip(s.len() - n)
    } else {
        s
    }
}

/// `latest(s, n)` is the end of `s`: as many of its last elements as `n`
/// allows, in order.
pub proof fn lemma_latest_is_suffix<T>(s: Seq<T>, n: nat)
    ensures
        latest(s, n).len() == if s.len() < n { s.len() } else { n },
        forall|i: int|
            0 <= i < latest(s, n).len() ==> #[trigger] latest(s, n)[i] == s[s.len() - latest(s, n).len() + i],
{
}

/// Storing a line in a buffer within its bound keeps the newest lines, as
/// many as the bound allows, the new one last.
pub proof fn lemma_push_is_latest(replay: Seq<PaneEventModel>, cap: usize, e: PaneEventModel)
    requires
        replay.len() <= replay_bound(cap),
    ensures
        replay_push(replay, cap, e) == latest(replay.push(e), replay_bound(cap)),
        replay_push(replay, cap, e).len() <= replay_bound(cap),
{
    let s = replay.push(e);
    if replay.len() >= cap && replay.len() > 0 {
        assert(replay.drop_first().push(e) =~= s.skip(1));
    }
}

impl PaneEntryModel {
    /// A new, detached entry with no line.
    pub open spec fn fresh(stream_id: Seq<char>, label: Option<Seq<char>>, cap: usize) -> PaneEntryModel {
        PaneEntryModel {
            stream_id,
            label,
            state: PaneState::Detached,
            line_count: 0,
            replay: Seq::empty(),
            replay_cap: cap,
            has_shutdown: false,
        }
    }

    /// The replay buffer holds no more than its bound.
    pub open spec fn wf(self) -> bool {
        self.replay.len() <= replay_bound(self.replay_cap)
    }
}

impl PaneEntry {
    pub fn new(stream_id: String, label: Option<String>, replay_cap: usize) -> (res: PaneEntry)
        ensures
            res@ == PaneEntryModel::fresh(stream_id@, opt_text(label), replay_cap),
    {
        let replay: VecDeque<PaneEvent> = VecDeque::with_capacity(replay_cap);
        let res = PaneEntry {
            stream_id,
            label,
            state: PaneState::Detached,
            line_count: 0,
            replay,
            replay_cap,
            shutdown_tx: None,
        };
        assert(res@.replay =~= Seq::<PaneEventModel>::empty());
        res
    }

    /// Stores a line: the oldest stored line makes room when the buffer is
    /// full, and the line count goes up by one.
    pub fn push_line(&mut self, event: PaneEvent)
        requires
            old(self).line_count < u64::MAX,
        ensures
            final(self)@ == (PaneEntryModel {
                replay: replay_push(old(self)@.replay, old(self)@.replay_cap, event@),
                line_count: (old(self)@.line_count + 1) as u64,
                ..old(self)@
            }),
            old(self)@.wf() ==> final(self)@.wf(),
            old(self)@.wf() ==> final(self)@.replay == latest(
                old(self)@.replay.push(event@),
                replay_bound(old(self)@.replay_cap),
            ),
    {
        let ghost e = event@;
        if self.replay.len() >= self.replay_cap {
            self.replay.pop_front();
        }
        self.replay.push_back(event);
        self.line_count += 1;
        proof {
            if old(self)@.wf() {
                lemma_push_is_latest(replay_model(old(self).replay@), old(self).replay_cap, e);
            }
            let old_r = replay_model(old(self).replay@);
            let kept = if old_r.len() >= old(self).replay_cap && old_r.len() > 0 {
                old_r.drop_first()
            } else {
                old_r
            };
            assert(self@.replay =~= kept.push(e));
        }
    }

    /// Copies of the stored lines, oldest first.
    pub fn snapshot(&self) -> (res: Vec<PaneEvent>)
        ensures
            replay_model(res@) == self@.replay,
    {
        let mut out: Vec<PaneEvent> = Vec::new();
        let mut i: usize = 0;
        while i < self.replay.len()
            invariant
                i <= self.replay@.len(),
                out@.len() == i,
                forall|k: int| 0 <= k < i ==> (#[trigger] out@[k])@ == self.replay@[k]@,
            decreases self.replay@.len() - i,
        {
            out.push(self.replay[i].copy());
            i += 1;
        }
        assert(replay_model(out@) =~= self@.replay);
        out
    }
}


/// The buffer after storing `events` in order.
pub open spec fn replay_after(
    replay: Seq<PaneEventModel>,
    cap: usize,
    events: Seq<PaneEventModel>,
) -> Seq<PaneEventModel>
    decreases events.len(),
{
    if events.len() == 0 {
        replay
    } else {
        replay_push(replay_after(replay, cap, events.drop_last()), cap, events.last())
    }
}

/// A replay buffer keeps the most recent lines: after storing any lines in
/// an empty buffer, it holds the last `replay_cap` of them (the last one
/// when the capacity is zero), oldest first.
pub proof fn lemma_replay_keeps_latest(cap: usize, events: Seq<PaneEventModel>)
    ensures
        replay_after(Seq::empty(), cap, events) == events.skip(
            if events.len() > replay_bound(cap) {
                events.len() - replay_bound(cap)
            } else {
                0
            },
        ),
    decreases events.len(),
{
    let n = events.len() as int;
    let b = replay_bound(cap) as int;
    if n == 0 {
        assert(events.skip(0) =~= events);
    } else {
        let prev = events.drop_last();
        lemma_replay_keeps_latest(cap, prev);
        let p = replay_after(Seq::empty(), cap, prev);
        let e = events.last();
        if n - 1 > b {
            assert(p =~= prev.skip(n - 1 - b));
            assert(p.drop_first().push(e) =~= events.skip(n - b));
        } else {
            assert(p =~= prev.skip(0));
            if p.len() >= cap && p.len() > 0 {
                assert(p.drop_first().push(e) =~= events.skip(n - b));
            } else {
                assert(p.push(e) =~= events.skip(0));
            }
        }
    }
}

/// Storing lines never lets a buffer grow past its bound.
pub proof fn lemma_replay_bounded(replay: Seq<PaneEventModel>, cap: usize, events: Seq<PaneEventModel>)
    requires
        replay.len() <= replay_bound(cap),
    ensures
        replay_after(replay, cap, events).len() <= replay_bound(cap),
    decreases events.len(),
{
    if events.len() > 0 {
        lemma_replay_bounded(replay, cap, events.drop_last());
    }
}

} // verus!
