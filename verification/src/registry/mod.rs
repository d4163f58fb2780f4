//! The registry of monitored panes, keyed by pane id.
pub mod pane;

use vstd::prelude::*;

use crate::types::{PaneEvent, copy_opt_string, opt_text};
use pane::{PaneEntry, PaneEntryModel, PaneState, StopSignal, replay_model, replay_push, signal_shutdown};

verus! {

/// Whether `c` is a digit or a letter from `a` to `f`.
pub open spec fn is_lower_hex(c: char) -> bool {
    ('0' <= c && c <= '9') || ('a' <= c && c <= 'f')
}

/// Whether `s` is the text of a random (version 4, RFC 4122 variant) UUID in
/// hyphenated lowercase form: 36 characters, hyphens at positions 8, 13, 18
/// and 23, hexadecimal digits elsewhere, the version digit `4` at position
/// 14 and one of `8`, `9`, `a`, `b` at position 19.
pub open spec fn is_uuid_v4_text(s: Seq<char>) -> bool {
    &&& s.len() == 36
    &&& forall|i: int|
        0 <= i < 36 ==> if i == 8 || i == 13 || i == 18 || i == 23 {
            s[i] == '-'
        } else {
            is_lower_hex(#[trigger] s[i])
        }
    &&& s[14] == '4'
    &&& (s[19] == '8' || s[19] == '9' || s[19] == 'a' || s[19] == 'b')
}

/// A fresh stream id from `uuid::Uuid::new_v4().to_string()`. The value is
/// random, so the contract claims only its shape: `new_v4` sets the version
/// bits to 4 and the variant bits to `10`, and `Uuid`'s `Display` writes the
/// hyphenated lowercase form.
#[verifier::external_body]
fn new_stream_id() -> (res: String)
    ensures
        is_uuid_v4_text(res@),
{
    uuid::Uuid::new_v4().to_string()
}

/// What clients see of a pane.
#[derive(Debug)]
pub struct PaneInfo {
    pub pane_id: String,
    pub stream_id: String,
    pub label: Option<String>,
    pub state: PaneState,
    pub line_count: u64,
}

pub struct PaneInfoModel {
    pub pane_id: Seq<char>,
    pub stream_id: Seq<char>,
    pub label: Option<Seq<char>>,
    pub state: PaneState,
    pub line_count: u64,
}

impl View for PaneInfo {
    type V = PaneInfoModel;

    open spec fn view(&self) -> PaneInfoModel {
        PaneInfoModel {
            pane_id: self.pane_id@,
            stream_id: self.stream_id@,
            label: opt_text(self.label),
            state: self.state,
            line_count: self.line_count,
        }
    }
}

/// The information on pane `id` with entry `e`.
pub open spec fn info_of(id: Seq<char>, e: PaneEntryModel) -> PaneInfoModel {
    PaneInfoModel {
        pane_id: id,
        stream_id: e.stream_id,
        label: e.label,
        state: e.state,
        line_count: e.line_count,
    }
}

/// The registered panes, in registration order, and the replay capacity
/// given to new ones.
pub struct RegistryModel {
    pub entries: Seq<(Seq<char>, PaneEntryModel)>,
    pub replay_cap: usize,
}

impl RegistryModel {
    /// Whether pane `id` is registered.
    pub open spec fn has(self, id: Seq<char>) -> bool {
        exists|i: int| 0 <= i < self.entries.len() && #[trigger] self.entries[i].0 == id
    }

    /// The position of pane `id`.
    pub open spec fn index_of(self, id: Seq<char>) -> int {
        choose|i: int| 0 <= i < self.entries.len() && #[trigger] self.entries[i].0 == id
    }

    /// The entry of pane `id`, if registered.
    pub open spec fn lookup(self, id: Seq<char>) -> Option<PaneEntryModel> {
        if self.has(id) {
            Some(self.entries[self.index_of(id)].1)
        } else {
            None
        }
    }

    /// Each pane is registered once; each entry's buffer is within its
    /// bound and has the registry's capacity.
    pub open spec fn wf(self) -> bool {
        &&& forall|i: int, j: int|
            0 <= i < j < self.entries.len() ==> #[trigger] self.entries[i].0
                != #[trigger] self.entries[j].0
        &&& forall|i: int|
            0 <= i < self.entries.len() ==> (#[trigger] self.entries[i]).1.wf()
                && self.entries[i].1.replay_cap == self.replay_cap
    }

    /// The registry with the entry at `i` replaced.
    pub open spec fn with_entry(self, i: int, e: PaneEntryModel) -> RegistryModel {
        RegistryModel { entries: self.entries.update(i, (self.entries[i].0, e)), ..self }
    }
}

/// Registering pane `id` under `stream_id`: nothing changes if it is
/// registered (its own stream id is the answer), else it is added as a
/// fresh detached entry.
pub open spec fn register_spec(
    r: RegistryModel,
    id: Seq<char>,
    stream_id: Seq<char>,
    label: Option<Seq<char>>,
) -> (RegistryModel, Seq<char>) {
    if r.has(id) {
        (r, r.lookup(id).unwrap().stream_id)
    } else {
        (
            RegistryModel {
                entries: r.entries.push((id, PaneEntryModel::fresh(stream_id, label, r.replay_cap))),
                ..r
            },
            stream_id,
        )
    }
}

/// Removing pane `id`, if registered.
pub open spec fn unregister_spec(r: RegistryModel, id: Seq<char>) -> RegistryModel {
    if r.has(id) {
        RegistryModel { entries: r.entries.remove(r.index_of(id)), ..r }
    } else {
        r
    }
}

/// Registry of all monitored panes.
pub struct PaneRegistry {
    entries: Vec<(String, PaneEntry)>,
    replay_cap: usize,
}

pub open spec fn pair_model(p: (String, PaneEntry)) -> (Seq<char>, PaneEntryModel) {
    (p.0@, p.1@)
}

impl View for PaneRegistry {
    type V = RegistryModel;

    closed spec fn view(&self) -> RegistryModel {
        RegistryModel {
            entries: self.entries@.map_values(|p: (String, PaneEntry)| pair_model(p)),
            replay_cap: self.replay_cap,
        }
    }
}

/// In a registry without duplicates, the position of a registered pane is
/// the one position that holds it.
pub proof fn lemma_index_of_unique(r: RegistryModel, i: int)
    requires
        r.wf(),
        0 <= i < r.entries.len(),
    ensures
        r.has(r.entries[i].0),
        r.index_of(r.entries[i].0) == i,
        r.lookup(r.entries[i].0) == Some(r.entries[i].1),
{
    let id = r.entries[i].0;
    assert(r.entries[i].0 == id);
    let j = r.index_of(id);
    assert(r.entries[j].0 == id);
    if j < i {
        assert(r.entries[j].0 != r.entries[i].0);
    } else if i < j {
        assert(r.entries[i].0 != r.entries[j].0);
    }
}

impl PaneRegistry {
    /// An empty registry whose panes keep up to `replay_cap` lines.
    pub fn new(replay_cap: usize) -> (res: PaneRegistry)
        ensures
            res@.entries.len() == 0,
            res@.replay_cap == replay_cap,
            res@.wf(),
    {
        let res = PaneRegistry { entries: Vec::new(), replay_cap };
        assert(res@.entries =~= Seq::<(Seq<char>, PaneEntryModel)>::empty());
        res
    }

    /// The capacity given to new panes' replay buffers.
    pub fn replay_cap(&self) -> (res: usize)
        ensures
            res == self@.replay_cap,
    {
        self.replay_cap
    }

    fn find(&self, pane_id: &String) -> (res: Option<usize>)
        requires
            self@.wf(),
        ensures
            match res {
                Some(i) => i < self@.entries.len() && self@.entries[i as int].0 == pane_id@
                    && self@.index_of(pane_id@) == i && self@.has(pane_id@),
                None => !self@.has(pane_id@),
            },
    {
        let mut i: usize = 0;
        while i < self.entries.len()
            invariant
                i <= self.entries@.len(),
                self@.entries.len() == self.entries@.len(),
                self@.wf(),
                forall|k: int| 0 <= k < i ==> #[trigger] self@.entries[k].0 != pane_id@,
            decreases self.entries.len() - i,
        {
            if self.entries[i].0 == *pane_id {
                proof {
                    assert(self@.entries[i as int] == pair_model(self.entries@[i as int]));
                    lemma_index_of_unique(self@, i as int);
                }
                return Some(i);
            }
            assert(self@.entries[i as int] == pair_model(self.entries@[i as int]));
            i += 1;
        }
        None
    }

    /// Registers pane `pane_id` under the given stream id, unless it is
    /// registered already; returns the pane's stream id either way.
    pub fn register_with_id(&mut self, pane_id: &String, label: Option<String>, stream_id: String) -> (res: String)
        requires
            old(self)@.wf(),
        ensures
            final(self)@.wf(),
            (final(self)@, res@) == register_spec(old(self)@, pane_id@, stream_id@, opt_text(label)),
    {
        match self.find(pane_id) {
            Some(i) => self.entries[i].1.stream_id.clone(),
            None => {
                let entry = PaneEntry::new(stream_id.clone(), label, self.replay_cap);
                self.entries.push((pane_id.clone(), entry));
                proof {
                    let new_pair = (pane_id@, PaneEntryModel::fresh(stream_id@, opt_text(label), old(self)@.replay_cap));
                    assert(self@.entries =~= old(self)@.entries.push(new_pair));
                }
                stream_id
            },
        }
    }

    /// Registers pane `pane_id` with a fresh random stream id, unless it is
    /// registered already (then nothing changes); returns the pane's stream
    /// id either way.
    pub fn register(&mut self, pane_id: &String, label: Option<String>) -> (res: String)
        requires
            old(self)@.wf(),
        ensures
            final(self)@.wf(),
            (final(self)@, res@) == register_spec(old(self)@, pane_id@, res@, opt_text(label)),
            !old(self)@.has(pane_id@) ==> is_uuid_v4_text(res@),
    {
        match self.find(pane_id) {
            Some(i) => self.entries[i].1.stream_id.clone(),
            None => {
                let stream_id = new_stream_id();
                self.register_with_id(pane_id, label, stream_id)
            },
        }
    }

    /// Removes pane `pane_id`, signalling its reader task to stop. The
    /// receipt of that signal comes back exactly when the pane was
    /// registered with a stop sender.
    pub fn unregister(&mut self, pane_id: &String) -> (res: Option<StopSignal>)
        requires
            old(self)@.wf(),
        ensures
            final(self)@.wf(),
            !final(self)@.has(pane_id@),
            final(self)@ == unregister_spec(old(self)@, pane_id@),
            res is Some <==> (old(self)@.has(pane_id@) && old(self)@.lookup(pane_id@).unwrap().has_shutdown),
    {
        match self.find(pane_id) {
            Some(i) => {
                proof {
                    assert(old(self)@.entries[i as int] == pair_model(old(self).entries@[i as int]));
                }
                let (_, mut entry) = self.entries.remove(i);
                let signal = match entry.shutdown_tx.take() {
                    Some(tx) => Some(signal_shutdown(tx)),
                    None => None,
                };
                proof {
                    let o = old(self)@.entries;
                    assert(self@.entries =~= o.remove(i as int));
                    assert forall|k: int| 0 <= k < self@.entries.len() implies #[trigger] self@.entries[k].0 != pane_id@ by {
                        if k < i {
                            assert(o[k].0 != o[i as int].0);
                        } else {
                            assert(self@.entries[k] == o[k + 1]);
                            assert(o[i as int].0 != o[k + 1].0);
                        }
                    }
                }
                signal
            },
            None => None,
        }
    }

    /// Marks pane `pane_id` attached, keeping the sender that stops its
    /// reader task.
    pub fn set_attached(&mut self, pane_id: &String, shutdown_tx: tokio::sync::oneshot::Sender<()>)
        requires
            old(self)@.wf(),
        ensures
            final(self)@.wf(),
            old(self)@.has(pane_id@) ==> final(self)@ == old(self)@.with_entry(
                old(self)@.index_of(pane_id@),
                PaneEntryModel {
                    state: PaneState::Attached,
                    has_shutdown: true,
                    ..old(self)@.lookup(pane_id@).unwrap()
                },
            ),
            !old(self)@.has(pane_id@) ==> final(self)@ == old(self)@,
    {
        match self.find(pane_id) {
            Some(i) => {
                let (key, mut entry) = self.entries.remove(i);
                proof {
                    assert(old(self)@.entries[i as int] == pair_model(old(self).entries@[i as int]));
                }
                entry.state = PaneState::Attached;
                entry.shutdown_tx = Some(shutdown_tx);
                self.entries.insert(i, (key, entry));
                proof {
                    let o = old(self)@;
                    assert(self@.entries =~= o.entries.update(i as int, (o.entries[i as int].0, entry@)));
                    assert forall|a: int, b: int| 0 <= a < b < self@.entries.len() implies #[trigger] self@.entries[a].0
                        != #[trigger] self@.entries[b].0 by {
                        assert(o.entries[a].0 != o.entries[b].0);
                    }
                }
            },
            None => {},
        }
    }

    /// Marks pane `pane_id` detached and drops its stop sender.
    pub fn set_detached(&mut self, pane_id: &String)
        requires
            old(self)@.wf(),
        ensures
            final(self)@.wf(),
            old(self)@.has(pane_id@) ==> final(self)@ == old(self)@.with_entry(
                old(self)@.index_of(pane_id@),
                PaneEntryModel {
                    state: PaneState::Detached,
                    has_shutdown: false,
                    ..old(self)@.lookup(pane_id@).unwrap()
                },
            ),
            !old(self)@.has(pane_id@) ==> final(self)@ == old(self)@,
    {
        match self.find(pane_id) {
            Some(i) => {
                let (key, mut entry) = self.entries.remove(i);
                proof {
                    assert(old(self)@.entries[i as int] == pair_model(old(self).entries@[i as int]));
                }
                entry.state = PaneState::Detached;
                entry.shutdown_tx = None;
                self.entries.insert(i, (key, entry));
                proof {
                    let o = old(self)@;
                    assert(self@.entries =~= o.entries.update(i as int, (o.entries[i as int].0, entry@)));
                    assert forall|a: int, b: int| 0 <= a < b < self@.entries.len() implies #[trigger] self@.entries[a].0
                        != #[trigger] self@.entries[b].0 by {
                        assert(o.entries[a].0 != o.entries[b].0);
                    }
                }
            },
            None => {},
        }
    }

    /// Stores a line of pane `pane_id` in its replay buffer.
    pub fn push_line(&mut self, pane_id: &String, event: PaneEvent)
        requires
            old(self)@.wf(),
            old(self)@.has(pane_id@) ==> old(self)@.lookup(pane_id@).unwrap().line_count < u64::MAX,
        ensures
            final(self)@.wf(),
            old(self)@.has(pane_id@) ==> final(self)@ == old(self)@.with_entry(
                old(self)@.index_of(pane_id@),
                PaneEntryModel {
                    replay: replay_push(
                        old(self)@.lookup(pane_id@).unwrap().replay,
                        old(self)@.replay_cap,
                        event@,
                    ),
                    line_count: (old(self)@.lookup(pane_id@).unwrap().line_count + 1) as u64,
                    ..old(self)@.lookup(pane_id@).unwrap()
                },
            ),
            !old(self)@.has(pane_id@) ==> final(self)@ == old(self)@,
    {
        match self.find(pane_id) {
            Some(i) => {
                let (key, mut entry) = self.entries.remove(i);
                proof {
                    assert(old(self)@.entries[i as int] == pair_model(old(self).entries@[i as int]));
                }
                entry.push_line(event);
                proof {
                    lemma_push_keeps_bound(old(self)@.entries[i as int].1, event@);
                }
                self.entries.insert(i, (key, entry));
                proof {
                    let o = old(self)@;
                    assert(self@.entries =~= o.entries.update(i as int, (o.entries[i as int].0, entry@)));
                    assert forall|a: int, b: int| 0 <= a < b < self@.entries.len() implies #[trigger] self@.entries[a].0
                        != #[trigger] self@.entries[b].0 by {
                        assert(o.entries[a].0 != o.entries[b].0);
                    }
                }
            },
            None => {},
        }
    }

    /// Copies of the stored lines of pane `pane_id` and its line count.
    pub fn snapshot(&self, pane_id: &String) -> (res: Option<(Vec<PaneEvent>, u64)>)
        requires
            self@.wf(),
        ensures
            match res {
                Some((lines, n)) => self@.has(pane_id@) && replay_model(lines@) == self@.lookup(
                    pane_id@,
                ).unwrap().replay && n == self@.lookup(pane_id@).unwrap().line_count,
                None => !self@.has(pane_id@),
            },
    {
        match self.find(pane_id) {
            Some(i) => {
                proof {
                    assert(self@.entries[i as int] == pair_model(self.entries@[i as int]));
                }
                let lines = self.entries[i].1.snapshot();
                Some((lines, self.entries[i].1.line_count))
            },
            None => None,
        }
    }

    /// One `PaneInfo` per registered pane, in registration order.
    pub fn list(&self) -> (res: Vec<PaneInfo>)
        ensures
            res@.len() == self@.entries.len(),
            forall|i: int|
                0 <= i < res@.len() ==> (#[trigger] res@[i])@ == info_of(
                    self@.entries[i].0,
                    self@.entries[i].1,
                ),
    {
        let mut out: Vec<PaneInfo> = Vec::new();
        let mut i: usize = 0;
        while i < self.entries.len()
            invariant
                i <= self.entries@.len(),
                self@.entries.len() == self.entries@.len(),
                out@.len() == i,
                forall|k: int|
                    0 <= k < i ==> (#[trigger] out@[k])@ == info_of(
                        self@.entries[k].0,
                        self@.entries[k].1,
                    ),
            decreases self.entries.len() - i,
        {
            let (id, entry) = (&self.entries[i].0, &self.entries[i].1);
            proof {
                assert(self@.entries[i as int] == pair_model(self.entries@[i as int]));
            }
            out.push(
                PaneInfo {
                    pane_id: id.clone(),
                    stream_id: entry.stream_id.clone(),
                    label: copy_opt_string(&entry.label),
                    state: entry.state,
                    line_count: entry.line_count,
                },
            );
            i += 1;
        }
        out
    }

    /// Whether pane `pane_id` is registered.
    pub fn contains(&self, pane_id: &String) -> (res: bool)
        requires
            self@.wf(),
        ensures
            res == self@.has(pane_id@),
    {
        self.find(pane_id).is_some()
    }

    /// Whether pane `pane_id` is registered and attached.
    pub fn is_attached(&self, pane_id: &String) -> (res: bool)
        requires
            self@.wf(),
        ensures
            res == (self@.has(pane_id@) && self@.lookup(pane_id@).unwrap().state
                == PaneState::Attached),
    {
        match self.find(pane_id) {
            Some(i) => {
                proof {
                    assert(self@.entries[i as int] == pair_model(self.entries@[i as int]));
                }
                self.entries[i].1.state == PaneState::Attached
            },
            None => false,
        }
    }

    /// The stream id of pane `pane_id`, if registered.
    pub fn stream_id(&self, pane_id: &String) -> (res: Option<String>)
        requires
            self@.wf(),
        ensures
            opt_text(res) == match self@.lookup(pane_id@) {
                Some(e) => Some(e.stream_id),
                None => None,
            },
    {
        match self.find(pane_id) {
            Some(i) => {
                proof {
                    assert(self@.entries[i as int] == pair_model(self.entries@[i as int]));
                }
                Some(self.entries[i].1.stream_id.clone())
            },
            None => None,
        }
    }

    /// The line count of pane `pane_id`, if registered.
    pub fn line_count(&self, pane_id: &String) -> (res: Option<u64>)
        requires
            self@.wf(),
        ensures
            res == match self@.lookup(pane_id@) {
                Some(e) => Some(e.line_count),
                None => None,
            },
    {
        match self.find(pane_id) {
            Some(i) => {
                proof {
                    assert(self@.entries[i as int] == pair_model(self.entries@[i as int]));
                }
                Some(self.entries[i].1.line_count)
            },
            None => None,
        }
    }
}

/// Storing a line keeps a replay buffer within its bound.
pub proof fn lemma_push_keeps_bound(e: PaneEntryModel, ev: crate::types::PaneEventModel)
    requires
        e.wf(),
    ensures
        (PaneEntryModel { replay: replay_push(e.replay, e.replay_cap, ev), ..e }).wf(),
{
}


/// A pane added at the end of a registry without it is found there.
proof fn lemma_pushed_found(r: RegistryModel, id: Seq<char>, e: PaneEntryModel)
    requires
        r.wf(),
        !r.has(id),
        e.wf(),
        e.replay_cap == r.replay_cap,
    ensures
        (RegistryModel { entries: r.entries.push((id, e)), ..r }).wf(),
        (RegistryModel { entries: r.entries.push((id, e)), ..r }).lookup(id) == Some(e),
{
    let r1 = RegistryModel { entries: r.entries.push((id, e)), ..r };
    assert forall|i: int, j: int| 0 <= i < j < r1.entries.len() implies #[trigger] r1.entries[i].0
        != #[trigger] r1.entries[j].0 by {
        if j == r.entries.len() {
            assert(r.entries[i].0 == r1.entries[i].0);
        } else {
            assert(r.entries[i].0 != r.entries[j].0);
        }
    }
    lemma_index_of_unique(r1, r.entries.len() as int);
}

/// Registering is idempotent: registering a pane again, under any stream id
/// and label, changes nothing and answers the stream id it got first.
pub proof fn lemma_register_idempotent(
    r: RegistryModel,
    id: Seq<char>,
    first_id: Seq<char>,
    first_label: Option<Seq<char>>,
    again_id: Seq<char>,
    again_label: Option<Seq<char>>,
)
    requires
        r.wf(),
    ensures
        ({
            let (r1, s1) = register_spec(r, id, first_id, first_label);
            &&& r1.wf()
            &&& r1.has(id)
            &&& register_spec(r1, id, again_id, again_label) == (r1, s1)
        }),
{
    if !r.has(id) {
        lemma_pushed_found(r, id, PaneEntryModel::fresh(first_id, first_label, r.replay_cap));
    }
}

/// Changing the entry of one registered pane (as attaching, detaching or
/// storing a line does) leaves every other pane as it was and keeps the set
/// of registered panes.
pub proof fn lemma_update_keeps_others(r: RegistryModel, id: Seq<char>, e: PaneEntryModel, other: Seq<char>)
    requires
        r.wf(),
        r.has(id),
        other != id,
    ensures
        r.with_entry(r.index_of(id), e).lookup(id) == Some(e),
        r.with_entry(r.index_of(id), e).lookup(other) == r.lookup(other),
        r.with_entry(r.index_of(id), e).has(other) == r.has(other),
{
    let k = r.index_of(id);
    let r1 = r.with_entry(k, e);
    assert(r.entries[k].0 == id);
    assert forall|i: int, j: int| 0 <= i < j < r1.entries.len() implies #[trigger] r1.entries[i].0
        != #[trigger] r1.entries[j].0 by {
        assert(r.entries[i].0 != r.entries[j].0);
    }
    assert(r1.entries[k].0 == id);
    assert(r1.has(id));
    let j = r1.index_of(id);
    assert(r1.entries[j].0 == id);
    if j != k {
        if j < k {
            assert(r.entries[j].0 != r.entries[k].0);
        } else {
            assert(r.entries[k].0 != r.entries[j].0);
        }
    }
    if r.has(other) {
        let o = r.index_of(other);
        assert(r.entries[o].0 == other);
        assert(r1.entries[o].0 == other);
        let o1 = r1.index_of(other);
        assert(r1.entries[o1].0 == other);
        if o1 != o {
            assert(r1.entries[o1] == r.entries[o1]);
            if o1 < o {
                assert(r.entries[o1].0 != r.entries[o].0);
            } else {
                assert(r.entries[o].0 != r.entries[o1].0);
            }
        }
        assert(o != k);
    } else if r1.has(other) {
        let o1 = r1.index_of(other);
        assert(r1.entries[o1].0 == other);
        assert(o1 != k);
        assert(r.entries[o1].0 == other);
    }
}

/// Unregistering a pane removes it and leaves every other pane as it was.
pub proof fn lemma_unregister_keeps_others(r: RegistryModel, id: Seq<char>, other: Seq<char>)
    requires
        r.wf(),
        other != id,
    ensures
        !unregister_spec(r, id).has(id),
        unregister_spec(r, id).lookup(other) == r.lookup(other),
        unregister_spec(r, id).wf(),
{
    if r.has(id) {
        let k = r.index_of(id);
        let r1 = unregister_spec(r, id);
        assert(r.entries[k].0 == id);
        assert forall|i: int, j: int| 0 <= i < j < r1.entries.len() implies #[trigger] r1.entries[i].0
            != #[trigger] r1.entries[j].0 by {
            let ii = if i < k { i } else { i + 1 };
            let jj = if j < k { j } else { j + 1 };
            assert(r1.entries[i] == r.entries[ii]);
            assert(r1.entries[j] == r.entries[jj]);
            assert(r.entries[ii].0 != r.entries[jj].0);
        }
        assert forall|i: int| 0 <= i < r1.entries.len() implies #[trigger] r1.entries[i].0 != id by {
            let ii = if i < k { i } else { i + 1 };
            assert(r1.entries[i] == r.entries[ii]);
            if ii < k {
                assert(r.entries[ii].0 != r.entries[k].0);
            } else {
                assert(r.entries[k].0 != r.entries[ii].0);
            }
        }
        assert forall|i: int| 0 <= i < r1.entries.len() implies (#[trigger] r1.entries[i]).1.wf()
            && r1.entries[i].1.replay_cap == r1.replay_cap by {
            let ii = if i < k { i } else { i + 1 };
            assert(r1.entries[i] == r.entries[ii]);
        }
        if r.has(other) {
            let o = r.index_of(other);
            assert(r.entries[o].0 == other);
            let o1 = if o < k { o } else { o - 1 };
            assert(r1.entries[o1] == r.entries[o]);
            lemma_index_of_unique(r1, o1);
        } else {
            if r1.has(other) {
                let i = r1.index_of(other);
                let ii = if i < k { i } else { i + 1 };
                assert(r1.entries[i] == r.entries[ii]);
                assert(r.entries[ii].0 == other);
            }
        }
    }
}

} // verus!
