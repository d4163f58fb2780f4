//! Decisions around tmux: which pane ids are acceptable, the names of a
//! pane's FIFO and pipe command, the registry side of attaching and
//! detaching, and which panes discovery attaches or detaches.
use vstd::prelude::*;

use crate::pattern::{regex_capture, regex_captures};
use crate::registry::{PaneRegistry, RegistryModel};
use crate::registry::pane::{PaneEntryModel, PaneState, StopSignal};
use crate::config::strings_model;
use crate::text::{
    chars_model, chars_of, chars_of_each, contains_chars, has_prefix, lines_of, split_lines,
    starts_with, string_of,
};
use crate::types::{EventType, PaneEvent, PaneEventModel, EventTypeModel, opt_text};

verus! {

/// `session:window.pane`, with no character that a shell would interpret.
pub const PANE_ID_PATTERN: &'static str = r"^[A-Za-z0-9_\-.]+:\d+\.\d+$";

/// Whether `pane_id` has the shape `session:window.pane`.
pub open spec fn valid_pane_id(pane_id: Seq<char>) -> bool {
    regex_captures(PANE_ID_PATTERN@, pane_id) is Some
}

pub open spec fn invalid_pane_id_message(pane_id: Seq<char>) -> Seq<char> {
    "Invalid pane_id '"@ + pane_id + "': must match session:window.pane"@
}

fn concat3(a: &str, b: &Vec<char>, c: &str) -> (res: String)
    ensures
        res@ == a@ + b@ + c@,
{
    let mut v = chars_of(a);
    let ghost start = v@;
    let mut i: usize = 0;
    while i < b.len()
        invariant
            i <= b.len(),
            v@ == start + b@.take(i as int),
        decreases b.len() - i,
    {
        v.push(b[i]);
        i += 1;
        assert(v@ =~= start + b@.take(i as int));
    }
    assert(b@.take(b.len() as int) =~= b@);
    let cc = chars_of(c);
    let ghost mid = v@;
    let mut j: usize = 0;
    while j < cc.len()
        invariant
            j <= cc.len(),
            v@ == mid + cc@.take(j as int),
        decreases cc.len() - j,
    {
        v.push(cc[j]);
        j += 1;
        assert(v@ =~= mid + cc@.take(j as int));
    }
    assert(cc@.take(cc.len() as int) =~= cc@);
    string_of(&v)
}

/// Checks a pane id before it reaches a tmux command line.
pub fn validate_pane_id(pane_id: &str) -> (res: Result<(), String>)
    ensures
        res is Ok <==> valid_pane_id(pane_id@),
        res matches Err(msg) ==> msg@ == invalid_pane_id_message(pane_id@),
{
    let chars = chars_of(pane_id);
    if regex_capture(PANE_ID_PATTERN, &chars).is_some() {
        Ok(())
    } else {
        Err(concat3("Invalid pane_id '", &chars, "': must match session:window.pane"))
    }
}

/// The file name of the FIFO of the stream `stream_id`.
pub fn fifo_file_name(stream_id: &str) -> (res: String)
    ensures
        res@ == stream_id@ + ".fifo"@,
{
    let chars = chars_of(stream_id);
    let res = concat3("", &chars, ".fifo");
    proof { reveal_strlit(""); }
    assert(""@ + stream_id@ + ".fifo"@ =~= stream_id@ + ".fifo"@);
    res
}

/// The command that tmux runs to copy a pane's output into its FIFO.
pub fn pipe_command(fifo_path: &str) -> (res: String)
    ensures
        res@ == "cat >> "@ + fifo_path@,
{
    let chars = chars_of(fifo_path);
    let res = concat3("cat >> ", &chars, "");
    proof { reveal_strlit(""); }
    assert("cat >> "@ + fifo_path@ + ""@ =~= "cat >> "@ + fifo_path@);
    res
}

/// Whether pane `id` is registered and attached.
pub open spec fn is_attached_in(r: RegistryModel, id: Seq<char>) -> bool {
    r.has(id) && r.lookup(id).unwrap().state == PaneState::Attached
}

/// `new` is `old` with pane `id` registered under `stream_id`: kept as it
/// was if it was registered, else added as a fresh detached entry.
pub open spec fn registered_as(
    old: RegistryModel,
    new: RegistryModel,
    id: Seq<char>,
    stream_id: Seq<char>,
    label: Option<Seq<char>>,
) -> bool {
    &&& new.has(id)
    &&& new.lookup(id).unwrap().stream_id == stream_id
    &&& old.has(id) ==> new == old
    &&& !old.has(id) ==> new == (RegistryModel {
        entries: old.entries.push((id, PaneEntryModel::fresh(stream_id, label, old.replay_cap))),
        ..old
    })
}

/// The registry side of attaching pane `pane_id`: an invalid id is refused
/// with its message; an attached pane needs nothing (`Ok(None)`); otherwise
/// the pane is registered (kept if it is already) and its stream id returned.
pub fn begin_attach(registry: &mut PaneRegistry, pane_id: &String, label: Option<String>) -> (res:
    Result<Option<String>, String>)
    requires
        old(registry)@.wf(),
    ensures
        final(registry)@.wf(),
        !valid_pane_id(pane_id@) ==> final(registry)@ == old(registry)@ && res is Err
            && res->Err_0@ == invalid_pane_id_message(pane_id@),
        valid_pane_id(pane_id@) && is_attached_in(old(registry)@, pane_id@) ==> final(registry)@
            == old(registry)@ && res is Ok && res->Ok_0 is None,
        valid_pane_id(pane_id@) && !is_attached_in(old(registry)@, pane_id@) ==> res is Ok
            && res->Ok_0 is Some && registered_as(
            old(registry)@,
            final(registry)@,
            pane_id@,
            res->Ok_0->Some_0@,
            opt_text(label),
        ),
{
    match validate_pane_id(pane_id.as_str()) {
        Err(msg) => Err(msg),
        Ok(()) => {
            if registry.is_attached(pane_id) {
                return Ok(None);
            }
            let id = registry.register(pane_id, label);
            proof {
                let r = registry@;
                if !old(registry)@.has(pane_id@) {
                    let n = (r.entries.len() - 1) as int;
                    assert(r.entries[n].0 == pane_id@);
                    crate::registry::lemma_index_of_unique(r, n);
                }
            }
            Ok(Some(id))
        },
    }
}

/// The registry side of detaching pane `pane_id` (whose id is valid): its
/// stream id, empty if it is not registered, and its removal, which signals
/// its reader task to stop when it had one (the receipt comes back then).
pub fn finish_detach(registry: &mut PaneRegistry, pane_id: &String) -> (res: (String, Option<StopSignal>))
    requires
        old(registry)@.wf(),
    ensures
        final(registry)@.wf(),
        !final(registry)@.has(pane_id@),
        res.1 is Some <==> (old(registry)@.has(pane_id@) && old(registry)@.lookup(pane_id@).unwrap().has_shutdown),
        res.0@ == match old(registry)@.lookup(pane_id@) {
            Some(e) => e.stream_id,
            None => Seq::empty(),
        },
        old(registry)@.has(pane_id@) ==> final(registry)@.entries == old(registry)@.entries.remove(
            old(registry)@.index_of(pane_id@),
        ),
        !old(registry)@.has(pane_id@) ==> final(registry)@ == old(registry)@,
{
    let stream_id = match registry.stream_id(pane_id) {
        Some(s) => s,
        None => String::new(),
    };
    let signal = registry.unregister(pane_id);
    (stream_id, signal)
}

/// The event announcing that pane `pane_id` was attached.
pub fn registered_event(stream_id: String, pane_id: String, label: Option<String>, timestamp: i64) -> (res: PaneEvent)
    ensures
        res@ == (PaneEventModel {
            stream_id: stream_id@,
            pane_id: pane_id@,
            timestamp,
            event_type: EventTypeModel::PaneRegistered { label: opt_text(label) },
        }),
{
    PaneEvent { stream_id, pane_id, timestamp, event_type: EventType::PaneRegistered { label } }
}

/// The event announcing that pane `pane_id` was detached.
pub fn unregistered_event(stream_id: String, pane_id: String, timestamp: i64) -> (res: PaneEvent)
    ensures
        res@ == (PaneEventModel {
            stream_id: stream_id@,
            pane_id: pane_id@,
            timestamp,
            event_type: EventTypeModel::PaneUnregistered { reason: "detached"@ },
        }),
{
    PaneEvent {
        stream_id,
        pane_id,
        timestamp,
        event_type: EventType::PaneUnregistered { reason: "detached".to_owned() },
    }
}


// ─── Discovery ─────────────────────────────────────────────────────────────

/// Whether `line` starts with one of the watched session names.
pub open spec fn watched(line: Seq<char>, sessions: Seq<Seq<char>>) -> bool {
    exists|j: int| 0 <= j < sessions.len() && has_prefix(line, #[trigger] sessions[j])
}

/// Whether pane `p` is live: a line of tmux's pane list that starts with a
/// watched session name.
pub open spec fn is_live(p: Seq<char>, listing: Seq<char>, sessions: Seq<Seq<char>>) -> bool {
    lines_of(listing).contains(p) && watched(p, sessions)
}

fn watched_exec(line: &Vec<char>, sessions: &Vec<Vec<char>>) -> (res: bool)
    ensures
        res == watched(line@, chars_model(sessions@)),
{
    let mut j: usize = 0;
    while j < sessions.len()
        invariant
            j <= sessions.len(),
            forall|k: int| 0 <= k < j ==> !has_prefix(line@, #[trigger] chars_model(sessions@)[k]),
        decreases sessions.len() - j,
    {
        let session_text = string_of(&sessions[j]);
        if starts_with(line, session_text.as_str()) {
            assert(chars_model(sessions@)[j as int] == sessions@[j as int]@);
            return true;
        }
        assert(chars_model(sessions@)[j as int] == sessions@[j as int]@);
        j += 1;
    }
    false
}

proof fn lemma_push_contains(s: Seq<Seq<char>>, x: Seq<char>, p: Seq<char>)
    ensures
        s.push(x).contains(p) <==> (s.contains(p) || p == x),
{
    if s.contains(p) {
        let i = choose|i: int| 0 <= i < s.len() && s[i] == p;
        assert(s.push(x)[i] == p);
    }
    if p == x {
        assert(s.push(x)[s.len() as int] == p);
    }
    if s.push(x).contains(p) {
        let i = choose|i: int| 0 <= i < s.push(x).len() && s.push(x)[i] == p;
        if i < s.len() {
            assert(s[i] == p);
        }
    }
}

proof fn lemma_push_no_duplicates(s: Seq<Seq<char>>, x: Seq<char>)
    requires
        s.no_duplicates(),
        !s.contains(x),
    ensures
        s.push(x).no_duplicates(),
{
    assert forall|i: int, j: int|
        0 <= i < s.push(x).len() && 0 <= j < s.push(x).len() && i != j implies s.push(x)[i]
        != s.push(x)[j] by {
        if i < s.len() && j < s.len() {
        } else if i < s.len() {
            assert(s[i] == s.push(x)[i]);
        } else if j < s.len() {
            assert(s[j] == s.push(x)[j]);
        }
    }
}

/// What one discovery round does, given tmux's pane list, the watched
/// sessions and the registered panes: the live panes that are not
/// registered are attached (each once), the registered panes that are not
/// live are detached, in registration order.
pub fn discovery_plan(listing: &str, sessions: &Vec<String>, registered: &Vec<String>) -> (res: (
    Vec<String>,
    Vec<String>,
))
    ensures
        strings_model(res.0@).no_duplicates(),
        forall|p: Seq<char>|
            #![trigger strings_model(res.0@).contains(p)]
            strings_model(res.0@).contains(p) <==> is_live(p, listing@, strings_model(sessions@))
                && !strings_model(registered@).contains(p),
        strings_model(res.1@) == strings_model(registered@).filter(
            |r: Seq<char>| !is_live(r, listing@, strings_model(sessions@)),
        ),
{
    let ghost sess = strings_model(sessions@);
    let lines = split_lines(listing);
    let session_chars = chars_of_each(sessions);
    assert(chars_model(session_chars@) =~= sess);
    // The live panes, each once.
    let mut live: Vec<Vec<char>> = Vec::new();
    let mut i: usize = 0;
    while i < lines.len()
        invariant
            i <= lines.len(),
            chars_model(lines@) == lines_of(listing@),
            chars_model(session_chars@) == sess,
            chars_model(live@).no_duplicates(),
            forall|p: Seq<char>|
                #![trigger chars_model(live@).contains(p)]
                chars_model(live@).contains(p) <==> chars_model(lines@).take(i as int).contains(p)
                    && watched(p, sess),
        decreases lines.len() - i,
    {
        let ghost before = chars_model(live@);
        let ghost l = lines@[i as int]@;
        assert(chars_model(lines@)[i as int] == l);
        assert(chars_model(lines@).take(i + 1) =~= chars_model(lines@).take(i as int).push(l));
        let ghost prev = chars_model(lines@).take(i as int);
        if watched_exec(&lines[i], &session_chars) && !contains_chars(&live, &lines[i]) {
            live.push(lines[i].clone());
            assert(chars_model(live@) =~= before.push(l));
            proof {
                lemma_push_no_duplicates(before, l);
            }
        }
        proof {
            assert forall|p: Seq<char>|
                #![trigger chars_model(live@).contains(p)]
                chars_model(live@).contains(p) <==> chars_model(lines@).take(i + 1).contains(p)
                    && watched(p, sess) by {
                lemma_push_contains(before, l, p);
                lemma_push_contains(prev, l, p);
            }
        }
        i += 1;
    }
    assert(chars_model(lines@).take(lines@.len() as int) =~= chars_model(lines@));
    let registered_chars = chars_of_each(registered);
    let ghost reg = strings_model(registered@);
    assert(chars_model(registered_chars@) =~= reg);
    // Live panes not registered.
    let mut to_attach: Vec<String> = Vec::new();
    let mut k: usize = 0;
    while k < live.len()
        invariant
            k <= live.len(),
            chars_model(live@).no_duplicates(),
            chars_model(registered_chars@) == reg,
            strings_model(to_attach@).no_duplicates(),
            forall|p: Seq<char>|
                #![trigger strings_model(to_attach@).contains(p)]
                strings_model(to_attach@).contains(p) <==> chars_model(live@).take(k as int).contains(p)
                    && !reg.contains(p),
        decreases live.len() - k,
    {
        let ghost before = strings_model(to_attach@);
        let ghost l = live@[k as int]@;
        assert(chars_model(live@)[k as int] == l);
        assert(chars_model(live@).take(k + 1) =~= chars_model(live@).take(k as int).push(l));
        let ghost prev = chars_model(live@).take(k as int);
        proof {
            if prev.contains(l) {
                let j = choose|j: int| 0 <= j < prev.len() && prev[j] == l;
                assert(chars_model(live@)[j] == chars_model(live@)[k as int]);
            }
        }
        if !contains_chars(&registered_chars, &live[k]) {
            to_attach.push(string_of(&live[k]));
            assert(strings_model(to_attach@) =~= before.push(l));
            proof {
                lemma_push_no_duplicates(before, l);
            }
        }
        proof {
            assert forall|p: Seq<char>|
                #![trigger strings_model(to_attach@).contains(p)]
                strings_model(to_attach@).contains(p) <==> chars_model(live@).take(k + 1).contains(p)
                    && !reg.contains(p) by {
                lemma_push_contains(before, l, p);
                lemma_push_contains(prev, l, p);
            }
        }
        k += 1;
    }
    assert(chars_model(live@).take(live@.len() as int) =~= chars_model(live@));
    // Registered panes not live.
    let ghost pred = |r: Seq<char>| !is_live(r, listing@, sess);
    let mut to_detach: Vec<String> = Vec::new();
    let mut m: usize = 0;
    while m < registered.len()
        invariant
            m <= registered.len(),
            registered_chars@.len() == registered@.len(),
            chars_model(registered_chars@) == reg,
            reg == strings_model(registered@),
            pred == (|r: Seq<char>| !is_live(r, listing@, sess)),
            forall|p: Seq<char>|
                #![trigger chars_model(live@).contains(p)]
                chars_model(live@).contains(p) <==> is_live(p, listing@, sess),
            strings_model(to_detach@) == reg.take(m as int).filter(pred),
        decreases registered.len() - m,
    {
        let ghost before = strings_model(to_detach@);
        let ghost r = reg[m as int];
        assert(chars_model(registered_chars@)[m as int] == registered_chars@[m as int]@);
        assert(reg.take(m + 1).drop_last() =~= reg.take(m as int));
        proof {
            reveal(Seq::filter);
        }
        if !contains_chars(&live, &registered_chars[m]) {
            to_detach.push(registered[m].clone());
            assert(strings_model(to_detach@) =~= before.push(r));
        } else {
            assert(strings_model(to_detach@) =~= before);
        }
        m += 1;
    }
    assert(reg.take(registered@.len() as int) =~= reg);
    (to_attach, to_detach)
}


// ─── Laws of discovery ─────────────────────────────────────────────────────

/// Every watched session counts alike: a listed pane whose line starts with
/// any one of the session names, wherever that name stands in the list, is
/// live; a pane is live only if its line is listed and starts with one of
/// them; and the order of the session names (or repeating one) changes
/// nothing.
pub proof fn lemma_every_session_is_watched(
    p: Seq<char>,
    listing: Seq<char>,
    sessions: Seq<Seq<char>>,
    others: Seq<Seq<char>>,
    j: int,
)
    ensures
        0 <= j < sessions.len() && has_prefix(p, sessions[j]) && lines_of(listing).contains(p)
            ==> is_live(p, listing, sessions),
        is_live(p, listing, sessions) ==> lines_of(listing).contains(p) && exists|k: int|
            0 <= k < sessions.len() && has_prefix(p, #[trigger] sessions[k]),
        sessions.to_set() == others.to_set() ==> is_live(p, listing, sessions) == is_live(
            p,
            listing,
            others,
        ),
{
    if 0 <= j < sessions.len() && has_prefix(p, sessions[j]) {
        assert(watched(p, sessions));
    }
    if sessions.to_set() == others.to_set() {
        if watched(p, sessions) {
            let k = choose|k: int| 0 <= k < sessions.len() && has_prefix(p, #[trigger] sessions[k]);
            assert(sessions.to_set().contains(sessions[k]));
            assert(others.to_set().contains(sessions[k]));
            let m = choose|m: int| 0 <= m < others.len() && others[m] == sessions[k];
            assert(has_prefix(p, others[m]));
        }
        if watched(p, others) {
            let k = choose|k: int| 0 <= k < others.len() && has_prefix(p, #[trigger] others[k]);
            assert(others.to_set().contains(others[k]));
            assert(sessions.to_set().contains(others[k]));
            let m = choose|m: int| 0 <= m < sessions.len() && sessions[m] == others[k];
            assert(has_prefix(p, sessions[m]));
        }
    }
}

/// Discovery attaches a pane of every watched session: with the plan of a
/// round in hand, a listed, unregistered pane whose line starts with any of
/// the session names is among those to attach, and a registered one among
/// those to detach only if its line starts with none of them or is not
/// listed.
pub proof fn lemma_discovery_covers_every_session(
    listing: Seq<char>,
    sessions: Seq<Seq<char>>,
    registered: Seq<Seq<char>>,
    attach: Seq<Seq<char>>,
    detach: Seq<Seq<char>>,
    p: Seq<char>,
    j: int,
)
    requires
        forall|q: Seq<char>|
            #![trigger attach.contains(q)]
            attach.contains(q) <==> is_live(q, listing, sessions) && !registered.contains(q),
        detach == registered.filter(|r: Seq<char>| !is_live(r, listing, sessions)),
        0 <= j < sessions.len(),
        has_prefix(p, sessions[j]),
        lines_of(listing).contains(p),
    ensures
        !registered.contains(p) ==> attach.contains(p),
        !detach.contains(p),
{
    lemma_every_session_is_watched(p, listing, sessions, sessions, j);
    if detach.contains(p) {
        let f = |r: Seq<char>| !is_live(r, listing, sessions);
        let i = choose|i: int| 0 <= i < detach.len() && detach[i] == p;
        registered.lemma_filter_pred(f, i);
    }
}

} // verus!
