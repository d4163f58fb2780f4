//! What happens to one line read from a pane's FIFO.
use vstd::prelude::*;

use crate::registry::pane::{PaneEntryModel, replay_push};
use crate::registry::PaneRegistry;
use crate::semantic::{feed_spec, SemanticParser};
use crate::text::{chars_of, slice_chars, string_of};
use crate::types::{
    AnsiStyle, AnsiStyleModel, EventType, EventTypeModel, PaneEvent, PaneEventModel, SemanticModel,
};

verus! {

/// `s` without the characters `c` at its end.
pub open spec fn trim_end_char(s: Seq<char>, c: char) -> Seq<char>
    decreases s.len(),
{
    if s.len() > 0 && s.last() == c {
        trim_end_char(s.drop_last(), c)
    } else {
        s
    }
}

/// A line as read, without its line ending: trailing line feeds removed,
/// then trailing carriage returns.
pub open spec fn line_without_ending(line: Seq<char>) -> Seq<char> {
    trim_end_char(trim_end_char(line, '\n'), '\r')
}

fn trim_end_char_exec(v: &Vec<char>, c: char) -> (res: Vec<char>)
    ensures
        res@ == trim_end_char(v@, c),
{
    let mut j: usize = v.len();
    assert(v@.subrange(0, v@.len() as int) =~= v@);
    while j > 0 && v[j - 1] == c
        invariant
            j <= v.len(),
            trim_end_char(v@, c) == trim_end_char(v@.subrange(0, j as int), c),
        decreases j,
    {
        assert(v@.subrange(0, j as int).drop_last() =~= v@.subrange(0, j - 1));
        j -= 1;
    }
    slice_chars(v, 0, j)
}

/// `line.trim_end_matches('\n').trim_end_matches('\r')`.
pub fn strip_line_ending(line: &str) -> (res: String)
    ensures
        res@ == line_without_ending(line@),
{
    let chars = chars_of(line);
    assert(chars@.subrange(0, chars@.len() as int) =~= chars@);
    let a = trim_end_char_exec(&chars, '\n');
    assert(a@.subrange(0, a@.len() as int) =~= a@);
    let b = trim_end_char_exec(&a, '\r');
    string_of(&b)
}

/// The event for a line of pane `pane_id`.
pub open spec fn line_event(
    stream_id: Seq<char>,
    pane_id: Seq<char>,
    timestamp: i64,
    raw: Seq<char>,
    clean: Seq<char>,
    style: AnsiStyleModel,
    semantic: SemanticModel,
    line_number: u64,
) -> PaneEventModel {
    PaneEventModel {
        stream_id,
        pane_id,
        timestamp,
        event_type: EventTypeModel::Line { raw, clean, style, semantic, line_number },
    }
}

/// Handles one line of pane `pane_id`: its clean text goes through the
/// pane's semantic parser; if the pane is registered, the line becomes an
/// event numbered by the pane's line count so far, is stored in the pane's
/// replay buffer and is returned for broadcasting.
pub fn process_line(
    raw: &str,
    clean: String,
    style: AnsiStyle,
    pane_id: &String,
    registry: &mut PaneRegistry,
    semantic: &mut SemanticParser,
    timestamp: i64,
) -> (res: Option<PaneEvent>)
    requires
        old(registry)@.wf(),
        old(registry)@.has(pane_id@) ==> old(registry)@.lookup(pane_id@).unwrap().line_count
            < u64::MAX,
    ensures
        final(semantic)@ == feed_spec(old(semantic)@, clean@).0,
        final(registry)@.wf(),
        !old(registry)@.has(pane_id@) ==> res is None && final(registry)@ == old(registry)@,
        old(registry)@.has(pane_id@) ==> ({
            let e = old(registry)@.lookup(pane_id@).unwrap();
            let ev = line_event(
                e.stream_id,
                pane_id@,
                timestamp,
                raw@,
                clean@,
                style@,
                feed_spec(old(semantic)@, clean@).1,
                e.line_count,
            );
            &&& res is Some
            &&& res.unwrap()@ == ev
            &&& final(registry)@ == old(registry)@.with_entry(
                old(registry)@.index_of(pane_id@),
                PaneEntryModel {
                    replay: replay_push(e.replay, old(registry)@.replay_cap, ev),
                    line_count: (e.line_count + 1) as u64,
                    ..e
                },
            )
        }),
{
    let sem = semantic.feed(clean.as_str());
    let stream_id = match registry.stream_id(pane_id) {
        Some(s) => s,
        None => return None,
    };
    let line_number = match registry.line_count(pane_id) {
        Some(n) => n,
        None => 0,
    };
    let event = PaneEvent {
        stream_id,
        pane_id: pane_id.clone(),
        timestamp,
        event_type: EventType::Line {
            raw: raw.to_owned(),
            clean,
            style,
            semantic: sem,
            line_number,
        },
    };
    registry.push_line(pane_id, event.copy());
    Some(event)
}

/// A line's event carries each input in the field of the same name: the
/// raw text as `raw`, the clean text as `clean`, the style, the parser's
/// report as `semantic` and the line's number as `line_number`.
pub proof fn lemma_line_event_fields(
    stream_id: Seq<char>,
    pane_id: Seq<char>,
    timestamp: i64,
    raw: Seq<char>,
    clean: Seq<char>,
    style: AnsiStyleModel,
    semantic: SemanticModel,
    line_number: u64,
)
    ensures
        ({
            let ev = line_event(stream_id, pane_id, timestamp, raw, clean, style, semantic, line_number);
            &&& ev.stream_id == stream_id
            &&& ev.pane_id == pane_id
            &&& ev.timestamp == timestamp
            &&& ev.event_type is Line
            &&& ev.event_type->Line_raw == raw
            &&& ev.event_type->Line_clean == clean
            &&& ev.event_type->Line_style == style
            &&& ev.event_type->Line_semantic == semantic
            &&& ev.event_type->Line_line_number == line_number
        }),
{
}

/// A line loses only its ending: `text` followed by carriage returns and
/// then line feeds, any number of each, gives `text` back when `text` itself
/// ends in neither.
pub proof fn lemma_line_ending_removed(text: Seq<char>, crs: nat, lfs: nat)
    requires
        text.len() == 0 || (text.last() != '\n' && text.last() != '\r'),
    ensures
        line_without_ending(text + Seq::new(crs, |i: int| '\r') + Seq::new(lfs, |i: int| '\n')) == text,
{
    let cr = Seq::new(crs, |i: int| '\r');
    let lf = Seq::new(lfs, |i: int| '\n');
    lemma_trim_char_run(text + cr, '\n', lfs);
    lemma_trim_char_run(text, '\r', crs);
}

proof fn lemma_trim_char_run(text: Seq<char>, c: char, n: nat)
    requires
        text.len() == 0 || text.last() != c,
    ensures
        trim_end_char(text + Seq::new(n, |i: int| c), c) == text,
    decreases n,
{
    let run = Seq::new(n, |i: int| c);
    if n == 0 {
        assert(text + run =~= text);
        if text.len() > 0 {
            assert(text.last() != c);
        }
    } else {
        let shorter = Seq::new((n - 1) as nat, |i: int| c);
        assert((text + run).drop_last() =~= text + shorter);
        assert((text + run).last() == c);
        lemma_trim_char_run(text, c, (n - 1) as nat);
    }
}

} // verus!
