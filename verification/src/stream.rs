//! An in-memory store of conversation events that is read by offset and keeps
//! only the newest events of each conversation.

use crate::text::text_of;
use dashmap::DashMap;
use std::collections::VecDeque;
use vstd::prelude::*;

verus! {

/// Mathematical model of a [`StreamEvent`].
pub struct EventView {
    pub seq: u64,
    pub raw: Seq<char>,
    pub created_at: u64,
    pub event_type: Option<Seq<char>>,
}

/// One event of a conversation, with its sequence number.
#[derive(Debug, Clone)]
pub struct StreamEvent {
    pub seq: u64,
    pub raw: String,
    pub created_at: u64,
    pub event_type: Option<String>,
}

impl View for StreamEvent {
    type V = EventView;

    open spec fn view(&self) -> EventView {
        EventView {
            seq: self.seq,
            raw: self.raw@,
            created_at: self.created_at,
            event_type: text_of(self.event_type),
        }
    }
}

impl StreamEvent {
    /// A copy that denotes the same event.
    pub fn duplicate(&self) -> (r: StreamEvent)
        ensures
            r@ == self@,
    {
        StreamEvent {
            seq: self.seq,
            raw: self.raw.clone(),
            created_at: self.created_at,
            event_type: match &self.event_type {
                Some(t) => Some(t.clone()),
                None => None,
            },
        }
    }
}

/// From where a conversation is read.
#[derive(Debug, Clone, Copy)]
pub enum StreamOffset {
    /// From the oldest event that is kept.
    Start,
    /// From now on: nothing that is there already.
    Now,
    /// Behind the event with the given sequence number.
    Value(u64),
}

/// Mathematical model of a [`StreamReadResult`].
pub struct ReadView {
    pub events: Seq<EventView>,
    pub next_offset: u64,
    pub up_to_date: bool,
    pub truncated: bool,
    pub min_seq: Option<u64>,
    pub max_seq: u64,
}

/// What a read hands out: the events, the offset to read from next, whether
/// the reader has seen everything, whether events that it asked for are gone,
/// and the bounds of what is kept.
#[derive(Debug, Clone)]
pub struct StreamReadResult {
    pub events: Vec<StreamEvent>,
    pub next_offset: u64,
    pub up_to_date: bool,
    pub truncated: bool,
    pub min_seq: Option<u64>,
    pub max_seq: u64,
}

/// The models of a sequence of events.
pub open spec fn event_views(s: Seq<StreamEvent>) -> Seq<EventView> {
    Seq::new(s.len(), |i: int| s[i]@)
}

impl View for StreamReadResult {
    type V = ReadView;

    open spec fn view(&self) -> ReadView {
        ReadView {
            events: event_views(self.events@),
            next_offset: self.next_offset,
            up_to_date: self.up_to_date,
            truncated: self.truncated,
            min_seq: self.min_seq,
            max_seq: self.max_seq,
        }
    }
}

/// Mathematical model of a [`StreamLog`].
pub struct LogView {
    pub events: Seq<EventView>,
    pub max_seq: u64,
}

/// The largest of two numbers.
pub open spec fn larger(a: u64, b: u64) -> u64 {
    if a >= b {
        a
    } else {
        b
    }
}

impl LogView {
    /// A log without events.
    pub open spec fn empty() -> LogView {
        LogView { events: Seq::empty(), max_seq: 0 }
    }

    /// The log after an event has been appended and only the newest `keep`
    /// events have been kept.
    pub open spec fn append(self, e: EventView, keep: nat) -> LogView {
        let all = self.events.push(e);
        LogView {
            events: if all.len() > keep {
                all.skip(all.len() - keep)
            } else {
                all
            },
            max_seq: larger(self.max_seq, e.seq),
        }
    }

    /// The sequence number of the oldest event that is kept.
    pub open spec fn min_seq(self) -> Option<u64> {
        if self.events.len() > 0 {
            Some(self.events[0].seq)
        } else {
            None
        }
    }

    /// The events with a sequence number above `value`.
    pub open spec fn behind(self, value: u64) -> Seq<EventView> {
        self.events.filter(|e: EventView| e.seq > value)
    }

    /// A read that hands out `events`. The next offset is the sequence number
    /// of the last event handed out, or the largest one seen where none is.
    pub open spec fn answer(self, events: Seq<EventView>, up_to_date: bool) -> ReadView {
        ReadView {
            events: events,
            next_offset: if events.len() > 0 {
                events.last().seq
            } else {
                self.max_seq
            },
            up_to_date: up_to_date,
            truncated: false,
            min_seq: self.min_seq(),
            max_seq: self.max_seq,
        }
    }

    /// What a read from `offset` hands out. A read behind a sequence number
    /// is truncated where the events that follow it directly are no longer
    /// kept; it is up to date where nothing follows and nothing was ever
    /// appended beyond it.
    pub open spec fn read(self, offset: StreamOffset) -> ReadView {
        if self.events.len() == 0 {
            self.answer(Seq::empty(), true)
        } else {
            match offset {
                StreamOffset::Start => self.answer(self.events, true),
                StreamOffset::Now => self.answer(Seq::empty(), true),
                StreamOffset::Value(value) => {
                    if value + 1 < self.events[0].seq {
                        ReadView {
                            events: Seq::empty(),
                            next_offset: self.max_seq,
                            up_to_date: false,
                            truncated: true,
                            min_seq: self.min_seq(),
                            max_seq: self.max_seq,
                        }
                    } else {
                        let found = self.behind(value);
                        self.answer(found, found.len() == 0 && value >= self.max_seq)
                    }
                },
            }
        }
    }
}

/// The events of one conversation, oldest first, and the largest sequence
/// number that was ever appended.
#[derive(Debug, Clone)]
pub struct StreamLog {
    pub events: VecDeque<StreamEvent>,
    pub max_seq: u64,
}

impl View for StreamLog {
    type V = LogView;

    open spec fn view(&self) -> LogView {
        LogView { events: event_views(self.events@), max_seq: self.max_seq }
    }
}

impl StreamLog {
    /// A log without events.
    pub fn new() -> (log: StreamLog)
        ensures
            log@ == LogView::empty(),
    {
        let log = StreamLog { events: VecDeque::new(), max_seq: 0 };
        assert(log@.events =~= Seq::<EventView>::empty());
        log
    }

    /// Appends an event and drops the oldest events beyond `max_events`.
    pub fn append(&mut self, event: StreamEvent, max_events: usize)
        requires
            old(self).events@.len() < usize::MAX,
        ensures
            final(self)@ == old(self)@.append(event@, max_events as nat),
    {
        let ghost all = old(self)@.events.push(event@);
        if event.seq > self.max_seq {
            self.max_seq = event.seq;
        }
        self.events.push_back(event);
        assert(event_views(self.events@) =~= all);
        while self.events.len() > max_events
            invariant
                self.max_seq == larger(old(self).max_seq, event.seq),
                self.events@.len() <= all.len(),
                self.events@.len() >= max_events || self.events@.len() == all.len(),
                event_views(self.events@) == all.skip(all.len() - self.events@.len()),
            decreases self.events@.len(),
        {
            let ghost before = self.events@;
            self.events.pop_front();
            assert(event_views(self.events@) =~= all.skip(all.len() - self.events@.len())) by {
                assert forall|i: int| 0 <= i < self.events@.len() implies event_views(
                    self.events@,
                )[i] == all.skip(all.len() - self.events@.len())[i] by {
                    assert(self.events@[i] == before[i + 1]);
                    assert(event_views(before)[i + 1] == all.skip(all.len() - before.len())[i + 1]);
                }
            }
        }
        assert(all.skip(0) =~= all);
    }

    /// Copies of the events with a sequence number above `value`.
    fn events_behind(&self, value: u64) -> (r: Vec<StreamEvent>)
        ensures
            event_views(r@) == self@.behind(value),
    {
        let ghost all = event_views(self.events@);
        let ghost keep = |e: EventView| e.seq > value;
        let mut r: Vec<StreamEvent> = Vec::new();
        let mut i: usize = 0;
        assert(all.take(0).filter(keep) =~= Seq::<EventView>::empty());
        while i < self.events.len()
            invariant
                i <= self.events@.len(),
                all == event_views(self.events@),
                keep == |e: EventView| e.seq > value,
                event_views(r@) == all.take(i as int).filter(keep),
            decreases self.events@.len() - i,
        {
            proof {
                assert(all.take(i + 1).drop_last() == all.take(i as int));
                reveal_with_fuel(Seq::filter, 2);
            }
            if self.events[i].seq > value {
                let ghost old_r = event_views(r@);
                r.push(self.events[i].duplicate());
                assert(event_views(r@) =~= old_r.push(all[i as int]));
            }
            i += 1;
        }
        assert(all == all.take(self.events@.len() as int));
        r
    }

    /// Copies of all events.
    fn all_events(&self) -> (r: Vec<StreamEvent>)
        ensures
            event_views(r@) == self@.events,
    {
        let mut r: Vec<StreamEvent> = Vec::new();
        let mut i: usize = 0;
        while i < self.events.len()
            invariant
                i <= self.events@.len(),
                r@.len() == i,
                forall|k: int| 0 <= k < i ==> (#[trigger] r@[k])@ == self.events@[k]@,
            decreases self.events@.len() - i,
        {
            r.push(self.events[i].duplicate());
            i += 1;
        }
        assert(event_views(r@) =~= event_views(self.events@));
        r
    }

    /// A read that hands out the given events.
    fn answer_with(&self, events: Vec<StreamEvent>, up_to_date: bool) -> (r: StreamReadResult)
        ensures
            r@ == self@.answer(event_views(events@), up_to_date),
    {
        let next_offset = if events.len() > 0 {
            events[events.len() - 1].seq
        } else {
            self.max_seq
        };
        let min_seq = if self.events.len() > 0 {
            Some(self.events[0].seq)
        } else {
            None
        };
        StreamReadResult {
            events: events,
            next_offset: next_offset,
            up_to_date: up_to_date,
            truncated: false,
            min_seq: min_seq,
            max_seq: self.max_seq,
        }
    }

    /// Reads from an offset.
    pub fn read(&self, offset: StreamOffset) -> (r: StreamReadResult)
        ensures
            r@ == self@.read(offset),
    {
        if self.events.len() == 0 {
            let none: Vec<StreamEvent> = Vec::new();
            assert(event_views(none@) =~= Seq::<EventView>::empty());
            return self.answer_with(none, true);
        }
        match offset {
            StreamOffset::Start => self.answer_with(self.all_events(), true),
            StreamOffset::Now => {
                let none: Vec<StreamEvent> = Vec::new();
                assert(event_views(none@) =~= Seq::<EventView>::empty());
                self.answer_with(none, true)
            },
            StreamOffset::Value(value) => {
                let min = self.events[0].seq;
                if value < u64::MAX && value + 1 < min {
                    let none: Vec<StreamEvent> = Vec::new();
                    assert(event_views(none@) =~= Seq::<EventView>::empty());
                    return StreamReadResult {
                        events: none,
                        next_offset: self.max_seq,
                        up_to_date: false,
                        truncated: true,
                        min_seq: Some(min),
                        max_seq: self.max_seq,
                    };
                }
                let found = self.events_behind(value);
                let up_to_date = found.len() == 0 && value >= self.max_seq;
                self.answer_with(found, up_to_date)
            },
        }
    }
}

/// Whether a reader that got `initial` should wait for more: it does unless
/// events were lost, events were handed out, or it is not up to date.
pub fn should_wait(initial: &StreamReadResult) -> (r: bool)
    ensures
        r == (!initial@.truncated && initial@.events.len() == 0 && initial@.up_to_date),
{
    !(initial.truncated || initial.events.len() > 0 || !initial.up_to_date)
}

/// What an index of logs holds: the model of each stored log under the text
/// of its key.
pub uninterp spec fn logs_of(m: DashMap<String, StreamLog>) -> Map<Seq<char>, LogView>;

/// The contents of an index without logs.
pub open spec fn no_logs() -> Map<Seq<char>, LogView> {
    Map::empty()
}

/// `DashMap::new` makes a map without entries.
#[verifier::external_body]
fn new_log_index() -> (m: DashMap<String, StreamLog>)
    ensures
        logs_of(m) == no_logs(),
{
    DashMap::new()
}

/// `DashMap::insert` stores the value under the key and replaces what the key
/// held before.
#[verifier::external_body]
fn log_index_insert(m: &mut DashMap<String, StreamLog>, key: String, value: StreamLog)
    ensures
        logs_of(*final(m)) == logs_of(*old(m)).insert(key@, value@),
{
    m.insert(key, value);
}

/// `DashMap::get` finds the entry of the key; the value is handed out as a
/// clone.
#[verifier::external_body]
fn log_index_get(m: &DashMap<String, StreamLog>, key: &str) -> (r: Option<StreamLog>)
    ensures
        match r {
            Some(log) => logs_of(*m).contains_key(key@) && logs_of(*m)[key@] == log@,
            None => !logs_of(*m).contains_key(key@),
        },
{
    m.get(key).map(|entry| entry.value().clone())
}

/// The logs of all conversations, each cut to the newest `max_events` events.
pub struct StreamStore {
    conversations: DashMap<String, StreamLog>,
    max_events: usize,
}

/// The log of a conversation, or an empty one where the conversation is not
/// known.
pub open spec fn log_or_empty(logs: Map<Seq<char>, LogView>, id: Seq<char>) -> LogView {
    if logs.contains_key(id) {
        logs[id]
    } else {
        LogView::empty()
    }
}

impl StreamStore {
    /// The logs by conversation.
    pub closed spec fn logs(&self) -> Map<Seq<char>, LogView> {
        logs_of(self.conversations)
    }

    /// The number of events that are kept of each conversation.
    pub closed spec fn limit(&self) -> nat {
        self.max_events as nat
    }

    /// A store without conversations that keeps `max_events` events of each,
    /// and at least one.
    pub fn new(max_events: usize) -> (store: StreamStore)
        ensures
            store.logs() == no_logs(),
            store.limit() == if max_events >= 1 {
                max_events as nat
            } else {
                1
            },
    {
        StreamStore {
            conversations: new_log_index(),
            max_events: if max_events >= 1 {
                max_events
            } else {
                1
            },
        }
    }

    /// Makes sure that the conversation is known.
    pub fn ensure_conversation(&mut self, conversation_id: &str)
        ensures
            final(self).limit() == old(self).limit(),
            final(self).logs() == old(self).logs().insert(
                conversation_id@,
                log_or_empty(old(self).logs(), conversation_id@),
            ),
    {
        match log_index_get(&self.conversations, conversation_id) {
            Some(_) => {
                assert(self.logs() =~= old(self).logs().insert(
                    conversation_id@,
                    log_or_empty(old(self).logs(), conversation_id@),
                ));
            },
            None => {
                log_index_insert(
                    &mut self.conversations,
                    conversation_id.to_owned(),
                    StreamLog::new(),
                );
            },
        }
    }

    /// Appends an event to a conversation, which it makes known if need be.
    /// A log that cannot hold one event more is left as it is.
    pub fn append(&mut self, conversation_id: &str, event: StreamEvent)
        ensures
            final(self).limit() == old(self).limit(),
            final(self).logs() == if log_or_empty(old(self).logs(), conversation_id@).events.len()
                < usize::MAX {
                old(self).logs().insert(
                    conversation_id@,
                    log_or_empty(old(self).logs(), conversation_id@).append(
                        event@,
                        old(self).limit(),
                    ),
                )
            } else {
                old(self).logs()
            },
    {
        let mut log = match log_index_get(&self.conversations, conversation_id) {
            Some(log) => log,
            None => StreamLog::new(),
        };
        if log.events.len() == usize::MAX {
            return ;
        }
        log.append(event, self.max_events);
        log_index_insert(&mut self.conversations, conversation_id.to_owned(), log);
    }

    /// Reads a conversation from an offset; nothing where it is not known.
    pub fn read(&self, conversation_id: &str, offset: StreamOffset) -> (r: Option<
        StreamReadResult,
    >)
        ensures
            match r {
                Some(result) => self.logs().contains_key(conversation_id@) && result@
                    == self.logs()[conversation_id@].read(offset),
                None => !self.logs().contains_key(conversation_id@),
            },
    {
        match log_index_get(&self.conversations, conversation_id) {
            Some(log) => Some(log.read(offset)),
            None => None,
        }
    }
}

} // verus!
