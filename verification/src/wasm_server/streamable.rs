//! Streamable HTTP: the in-memory session store, and what a request's
//! `Accept` header allows.
//!
//! The store is bounded. It holds at most `max_sessions` sessions (creating
//! one past the cap evicts the least recently active) and keeps the newest
//! `max_events_per_session` events per session as a ring buffer, so a
//! reconnecting client is replayed what followed the last event it saw.
use vstd::prelude::*;

use crate::event_stream::{
    data_lines, event_data, event_lines, field_line, free_of, lemma_event_read_back, lemma_lines_text_append,
    lemma_preamble_read_back, lemma_split_pieces, lemma_stream_of_lines, lemma_three_blanks, lines_free_of,
    lines_text, preamble, preamble_text, push_event, stream_events,
};
use crate::table::Table;
use crate::text::{
    decimal, before, before_chars, chars_eq, chars_of, lower, lower_chars, owned, slice_chars, str_eq, trim,
    trim_chars, views,
};
use crate::wasm_server::handler::{split, split_chars, vec_views};
use crate::text::{parse_usize, push_str};
use crate::wasm_server::endpoint::{
    declares_too_long, empty_reply, is_json_content_type, json_content_type,
    method_not_allowed_reply, protocol_version_from_header, stable_versions, text_reply,
    unsupported_version_message, Reply, ReplyView, PROTOCOL_VERSION_HEADER,
};
use crate::wasm_server::headers::HeaderMap;
use crate::wasm_server::origin::{check_origin, spec_check_origin};
use crate::wasm_server::rich_context::{cleanup_session_state, SessionStateStore, StateView};

verus! {

/// Methods a Streamable HTTP endpoint answers, for `Allow` and CORS.
pub const ALLOWED_METHODS: &'static str = "GET, POST, DELETE, OPTIONS";

/// Default cap on the sessions a [`MemorySessionStore`] holds.
pub const DEFAULT_MAX_SESSIONS: usize = 10000;

/// Default number of events kept per session for replay.
pub const DEFAULT_MAX_EVENTS_PER_SESSION: usize = 100;

/// An event kept for replay.
#[derive(Debug)]
pub struct StoredEvent {
    /// Event id, what a client sends back as `Last-Event-ID`.
    pub id: String,
    /// Event data (a JSON-RPC message).
    pub data: String,
    /// Event type, if any.
    pub event_type: Option<String>,
    /// When the event was stored (Unix milliseconds).
    pub timestamp: u64,
}

impl Clone for StoredEvent {
    fn clone(&self) -> (r: Self)
        ensures
            r == *self,
    {
        StoredEvent {
            id: self.id.clone(),
            data: self.data.clone(),
            event_type: match &self.event_type {
                Some(t) => Some(t.clone()),
                None => None,
            },
            timestamp: self.timestamp,
        }
    }
}

/// A stored session: when it was last active, and what else it holds.
#[derive(Debug)]
pub struct SessionRecord<S> {
    /// Last activity (Unix milliseconds); the least recent is evicted first.
    pub last_activity: u64,
    /// The session.
    pub session: S,
}

/// The store, as values.
pub struct StoreView<S> {
    /// Sessions by id.
    pub sessions: Map<Seq<char>, SessionRecord<S>>,
    /// Event logs by session id, oldest first.
    pub events: Map<Seq<char>, Seq<StoredEvent>>,
    /// Cap on sessions.
    pub max_sessions: usize,
    /// Cap on events kept per session.
    pub max_events: usize,
}

/// A session with its event log.
#[derive(Debug)]
struct SessionEntry<S> {
    record: SessionRecord<S>,
    events: Vec<StoredEvent>,
}

/// In-memory session store.
#[derive(Debug)]
pub struct MemorySessionStore<S> {
    table: Table<SessionEntry<S>>,
    max_sessions: usize,
    max_events_per_session: usize,
}

impl<S> View for MemorySessionStore<S> {
    type V = StoreView<S>;

    closed spec fn view(&self) -> StoreView<S> {
        StoreView {
            sessions: self.table@.map_values(|e: SessionEntry<S>| e.record),
            events: self.table@.map_values(|e: SessionEntry<S>| e.events@),
            max_sessions: self.max_sessions,
            max_events: self.max_events_per_session,
        }
    }
}

/// A log after `e` is appended, keeping the newest `max` (none kept, and
/// nothing appended, when `max` is 0).
pub open spec fn ring_push(log: Seq<StoredEvent>, e: StoredEvent, max: nat) -> Seq<StoredEvent> {
    if max == 0 {
        log
    } else {
        let l = log.push(e);
        if l.len() > max {
            l.subrange(l.len() - max, l.len() as int)
        } else {
            l
        }
    }
}

/// Position of the first event of `log` with id `id`, if any.
pub open spec fn event_position(log: Seq<StoredEvent>, id: Seq<char>) -> Option<int>
    decreases log.len(),
{
    if log.len() == 0 {
        None
    } else if log[0].id@ == id {
        Some(0)
    } else {
        match event_position(log.drop_first(), id) {
            Some(p) => Some(p + 1),
            None => None,
        }
    }
}

/// What a client that saw event `last` is replayed: the events after it,
/// or nothing for an id the log does not hold.
pub open spec fn spec_replay(log: Seq<StoredEvent>, last: Seq<char>) -> Seq<StoredEvent> {
    match event_position(log, last) {
        Some(p) => log.subrange(p + 1, log.len() as int),
        None => Seq::empty(),
    }
}

proof fn lemma_event_position(log: Seq<StoredEvent>, id: Seq<char>, k: int)
    requires
        0 <= k <= log.len(),
        forall|j: int| 0 <= j < k ==> (#[trigger] log[j]).id@ != id,
        k < log.len() ==> log[k].id@ == id,
    ensures
        event_position(log, id) == (if k < log.len() {
            Some(k)
        } else {
            None::<int>
        }),
    decreases k,
{
    if k > 0 {
        let t = log.drop_first();
        assert forall|j: int| 0 <= j < k - 1 implies (#[trigger] t[j]).id@ != id by {
            assert(t[j] == log[j + 1]);
        }
        lemma_event_position(t, id, k - 1);
    }
}

/// Whether a session last active at `last_activity` has idled out by `now`.
pub open spec fn idle_expired(now: u64, last_activity: u64, timeout_ms: u64) -> bool {
    now > last_activity && now - last_activity > timeout_ms
}

impl<S> MemorySessionStore<S> {
    #[verifier::type_invariant]
    closed spec fn wf(self) -> bool {
        self.max_sessions >= 1
    }

    /// A store with the default limits: 10 000 sessions, 100 events each.
    pub fn new() -> (r: Self)
        ensures
            r@.sessions == Map::<Seq<char>, SessionRecord<S>>::empty(),
            r@.events == Map::<Seq<char>, Seq<StoredEvent>>::empty(),
            r@.max_sessions == DEFAULT_MAX_SESSIONS,
            r@.max_events == DEFAULT_MAX_EVENTS_PER_SESSION,
    {
        let r = MemorySessionStore {
            table: Table::new(),
            max_sessions: DEFAULT_MAX_SESSIONS,
            max_events_per_session: DEFAULT_MAX_EVENTS_PER_SESSION,
        };
        assert(r@.sessions =~= Map::<Seq<char>, SessionRecord<S>>::empty());
        assert(r@.events =~= Map::<Seq<char>, Seq<StoredEvent>>::empty());
        r
    }

    /// Cap the number of stored sessions (at least 1).
    pub fn with_max_sessions(self, max_sessions: usize) -> (r: Self)
        ensures
            r@.sessions == self@.sessions,
            r@.events == self@.events,
            r@.max_sessions == (if max_sessions >= 1 {
                max_sessions
            } else {
                1
            }),
            r@.max_events == self@.max_events,
    {
        let mut s = self;
        s.max_sessions = if max_sessions >= 1 {
            max_sessions
        } else {
            1
        };
        s
    }

    /// Cap the number of events kept per session for replay.
    pub fn with_max_events_per_session(self, max_events: usize) -> (r: Self)
        ensures
            r@.sessions == self@.sessions,
            r@.events == self@.events,
            r@.max_sessions == self@.max_sessions,
            r@.max_events == max_events,
    {
        proof {
            use_type_invariant(&self);
        }
        let mut s = self;
        s.max_events_per_session = max_events;
        s
    }

    /// The session `id`, if stored.
    pub fn get(&self, id: &str) -> (r: Option<&SessionRecord<S>>)
        ensures
            match r {
                Some(s) => self@.sessions.contains_key(id@) && self@.sessions[id@] == *s,
                None => !self@.sessions.contains_key(id@),
            },
    {
        match self.table.get(id) {
            Some(e) => Some(&e.record),
            None => None,
        }
    }

    /// The number of stored sessions.
    pub fn len(&self) -> (r: usize)
        ensures
            self@.sessions.dom().finite(),
            r == self@.sessions.len(),
    {
        let n = self.table.len();
        assert(self@.sessions.dom() =~= self.table@.dom());
        n
    }

    /// The events kept for session `id`, oldest first.
    pub fn events(&self, id: &str) -> (r: Option<&Vec<StoredEvent>>)
        ensures
            match r {
                Some(v) => self@.events.contains_key(id@) && self@.events[id@] == v@,
                None => !self@.events.contains_key(id@),
            },
    {
        match self.table.get(id) {
            Some(e) => Some(&e.events),
            None => None,
        }
    }

    /// The id of a session with the least recent activity, if any.
    fn least_recent(&self) -> (r: Option<String>)
        ensures
            match r {
                Some(k) => self@.sessions.contains_key(k@) && forall|j: Seq<char>|
                    #[trigger] self@.sessions.contains_key(j)
                        ==> self@.sessions[k@].last_activity <= self@.sessions[j].last_activity,
                None => self@.sessions.len() == 0,
            },
    {
        let keys = self.table.keys();
        let _ = self.table.len();
        assert(self@.sessions.dom() =~= self.table@.dom());
        if keys.len() == 0 {
            proof {
                assert(self@.sessions.dom() =~= Set::empty());
            }
            return None;
        }
        proof {
            assert(views(keys@).to_set().contains(views(keys@)[0]));
        }
        let mut best: usize = 0;
        let mut best_at: u64 = match self.get(keys[0].as_str()) {
            Some(rec) => rec.last_activity,
            None => 0,
        };
        let mut i: usize = 1;
        while i < keys.len()
            invariant
                1 <= i <= keys@.len(),
                best < keys@.len(),
                views(keys@).to_set() == self@.sessions.dom(),
                self@.sessions.contains_key(keys@[best as int]@),
                best_at == self@.sessions[keys@[best as int]@].last_activity,
                forall|j: int|
                    0 <= j < i ==> best_at <= self@.sessions[#[trigger] keys@[j]@].last_activity,
            decreases keys.len() - i,
        {
            proof {
                assert(views(keys@)[i as int] == keys@[i as int]@);
                assert(views(keys@).to_set().contains(views(keys@)[i as int]));
            }
            match self.get(keys[i].as_str()) {
                Some(rec) => {
                    if rec.last_activity < best_at {
                        best = i;
                        best_at = rec.last_activity;
                    }
                },
                None => {},
            }
            i = i + 1;
        }
        proof {
            assert forall|j: Seq<char>| #[trigger] self@.sessions.contains_key(j) implies best_at
                <= self@.sessions[j].last_activity by {
                assert(views(keys@).to_set().contains(j));
                let p = choose|p: int| 0 <= p < views(keys@).len() && views(keys@)[p] == j;
                assert(keys@[p]@ == j);
            }
        }
        Some(owned(keys[best].as_str()))
    }

    /// Forget session `id` and its events.
    pub fn destroy(&mut self, id: &str)
        ensures
            final(self)@ == (StoreView {
                sessions: old(self)@.sessions.remove(id@),
                events: old(self)@.events.remove(id@),
                ..old(self)@
            }),
    {
        proof {
            use_type_invariant(&*self);
        }
        let mut t = Table::new();
        std::mem::swap(&mut t, &mut self.table);
        let _ = t.remove(id);
        self.table = t;
        assert(self@.sessions =~= old(self)@.sessions.remove(id@));
        assert(self@.events =~= old(self)@.events.remove(id@));
    }

    /// Store session `session` under the new id `id`, active `now`, with an
    /// empty event log; while the store is full, the least recently active
    /// session is evicted first.
    pub fn create(&mut self, id: &str, session: S, now: u64)
        ensures
            final(self)@.sessions.contains_key(id@),
            final(self)@.sessions[id@] == (SessionRecord { last_activity: now, session }),
            final(self)@.events.contains_key(id@),
            final(self)@.events[id@] == Seq::<StoredEvent>::empty(),
            final(self)@.max_sessions == old(self)@.max_sessions,
            final(self)@.max_events == old(self)@.max_events,
            final(self)@.sessions.len() <= final(self)@.max_sessions,
            !old(self)@.sessions.contains_key(id@) ==> final(self)@.sessions.len() == (if old(self)@.sessions.len() < old(self)@.max_sessions {
                old(self)@.sessions.len() + 1
            } else {
                old(self)@.max_sessions as nat
            }),
            forall|k: Seq<char>|
                k != id@ && #[trigger] final(self)@.sessions.contains_key(k) ==> old(self)@.sessions.contains_key(k) && final(self)@.sessions[k] == old(self)@.sessions[k]
                    && final(self)@.events[k] == old(self)@.events[k],
            old(self)@.sessions.len() < old(self)@.max_sessions ==> forall|k: Seq<char>|
                k != id@ && #[trigger] old(self)@.sessions.contains_key(k) ==> final(self)@.sessions.contains_key(k),
            forall|e: Seq<char>, k: Seq<char>|
                e != id@ && k != id@ && #[trigger] old(self)@.sessions.contains_key(e) && !final(self)@.sessions.contains_key(e) && #[trigger] final(self)@.sessions.contains_key(k)
                    ==> old(self)@.sessions[e].last_activity <= old(self)@.sessions[k].last_activity,
    {
        proof {
            use_type_invariant(&*self);
        }
        let ghost start = self@;
        let mut n = self.len();
        while n >= self.max_sessions
            invariant
                self@.max_sessions == start.max_sessions,
                self@.max_events == start.max_events,
                self@.max_sessions >= 1,
                n == self@.sessions.len(),
                self@.sessions.dom().finite(),
                start.sessions.dom().finite(),
                n <= start.sessions.len(),
                start.sessions.len() >= start.max_sessions ==> n >= start.max_sessions - 1,
                start.sessions.len() < start.max_sessions ==> n == start.sessions.len(),
                forall|k: Seq<char>|
                    #[trigger] self@.sessions.contains_key(k) ==> start.sessions.contains_key(k)
                        && self@.sessions[k] == start.sessions[k] && self@.events[k]
                        == start.events[k],
                self@.sessions.dom() == self@.events.dom(),
                start.sessions.len() < start.max_sessions ==> forall|k: Seq<char>|
                    #[trigger] start.sessions.contains_key(k) ==> self@.sessions.contains_key(k),
                forall|e: Seq<char>, k: Seq<char>|
                    #[trigger] start.sessions.contains_key(e) && !self@.sessions.contains_key(e)
                        && #[trigger] self@.sessions.contains_key(k)
                        ==> start.sessions[e].last_activity <= start.sessions[k].last_activity,
            ensures
                n < self@.max_sessions,
            decreases n,
        {
            let oldest = match self.least_recent() {
                Some(k) => k,
                None => {
                    break;
                },
            };
            let ghost before = self@;
            self.destroy(oldest.as_str());
            proof {
                assert(self@.sessions.dom() =~= before.sessions.dom().remove(oldest@));
                assert(self@.sessions.len() == before.sessions.len() - 1);
                assert forall|e: Seq<char>, k: Seq<char>|
                    #[trigger] start.sessions.contains_key(e) && !self@.sessions.contains_key(e)
                        && #[trigger] self@.sessions.contains_key(k)
                        implies start.sessions[e].last_activity <= start.sessions[k].last_activity by {
                    if e == oldest@ {
                        assert(before.sessions.contains_key(k));
                    } else {
                        assert(!before.sessions.contains_key(e));
                        assert(before.sessions.contains_key(k));
                    }
                }
            }
            n = self.len();
        }
        let ghost mid = self@;
        assert(mid.sessions.len() < mid.max_sessions);
        proof {
            use_type_invariant(&*self);
        }
        let mut t = Table::new();
        std::mem::swap(&mut t, &mut self.table);
        t.insert(
            id,
            SessionEntry { record: SessionRecord { last_activity: now, session }, events: Vec::new() },
        );
        self.table = t;
        proof {
            assert(self@.sessions =~= mid.sessions.insert(id@, SessionRecord { last_activity: now, session }));
            assert(self@.events =~= mid.events.insert(id@, Seq::<StoredEvent>::empty()));
            if !mid.sessions.contains_key(id@) {
                assert(self@.sessions.dom() =~= mid.sessions.dom().insert(id@));
                assert(self@.sessions.len() == mid.sessions.len() + 1);
            } else {
                assert(self@.sessions.dom() =~= mid.sessions.dom());
            }
        }
    }

    /// Replace the stored copy of session `id`; a session destroyed in the
    /// meantime is not brought back.
    pub fn update(&mut self, id: &str, record: SessionRecord<S>)
        ensures
            old(self)@.sessions.contains_key(id@) ==> final(self)@ == (StoreView {
                sessions: old(self)@.sessions.insert(id@, record),
                ..old(self)@
            }),
            !old(self)@.sessions.contains_key(id@) ==> final(self)@ == old(self)@,
    {
        proof {
            use_type_invariant(&*self);
        }
        let mut t = Table::new();
        std::mem::swap(&mut t, &mut self.table);
        match t.remove(id) {
            Some(e) => {
                t.insert(id, SessionEntry { record, events: e.events });
                self.table = t;
                assert(self@.sessions =~= old(self)@.sessions.insert(id@, record));
                assert(self@.events =~= old(self)@.events);
            },
            None => {
                self.table = t;
                assert(self@.sessions =~= old(self)@.sessions);
                assert(self@.events =~= old(self)@.events);
            },
        }
    }

    /// Keep `event` for replay in session `id`'s log, dropping the oldest
    /// beyond the cap; an unknown session keeps nothing.
    pub fn store_event(&mut self, id: &str, event: StoredEvent)
        ensures
            old(self)@.events.contains_key(id@) ==> final(self)@ == (StoreView {
                events: old(self)@.events.insert(
                    id@,
                    ring_push(old(self)@.events[id@], event, old(self)@.max_events as nat),
                ),
                ..old(self)@
            }),
            !old(self)@.events.contains_key(id@) ==> final(self)@ == old(self)@,
    {
        if self.max_events_per_session == 0 {
            proof {
                if old(self)@.events.contains_key(id@) {
                    assert(old(self)@.events.insert(id@, old(self)@.events[id@]) =~= old(self)@.events);
                }
            }
            return ;
        }
        proof {
            use_type_invariant(&*self);
        }
        let mut t = Table::new();
        std::mem::swap(&mut t, &mut self.table);
        match t.remove(id) {
            Some(entry) => {
                let SessionEntry { record, events: log } = entry;
                let ghost l = log@.push(event);
                let mut log = log;
                log.push(event);
                let max = self.max_events_per_session;
                let kept = if log.len() > max {
                    let from = log.len() - max;
                    let mut k: Vec<StoredEvent> = Vec::new();
                    let mut i = from;
                    while i < log.len()
                        invariant
                            from <= i <= log@.len(),
                            k@ == log@.subrange(from as int, i as int),
                        decreases log.len() - i,
                    {
                        k.push(log[i].clone());
                        i = i + 1;
                        assert(k@ =~= log@.subrange(from as int, i as int));
                    }
                    k
                } else {
                    log
                };
                assert(kept@ == ring_push(old(self)@.events[id@], event, max as nat));
                t.insert(id, SessionEntry { record, events: kept });
                self.table = t;
                assert(self@.sessions =~= old(self)@.sessions);
                assert(self@.events =~= old(self)@.events.insert(
                    id@,
                    ring_push(old(self)@.events[id@], event, old(self)@.max_events as nat),
                ));
            },
            None => {
                self.table = t;
                assert(self@.sessions =~= old(self)@.sessions);
                assert(self@.events =~= old(self)@.events);
            },
        }
    }

    /// The events of session `id` after the one with id `last_event_id`;
    /// none for an unknown session or an id its log does not hold.
    pub fn replay_from(&self, id: &str, last_event_id: &str) -> (r: Vec<StoredEvent>)
        ensures
            self@.events.contains_key(id@) ==> r@ == spec_replay(self@.events[id@], last_event_id@),
            !self@.events.contains_key(id@) ==> r@.len() == 0,
    {
        let log = match self.events(id) {
            Some(log) => log,
            None => return Vec::new(),
        };
        let mut p: usize = 0;
        while p < log.len() && !str_eq(log[p].id.as_str(), last_event_id)
            invariant
                p <= log@.len(),
                forall|j: int| 0 <= j < p ==> (#[trigger] log@[j]).id@ != last_event_id@,
            decreases log.len() - p,
        {
            p = p + 1;
        }
        proof {
            lemma_event_position(log@, last_event_id@, p as int);
        }
        let mut r: Vec<StoredEvent> = Vec::new();
        if p < log.len() {
            let mut i = p + 1;
            while i < log.len()
                invariant
                    p + 1 <= i <= log@.len(),
                    r@ == log@.subrange(p + 1, i as int),
                decreases log.len() - i,
            {
                r.push(log[i].clone());
                i = i + 1;
                assert(r@ =~= log@.subrange(p + 1, i as int));
            }
        }
        r
    }
}

impl<S> MemorySessionStore<S> {
    /// Sweep the sessions idle longer than `timeout_ms` at `now`, with their
    /// events and their session state; the number swept.
    pub fn cleanup_expired(&mut self, now: u64, timeout_ms: u64, state: &mut SessionStateStore) -> (r: u64)
        ensures
            forall|k: Seq<char>|
                #[trigger] final(self)@.sessions.contains_key(k) <==> old(self)@.sessions.contains_key(k)
                    && !idle_expired(now, old(self)@.sessions[k].last_activity, timeout_ms),
            forall|k: Seq<char>|
                #[trigger] final(self)@.sessions.contains_key(k) ==> final(self)@.sessions[k] == old(self)@.sessions[k]
                    && final(self)@.events[k] == old(self)@.events[k],
            final(self)@.max_sessions == old(self)@.max_sessions,
            final(self)@.max_events == old(self)@.max_events,
            forall|k: Seq<char>|
                #[trigger] final(state)@.contains_key(k) <==> old(state)@.contains_key(k) && !(old(self)@.sessions.contains_key(k)
                    && idle_expired(now, old(self)@.sessions[k].last_activity, timeout_ms)),
            forall|k: Seq<char>|
                #[trigger] final(state)@.contains_key(k) ==> final(state)@[k] == old(state)@[k],
            r as int == old(self)@.sessions.len() - final(self)@.sessions.len(),
    {
        let keys = self.table.keys();
        let _ = self.len();
        let ghost start = self@;
        let ghost start_state = state@;
        let mut swept: u64 = 0;
        let mut i: usize = 0;
        while i < keys.len()
            invariant
                i <= keys@.len(),
                views(keys@).to_set() == start.sessions.dom(),
                views(keys@).no_duplicates(),
                start.sessions.dom().finite(),
                self@.sessions.dom().finite(),
                self@.max_sessions == start.max_sessions,
                self@.max_events == start.max_events,
                swept as int == start.sessions.len() - self@.sessions.len(),
                swept <= i,
                forall|k: Seq<char>|
                    #[trigger] self@.sessions.contains_key(k) <==> start.sessions.contains_key(k)
                        && !(views(keys@.subrange(0, i as int)).contains(k) && idle_expired(
                        now,
                        start.sessions[k].last_activity,
                        timeout_ms,
                    )),
                forall|k: Seq<char>|
                    #[trigger] self@.sessions.contains_key(k) ==> self@.sessions[k]
                        == start.sessions[k] && self@.events[k] == start.events[k],
                self@.sessions.dom() == self@.events.dom(),
                forall|k: Seq<char>|
                    #[trigger] state@.contains_key(k) <==> start_state.contains_key(k) && !(
                    views(keys@.subrange(0, i as int)).contains(k) && start.sessions.contains_key(k)
                        && idle_expired(now, start.sessions[k].last_activity, timeout_ms)),
                forall|k: Seq<char>| #[trigger] state@.contains_key(k) ==> state@[k] == start_state[k],
            decreases keys.len() - i,
        {
            let key = keys[i].as_str();
            proof {
                crate::text::lemma_views_prefix(keys@, i as int);
                assert(views(keys@)[i as int] == key@);
                assert(views(keys@).to_set().contains(key@));
                assert(!views(keys@.subrange(0, i as int)).contains(key@)) by {
                    if views(keys@.subrange(0, i as int)).contains(key@) {
                        let j = choose|j: int|
                            0 <= j < views(keys@.subrange(0, i as int)).len() && views(
                                keys@.subrange(0, i as int),
                            )[j] == key@;
                        assert(views(keys@)[j] == views(keys@)[i as int]);
                    }
                }
            }
            let expired = match self.get(key) {
                Some(rec) => now > rec.last_activity && now - rec.last_activity > timeout_ms,
                None => false,
            };
            proof {
                broadcast use vstd::seq_lib::group_seq_properties;

                assert(forall|k: Seq<char>|
                    #[trigger] views(keys@.subrange(0, i + 1)).contains(k) <==> views(
                        keys@.subrange(0, i as int),
                    ).contains(k) || k == key@);
            }
            if expired {
                let ghost before = self@;
                self.destroy(key);
                cleanup_session_state(state, key);
                proof {
                    assert(self@.sessions.dom() =~= before.sessions.dom().remove(key@));
                }
                swept = swept + 1;
            }
            i = i + 1;
        }
        assert(keys@.subrange(0, i as int) =~= keys@);
        swept
    }
}

/// Whether the request's `Accept` entry `entry` (parameters aside) allows
/// media type `mime`: `*/*`, the type itself, or `family/*`, case aside.
pub open spec fn entry_allows(entry: Seq<char>, mime: Seq<char>) -> bool {
    let e = trim(before(entry, ';'));
    let family = before(mime, '/');
    ||| e == "*/*"@
    ||| lower(e) == lower(mime)
    ||| (e.len() >= 2 && e.subrange(e.len() - 2, e.len() as int) == "/*"@ && lower(
        e.subrange(0, e.len() - 2),
    ) == lower(family))
}

/// Whether an `Accept` value allows `mime`; a missing header allows
/// anything.
pub open spec fn spec_accepts(accept: Option<Seq<char>>, mime: Seq<char>) -> bool {
    match accept {
        None => true,
        Some(a) => accept_allows(a, mime),
    }
}

/// Whether some entry of `Accept` value `a` allows `mime`.
pub open spec fn accept_allows(a: Seq<char>, mime: Seq<char>) -> bool {
    exists|i: int| 0 <= i < split(a, ',').len() && #[trigger] entry_allows(split(a, ',')[i], mime)
}

fn entry_allows_exec(entry: &Vec<char>, mime: &Vec<char>) -> (r: bool)
    ensures
        r == entry_allows(entry@, mime@),
{
    let e = trim_chars(&before_chars(entry, ';'));
    let family = before_chars(mime, '/');
    let any = chars_of("*/*");
    if chars_eq(&e, &any) {
        return true;
    }
    if chars_eq(&lower_chars(&e), &lower_chars(mime)) {
        return true;
    }
    if e.len() >= 2 && e[e.len() - 2] == '/' && e[e.len() - 1] == '*' {
        let head = slice_chars(&e, 0, e.len() - 2);
        let r = chars_eq(&lower_chars(&head), &lower_chars(&family));
        proof {
            reveal_strlit("/*");
            assert(e@.subrange(e@.len() - 2, e@.len() as int) =~= "/*"@);
        }
        return r;
    }
    proof {
        reveal_strlit("/*");
        if e@.len() >= 2 && e@.subrange(e@.len() - 2, e@.len() as int) == "/*"@ {
            assert(e@.subrange(e@.len() - 2, e@.len() as int)[0] == e@[e@.len() - 2]);
            assert(e@.subrange(e@.len() - 2, e@.len() as int)[1] == e@[e@.len() - 1]);
        }
    }
    false
}

/// Whether the request's `Accept` allows `mime`. A missing header allows
/// anything; `*/*` and `type/*` count.
pub fn accepts(headers: &HeaderMap, mime: &str) -> (r: bool)
    ensures
        r == spec_accepts(headers.spec_get("accept"@), mime@),
{
    let accept = match headers.get("accept") {
        Some(a) => a,
        None => return true,
    };
    let entries = split_chars(&chars_of(accept.as_str()), ',');
    let m = chars_of(mime);
    let mut i: usize = 0;
    while i < entries.len()
        invariant
            i <= entries@.len(),
            vec_views(entries@) == split(accept@, ','),
            headers.spec_get("accept"@) == Some(accept@),
            m@ == mime@,
            forall|j: int| 0 <= j < i ==> !entry_allows(#[trigger] split(accept@, ',')[j], mime@),
        decreases entries.len() - i,
    {
        assert(vec_views(entries@)[i as int] == entries@[i as int]@);
        if entry_allows_exec(&entries[i], &m) {
            assert(entry_allows(split(accept@, ',')[i as int], mime@));
            assert(i < split(accept@, ',').len());
            assert(accept_allows(accept@, mime@));
            return true;
        }
        i = i + 1;
    }
    false
}

/// The events replayed after event `i` of a log whose ids are distinct are
/// exactly those stored after it, in order.
pub proof fn law_replay_returns_what_followed(log: Seq<StoredEvent>, i: int)
    requires
        0 <= i < log.len(),
        forall|a: int, b: int|
            0 <= a < log.len() && 0 <= b < log.len() && a != b ==> (#[trigger] log[a]).id@ != (
            #[trigger] log[b]).id@,
    ensures
        spec_replay(log, log[i].id@) == log.subrange(i + 1, log.len() as int),
{
    lemma_event_position(log, log[i].id@, i);
}

/// A log never outgrows its cap, and the event just stored is its newest.
pub proof fn law_ring_keeps_the_newest(log: Seq<StoredEvent>, e: StoredEvent, max: nat)
    requires
        log.len() <= max,
        max > 0,
    ensures
        ring_push(log, e, max).len() <= max,
        ring_push(log, e, max).last() == e,
        log.len() < max ==> ring_push(log, e, max) == log.push(e),
{
}

/// The origin and size policy of a Streamable HTTP endpoint.
#[derive(Debug)]
pub struct StreamablePolicy {
    /// Origins allowed in addition to loopback ones.
    pub allowed_origins: Vec<String>,
    /// Whether requests without `Origin` are refused.
    pub require_origin: bool,
    /// Whether origin validation is off.
    pub allow_any_origin: bool,
    /// Maximum request body in bytes.
    pub max_body_size: usize,
}

/// The refusals a Streamable HTTP request gets before its body is read.
pub open spec fn spec_streamable_precheck(
    method: Seq<char>,
    headers: HeaderMap,
    p: StreamablePolicy,
) -> Result<(), ReplyView> {
    let origin = headers.spec_get("origin"@);
    if !(method == "GET"@ || method == "POST"@ || method == "DELETE"@ || method == "OPTIONS"@) {
        Err(method_not_allowed_reply(ALLOWED_METHODS@))
    } else if origin is None && p.require_origin && !p.allow_any_origin {
        Err(text_reply(403, "Origin header required"@))
    } else {
        match spec_check_origin(origin, views(p.allowed_origins@), true, p.allow_any_origin) {
            Err(reason) => Err(text_reply(403, reason)),
            Ok(()) => if method == "OPTIONS"@ {
                Err(empty_reply(204))
            } else if method == "POST"@ && !json_content_type(headers.spec_get("content-type"@)) {
                Err(text_reply(415, "Unsupported Media Type. Use Content-Type: application/json"@))
            } else if method == "POST"@ && declares_too_long(
                headers.spec_get("content-length"@),
                p.max_body_size,
            ) {
                Err(text_reply(413, "Request body too large"@))
            } else {
                Ok(())
            },
        }
    }
}

impl StreamablePolicy {
    /// Checks that need only the method and headers. Loopback origins are
    /// always allowed here.
    pub fn precheck(&self, method: &str, headers: &HeaderMap) -> (r: Result<(), Reply>)
        ensures
            match spec_streamable_precheck(method@, *headers, *self) {
                Ok(()) => r is Ok,
                Err(e) => r matches Err(rep) && rep@ == e,
            },
    {
        if !(str_eq(method, "GET") || str_eq(method, "POST") || str_eq(method, "DELETE")
            || str_eq(method, "OPTIONS")) {
            return Err(Reply::method_not_allowed(ALLOWED_METHODS));
        }
        let origin = match headers.get("origin") {
            Some(o) => Some(o.as_str()),
            None => None,
        };
        if origin.is_none() && self.require_origin && !self.allow_any_origin {
            return Err(Reply::text(403, "Origin header required"));
        }
        match check_origin(origin, self.allowed_origins.as_slice(), true, self.allow_any_origin) {
            Err(reason) => {
                return Err(Reply::text(403, reason.as_str()));
            },
            Ok(()) => {},
        }
        if str_eq(method, "OPTIONS") {
            return Err(Reply::empty(204));
        }
        if str_eq(method, "POST") {
            let ct = match headers.get("content-type") {
                Some(c) => Some(c.as_str()),
                None => None,
            };
            if !is_json_content_type(ct) {
                return Err(
                    Reply::text(415, "Unsupported Media Type. Use Content-Type: application/json"),
                );
            }
            match headers.get("content-length") {
                Some(v) => match parse_usize(v.as_str()) {
                    Some(n) => {
                        if n > self.max_body_size {
                            return Err(Reply::text(413, "Request body too large"));
                        }
                    },
                    None => {},
                },
                None => {},
            }
        }
        Ok(())
    }
}

/// Whether a session has expired at `now`: idle for longer than
/// `idle_timeout_ms`, or older than `session_timeout_ms`.
pub open spec fn spec_session_expired(
    now: u64,
    created_at: u64,
    last_activity: u64,
    idle_timeout_ms: u64,
    session_timeout_ms: u64,
) -> bool {
    idle_expired(now, last_activity, idle_timeout_ms) || (now > created_at && now - created_at
        > session_timeout_ms)
}

/// Whether a session has expired at `now`; see [`spec_session_expired`].
pub fn session_expired(
    now: u64,
    created_at: u64,
    last_activity: u64,
    idle_timeout_ms: u64,
    session_timeout_ms: u64,
) -> (r: bool)
    ensures
        r == spec_session_expired(now, created_at, last_activity, idle_timeout_ms, session_timeout_ms),
{
    (now > last_activity && now - last_activity > idle_timeout_ms) || (now > created_at && now
        - created_at > session_timeout_ms)
}

/// Why a request's `MCP-Protocol-Version` does not fit its session.
pub open spec fn version_mismatch_message(requested: Seq<char>, negotiated: Seq<char>) -> Seq<char> {
    "MCP-Protocol-Version '"@ + requested + "' does not match the session's '"@ + negotiated + "'"@
}

/// Hold a request's `MCP-Protocol-Version` to the version its session
/// negotiated: `400` when both are known and differ (white space aside).
pub fn check_session_version(requested: Option<&str>, negotiated: Option<&str>) -> (r: Result<(), Reply>)
    ensures
        match (requested, negotiated) {
            (Some(q), Some(n)) => if trim(q@) != n@ {
                r matches Err(rep) && rep@ == text_reply(400, version_mismatch_message(q@, n@))
            } else {
                r is Ok
            },
            _ => r is Ok,
        },
{
    match (requested, negotiated) {
        (Some(q), Some(n)) => {
            let t = trim_chars(&chars_of(q));
            if !chars_eq(&t, &chars_of(n)) {
                let mut m = owned("MCP-Protocol-Version '");
                push_str(&mut m, q);
                push_str(&mut m, "' does not match the session's '");
                push_str(&mut m, n);
                push_str(&mut m, "'");
                Err(Reply::text(400, m.as_str()))
            } else {
                Ok(())
            }
        },
        _ => Ok(()),
    }
}

/// Why a POST is refused before its body is parsed, if it is: an `Accept`
/// that does not allow JSON (`406`), or an unsupported
/// `MCP-Protocol-Version` (`400`).
pub open spec fn post_header_problem(headers: HeaderMap) -> Option<ReplyView> {
    if !spec_accepts(headers.spec_get("accept"@), "application/json"@) {
        Some(text_reply(406, "Accept must allow application/json"@))
    } else {
        match headers.spec_get(PROTOCOL_VERSION_HEADER@) {
            Some(v) => if stable_versions().contains(trim(v)) {
                None
            } else {
                Some(text_reply(400, unsupported_version_message(v)))
            },
            None => None,
        }
    }
}

/// Hold a POST's headers to what Streamable HTTP asks; on success, the
/// protocol version its header names (white space trimmed), if any.
pub fn check_post_headers(headers: &HeaderMap) -> (r: Result<Option<String>, Reply>)
    ensures
        match post_header_problem(*headers) {
            Some(e) => r matches Err(rep) && rep@ == e,
            None => r matches Ok(v) && match headers.spec_get(PROTOCOL_VERSION_HEADER@) {
                Some(h) => v matches Some(s) && s@ == trim(h),
                None => v is None,
            },
        },
{
    if !accepts(headers, "application/json") {
        return Err(Reply::text(406, "Accept must allow application/json"));
    }
    let value = match headers.get(PROTOCOL_VERSION_HEADER) {
        Some(v) => Some(v.as_str()),
        None => None,
    };
    match protocol_version_from_header(value) {
        Ok(v) => Ok(v),
        Err(reason) => Err(Reply::text(400, reason.as_str())),
    }
}

/// `initialize` opens a session, so a request naming one is refused
/// rather than guessed at.
pub fn check_initialize(headers: &HeaderMap) -> (r: Result<(), Reply>)
    ensures
        headers.spec_get("mcp-session-id"@) is Some ==> (r matches Err(rep) && rep@ == text_reply(
            400,
            "initialize must not carry Mcp-Session-Id"@,
        )),
        headers.spec_get("mcp-session-id"@) is None ==> r is Ok,
{
    if headers.contains_key("mcp-session-id") {
        Err(Reply::text(400, "initialize must not carry Mcp-Session-Id"))
    } else {
        Ok(())
    }
}

/// Whether a POSTed message must belong to a live session: with sessions
/// on, every message but a `ping` that names no session (a `ping` may
/// come before initialization).
pub fn needs_session(enable_sessions: bool, method: Option<&str>, headers: &HeaderMap) -> (r: bool)
    ensures
        r == (enable_sessions && !(match method {
            Some(m) => m@ == "ping"@,
            None => false,
        } && headers.spec_get("mcp-session-id"@) is None)),
{
    let ping = match method {
        Some(m) => str_eq(m, "ping"),
        None => false,
    };
    enable_sessions && !(ping && !headers.contains_key("mcp-session-id"))
}

/// What the store holds of a session a request names.
#[derive(Debug)]
pub struct SessionFacts {
    /// When the session was created (Unix milliseconds).
    pub created_at: u64,
    /// When it was last active (Unix milliseconds).
    pub last_activity: u64,
    /// Whether it still accepts requests (it is active, not terminated).
    pub accepts_requests: bool,
    /// The protocol version negotiated for it.
    pub protocol_version: Option<String>,
}

/// What was found for the session a request names.
#[derive(Debug)]
pub enum SessionLookup {
    /// The request has no `Mcp-Session-Id`.
    NoHeader,
    /// Its `Mcp-Session-Id` is not a well-formed session id.
    Malformed,
    /// The store has no such session.
    Unknown,
    /// The store failed.
    StoreFailed,
    /// The store holds it.
    Found(SessionFacts),
}

/// What becomes of a request that must belong to a session.
#[derive(Debug)]
pub enum SessionVerdict {
    /// Refuse it with this reply.
    Refuse(Reply),
    /// Forget the session (expired, or no longer accepting requests) and
    /// refuse with this reply, which tells the client to start a new one.
    End(Reply),
    /// Serve it, the session now active.
    Proceed,
}

/// Hold a request to the session it names: `400` without a well-formed
/// `Mcp-Session-Id`, `404` for an unknown, ended or expired session (the
/// transport's signal to start a new one; an ended or expired one is
/// forgotten), `500` when the store fails, and `400` when
/// `MCP-Protocol-Version` differs from the session's.
pub fn judge_session(
    lookup: &SessionLookup,
    now: u64,
    idle_timeout_ms: u64,
    session_timeout_ms: u64,
    requested_version: Option<&str>,
) -> (r: SessionVerdict)
    ensures
        match lookup {
            SessionLookup::NoHeader => r matches SessionVerdict::Refuse(rep) && rep@ == text_reply(
                400,
                "Mcp-Session-Id header required"@,
            ),
            SessionLookup::Malformed => r matches SessionVerdict::Refuse(rep) && rep@ == text_reply(
                400,
                "Invalid Mcp-Session-Id header"@,
            ),
            SessionLookup::Unknown => r matches SessionVerdict::Refuse(rep) && rep@ == text_reply(
                404,
                "Session not found"@,
            ),
            SessionLookup::StoreFailed => r matches SessionVerdict::Refuse(rep) && rep@
                == text_reply(500, "Session store error"@),
            SessionLookup::Found(f) => if !f.accepts_requests || spec_session_expired(
                now,
                f.created_at,
                f.last_activity,
                idle_timeout_ms,
                session_timeout_ms,
            ) {
                r matches SessionVerdict::End(rep) && rep@ == text_reply(404, "Session not found"@)
            } else {
                match (requested_version, f.protocol_version) {
                    (Some(q), Some(n)) => if trim(q@) != n@ {
                        r matches SessionVerdict::Refuse(rep) && rep@ == text_reply(
                            400,
                            version_mismatch_message(q@, n@),
                        )
                    } else {
                        r is Proceed
                    },
                    _ => r is Proceed,
                }
            },
        },
{
    match lookup {
        SessionLookup::NoHeader => SessionVerdict::Refuse(
            Reply::text(400, "Mcp-Session-Id header required"),
        ),
        SessionLookup::Malformed => SessionVerdict::Refuse(
            Reply::text(400, "Invalid Mcp-Session-Id header"),
        ),
        SessionLookup::Unknown => SessionVerdict::Refuse(Reply::text(404, "Session not found")),
        SessionLookup::StoreFailed => SessionVerdict::Refuse(Reply::text(500, "Session store error")),
        SessionLookup::Found(f) => {
            if !f.accepts_requests || session_expired(
                now,
                f.created_at,
                f.last_activity,
                idle_timeout_ms,
                session_timeout_ms,
            ) {
                return SessionVerdict::End(Reply::text(404, "Session not found"));
            }
            let negotiated = match &f.protocol_version {
                Some(n) => Some(n.as_str()),
                None => None,
            };
            match check_session_version(requested_version, negotiated) {
                Err(rep) => SessionVerdict::Refuse(rep),
                Ok(()) => SessionVerdict::Proceed,
            }
        },
    }
}

/// Why a GET (an SSE stream) or DELETE (ending a session) is refused
/// before its session is looked up, if it is: without sessions there is no
/// stream and nothing to end (`405`), and a GET must accept
/// `text/event-stream` (`406`).
pub fn check_session_method(method: &str, enable_sessions: bool, headers: &HeaderMap) -> (r: Result<
    (),
    Reply,
>)
    requires
        method@ == "GET"@ || method@ == "DELETE"@,
    ensures
        !enable_sessions ==> (r matches Err(rep) && rep@ == method_not_allowed_reply(
            "POST, OPTIONS"@,
        )),
        enable_sessions && method@ == "GET"@ && !spec_accepts(
            headers.spec_get("accept"@),
            "text/event-stream"@,
        ) ==> (r matches Err(rep) && rep@ == text_reply(406, "Accept must allow text/event-stream"@)),
        enable_sessions && !(method@ == "GET"@ && !spec_accepts(
            headers.spec_get("accept"@),
            "text/event-stream"@,
        )) ==> r is Ok,
{
    if !enable_sessions {
        return Err(Reply::method_not_allowed("POST, OPTIONS"));
    }
    if str_eq(method, "GET") && !accepts(headers, "text/event-stream") {
        return Err(Reply::text(406, "Accept must allow text/event-stream"));
    }
    Ok(())
}

/// The view of an event's type.
pub open spec fn type_view(e: StoredEvent) -> Option<Seq<char>> {
    match e.event_type {
        Some(t) => Some(t@),
        None => None,
    }
}

/// The lines of the events a GET replays: each event that carries data,
/// in order (one with empty data is not sent).
pub open spec fn replay_lines(evs: Seq<StoredEvent>) -> Seq<Seq<char>>
    decreases evs.len(),
{
    if evs.len() == 0 {
        Seq::empty()
    } else {
        let e = evs[0];
        (if e.data@.len() > 0 {
            event_lines(e.id@, type_view(e), e.data@)
        } else {
            Seq::empty()
        }) + replay_lines(evs.subrange(1, evs.len() as int))
    }
}

/// The data of the events that carry any, in order.
pub open spec fn sent_data(evs: Seq<StoredEvent>) -> Seq<Seq<char>>
    decreases evs.len(),
{
    if evs.len() == 0 {
        Seq::empty()
    } else {
        (if evs[0].data@.len() > 0 {
            seq![evs[0].data@]
        } else {
            Seq::empty()
        }) + sent_data(evs.subrange(1, evs.len() as int))
    }
}

/// The body of a GET that resumes after `Last-Event-ID`: the opening
/// (`connected`, then the reconnection delay), then each replayed event
/// that carries data.
pub fn replay_body(retry_interval_ms: u64, events: &[StoredEvent]) -> (r: String)
    ensures
        r@ == lines_text(preamble(retry_interval_ms) + replay_lines(events@)),
{
    let mut body = preamble_text(retry_interval_ms);
    let ghost all = events@;
    let mut i: usize = 0;
    proof {
        assert(all.subrange(0, 0) =~= Seq::<StoredEvent>::empty());
        lemma_replay_lines_prefix(all, 0);
        assert(preamble(retry_interval_ms) + Seq::<Seq<char>>::empty() =~= preamble(
            retry_interval_ms,
        ));
    }
    while i < events.len()
        invariant
            i <= all.len(),
            all == events@,
            body@ == lines_text(preamble(retry_interval_ms) + replay_lines(all.subrange(0, i as int))),
        decreases events.len() - i,
    {
        let e = &events[i];
        let ghost before_lines = preamble(retry_interval_ms) + replay_lines(all.subrange(0, i as int));
        if !e.data.as_str().is_empty() {
            let t = match &e.event_type {
                Some(t) => Some(t.as_str()),
                None => None,
            };
            push_event(&mut body, e.id.as_str(), t, e.data.as_str());
            proof {
                lemma_lines_text_append(before_lines, event_lines(e.id@, type_view(*e), e.data@));
            }
        }
        proof {
            lemma_replay_lines_step(all, i as int);
            let added: Seq<Seq<char>> = if e.data@.len() > 0 {
                event_lines(e.id@, type_view(*e), e.data@)
            } else {
                Seq::empty()
            };
            assert(preamble(retry_interval_ms) + replay_lines(all.subrange(0, i + 1))
                =~= before_lines + added);
            if e.data@.len() == 0 {
                assert(before_lines + added =~= before_lines);
            }
        }
        i = i + 1;
    }
    proof {
        assert(all.subrange(0, i as int) =~= all);
    }
    body
}

/// `replay_lines` of a prefix one longer.
proof fn lemma_replay_lines_step(evs: Seq<StoredEvent>, i: int)
    requires
        0 <= i < evs.len(),
    ensures
        replay_lines(evs.subrange(0, i + 1)) == replay_lines(evs.subrange(0, i)) + (if evs[i].data@.len()
            > 0 {
            event_lines(evs[i].id@, type_view(evs[i]), evs[i].data@)
        } else {
            Seq::empty()
        }),
    decreases i,
{
    let a = evs.subrange(0, i + 1);
    let b = evs.subrange(0, i);
    if i == 0 {
        assert(a.subrange(1, a.len() as int) =~= Seq::<StoredEvent>::empty());
        assert(b =~= Seq::<StoredEvent>::empty());
        let x: Seq<Seq<char>> = if evs[0].data@.len() > 0 {
            event_lines(evs[0].id@, type_view(evs[0]), evs[0].data@)
        } else {
            Seq::empty()
        };
        assert(x + Seq::<Seq<char>>::empty() =~= x);
        assert(Seq::<Seq<char>>::empty() + x =~= x);
    } else {
        let rest = evs.subrange(1, evs.len() as int);
        lemma_replay_lines_step(rest, i - 1);
        assert(a.subrange(1, a.len() as int) =~= rest.subrange(0, i));
        assert(b.subrange(1, b.len() as int) =~= rest.subrange(0, i - 1));
        assert(rest[i - 1] == evs[i]);
        assert(a[0] == evs[0] && b[0] == evs[0]);
        let h: Seq<Seq<char>> = if evs[0].data@.len() > 0 {
            event_lines(evs[0].id@, type_view(evs[0]), evs[0].data@)
        } else {
            Seq::empty()
        };
        let x: Seq<Seq<char>> = if evs[i].data@.len() > 0 {
            event_lines(evs[i].id@, type_view(evs[i]), evs[i].data@)
        } else {
            Seq::empty()
        };
        assert(h + (replay_lines(rest.subrange(0, i - 1)) + x) =~= (h + replay_lines(
            rest.subrange(0, i - 1),
        )) + x);
    }
}

/// `replay_lines` of the empty prefix.
proof fn lemma_replay_lines_prefix(evs: Seq<StoredEvent>, i: int)
    requires
        i == 0,
    ensures
        replay_lines(evs.subrange(0, i)) == Seq::<Seq<char>>::empty(),
{
    assert(evs.subrange(0, i) =~= Seq::<StoredEvent>::empty());
}

/// The body of a GET without `Last-Event-ID`: the opening, then an event
/// carrying only the id a client resumes from, when there is one.
pub fn anchor_body(retry_interval_ms: u64, anchor: Option<&str>) -> (r: String)
    ensures
        r@ == lines_text(
            preamble(retry_interval_ms) + match anchor {
                Some(a) => event_lines(a@, None, Seq::empty()),
                None => Seq::empty(),
            },
        ),
{
    let mut body = preamble_text(retry_interval_ms);
    match anchor {
        Some(a) => {
            push_event(&mut body, a, None, "");
            proof {
                reveal_strlit("");
                assert(""@ =~= Seq::<char>::empty());
                lemma_lines_text_append(
                    preamble(retry_interval_ms),
                    event_lines(a@, None, Seq::empty()),
                );
            }
        },
        None => {
            assert(preamble(retry_interval_ms) + Seq::<Seq<char>>::empty() =~= preamble(
                retry_interval_ms,
            ));
        },
    }
    body
}

/// Whether an event can be written as an SSE event and read back: no CR
/// anywhere, and no LF in its id or type (its data may span lines).
pub open spec fn streamable_event(e: StoredEvent) -> bool {
    &&& free_of(e.id@, '\r') && free_of(e.id@, '\n')
    &&& free_of(e.data@, '\r')
    &&& match e.event_type {
        Some(t) => free_of(t@, '\r') && free_of(t@, '\n'),
        None => true,
    }
}

/// The lines of replayed events hold no CR and no LF.
proof fn lemma_replay_lines_plain(evs: Seq<StoredEvent>)
    requires
        forall|i: int| 0 <= i < evs.len() ==> streamable_event(#[trigger] evs[i]),
    ensures
        lines_free_of(replay_lines(evs), '\n'),
        lines_free_of(replay_lines(evs), '\r'),
    decreases evs.len(),
{
    if evs.len() > 0 {
        let rest = evs.subrange(1, evs.len() as int);
        assert forall|i: int| 0 <= i < rest.len() implies streamable_event(#[trigger] rest[i]) by {
            assert(rest[i] == evs[i + 1]);
        }
        lemma_replay_lines_plain(rest);
        let e = evs[0];
        assert(streamable_event(e));
        if e.data@.len() > 0 {
            lemma_event_lines_plain(e.id@, type_view(e), e.data@);
        }
        let h: Seq<Seq<char>> = if e.data@.len() > 0 {
            event_lines(e.id@, type_view(e), e.data@)
        } else {
            Seq::empty()
        };
        let all = h + replay_lines(rest);
        assert forall|i: int| 0 <= i < all.len() implies free_of(#[trigger] all[i], '\n') && free_of(
            all[i],
            '\r',
        ) by {
            if i < h.len() {
                assert(all[i] == h[i]);
            } else {
                assert(all[i] == replay_lines(rest)[i - h.len()]);
            }
        }
    }
}

/// A field line is free of what its name and value are free of, when the
/// character is neither a colon nor a space.
proof fn lemma_field_line_free(name: Seq<char>, v: Seq<char>, c: char)
    requires
        free_of(name, c),
        free_of(v, c),
        c != ':',
        c != ' ',
    ensures
        free_of(field_line(name, v), c),
{
    let l = field_line(name, v);
    assert forall|i: int| 0 <= i < l.len() implies l[i] != c by {
        if i < name.len() {
            assert(l[i] == name[i]);
        } else if i >= name.len() + 2 {
            assert(l[i] == v[i - name.len() - 2]);
        }
    }
}

/// The lines of one event hold no CR and no LF.
proof fn lemma_event_lines_plain(id: Seq<char>, t: Option<Seq<char>>, d: Seq<char>)
    requires
        free_of(id, '\r') && free_of(id, '\n'),
        free_of(d, '\r'),
        match t {
            Some(x) => free_of(x, '\r') && free_of(x, '\n'),
            None => true,
        },
    ensures
        lines_free_of(event_lines(id, t, d), '\n'),
        lines_free_of(event_lines(id, t, d), '\r'),
{
    reveal_strlit("id");
    reveal_strlit("event");
    reveal_strlit("data");
    lemma_field_line_free("id"@, id, '\n');
    lemma_field_line_free("id"@, id, '\r');
    match t {
        Some(x) => {
            lemma_field_line_free("event"@, x, '\n');
            lemma_field_line_free("event"@, x, '\r');
        },
        None => {},
    }
    lemma_split_pieces(d, '\n', '\r');
    let parts = split(d, '\n');
    let dl = data_lines(d);
    assert forall|i: int| 0 <= i < dl.len() implies free_of(#[trigger] dl[i], '\n') && free_of(
        dl[i],
        '\r',
    ) by {
        assert(dl[i] == field_line("data"@, parts[i]));
        assert(free_of(parts[i], '\n') && free_of(parts[i], '\r'));
        lemma_field_line_free("data"@, parts[i], '\n');
        lemma_field_line_free("data"@, parts[i], '\r');
    }
    let all = event_lines(id, t, d);
    assert forall|i: int| 0 <= i < all.len() implies free_of(#[trigger] all[i], '\n') && free_of(
        all[i],
        '\r',
    ) by {
        let head: Seq<Seq<char>> = match t {
            Some(x) => seq![field_line("id"@, id), field_line("event"@, x)],
            None => seq![field_line("id"@, id)],
        };
        assert(all == head + dl + seq![Seq::<char>::empty()]);
        if i < head.len() {
            assert(all[i] == head[i]);
        } else if i < head.len() + dl.len() {
            assert(all[i] == dl[i - head.len()]);
        } else {
            assert(all[i] == Seq::<char>::empty());
        }
    }
}

/// Decimal digits hold no CR and no LF.
proof fn lemma_decimal_plain(n: nat)
    ensures
        free_of(decimal(n), '\r') && free_of(decimal(n), '\n'),
    decreases n,
{
    if n >= 10 {
        lemma_decimal_plain(n / 10);
        let d = decimal(n);
        assert forall|i: int| 0 <= i < d.len() implies d[i] != '\r' && d[i] != '\n' by {
            if i < d.len() - 1 {
                assert(d[i] == decimal(n / 10)[i]);
            }
        }
    }
}

/// The replayed events are read back: each that carries data.
proof fn lemma_replay_read_back(evs: Seq<StoredEvent>, rest: Seq<Seq<char>>)
    ensures
        event_data(replay_lines(evs) + rest, None) == sent_data(evs) + event_data(rest, None),
    decreases evs.len(),
{
    if evs.len() == 0 {
        assert(replay_lines(evs) + rest =~= rest);
        assert(sent_data(evs) + event_data(rest, None) =~= event_data(rest, None));
    } else {
        let e = evs[0];
        let tail = evs.subrange(1, evs.len() as int);
        lemma_replay_read_back(tail, rest);
        if e.data@.len() > 0 {
            let el = event_lines(e.id@, type_view(e), e.data@);
            assert(replay_lines(evs) + rest =~= el + (replay_lines(tail) + rest));
            lemma_event_read_back(e.id@, type_view(e), e.data@, replay_lines(tail) + rest);
            assert(sent_data(evs) + event_data(rest, None) =~= seq![e.data@] + (sent_data(tail)
                + event_data(rest, None)));
        } else {
            assert(replay_lines(evs) + rest =~= replay_lines(tail) + rest);
            assert(sent_data(evs) =~= sent_data(tail));
        }
    }
}

/// What a GET streams is what a client reads: parsing the body of a
/// resumed stream gives the data of each replayed event that carries any,
/// in order, and nothing else.
pub proof fn law_clients_read_back_the_replayed_events(retry_ms: u64, evs: Seq<StoredEvent>)
    requires
        forall|i: int| 0 <= i < evs.len() ==> streamable_event(#[trigger] evs[i]),
    ensures
        stream_events(lines_text(preamble(retry_ms) + replay_lines(evs))) == sent_data(evs),
{
    reveal_strlit("connected");
    reveal_strlit("retry");
    let e = Seq::<char>::empty();
    let p = preamble(retry_ms);
    let lines = p + replay_lines(evs);
    lemma_replay_lines_plain(evs);
    lemma_decimal_plain(retry_ms as nat);
    lemma_field_line_free("retry"@, decimal(retry_ms as nat), '\n');
    lemma_field_line_free("retry"@, decimal(retry_ms as nat), '\r');
    lemma_field_line_free(Seq::empty(), "connected"@, '\n');
    lemma_field_line_free(Seq::empty(), "connected"@, '\r');
    assert forall|i: int| 0 <= i < lines.len() implies free_of(#[trigger] lines[i], '\n') && free_of(
        lines[i],
        '\r',
    ) by {
        if i < 4 {
            assert(lines[i] == p[i]);
        } else {
            assert(lines[i] == replay_lines(evs)[i - 4]);
        }
    }
    lemma_stream_of_lines(lines);
    let three = seq![e, e, e];
    assert(lines + three =~= p + (replay_lines(evs) + three));
    lemma_preamble_read_back(retry_ms, replay_lines(evs) + three);
    lemma_replay_read_back(evs, three);
    lemma_three_blanks();
    assert(sent_data(evs) + Seq::<Seq<char>>::empty() =~= sent_data(evs));
}

} // verus!
