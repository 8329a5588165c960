//! Session state, log levels and the messages a handler's context writes.
//!
//! Session state is kept per session id, each session holding JSON values
//! (as their text) by key. A session's state lives until it is cleaned up:
//! end it through its [`SessionStateGuard`] or call
//! [`cleanup_session_state`] when the session disconnects.
use vstd::prelude::*;

use crate::table::Table;
use crate::text::{decimal, decimal_string, owned, push_str};

verus! {

/// Error of a state operation.
#[derive(Debug, Clone, PartialEq, Eq)]
pub enum StateError {
    /// No session id is set on the context.
    NoSessionId,
    /// Failed to serialise the value.
    SerializationFailed(String),
    /// Failed to deserialise the value.
    DeserializationFailed(String),
}

/// How a state error reads.
pub open spec fn state_error_message(e: StateError) -> Seq<char> {
    match e {
        StateError::NoSessionId => "no session ID set on context"@,
        StateError::SerializationFailed(m) => "serialization failed: "@ + m@,
        StateError::DeserializationFailed(m) => "deserialization failed: "@ + m@,
    }
}

impl StateError {
    /// The error as text.
    pub fn to_string(&self) -> (r: String)
        ensures
            r@ == state_error_message(*self),
    {
        match self {
            StateError::NoSessionId => owned("no session ID set on context"),
            StateError::SerializationFailed(m) => {
                let mut r = owned("serialization failed: ");
                push_str(&mut r, m.as_str());
                r
            },
            StateError::DeserializationFailed(m) => {
                let mut r = owned("deserialization failed: ");
                push_str(&mut r, m.as_str());
                r
            },
        }
    }
}

/// Log level for console logging, from least to most severe.
#[derive(Debug, Clone, Copy, PartialEq, Eq, PartialOrd, Ord)]
pub enum LogLevel {
    /// Debug level.
    Debug,
    /// Info level.
    Info,
    /// Warning level.
    Warning,
    /// Error level.
    Error,
}

/// The label a log line starts with.
pub open spec fn level_label(level: LogLevel) -> Seq<char> {
    match level {
        LogLevel::Debug => "DEBUG"@,
        LogLevel::Info => "INFO"@,
        LogLevel::Warning => "WARN"@,
        LogLevel::Error => "ERROR"@,
    }
}

/// Severity rank of a level: debug lowest, error highest.
pub open spec fn level_rank(level: LogLevel) -> nat {
    match level {
        LogLevel::Debug => 0,
        LogLevel::Info => 1,
        LogLevel::Warning => 2,
        LogLevel::Error => 3,
    }
}

impl LogLevel {
    /// The label a log line of this level starts with.
    pub fn label(self) -> (r: &'static str)
        ensures
            r@ == level_label(self),
    {
        match self {
            LogLevel::Debug => "DEBUG",
            LogLevel::Info => "INFO",
            LogLevel::Warning => "WARN",
            LogLevel::Error => "ERROR",
        }
    }

    /// Severity rank: debug 0, info 1, warning 2, error 3.
    pub fn rank(self) -> (r: u8)
        ensures
            r == level_rank(self),
    {
        match self {
            LogLevel::Debug => 0,
            LogLevel::Info => 1,
            LogLevel::Warning => 2,
            LogLevel::Error => 3,
        }
    }
}

/// A log line: the request id in brackets, then the message.
pub open spec fn spec_log_message(request_id: Seq<char>, message: Seq<char>) -> Seq<char> {
    "["@ + request_id + "] "@ + message
}

/// The text a context logs for `message`, prefixed by its request id.
pub fn log_message(request_id: &str, message: &str) -> (r: String)
    ensures
        r@ == spec_log_message(request_id@, message@),
{
    let mut r = owned("[");
    push_str(&mut r, request_id);
    push_str(&mut r, "] ");
    push_str(&mut r, message);
    r
}

/// A progress report: percentage, then `current/total`, then the message.
pub open spec fn spec_progress_message(
    percentage: u32,
    current: u64,
    total: u64,
    message: Option<Seq<char>>,
) -> Seq<char> {
    let head = "Progress: "@ + decimal(percentage as nat) + "% ("@ + decimal(current as nat) + "/"@
        + decimal(total as nat) + ")"@;
    match message {
        Some(m) => head + " - "@ + m,
        None => head,
    }
}

/// The text of a progress report, given the percentage done.
pub fn progress_message(percentage: u32, current: u64, total: u64, message: Option<&str>) -> (r:
    String)
    ensures
        r@ == spec_progress_message(
            percentage,
            current,
            total,
            match message {
                Some(m) => Some(m@),
                None => None,
            },
        ),
{
    let mut r = owned("Progress: ");
    let p = decimal_string(percentage as u64);
    push_str(&mut r, p.as_str());
    push_str(&mut r, "% (");
    let c = decimal_string(current);
    push_str(&mut r, c.as_str());
    push_str(&mut r, "/");
    let t = decimal_string(total);
    push_str(&mut r, t.as_str());
    push_str(&mut r, ")");
    match message {
        Some(m) => {
            push_str(&mut r, " - ");
            push_str(&mut r, m);
        },
        None => {},
    }
    r
}

/// Session state: per session, JSON values (as text) by key.
pub type StateView = Map<Seq<char>, Map<Seq<char>, Seq<char>>>;

/// The state of one session, empty when it has none.
pub open spec fn session_entries(m: StateView, session: Seq<char>) -> Map<Seq<char>, Seq<char>> {
    if m.contains_key(session) {
        m[session]
    } else {
        Map::empty()
    }
}

/// The value stored under `key` for `session`.
pub open spec fn stored(m: StateView, session: Seq<char>, key: Seq<char>) -> Option<Seq<char>> {
    if m.contains_key(session) && m[session].contains_key(key) {
        Some(m[session][key])
    } else {
        None
    }
}

/// The state after `session` stores `value` under `key`.
pub open spec fn spec_store(m: StateView, session: Seq<char>, key: Seq<char>, value: Seq<char>) -> StateView {
    m.insert(session, session_entries(m, session).insert(key, value))
}

/// Session state of a worker.
#[derive(Debug)]
pub struct SessionStateStore {
    sessions: Table<Table<String>>,
}

/// The view of one session's table.
pub open spec fn entries_view(t: Table<String>) -> Map<Seq<char>, Seq<char>> {
    t@.map_values(|v: String| v@)
}

impl View for SessionStateStore {
    type V = StateView;

    closed spec fn view(&self) -> StateView {
        self.sessions@.map_values(|t: Table<String>| entries_view(t))
    }
}

impl SessionStateStore {
    /// No session has state.
    pub fn new() -> (r: Self)
        ensures
            r@ == StateView::empty(),
    {
        let r = SessionStateStore { sessions: Table::new() };
        assert(r@ =~= StateView::empty());
        r
    }

    /// The value stored under `key` for the session, as JSON text: an error
    /// without a session, `None` when nothing is stored.
    pub fn try_get_state(&self, session_id: Option<&str>, key: &str) -> (r: Result<
        Option<String>,
        StateError,
    >)
        ensures
            match session_id {
                None => r == Err::<Option<String>, StateError>(StateError::NoSessionId),
                Some(s) => r matches Ok(v) && match stored(self@, s@, key@) {
                    Some(x) => v matches Some(y) && y@ == x,
                    None => v is None,
                },
            },
    {
        let s = match session_id {
            Some(s) => s,
            None => return Err(StateError::NoSessionId),
        };
        match self.sessions.get(s) {
            Some(t) => match t.get(key) {
                Some(v) => Ok(Some(owned(v.as_str()))),
                None => Ok(None),
            },
            None => Ok(None),
        }
    }

    /// The value stored under `key` for the session, if any.
    pub fn get_state(&self, session_id: Option<&str>, key: &str) -> (r: Option<String>)
        ensures
            match session_id {
                None => r is None,
                Some(s) => match stored(self@, s@, key@) {
                    Some(x) => r matches Some(y) && y@ == x,
                    None => r is None,
                },
            },
    {
        match self.try_get_state(session_id, key) {
            Ok(v) => v,
            Err(_) => None,
        }
    }

    /// Store `value` (JSON text) under `key` for the session; an error
    /// without a session.
    pub fn try_set_state(&mut self, session_id: Option<&str>, key: &str, value: &str) -> (r: Result<
        (),
        StateError,
    >)
        ensures
            match session_id {
                None => r == Err::<(), StateError>(StateError::NoSessionId) && final(self)@ == old(
                    self,
                )@,
                Some(s) => r is Ok && final(self)@ == spec_store(old(self)@, s@, key@, value@),
            },
    {
        let s = match session_id {
            Some(s) => s,
            None => return Err(StateError::NoSessionId),
        };
        let ghost base = session_entries(old(self)@, s@);
        let mut t = match self.sessions.remove(s) {
            Some(t) => t,
            None => {
                let t: Table<String> = Table::new();
                assert(entries_view(t) =~= base);
                t
            },
        };
        assert(entries_view(t) =~= base);
        let ghost before = entries_view(t);
        t.insert(key, owned(value));
        assert(entries_view(t) =~= before.insert(key@, value@));
        self.sessions.insert(s, t);
        assert(self@ =~= spec_store(old(self)@, s@, key@, value@));
        Ok(())
    }

    /// Store `value` under `key`; `false` without a session.
    pub fn set_state(&mut self, session_id: Option<&str>, key: &str, value: &str) -> (r: bool)
        ensures
            r == session_id is Some,
            match session_id {
                None => final(self)@ == old(self)@,
                Some(s) => final(self)@ == spec_store(old(self)@, s@, key@, value@),
            },
    {
        self.try_set_state(session_id, key, value).is_ok()
    }

    /// Remove the value under `key`: `true` when the session has state
    /// (whether or not the key was there).
    pub fn remove_state(&mut self, session_id: Option<&str>, key: &str) -> (r: bool)
        ensures
            r == (session_id matches Some(s) && old(self)@.contains_key(s@)),
            r ==> (session_id matches Some(s) && final(self)@ == old(self)@.insert(
                s@,
                old(self)@[s@].remove(key@),
            )),
            !r ==> final(self)@ == old(self)@,
    {
        let s = match session_id {
            Some(s) => s,
            None => return false,
        };
        match self.sessions.remove(s) {
            Some(t) => {
                let mut t = t;
                let ghost before = entries_view(t);
                let _ = t.remove(key);
                assert(entries_view(t) =~= before.remove(key@));
                self.sessions.insert(s, t);
                assert(self@ =~= old(self)@.insert(s@, old(self)@[s@].remove(key@)));
                true
            },
            None => {
                assert(self@ =~= old(self)@);
                false
            },
        }
    }

    /// Empty the session's state (it keeps an empty entry).
    pub fn clear_state(&mut self, session_id: Option<&str>)
        ensures
            match session_id {
                Some(s) => if old(self)@.contains_key(s@) {
                    final(self)@ == old(self)@.insert(s@, Map::empty())
                } else {
                    final(self)@ == old(self)@
                },
                None => final(self)@ == old(self)@,
            },
    {
        let s = match session_id {
            Some(s) => s,
            None => return ,
        };
        if self.sessions.contains_key(s) {
            let t: Table<String> = Table::new();
            assert(entries_view(t) =~= Map::empty());
            self.sessions.insert(s, t);
            assert(self@ =~= old(self)@.insert(s@, Map::empty()));
        }
    }

    /// Whether a value is stored under `key` for the session.
    pub fn has_state(&self, session_id: Option<&str>, key: &str) -> (r: bool)
        ensures
            r == (session_id matches Some(s) && stored(self@, s@, key@) is Some),
    {
        match session_id {
            Some(s) => match self.sessions.get(s) {
                Some(t) => t.contains_key(key),
                None => false,
            },
            None => false,
        }
    }

    /// Forget every session's state.
    pub fn clear_all(&mut self)
        ensures
            final(self)@ == StateView::empty(),
    {
        self.sessions = Table::new();
        assert(self@ =~= StateView::empty());
    }
}

/// Drop a session's state when it ends.
pub fn cleanup_session_state(store: &mut SessionStateStore, session_id: &str)
    ensures
        final(store)@ == old(store)@.remove(session_id@),
{
    let _ = store.sessions.remove(session_id);
    assert(store@ =~= old(store)@.remove(session_id@));
}

/// The number of sessions with state.
pub fn active_sessions_count(store: &SessionStateStore) -> (r: usize)
    ensures
        store@.dom().finite(),
        r == store@.dom().len(),
{
    let n = store.sessions.len();
    assert(store@.dom() =~= store.sessions@.dom());
    n
}

/// The guard of a session's state; ending it drops that state.
#[derive(Debug)]
pub struct SessionStateGuard {
    session_id: String,
}

impl SessionStateGuard {
    /// The session id, as a value.
    pub closed spec fn id(self) -> Seq<char> {
        self.session_id@
    }

    /// A guard for `session_id`.
    pub fn new(session_id: &str) -> (r: Self)
        ensures
            r.id() == session_id@,
    {
        SessionStateGuard { session_id: owned(session_id) }
    }

    /// The session this guard manages.
    pub fn session_id(&self) -> (r: &str)
        ensures
            r@ == self.id(),
    {
        self.session_id.as_str()
    }

    /// End the session: its state is dropped from `store`.
    pub fn end(self, store: &mut SessionStateStore)
        ensures
            final(store)@ == old(store)@.remove(self.id()),
    {
        cleanup_session_state(store, self.session_id.as_str());
    }
}

/// What a session stores it reads back, and storing touches no other key of
/// that session nor any other session.
pub proof fn law_state_read_after_write(
    m: StateView,
    session: Seq<char>,
    key: Seq<char>,
    value: Seq<char>,
    other_session: Seq<char>,
    other_key: Seq<char>,
)
    requires
        other_session != session || other_key != key,
    ensures
        stored(spec_store(m, session, key, value), session, key) == Some(value),
        stored(spec_store(m, session, key, value), other_session, other_key) == stored(
            m,
            other_session,
            other_key,
        ),
{
}

/// Once a session is cleaned up nothing is stored for it, the other
/// sessions keep what they had, and one session fewer is active if it was.
/// (Every store's sessions are finitely many: see
/// [`active_sessions_count`].)
pub proof fn law_cleanup_forgets_only_that_session(
    m: StateView,
    session: Seq<char>,
    other: Seq<char>,
    key: Seq<char>,
)
    requires
        other != session,
        m.dom().finite(),
    ensures
        stored(m.remove(session), session, key) is None,
        stored(m.remove(session), other, key) == stored(m, other, key),
        m.remove(session).dom().len() == if m.dom().contains(session) {
            m.dom().len() - 1
        } else {
            m.dom().len() as int
        },
        m.remove(session).dom().contains(other) == m.dom().contains(other),
{
    assert(m.remove(session).dom() =~= m.dom().remove(session));
}

} // verus!
