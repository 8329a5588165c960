//! Streamable HTTP sessions persisted in a Durable Object.
use vstd::prelude::*;

use crate::text::owned;
use crate::wasm_server::durable_objects::{store_error_text, DoCall};

verus! {

/// Session store backed by a Durable Object namespace; each session lives
/// in the instance named by its id.
#[derive(Debug)]
pub struct DurableObjectSessionStore {
    namespace: String,
}

/// Error of a session store operation.
#[derive(Debug)]
pub enum DoSessionError {
    /// Worker or Durable Object communication error, as reported.
    Worker(String),
    /// Serialisation error.
    Serialization(String),
    /// Deserialisation error.
    Deserialization(String),
}

/// How a session store error reads.
pub open spec fn session_error_message(e: DoSessionError) -> Seq<char> {
    match e {
        DoSessionError::Worker(m) => "Worker error: "@ + m@,
        DoSessionError::Serialization(m) => "Serialization error: "@ + m@,
        DoSessionError::Deserialization(m) => "Deserialization error: "@ + m@,
    }
}

impl DoSessionError {
    /// The error as text.
    pub fn to_string(&self) -> (r: String)
        ensures
            r@ == session_error_message(*self),
    {
        store_error_text(
            match self {
                DoSessionError::Worker(m) => Some(("Worker error: ", m.as_str())),
                DoSessionError::Serialization(m) => Some(("Serialization error: ", m.as_str())),
                DoSessionError::Deserialization(m) => Some(("Deserialization error: ", m.as_str())),
            },
        )
    }
}

/// Request for a session (the route names it; no body fields).
#[derive(Debug)]
pub struct GetRequest;

/// Request to replay the events after `last_event_id`.
#[derive(Debug)]
pub struct ReplayRequest {
    /// The last event the client saw.
    pub last_event_id: String,
}

impl DurableObjectSessionStore {
    /// A store on namespace `namespace`.
    pub fn new(namespace: &str) -> (r: Self)
        ensures
            r.namespace_view() == namespace@,
    {
        DurableObjectSessionStore { namespace: owned(namespace) }
    }

    /// The namespace binding, as a value.
    pub closed spec fn namespace_view(self) -> Seq<char> {
        self.namespace@
    }

    /// The namespace binding.
    pub fn namespace(&self) -> (r: &str)
        ensures
            r@ == self.namespace_view(),
    {
        self.namespace.as_str()
    }

    /// The command reading session `id`.
    pub fn get_call(&self, id: &str) -> (r: DoCall<GetRequest>)
        ensures
            r.key@ == id@,
            r.path@ == "/session/get"@,
    {
        DoCall { key: owned(id), path: "/session/get", body: GetRequest }
    }

    /// The command replaying session `id`'s events after `last_event_id`.
    pub fn replay_call(&self, id: &str, last_event_id: &str) -> (r: DoCall<ReplayRequest>)
        ensures
            r.key@ == id@,
            r.path@ == "/event/replay"@,
            r.body.last_event_id@ == last_event_id@,
    {
        DoCall {
            key: owned(id),
            path: "/event/replay",
            body: ReplayRequest { last_event_id: owned(last_event_id) },
        }
    }

    /// The command destroying session `id`.
    pub fn destroy_call(&self, id: &str) -> (r: DoCall<()>)
        ensures
            r.key@ == id@,
            r.path@ == "/session/destroy"@,
    {
        DoCall { key: owned(id), path: "/session/destroy", body: () }
    }
}

} // verus!
