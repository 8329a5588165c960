//! Persistent key-value state in a Durable Object, per namespace id.
use vstd::prelude::*;

use crate::text::owned;
use crate::wasm_server::durable_objects::{store_error_text, DoCall};

verus! {

/// State store backed by a Durable Object namespace; each namespace id
/// (a user, a conversation) is an instance of its own.
#[derive(Debug)]
pub struct DurableObjectStateStore {
    namespace: String,
}

/// Error of a state store operation.
#[derive(Debug)]
pub enum StateStoreError {
    /// No environment has been set.
    NoEnvironment,
    /// Worker or Durable Object communication error, as reported.
    Worker(String),
    /// Serialisation error.
    Serialization(String),
    /// Deserialisation error.
    Deserialization(String),
}

/// How a state store error reads.
pub open spec fn state_store_message(e: StateStoreError) -> Seq<char> {
    match e {
        StateStoreError::NoEnvironment => "No environment set"@,
        StateStoreError::Worker(m) => "Worker error: "@ + m@,
        StateStoreError::Serialization(m) => "Serialization error: "@ + m@,
        StateStoreError::Deserialization(m) => "Deserialization error: "@ + m@,
    }
}

impl StateStoreError {
    /// The error as text.
    pub fn to_string(&self) -> (r: String)
        ensures
            r@ == state_store_message(*self),
    {
        store_error_text(
            match self {
                StateStoreError::NoEnvironment => None,
                StateStoreError::Worker(m) => Some(("Worker error: ", m.as_str())),
                StateStoreError::Serialization(m) => Some(("Serialization error: ", m.as_str())),
                StateStoreError::Deserialization(m) => Some(("Deserialization error: ", m.as_str())),
            },
        )
    }
}

/// Request for the value of `key`.
#[derive(Debug)]
pub struct GetRequest {
    /// Key to read.
    pub key: String,
}

/// The value read, if any.
#[derive(Debug)]
pub struct GetResponse<T> {
    /// The value, if found.
    pub value: Option<T>,
}

/// Request to set `key` to `value`.
#[derive(Debug)]
pub struct SetRequest<T> {
    /// Key to set.
    pub key: String,
    /// Value to store.
    pub value: T,
}

/// Request to delete `key`.
#[derive(Debug)]
pub struct DeleteRequest {
    /// Key to delete.
    pub key: String,
}

/// Whether a value was deleted.
#[derive(Debug)]
pub struct DeleteResponse {
    /// Whether a value was deleted.
    pub deleted: bool,
}

/// Request to list the keys, optionally those with a prefix.
#[derive(Debug)]
pub struct ListRequest {
    /// Prefix the keys must start with.
    pub prefix: Option<String>,
}

/// The keys listed.
#[derive(Debug)]
pub struct ListResponse {
    /// The keys.
    pub keys: Vec<String>,
}

impl DurableObjectStateStore {
    /// A store on namespace `namespace`.
    pub fn new(namespace: &str) -> (r: Self)
        ensures
            r.namespace_view() == namespace@,
    {
        DurableObjectStateStore { namespace: owned(namespace) }
    }

    /// The namespace binding, as a value.
    pub closed spec fn namespace_view(self) -> Seq<char> {
        self.namespace@
    }

    /// The namespace binding.
    pub fn namespace(&self) -> (r: &str)
        ensures
            r@ == self.namespace_view(),
    {
        self.namespace.as_str()
    }

    /// The command reading `key` in `namespace_id`.
    pub fn get_call(&self, namespace_id: &str, key: &str) -> (r: DoCall<GetRequest>)
        ensures
            r.key@ == namespace_id@,
            r.path@ == "/state/get"@,
            r.body.key@ == key@,
    {
        DoCall { key: owned(namespace_id), path: "/state/get", body: GetRequest { key: owned(key) } }
    }

    /// The command setting `key` to `value` (JSON) in `namespace_id`.
    pub fn set_call<T>(&self, namespace_id: &str, key: &str, value: T) -> (r: DoCall<SetRequest<T>>)
        ensures
            r.key@ == namespace_id@,
            r.path@ == "/state/set"@,
            r.body.key@ == key@,
            r.body.value == value,
    {
        DoCall {
            key: owned(namespace_id),
            path: "/state/set",
            body: SetRequest { key: owned(key), value },
        }
    }

    /// The command deleting `key` in `namespace_id`.
    pub fn delete_call(&self, namespace_id: &str, key: &str) -> (r: DoCall<DeleteRequest>)
        ensures
            r.key@ == namespace_id@,
            r.path@ == "/state/delete"@,
            r.body.key@ == key@,
    {
        DoCall {
            key: owned(namespace_id),
            path: "/state/delete",
            body: DeleteRequest { key: owned(key) },
        }
    }

    /// The command listing the keys of `namespace_id` with `prefix`.
    pub fn list_call(&self, namespace_id: &str, prefix: Option<&str>) -> (r: DoCall<ListRequest>)
        ensures
            r.key@ == namespace_id@,
            r.path@ == "/state/list"@,
            match prefix {
                Some(p) => r.body.prefix matches Some(q) && q@ == p@,
                None => r.body.prefix is None,
            },
    {
        DoCall {
            key: owned(namespace_id),
            path: "/state/list",
            body: ListRequest {
                prefix: match prefix {
                    Some(p) => Some(owned(p)),
                    None => None,
                },
            },
        }
    }

    /// The command clearing `namespace_id`.
    pub fn clear_call(&self, namespace_id: &str) -> (r: DoCall<()>)
        ensures
            r.key@ == namespace_id@,
            r.path@ == "/state/clear"@,
    {
        DoCall { key: owned(namespace_id), path: "/state/clear", body: () }
    }
}

} // verus!
