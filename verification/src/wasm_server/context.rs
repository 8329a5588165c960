//! Request ids of WASM requests.
use vstd::prelude::*;

use crate::text::{hex, hex_string, owned, push_str};

verus! {

/// A request id: `req-`, the timestamp in hex, `-`, the random part in hex.
pub open spec fn spec_request_id(timestamp_ms: u64, random: u64) -> Seq<char> {
    "req-"@ + hex(timestamp_ms as nat) + "-"@ + hex(random as nat)
}

/// A request id from the wall-clock time (Unix milliseconds) and a random
/// number: `req-{timestamp_hex}-{random_hex}`.
pub fn generate_request_id(timestamp_ms: u64, random: u64) -> (r: String)
    ensures
        r@ == spec_request_id(timestamp_ms, random),
{
    let mut r = owned("req-");
    let t = hex_string(timestamp_ms);
    push_str(&mut r, t.as_str());
    push_str(&mut r, "-");
    let x = hex_string(random);
    push_str(&mut r, x.as_str());
    r
}

} // verus!
