//! The WASI (Preview 2) MCP client: its transport and the runtime it runs on.
use vstd::prelude::*;

pub mod http;
pub mod transport;

verus! {

/// WASI runtime information.
#[derive(Debug, Clone)]
pub struct WasiRuntime {
    /// Name of the WASI runtime, if detectable.
    pub name: Option<String>,
    /// WASI Preview version (always "2").
    pub preview_version: &'static str,
}

impl WasiRuntime {
    /// Information about the current WASI runtime. Runtime detection is
    /// not standardised in WASI, so no name is reported.
    pub fn detect() -> (r: Self)
        ensures
            r.name is None,
            r.preview_version@ == "2"@,
    {
        WasiRuntime { name: None, preview_version: "2" }
    }
}

impl Default for WasiRuntime {
    fn default() -> (r: Self)
        ensures
            r.name is None,
            r.preview_version@ == "2"@,
    {
        WasiRuntime::detect()
    }
}

} // verus!
