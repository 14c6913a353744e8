//! Junction: a small service core that resolves named "outputs" (slugs) to
//! pre-configured external commands and maps their results to HTTP responses.
//!
//! The library holds the verified logic: configuration resolution and lookup,
//! construction of the child process's search PATH, assembly of the exact
//! argv for a spawn, mapping of execution results to HTTP replies, and the
//! JSON rendering of the resolved configuration. Process spawning, the HTTP
//! listener and configuration file parsing live outside the library and hand
//! it plain values.

use vstd::prelude::*;

pub mod config;
pub mod env_path;
pub mod exec;
pub mod json;
pub mod response;
mod text;

pub use config::Config;
pub use config::OutputConfig;
pub use config::ResolvedConfig;
pub use config::ResolvedConfigError;

verus! {

/// The library's version string.
pub fn version() -> (r: &'static str)
    ensures
        r@ == "0.1.0"@,
{
    "0.1.0"
}

} // verus!
