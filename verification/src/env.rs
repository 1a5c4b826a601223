//! A description of the runtime environment.

use vstd::prelude::*;

verus! {

/// The runtime environment: crate and toolchain versions, operating
/// system, architecture and number of logical CPUs.
#[derive(Debug, Clone)]
pub struct RuntimeEnv {
    /// The version of this crate.
    pub langchain_version: String,
    /// The Rust toolchain version the crate was compiled with.
    pub rust_version: String,
    /// The operating system name (e.g. `linux`).
    pub os: String,
    /// The CPU architecture (e.g. `x86_64`).
    pub arch: String,
    /// The number of logical CPU cores available.
    pub cpu_count: usize,
}

} // verus!
