//! Configuration for the wasm engine collaborator.
//!
//! The engine itself (component model, epoch-based preemption, the background
//! ticker) lives outside the core: this module only fixes the configuration
//! values the core hands to it.

use vstd::prelude::*;

verus! {

/// Relies on std::path::PathBuf as an opaque owned filesystem path; the core
/// only carries it through to the loader.
#[verifier::external_type_specification]
#[verifier::external_body]
pub struct ExPathBuf(std::path::PathBuf);

/// Where a wasm component is loaded from.
pub enum ComponentSource {
    /// Raw component bytes.
    Bytes(Vec<u8>),
    /// A component file on disk.
    FilePath(std::path::PathBuf),
    /// A named registry entry. Resolution is not implemented yet; loaders
    /// fail on this variant.
    Registry(String),
}

/// Configuration of the wasm engine wrapper.
///
/// `epoch_interval_ms` is the period of the background ticker that advances
/// the engine's preemption epoch.
#[derive(Clone, Copy, Debug, PartialEq, Eq, Structural)]
pub struct EngineConfig {
    epoch_interval_ms: u64,
}

impl Default for EngineConfig {
    /// The default configuration: a 1000 ms epoch tick.
    fn default() -> (r: Self)
        ensures
            r.interval_ms() == 1000,
    {
        Self { epoch_interval_ms: 1000 }
    }
}

impl EngineConfig {
    /// The configured epoch tick period, in milliseconds.
    pub closed spec fn interval_ms(self) -> u64 {
        self.epoch_interval_ms
    }

    /// Set the epoch tick period, in milliseconds.
    pub fn epoch_interval_ms(self, ms: u64) -> (r: Self)
        ensures
            r.interval_ms() == ms,
    {
        Self { epoch_interval_ms: ms }
    }

    /// The configured epoch tick period, for the engine builder.
    pub fn interval(&self) -> (r: u64)
        ensures
            r == self.interval_ms(),
    {
        self.epoch_interval_ms
    }
}

} // verus!
