//! Project composition types: module imports, per-sandbox network
//! configuration and proxy settings.

use vstd::prelude::*;

use crate::config::PortPair;

verus! {

/// How an imported component is referred to locally.
pub struct ComponentMapping {
    /// The local alias for the component, if renamed.
    pub as_: Option<String>,
}

/// A module import: component names, each with an optional mapping. Keys
/// are unique when the configuration is well-formed.
pub struct Module(pub Vec<(String, Option<ComponentMapping>)>);

impl Module {
    /// Whether the component names are pairwise distinct.
    pub open spec fn wf(self) -> bool {
        forall|i: int, j: int|
            0 <= i < self.0@.len() && 0 <= j < self.0@.len() && i != j
                ==> (#[trigger] self.0@[i]).0@ != (#[trigger] self.0@[j]).0@
    }

    /// Number of imported components.
    pub fn len(&self) -> (r: usize)
        ensures
            r == self.0@.len(),
    {
        self.0.len()
    }
}

/// How far a sandbox in a group may reach over the network.
#[derive(Clone, Copy, PartialEq, Eq, Structural, Debug)]
pub enum SandboxNetworkReach {
    /// Only within its own subnet.
    Local,
    /// Other groups and any non-private address.
    Public,
    /// Any address.
    Any,
    /// No other sandboxes at all.
    Sealed,
}

/// Network configuration of one sandbox.
pub struct SandboxNetwork {
    /// The reach, when configured.
    pub reach: Option<SandboxNetworkReach>,
}

impl SandboxNetwork {
    /// The reach used when a sandbox configures none: local.
    pub fn default_reach() -> (r: Option<SandboxNetworkReach>)
        ensures
            r == Some(SandboxNetworkReach::Local),
    {
        Some(SandboxNetworkReach::Local)
    }
}

/// Proxy configuration of a sandbox.
pub enum Proxy {
    /// Plain HTTP proxying.
    Legacy {
        /// Routing prefix.
        prefix: Option<String>,
        /// Keep-alive duration text.
        keep_alive: Option<String>,
        /// Maximum concurrent connections.
        concurrency: Option<u32>,
        /// The exposed port mapping.
        port: Option<PortPair>,
    },
    /// Handler-based proxying.
    Handler {
        /// The handler's language.
        language: String,
        /// Routing prefix.
        prefix: Option<String>,
    },
}

} // verus!
