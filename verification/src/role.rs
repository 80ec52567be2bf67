//! The node's role and the options that go with it.

use crate::primitives::PeerId;
use vstd::prelude::*;

verus! {

/// What part the node plays in the network; fixed for the life of the process.
#[derive(Clone, Debug, PartialEq, Eq)]
pub enum NodeRole {
    /// Produces blocks and votes on finality, reachable through the listed sentries.
    Authority { sentry_nodes: Vec<PeerId> },
    /// Shields an authority: relays for it and holds no keys of its own.
    Sentry,
    /// Imports and executes every block.
    Full,
    /// Follows headers and finality proofs only.
    Light,
}

impl NodeRole {
    /// The node authors blocks and signs votes.
    pub fn is_authority(&self) -> (r: bool)
        ensures
            r == (self is Authority),
    {
        match self {
            NodeRole::Authority { .. } => true,
            _ => false,
        }
    }

    /// The node is an authority or stands in front of one.
    pub fn is_network_authority(&self) -> (r: bool)
        ensures
            r == (self is Authority || self is Sentry),
    {
        match self {
            NodeRole::Authority { .. } => true,
            NodeRole::Sentry => true,
            _ => false,
        }
    }

    /// The node follows headers only.
    pub fn is_light(&self) -> (r: bool)
        ensures
            r == (self is Light),
    {
        match self {
            NodeRole::Light => true,
            _ => false,
        }
    }
}

/// How blocks are validated on import.
#[derive(Clone, Copy, Debug, PartialEq, Eq, Structural)]
pub enum ImportMode {
    /// Bodies are required and executed.
    Full,
    /// Headers alone are checked; nothing is executed.
    Light,
}

/// Blocks between two forced requests for a justification, unless configured.
pub const DEFAULT_JUSTIFICATION_PERIOD: u32 = 512;

/// Length in milliseconds of one gossip step of a voting round, unless configured.
pub const DEFAULT_GOSSIP_ROUND_MS: u64 = 333;

/// The options a node is started with.
#[derive(Clone, Debug, PartialEq, Eq)]
pub struct Configuration {
    pub role: NodeRole,
    /// Author even while no peer is connected.
    pub force_authoring: bool,
    /// Run the finality observer in place of the voter.
    pub disable_grandpa: bool,
    /// Blocks between two forced requests for a justification.
    pub justification_period: u32,
    /// Length of one gossip step of a voting round.
    pub gossip_round_duration_ms: u64,
    pub node_name: String,
    /// Republish node state through the external bridge.
    pub bridge: bool,
}

impl Configuration {
    /// The configuration of a node of the given role with every option at its default.
    pub fn new(role: NodeRole, node_name: String) -> (c: Configuration)
        ensures
            c.role == role,
            c.node_name == node_name,
            !c.force_authoring,
            !c.disable_grandpa,
            !c.bridge,
            c.justification_period == DEFAULT_JUSTIFICATION_PERIOD,
            c.gossip_round_duration_ms == DEFAULT_GOSSIP_ROUND_MS,
    {
        Configuration {
            role,
            force_authoring: false,
            disable_grandpa: false,
            justification_period: DEFAULT_JUSTIFICATION_PERIOD,
            gossip_round_duration_ms: DEFAULT_GOSSIP_ROUND_MS,
            node_name,
            bridge: false,
        }
    }
}

} // verus!
