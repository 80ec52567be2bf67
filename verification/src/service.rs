//! The service assembler: from a node's configuration to the components it runs.
//!
//! Assembling is pure composition. The plan names the components in the order in
//! which each may rely on the ones before it, and carries the settings that the
//! role decides. Building and starting them is the caller's work.

use crate::primitives::PeerId;
use crate::role::{Configuration, ImportMode, NodeRole};
use vstd::prelude::*;

verus! {

/// The runtime a service is assembled for. The two differ in nothing else.
#[derive(Clone, Copy, Debug, PartialEq, Eq, Structural)]
pub enum ChainFamily {
    Ipci,
    Robonomics,
}

/// The collaborators that the caller was able to provide.
#[derive(Clone, Copy, Debug, PartialEq, Eq, Structural)]
pub struct Collaborators {
    /// A fork-choice rule over the backend.
    pub select_chain: bool,
    /// A fetcher of remote data, which only a light node needs.
    pub fetcher: bool,
    /// The external bridge came up.
    pub bridge: bool,
}

/// A part of the running node.
#[derive(Clone, Copy, Debug, PartialEq, Eq, Structural)]
pub enum Component {
    Client,
    SelectChain,
    TransactionPool,
    ImportQueue,
    /// Serves finality proofs to light nodes.
    FinalityProofProvider,
    BlockProduction,
    FinalityVoter,
    /// Tracks the justifications of others without voting.
    FinalityObserver,
    /// Checks justifications against the tracked authority sets, executing nothing.
    JustificationVerifier,
    AuthorityDiscovery,
    Bridge,
}

impl Component {
    /// The whole service goes down when this component's task fails.
    pub open spec fn essential(self) -> bool {
        self is BlockProduction || self is FinalityVoter
    }

    /// The whole service goes down when this component's task fails.
    pub fn is_essential(self) -> (r: bool)
        ensures
            r == self.essential(),
    {
        match self {
            Component::BlockProduction => true,
            Component::FinalityVoter => true,
            _ => false,
        }
    }
}

/// Settings of the block-production engine.
#[derive(Clone, Copy, Debug, PartialEq, Eq, Structural)]
pub struct AuthoringSetup {
    pub force_authoring: bool,
}

/// Settings of the finality voter.
#[derive(Clone, Debug, PartialEq, Eq)]
pub struct VoterConfig {
    pub gossip_duration_ms: u64,
    pub justification_period: u32,
    pub name: Option<String>,
    pub observer_enabled: bool,
    /// The voter signs with the node's keystore.
    pub keystore: bool,
    pub is_authority: bool,
}

/// How the node takes part in finality.
#[derive(Clone, Debug, PartialEq, Eq)]
pub enum FinalitySetup {
    Voter(VoterConfig),
    Observer,
    LightVerifier,
}

/// In which capacity authority discovery runs.
#[derive(Clone, Copy, Debug, PartialEq, Eq, Structural)]
pub enum DiscoveryRole {
    /// Publishes its own address and resolves the others.
    Authority,
    /// Resolves only.
    Sentry,
}

/// Settings of authority discovery.
#[derive(Clone, Debug, PartialEq, Eq)]
pub struct DiscoverySetup {
    pub role: DiscoveryRole,
    pub sentries: Vec<PeerId>,
}

/// Why no service can be assembled.
#[derive(Clone, Copy, Debug, PartialEq, Eq, Structural)]
pub enum ServiceError {
    /// No fork-choice rule was provided.
    SelectChainRequired,
    /// A light node was given no fetcher.
    FetcherRequired,
}

impl ServiceError {
    /// The error in words.
    pub fn message(&self) -> (s: String)
        ensures
            self is SelectChainRequired ==> s@ == "Best chain selection strategy (SelectChain) is not provided."@,
            self is FetcherRequired ==> s@ == "Trying to start light transaction pool without active fetcher"@,
    {
        match self {
            ServiceError::SelectChainRequired => "Best chain selection strategy (SelectChain) is not provided.".to_owned(),
            ServiceError::FetcherRequired => "Trying to start light transaction pool without active fetcher".to_owned(),
        }
    }
}

/// What to build, in order, and how to set it up.
#[derive(Clone, Debug, PartialEq, Eq)]
pub struct ServicePlan {
    pub family: ChainFamily,
    pub mode: ImportMode,
    /// The components, each after those it relies on.
    pub components: Vec<Component>,
    pub authoring: Option<AuthoringSetup>,
    pub finality: FinalitySetup,
    pub discovery: Option<DiscoverySetup>,
    /// The keystore is loaded.
    pub keystore: bool,
}

/// The components of a full node.
pub open spec fn full_components(role: NodeRole, disable_grandpa: bool, bridge: bool) -> Seq<Component> {
    seq![
        Component::Client,
        Component::SelectChain,
        Component::TransactionPool,
        Component::ImportQueue,
        Component::FinalityProofProvider,
    ] + (if role is Authority {
        seq![Component::BlockProduction]
    } else {
        Seq::<Component>::empty()
    }) + seq![
        if disable_grandpa {
            Component::FinalityObserver
        } else {
            Component::FinalityVoter
        },
    ] + (if role is Authority || role is Sentry {
        seq![Component::AuthorityDiscovery]
    } else {
        Seq::<Component>::empty()
    }) + (if bridge {
        seq![Component::Bridge]
    } else {
        Seq::<Component>::empty()
    })
}

/// The components of a light node.
pub open spec fn light_components() -> Seq<Component> {
    seq![
        Component::Client,
        Component::SelectChain,
        Component::TransactionPool,
        Component::ImportQueue,
        Component::FinalityProofProvider,
        Component::JustificationVerifier,
    ]
}

/// The finality setup of a full node is the one that the configuration asks for.
pub open spec fn full_finality(config: Configuration, setup: FinalitySetup) -> bool {
    if config.disable_grandpa {
        setup is Observer
    } else {
        &&& setup is Voter
        &&& setup->Voter_0.gossip_duration_ms == config.gossip_round_duration_ms
        &&& setup->Voter_0.justification_period == config.justification_period
        &&& setup->Voter_0.name is Some
        &&& setup->Voter_0.name->Some_0@ == config.node_name@
        &&& !setup->Voter_0.observer_enabled
        &&& setup->Voter_0.keystore == (config.role is Authority)
        &&& setup->Voter_0.is_authority == (config.role is Authority || config.role is Sentry)
    }
}

/// Authority discovery runs for authorities and sentries only, and an authority
/// brings its sentries.
pub open spec fn full_discovery(role: NodeRole, setup: Option<DiscoverySetup>) -> bool {
    match role {
        NodeRole::Authority { sentry_nodes } => {
            &&& setup is Some
            &&& setup->Some_0.role == DiscoveryRole::Authority
            &&& setup->Some_0.sentries@ == sentry_nodes@
        },
        NodeRole::Sentry => {
            &&& setup is Some
            &&& setup->Some_0.role == DiscoveryRole::Sentry
            &&& setup->Some_0.sentries@.len() == 0
        },
        _ => setup is None,
    }
}

/// `r` is what assembling a full node from these inputs gives.
pub open spec fn full_outcome(
    config: Configuration,
    available: Collaborators,
    family: ChainFamily,
    r: Result<ServicePlan, ServiceError>,
) -> bool {
    if !available.select_chain {
        r == Err::<ServicePlan, ServiceError>(ServiceError::SelectChainRequired)
    } else {
        &&& r is Ok
        &&& r->Ok_0.family == family
        &&& r->Ok_0.mode == ImportMode::Full
        &&& r->Ok_0.components@ == full_components(
            config.role,
            config.disable_grandpa,
            config.bridge && available.bridge,
        )
        &&& r->Ok_0.authoring == (if config.role is Authority {
            Some(AuthoringSetup { force_authoring: config.force_authoring })
        } else {
            None
        })
        &&& full_finality(config, r->Ok_0.finality)
        &&& full_discovery(config.role, r->Ok_0.discovery)
        &&& r->Ok_0.keystore == (config.role is Authority)
    }
}

/// `r` is what assembling a light node from these inputs gives.
pub open spec fn light_outcome(
    available: Collaborators,
    family: ChainFamily,
    r: Result<ServicePlan, ServiceError>,
) -> bool {
    if !available.fetcher {
        r == Err::<ServicePlan, ServiceError>(ServiceError::FetcherRequired)
    } else {
        &&& r is Ok
        &&& r->Ok_0.family == family
        &&& r->Ok_0.mode == ImportMode::Light
        &&& r->Ok_0.components@ == light_components()
        &&& r->Ok_0.authoring is None
        &&& r->Ok_0.finality is LightVerifier
        &&& r->Ok_0.discovery is None
        &&& !r->Ok_0.keystore
    }
}

/// Plans a full node: client, fork choice, pool and import queue in that order,
/// then block production for an authority, the finality voter or its observer,
/// authority discovery for an authority or a sentry, and the bridge where it is
/// configured and came up. Fails where no fork-choice rule is at hand.
pub fn new_full(config: Configuration, available: Collaborators, family: ChainFamily) -> (r: Result<
    ServicePlan,
    ServiceError,
>)
    ensures
        full_outcome(config, available, family, r),
{
    if !available.select_chain {
        return Err(ServiceError::SelectChainRequired);
    }
    let authority: bool = config.role.is_authority();
    let network_authority: bool = config.role.is_network_authority();
    let mut components: Vec<Component> = Vec::new();
    components.push(Component::Client);
    components.push(Component::SelectChain);
    components.push(Component::TransactionPool);
    components.push(Component::ImportQueue);
    components.push(Component::FinalityProofProvider);
    let authoring: Option<AuthoringSetup> = if authority {
        components.push(Component::BlockProduction);
        Some(AuthoringSetup { force_authoring: config.force_authoring })
    } else {
        None
    };
    let finality: FinalitySetup = if config.disable_grandpa {
        components.push(Component::FinalityObserver);
        FinalitySetup::Observer
    } else {
        components.push(Component::FinalityVoter);
        FinalitySetup::Voter(
            VoterConfig {
                gossip_duration_ms: config.gossip_round_duration_ms,
                justification_period: config.justification_period,
                name: Some(config.node_name),
                observer_enabled: false,
                keystore: authority,
                is_authority: network_authority,
            },
        )
    };
    let discovery: Option<DiscoverySetup> = match config.role {
        NodeRole::Authority { sentry_nodes } => {
            components.push(Component::AuthorityDiscovery);
            Some(DiscoverySetup { role: DiscoveryRole::Authority, sentries: sentry_nodes })
        },
        NodeRole::Sentry => {
            components.push(Component::AuthorityDiscovery);
            Some(DiscoverySetup { role: DiscoveryRole::Sentry, sentries: Vec::new() })
        },
        _ => None,
    };
    if config.bridge && available.bridge {
        components.push(Component::Bridge);
    }
    assert(components@ =~= full_components(
        config.role,
        config.disable_grandpa,
        config.bridge && available.bridge,
    ));
    Ok(ServicePlan { family, mode: ImportMode::Full, components, authoring, finality, discovery, keystore: authority })
}

/// Plans a light node: client, fork choice, pool and import queue, then the
/// provider and the verifier of finality proofs. Nothing is authored, voted on or
/// published, whatever the role says. Fails where no fetcher is at hand.
pub fn new_light(config: Configuration, available: Collaborators, family: ChainFamily) -> (r: Result<
    ServicePlan,
    ServiceError,
>)
    ensures
        light_outcome(available, family, r),
{
    if !available.fetcher {
        return Err(ServiceError::FetcherRequired);
    }
    let mut components: Vec<Component> = Vec::new();
    components.push(Component::Client);
    components.push(Component::SelectChain);
    components.push(Component::TransactionPool);
    components.push(Component::ImportQueue);
    components.push(Component::FinalityProofProvider);
    components.push(Component::JustificationVerifier);
    assert(components@ =~= light_components());
    Ok(
        ServicePlan {
            family,
            mode: ImportMode::Light,
            components,
            authoring: None,
            finality: FinalitySetup::LightVerifier,
            discovery: None,
            keystore: false,
        },
    )
}

/// Plans the node that the configured role calls for: a light node for the light
/// role, a full node for every other.
pub fn assemble(config: Configuration, available: Collaborators, family: ChainFamily) -> (r: Result<
    ServicePlan,
    ServiceError,
>)
    ensures
        config.role is Light ==> light_outcome(available, family, r),
        !(config.role is Light) ==> full_outcome(config, available, family, r),
{
    if config.role.is_light() {
        new_light(config, available, family)
    } else {
        new_full(config, available, family)
    }
}

/// Every plan begins with the client, fork choice, the pool and the import queue,
/// in this order, and none of them is essential. A full node's plan holds block
/// production exactly for an authority, authority discovery exactly for an
/// authority or a sentry, and either the voter or the observer, as configured.
/// A light node's plan holds none of the three.
pub proof fn law_roles_gate_components(role: NodeRole, disable_grandpa: bool, bridge: bool)
    ensures
        full_components(role, disable_grandpa, bridge).subrange(0, 4) == light_components().subrange(0, 4),
        light_components().subrange(0, 4) == seq![
            Component::Client,
            Component::SelectChain,
            Component::TransactionPool,
            Component::ImportQueue,
        ],
        forall|i: int|
            0 <= i < 4 ==> !(#[trigger] full_components(role, disable_grandpa, bridge)[i]).essential(),
        full_components(role, disable_grandpa, bridge).contains(Component::BlockProduction) <==> role is Authority,
        full_components(role, disable_grandpa, bridge).contains(Component::AuthorityDiscovery) <==> (role is Authority
            || role is Sentry),
        full_components(role, disable_grandpa, bridge).contains(Component::FinalityVoter) <==> !disable_grandpa,
        full_components(role, disable_grandpa, bridge).contains(Component::FinalityObserver) <==> disable_grandpa,
        !light_components().contains(Component::BlockProduction),
        !light_components().contains(Component::FinalityVoter),
        !light_components().contains(Component::AuthorityDiscovery),
{
    let full = full_components(role, disable_grandpa, bridge);
    assert(full.subrange(0, 4) =~= light_components().subrange(0, 4));
    assert(light_components().subrange(0, 4) =~= seq![
        Component::Client,
        Component::SelectChain,
        Component::TransactionPool,
        Component::ImportQueue,
    ]);
    if role is Authority {
        assert(full[5] == Component::BlockProduction);
        assert(full[7] == Component::AuthorityDiscovery);
        assert(full[6] == if disable_grandpa { Component::FinalityObserver } else { Component::FinalityVoter });
    } else {
        assert(full[5] == if disable_grandpa { Component::FinalityObserver } else { Component::FinalityVoter });
        if role is Sentry {
            assert(full[6] == Component::AuthorityDiscovery);
        }
    }
}

} // verus!
