//! The engines of a node, set up as its plan says.
//!
//! Every node gets an import queue. An authority gets the block-production
//! engine, a full node the finality voter or its observer, an authority or a
//! sentry the discovery worker. A light node gets the queue alone, which then
//! checks headers and justifications and executes nothing.

use crate::authority::{Authority, AuthoritySet, AuthorityTimeline, Epoch, TimelineError};
use crate::discovery::DiscoveryWorker;
use crate::finality::VotingEngine;
use crate::import_queue::ImportQueue;
use crate::primitives::{AuthorityId, BlockHash, PeerId};
use crate::production::ProductionEngine;
use crate::role::DEFAULT_GOSSIP_ROUND_MS;
use crate::service::{DiscoverySetup, FinalitySetup, ServicePlan};
use vstd::prelude::*;

verus! {

/// How many items may wait for an ancestor or an epoch at once.
pub const PARK_LIMIT: usize = 256;

/// How many gossip steps the longest round waits.
pub const MAX_ROUND_STEPS: u64 = 64;

/// Where a node starts from.
#[derive(Clone, Debug, PartialEq, Eq)]
pub struct Genesis {
    pub hash: BlockHash,
    pub number: u64,
    /// The first epoch, with the authorities in force from the start.
    pub epoch: Epoch,
    /// The first voting round.
    pub round: u64,
}

/// The keys and the address of the node itself.
#[derive(Clone, Copy, Debug, PartialEq, Eq, Structural)]
pub struct Identity {
    /// The key the node is an authority under, if the keystore holds one.
    pub key: Option<AuthorityId>,
    pub peer: PeerId,
}

/// The engines of a running node.
#[derive(Clone, Debug, PartialEq, Eq)]
pub struct Engines {
    pub queue: ImportQueue,
    pub production: Option<ProductionEngine>,
    pub voter: Option<VotingEngine>,
    pub discovery: Option<DiscoveryWorker>,
}

/// The longest wait of a voting round whose gossip step takes `step_ms`.
pub open spec fn round_cap(step_ms: u64) -> u64 {
    if step_ms * MAX_ROUND_STEPS > u64::MAX {
        u64::MAX
    } else {
        (step_ms * MAX_ROUND_STEPS) as u64
    }
}

/// The engine is fresh and set up with these values.
pub open spec fn fresh_voter(
    e: VotingEngine,
    voting: bool,
    own: Option<AuthorityId>,
    set: AuthoritySet,
    round: u64,
    step_ms: u64,
) -> bool {
    &&& e.wf()
    &&& e.no_ballots()
    &&& e.evidence@.len() == 0
    &&& e.voting == voting
    &&& e.own == own
    &&& e.set.generation == set.generation
    &&& e.set.members@ == set.members@
    &&& e.round == round
    &&& e.timeout_ms == step_ms
    &&& e.base_timeout_ms == step_ms
    &&& e.max_timeout_ms == round_cap(step_ms)
}

/// The voter is the one that the finality setup calls for: a voting engine that
/// signs with the node's key where the setup gives it the keystore, an engine
/// that only observes, or none on a light node.
pub open spec fn voter_for(
    setup: FinalitySetup,
    identity: Identity,
    genesis: Genesis,
    voter: Option<VotingEngine>,
) -> bool {
    match setup {
        FinalitySetup::Voter(v) => voter is Some && fresh_voter(
            voter->Some_0,
            true,
            if v.keystore {
                identity.key
            } else {
                None
            },
            genesis.epoch.set,
            genesis.round,
            v.gossip_duration_ms,
        ),
        FinalitySetup::Observer => voter is Some && fresh_voter(
            voter->Some_0,
            false,
            None,
            genesis.epoch.set,
            genesis.round,
            DEFAULT_GOSSIP_ROUND_MS,
        ),
        FinalitySetup::LightVerifier => voter is None,
    }
}

/// The worker is the one that the discovery setup calls for.
pub open spec fn worker_for(setup: Option<DiscoverySetup>, identity: Identity, worker: Option<DiscoveryWorker>) -> bool {
    match setup {
        Some(s) => {
            &&& worker is Some
            &&& worker->Some_0.wf()
            &&& worker->Some_0.role == s.role
            &&& worker->Some_0.own == (if s.role is Authority {
                identity.key
            } else {
                None
            })
            &&& worker->Some_0.own_peer == identity.peer
            &&& worker->Some_0.sentries@ == s.sentries@
            &&& worker->Some_0.generation is None
            &&& worker->Some_0.wanted@.len() == 0
            &&& worker->Some_0.reachable@.len() == 0
        },
        None => worker is None,
    }
}

/// The engines are the ones that the plan calls for, all of them fresh.
pub open spec fn engines_for(plan: ServicePlan, genesis: Genesis, identity: Identity, engines: Engines) -> bool {
    &&& engines.queue.wf()
    &&& engines.queue.mode == plan.mode
    &&& engines.queue.park_limit == PARK_LIMIT
    &&& engines.queue.timeline.epochs@.len() == 1
    &&& engines.queue.timeline.epochs@[0].set.generation == genesis.epoch.set.generation
    &&& engines.queue.timeline.epochs@[0].set.members@ == genesis.epoch.set.members@
    &&& engines.queue.timeline.epochs@[0].end_slot == genesis.epoch.end_slot
    &&& engines.queue.timeline.epochs@[0].end_round == genesis.epoch.end_round
    &&& engines.queue.chain.records@.len() == 1
    &&& engines.queue.chain.records@[0].hash == genesis.hash
    &&& engines.queue.chain.records@[0].number == genesis.number
    &&& engines.queue.chain.finalized@ == seq![0usize]
    &&& engines.queue.chain.best == 0
    &&& engines.queue.proofs@.len() == 0
    &&& engines.queue.inbox@.len() == 0
    &&& engines.queue.parked@.len() == 0
    &&& engines.queue.stage is Idle
    &&& match plan.authoring {
        Some(a) => {
            &&& engines.production is Some
            &&& engines.production->Some_0.wf()
            &&& engines.production->Some_0.enabled
            &&& engines.production->Some_0.force_authoring == a.force_authoring
            &&& engines.production->Some_0.slot is None
            &&& engines.production->Some_0.state is Idle
        },
        None => engines.production is None,
    }
    &&& voter_for(plan.finality, identity, genesis, engines.voter)
    &&& worker_for(plan.discovery, identity, engines.discovery)
}

/// A copy of the authority set.
pub fn copy_set(set: &AuthoritySet) -> (copy: AuthoritySet)
    ensures
        copy.generation == set.generation,
        copy.members@ == set.members@,
        set.wf() ==> copy.wf(),
{
    let n: usize = set.members.len();
    let mut members: Vec<Authority> = Vec::new();
    let mut i: usize = 0;
    while i < n
        invariant
            n == set.members@.len(),
            i <= n,
            members@ == set.members@.take(i as int),
        decreases n - i,
    {
        members.push(set.members[i]);
        assert(members@ =~= set.members@.take(i + 1));
        i = i + 1;
    }
    assert(set.members@.take(n as int) =~= set.members@);
    AuthoritySet { generation: set.generation, members }
}

/// Sets up the engines that the plan calls for. Fails where the first epoch
/// holds no slot or no round.
pub fn instantiate(plan: ServicePlan, genesis: Genesis, identity: Identity) -> (r: Result<Engines, TimelineError>)
    requires
        genesis.epoch.set.wf(),
    ensures
        match r {
            Ok(engines) => genesis.epoch.end_slot > 0 && genesis.epoch.end_round > 0 && engines_for(
                plan,
                genesis,
                identity,
                engines,
            ),
            Err(e) => e == TimelineError::EmptySpan && (genesis.epoch.end_slot == 0 || genesis.epoch.end_round == 0),
        },
{
    let set: AuthoritySet = copy_set(&genesis.epoch.set);
    let timeline: AuthorityTimeline = match AuthorityTimeline::new(genesis.epoch) {
        Ok(t) => t,
        Err(e) => {
            return Err(e);
        },
    };
    let queue = ImportQueue::new(plan.mode, genesis.hash, genesis.number, timeline, PARK_LIMIT);
    let production: Option<ProductionEngine> = match plan.authoring {
        Some(a) => Some(ProductionEngine::new(true, a.force_authoring)),
        None => None,
    };
    let voter: Option<VotingEngine> = match plan.finality {
        FinalitySetup::Voter(v) => {
            let own: Option<AuthorityId> = if v.keystore {
                identity.key
            } else {
                None
            };
            Some(new_voter(true, own, set, genesis.round, v.gossip_duration_ms))
        },
        FinalitySetup::Observer => Some(new_voter(false, None, set, genesis.round, DEFAULT_GOSSIP_ROUND_MS)),
        FinalitySetup::LightVerifier => None,
    };
    let discovery: Option<DiscoveryWorker> = match plan.discovery {
        Some(s) => Some(DiscoveryWorker::new(s.role, identity.key, identity.peer, s.sentries)),
        None => None,
    };
    Ok(Engines { queue, production, voter, discovery })
}

/// A fresh voting engine whose rounds wait one gossip step at first and
/// `MAX_ROUND_STEPS` steps at most.
pub fn new_voter(voting: bool, own: Option<AuthorityId>, set: AuthoritySet, round: u64, step_ms: u64) -> (e:
    VotingEngine)
    requires
        set.wf(),
    ensures
        fresh_voter(e, voting, own, set, round, step_ms),
{
    let cap: u64 = if step_ms > u64::MAX / MAX_ROUND_STEPS {
        u64::MAX
    } else {
        step_ms * MAX_ROUND_STEPS
    };
    VotingEngine::new(voting, own, set, round, step_ms, cap)
}

/// The role gates the engines: a node that is set up from the plan of a full
/// node authors exactly if it is an authority, runs discovery exactly if it is
/// an authority or a sentry, and holds a signing key in its voter only as an
/// authority; a node set up from the plan of a light node has the queue alone,
/// in light mode.
pub proof fn law_role_gates_engines(
    config: crate::role::Configuration,
    available: crate::service::Collaborators,
    family: crate::service::ChainFamily,
    planned: Result<ServicePlan, crate::service::ServiceError>,
    genesis: Genesis,
    identity: Identity,
    engines: Engines,
)
    requires
        planned is Ok,
        engines_for(planned->Ok_0, genesis, identity, engines),
    ensures
        crate::service::full_outcome(config, available, family, planned) ==> {
            &&& engines.queue.mode is Full
            &&& engines.production is Some <==> config.role is Authority
            &&& engines.discovery is Some <==> (config.role is Authority || config.role is Sentry)
            &&& engines.voter is Some
            &&& engines.voter->Some_0.voting == !config.disable_grandpa
            &&& engines.voter->Some_0.own is Some ==> config.role is Authority && !config.disable_grandpa
            &&& engines.discovery is Some && engines.discovery->Some_0.own is Some ==> config.role is Authority
        },
        crate::service::light_outcome(available, family, planned) ==> {
            &&& engines.queue.mode is Light
            &&& engines.production is None
            &&& engines.voter is None
            &&& engines.discovery is None
        },
{
}

} // verus!
