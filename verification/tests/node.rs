use node_service::authority::{Authority, AuthoritySet, Epoch, TimelineError};
use node_service::import_queue::Stage;
use node_service::node::{copy_set, instantiate, new_voter, Engines, Genesis, Identity, MAX_ROUND_STEPS, PARK_LIMIT};
use node_service::primitives::{AuthorityId, BlockHash, PeerId};
use node_service::production::SlotState;
use node_service::role::{Configuration, ImportMode, NodeRole};
use node_service::service::{assemble, ChainFamily, Collaborators, DiscoveryRole};

fn nd_set() -> AuthoritySet {
    let members = (1..=3u64).map(|k| Authority { id: AuthorityId::from_u64(k), weight: k }).collect();
    AuthoritySet::new(4, members).unwrap()
}

fn nd_genesis() -> Genesis {
    Genesis {
        hash: BlockHash::from_u64(100),
        number: 0,
        epoch: Epoch { set: nd_set(), end_slot: 600, end_round: 50 },
        round: 1,
    }
}

fn nd_identity() -> Identity {
    Identity { key: Some(AuthorityId::from_u64(2)), peer: PeerId { id: 77 } }
}

fn nd_engines(role: NodeRole, disable_grandpa: bool) -> Engines {
    let mut config = Configuration::new(role, String::from("bob"));
    config.disable_grandpa = disable_grandpa;
    config.force_authoring = true;
    let available = Collaborators { select_chain: true, fetcher: true, bridge: false };
    let plan = assemble(config, available, ChainFamily::Robonomics).unwrap();
    instantiate(plan, nd_genesis(), nd_identity()).unwrap()
}

#[test]
fn every_node_gets_a_fresh_queue_over_genesis() {
    for role in [NodeRole::Authority { sentry_nodes: vec![] }, NodeRole::Sentry, NodeRole::Full, NodeRole::Light] {
        let light = role == NodeRole::Light;
        let engines = nd_engines(role, false);
        let q = &engines.queue;
        assert_eq!(q.mode, if light { ImportMode::Light } else { ImportMode::Full });
        assert_eq!(q.park_limit, PARK_LIMIT);
        assert_eq!(q.park_limit, 256);
        assert_eq!(q.timeline.epochs, vec![Epoch { set: nd_set(), end_slot: 600, end_round: 50 }]);
        assert_eq!(q.chain.records.len(), 1);
        assert_eq!(q.chain.records[0].hash, BlockHash::from_u64(100));
        assert_eq!(q.chain.finalized, vec![0]);
        assert_eq!(q.stage, Stage::Idle);
        assert!(q.inbox.is_empty() && q.parked.is_empty() && q.proofs.is_empty());
    }
}

#[test]
fn authority_gets_every_engine() {
    let engines = nd_engines(NodeRole::Authority { sentry_nodes: vec![PeerId { id: 5 }] }, false);
    let production = engines.production.unwrap();
    assert!(production.enabled && production.force_authoring);
    assert_eq!(production.state, SlotState::Idle);
    assert_eq!(production.slot, None);
    let voter = engines.voter.unwrap();
    assert!(voter.voting);
    assert_eq!(voter.own, Some(AuthorityId::from_u64(2)));
    assert_eq!(voter.set, nd_set());
    assert_eq!(voter.round, 1);
    assert_eq!(voter.ballots, vec![None, None, None]);
    assert_eq!((voter.timeout_ms, voter.base_timeout_ms, voter.max_timeout_ms), (333, 333, 333 * 64));
    let worker = engines.discovery.unwrap();
    assert_eq!(worker.role, DiscoveryRole::Authority);
    assert_eq!(worker.own, Some(AuthorityId::from_u64(2)));
    assert_eq!(worker.own_peer, PeerId { id: 77 });
    assert_eq!(worker.sentries, vec![PeerId { id: 5 }]);
}

#[test]
fn sentry_and_full_node_vote_without_a_key_and_do_not_author() {
    let sentry = nd_engines(NodeRole::Sentry, false);
    assert_eq!(sentry.production, None);
    assert_eq!(sentry.voter.as_ref().unwrap().own, None);
    assert!(sentry.voter.unwrap().voting);
    let worker = sentry.discovery.unwrap();
    assert_eq!(worker.role, DiscoveryRole::Sentry);
    assert_eq!(worker.own, None);
    let full = nd_engines(NodeRole::Full, false);
    assert_eq!(full.production, None);
    assert_eq!(full.discovery, None);
    assert_eq!(full.voter.unwrap().own, None);
}

#[test]
fn disabled_voter_only_observes() {
    let engines = nd_engines(NodeRole::Authority { sentry_nodes: vec![] }, true);
    let observer = engines.voter.unwrap();
    assert!(!observer.voting);
    assert_eq!(observer.own, None);
    assert!(engines.production.is_some());
}

#[test]
fn light_node_has_the_queue_alone() {
    let engines = nd_engines(NodeRole::Light, false);
    assert_eq!(engines.production, None);
    assert_eq!(engines.voter, None);
    assert_eq!(engines.discovery, None);
    assert_eq!(engines.queue.mode, ImportMode::Light);
}

#[test]
fn empty_first_epoch_is_refused() {
    let config = Configuration::new(NodeRole::Full, String::from("bob"));
    let available = Collaborators { select_chain: true, fetcher: true, bridge: false };
    for (end_slot, end_round) in [(0, 5), (5, 0), (0, 0)] {
        let plan = assemble(config.clone(), available, ChainFamily::Ipci).unwrap();
        let mut genesis = nd_genesis();
        genesis.epoch.end_slot = end_slot;
        genesis.epoch.end_round = end_round;
        assert_eq!(instantiate(plan, genesis, nd_identity()), Err(TimelineError::EmptySpan));
    }
}

#[test]
fn round_wait_is_capped_at_sixty_four_steps() {
    assert_eq!(MAX_ROUND_STEPS, 64);
    let e = new_voter(true, None, nd_set(), 0, 1000);
    assert_eq!((e.timeout_ms, e.max_timeout_ms), (1000, 64000));
    let e = new_voter(true, None, nd_set(), 0, u64::MAX / 64);
    assert_eq!(e.max_timeout_ms, u64::MAX / 64 * 64);
    let e = new_voter(true, None, nd_set(), 0, u64::MAX / 64 + 1);
    assert_eq!(e.max_timeout_ms, u64::MAX);
    let e = new_voter(false, None, nd_set(), 0, 0);
    assert_eq!((e.timeout_ms, e.max_timeout_ms), (0, 0));
}

#[test]
fn copied_set_equals_the_set() {
    assert_eq!(copy_set(&nd_set()), nd_set());
}
