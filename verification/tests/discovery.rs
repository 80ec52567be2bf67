use node_service::authority::{Authority, AuthoritySet};
use node_service::discovery::{
    contains_key, copy_peers, find_entry, keep_entries, DiscoveryPlan, DiscoveryWorker, Publication, Resolved,
};
use node_service::primitives::{AuthorityId, PeerId};
use node_service::role::NodeRole;
use node_service::service::DiscoveryRole;

fn di_id(n: u64) -> AuthorityId {
    AuthorityId::from_u64(n)
}

fn di_peer(n: u64) -> PeerId {
    PeerId { id: n }
}

fn di_set(generation: u64, ids: &[u64]) -> AuthoritySet {
    AuthoritySet::new(generation, ids.iter().map(|i| Authority { id: di_id(*i), weight: 1 }).collect()).unwrap()
}

fn di_authority(sentries: Vec<PeerId>) -> DiscoveryWorker {
    DiscoveryWorker::for_role(NodeRole::Authority { sentry_nodes: sentries }, Some(di_id(2)), di_peer(50)).unwrap()
}

#[test]
fn discovery_runs_for_authorities_and_sentries_only() {
    assert_eq!(DiscoveryWorker::for_role(NodeRole::Full, Some(di_id(1)), di_peer(1)), None);
    assert_eq!(DiscoveryWorker::for_role(NodeRole::Light, Some(di_id(1)), di_peer(1)), None);
    let sentry = DiscoveryWorker::for_role(NodeRole::Sentry, Some(di_id(1)), di_peer(1)).unwrap();
    assert_eq!(sentry.role, DiscoveryRole::Sentry);
    assert_eq!(sentry.own, None);
    let authority = di_authority(vec![di_peer(7)]);
    assert_eq!(authority.role, DiscoveryRole::Authority);
    assert_eq!(authority.own, Some(di_id(2)));
    assert_eq!(authority.sentries, vec![di_peer(7)]);
    assert_eq!(authority.generation, None);
}

#[test]
fn authority_publishes_itself_and_resolves_the_others() {
    let mut w = di_authority(vec![]);
    let plan = w.plan(&di_set(0, &[1, 2, 3]));
    assert_eq!(
        plan,
        DiscoveryPlan {
            publish: Some(Publication { key: di_id(2), peers: vec![di_peer(50)] }),
            resolve: vec![di_id(1), di_id(3)],
        }
    );
    assert_eq!(w.wanted, vec![di_id(1), di_id(3)]);
    assert_eq!(w.generation, Some(0));
}

#[test]
fn authority_behind_sentries_publishes_them() {
    let mut w = di_authority(vec![di_peer(7), di_peer(8)]);
    let plan = w.plan(&di_set(0, &[2, 3]));
    assert_eq!(plan.publish, Some(Publication { key: di_id(2), peers: vec![di_peer(7), di_peer(8)] }));
    assert_eq!(plan.resolve, vec![di_id(3)]);
}

#[test]
fn authority_outside_the_set_publishes_nothing() {
    let mut w = di_authority(vec![]);
    let plan = w.plan(&di_set(0, &[1, 3]));
    assert_eq!(plan.publish, None);
    assert_eq!(plan.resolve, vec![di_id(1), di_id(3)]);
    let mut keyless = DiscoveryWorker::for_role(NodeRole::Authority { sentry_nodes: vec![] }, None, di_peer(1)).unwrap();
    let plan = keyless.plan(&di_set(0, &[1, 3]));
    assert_eq!(plan.publish, None);
}

#[test]
fn sentry_publishes_nothing_but_resolves() {
    let mut w = DiscoveryWorker::for_role(NodeRole::Sentry, None, di_peer(1)).unwrap();
    let plan = w.plan(&di_set(0, &[1, 2, 3]));
    assert_eq!(plan, DiscoveryPlan { publish: None, resolve: vec![di_id(1), di_id(2), di_id(3)] });
}

#[test]
fn failed_lookup_leaves_one_authority_unreachable() {
    let mut w = di_authority(vec![]);
    w.plan(&di_set(0, &[1, 2, 3, 4]));
    w.on_resolved(di_id(1), Some(di_peer(11)));
    w.on_resolved(di_id(3), None);
    w.on_resolved(di_id(4), Some(di_peer(14)));
    assert_eq!(w.peer_set(), vec![di_peer(11), di_peer(14)]);
    // A later answer replaces the earlier one; a failure removes it.
    w.on_resolved(di_id(1), Some(di_peer(21)));
    assert_eq!(w.peer_set(), vec![di_peer(21), di_peer(14)]);
    w.on_resolved(di_id(1), None);
    assert_eq!(w.peer_set(), vec![di_peer(14)]);
    w.on_resolved(di_id(1), None);
    assert_eq!(w.reachable, vec![Resolved { id: di_id(4), peer: di_peer(14) }]);
}

#[test]
fn answers_nobody_asked_for_are_ignored() {
    let mut w = di_authority(vec![]);
    w.on_resolved(di_id(1), Some(di_peer(11)));
    assert!(w.reachable.is_empty());
    w.plan(&di_set(0, &[1, 2]));
    w.on_resolved(di_id(2), Some(di_peer(12)));
    w.on_resolved(di_id(9), Some(di_peer(19)));
    assert!(w.peer_set().is_empty());
}

#[test]
fn what_was_found_lasts_for_the_epoch() {
    let mut w = di_authority(vec![]);
    w.plan(&di_set(0, &[1, 2, 3]));
    w.on_resolved(di_id(1), Some(di_peer(11)));
    w.on_resolved(di_id(3), Some(di_peer(13)));
    w.plan(&di_set(0, &[1, 2, 3]));
    assert_eq!(w.peer_set(), vec![di_peer(11), di_peer(13)]);
    w.plan(&di_set(1, &[1, 2, 3]));
    assert!(w.peer_set().is_empty());
    assert_eq!(w.generation, Some(1));
}

#[test]
fn discovery_helpers() {
    let keys = vec![di_id(1), di_id(2)];
    assert!(contains_key(&keys, di_id(2)));
    assert!(!contains_key(&keys, di_id(3)));
    let entries = vec![Resolved { id: di_id(1), peer: di_peer(1) }, Resolved { id: di_id(5), peer: di_peer(5) }];
    assert_eq!(find_entry(&entries, di_id(5)), Some(1));
    assert_eq!(find_entry(&entries, di_id(2)), None);
    assert_eq!(keep_entries(&entries, &keys), vec![Resolved { id: di_id(1), peer: di_peer(1) }]);
    assert_eq!(copy_peers(&vec![di_peer(3), di_peer(4)]), vec![di_peer(3), di_peer(4)]);
}

#[test]
fn sentry_worker_takes_no_key() {
    let w = DiscoveryWorker::new(DiscoveryRole::Sentry, Some(di_id(1)), di_peer(2), vec![]);
    assert_eq!(w.own, None);
    assert_eq!(w.own_peer, di_peer(2));
    let w = DiscoveryWorker::new(DiscoveryRole::Authority, Some(di_id(1)), di_peer(2), vec![di_peer(3)]);
    assert_eq!(w.own, Some(di_id(1)));
    assert_eq!(w.sentries, vec![di_peer(3)]);
    assert!(w.wanted.is_empty() && w.reachable.is_empty());
    assert_eq!(w.generation, None);
}
