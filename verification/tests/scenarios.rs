use node_service::authority::{Authority, AuthoritySet, Epoch};
use node_service::finality::{FinalityVote, VoteError, VoteOutcome};
use node_service::import_queue::{
    ImportAction, ImportError, ImportOutcome, ImportQueue, ImportQueueItem, Payload, Report, Request,
};
use node_service::node::{instantiate, Engines, Genesis, Identity};
use node_service::primitives::{
    AuthorityId, Block, BlockHash, DigestItem, Header, Origin, PeerId, Signature, SlotClaim, VrfProof,
};
use node_service::production::{Built, ProductionAction, Tip};
use node_service::role::{Configuration, NodeRole};
use node_service::service::{assemble, ChainFamily, Collaborators};

fn sc_hash(n: u64) -> BlockHash {
    BlockHash::from_u64(n)
}

fn sc_engines(role: NodeRole, force_authoring: bool, key: Option<u64>) -> Engines {
    let members = (1..=4u64).map(|k| Authority { id: AuthorityId::from_u64(k), weight: 1 }).collect();
    let set = AuthoritySet::new(0, members).unwrap();
    let genesis = Genesis { hash: sc_hash(0), number: 0, epoch: Epoch { set, end_slot: 1000, end_round: 1000 }, round: 1 };
    let identity = Identity { key: key.map(AuthorityId::from_u64), peer: PeerId { id: 1 } };
    let mut config = Configuration::new(role, String::from("node"));
    config.force_authoring = force_authoring;
    let available = Collaborators { select_chain: true, fetcher: true, bridge: false };
    let plan = assemble(config, available, ChainFamily::Robonomics).unwrap();
    instantiate(plan, genesis, identity).unwrap()
}

fn sc_header(hash: u64, parent: u64, number: u64, slot: u64) -> Header {
    Header {
        hash: sc_hash(hash),
        parent: sc_hash(parent),
        number,
        state_root: sc_hash(0),
        extrinsics_root: sc_hash(0),
        digest: vec![
            DigestItem::PreRuntime(SlotClaim { slot, authority_index: 1, proof: VrfProof { bytes: [0; 64] } }),
            DigestItem::Seal(Signature { bytes: [0; 64] }),
        ],
    }
}

/// Works the queue until nothing waits, with every verdict good.
fn sc_drain(q: &mut ImportQueue) -> Vec<Report> {
    let mut reports = Vec::new();
    for _ in 0..1000 {
        let mut action = q.next();
        loop {
            action = match action {
                ImportAction::Idle => return reports,
                ImportAction::Verify(Request::Claim { .. }) => q.claim_checked(true),
                ImportAction::Verify(Request::Execution { .. }) => q.executed(true),
                ImportAction::Verify(Request::Seal { .. }) => q.seal_checked(true),
                ImportAction::Verify(Request::Signatures { .. }) => q.signatures_checked(true),
                ImportAction::Finished(report) => {
                    reports.push(report);
                    break;
                },
                other => panic!("{:?}", other),
            };
        }
    }
    panic!("the queue does not come to rest");
}

fn sc_vote(round: u64, target: u64, voter: u64) -> FinalityVote {
    FinalityVote {
        round,
        target: sc_hash(target),
        voter: AuthorityId::from_u64(voter),
        signature: Signature { bytes: [voter as u8; 64] },
    }
}

#[test]
fn four_authorities_three_votes_finalize_x_and_never_y() {
    let Engines { mut queue, voter, .. } = sc_engines(NodeRole::Full, false, None);
    let mut voter = voter.unwrap();
    // X = 10 and Y = 20 are both children of genesis.
    for (hash, slot) in [(10, 5), (20, 6)] {
        let block = Block { header: sc_header(hash, 0, 1, slot), body: Some(vec![]) };
        queue.submit(ImportQueueItem { payload: Payload::Block(block), origin: Origin::Peer(PeerId { id: 2 }) });
    }
    assert_eq!(sc_drain(&mut queue).len(), 2);

    assert_eq!(voter.on_vote(sc_vote(1, 10, 1), true), VoteOutcome::Counted);
    assert_eq!(voter.on_vote(sc_vote(1, 10, 2), true), VoteOutcome::Counted);
    let justification = match voter.on_vote(sc_vote(1, 10, 3), true) {
        VoteOutcome::Quorum(j) => j,
        other => panic!("{:?}", other),
    };
    assert_eq!(justification.votes.len(), 3);
    queue.submit(ImportQueueItem { payload: Payload::Justification(justification), origin: Origin::Local });
    let reports = sc_drain(&mut queue);
    assert_eq!(reports[0].outcome, ImportOutcome::Finalized);
    assert!(reports[0].commit);
    assert_eq!(queue.chain.finalized_hash(), sc_hash(10));
    assert_eq!(queue.pruned, vec![sc_hash(20)]);

    // The fourth vote, for Y.
    assert_eq!(voter.on_vote(sc_vote(1, 20, 4), true), VoteOutcome::Rejected(VoteError::WrongRound));
    assert_eq!(voter.on_vote(sc_vote(2, 20, 4), true), VoteOutcome::Counted);
    assert_eq!(voter.support_of(sc_hash(20)), 1);
    let for_y = node_service::finality::Justification { round: 2, target: sc_hash(20), votes: vec![sc_vote(2, 20, 4)] };
    queue.submit(ImportQueueItem { payload: Payload::Justification(for_y), origin: Origin::Peer(PeerId { id: 2 }) });
    let reports = sc_drain(&mut queue);
    assert_eq!(reports[0].outcome, ImportOutcome::Rejected(ImportError::StaleBranch));
    assert_eq!(queue.chain.finalized, vec![0, 1]);
    assert_eq!(queue.chain.finalized_hash(), sc_hash(10));
}

#[test]
fn light_node_advances_finality_from_headers_and_a_justification() {
    let Engines { mut queue, production, voter, discovery } = sc_engines(NodeRole::Light, false, None);
    assert!(production.is_none() && voter.is_none() && discovery.is_none());
    for n in 1..=5u64 {
        let block = Block { header: sc_header(n, n - 1, n, n), body: None };
        queue.submit(ImportQueueItem { payload: Payload::Block(block), origin: Origin::Peer(PeerId { id: 2 }) });
    }
    let mut asked_runtime = false;
    let mut imported = 0;
    loop {
        let mut action = queue.next();
        if action == ImportAction::Idle {
            break;
        }
        loop {
            action = match action {
                ImportAction::Verify(Request::Claim { .. }) => queue.claim_checked(true),
                ImportAction::Verify(Request::Execution { .. }) => {
                    asked_runtime = true;
                    queue.executed(true)
                },
                ImportAction::Verify(Request::Seal { .. }) => queue.seal_checked(true),
                ImportAction::Finished(report) => {
                    assert_eq!(report.outcome, ImportOutcome::Imported { new_best: true });
                    imported += 1;
                    break;
                },
                other => panic!("{:?}", other),
            };
        }
    }
    assert_eq!(imported, 5);
    assert!(!asked_runtime);
    let j = node_service::finality::Justification {
        round: 7,
        target: sc_hash(4),
        votes: vec![sc_vote(7, 4, 2), sc_vote(7, 4, 3), sc_vote(7, 4, 4)],
    };
    queue.submit(ImportQueueItem { payload: Payload::Justification(j), origin: Origin::Peer(PeerId { id: 2 }) });
    let reports = sc_drain(&mut queue);
    assert_eq!(reports[0].outcome, ImportOutcome::Finalized);
    assert_eq!(queue.chain.finalized_hash(), sc_hash(4));
    assert_eq!(queue.chain.best_hash(), sc_hash(5));
}

#[test]
fn forced_authority_alone_authors_on_its_slot() {
    let Engines { mut queue, production, .. } =
        sc_engines(NodeRole::Authority { sentry_nodes: vec![] }, true, Some(2));
    let mut production = production.unwrap();
    let slot = 42;
    assert_eq!(production.on_slot(slot, 0), ProductionAction::Claim { slot });
    let claim = SlotClaim { slot, authority_index: 1, proof: VrfProof { bytes: [5; 64] } };
    let tip = Tip { hash: queue.chain.best_hash(), number: queue.chain.best_number() };
    assert_eq!(
        production.on_claim(Some(claim), Some(tip)),
        ProductionAction::Build { slot, parent: sc_hash(0), number: 1 }
    );
    let built = Built { state_root: sc_hash(8), extrinsics_root: sc_hash(9), logs: vec![], body: vec![] };
    assert!(matches!(production.on_built(Some(built)), ProductionAction::Seal { .. }));
    let item = match production.on_sealed(sc_hash(1), Signature { bytes: [6; 64] }) {
        ProductionAction::Submit(item) => item,
        other => panic!("{:?}", other),
    };
    queue.submit(item);
    let reports = sc_drain(&mut queue);
    assert_eq!(reports.len(), 1);
    assert_eq!(reports[0].outcome, ImportOutcome::Imported { new_best: true });
    assert_eq!(reports[0].origin, Origin::Local);
    assert_eq!(queue.chain.best_hash(), sc_hash(1));

    // The same node without the option rests while it has no peer.
    let Engines { production, .. } = sc_engines(NodeRole::Authority { sentry_nodes: vec![] }, false, Some(2));
    assert_eq!(production.unwrap().on_slot(slot, 0), ProductionAction::Rest);
}
