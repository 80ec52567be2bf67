use node_service::authority::{Authority, AuthoritySet, AuthorityTimeline, Epoch};
use node_service::import_queue::{ImportAction, ImportOutcome, ImportQueue, ImportQueueItem, Payload, Request};
use node_service::primitives::{
    read_digest, AuthorityId, Block, BlockHash, DigestItem, Header, Origin, Signature, SlotClaim, VrfProof,
};
use node_service::production::{
    seal_digest, Built, ProductionAction, ProductionEngine, SlotFailure, SlotState, Tip,
};
use node_service::role::ImportMode;

fn pr_hash(n: u64) -> BlockHash {
    BlockHash::from_u64(n)
}

fn pr_claim(slot: u64) -> SlotClaim {
    SlotClaim { slot, authority_index: 0, proof: VrfProof { bytes: [3; 64] } }
}

fn pr_seal() -> Signature {
    Signature { bytes: [4; 64] }
}

fn pr_built() -> Built {
    Built { state_root: pr_hash(70), extrinsics_root: pr_hash(71), logs: vec![8, 9], body: vec![100, 101] }
}

fn pr_tip() -> Option<Tip> {
    Some(Tip { hash: pr_hash(0), number: 0 })
}

#[test]
fn slot_runs_from_claim_to_submission() {
    let mut e = ProductionEngine::new(true, false);
    assert_eq!(e.state, SlotState::Idle);
    assert_eq!(e.on_slot(7, 3), ProductionAction::Claim { slot: 7 });
    assert_eq!(e.state, SlotState::Claiming);
    assert_eq!(
        e.on_claim(Some(pr_claim(7)), Some(Tip { hash: pr_hash(5), number: 41 })),
        ProductionAction::Build { slot: 7, parent: pr_hash(5), number: 42 }
    );
    assert_eq!(e.state, SlotState::Building { claim: pr_claim(7), parent: pr_hash(5), number: 42 });
    assert_eq!(
        e.on_built(Some(pr_built())),
        ProductionAction::Seal { parent: pr_hash(5), number: 42, state_root: pr_hash(70), extrinsics_root: pr_hash(71) }
    );
    assert!(matches!(e.state, SlotState::Sealing { .. }));
    let submitted = e.on_sealed(pr_hash(6), pr_seal());
    let block = Block {
        header: Header {
            hash: pr_hash(6),
            parent: pr_hash(5),
            number: 42,
            state_root: pr_hash(70),
            extrinsics_root: pr_hash(71),
            digest: vec![
                DigestItem::PreRuntime(pr_claim(7)),
                DigestItem::Other(8),
                DigestItem::Other(9),
                DigestItem::Seal(pr_seal()),
            ],
        },
        body: Some(vec![100, 101]),
    };
    assert_eq!(
        submitted,
        ProductionAction::Submit(ImportQueueItem { payload: Payload::Block(block.clone()), origin: Origin::Local })
    );
    assert_eq!(read_digest(&block.header.digest), Ok((pr_claim(7), pr_seal())));
    assert_eq!(e.state, SlotState::Submitted);
    assert_eq!(e.draft, None);
    assert_eq!(e.slot, Some(7));
}

#[test]
fn only_an_authority_authors() {
    let mut e = ProductionEngine::new(false, true);
    assert_eq!(e.on_slot(1, 10), ProductionAction::Rest);
    assert_eq!(e.state, SlotState::Idle);
    assert_eq!(e.slot, None);
    assert_eq!(e.on_claim(Some(pr_claim(1)), pr_tip()), ProductionAction::Unexpected);
}

#[test]
fn without_peers_the_node_rests_unless_forced() {
    let mut e = ProductionEngine::new(true, false);
    assert_eq!(e.on_slot(1, 0), ProductionAction::Rest);
    assert_eq!(e.state, SlotState::Idle);
    assert_eq!(e.slot, Some(1));
    assert_eq!(e.on_slot(2, 1), ProductionAction::Claim { slot: 2 });
    let mut forced = ProductionEngine::new(true, true);
    assert_eq!(forced.on_slot(1, 0), ProductionAction::Claim { slot: 1 });
}

#[test]
fn no_leading_key_means_rest() {
    let mut e = ProductionEngine::new(true, false);
    e.on_slot(1, 1);
    assert_eq!(e.on_claim(None, pr_tip()), ProductionAction::Rest);
    assert_eq!(e.state, SlotState::Idle);
    assert_eq!(e.on_built(Some(pr_built())), ProductionAction::Unexpected);
}

#[test]
fn failures_give_the_slot_up_and_the_next_slot_is_independent() {
    let mut e = ProductionEngine::new(true, false);
    e.on_slot(1, 1);
    assert_eq!(e.on_claim(Some(pr_claim(2)), pr_tip()), ProductionAction::Aborted(SlotFailure::ForeignClaim));
    assert_eq!(e.state, SlotState::Idle);
    e.on_slot(2, 1);
    assert_eq!(e.on_claim(Some(pr_claim(2)), None), ProductionAction::Aborted(SlotFailure::NoBestTip));
    e.on_slot(3, 1);
    assert_eq!(
        e.on_claim(Some(pr_claim(3)), Some(Tip { hash: pr_hash(1), number: u64::MAX })),
        ProductionAction::Aborted(SlotFailure::NumberOverflow)
    );
    e.on_slot(4, 1);
    e.on_claim(Some(pr_claim(4)), pr_tip());
    assert_eq!(e.on_built(None), ProductionAction::Aborted(SlotFailure::BuildFailed));
    assert_eq!(e.state, SlotState::Idle);
    assert_eq!(e.on_sealed(pr_hash(1), pr_seal()), ProductionAction::Unexpected);
    // No retry within the slot; the next tick starts afresh.
    assert_eq!(e.on_claim(Some(pr_claim(4)), pr_tip()), ProductionAction::Unexpected);
    assert_eq!(e.on_slot(5, 1), ProductionAction::Claim { slot: 5 });
    assert!(matches!(e.on_claim(Some(pr_claim(5)), pr_tip()), ProductionAction::Build { slot: 5, .. }));
}

#[test]
fn a_new_tick_abandons_the_slot_under_way() {
    let mut e = ProductionEngine::new(true, false);
    e.on_slot(1, 1);
    e.on_claim(Some(pr_claim(1)), pr_tip());
    e.on_built(Some(pr_built()));
    assert!(e.draft.is_some());
    assert_eq!(e.on_slot(2, 1), ProductionAction::Claim { slot: 2 });
    assert_eq!(e.state, SlotState::Claiming);
    assert_eq!(e.draft, None);
    assert_eq!(e.on_sealed(pr_hash(1), pr_seal()), ProductionAction::Unexpected);
}

#[test]
fn stale_ticks_are_not_taken() {
    let mut e = ProductionEngine::new(true, false);
    e.on_slot(5, 1);
    e.on_claim(Some(pr_claim(5)), pr_tip());
    let before = e.clone();
    assert_eq!(e.on_slot(5, 1), ProductionAction::Rest);
    assert_eq!(e.on_slot(4, 1), ProductionAction::Rest);
    assert_eq!(e, before);
}

#[test]
fn seal_digest_puts_claim_first_and_seal_last() {
    assert_eq!(
        seal_digest(pr_claim(1), &vec![], pr_seal()),
        vec![DigestItem::PreRuntime(pr_claim(1)), DigestItem::Seal(pr_seal())]
    );
    let digest = seal_digest(pr_claim(1), &vec![1, 2, 3], pr_seal());
    assert_eq!(digest.len(), 5);
    assert_eq!(digest[3], DigestItem::Other(3));
    assert_eq!(read_digest(&digest), Ok((pr_claim(1), pr_seal())));
}

#[test]
fn forced_authority_without_peers_produces_an_importable_block() {
    let set = AuthoritySet::new(0, vec![Authority { id: AuthorityId::from_u64(1), weight: 1 }]).unwrap();
    let timeline = AuthorityTimeline::new(Epoch { set, end_slot: 100, end_round: 100 }).unwrap();
    let mut queue = ImportQueue::new(ImportMode::Full, pr_hash(0), 0, timeline, 4);
    let mut engine = ProductionEngine::new(true, true);

    assert_eq!(engine.on_slot(9, 0), ProductionAction::Claim { slot: 9 });
    let tip = Tip { hash: queue.chain.best_hash(), number: queue.chain.best_number() };
    assert_eq!(
        engine.on_claim(Some(pr_claim(9)), Some(tip)),
        ProductionAction::Build { slot: 9, parent: pr_hash(0), number: 1 }
    );
    engine.on_built(Some(pr_built()));
    let item = match engine.on_sealed(pr_hash(1), pr_seal()) {
        ProductionAction::Submit(item) => item,
        other => panic!("{:?}", other),
    };
    assert_eq!(item.origin, Origin::Local);

    queue.submit(item);
    assert_eq!(
        queue.next(),
        ImportAction::Verify(Request::Claim { hash: pr_hash(1), claim: pr_claim(9), author: AuthorityId::from_u64(1) })
    );
    queue.claim_checked(true);
    queue.executed(true);
    match queue.seal_checked(true) {
        ImportAction::Finished(report) => {
            assert_eq!(report.outcome, ImportOutcome::Imported { new_best: true });
            assert_eq!(report.origin, Origin::Local);
            assert!(report.commit);
        },
        other => panic!("{:?}", other),
    }
    assert_eq!(queue.chain.best_hash(), pr_hash(1));
}
