use node_service::authority::{Authority, AuthoritySet};
use node_service::chain::ChainIndex;
use node_service::finality::{
    check_justification, empty_ballots, justification_due, weigh_votes, Equivocation, FinalityVote, Justification, JustificationError,
    VoteError, VoteOutcome, VoteTemplate, VotingEngine,
};
use node_service::primitives::{AuthorityId, BlockHash, Signature};

fn fi_id(n: u64) -> AuthorityId {
    AuthorityId::from_u64(n)
}

fn fi_hash(n: u64) -> BlockHash {
    BlockHash::from_u64(n)
}

fn fi_set(generation: u64, weights: &[u64]) -> AuthoritySet {
    let members = weights.iter().enumerate().map(|(i, w)| Authority { id: fi_id(i as u64 + 1), weight: *w }).collect();
    AuthoritySet::new(generation, members).unwrap()
}

fn fi_vote(round: u64, target: u64, voter: u64) -> FinalityVote {
    FinalityVote { round, target: fi_hash(target), voter: fi_id(voter), signature: Signature { bytes: [voter as u8; 64] } }
}

fn fi_engine(weights: &[u64]) -> VotingEngine {
    VotingEngine::new(true, Some(fi_id(1)), fi_set(0, weights), 1, 333, 5000)
}

#[test]
fn new_engine_starts_with_no_ballots_and_the_first_wait() {
    let e = fi_engine(&[1, 1, 1, 1]);
    assert_eq!(e.round, 1);
    assert_eq!(e.ballots, vec![None, None, None, None]);
    assert!(e.evidence.is_empty());
    assert_eq!((e.timeout_ms, e.base_timeout_ms, e.max_timeout_ms), (333, 333, 5000));
    let low_cap = VotingEngine::new(true, None, fi_set(0, &[1]), 0, 333, 100);
    assert_eq!((low_cap.timeout_ms, low_cap.max_timeout_ms), (333, 333));
    assert_eq!(empty_ballots(3), vec![None, None, None]);
}

#[test]
fn three_of_four_finalize_and_the_fourth_vote_never_does() {
    let mut e = fi_engine(&[1, 1, 1, 1]);
    assert_eq!(e.on_vote(fi_vote(1, 10, 1), true), VoteOutcome::Counted);
    assert_eq!(e.support_of(fi_hash(10)), 1);
    assert_eq!(e.on_vote(fi_vote(1, 10, 2), true), VoteOutcome::Counted);
    assert_eq!(e.support_of(fi_hash(10)), 2);
    let third = e.on_vote(fi_vote(1, 10, 3), true);
    let justification = Justification {
        round: 1,
        target: fi_hash(10),
        votes: vec![fi_vote(1, 10, 1), fi_vote(1, 10, 2), fi_vote(1, 10, 3)],
    };
    assert_eq!(third, VoteOutcome::Quorum(justification.clone()));
    assert_eq!(check_justification(&justification, &e.set), Ok(()));
    assert_eq!(e.round, 2);
    assert_eq!(e.ballots, vec![None, None, None, None]);

    // The fourth authority votes for another block: too late for the round, and
    // one vote of four is no supermajority in any round.
    assert_eq!(e.on_vote(fi_vote(1, 20, 4), true), VoteOutcome::Rejected(VoteError::WrongRound));
    assert_eq!(e.on_vote(fi_vote(2, 20, 4), true), VoteOutcome::Counted);
    assert_eq!(e.support_of(fi_hash(20)), 1);
    let lone = Justification { round: 2, target: fi_hash(20), votes: vec![fi_vote(2, 20, 4)] };
    assert_eq!(check_justification(&lone, &e.set), Err(JustificationError::InsufficientWeight));
}

#[test]
fn fourth_vote_before_the_third_changes_nothing() {
    let mut e = fi_engine(&[1, 1, 1, 1]);
    e.on_vote(fi_vote(1, 10, 1), true);
    assert_eq!(e.on_vote(fi_vote(1, 20, 4), true), VoteOutcome::Counted);
    e.on_vote(fi_vote(1, 10, 2), true);
    match e.on_vote(fi_vote(1, 10, 3), true) {
        VoteOutcome::Quorum(j) => {
            assert_eq!(j.target, fi_hash(10));
            assert_eq!(j.votes, vec![fi_vote(1, 10, 1), fi_vote(1, 10, 2), fi_vote(1, 10, 3)]);
        },
        other => panic!("{:?}", other),
    }
}

#[test]
fn equivocation_is_kept_as_evidence_and_counts_once() {
    let mut e = fi_engine(&[1, 1, 1, 1]);
    e.on_vote(fi_vote(1, 10, 1), true);
    e.on_vote(fi_vote(1, 10, 2), true);
    let second = e.on_vote(fi_vote(1, 20, 2), true);
    let evidence = Equivocation { voter: fi_id(2), first: fi_vote(1, 10, 2), second: fi_vote(1, 20, 2) };
    assert_eq!(second, VoteOutcome::Equivocated(evidence));
    assert_eq!(e.evidence, vec![evidence]);
    assert_eq!(e.support_of(fi_hash(10)), 2);
    assert_eq!(e.support_of(fi_hash(20)), 0);
    assert_eq!(e.round, 1);
    // Voting goes on with the weight that is left.
    assert_eq!(e.on_vote(fi_vote(1, 20, 3), true), VoteOutcome::Counted);
    assert_eq!(e.on_vote(fi_vote(1, 20, 4), true), VoteOutcome::Counted);
    assert_eq!(e.support_of(fi_hash(20)), 2);
    // A third vote of the equivocator is evidence again, against its first one.
    let third = e.on_vote(fi_vote(1, 30, 2), true);
    assert_eq!(
        third,
        VoteOutcome::Equivocated(Equivocation { voter: fi_id(2), first: fi_vote(1, 10, 2), second: fi_vote(1, 30, 2) })
    );
    assert_eq!(e.evidence.len(), 2);
    // The evidence outlives the round.
    e.on_timeout();
    assert_eq!(e.evidence.len(), 2);
}

#[test]
fn repeated_vote_is_dropped() {
    let mut e = fi_engine(&[1, 1, 1, 1]);
    e.on_vote(fi_vote(1, 10, 1), true);
    let before = e.clone();
    assert_eq!(e.on_vote(fi_vote(1, 10, 1), true), VoteOutcome::Duplicate);
    assert_eq!(e, before);
}

#[test]
fn votes_are_turned_away_in_order_of_the_checks() {
    let mut e = fi_engine(&[1, 1, 1, 1]);
    let before = e.clone();
    assert_eq!(e.on_vote(fi_vote(2, 10, 9), false), VoteOutcome::Rejected(VoteError::WrongRound));
    assert_eq!(e.on_vote(fi_vote(0, 10, 1), true), VoteOutcome::Rejected(VoteError::WrongRound));
    assert_eq!(e.on_vote(fi_vote(1, 10, 9), false), VoteOutcome::Rejected(VoteError::UnknownVoter));
    assert_eq!(e.on_vote(fi_vote(1, 10, 1), false), VoteOutcome::Rejected(VoteError::BadSignature));
    assert_eq!(e, before);
    let mut observer = VotingEngine::new(false, Some(fi_id(1)), fi_set(0, &[1, 1]), 1, 333, 5000);
    assert_eq!(observer.on_vote(fi_vote(1, 10, 1), true), VoteOutcome::Rejected(VoteError::NotVoting));
    assert_eq!(observer.ballots, vec![None, None]);
}

#[test]
fn weights_decide_not_head_counts() {
    let mut e = fi_engine(&[10, 3, 2]);
    assert_eq!(e.on_vote(fi_vote(1, 10, 2), true), VoteOutcome::Counted);
    assert_eq!(e.on_vote(fi_vote(1, 10, 3), true), VoteOutcome::Counted);
    assert_eq!(e.support_of(fi_hash(10)), 5);
    match e.on_vote(fi_vote(1, 20, 1), true) {
        VoteOutcome::Quorum(j) => {
            assert_eq!(j.target, fi_hash(20));
            assert_eq!(j.votes, vec![fi_vote(1, 20, 1)]);
            assert_eq!(weigh_votes(&j.votes, &e.set), 10);
        },
        other => panic!("{:?}", other),
    }
}

#[test]
fn single_authority_finalizes_alone() {
    let mut e = fi_engine(&[1]);
    assert!(matches!(e.on_vote(fi_vote(1, 10, 1), true), VoteOutcome::Quorum(_)));
    assert_eq!(e.round, 2);
}

#[test]
fn timeouts_back_off_up_to_the_cap_and_quorum_resets() {
    let mut e = fi_engine(&[1, 1]);
    let mut waits = Vec::new();
    for _ in 0..6 {
        e.on_timeout();
        waits.push(e.timeout_ms);
    }
    assert_eq!(waits, vec![666, 1332, 2664, 5000, 5000, 5000]);
    assert_eq!(e.round, 7);
    e.on_vote(fi_vote(7, 10, 1), true);
    assert_eq!(e.timeout_ms, 5000);
    e.on_timeout();
    assert_eq!(e.ballots, vec![None, None]);
    e.on_vote(fi_vote(8, 10, 1), true);
    assert!(matches!(e.on_vote(fi_vote(8, 10, 2), true), VoteOutcome::Quorum(_)));
    assert_eq!(e.timeout_ms, 333);
    assert_eq!(e.round, 9);

    let mut large = VotingEngine::new(true, None, fi_set(0, &[1]), 0, u64::MAX - 1, u64::MAX);
    large.on_timeout();
    assert_eq!(large.timeout_ms, u64::MAX);
}

#[test]
fn authority_set_changes_between_rounds_only() {
    let mut e = fi_engine(&[1, 1, 1, 1]);
    e.on_vote(fi_vote(1, 10, 1), true);
    e.on_timeout();
    let before = e.clone();
    assert!(!e.enter_epoch(fi_set(0, &[1, 1])));
    assert_eq!(e, before);
    assert!(e.enter_epoch(fi_set(1, &[1, 1])));
    assert_eq!(e.round, 3);
    assert_eq!(e.set.generation, 1);
    assert_eq!(e.ballots, vec![None, None]);
    assert_eq!(e.timeout_ms, 333);
    assert_eq!(e.on_vote(fi_vote(3, 10, 3), true), VoteOutcome::Rejected(VoteError::UnknownVoter));
    e.on_vote(fi_vote(3, 10, 1), true);
    assert!(matches!(e.on_vote(fi_vote(3, 10, 2), true), VoteOutcome::Quorum(_)));
}

#[test]
fn own_vote_is_for_the_best_block_once_a_round() {
    let mut chain = ChainIndex::new(fi_hash(0), 0);
    chain.append(fi_hash(1), fi_hash(0), 1, 0);
    chain.append(fi_hash(2), fi_hash(1), 2, 1);
    let mut e = fi_engine(&[1, 1, 1, 1]);
    assert_eq!(e.own_vote(&chain), Some(VoteTemplate { round: 1, target: fi_hash(2), voter: fi_id(1) }));
    e.on_vote(fi_vote(1, 2, 1), true);
    assert_eq!(e.own_vote(&chain), None);
    e.on_timeout();
    assert_eq!(e.own_vote(&chain), Some(VoteTemplate { round: 2, target: fi_hash(2), voter: fi_id(1) }));

    let keyless = VotingEngine::new(true, None, fi_set(0, &[1, 1]), 1, 333, 5000);
    assert_eq!(keyless.own_vote(&chain), None);
    let stranger = VotingEngine::new(true, Some(fi_id(9)), fi_set(0, &[1, 1]), 1, 333, 5000);
    assert_eq!(stranger.own_vote(&chain), None);
    let observer = VotingEngine::new(false, Some(fi_id(1)), fi_set(0, &[1, 1]), 1, 333, 5000);
    assert_eq!(observer.own_vote(&chain), None);
}

#[test]
fn justification_threshold_is_exact() {
    let set = fi_set(0, &[1, 1, 1, 1, 1, 1]);
    for n in 0..=6u64 {
        let votes: Vec<FinalityVote> = (1..=n).map(|v| fi_vote(4, 10, v)).collect();
        let j = Justification { round: 4, target: fi_hash(10), votes };
        let expected = if n >= 4 { Ok(()) } else { Err(JustificationError::InsufficientWeight) };
        assert_eq!(check_justification(&j, &set), expected);
        assert_eq!(weigh_votes(&j.votes, &set), n);
    }
}

#[test]
fn justification_counts_each_voter_once() {
    let set = fi_set(0, &[1, 1, 1, 1]);
    let votes = vec![fi_vote(4, 10, 1), fi_vote(4, 10, 1), fi_vote(4, 10, 2), fi_vote(4, 10, 2), fi_vote(4, 10, 1)];
    assert_eq!(weigh_votes(&votes, &set), 2);
    let j = Justification { round: 4, target: fi_hash(10), votes };
    assert_eq!(check_justification(&j, &set), Err(JustificationError::InsufficientWeight));
}

#[test]
fn justification_faults_in_order() {
    let set = fi_set(0, &[1, 1, 1]);
    let j = Justification { round: 4, target: fi_hash(10), votes: vec![fi_vote(4, 10, 9), fi_vote(5, 10, 1)] };
    assert_eq!(check_justification(&j, &set), Err(JustificationError::ForeignVote));
    let j = Justification { round: 4, target: fi_hash(10), votes: vec![fi_vote(4, 11, 1)] };
    assert_eq!(check_justification(&j, &set), Err(JustificationError::ForeignVote));
    let j = Justification {
        round: 4,
        target: fi_hash(10),
        votes: vec![fi_vote(4, 10, 1), fi_vote(4, 10, 2), fi_vote(4, 10, 9)],
    };
    assert_eq!(check_justification(&j, &set), Err(JustificationError::UnknownVoter));
    let j = Justification { round: 4, target: fi_hash(10), votes: vec![] };
    assert_eq!(check_justification(&j, &set), Err(JustificationError::InsufficientWeight));
}

#[test]
fn collect_votes_follows_the_order_of_the_set() {
    let mut e = fi_engine(&[1, 1, 1, 1, 1, 1]);
    for voter in [5, 2, 4] {
        e.on_vote(fi_vote(1, 10, voter), true);
    }
    e.on_vote(fi_vote(1, 20, 3), true);
    assert_eq!(e.collect_votes(fi_hash(10)), vec![fi_vote(1, 10, 2), fi_vote(1, 10, 4), fi_vote(1, 10, 5)]);
    assert_eq!(e.collect_votes(fi_hash(20)), vec![fi_vote(1, 20, 3)]);
    assert!(e.collect_votes(fi_hash(30)).is_empty());
}

#[test]
fn every_period_th_block_asks_for_a_justification() {
    assert!(justification_due(0, 512));
    assert!(justification_due(512, 512));
    assert!(justification_due(1024, 512));
    assert!(!justification_due(1, 512));
    assert!(!justification_due(511, 512));
    assert!(!justification_due(513, 512));
    assert!(justification_due(7, 1));
    assert!(!justification_due(0, 0));
    assert!(!justification_due(512, 0));
    assert!(justification_due(u64::MAX, u32::MAX));
    assert!(!justification_due(u64::MAX - 1, u32::MAX));
}
