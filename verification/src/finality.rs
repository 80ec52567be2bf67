//! Round-based finality voting: ballots weighted by authority, equivocations kept
//! as evidence, and the justification that a supermajority leaves behind.

use crate::authority::{
    has_member, is_quorum, lemma_weight_bounded, lemma_weight_disjoint, lemma_weight_grows, total_weight,
    weight_upto, Authority, AuthoritySet,
};
use crate::chain::ChainIndex;
use crate::primitives::{AuthorityId, BlockHash, Signature};
use vstd::prelude::*;

verus! {

/// One authority's vote in one round.
#[derive(Clone, Copy, Debug, PartialEq, Eq)]
pub struct FinalityVote {
    pub round: u64,
    pub target: BlockHash,
    pub voter: AuthorityId,
    pub signature: Signature,
}

/// The votes that made a block final: all of one round, all for one target, by
/// authorities that together hold a supermajority.
#[derive(Clone, Debug, PartialEq, Eq)]
pub struct Justification {
    pub round: u64,
    pub target: BlockHash,
    pub votes: Vec<FinalityVote>,
}

/// Two conflicting votes of one authority in one round.
#[derive(Clone, Copy, Debug, PartialEq, Eq)]
pub struct Equivocation {
    pub voter: AuthorityId,
    /// The vote that arrived first, which is the one that counts.
    pub first: FinalityVote,
    pub second: FinalityVote,
}

/// Why a justification proves nothing.
#[derive(Clone, Copy, Debug, PartialEq, Eq, Structural)]
pub enum JustificationError {
    /// A vote is for another round or another block.
    ForeignVote,
    /// A vote is by a key outside the authority set.
    UnknownVoter,
    /// The voters hold less than a supermajority.
    InsufficientWeight,
}

/// Some vote is by the given key.
pub open spec fn vote_by(votes: Seq<FinalityVote>, id: AuthorityId) -> bool {
    exists|k: int| 0 <= k < votes.len() && (#[trigger] votes[k]).voter == id
}

/// The members that have a vote among `votes`.
pub open spec fn backers(members: Seq<Authority>, votes: Seq<FinalityVote>) -> spec_fn(int) -> bool {
    |i: int| 0 <= i < members.len() && vote_by(votes, members[i].id)
}

/// The weight behind `votes`, each member counted once however often it voted.
pub open spec fn backing_weight(members: Seq<Authority>, votes: Seq<FinalityVote>) -> nat {
    weight_upto(members, backers(members, votes), members.len())
}

/// Every vote is for the given round and target.
pub open spec fn votes_agree(votes: Seq<FinalityVote>, round: u64, target: BlockHash) -> bool {
    forall|k: int| 0 <= k < votes.len() ==> (#[trigger] votes[k]).round == round && votes[k].target == target
}

/// Every vote is by a member.
pub open spec fn voters_known(votes: Seq<FinalityVote>, members: Seq<Authority>) -> bool {
    forall|k: int| 0 <= k < votes.len() ==> has_member(members, (#[trigger] votes[k]).voter)
}

/// The first reason, in the order of `JustificationError`, why the justification
/// does not hold against `members`.
pub open spec fn justification_fault(j: Justification, members: Seq<Authority>) -> Option<JustificationError> {
    if !votes_agree(j.votes@, j.round, j.target) {
        Some(JustificationError::ForeignVote)
    } else if !voters_known(j.votes@, members) {
        Some(JustificationError::UnknownVoter)
    } else if !is_quorum(backing_weight(members, j.votes@), total_weight(members)) {
        Some(JustificationError::InsufficientWeight)
    } else {
        None
    }
}

/// Checks a justification against the authority set of its round. The signatures
/// are not looked at.
pub fn check_justification(j: &Justification, set: &AuthoritySet) -> (r: Result<(), JustificationError>)
    requires
        set.wf(),
    ensures
        match r {
            Ok(_) => justification_fault(*j, set.members@) is None,
            Err(e) => justification_fault(*j, set.members@) == Some(e),
        },
{
    let n: usize = j.votes.len();
    let mut k: usize = 0;
    while k < n
        invariant
            n == j.votes@.len(),
            k <= n,
            votes_agree(j.votes@.take(k as int), j.round, j.target),
        decreases n - k,
    {
        if j.votes[k].round != j.round || j.votes[k].target != j.target {
            return Err(JustificationError::ForeignVote);
        }
        assert forall|q: int| 0 <= q < k + 1 implies (#[trigger] j.votes@.take(k + 1)[q]).round == j.round
            && j.votes@.take(k + 1)[q].target == j.target by {
            if q < k {
                assert(j.votes@.take(k as int)[q] == j.votes@[q]);
            }
        }
        k = k + 1;
    }
    assert(j.votes@.take(n as int) =~= j.votes@);
    let mut k: usize = 0;
    while k < n
        invariant
            n == j.votes@.len(),
            k <= n,
            votes_agree(j.votes@, j.round, j.target),
            voters_known(j.votes@.take(k as int), set.members@),
        decreases n - k,
    {
        if set.position(j.votes[k].voter).is_none() {
            return Err(JustificationError::UnknownVoter);
        }
        assert forall|q: int| 0 <= q < k + 1 implies has_member(
            set.members@,
            (#[trigger] j.votes@.take(k + 1)[q]).voter,
        ) by {
            if q < k {
                assert(j.votes@.take(k as int)[q] == j.votes@[q]);
            }
        }
        k = k + 1;
    }
    assert(j.votes@.take(n as int) =~= j.votes@);
    let weight: u64 = weigh_votes(&j.votes, set);
    if set.reaches_quorum(weight) {
        Ok(())
    } else {
        Err(JustificationError::InsufficientWeight)
    }
}

/// The weight of the members that have a vote among `votes`.
pub fn weigh_votes(votes: &Vec<FinalityVote>, set: &AuthoritySet) -> (w: u64)
    requires
        set.wf(),
    ensures
        w == backing_weight(set.members@, votes@),
{
    let m: usize = set.members.len();
    let n: usize = votes.len();
    let mut sum: u64 = 0;
    let mut i: usize = 0;
    while i < m
        invariant
            m == set.members@.len(),
            n == votes@.len(),
            i <= m,
            total_weight(set.members@) <= u64::MAX,
            sum == weight_upto(set.members@, backers(set.members@, votes@), i as nat),
        decreases m - i,
    {
        let id: AuthorityId = set.members[i].id;
        let mut found: bool = false;
        let mut k: usize = 0;
        while k < n && !found
            invariant
                n == votes@.len(),
                k <= n,
                found ==> vote_by(votes@, id),
                !found ==> forall|q: int| 0 <= q < k ==> (#[trigger] votes@[q]).voter != id,
            decreases n - k + if found { 0int } else { 1int },
        {
            if votes[k].voter == id {
                found = true;
            } else {
                k = k + 1;
            }
        }
        proof {
            lemma_weight_bounded(set.members@, backers(set.members@, votes@), (i + 1) as nat);
        }
        if found {
            sum = sum + set.members[i].weight;
        }
        i = i + 1;
    }
    sum
}

/// The members whose counted ballot is for `target`.
pub open spec fn ballot_for(ballots: Seq<Option<FinalityVote>>, target: BlockHash) -> spec_fn(int) -> bool {
    |i: int| 0 <= i < ballots.len() && ballots[i] is Some && ballots[i]->Some_0.target == target
}

/// The weight that `target` has gathered in a round.
pub open spec fn support(members: Seq<Authority>, ballots: Seq<Option<FinalityVote>>, target: BlockHash) -> nat {
    weight_upto(members, ballot_for(ballots, target), members.len())
}

/// The counted ballots for `target` among the first `n`, in the members' order.
pub open spec fn counted_votes(ballots: Seq<Option<FinalityVote>>, target: BlockHash, n: nat) -> Seq<FinalityVote>
    decreases n,
{
    if n == 0 || n > ballots.len() {
        Seq::<FinalityVote>::empty()
    } else {
        let rest = counted_votes(ballots, target, (n - 1) as nat);
        if ballot_for(ballots, target)(n - 1) {
            rest.push(ballots[n - 1]->Some_0)
        } else {
            rest
        }
    }
}

/// Each ballot is the vote of the member at its position, cast in round `number`.
pub open spec fn ballots_match(members: Seq<Authority>, ballots: Seq<Option<FinalityVote>>, number: u64) -> bool {
    &&& ballots.len() == members.len()
    &&& forall|i: int|
        0 <= i < ballots.len() && (#[trigger] ballots[i]) is Some ==> ballots[i]->Some_0.voter == members[i].id
            && ballots[i]->Some_0.round == number
}

/// Every counted vote for `target` is among `counted_votes`, and nothing else is.
pub proof fn lemma_counted_votes(
    members: Seq<Authority>,
    ballots: Seq<Option<FinalityVote>>,
    number: u64,
    target: BlockHash,
    n: nat,
)
    requires
        ballots_match(members, ballots, number),
        n <= ballots.len(),
    ensures
        votes_agree(counted_votes(ballots, target, n), number, target),
        voters_known(counted_votes(ballots, target, n), members),
        forall|i: int|
            0 <= i < n && #[trigger] ballot_for(ballots, target)(i) ==> vote_by(
                counted_votes(ballots, target, n),
                members[i].id,
            ),
    decreases n,
{
    if n > 0 {
        lemma_counted_votes(members, ballots, number, target, (n - 1) as nat);
        let rest = counted_votes(ballots, target, (n - 1) as nat);
        let all = counted_votes(ballots, target, n);
        if ballot_for(ballots, target)(n - 1) {
            assert(all == rest.push(ballots[n - 1]->Some_0));
            assert forall|k: int| 0 <= k < all.len() implies (#[trigger] all[k]).round == number && all[k].target
                == target && has_member(members, all[k].voter) by {
                if k < rest.len() {
                    assert(all[k] == rest[k]);
                } else {
                    assert(all[k] == ballots[n - 1]->Some_0);
                    assert(members[n - 1].id == all[k].voter);
                }
            }
            assert forall|i: int| 0 <= i < n && #[trigger] ballot_for(ballots, target)(i) implies vote_by(
                all,
                members[i].id,
            ) by {
                if i < n - 1 {
                    let k = choose|k: int| 0 <= k < rest.len() && (#[trigger] rest[k]).voter == members[i].id;
                    assert(all[k] == rest[k]);
                } else {
                    assert(all[rest.len() as int].voter == members[i].id);
                }
            }
        }
    }
}

/// The counted votes of a target that holds a supermajority are a justification
/// that stands.
pub proof fn lemma_quorum_justifies(
    members: Seq<Authority>,
    ballots: Seq<Option<FinalityVote>>,
    number: u64,
    target: BlockHash,
)
    requires
        ballots_match(members, ballots, number),
        is_quorum(support(members, ballots, target), total_weight(members)),
    ensures
        votes_agree(counted_votes(ballots, target, ballots.len()), number, target),
        voters_known(counted_votes(ballots, target, ballots.len()), members),
        is_quorum(
            backing_weight(members, counted_votes(ballots, target, ballots.len())),
            total_weight(members),
        ),
{
    lemma_counted_votes(members, ballots, number, target, ballots.len());
    let votes = counted_votes(ballots, target, ballots.len());
    lemma_weight_grows(members, ballot_for(ballots, target), backers(members, votes), members.len());
}

/// In one round at most one target gathers a supermajority.
pub proof fn law_quorum_is_unique(
    members: Seq<Authority>,
    ballots: Seq<Option<FinalityVote>>,
    one: BlockHash,
    other: BlockHash,
)
    requires
        one != other,
        is_quorum(support(members, ballots, one), total_weight(members)),
    ensures
        !is_quorum(support(members, ballots, other), total_weight(members)),
{
    lemma_weight_disjoint(members, ballot_for(ballots, one), ballot_for(ballots, other), members.len());
}

/// Why a vote is turned away.
#[derive(Clone, Copy, Debug, PartialEq, Eq, Structural)]
pub enum VoteError {
    /// The engine only observes.
    NotVoting,
    /// The vote is for another round than the current one.
    WrongRound,
    /// The voter is no member of the authority set in force.
    UnknownVoter,
    /// The signature does not verify.
    BadSignature,
}

/// What became of a vote.
#[derive(Clone, Debug, PartialEq, Eq)]
pub enum VoteOutcome {
    /// The vote counts; its target holds no supermajority yet.
    Counted,
    /// The vote completed a supermajority: the justification is to be imported,
    /// and the next round has begun.
    Quorum(Justification),
    /// The voter had voted for the same target before.
    Duplicate,
    /// The voter had voted for another target before. Both votes are kept as
    /// evidence, the authority is to be reported, and only the first one counts.
    Equivocated(Equivocation),
    Rejected(VoteError),
}

/// A vote that waits for its signature.
#[derive(Clone, Copy, Debug, PartialEq, Eq, Structural)]
pub struct VoteTemplate {
    pub round: u64,
    pub target: BlockHash,
    pub voter: AuthorityId,
}

/// The finality-voting engine.
#[derive(Clone, Debug, PartialEq, Eq)]
pub struct VotingEngine {
    /// Votes are counted; an observer counts none.
    pub voting: bool,
    /// The key this node votes with, if it holds one.
    pub own: Option<AuthorityId>,
    /// The authority set in force. It changes between rounds only.
    pub set: AuthoritySet,
    /// The current round.
    pub round: u64,
    /// For each member, by position, the vote that counts in the current round.
    pub ballots: Vec<Option<FinalityVote>>,
    /// The equivocations seen so far.
    pub evidence: Vec<Equivocation>,
    /// How long the current round waits for a supermajority.
    pub timeout_ms: u64,
    /// The wait of a round that follows a supermajority.
    pub base_timeout_ms: u64,
    /// The longest wait of any round.
    pub max_timeout_ms: u64,
}

/// The two votes of an equivocation are by one key, in one round, for two targets.
pub open spec fn is_equivocation(e: Equivocation) -> bool {
    &&& e.first.voter == e.voter
    &&& e.second.voter == e.voter
    &&& e.first.round == e.second.round
    &&& e.first.target != e.second.target
}

/// The wait of the round after one that timed out: twice as long, up to the cap.
pub open spec fn backed_off(timeout_ms: u64, max_timeout_ms: u64) -> u64 {
    if 2 * timeout_ms >= max_timeout_ms {
        max_timeout_ms
    } else {
        (2 * timeout_ms) as u64
    }
}

impl VotingEngine {
    /// The set is well formed, each ballot is the vote of the member at its
    /// position in the current round, each piece of evidence is an equivocation,
    /// and the wait lies between the first one and the cap.
    pub open spec fn wf(&self) -> bool {
        &&& self.set.wf()
        &&& ballots_match(self.set.members@, self.ballots@, self.round)
        &&& forall|k: int| 0 <= k < self.evidence@.len() ==> is_equivocation(#[trigger] self.evidence@[k])
        &&& self.base_timeout_ms <= self.timeout_ms <= self.max_timeout_ms
    }

    /// No member has a counted vote.
    pub open spec fn no_ballots(&self) -> bool {
        &&& self.ballots@.len() == self.set.members@.len()
        &&& forall|i: int| 0 <= i < self.ballots@.len() ==> (#[trigger] self.ballots@[i]) is None
    }

    /// An engine at the start of `round`. Where the largest wait is below the
    /// first one, every round waits the first one.
    pub fn new(
        voting: bool,
        own: Option<AuthorityId>,
        set: AuthoritySet,
        round: u64,
        base_timeout_ms: u64,
        max_timeout_ms: u64,
    ) -> (e: VotingEngine)
        requires
            set.wf(),
        ensures
            e.wf(),
            e.no_ballots(),
            e.voting == voting,
            e.own == own,
            e.set == set,
            e.round == round,
            e.evidence@.len() == 0,
            e.timeout_ms == base_timeout_ms,
            e.base_timeout_ms == base_timeout_ms,
            e.max_timeout_ms == if max_timeout_ms < base_timeout_ms {
                base_timeout_ms
            } else {
                max_timeout_ms
            },
    {
        let ballots = empty_ballots(set.members.len());
        let cap: u64 = if max_timeout_ms < base_timeout_ms {
            base_timeout_ms
        } else {
            max_timeout_ms
        };
        VotingEngine {
            voting,
            own,
            set,
            round,
            ballots,
            evidence: Vec::new(),
            timeout_ms: base_timeout_ms,
            base_timeout_ms,
            max_timeout_ms: cap,
        }
    }

    /// The weight that `target` has gathered in the current round.
    pub fn support_of(&self, target: BlockHash) -> (w: u64)
        requires
            self.wf(),
        ensures
            w == support(self.set.members@, self.ballots@, target),
    {
        let m: usize = self.set.members.len();
        let mut sum: u64 = 0;
        let mut i: usize = 0;
        while i < m
            invariant
                m == self.set.members@.len(),
                m == self.ballots@.len(),
                i <= m,
                total_weight(self.set.members@) <= u64::MAX,
                sum == weight_upto(self.set.members@, ballot_for(self.ballots@, target), i as nat),
            decreases m - i,
        {
            proof {
                lemma_weight_bounded(self.set.members@, ballot_for(self.ballots@, target), (i + 1) as nat);
            }
            let counts: bool = match self.ballots[i] {
                Some(v) => v.target == target,
                None => false,
            };
            if counts {
                sum = sum + self.set.members[i].weight;
            }
            i = i + 1;
        }
        sum
    }

    /// The counted votes for `target`, in the members' order.
    pub fn collect_votes(&self, target: BlockHash) -> (votes: Vec<FinalityVote>)
        ensures
            votes@ == counted_votes(self.ballots@, target, self.ballots@.len()),
    {
        let n: usize = self.ballots.len();
        let mut votes: Vec<FinalityVote> = Vec::new();
        let mut i: usize = 0;
        while i < n
            invariant
                n == self.ballots@.len(),
                i <= n,
                votes@ == counted_votes(self.ballots@, target, i as nat),
            decreases n - i,
        {
            match self.ballots[i] {
                Some(v) => {
                    if v.target == target {
                        votes.push(v);
                    }
                },
                None => {},
            }
            i = i + 1;
        }
        votes
    }

    /// The vote this node should sign and cast: for the best block, which stands
    /// on the final branch, if the node holds a key of the set in force and has not
    /// voted in the current round.
    pub fn own_vote(&self, chain: &ChainIndex) -> (r: Option<VoteTemplate>)
        requires
            self.wf(),
            chain.wf(),
        ensures
            match r {
                Some(t) => {
                    &&& self.voting
                    &&& self.own == Some(t.voter)
                    &&& t.round == self.round
                    &&& t.target == chain.records@[chain.best as int].hash
                    &&& crate::chain::descends(chain.records@, chain.last_final(), chain.best as int)
                    &&& exists|i: int|
                        0 <= i < self.ballots@.len() && self.set.members@[i].id == t.voter
                            && #[trigger] self.ballots@[i] is None
                },
                None => !self.voting || self.own is None || !has_member(self.set.members@, self.own->Some_0)
                    || exists|i: int|
                    0 <= i < self.ballots@.len() && self.set.members@[i].id == self.own->Some_0
                        && #[trigger] self.ballots@[i] is Some,
            },
    {
        if !self.voting {
            return None;
        }
        match self.own {
            None => None,
            Some(id) => match self.set.position(id) {
                None => None,
                Some(i) => {
                    if self.ballots[i].is_some() {
                        None
                    } else {
                        Some(VoteTemplate { round: self.round, target: chain.best_hash(), voter: id })
                    }
                },
            },
        }
    }

    /// Takes a vote from the network or from this node, with the verdict on its
    /// signature.
    ///
    /// A vote for another round, by a stranger or with a bad signature is turned
    /// away and changes nothing. A voter's first vote of the round counts. A second
    /// one for the same target is dropped; one for another target is an
    /// equivocation: both votes go to the evidence and the tally stays as it was.
    /// When the counted vote lifts its target to a supermajority, the counted votes
    /// for it leave as a justification and the next round begins with the first
    /// wait.
    pub fn on_vote(&mut self, vote: FinalityVote, signature_ok: bool) -> (r: VoteOutcome)
        requires
            old(self).wf(),
            old(self).round < u64::MAX,
        ensures
            final(self).wf(),
            final(self).set == old(self).set,
            final(self).voting == old(self).voting,
            final(self).own == old(self).own,
            final(self).base_timeout_ms == old(self).base_timeout_ms,
            final(self).max_timeout_ms == old(self).max_timeout_ms,
            vote_outcome(*old(self), vote, signature_ok, r, *final(self)),
    {
        if !self.voting {
            return VoteOutcome::Rejected(VoteError::NotVoting);
        }
        if vote.round != self.round {
            return VoteOutcome::Rejected(VoteError::WrongRound);
        }
        let at: usize = match self.set.position(vote.voter) {
            None => {
                return VoteOutcome::Rejected(VoteError::UnknownVoter);
            },
            Some(i) => i,
        };
        proof {
            lemma_position_unique(self.set.members@, at as int, vote.voter);
        }
        if !signature_ok {
            return VoteOutcome::Rejected(VoteError::BadSignature);
        }
        match self.ballots[at] {
            Some(first) => {
                if first.target == vote.target {
                    VoteOutcome::Duplicate
                } else {
                    let e = Equivocation { voter: vote.voter, first, second: vote };
                    self.evidence.push(e);
                    VoteOutcome::Equivocated(e)
                }
            },
            None => {
                self.ballots.set(at, Some(vote));
                let weight: u64 = self.support_of(vote.target);
                if self.set.reaches_quorum(weight) {
                    let votes = self.collect_votes(vote.target);
                    let j = Justification { round: self.round, target: vote.target, votes };
                    proof {
                        lemma_quorum_justifies(self.set.members@, self.ballots@, self.round, vote.target);
                    }
                    self.round = self.round + 1;
                    self.ballots = empty_ballots(self.set.members.len());
                    self.timeout_ms = self.base_timeout_ms;
                    VoteOutcome::Quorum(j)
                } else {
                    VoteOutcome::Counted
                }
            },
        }
    }

    /// The round ended without a supermajority: the next one begins, with no
    /// ballots and twice the wait, up to the cap.
    pub fn on_timeout(&mut self)
        requires
            old(self).wf(),
            old(self).round < u64::MAX,
        ensures
            final(self).wf(),
            final(self).no_ballots(),
            final(self).round == old(self).round + 1,
            final(self).timeout_ms == backed_off(old(self).timeout_ms, old(self).max_timeout_ms),
            final(self).set == old(self).set,
            final(self).evidence == old(self).evidence,
            final(self).voting == old(self).voting,
            final(self).own == old(self).own,
            final(self).base_timeout_ms == old(self).base_timeout_ms,
            final(self).max_timeout_ms == old(self).max_timeout_ms,
    {
        self.round = self.round + 1;
        self.ballots = empty_ballots(self.set.members.len());
        self.timeout_ms = if self.timeout_ms >= self.max_timeout_ms - self.timeout_ms {
            self.max_timeout_ms
        } else {
            2 * self.timeout_ms
        };
    }

    /// A new authority set takes over. It does so between rounds: the next round
    /// begins under it, with no ballots and the first wait. A set that is not of a
    /// later generation changes nothing.
    pub fn enter_epoch(&mut self, set: AuthoritySet) -> (entered: bool)
        requires
            old(self).wf(),
            old(self).round < u64::MAX,
            set.wf(),
        ensures
            final(self).wf(),
            entered == (set.generation > old(self).set.generation),
            entered ==> final(self).set == set && final(self).round == old(self).round + 1 && final(self).no_ballots() && final(self).timeout_ms == old(self).base_timeout_ms,
            !entered ==> *final(self) == *old(self),
            final(self).evidence == old(self).evidence,
            final(self).voting == old(self).voting,
            final(self).own == old(self).own,
            final(self).base_timeout_ms == old(self).base_timeout_ms,
            final(self).max_timeout_ms == old(self).max_timeout_ms,
    {
        if set.generation <= self.set.generation {
            return false;
        }
        self.ballots = empty_ballots(set.members.len());
        self.set = set;
        self.round = self.round + 1;
        self.timeout_ms = self.base_timeout_ms;
        true
    }
}

/// What `on_vote` owes: `r` and the engine `after` for a vote that meets the
/// engine `before`.
pub open spec fn vote_outcome(
    before: VotingEngine,
    vote: FinalityVote,
    signature_ok: bool,
    r: VoteOutcome,
    after: VotingEngine,
) -> bool {
    let members = before.set.members@;
    if !before.voting {
        r == VoteOutcome::Rejected(VoteError::NotVoting) && after == before
    } else if vote.round != before.round {
        r == VoteOutcome::Rejected(VoteError::WrongRound) && after == before
    } else if !has_member(members, vote.voter) {
        r == VoteOutcome::Rejected(VoteError::UnknownVoter) && after == before
    } else if !signature_ok {
        r == VoteOutcome::Rejected(VoteError::BadSignature) && after == before
    } else {
        let at = choose|i: int| 0 <= i < members.len() && (#[trigger] members[i]).id == vote.voter;
        match before.ballots@[at] {
            Some(first) => {
                if first.target == vote.target {
                    r == VoteOutcome::Duplicate && after == before
                } else {
                    &&& r == VoteOutcome::Equivocated(Equivocation { voter: vote.voter, first, second: vote })
                    &&& after.evidence@ == before.evidence@.push(
                        Equivocation { voter: vote.voter, first, second: vote },
                    )
                    &&& after.ballots@ == before.ballots@
                    &&& after.round == before.round
                    &&& after.timeout_ms == before.timeout_ms
                }
            },
            None => {
                let counted = before.ballots@.update(at, Some(vote));
                &&& after.evidence@ == before.evidence@
                &&& if is_quorum(support(members, counted, vote.target), total_weight(members)) {
                    &&& r is Quorum
                    &&& r->Quorum_0.round == before.round
                    &&& r->Quorum_0.target == vote.target
                    &&& r->Quorum_0.votes@ == counted_votes(counted, vote.target, counted.len())
                    &&& justification_fault(r->Quorum_0, members) is None
                    &&& after.round == before.round + 1
                    &&& after.no_ballots()
                    &&& after.timeout_ms == before.base_timeout_ms
                } else {
                    &&& r == VoteOutcome::Counted
                    &&& after.ballots@ == counted
                    &&& after.round == before.round
                    &&& after.timeout_ms == before.timeout_ms
                }
            },
        }
    }
}

/// With distinct keys, the member that carries a key is the only one.
pub proof fn lemma_position_unique(members: Seq<Authority>, at: int, id: AuthorityId)
    requires
        crate::authority::distinct_ids(members),
        0 <= at < members.len(),
        members[at].id == id,
    ensures
        has_member(members, id),
        (choose|i: int| 0 <= i < members.len() && (#[trigger] members[i]).id == id) == at,
{
    let c = choose|i: int| 0 <= i < members.len() && (#[trigger] members[i]).id == id;
    if c < at {
        assert(members[c].id != members[at].id);
    }
    if at < c {
        assert(members[at].id != members[c].id);
    }
}

/// Whether a block with this number is one for which a justification is asked
/// for even though nothing else calls for it: every `period`-th block is, and
/// with a period of zero none.
pub fn justification_due(number: u64, period: u32) -> (due: bool)
    ensures
        due == (period > 0 && number as int % period as int == 0),
{
    period > 0 && number % (period as u64) == 0
}

/// As many empty ballots as there are members.
pub fn empty_ballots(n: usize) -> (ballots: Vec<Option<FinalityVote>>)
    ensures
        ballots@.len() == n,
        forall|i: int| 0 <= i < n ==> (#[trigger] ballots@[i]) is None,
{
    let mut ballots: Vec<Option<FinalityVote>> = Vec::new();
    let mut i: usize = 0;
    while i < n
        invariant
            i <= n,
            ballots@.len() == i,
            forall|k: int| 0 <= k < i ==> (#[trigger] ballots@[k]) is None,
        decreases n - i,
    {
        ballots.push(None);
        i = i + 1;
    }
    ballots
}

/// An equivocating vote is kept and counts for nothing: after it the evidence
/// holds both of the voter's votes, and every target has the weight it had.
pub proof fn law_equivocation_counts_once(
    before: VotingEngine,
    vote: FinalityVote,
    r: VoteOutcome,
    after: VotingEngine,
    target: BlockHash,
)
    requires
        before.wf(),
        vote_outcome(before, vote, true, r, after),
        r is Equivocated,
        after.set == before.set,
    ensures
        after.evidence@.len() == before.evidence@.len() + 1,
        after.evidence@.last().second == vote,
        after.evidence@.last().first.voter == vote.voter,
        after.evidence@.last().first.round == vote.round,
        after.evidence@.last().first.target != vote.target,
        exists|i: int|
            0 <= i < before.ballots@.len() && #[trigger] before.ballots@[i] == Some(after.evidence@.last().first),
        support(after.set.members@, after.ballots@, target) == support(
            before.set.members@,
            before.ballots@,
            target,
        ),
{
    let members = before.set.members@;
    let at = choose|i: int| 0 <= i < members.len() && (#[trigger] members[i]).id == vote.voter;
    assert(before.ballots@[at] is Some);
}

} // verus!
