//! Authority sets, their voting weight, and the epochs through which they succeed
//! one another.

use crate::primitives::AuthorityId;
use vstd::prelude::*;

verus! {

/// One authority with its voting weight.
#[derive(Clone, Copy, Debug, PartialEq, Eq, Structural)]
pub struct Authority {
    pub id: AuthorityId,
    pub weight: u64,
}

/// Why a list of authorities is no authority set.
#[derive(Clone, Copy, Debug, PartialEq, Eq, Structural)]
pub enum AuthorityError {
    /// The list is empty.
    Empty,
    /// An authority has weight zero.
    ZeroWeight,
    /// Two entries carry the same key.
    DuplicateAuthority,
    /// The weights add up to more than a `u64` holds.
    WeightOverflow,
}

/// The weight of those among the first `n` members whose position satisfies `chosen`.
pub open spec fn weight_upto(members: Seq<Authority>, chosen: spec_fn(int) -> bool, n: nat) -> nat
    decreases n,
{
    if n == 0 || n > members.len() {
        0
    } else {
        weight_upto(members, chosen, (n - 1) as nat) + if chosen(n - 1) {
            members[n - 1].weight as nat
        } else {
            0nat
        }
    }
}

/// The choice of every member.
pub open spec fn everyone() -> spec_fn(int) -> bool {
    |i: int| true
}

/// The weight of all members.
pub open spec fn total_weight(members: Seq<Authority>) -> nat {
    weight_upto(members, everyone(), members.len())
}

/// No key occurs twice.
pub open spec fn distinct_ids(members: Seq<Authority>) -> bool {
    forall|i: int, j: int| 0 <= i < j < members.len() ==> (#[trigger] members[i]).id != (#[trigger] members[j]).id
}

/// Every member has a positive weight.
pub open spec fn positive_weights(members: Seq<Authority>) -> bool {
    forall|i: int| 0 <= i < members.len() ==> (#[trigger] members[i]).weight > 0
}

/// Some member carries the key.
pub open spec fn has_member(members: Seq<Authority>, id: AuthorityId) -> bool {
    exists|i: int| 0 <= i < members.len() && (#[trigger] members[i]).id == id
}

/// A supermajority: at least two thirds of a positive total.
pub open spec fn is_quorum(weight: nat, total: nat) -> bool {
    total > 0 && 3 * weight >= 2 * total
}

/// The first reason, in the order of `AuthorityError`, why `members` is no
/// authority set.
pub open spec fn set_fault(members: Seq<Authority>) -> Option<AuthorityError> {
    if members.len() == 0 {
        Some(AuthorityError::Empty)
    } else if !positive_weights(members) {
        Some(AuthorityError::ZeroWeight)
    } else if !distinct_ids(members) {
        Some(AuthorityError::DuplicateAuthority)
    } else if total_weight(members) > u64::MAX {
        Some(AuthorityError::WeightOverflow)
    } else {
        None
    }
}

/// The chosen weight grows with the prefix.
pub proof fn lemma_weight_prefix(members: Seq<Authority>, chosen: spec_fn(int) -> bool, a: nat, b: nat)
    requires
        a <= b <= members.len(),
    ensures
        weight_upto(members, chosen, a) <= weight_upto(members, chosen, b),
    decreases b,
{
    if a < b {
        lemma_weight_prefix(members, chosen, a, (b - 1) as nat);
    }
}

/// Choosing more members gives no less weight.
pub proof fn lemma_weight_grows(
    members: Seq<Authority>,
    fewer: spec_fn(int) -> bool,
    more: spec_fn(int) -> bool,
    n: nat,
)
    requires
        n <= members.len(),
        forall|i: int| 0 <= i < n && #[trigger] fewer(i) ==> more(i),
    ensures
        weight_upto(members, fewer, n) <= weight_upto(members, more, n),
    decreases n,
{
    if n > 0 {
        lemma_weight_grows(members, fewer, more, (n - 1) as nat);
    }
}

/// Two choices with no position in common weigh together no more than all members.
pub proof fn lemma_weight_disjoint(
    members: Seq<Authority>,
    one: spec_fn(int) -> bool,
    other: spec_fn(int) -> bool,
    n: nat,
)
    requires
        n <= members.len(),
        forall|i: int| 0 <= i < n ==> !(#[trigger] one(i) && other(i)),
    ensures
        weight_upto(members, one, n) + weight_upto(members, other, n) <= weight_upto(members, everyone(), n),
    decreases n,
{
    if n > 0 {
        lemma_weight_disjoint(members, one, other, (n - 1) as nat);
        assert(!(one(n - 1) && other(n - 1)));
    }
}

/// No choice weighs more than all members.
pub proof fn lemma_weight_bounded(members: Seq<Authority>, chosen: spec_fn(int) -> bool, n: nat)
    requires
        n <= members.len(),
    ensures
        weight_upto(members, chosen, n) <= total_weight(members),
{
    lemma_weight_grows(members, chosen, everyone(), n);
    lemma_weight_prefix(members, everyone(), n, members.len());
}

/// Positive weights add up to a positive total.
pub proof fn lemma_total_positive(members: Seq<Authority>)
    requires
        members.len() > 0,
        positive_weights(members),
    ensures
        total_weight(members) > 0,
{
    lemma_weight_prefix(members, everyone(), 1, members.len());
    assert(weight_upto(members, everyone(), 0) == 0);
    assert(weight_upto(members, everyone(), 1) == members[0].weight);
}

/// The authorities of one epoch, in the order in which slot claims index them.
#[derive(Clone, Debug, PartialEq, Eq)]
pub struct AuthoritySet {
    /// Counts the sets since genesis; a later set has a greater generation.
    pub generation: u64,
    pub members: Vec<Authority>,
}

impl AuthoritySet {
    /// The set is not empty, its keys are distinct, and its weights are positive
    /// and add up within a `u64`.
    pub open spec fn wf(&self) -> bool {
        set_fault(self.members@) is None
    }

    /// Makes an authority set of `members`, or says why they are none.
    pub fn new(generation: u64, members: Vec<Authority>) -> (r: Result<AuthoritySet, AuthorityError>)
        ensures
            match r {
                Ok(set) => set_fault(members@) is None && set.wf() && set.generation == generation
                    && set.members@ == members@,
                Err(e) => set_fault(members@) == Some(e),
            },
    {
        let n: usize = members.len();
        if n == 0 {
            return Err(AuthorityError::Empty);
        }
        let mut i: usize = 0;
        while i < n
            invariant
                n == members.len(),
                i <= n,
                forall|k: int| 0 <= k < i ==> (#[trigger] members@[k]).weight > 0,
            decreases n - i,
        {
            if members[i].weight == 0 {
                return Err(AuthorityError::ZeroWeight);
            }
            i = i + 1;
        }
        let mut a: usize = 0;
        while a < n
            invariant
                n == members.len(),
                0 < n,
                a <= n,
                positive_weights(members@),
                forall|i: int, j: int|
                    0 <= i < j < n && i < a ==> (#[trigger] members@[i]).id != (#[trigger] members@[j]).id,
            decreases n - a,
        {
            let mut b: usize = a + 1;
            while b < n
                invariant
                    n == members.len(),
                    a < n,
                    a < b <= n,
                    positive_weights(members@),
                    forall|j: int| a < j < b ==> members@[a as int].id != (#[trigger] members@[j]).id,
                decreases n - b,
            {
                if members[a].id == members[b].id {
                    return Err(AuthorityError::DuplicateAuthority);
                }
                b = b + 1;
            }
            a = a + 1;
        }
        let mut sum: u64 = 0;
        let mut k: usize = 0;
        while k < n
            invariant
                n == members.len(),
                0 < n,
                k <= n,
                positive_weights(members@),
                distinct_ids(members@),
                sum == weight_upto(members@, everyone(), k as nat),
            decreases n - k,
        {
            let w: u64 = members[k].weight;
            if w > u64::MAX - sum {
                proof {
                    lemma_weight_prefix(members@, everyone(), (k + 1) as nat, n as nat);
                }
                return Err(AuthorityError::WeightOverflow);
            }
            sum = sum + w;
            k = k + 1;
        }
        Ok(AuthoritySet { generation, members })
    }

    /// The weight of all members.
    pub fn total(&self) -> (t: u64)
        requires
            self.wf(),
        ensures
            t == total_weight(self.members@),
            t > 0,
    {
        let n: usize = self.members.len();
        let mut sum: u64 = 0;
        let mut k: usize = 0;
        while k < n
            invariant
                n == self.members.len(),
                k <= n,
                sum == weight_upto(self.members@, everyone(), k as nat),
                total_weight(self.members@) <= u64::MAX,
            decreases n - k,
        {
            proof {
                lemma_weight_prefix(self.members@, everyone(), (k + 1) as nat, n as nat);
            }
            sum = sum + self.members[k].weight;
            k = k + 1;
        }
        proof {
            lemma_total_positive(self.members@);
        }
        sum
    }

    /// The position of the authority with the given key.
    pub fn position(&self, id: AuthorityId) -> (r: Option<usize>)
        ensures
            match r {
                Some(i) => i < self.members@.len() && self.members@[i as int].id == id && forall|k: int|
                    0 <= k < i ==> (#[trigger] self.members@[k]).id != id,
                None => !has_member(self.members@, id),
            },
    {
        let n: usize = self.members.len();
        let mut i: usize = 0;
        while i < n
            invariant
                n == self.members.len(),
                i <= n,
                forall|k: int| 0 <= k < i ==> (#[trigger] self.members@[k]).id != id,
            decreases n - i,
        {
            if self.members[i].id == id {
                return Some(i);
            }
            i = i + 1;
        }
        None
    }

    /// Whether `weight` is a supermajority of this set.
    pub fn reaches_quorum(&self, weight: u64) -> (r: bool)
        requires
            self.wf(),
        ensures
            r == is_quorum(weight as nat, total_weight(self.members@)),
    {
        let total: u64 = self.total();
        3 * (weight as u128) >= 2 * (total as u128)
    }
}

/// A span of slots and voting rounds during which one authority set is in force.
/// It begins where the epoch before it ends, the first one at slot and round zero.
#[derive(Clone, Debug, PartialEq, Eq)]
pub struct Epoch {
    pub set: AuthoritySet,
    /// The first slot after this epoch.
    pub end_slot: u64,
    /// The first round after this epoch.
    pub end_round: u64,
}

/// By which clock a point in time is given.
#[derive(Clone, Copy, Debug, PartialEq, Eq, Structural)]
pub enum Clock {
    Slot,
    Round,
}

impl Epoch {
    /// The first point after this epoch on the given clock.
    pub open spec fn end(&self, clock: Clock) -> u64 {
        match clock {
            Clock::Slot => self.end_slot,
            Clock::Round => self.end_round,
        }
    }
}

/// Why an epoch cannot follow the known ones.
#[derive(Clone, Copy, Debug, PartialEq, Eq, Structural)]
pub enum TimelineError {
    /// Its generation is not greater than the last one's.
    StaleGeneration,
    /// It ends no later than the last one, in slots or in rounds.
    EmptySpan,
}

/// Epoch `k` covers `point`.
pub open spec fn covers(epochs: Seq<Epoch>, k: int, clock: Clock, point: u64) -> bool {
    &&& 0 <= k < epochs.len()
    &&& k > 0 ==> epochs[k - 1].end(clock) <= point
    &&& point < epochs[k].end(clock)
}

/// The epochs known so far. A set is never changed once it stands here; a new
/// one is appended and takes over where the last one ends.
#[derive(Clone, Debug, PartialEq, Eq)]
pub struct AuthorityTimeline {
    pub epochs: Vec<Epoch>,
}

impl AuthorityTimeline {
    /// There is a first epoch, every set is well formed, and generations, end
    /// slots and end rounds all strictly increase.
    pub open spec fn wf(&self) -> bool {
        &&& self.epochs@.len() > 0
        &&& self.epochs@[0].end_slot > 0
        &&& self.epochs@[0].end_round > 0
        &&& forall|k: int| 0 <= k < self.epochs@.len() ==> (#[trigger] self.epochs@[k]).set.wf()
        &&& forall|a: int, b: int|
            0 <= a < b < self.epochs@.len() ==> {
                &&& (#[trigger] self.epochs@[a]).set.generation < (#[trigger] self.epochs@[b]).set.generation
                &&& self.epochs@[a].end_slot < self.epochs@[b].end_slot
                &&& self.epochs@[a].end_round < self.epochs@[b].end_round
            }
    }

    /// The timeline that knows the genesis epoch only.
    pub fn new(genesis: Epoch) -> (r: Result<AuthorityTimeline, TimelineError>)
        requires
            genesis.set.wf(),
        ensures
            match r {
                Ok(t) => genesis.end_slot > 0 && genesis.end_round > 0 && t.wf() && t.epochs@ == seq![genesis],
                Err(e) => e == TimelineError::EmptySpan && (genesis.end_slot == 0 || genesis.end_round == 0),
            },
    {
        if genesis.end_slot == 0 || genesis.end_round == 0 {
            return Err(TimelineError::EmptySpan);
        }
        let mut epochs: Vec<Epoch> = Vec::new();
        epochs.push(genesis);
        Ok(AuthorityTimeline { epochs })
    }

    /// Appends the epoch that follows the last known one. Nothing known changes.
    pub fn extend(&mut self, epoch: Epoch) -> (r: Result<(), TimelineError>)
        requires
            old(self).wf(),
            epoch.set.wf(),
        ensures
            final(self).wf(),
            match r {
                Ok(_) => final(self).epochs@ == old(self).epochs@.push(epoch),
                Err(_) => *final(self) == *old(self),
            },
            r == Err::<(), TimelineError>(TimelineError::StaleGeneration) <==> epoch.set.generation <= old(
                self,
            ).epochs@.last().set.generation,
            r == Err::<(), TimelineError>(TimelineError::EmptySpan) <==> epoch.set.generation > old(
                self,
            ).epochs@.last().set.generation && (epoch.end_slot <= old(self).epochs@.last().end_slot
                || epoch.end_round <= old(self).epochs@.last().end_round),
    {
        let n: usize = self.epochs.len();
        let stale: bool = epoch.set.generation <= self.epochs[n - 1].set.generation;
        let empty: bool = epoch.end_slot <= self.epochs[n - 1].end_slot || epoch.end_round
            <= self.epochs[n - 1].end_round;
        if stale {
            return Err(TimelineError::StaleGeneration);
        }
        if empty {
            return Err(TimelineError::EmptySpan);
        }
        self.epochs.push(epoch);
        Ok(())
    }

    /// The epoch that covers `point`, if it is known yet.
    pub fn locate(&self, clock: Clock, point: u64) -> (r: Option<usize>)
        requires
            self.wf(),
        ensures
            match r {
                Some(k) => covers(self.epochs@, k as int, clock, point),
                None => point >= self.epochs@.last().end(clock),
            },
    {
        let n: usize = self.epochs.len();
        let mut k: usize = 0;
        while k < n
            invariant
                n == self.epochs.len(),
                k <= n,
                k > 0 ==> self.epochs@[k - 1].end(clock) <= point,
            decreases n - k,
        {
            let end: u64 = match clock {
                Clock::Slot => self.epochs[k].end_slot,
                Clock::Round => self.epochs[k].end_round,
            };
            if point < end {
                return Some(k);
            }
            k = k + 1;
        }
        None
    }
}

/// Epochs do not overlap: a point in time is covered by one epoch at most.
pub proof fn lemma_one_epoch_covers(t: AuthorityTimeline, clock: Clock, point: u64, a: int, b: int)
    requires
        t.wf(),
        covers(t.epochs@, a, clock, point),
        covers(t.epochs@, b, clock, point),
    ensures
        a == b,
{
    if a < b {
        assert(t.epochs@[a].end(clock) <= t.epochs@[b - 1].end(clock));
    }
    if b < a {
        assert(t.epochs@[b].end(clock) <= t.epochs@[a - 1].end(clock));
    }
}

} // verus!
