//! What holds of every state of the queue and of every transition.

use crate::authority::{covers, is_quorum, total_weight, Clock, Epoch};
use crate::chain::{descends, knows};
use crate::finality::{backing_weight, voters_known, votes_agree, Justification};
use crate::import_queue::items::{ImportAction, ImportError, ImportQueueItem};
use crate::import_queue::queue::{
    block_begun, claim_answered, execution_answered, seal_answered, signatures_answered, started, ImportQueue,
};
use crate::import_queue::start::{holds_in, justified, lemma_position_of, position_of, ProofStart};
use crate::primitives::{Block, Origin};
use vstd::prelude::*;

verus! {

/// The votes of `j` are all cast in its round and for its target, by members of
/// the authority set of epoch `e`, which covers that round, and those members
/// hold a supermajority of the set.
pub open spec fn supermajority_backs(epochs: Seq<Epoch>, e: int, j: Justification) -> bool {
    &&& covers(epochs, e, Clock::Round, j.round)
    &&& votes_agree(j.votes@, j.round, j.target)
    &&& voters_known(j.votes@, epochs[e].set.members@)
    &&& is_quorum(backing_weight(epochs[e].set.members@, j.votes@), total_weight(epochs[e].set.members@))
}

/// No block is final without proof: for every block that the queue made final
/// there is a justification on record that names it and that a supermajority of
/// the authority set in force in its round backs.
pub proof fn law_final_blocks_are_justified(q: ImportQueue, k: int)
    requires
        q.wf(),
        1 <= k < q.chain.finalized@.len(),
    ensures
        q.proofs@[k - 1].target == q.chain.records@[q.chain.finalized@[k] as int].hash,
        exists|e: int| #[trigger] supermajority_backs(q.timeline.epochs@, e, q.proofs@[k - 1]),
{
    let j = q.proofs@[k - 1];
    assert(justified(q.timeline.epochs@, q.chain.records@, j, q.chain.finalized@[k - 1 + 1] as int));
    let e = choose|e: int| #[trigger] holds_in(q.timeline.epochs@, e, j);
    assert(supermajority_backs(q.timeline.epochs@, e, j));
}

/// A justification for a block on a branch that competes with the last final
/// block is turned away, whatever its votes.
pub proof fn law_competing_branch_is_rejected(q: ImportQueue, j: Justification)
    requires
        q.wf(),
        knows(q.chain.records@, j.target),
        !descends(q.chain.records@, position_of(q.chain.records@, j.target), q.chain.last_final()),
        !descends(q.chain.records@, q.chain.last_final(), position_of(q.chain.records@, j.target)),
    ensures
        q.proof_start(j) == ProofStart::Reject(ImportError::StaleBranch),
{
}

/// Importing is idempotent. Once a block is committed, taking the same block up
/// again in any later state of the queue ends at once with the outcome of the
/// first import:
/// nothing is committed, no verdict is asked for, and so nothing is executed
/// twice.
pub proof fn law_import_is_idempotent(
    first: ImportQueue,
    r1: ImportAction,
    second: ImportQueue,
    later: ImportQueue,
    inbox: Seq<ImportQueueItem>,
    block: Block,
    origin: Origin,
    r2: ImportAction,
    last: ImportQueue,
)
    requires
        first.wf(),
        first.stage is Seal,
        first.stage->Seal_0.hash == block.header.hash,
        first.stage->Seal_0.parent == block.header.parent,
        first.stage->Seal_0.number == block.header.number,
        seal_answered(first, true, r1, second),
        later.wf(),
        later.chain.records@.len() >= second.chain.records@.len(),
        later.chain.records@[first.chain.records@.len() as int] == second.chain.records@[first.chain.records@.len() as int],
        block_begun(later, inbox, block, origin, r2, last),
    ensures
        r1 is Finished,
        r2 is Finished,
        r1->Finished_0.commit,
        !r2->Finished_0.commit,
        r2->Finished_0.outcome == r1->Finished_0.outcome,
        last.chain == later.chain,
        last.stage is Idle,
{
    let at = first.chain.records@.len() as int;
    lemma_position_of(later.chain.records@, at, block.header.hash);
}

/// A block is committed only after its parent: the record that a good seal adds
/// names as its parent a block that the chain held before.
pub proof fn law_commit_follows_parent(before: ImportQueue, r: ImportAction, after: ImportQueue)
    requires
        before.wf(),
        before.stage is Seal,
        seal_answered(before, true, r, after),
    ensures
        after.chain.records@.len() == before.chain.records@.len() + 1,
        after.chain.records@.last().hash == before.stage->Seal_0.hash,
        after.chain.records@.last().parent_index < before.chain.records@.len(),
        before.chain.records@[after.chain.records@.last().parent_index as int].hash
            == after.chain.records@.last().parent,
        forall|i: int| 0 <= i < before.chain.records@.len() ==> after.chain.records@[i] == before.chain.records@[i],
{
}

/// Finality only moves forward: a justification that goes through makes final a
/// block that descends from the last final one, and every block that was final
/// stays so.
pub proof fn law_finality_moves_forward(before: ImportQueue, r: ImportAction, after: ImportQueue)
    requires
        before.wf(),
        before.stage is Signatures,
        signatures_answered(before, true, r, after),
    ensures
        after.chain.finalized@.len() == before.chain.finalized@.len() + 1,
        forall|k: int|
            0 <= k < before.chain.finalized@.len() ==> after.chain.finalized@[k] == before.chain.finalized@[k],
        descends(after.chain.records@, before.chain.last_final(), after.chain.last_final()),
        after.chain.last_final() != before.chain.last_final(),
{
}

/// Nothing enters the chain unverified. The chain grows only by a good verdict
/// on a seal; the seal is asked about only after a good verdict on the claim
/// and, on a full node, a good verdict of the runtime; and a light node never
/// asks the runtime.
pub proof fn law_nothing_imported_unverified(before: ImportQueue, ok: bool, r: ImportAction, after: ImportQueue)
    requires
        before.wf(),
        started(before, r, after) || claim_answered(before, ok, r, after) || execution_answered(before, ok, r, after)
            || seal_answered(before, ok, r, after) || signatures_answered(before, ok, r, after),
    ensures
        after.chain.records@ != before.chain.records@ ==> before.stage is Seal && ok,
        after.stage is Seal && !(before.stage is Seal) ==> ok && (before.stage is Execution || (before.stage is Claim
            && before.mode is Light)),
        after.stage is Execution && !(before.stage is Execution) ==> ok && before.stage is Claim
            && before.mode is Full,
        after.stage is Claim && !(before.stage is Claim) ==> before.stage is Idle,
        before.mode is Light ==> !(after.stage is Execution),
{
}

/// A hash stands for one header: a block is only ever reported as imported
/// without a commit if the chain holds a record with its hash, its parent and
/// its number.
pub proof fn law_imported_means_recorded(
    before: ImportQueue,
    inbox: Seq<ImportQueueItem>,
    block: Block,
    origin: Origin,
    r: ImportAction,
    after: ImportQueue,
)
    requires
        before.wf(),
        block_begun(before, inbox, block, origin, r, after),
        r is Finished,
        r->Finished_0.outcome is Imported,
    ensures
        exists|i: int|
            0 <= i < before.chain.records@.len() && (#[trigger] before.chain.records@[i]).hash == block.header.hash
                && before.chain.records@[i].parent == block.header.parent && before.chain.records@[i].number
                == block.header.number,
{
    let at = position_of(before.chain.records@, block.header.hash);
    assert(knows(before.chain.records@, block.header.hash));
    assert(before.chain.records@[at].hash == block.header.hash);
}

} // verus!
