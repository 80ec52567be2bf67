//! The queue itself: its state, its transitions, and what each of them owes.

use crate::authority::{lemma_one_epoch_covers, AuthorityTimeline, Clock, Epoch, TimelineError};
use crate::chain::{descends, is_best, left_behind, ChainIndex, HeaderRecord};
use crate::finality::{check_justification, Justification};
use crate::import_queue::items::{
    plain_report, report, ImportAction, ImportError, ImportOutcome, ImportQueueItem, InFlight, Malformed,
    ParkReason, Parked, Payload, Report, Request, Stage, Wake,
};
use crate::import_queue::start::{
    block_start_in, epoch_of, flight_ready, holds_in, justified, lemma_position_of, proof_start_in, BlockStart,
    ProofStart,
};
use crate::import_queue::waiting::{
    evicted_by, kept, lemma_kept_shrinks, next_position, park_into, parked_with, pick_next, release_from, released,
};
use crate::primitives::{read_digest, Block, BlockHash, Origin};
use crate::role::ImportMode;
use vstd::prelude::*;

verus! {

/// The import queue of one chain.
#[derive(Clone, Debug, PartialEq, Eq)]
pub struct ImportQueue {
    pub mode: ImportMode,
    /// The headers committed so far, the final ones and the best one.
    pub chain: ChainIndex,
    /// The authority sets known so far.
    pub timeline: AuthorityTimeline,
    /// The justification of each block made final through the queue, in that order.
    pub proofs: Vec<Justification>,
    /// The items that wait for their turn, oldest first.
    pub inbox: Vec<ImportQueueItem>,
    /// The items that wait for an ancestor or an epoch, oldest first.
    pub parked: Vec<Parked>,
    /// How many items may be parked at once; at least one.
    pub park_limit: usize,
    pub stage: Stage,
    /// The justification in flight.
    pub flight: Option<Justification>,
    /// The blocks that the last finalization left on competing branches.
    pub pruned: Vec<BlockHash>,
}

impl ImportQueue {
    /// Every block made final through the queue has its justification on record.
    pub open spec fn proven(&self) -> bool {
        &&& self.proofs@.len() + 1 == self.chain.finalized@.len()
        &&& forall|k: int|
            0 <= k < self.proofs@.len() ==> justified(
                self.timeline.epochs@,
                self.chain.records@,
                #[trigger] self.proofs@[k],
                self.chain.finalized@[k + 1] as int,
            )
    }

    /// The item in flight can still be committed.
    pub open spec fn stage_ready(&self) -> bool {
        match self.stage {
            Stage::Idle => true,
            Stage::Claim(f) => flight_ready(self.chain, f),
            Stage::Execution(f) => flight_ready(self.chain, f) && self.mode is Full,
            Stage::Seal(f) => flight_ready(self.chain, f),
            Stage::Signatures { target_index, epoch, origin } => {
                &&& self.flight is Some
                &&& target_index < self.chain.records@.len()
                &&& self.chain.records@[target_index as int].hash == self.flight->Some_0.target
                &&& target_index != self.chain.last_final()
                &&& descends(self.chain.records@, self.chain.last_final(), target_index as int)
                &&& holds_in(self.timeline.epochs@, epoch as int, self.flight->Some_0)
            },
        }
    }

    /// The chain and the timeline are well formed, the parked items are within
    /// their limit, every final block has its proof, and the item in flight, if
    /// any, can be committed.
    pub open spec fn wf(&self) -> bool {
        &&& self.chain.wf()
        &&& self.timeline.wf()
        &&& 1 <= self.park_limit
        &&& self.parked@.len() <= self.park_limit
        &&& self.proven()
        &&& self.stage_ready()
        &&& !(self.stage is Signatures) ==> self.flight is None
    }

    /// The queue and `after` agree on everything but the items that wait and the
    /// item in flight.
    pub open spec fn same_chain(&self, after: ImportQueue) -> bool {
        &&& after.mode == self.mode
        &&& after.park_limit == self.park_limit
        &&& after.chain == self.chain
        &&& after.timeline == self.timeline
        &&& after.proofs == self.proofs
        &&& after.pruned == self.pruned
    }

    /// What the queue finds out about a block on its own.
    pub open spec fn block_start(&self, block: Block, origin: Origin) -> BlockStart {
        block_start_in(self.mode, self.chain, self.timeline, block, origin)
    }

    /// What the queue finds out about a justification on its own.
    pub open spec fn proof_start(&self, j: Justification) -> ProofStart {
        proof_start_in(self.chain, self.timeline, j)
    }

    /// A queue over a chain that holds the genesis block only. A park limit of
    /// zero is taken as one.
    pub fn new(
        mode: ImportMode,
        genesis: BlockHash,
        genesis_number: u64,
        timeline: AuthorityTimeline,
        park_limit: usize,
    ) -> (q: ImportQueue)
        requires
            timeline.wf(),
        ensures
            q.wf(),
            q.mode == mode,
            q.timeline == timeline,
            q.chain.records@.len() == 1,
            q.chain.records@[0].hash == genesis,
            q.chain.records@[0].number == genesis_number,
            q.chain.finalized@ == seq![0usize],
            q.chain.best == 0,
            q.proofs@.len() == 0,
            q.inbox@.len() == 0,
            q.parked@.len() == 0,
            q.park_limit == if park_limit == 0 {
                1
            } else {
                park_limit
            },
            q.stage is Idle,
            q.flight is None,
            q.pruned@.len() == 0,
    {
        ImportQueue {
            mode,
            chain: ChainIndex::new(genesis, genesis_number),
            timeline,
            proofs: Vec::new(),
            inbox: Vec::new(),
            parked: Vec::new(),
            park_limit: if park_limit == 0 {
                1
            } else {
                park_limit
            },
            stage: Stage::Idle,
            flight: None,
            pruned: Vec::new(),
        }
    }

    /// Puts an item at the end of the queue.
    pub fn submit(&mut self, item: ImportQueueItem)
        requires
            old(self).wf(),
        ensures
            final(self).wf(),
            old(self).same_chain(*final(self)),
            final(self).inbox@ == old(self).inbox@.push(item),
            final(self).parked == old(self).parked,
            final(self).stage == old(self).stage,
            final(self).flight == old(self).flight,
    {
        self.inbox.push(item);
    }

    /// What the queue finds out about a block on its own.
    pub fn classify_block(&self, block: &Block, origin: Origin) -> (r: BlockStart)
        requires
            self.chain.wf(),
            self.timeline.wf(),
        ensures
            r == self.block_start(*block, origin),
            r matches BlockStart::Check(f) ==> flight_ready(self.chain, f),
    {
        match self.chain.position(block.header.hash) {
            Some(i) => {
                proof {
                    lemma_position_of(self.chain.records@, i as int, block.header.hash);
                }
                let known: HeaderRecord = self.chain.records[i];
                if known.parent == block.header.parent && known.number == block.header.number {
                    return BlockStart::Known { new_best: known.new_best };
                }
                return BlockStart::Reject(ImportError::Malformed(Malformed::HashMismatch));
            },
            None => {},
        }
        let full: bool = match self.mode {
            ImportMode::Full => true,
            ImportMode::Light => false,
        };
        if full && block.body.is_none() {
            return BlockStart::Reject(ImportError::Malformed(Malformed::MissingBody));
        }
        let (claim, seal) = match read_digest(&block.header.digest) {
            Err(e) => {
                return BlockStart::Reject(ImportError::Malformed(Malformed::BadDigest(e)));
            },
            Ok(pair) => pair,
        };
        let p: usize = match self.chain.position(block.header.parent) {
            None => {
                return BlockStart::Park(ParkReason::MissingAncestor);
            },
            Some(p) => p,
        };
        proof {
            lemma_position_of(self.chain.records@, p as int, block.header.parent);
        }
        let root: usize = self.chain.finalized_position();
        if !self.chain.descends_from(root, p) {
            return BlockStart::Reject(ImportError::StaleBranch);
        }
        let above: u64 = self.chain.records[p].number;
        if above == u64::MAX || block.header.number != above + 1 {
            return BlockStart::Reject(ImportError::Malformed(Malformed::BadNumber));
        }
        let e: usize = match self.timeline.locate(Clock::Slot, claim.slot) {
            None => {
                return BlockStart::Park(ParkReason::EpochDataUnavailable);
            },
            Some(e) => e,
        };
        proof {
            lemma_one_epoch_covers(
                self.timeline,
                Clock::Slot,
                claim.slot,
                e as int,
                epoch_of(self.timeline.epochs@, Clock::Slot, claim.slot),
            );
            assert(self.timeline.epochs@[e as int].end(Clock::Slot) <= self.timeline.epochs@.last().end(
                Clock::Slot,
            ));
        }
        let index: usize = claim.authority_index as usize;
        if index >= self.timeline.epochs[e].set.members.len() {
            return BlockStart::Reject(ImportError::Malformed(Malformed::BadSlotClaim));
        }
        BlockStart::Check(
            InFlight {
                hash: block.header.hash,
                parent: block.header.parent,
                number: block.header.number,
                parent_index: p,
                claim,
                seal,
                author: self.timeline.epochs[e].set.members[index].id,
                origin,
            },
        )
    }

    /// What the queue finds out about a justification on its own.
    pub fn classify_proof(&self, j: &Justification) -> (r: ProofStart)
        requires
            self.chain.wf(),
            self.timeline.wf(),
        ensures
            r == self.proof_start(*j),
            r matches ProofStart::Check { target_index, epoch } ==> {
                &&& target_index < self.chain.records@.len()
                &&& self.chain.records@[target_index as int].hash == j.target
                &&& target_index != self.chain.last_final()
                &&& descends(self.chain.records@, self.chain.last_final(), target_index as int)
                &&& holds_in(self.timeline.epochs@, epoch as int, *j)
            },
    {
        let t: usize = match self.chain.position(j.target) {
            None => {
                return ProofStart::Reject(ImportError::UnknownTarget);
            },
            Some(t) => t,
        };
        proof {
            lemma_position_of(self.chain.records@, t as int, j.target);
        }
        let root: usize = self.chain.finalized_position();
        if self.chain.descends_from(t, root) {
            return ProofStart::Done;
        }
        if !self.chain.descends_from(root, t) {
            return ProofStart::Reject(ImportError::StaleBranch);
        }
        let e: usize = match self.timeline.locate(Clock::Round, j.round) {
            None => {
                return ProofStart::Park;
            },
            Some(e) => e,
        };
        proof {
            lemma_one_epoch_covers(
                self.timeline,
                Clock::Round,
                j.round,
                e as int,
                epoch_of(self.timeline.epochs@, Clock::Round, j.round),
            );
            assert(self.timeline.epochs@[e as int].end(Clock::Round) <= self.timeline.epochs@.last().end(
                Clock::Round,
            ));
        }
        match check_justification(j, &self.timeline.epochs[e].set) {
            Err(fault) => ProofStart::Reject(ImportError::Unjustified(fault)),
            Ok(_) => ProofStart::Check { target_index: t, epoch: e },
        }
    }

    /// Takes up the next item: the oldest locally produced one first, then the
    /// oldest of the others. What the queue can decide alone ends the item at
    /// once; otherwise the first verdict is asked for.
    pub fn next(&mut self) -> (r: ImportAction)
        requires
            old(self).wf(),
        ensures
            final(self).wf(),
            started(*old(self), r, *final(self)),
    {
        match self.stage {
            Stage::Idle => {},
            _ => {
                return ImportAction::Busy;
            },
        }
        if self.inbox.len() == 0 {
            return ImportAction::Idle;
        }
        let at: usize = pick_next(&self.inbox);
        let item: ImportQueueItem = self.inbox.remove(at);
        let origin: Origin = item.origin;
        match item.payload {
            Payload::Block(block) => self.begin_block(block, origin),
            Payload::Justification(j) => self.begin_proof(j, origin),
        }
    }

    /// Takes up a block.
    fn begin_block(&mut self, block: Block, origin: Origin) -> (r: ImportAction)
        requires
            old(self).wf(),
            old(self).stage is Idle,
        ensures
            final(self).wf(),
            block_begun(*old(self), old(self).inbox@, block, origin, r, *final(self)),
    {
        let hash: BlockHash = block.header.hash;
        match self.classify_block(&block, origin) {
            BlockStart::Known { new_best } => ImportAction::Finished(
                report(hash, origin, ImportOutcome::Imported { new_best }),
            ),
            BlockStart::Reject(e) => ImportAction::Finished(report(hash, origin, ImportOutcome::Rejected(e))),
            BlockStart::Park(reason) => {
                let request: Option<BlockHash> = match reason {
                    ParkReason::MissingAncestor => Some(block.header.parent),
                    ParkReason::EpochDataUnavailable => None,
                };
                let item = ImportQueueItem { payload: Payload::Block(block), origin };
                let evicted: Option<BlockHash> = park_into(&mut self.parked, self.park_limit, item, reason);
                ImportAction::Finished(
                    Report {
                        subject: hash,
                        origin,
                        outcome: ImportOutcome::Parked(reason),
                        commit: false,
                        request,
                        evicted,
                        released: 0,
                    },
                )
            },
            BlockStart::Check(f) => {
                self.stage = Stage::Claim(f);
                ImportAction::Verify(Request::Claim { hash: f.hash, claim: f.claim, author: f.author })
            },
        }
    }

    /// Takes up a justification.
    fn begin_proof(&mut self, j: Justification, origin: Origin) -> (r: ImportAction)
        requires
            old(self).wf(),
            old(self).stage is Idle,
        ensures
            final(self).wf(),
            proof_begun(*old(self), old(self).inbox@, j, origin, r, *final(self)),
    {
        let target: BlockHash = j.target;
        match self.classify_proof(&j) {
            ProofStart::Done => ImportAction::Finished(report(target, origin, ImportOutcome::Finalized)),
            ProofStart::Reject(e) => ImportAction::Finished(report(target, origin, ImportOutcome::Rejected(e))),
            ProofStart::Park => {
                let item = ImportQueueItem { payload: Payload::Justification(j), origin };
                let evicted: Option<BlockHash> = park_into(
                    &mut self.parked,
                    self.park_limit,
                    item,
                    ParkReason::EpochDataUnavailable,
                );
                ImportAction::Finished(
                    Report {
                        subject: target,
                        origin,
                        outcome: ImportOutcome::Parked(ParkReason::EpochDataUnavailable),
                        commit: false,
                        request: None,
                        evicted,
                        released: 0,
                    },
                )
            },
            ProofStart::Check { target_index, epoch } => {
                let round: u64 = j.round;
                let generation: u64 = self.timeline.epochs[epoch].set.generation;
                self.flight = Some(j);
                self.stage = Stage::Signatures { target_index, epoch, origin };
                ImportAction::Verify(Request::Signatures { target, round, generation })
            },
        }
    }

    /// Takes the verdict on the slot claim of the block in flight. A failed proof
    /// ends the block as malformed. After a good one a full node asks for the
    /// state transition to be checked, a light node goes on to the seal.
    pub fn claim_checked(&mut self, ok: bool) -> (r: ImportAction)
        requires
            old(self).wf(),
        ensures
            final(self).wf(),
            claim_answered(*old(self), ok, r, *final(self)),
    {
        match self.stage {
            Stage::Claim(f) => {
                if !ok {
                    self.stage = Stage::Idle;
                    ImportAction::Finished(
                        report(
                            f.hash,
                            f.origin,
                            ImportOutcome::Rejected(ImportError::Malformed(Malformed::BadSlotClaim)),
                        ),
                    )
                } else {
                    match self.mode {
                        ImportMode::Full => {
                            self.stage = Stage::Execution(f);
                            ImportAction::Verify(Request::Execution { hash: f.hash, parent: f.parent })
                        },
                        ImportMode::Light => {
                            self.stage = Stage::Seal(f);
                            ImportAction::Verify(Request::Seal { hash: f.hash, seal: f.seal, author: f.author })
                        },
                    }
                }
            },
            _ => ImportAction::Unexpected,
        }
    }

    /// Takes the runtime's verdict on the block in flight. A rejected block is
    /// never imported and not tried again; an accepted one goes on to the seal.
    pub fn executed(&mut self, ok: bool) -> (r: ImportAction)
        requires
            old(self).wf(),
        ensures
            final(self).wf(),
            execution_answered(*old(self), ok, r, *final(self)),
    {
        match self.stage {
            Stage::Execution(f) => {
                if !ok {
                    self.stage = Stage::Idle;
                    ImportAction::Finished(report(f.hash, f.origin, ImportOutcome::Rejected(ImportError::Execution)))
                } else {
                    self.stage = Stage::Seal(f);
                    ImportAction::Verify(Request::Seal { hash: f.hash, seal: f.seal, author: f.author })
                }
            },
            _ => ImportAction::Unexpected,
        }
    }

    /// Takes the verdict on the seal of the block in flight. A bad seal ends the
    /// block as malformed. A good one commits it: the block enters the chain
    /// after its parent, the fork choice is made anew, and the parked blocks
    /// that waited for it come back into the queue.
    pub fn seal_checked(&mut self, ok: bool) -> (r: ImportAction)
        requires
            old(self).wf(),
        ensures
            final(self).wf(),
            seal_answered(*old(self), ok, r, *final(self)),
    {
        match self.stage {
            Stage::Seal(f) => {
                self.stage = Stage::Idle;
                if !ok {
                    ImportAction::Finished(
                        report(f.hash, f.origin, ImportOutcome::Rejected(ImportError::Malformed(Malformed::BadSeal))),
                    )
                } else {
                    let ghost before = self.chain.records@;
                    let new_best: bool = self.chain.append(f.hash, f.parent, f.number, f.parent_index);
                    let released: usize = release_from(&mut self.parked, &mut self.inbox, Wake::Imported(f.hash));
                    proof {
                        lemma_kept_shrinks(old(self).parked@, Wake::Imported(f.hash), old(self).parked@.len());
                        assert forall|k: int| 0 <= k < self.proofs@.len() implies justified(
                            self.timeline.epochs@,
                            self.chain.records@,
                            #[trigger] self.proofs@[k],
                            self.chain.finalized@[k + 1] as int,
                        ) by {
                            assert(justified(
                                self.timeline.epochs@,
                                before,
                                self.proofs@[k],
                                self.chain.finalized@[k + 1] as int,
                            ));
                            assert(self.chain.records@[self.chain.finalized@[k + 1] as int]
                                == before[self.chain.finalized@[k + 1] as int]);
                        }
                    }
                    ImportAction::Finished(
                        Report {
                            subject: f.hash,
                            origin: f.origin,
                            outcome: ImportOutcome::Imported { new_best },
                            commit: true,
                            request: None,
                            evicted: None,
                            released,
                        },
                    )
                }
            },
            _ => ImportAction::Unexpected,
        }
    }

    /// Takes the verdict on the signatures of the justification in flight. A
    /// failed signature ends it as malformed. Otherwise its target becomes
    /// final, the justification goes on record beside it, the fork choice is
    /// made anew above the target, and the blocks that this leaves on competing
    /// branches are listed for pruning.
    pub fn signatures_checked(&mut self, ok: bool) -> (r: ImportAction)
        requires
            old(self).wf(),
        ensures
            final(self).wf(),
            signatures_answered(*old(self), ok, r, *final(self)),
    {
        match self.stage {
            Stage::Signatures { target_index, epoch, origin } => {
                match self.flight.take() {
                    None => ImportAction::Unexpected,
                    Some(j) => {
                        self.stage = Stage::Idle;
                        let target: BlockHash = j.target;
                        if !ok {
                            ImportAction::Finished(
                                report(
                                    target,
                                    origin,
                                    ImportOutcome::Rejected(ImportError::Malformed(Malformed::BadSignature)),
                                ),
                            )
                        } else {
                            let pruned: Vec<BlockHash> = self.chain.finalize(target_index);
                            self.pruned = pruned;
                            self.proofs.push(j);
                            proof {
                                assert(holds_in(self.timeline.epochs@, epoch as int, j));
                                assert forall|k: int| 0 <= k < self.proofs@.len() implies justified(
                                    self.timeline.epochs@,
                                    self.chain.records@,
                                    #[trigger] self.proofs@[k],
                                    self.chain.finalized@[k + 1] as int,
                                ) by {
                                    if k < old(self).proofs@.len() {
                                        assert(self.proofs@[k] == old(self).proofs@[k]);
                                        assert(self.chain.finalized@[k + 1] == old(self).chain.finalized@[k + 1]);
                                    }
                                }
                            }
                            ImportAction::Finished(
                                Report {
                                    subject: target,
                                    origin,
                                    outcome: ImportOutcome::Finalized,
                                    commit: true,
                                    request: None,
                                    evicted: None,
                                    released: 0,
                                },
                            )
                        }
                    },
                }
            },
            _ => ImportAction::Unexpected,
        }
    }

    /// Makes the next epoch known. The epochs known before stay as they are, and
    /// the items that waited for an authority set come back into the queue. An
    /// epoch that cannot follow the last one changes nothing.
    pub fn announce_epoch(&mut self, epoch: Epoch) -> (r: Result<usize, TimelineError>)
        requires
            old(self).wf(),
            epoch.set.wf(),
        ensures
            final(self).wf(),
            epoch_announced(*old(self), epoch, r, *final(self)),
    {
        let ghost before = self.timeline.epochs@;
        match self.timeline.extend(epoch) {
            Err(e) => Err(e),
            Ok(_) => {
                let released: usize = release_from(&mut self.parked, &mut self.inbox, Wake::Epoch);
                proof {
                    lemma_kept_shrinks(old(self).parked@, Wake::Epoch, old(self).parked@.len());
                    let after = self.timeline.epochs@;
                    assert forall|e: int, j: Justification| holds_in(before, e, j) implies holds_in(after, e, j) by {
                        assert(after[e] == before[e]);
                        if e > 0 {
                            assert(after[e - 1] == before[e - 1]);
                        }
                    }
                    assert forall|k: int| 0 <= k < self.proofs@.len() implies justified(
                        after,
                        self.chain.records@,
                        #[trigger] self.proofs@[k],
                        self.chain.finalized@[k + 1] as int,
                    ) by {
                        assert(justified(
                            before,
                            self.chain.records@,
                            self.proofs@[k],
                            self.chain.finalized@[k + 1] as int,
                        ));
                        let e = choose|e: int| #[trigger] holds_in(before, e, self.proofs@[k]);
                        assert(holds_in(after, e, self.proofs@[k]));
                    }
                }
                Ok(released)
            },
        }
    }
}

/// The queue `after` differs from `before` in the waiting items and the stage
/// only, which are the given ones, and holds no justification in flight.
pub open spec fn settled(
    before: ImportQueue,
    after: ImportQueue,
    inbox: Seq<ImportQueueItem>,
    parked: Seq<Parked>,
    stage: Stage,
) -> bool {
    &&& before.same_chain(after)
    &&& after.inbox@ == inbox
    &&& after.parked@ == parked
    &&& after.stage == stage
    &&& after.flight is None
}

/// What taking up a block owes: the action `r` and the queue `after`, for a queue
/// `before` whose other waiting items are `inbox`.
pub open spec fn block_begun(
    before: ImportQueue,
    inbox: Seq<ImportQueueItem>,
    block: Block,
    origin: Origin,
    r: ImportAction,
    after: ImportQueue,
) -> bool {
    let hash = block.header.hash;
    let item = ImportQueueItem { payload: Payload::Block(block), origin };
    match before.block_start(block, origin) {
        BlockStart::Known { new_best } => {
            &&& r == ImportAction::Finished(plain_report(hash, origin, ImportOutcome::Imported { new_best }))
            &&& settled(before, after, inbox, before.parked@, Stage::Idle)
        },
        BlockStart::Reject(e) => {
            &&& r == ImportAction::Finished(plain_report(hash, origin, ImportOutcome::Rejected(e)))
            &&& settled(before, after, inbox, before.parked@, Stage::Idle)
        },
        BlockStart::Park(reason) => {
            &&& r == ImportAction::Finished(
                Report {
                    subject: hash,
                    origin,
                    outcome: ImportOutcome::Parked(reason),
                    commit: false,
                    request: if reason is MissingAncestor {
                        Some(block.header.parent)
                    } else {
                        None
                    },
                    evicted: evicted_by(before.parked@, before.park_limit),
                    released: 0,
                },
            )
            &&& settled(
                before,
                after,
                inbox,
                parked_with(before.parked@, before.park_limit, Parked { item, reason }),
                Stage::Idle,
            )
        },
        BlockStart::Check(f) => {
            &&& r == ImportAction::Verify(Request::Claim { hash: f.hash, claim: f.claim, author: f.author })
            &&& settled(before, after, inbox, before.parked@, Stage::Claim(f))
        },
    }
}

/// What taking up a justification owes.
pub open spec fn proof_begun(
    before: ImportQueue,
    inbox: Seq<ImportQueueItem>,
    j: Justification,
    origin: Origin,
    r: ImportAction,
    after: ImportQueue,
) -> bool {
    let item = ImportQueueItem { payload: Payload::Justification(j), origin };
    match before.proof_start(j) {
        ProofStart::Done => {
            &&& r == ImportAction::Finished(plain_report(j.target, origin, ImportOutcome::Finalized))
            &&& settled(before, after, inbox, before.parked@, Stage::Idle)
        },
        ProofStart::Reject(e) => {
            &&& r == ImportAction::Finished(plain_report(j.target, origin, ImportOutcome::Rejected(e)))
            &&& settled(before, after, inbox, before.parked@, Stage::Idle)
        },
        ProofStart::Park => {
            &&& r == ImportAction::Finished(
                Report {
                    subject: j.target,
                    origin,
                    outcome: ImportOutcome::Parked(ParkReason::EpochDataUnavailable),
                    commit: false,
                    request: None,
                    evicted: evicted_by(before.parked@, before.park_limit),
                    released: 0,
                },
            )
            &&& settled(
                before,
                after,
                inbox,
                parked_with(
                    before.parked@,
                    before.park_limit,
                    Parked { item, reason: ParkReason::EpochDataUnavailable },
                ),
                Stage::Idle,
            )
        },
        ProofStart::Check { target_index, epoch } => {
            &&& r == ImportAction::Verify(
                Request::Signatures {
                    target: j.target,
                    round: j.round,
                    generation: before.timeline.epochs@[epoch as int].set.generation,
                },
            )
            &&& before.same_chain(after)
            &&& after.inbox@ == inbox
            &&& after.parked@ == before.parked@
            &&& after.stage == Stage::Signatures { target_index, epoch, origin }
            &&& after.flight == Some(j)
        },
    }
}

/// What `next` owes.
pub open spec fn started(before: ImportQueue, r: ImportAction, after: ImportQueue) -> bool {
    if !(before.stage is Idle) {
        r == ImportAction::Busy && after == before
    } else if before.inbox@.len() == 0 {
        r == ImportAction::Idle && after == before
    } else {
        let at = next_position(before.inbox@);
        let item = before.inbox@[at];
        let inbox = before.inbox@.remove(at);
        match item.payload {
            Payload::Block(block) => block_begun(before, inbox, block, item.origin, r, after),
            Payload::Justification(j) => proof_begun(before, inbox, j, item.origin, r, after),
        }
    }
}

/// What `claim_checked` owes.
pub open spec fn claim_answered(before: ImportQueue, ok: bool, r: ImportAction, after: ImportQueue) -> bool {
    match before.stage {
        Stage::Claim(f) => {
            if !ok {
                &&& r == ImportAction::Finished(
                    plain_report(
                        f.hash,
                        f.origin,
                        ImportOutcome::Rejected(ImportError::Malformed(Malformed::BadSlotClaim)),
                    ),
                )
                &&& settled(before, after, before.inbox@, before.parked@, Stage::Idle)
            } else if before.mode is Full {
                &&& r == ImportAction::Verify(Request::Execution { hash: f.hash, parent: f.parent })
                &&& settled(before, after, before.inbox@, before.parked@, Stage::Execution(f))
            } else {
                &&& r == ImportAction::Verify(Request::Seal { hash: f.hash, seal: f.seal, author: f.author })
                &&& settled(before, after, before.inbox@, before.parked@, Stage::Seal(f))
            }
        },
        _ => r == ImportAction::Unexpected && after == before,
    }
}

/// What `executed` owes.
pub open spec fn execution_answered(before: ImportQueue, ok: bool, r: ImportAction, after: ImportQueue) -> bool {
    match before.stage {
        Stage::Execution(f) => {
            if !ok {
                &&& r == ImportAction::Finished(
                    plain_report(f.hash, f.origin, ImportOutcome::Rejected(ImportError::Execution)),
                )
                &&& settled(before, after, before.inbox@, before.parked@, Stage::Idle)
            } else {
                &&& r == ImportAction::Verify(Request::Seal { hash: f.hash, seal: f.seal, author: f.author })
                &&& settled(before, after, before.inbox@, before.parked@, Stage::Seal(f))
            }
        },
        _ => r == ImportAction::Unexpected && after == before,
    }
}

/// What `seal_checked` owes.
pub open spec fn seal_answered(before: ImportQueue, ok: bool, r: ImportAction, after: ImportQueue) -> bool {
    match before.stage {
        Stage::Seal(f) => {
            if !ok {
                &&& r == ImportAction::Finished(
                    plain_report(
                        f.hash,
                        f.origin,
                        ImportOutcome::Rejected(ImportError::Malformed(Malformed::BadSeal)),
                    ),
                )
                &&& settled(before, after, before.inbox@, before.parked@, Stage::Idle)
            } else {
                let new_best = f.number > before.chain.records@[before.chain.best as int].number;
                let w = Wake::Imported(f.hash);
                let n = before.parked@.len();
                &&& r == ImportAction::Finished(
                    Report {
                        subject: f.hash,
                        origin: f.origin,
                        outcome: ImportOutcome::Imported { new_best },
                        commit: true,
                        request: None,
                        evicted: None,
                        released: released(before.parked@, w, n).len() as usize,
                    },
                )
                &&& after.chain.records@ == before.chain.records@.push(
                    HeaderRecord {
                        hash: f.hash,
                        parent: f.parent,
                        number: f.number,
                        parent_index: f.parent_index,
                        new_best,
                    },
                )
                &&& after.chain.finalized@ == before.chain.finalized@
                &&& after.chain.best == if new_best {
                    before.chain.records@.len()
                } else {
                    before.chain.best as nat
                }
                &&& after.mode == before.mode
                &&& after.park_limit == before.park_limit
                &&& after.timeline == before.timeline
                &&& after.proofs == before.proofs
                &&& after.pruned == before.pruned
                &&& after.inbox@ == before.inbox@ + released(before.parked@, w, n)
                &&& after.parked@ == kept(before.parked@, w, n)
                &&& after.stage is Idle
                &&& after.flight is None
            }
        },
        _ => r == ImportAction::Unexpected && after == before,
    }
}

/// What `signatures_checked` owes.
pub open spec fn signatures_answered(before: ImportQueue, ok: bool, r: ImportAction, after: ImportQueue) -> bool {
    match before.stage {
        Stage::Signatures { target_index, epoch, origin } => {
            let j = before.flight->Some_0;
            if !ok {
                &&& r == ImportAction::Finished(
                    plain_report(
                        j.target,
                        origin,
                        ImportOutcome::Rejected(ImportError::Malformed(Malformed::BadSignature)),
                    ),
                )
                &&& settled(before, after, before.inbox@, before.parked@, Stage::Idle)
            } else {
                &&& r == ImportAction::Finished(
                    Report {
                        subject: j.target,
                        origin,
                        outcome: ImportOutcome::Finalized,
                        commit: true,
                        request: None,
                        evicted: None,
                        released: 0,
                    },
                )
                &&& after.chain.records@ == before.chain.records@
                &&& after.chain.finalized@ == before.chain.finalized@.push(target_index)
                &&& is_best(after.chain.records@, target_index as int, after.chain.best as int)
                &&& after.proofs@ == before.proofs@.push(j)
                &&& after.pruned@ == left_behind(
                    before.chain.records@,
                    before.chain.last_final(),
                    target_index as int,
                    before.chain.records@.len(),
                )
                &&& after.mode == before.mode
                &&& after.park_limit == before.park_limit
                &&& after.timeline == before.timeline
                &&& after.inbox@ == before.inbox@
                &&& after.parked@ == before.parked@
                &&& after.stage is Idle
                &&& after.flight is None
            }
        },
        _ => r == ImportAction::Unexpected && after == before,
    }
}

/// What `announce_epoch` owes.
pub open spec fn epoch_announced(
    before: ImportQueue,
    epoch: Epoch,
    r: Result<usize, TimelineError>,
    after: ImportQueue,
) -> bool {
    let last = before.timeline.epochs@.last();
    let n = before.parked@.len();
    if epoch.set.generation <= last.set.generation {
        r == Err::<usize, TimelineError>(TimelineError::StaleGeneration) && after == before
    } else if epoch.end_slot <= last.end_slot || epoch.end_round <= last.end_round {
        r == Err::<usize, TimelineError>(TimelineError::EmptySpan) && after == before
    } else {
        &&& r == Ok::<usize, TimelineError>(released(before.parked@, Wake::Epoch, n).len() as usize)
        &&& after.timeline.epochs@ == before.timeline.epochs@.push(epoch)
        &&& after.mode == before.mode
        &&& after.park_limit == before.park_limit
        &&& after.chain == before.chain
        &&& after.proofs == before.proofs
        &&& after.pruned == before.pruned
        &&& after.inbox@ == before.inbox@ + released(before.parked@, Wake::Epoch, n)
        &&& after.parked@ == kept(before.parked@, Wake::Epoch, n)
        &&& after.stage == before.stage
        &&& after.flight == before.flight
    }
}

} // verus!
