//! What the queue can tell about an item before any verdict from outside.

use crate::authority::{covers, AuthorityTimeline, Clock, Epoch};
use crate::chain::{descends, distinct_hashes, knows, ChainIndex, HeaderRecord};
use crate::finality::{justification_fault, Justification};
use crate::import_queue::items::{ImportError, InFlight, Malformed, ParkReason};
use crate::primitives::{digest_reading, Block, BlockHash, Origin};
use crate::role::ImportMode;
use vstd::prelude::*;

verus! {

/// The block in flight can be appended to the chain as it is.
pub open spec fn flight_ready(chain: ChainIndex, f: InFlight) -> bool {
    &&& !knows(chain.records@, f.hash)
    &&& f.parent_index < chain.records@.len()
    &&& chain.records@[f.parent_index as int].hash == f.parent
    &&& f.number == chain.records@[f.parent_index as int].number + 1
    &&& descends(chain.records@, chain.last_final(), f.parent_index as int)
}

/// The justification stands against the set of the epoch that covers its round.
pub open spec fn holds_in(epochs: Seq<Epoch>, e: int, j: Justification) -> bool {
    &&& covers(epochs, e, Clock::Round, j.round)
    &&& justification_fault(j, epochs[e].set.members@) is None
}

/// The justification proves the block at `position` final: it names that block,
/// and the authority set in force in its round backs it with a supermajority.
pub open spec fn justified(epochs: Seq<Epoch>, records: Seq<HeaderRecord>, j: Justification, position: int) -> bool {
    &&& 0 <= position < records.len()
    &&& records[position].hash == j.target
    &&& exists|e: int| #[trigger] holds_in(epochs, e, j)
}

/// Where the record with the given hash stands.
pub open spec fn position_of(records: Seq<HeaderRecord>, hash: BlockHash) -> int {
    choose|i: int| 0 <= i < records.len() && (#[trigger] records[i]).hash == hash
}

/// The epoch that covers the point.
pub open spec fn epoch_of(epochs: Seq<Epoch>, clock: Clock, point: u64) -> int {
    choose|e: int| covers(epochs, e, clock, point)
}

/// With distinct hashes, the record that carries a hash is the only one.
pub proof fn lemma_position_of(records: Seq<HeaderRecord>, at: int, hash: BlockHash)
    requires
        distinct_hashes(records),
        0 <= at < records.len(),
        records[at].hash == hash,
    ensures
        knows(records, hash),
        position_of(records, hash) == at,
{
    let c = position_of(records, hash);
    if c < at {
        assert(records[c].hash != records[at].hash);
    }
    if at < c {
        assert(records[at].hash != records[c].hash);
    }
}

/// What the queue finds out about a block on its own.
#[derive(Clone, Copy, Debug, PartialEq, Eq)]
pub enum BlockStart {
    /// The block is in the chain already, imported with this result.
    Known { new_best: bool },
    Reject(ImportError),
    Park(ParkReason),
    /// The block's claim, execution and seal are to be verified.
    Check(InFlight),
}

/// What the queue finds out about a justification on its own.
#[derive(Clone, Copy, Debug, PartialEq, Eq)]
pub enum ProofStart {
    /// The target is final already.
    Done,
    Reject(ImportError),
    /// The authority set of the round is not known yet.
    Park,
    /// The signatures are to be verified.
    Check { target_index: usize, epoch: usize },
}

/// What the queue finds out about a block on its own, in this order: a block
/// whose hash is in the chain is known, if it has the parent and the number
/// that stand there; a full node needs the body; the digest must read;
/// the parent must be there, on the final branch and numbered one below; the
/// epoch of the claimed slot must be known and hold the claimed authority.
pub open spec fn block_start_in(
    mode: ImportMode,
    chain: ChainIndex,
    timeline: AuthorityTimeline,
    block: Block,
    origin: Origin,
) -> BlockStart {
    let records = chain.records@;
    let epochs = timeline.epochs@;
    let h = block.header;
    if knows(records, h.hash) {
        let known = records[position_of(records, h.hash)];
        if known.parent == h.parent && known.number == h.number {
            BlockStart::Known { new_best: known.new_best }
        } else {
            BlockStart::Reject(ImportError::Malformed(Malformed::HashMismatch))
        }
    } else if mode is Full && block.body is None {
        BlockStart::Reject(ImportError::Malformed(Malformed::MissingBody))
    } else if digest_reading(h.digest@) is Err {
        BlockStart::Reject(ImportError::Malformed(Malformed::BadDigest(digest_reading(h.digest@)->Err_0)))
    } else if !knows(records, h.parent) {
        BlockStart::Park(ParkReason::MissingAncestor)
    } else {
        let p = position_of(records, h.parent);
        let claim = digest_reading(h.digest@)->Ok_0.0;
        let seal = digest_reading(h.digest@)->Ok_0.1;
        if !descends(records, chain.last_final(), p) {
            BlockStart::Reject(ImportError::StaleBranch)
        } else if h.number != records[p].number + 1 {
            BlockStart::Reject(ImportError::Malformed(Malformed::BadNumber))
        } else if claim.slot >= epochs.last().end_slot {
            BlockStart::Park(ParkReason::EpochDataUnavailable)
        } else {
            let members = epochs[epoch_of(epochs, Clock::Slot, claim.slot)].set.members@;
            if claim.authority_index >= members.len() {
                BlockStart::Reject(ImportError::Malformed(Malformed::BadSlotClaim))
            } else {
                BlockStart::Check(
                    InFlight {
                        hash: h.hash,
                        parent: h.parent,
                        number: h.number,
                        parent_index: p as usize,
                        claim,
                        seal,
                        author: members[claim.authority_index as int].id,
                        origin,
                    },
                )
            }
        }
    }
}

/// What the queue finds out about a justification on its own, in this order:
/// the target must be imported; a target on the final branch at or below the
/// last final block is final already; any other must descend from the last
/// final block; the epoch of the round must be known; the votes must hold
/// against its authority set.
pub open spec fn proof_start_in(chain: ChainIndex, timeline: AuthorityTimeline, j: Justification) -> ProofStart {
    let records = chain.records@;
    let epochs = timeline.epochs@;
    if !knows(records, j.target) {
        ProofStart::Reject(ImportError::UnknownTarget)
    } else {
        let t = position_of(records, j.target);
        if descends(records, t, chain.last_final()) {
            ProofStart::Done
        } else if !descends(records, chain.last_final(), t) {
            ProofStart::Reject(ImportError::StaleBranch)
        } else if j.round >= epochs.last().end_round {
            ProofStart::Park
        } else {
            let e = epoch_of(epochs, Clock::Round, j.round);
            match justification_fault(j, epochs[e].set.members@) {
                Some(fault) => ProofStart::Reject(ImportError::Unjustified(fault)),
                None => ProofStart::Check { target_index: t as usize, epoch: e as usize },
            }
        }
    }
}

} // verus!
