//! What goes into the import queue and what comes out of it.

use crate::finality::{Justification, JustificationError};
use crate::primitives::{AuthorityId, Block, BlockHash, DigestError, Origin, PeerId, Signature, SlotClaim};
use vstd::prelude::*;

verus! {

/// What an item of the queue carries.
#[derive(Clone, Debug, PartialEq, Eq)]
pub enum Payload {
    Block(Block),
    Justification(Justification),
}

/// A block or a justification on its way into the chain, with its provenance.
#[derive(Clone, Debug, PartialEq, Eq)]
pub struct ImportQueueItem {
    pub payload: Payload,
    pub origin: Origin,
}

impl ImportQueueItem {
    /// The block that the item is about: the block itself, or the target of the
    /// justification.
    pub open spec fn subject(&self) -> BlockHash {
        match self.payload {
            Payload::Block(b) => b.header.hash,
            Payload::Justification(j) => j.target,
        }
    }

    /// The block that the item is about.
    pub fn subject_hash(&self) -> (h: BlockHash)
        ensures
            h == self.subject(),
    {
        match &self.payload {
            Payload::Block(b) => b.header.hash,
            Payload::Justification(j) => j.target,
        }
    }
}

/// Why an item waits.
#[derive(Clone, Copy, Debug, PartialEq, Eq, Structural)]
pub enum ParkReason {
    /// The block's parent is not imported yet.
    MissingAncestor,
    /// The authority set of the item's slot or round is not known yet.
    EpochDataUnavailable,
}

/// An item that waits for something to become known.
#[derive(Clone, Debug, PartialEq, Eq)]
pub struct Parked {
    pub item: ImportQueueItem,
    pub reason: ParkReason,
}

/// What became known.
#[derive(Clone, Copy, Debug, PartialEq, Eq, Structural)]
pub enum Wake {
    /// The block with this hash was imported.
    Imported(BlockHash),
    /// A further epoch was announced.
    Epoch,
}

/// A block that passed the checks the queue makes alone and waits for verdicts.
#[derive(Clone, Copy, Debug, PartialEq, Eq)]
pub struct InFlight {
    pub hash: BlockHash,
    pub parent: BlockHash,
    pub number: u64,
    /// Where the parent stands in the chain index.
    pub parent_index: usize,
    pub claim: SlotClaim,
    pub seal: Signature,
    /// The authority that the claim names.
    pub author: AuthorityId,
    pub origin: Origin,
}

/// Where the item in flight stands.
#[derive(Clone, Copy, Debug, PartialEq, Eq)]
pub enum Stage {
    /// Nothing is in flight.
    Idle,
    /// The verdict on the slot claim is awaited.
    Claim(InFlight),
    /// The verdict on the state transition is awaited.
    Execution(InFlight),
    /// The verdict on the seal is awaited.
    Seal(InFlight),
    /// The verdict on a justification's signatures is awaited.
    Signatures { target_index: usize, epoch: usize, origin: Origin },
}

/// What is wrong with an item for good.
#[derive(Clone, Copy, Debug, PartialEq, Eq, Structural)]
pub enum Malformed {
    /// The block carries the hash of an imported block that has another parent or
    /// another number: a hash stands for one header only.
    HashMismatch,
    /// A full node was given a block without its body.
    MissingBody,
    BadDigest(DigestError),
    /// The number is not the parent's plus one.
    BadNumber,
    /// The claim names no authority of the slot's epoch, or its proof fails.
    BadSlotClaim,
    BadSeal,
    /// A signature of a justification fails.
    BadSignature,
}

/// Why an item was turned away.
#[derive(Clone, Copy, Debug, PartialEq, Eq, Structural)]
pub enum ImportError {
    /// The item is rejected for good and its source is to blame.
    Malformed(Malformed),
    /// The runtime rejected the block. It is not tried again.
    Execution,
    /// The item is about a branch that competes with a final block.
    StaleBranch,
    /// The justification is for a block that is not imported.
    UnknownTarget,
    /// The justification does not hold against the authority set of its round.
    Unjustified(JustificationError),
}

/// How an item ended.
#[derive(Clone, Copy, Debug, PartialEq, Eq, Structural)]
pub enum ImportOutcome {
    /// The block is in the chain.
    Imported { new_best: bool },
    /// The target is final.
    Finalized,
    /// The item waits; it is taken up again when what it lacks is known.
    Parked(ParkReason),
    Rejected(ImportError),
}

/// Outside work that the queue asks for; the verdict comes back through the
/// method named after it.
#[derive(Clone, Copy, Debug, PartialEq, Eq)]
pub enum Request {
    /// Does the claim's proof verify against the author's key?
    Claim { hash: BlockHash, claim: SlotClaim, author: AuthorityId },
    /// Does the runtime accept the block on top of its parent's state?
    Execution { hash: BlockHash, parent: BlockHash },
    /// Is the seal the author's signature over the header?
    Seal { hash: BlockHash, seal: Signature, author: AuthorityId },
    /// Do all signatures of the justification verify against the set of that generation?
    Signatures { target: BlockHash, round: u64, generation: u64 },
}

/// The end of an item.
#[derive(Clone, Copy, Debug, PartialEq, Eq)]
pub struct Report {
    /// The block that the item was about.
    pub subject: BlockHash,
    pub origin: Origin,
    pub outcome: ImportOutcome,
    /// The chain changed: the caller commits the import or the finalization to
    /// the chain client, and after an import tells the transaction pool and
    /// the finality voter of the new block.
    pub commit: bool,
    /// The ancestor to ask the network for.
    pub request: Option<BlockHash>,
    /// The subject of the parked item that gave way to this one.
    pub evicted: Option<BlockHash>,
    /// How many parked items came back into the queue.
    pub released: usize,
}

/// The peer that is to blame for the item: the one that sent an item that turned
/// out malformed.
pub open spec fn blamed_peer(report: Report) -> Option<PeerId> {
    if report.outcome is Rejected && report.outcome->Rejected_0 is Malformed && report.origin is Peer {
        Some(report.origin->Peer_0)
    } else {
        None
    }
}

impl Report {
    /// The peer that the network layer is to penalize, if any.
    pub fn blamed(&self) -> (r: Option<PeerId>)
        ensures
            r == blamed_peer(*self),
    {
        match self.outcome {
            ImportOutcome::Rejected(ImportError::Malformed(_)) => match self.origin {
                Origin::Peer(p) => Some(p),
                Origin::Local => None,
            },
            _ => None,
        }
    }
}

/// What the caller is to do next.
#[derive(Clone, Copy, Debug, PartialEq, Eq)]
pub enum ImportAction {
    /// Nothing waits.
    Idle,
    /// An item is in flight and awaits its verdict.
    Busy,
    /// The verdict answers no request. Nothing changed.
    Unexpected,
    Verify(Request),
    Finished(Report),
}

/// The report of an item that changed nothing.
pub open spec fn plain_report(subject: BlockHash, origin: Origin, outcome: ImportOutcome) -> Report {
    Report { subject, origin, outcome, commit: false, request: None, evicted: None, released: 0 }
}

/// The report of an item that changed nothing.
pub fn report(subject: BlockHash, origin: Origin, outcome: ImportOutcome) -> (r: Report)
    ensures
        r == plain_report(subject, origin, outcome),
{
    Report { subject, origin, outcome, commit: false, request: None, evicted: None, released: 0 }
}

} // verus!
