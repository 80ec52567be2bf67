//! The import queue: the one pipeline through which every block and every
//! justification reaches the chain.
//!
//! The queue decides; it does not verify signatures, leadership proofs or state
//! transitions itself. For each of these it hands out a request and takes the
//! verdict back, one item at a time, so that a block is committed only after its
//! parent and a justification only for a block that is there.

pub mod items;
pub mod laws;
pub mod queue;
pub mod start;
pub mod waiting;

pub use items::{
    blamed_peer, plain_report, report, ImportAction, ImportError, ImportOutcome, ImportQueueItem, InFlight, Malformed,
    ParkReason, Parked, Payload, Report, Request, Stage, Wake,
};
pub use laws::{
    law_commit_follows_parent, law_competing_branch_is_rejected, law_final_blocks_are_justified,
    law_finality_moves_forward, law_import_is_idempotent, law_imported_means_recorded,
    law_nothing_imported_unverified, supermajority_backs,
};
pub use queue::{
    block_begun, claim_answered, epoch_announced, execution_answered, proof_begun, seal_answered, settled,
    signatures_answered, started, ImportQueue,
};
pub use start::{
    block_start_in, epoch_of, flight_ready, holds_in, justified, lemma_position_of, position_of, proof_start_in,
    BlockStart, ProofStart,
};
pub use waiting::{
    evicted_by, is_woken, kept, lemma_kept_shrinks, next_position, park_into, parked_with, pick_next, release_from,
    released, wakes,
};
