//! The block-production engine: one small state machine per slot.
//!
//! On each tick of the slot timer the engine asks whether this node leads the
//! slot, then has a block built on the best tip, has it sealed, and hands it to
//! the import queue as locally produced. A slot that fails is given up; the next
//! one starts afresh.

use crate::import_queue::{ImportQueueItem, Payload};
use crate::primitives::{
    claim_count, digest_reading, has_early_seal, lemma_claim_count, Block, BlockHash, DigestItem, Header, Origin,
    Signature, SlotClaim,
};
use vstd::prelude::*;

verus! {

/// The block to build on.
#[derive(Clone, Copy, Debug, PartialEq, Eq, Structural)]
pub struct Tip {
    pub hash: BlockHash,
    pub number: u64,
}

/// What the runtime made of the ready transactions.
#[derive(Clone, Debug, PartialEq, Eq)]
pub struct Built {
    pub state_root: BlockHash,
    pub extrinsics_root: BlockHash,
    /// The tags of the runtime's log entries, in order.
    pub logs: Vec<u32>,
    /// The transactions that went into the block, in order.
    pub body: Vec<u64>,
}

/// How far the current slot has come.
#[derive(Clone, Copy, Debug, PartialEq, Eq)]
pub enum SlotState {
    /// Nothing is under way.
    Idle,
    /// The keystore is asked whether this node leads the slot.
    Claiming,
    /// The block is being built.
    Building { claim: SlotClaim, parent: BlockHash, number: u64 },
    /// The header is being signed.
    Sealing { claim: SlotClaim, parent: BlockHash, number: u64, state_root: BlockHash, extrinsics_root: BlockHash },
    /// The block went to the import queue.
    Submitted,
}

/// Why a slot was given up.
#[derive(Clone, Copy, Debug, PartialEq, Eq, Structural)]
pub enum SlotFailure {
    /// The claim is for another slot than the current one.
    ForeignClaim,
    /// There is no best tip to build on.
    NoBestTip,
    /// The best tip carries the greatest number there is.
    NumberOverflow,
    /// The runtime could not build the block.
    BuildFailed,
}

/// What the caller is to do next.
#[derive(Clone, Debug, PartialEq, Eq)]
pub enum ProductionAction {
    /// Nothing until the next slot.
    Rest,
    /// The event answers no request. Nothing changed.
    Unexpected,
    /// The slot was given up. The next slot is independent of it.
    Aborted(SlotFailure),
    /// Ask the keystore for a key that leads the slot.
    Claim { slot: u64 },
    /// Take the ready transactions and have the runtime build a block on `parent`.
    Build { slot: u64, parent: BlockHash, number: u64 },
    /// Hash the header and have the leader sign it.
    Seal { parent: BlockHash, number: u64, state_root: BlockHash, extrinsics_root: BlockHash },
    /// Put the item into the import queue.
    Submit(ImportQueueItem),
}

/// The digest of a produced block: the claim, the runtime's logs, the seal.
pub open spec fn sealed_digest(claim: SlotClaim, logs: Seq<u32>, seal: Signature) -> Seq<DigestItem> {
    seq![DigestItem::PreRuntime(claim)] + Seq::new(logs.len(), |i: int| DigestItem::Other(logs[i])) + seq![
        DigestItem::Seal(seal),
    ]
}

/// The digest of a produced block reads back as its claim and its seal.
pub proof fn lemma_sealed_digest_reads(claim: SlotClaim, logs: Seq<u32>, seal: Signature)
    ensures
        digest_reading(sealed_digest(claim, logs, seal)) == Ok::<(SlotClaim, Signature), crate::primitives::DigestError>(
            (claim, seal),
        ),
{
    let items = sealed_digest(claim, logs, seal);
    assert(items.len() == logs.len() + 2);
    assert(items[0] == DigestItem::PreRuntime(claim));
    assert(items[items.len() - 1] == DigestItem::Seal(seal));
    assert forall|i: int| 0 < i < items.len() - 1 implies #[trigger] items[i] == DigestItem::Other(logs[i - 1]) by {}
    assert(!has_early_seal(items));
    lemma_one_claim(items, items.len());
    lemma_claim_count(items, items.len());
    let p = choose|p: int| 0 <= p < items.len() && #[trigger] items[p] is PreRuntime;
    assert(items[0] is PreRuntime);
    assert(p == 0);
}

/// A digest whose first item is its only claim counts one claim.
pub proof fn lemma_one_claim(items: Seq<DigestItem>, n: nat)
    requires
        1 <= n <= items.len(),
        items[0] is PreRuntime,
        forall|i: int| 0 < i < items.len() ==> !(#[trigger] items[i] is PreRuntime),
    ensures
        claim_count(items, n) == 1,
    decreases n,
{
    if n > 1 {
        lemma_one_claim(items, (n - 1) as nat);
    } else {
        assert(claim_count(items, 0) == 0);
    }
}

/// Writes the digest of a produced block.
pub fn seal_digest(claim: SlotClaim, logs: &Vec<u32>, seal: Signature) -> (digest: Vec<DigestItem>)
    ensures
        digest@ == sealed_digest(claim, logs@, seal),
{
    let mut digest: Vec<DigestItem> = Vec::new();
    digest.push(DigestItem::PreRuntime(claim));
    let n: usize = logs.len();
    let mut i: usize = 0;
    while i < n
        invariant
            n == logs@.len(),
            i <= n,
            digest@ == seq![DigestItem::PreRuntime(claim)] + Seq::new(i as nat, |k: int| DigestItem::Other(logs@[k])),
        decreases n - i,
    {
        digest.push(DigestItem::Other(logs[i]));
        assert(digest@ =~= seq![DigestItem::PreRuntime(claim)] + Seq::new(
            (i + 1) as nat,
            |k: int| DigestItem::Other(logs@[k]),
        ));
        i = i + 1;
    }
    digest.push(DigestItem::Seal(seal));
    assert(digest@ =~= sealed_digest(claim, logs@, seal));
    digest
}

/// The block-production engine.
#[derive(Clone, Debug, PartialEq, Eq)]
pub struct ProductionEngine {
    /// The node is an authority. No other node authors.
    pub enabled: bool,
    /// Author even while no peer is connected.
    pub force_authoring: bool,
    /// The slot of the last tick that was taken.
    pub slot: Option<u64>,
    pub state: SlotState,
    /// What the runtime built for the block that is being sealed.
    pub draft: Option<Built>,
}

impl ProductionEngine {
    /// A draft is held exactly while the header is being signed.
    pub open spec fn wf(&self) -> bool {
        &&& self.state is Sealing <==> self.draft is Some
        &&& !(self.state is Idle) ==> self.enabled && self.slot is Some
    }

    /// An engine that has seen no slot yet.
    pub fn new(enabled: bool, force_authoring: bool) -> (e: ProductionEngine)
        ensures
            e.wf(),
            e.enabled == enabled,
            e.force_authoring == force_authoring,
            e.slot is None,
            e.state is Idle,
            e.draft is None,
    {
        ProductionEngine { enabled, force_authoring, slot: None, state: SlotState::Idle, draft: None }
    }

    /// The slot timer ticked. Whatever was under way is given up. An authority
    /// that has a peer, or is forced to author, asks for a claim on the slot;
    /// every other node rests. A tick for a slot that is not later than the last
    /// one is not taken.
    pub fn on_slot(&mut self, slot: u64, peers: usize) -> (r: ProductionAction)
        requires
            old(self).wf(),
        ensures
            final(self).wf(),
            final(self).enabled == old(self).enabled,
            final(self).force_authoring == old(self).force_authoring,
            slot_ticked(*old(self), slot, peers, r, *final(self)),
    {
        if !self.enabled {
            return ProductionAction::Rest;
        }
        match self.slot {
            Some(last) => {
                if slot <= last {
                    return ProductionAction::Rest;
                }
            },
            None => {},
        }
        self.slot = Some(slot);
        self.draft = None;
        if peers == 0 && !self.force_authoring {
            self.state = SlotState::Idle;
            ProductionAction::Rest
        } else {
            self.state = SlotState::Claiming;
            ProductionAction::Claim { slot }
        }
    }

    /// The keystore answered. Without a leading key the node rests until the next
    /// slot. With one, the block is to be built on the best tip, numbered one
    /// above it; a claim for another slot, a missing tip or a number that cannot
    /// be raised gives the slot up.
    pub fn on_claim(&mut self, claim: Option<SlotClaim>, best: Option<Tip>) -> (r: ProductionAction)
        requires
            old(self).wf(),
        ensures
            final(self).wf(),
            final(self).enabled == old(self).enabled,
            final(self).force_authoring == old(self).force_authoring,
            final(self).slot == old(self).slot,
            claim_taken(*old(self), claim, best, r, *final(self)),
    {
        match self.state {
            SlotState::Claiming => {},
            _ => {
                return ProductionAction::Unexpected;
            },
        }
        let slot: u64 = match self.slot {
            Some(s) => s,
            None => {
                return ProductionAction::Unexpected;
            },
        };
        self.state = SlotState::Idle;
        let claim: SlotClaim = match claim {
            None => {
                return ProductionAction::Rest;
            },
            Some(c) => c,
        };
        if claim.slot != slot {
            return ProductionAction::Aborted(SlotFailure::ForeignClaim);
        }
        let tip: Tip = match best {
            None => {
                return ProductionAction::Aborted(SlotFailure::NoBestTip);
            },
            Some(t) => t,
        };
        if tip.number == u64::MAX {
            return ProductionAction::Aborted(SlotFailure::NumberOverflow);
        }
        let number: u64 = tip.number + 1;
        self.state = SlotState::Building { claim, parent: tip.hash, number };
        ProductionAction::Build { slot, parent: tip.hash, number }
    }

    /// The runtime answered. A failed build gives the slot up without another
    /// try; a built block goes on to be sealed.
    pub fn on_built(&mut self, built: Option<Built>) -> (r: ProductionAction)
        requires
            old(self).wf(),
        ensures
            final(self).wf(),
            final(self).enabled == old(self).enabled,
            final(self).force_authoring == old(self).force_authoring,
            final(self).slot == old(self).slot,
            build_taken(*old(self), built, r, *final(self)),
    {
        match self.state {
            SlotState::Building { claim, parent, number } => {
                match built {
                    None => {
                        self.state = SlotState::Idle;
                        ProductionAction::Aborted(SlotFailure::BuildFailed)
                    },
                    Some(b) => {
                        let state_root: BlockHash = b.state_root;
                        let extrinsics_root: BlockHash = b.extrinsics_root;
                        self.state = SlotState::Sealing { claim, parent, number, state_root, extrinsics_root };
                        self.draft = Some(b);
                        ProductionAction::Seal { parent, number, state_root, extrinsics_root }
                    },
                }
            },
            _ => ProductionAction::Unexpected,
        }
    }

    /// The header was hashed and signed. The block is put together, with the
    /// claim first and the seal last in its digest, and leaves for the import
    /// queue as locally produced.
    pub fn on_sealed(&mut self, hash: BlockHash, seal: Signature) -> (r: ProductionAction)
        requires
            old(self).wf(),
        ensures
            final(self).wf(),
            final(self).enabled == old(self).enabled,
            final(self).force_authoring == old(self).force_authoring,
            final(self).slot == old(self).slot,
            seal_taken(*old(self), hash, seal, r, *final(self)),
    {
        match self.state {
            SlotState::Sealing { claim, parent, number, state_root, extrinsics_root } => {
                match self.draft.take() {
                    None => ProductionAction::Unexpected,
                    Some(b) => {
                        self.state = SlotState::Submitted;
                        let digest: Vec<DigestItem> = seal_digest(claim, &b.logs, seal);
                        proof {
                            lemma_sealed_digest_reads(claim, b.logs@, seal);
                        }
                        let header = Header { hash, parent, number, state_root, extrinsics_root, digest };
                        ProductionAction::Submit(
                            ImportQueueItem {
                                payload: Payload::Block(Block { header, body: Some(b.body) }),
                                origin: Origin::Local,
                            },
                        )
                    },
                }
            },
            _ => ProductionAction::Unexpected,
        }
    }
}

/// What `on_slot` owes.
pub open spec fn slot_ticked(
    before: ProductionEngine,
    slot: u64,
    peers: usize,
    r: ProductionAction,
    after: ProductionEngine,
) -> bool {
    if !before.enabled || (before.slot is Some && slot <= before.slot->Some_0) {
        r == ProductionAction::Rest && after == before
    } else {
        &&& after.slot == Some(slot)
        &&& after.draft is None
        &&& if peers == 0 && !before.force_authoring {
            r == ProductionAction::Rest && after.state is Idle
        } else {
            r == ProductionAction::Claim { slot } && after.state is Claiming
        }
    }
}

/// What `on_claim` owes.
pub open spec fn claim_taken(
    before: ProductionEngine,
    claim: Option<SlotClaim>,
    best: Option<Tip>,
    r: ProductionAction,
    after: ProductionEngine,
) -> bool {
    if !(before.state is Claiming) {
        r == ProductionAction::Unexpected && after == before
    } else {
        &&& after.draft is None
        &&& if claim is None {
            r == ProductionAction::Rest && after.state is Idle
        } else if Some(claim->Some_0.slot) != before.slot {
            r == ProductionAction::Aborted(SlotFailure::ForeignClaim) && after.state is Idle
        } else if best is None {
            r == ProductionAction::Aborted(SlotFailure::NoBestTip) && after.state is Idle
        } else if best->Some_0.number == u64::MAX {
            r == ProductionAction::Aborted(SlotFailure::NumberOverflow) && after.state is Idle
        } else {
            let number = (best->Some_0.number + 1) as u64;
            &&& r == ProductionAction::Build { slot: claim->Some_0.slot, parent: best->Some_0.hash, number }
            &&& after.state == SlotState::Building { claim: claim->Some_0, parent: best->Some_0.hash, number }
        }
    }
}

/// What `on_built` owes.
pub open spec fn build_taken(
    before: ProductionEngine,
    built: Option<Built>,
    r: ProductionAction,
    after: ProductionEngine,
) -> bool {
    match before.state {
        SlotState::Building { claim, parent, number } => match built {
            None => r == ProductionAction::Aborted(SlotFailure::BuildFailed) && after.state is Idle
                && after.draft is None,
            Some(b) => {
                &&& r == ProductionAction::Seal {
                    parent,
                    number,
                    state_root: b.state_root,
                    extrinsics_root: b.extrinsics_root,
                }
                &&& after.state == SlotState::Sealing {
                    claim,
                    parent,
                    number,
                    state_root: b.state_root,
                    extrinsics_root: b.extrinsics_root,
                }
                &&& after.draft == Some(b)
            },
        },
        _ => r == ProductionAction::Unexpected && after == before,
    }
}

/// What `on_sealed` owes.
pub open spec fn seal_taken(
    before: ProductionEngine,
    hash: BlockHash,
    seal: Signature,
    r: ProductionAction,
    after: ProductionEngine,
) -> bool {
    match before.state {
        SlotState::Sealing { claim, parent, number, state_root, extrinsics_root } => {
            &&& after.state is Submitted
            &&& after.draft is None
            &&& r is Submit
            &&& r->Submit_0.origin is Local
            &&& r->Submit_0.payload is Block
            &&& r->Submit_0.payload->Block_0.body is Some
            &&& r->Submit_0.payload->Block_0.body->Some_0@ == before.draft->Some_0.body@
            &&& r->Submit_0.payload->Block_0.header.hash == hash
            &&& r->Submit_0.payload->Block_0.header.parent == parent
            &&& r->Submit_0.payload->Block_0.header.number == number
            &&& r->Submit_0.payload->Block_0.header.state_root == state_root
            &&& r->Submit_0.payload->Block_0.header.extrinsics_root == extrinsics_root
            &&& r->Submit_0.payload->Block_0.header.digest@ == sealed_digest(claim, before.draft->Some_0.logs@, seal)
            &&& digest_reading(r->Submit_0.payload->Block_0.header.digest@) == Ok::<
                (SlotClaim, Signature),
                crate::primitives::DigestError,
            >((claim, seal))
        },
        _ => r == ProductionAction::Unexpected && after == before,
    }
}

} // verus!
