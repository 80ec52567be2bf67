//! Identifiers and block data shared by every component.
//!
//! Hashes and keys are 256-bit values held as four machine words, so that two of
//! them compare by their words. Signatures and leadership proofs are carried
//! through untouched: checking them is the keystore's and the network's work, and
//! the components here only ever see the verdict.

use vstd::prelude::*;

verus! {

/// A 256-bit block hash.
#[derive(Clone, Copy, Debug, PartialEq, Eq, Structural, Hash)]
pub struct BlockHash {
    pub w0: u64,
    pub w1: u64,
    pub w2: u64,
    pub w3: u64,
}

impl BlockHash {
    /// The hash whose lowest word is `low` and whose other words are zero.
    pub fn from_u64(low: u64) -> (h: BlockHash)
        ensures
            h == (BlockHash { w0: 0, w1: 0, w2: 0, w3: low }),
    {
        BlockHash { w0: 0, w1: 0, w2: 0, w3: low }
    }
}

/// The public key under which an authority produces blocks and votes.
#[derive(Clone, Copy, Debug, PartialEq, Eq, Structural, Hash)]
pub struct AuthorityId {
    pub w0: u64,
    pub w1: u64,
    pub w2: u64,
    pub w3: u64,
}

impl AuthorityId {
    /// The key whose lowest word is `low` and whose other words are zero.
    pub fn from_u64(low: u64) -> (k: AuthorityId)
        ensures
            k == (AuthorityId { w0: 0, w1: 0, w2: 0, w3: low }),
    {
        AuthorityId { w0: 0, w1: 0, w2: 0, w3: low }
    }
}

/// A peer of the network overlay.
#[derive(Clone, Copy, Debug, PartialEq, Eq, Structural, Hash)]
pub struct PeerId {
    pub id: u64,
}

/// A signature over a header or a vote.
#[derive(Clone, Copy, Debug, PartialEq, Eq)]
pub struct Signature {
    pub bytes: [u8; 64],
}

/// The proof that an authority leads a slot.
#[derive(Clone, Copy, Debug, PartialEq, Eq)]
pub struct VrfProof {
    pub bytes: [u8; 64],
}

/// Where an item of the import queue came from.
#[derive(Clone, Copy, Debug, PartialEq, Eq, Structural)]
pub enum Origin {
    /// Built by this node.
    Local,
    /// Received from the named peer.
    Peer(PeerId),
}

/// An authority's claim to lead a slot.
#[derive(Clone, Copy, Debug, PartialEq, Eq)]
pub struct SlotClaim {
    pub slot: u64,
    /// Position of the claimant in the authority set of the slot's epoch.
    pub authority_index: u32,
    pub proof: VrfProof,
}

/// One entry of a header's digest.
#[derive(Clone, Copy, Debug, PartialEq, Eq)]
pub enum DigestItem {
    /// The slot claim, written before the block is built.
    PreRuntime(SlotClaim),
    /// The producer's signature over the rest of the header.
    Seal(Signature),
    /// A log entry of the runtime, identified by its tag.
    Other(u32),
}

/// Why a digest does not hold one slot claim followed by a closing seal.
#[derive(Clone, Copy, Debug, PartialEq, Eq, Structural)]
pub enum DigestError {
    /// The digest is empty or its last item is no seal.
    MissingSeal,
    /// A seal stands before the last item.
    MisplacedSeal,
    /// No item is a slot claim.
    MissingClaim,
    /// More than one item is a slot claim.
    DuplicateClaim,
}

/// A block header.
#[derive(Clone, Debug, PartialEq, Eq)]
pub struct Header {
    /// The header's own hash under the chain's hashing scheme.
    pub hash: BlockHash,
    pub parent: BlockHash,
    pub number: u64,
    pub state_root: BlockHash,
    pub extrinsics_root: BlockHash,
    pub digest: Vec<DigestItem>,
}

/// A header with its transactions; a light node receives headers alone.
#[derive(Clone, Debug, PartialEq, Eq)]
pub struct Block {
    pub header: Header,
    /// The transactions in execution order, each by its handle in the pool.
    pub body: Option<Vec<u64>>,
}

/// The last item of `items` is a seal.
pub open spec fn ends_with_seal(items: Seq<DigestItem>) -> bool {
    items.len() > 0 && items[items.len() - 1] is Seal
}

/// Some item before the last one is a seal.
pub open spec fn has_early_seal(items: Seq<DigestItem>) -> bool {
    exists|i: int| 0 <= i < items.len() - 1 && #[trigger] items[i] is Seal
}

/// The number of slot claims among the first `n` items.
pub open spec fn claim_count(items: Seq<DigestItem>, n: nat) -> nat
    decreases n,
{
    if n == 0 || n > items.len() {
        0
    } else {
        claim_count(items, (n - 1) as nat) + if items[n - 1] is PreRuntime {
            1nat
        } else {
            0nat
        }
    }
}

/// What reading a digest yields: the claim and the seal of a digest that holds
/// exactly one claim and ends in its only seal, and otherwise the first fault in
/// the order missing seal, misplaced seal, missing claim, duplicate claim.
pub open spec fn digest_reading(items: Seq<DigestItem>) -> Result<(SlotClaim, Signature), DigestError> {
    if !ends_with_seal(items) {
        Err(DigestError::MissingSeal)
    } else if has_early_seal(items) {
        Err(DigestError::MisplacedSeal)
    } else if claim_count(items, items.len()) == 0 {
        Err(DigestError::MissingClaim)
    } else if claim_count(items, items.len()) > 1 {
        Err(DigestError::DuplicateClaim)
    } else {
        let p = choose|p: int| 0 <= p < items.len() && #[trigger] items[p] is PreRuntime;
        Ok((items[p]->PreRuntime_0, items[items.len() - 1]->Seal_0))
    }
}

/// A positive claim count has a witness, and a count of one has only one.
pub proof fn lemma_claim_count(items: Seq<DigestItem>, n: nat)
    requires
        n <= items.len(),
    ensures
        claim_count(items, n) == 0 <==> (forall|i: int| 0 <= i < n ==> !(#[trigger] items[i] is PreRuntime)),
        claim_count(items, n) == 1 ==> (forall|i: int, j: int|
            0 <= i < n && 0 <= j < n && #[trigger] items[i] is PreRuntime
                && #[trigger] items[j] is PreRuntime ==> i == j),
    decreases n,
{
    if n > 0 {
        lemma_claim_count(items, (n - 1) as nat);
    }
}

/// Reads the slot claim and the seal off a digest.
pub fn read_digest(items: &Vec<DigestItem>) -> (r: Result<(SlotClaim, Signature), DigestError>)
    ensures
        r == digest_reading(items@),
{
    let n: usize = items.len();
    if n == 0 {
        return Err(DigestError::MissingSeal);
    }
    let seal: Signature = match items[n - 1] {
        DigestItem::Seal(s) => s,
        _ => {
            return Err(DigestError::MissingSeal);
        },
    };
    let mut claim: Option<SlotClaim> = None;
    let mut claims: usize = 0;
    let mut early_seal: bool = false;
    let ghost mut at: int = 0;
    let mut i: usize = 0;
    while i < n
        invariant
            n == items.len(),
            i <= n,
            claims == claim_count(items@, i as nat),
            claims <= i,
            claims == 0 ==> claim is None,
            early_seal <==> exists|k: int| 0 <= k < i && k < n - 1 && #[trigger] items@[k] is Seal,
            claims > 0 ==> 0 <= at < i && items@[at] is PreRuntime && claim == Some(
                items@[at]->PreRuntime_0,
            ),
        decreases n - i,
    {
        match items[i] {
            DigestItem::PreRuntime(c) => {
                claims = claims + 1;
                claim = Some(c);
                proof {
                    at = i as int;
                }
            },
            DigestItem::Seal(_) => {
                if i < n - 1 {
                    early_seal = true;
                }
            },
            DigestItem::Other(_) => {},
        }
        i = i + 1;
    }
    proof {
        lemma_claim_count(items@, n as nat);
    }
    if early_seal {
        return Err(DigestError::MisplacedSeal);
    }
    match claim {
        None => Err(DigestError::MissingClaim),
        Some(c) => {
            if claims > 1 {
                Err(DigestError::DuplicateClaim)
            } else {
                Ok((c, seal))
            }
        },
    }
}

} // verus!
