use node_service::primitives::{
    read_digest, AuthorityId, BlockHash, DigestError, DigestItem, Signature, SlotClaim, VrfProof,
};

fn pm_claim(slot: u64) -> SlotClaim {
    SlotClaim { slot, authority_index: 2, proof: VrfProof { bytes: [1; 64] } }
}

fn pm_seal(tag: u8) -> DigestItem {
    DigestItem::Seal(Signature { bytes: [tag; 64] })
}

#[test]
fn identifiers_from_a_word() {
    assert_eq!(BlockHash::from_u64(7), BlockHash { w0: 0, w1: 0, w2: 0, w3: 7 });
    assert_eq!(AuthorityId::from_u64(9), AuthorityId { w0: 0, w1: 0, w2: 0, w3: 9 });
    assert_ne!(BlockHash::from_u64(7), BlockHash { w0: 1, w1: 0, w2: 0, w3: 7 });
}

#[test]
fn digest_reads_claim_and_seal() {
    let digest = vec![DigestItem::Other(1), DigestItem::PreRuntime(pm_claim(4)), DigestItem::Other(2), pm_seal(9)];
    assert_eq!(read_digest(&digest), Ok((pm_claim(4), Signature { bytes: [9; 64] })));
    let short = vec![DigestItem::PreRuntime(pm_claim(4)), pm_seal(9)];
    assert_eq!(read_digest(&short), Ok((pm_claim(4), Signature { bytes: [9; 64] })));
}

#[test]
fn digest_faults_in_order() {
    assert_eq!(read_digest(&vec![]), Err(DigestError::MissingSeal));
    assert_eq!(read_digest(&vec![pm_seal(1), DigestItem::Other(1)]), Err(DigestError::MissingSeal));
    assert_eq!(
        read_digest(&vec![pm_seal(1), DigestItem::PreRuntime(pm_claim(1)), DigestItem::PreRuntime(pm_claim(1))]),
        Err(DigestError::MissingSeal)
    );
    assert_eq!(read_digest(&vec![pm_seal(1), pm_seal(2)]), Err(DigestError::MisplacedSeal));
    assert_eq!(
        read_digest(&vec![DigestItem::PreRuntime(pm_claim(1)), DigestItem::PreRuntime(pm_claim(2)), pm_seal(1), pm_seal(2)]),
        Err(DigestError::MisplacedSeal)
    );
    assert_eq!(read_digest(&vec![pm_seal(2)]), Err(DigestError::MissingClaim));
    assert_eq!(
        read_digest(&vec![DigestItem::PreRuntime(pm_claim(1)), DigestItem::PreRuntime(pm_claim(1)), pm_seal(1)]),
        Err(DigestError::DuplicateClaim)
    );
}
