use consensus::errors::Error;
use consensus::hashing::hash_pair;
use consensus::manager::{ConsensusStateManager, Phase, UpdateOutcome};
use consensus::merkle::{committee_root, header_root, verify_branch};
use consensus::types::{Bootstrap, GenericUpdate, Header, SyncAggregate, SyncCommittee};

fn b32(x: u8) -> Vec<u8> {
    vec![x; 32]
}

fn pk48(x: u8) -> Vec<u8> {
    vec![x; 48]
}

fn committee(x: u8) -> SyncCommittee {
    SyncCommittee {
        pubkeys: (0..512).map(|_| pk48(x)).collect(),
        aggregate_pubkey: pk48(x),
    }
}

fn header(slot: u64, tag: u8) -> Header {
    Header {
        slot,
        proposer_index: 1,
        parent_root: b32(tag),
        state_root: b32(tag),
        body_root: b32(tag),
    }
}

fn bits(n: usize) -> Vec<bool> {
    (0..512).map(|i| i < n).collect()
}

fn aggregate(n: usize) -> SyncAggregate {
    SyncAggregate {
        sync_committee_bits: bits(n),
        sync_committee_signature: vec![3u8; 96],
    }
}

/// Recompute a root the way the branch walk does, to build test fixtures.
fn fold(leaf: &Vec<u8>, branch: &[Vec<u8>], gindex: u64) -> Vec<u8> {
    let mut value = leaf.clone();
    let mut idx = gindex;
    for node in branch {
        value = if idx % 2 == 1 {
            hash_pair(node, &value)
        } else {
            hash_pair(&value, node)
        };
        idx /= 2;
    }
    value
}

/// A depth-six state tree holding the finality leaf at generalized index
/// 105 and the committee leaf at generalized index 55; returns the root,
/// the committee branch, and the finality branch.
fn build_state_with_proofs(
    committee_leaf: &Vec<u8>,
    finality_leaf: &Vec<u8>,
) -> (Vec<u8>, Vec<Vec<u8>>, Vec<Vec<u8>>) {
    let mut l6: Vec<Vec<u8>> = (0..64).map(|_| vec![7u8; 32]).collect();
    l6[41] = finality_leaf.clone();
    let mut l5: Vec<Vec<u8>> = (0..32).map(|i| hash_pair(&l6[2 * i], &l6[2 * i + 1])).collect();
    l5[23] = committee_leaf.clone();
    let l4: Vec<Vec<u8>> = (0..16).map(|i| hash_pair(&l5[2 * i], &l5[2 * i + 1])).collect();
    let l3: Vec<Vec<u8>> = (0..8).map(|i| hash_pair(&l4[2 * i], &l4[2 * i + 1])).collect();
    let l2: Vec<Vec<u8>> = (0..4).map(|i| hash_pair(&l3[2 * i], &l3[2 * i + 1])).collect();
    let l1: Vec<Vec<u8>> = (0..2).map(|i| hash_pair(&l2[2 * i], &l2[2 * i + 1])).collect();
    let root = hash_pair(&l1[0], &l1[1]);
    let cb = vec![
        l5[22].clone(),
        l4[10].clone(),
        l3[4].clone(),
        l2[3].clone(),
        l1[0].clone(),
    ];
    let fb = vec![
        l6[40].clone(),
        l5[21].clone(),
        l4[11].clone(),
        l3[4].clone(),
        l2[3].clone(),
        l1[0].clone(),
    ];
    (root, cb, fb)
}

/// A manager bootstrapped at slot `slot` with committee `S0` (key byte 1).
fn bootstrapped(slot: u64) -> ConsensusStateManager {
    let s0 = committee(1);
    let branch: Vec<Vec<u8>> = (0..5).map(|i| b32(40 + i)).collect();
    let state_root = fold(&committee_root(&s0), &branch, 54);
    let h = Header {
        slot,
        proposer_index: 1,
        parent_root: b32(0),
        state_root,
        body_root: b32(0),
    };
    let checkpoint = header_root(&h);
    let boot = Bootstrap {
        header: h,
        current_sync_committee: s0,
        current_sync_committee_branch: branch,
    };
    let mut m = ConsensusStateManager::new(b32(11));
    assert_eq!(m.bootstrap(&checkpoint, &boot), Ok(()));
    assert_eq!(m.current_phase(), Phase::Bootstrapped);
    m
}

/// An update carrying only a finality proof, built so the proof verifies.
fn finality_only_update(attested_slot: u64, finalized_slot: u64, participants: usize) -> GenericUpdate {
    let f = header(finalized_slot, 5);
    let fb: Vec<Vec<u8>> = (0..6).map(|i| b32(60 + i)).collect();
    let state_root = fold(&header_root(&f), &fb, 105);
    let a = Header {
        slot: attested_slot,
        proposer_index: 1,
        parent_root: b32(4),
        state_root,
        body_root: b32(4),
    };
    GenericUpdate {
        attested_header: a,
        sync_aggregate: aggregate(participants),
        signature_slot: attested_slot + 1,
        next_sync_committee: None,
        next_sync_committee_branch: None,
        finalized_header: Some(f),
        finality_branch: Some(fb),
    }
}

#[test]
fn sha256_pair_known_vector() {
    // SHA-256 of sixty-four zero bytes.
    let expected: Vec<u8> = vec![
        0xf5, 0xa5, 0xfd, 0x42, 0xd1, 0x6a, 0x20, 0x30, 0x27, 0x98, 0xef, 0x6e, 0xd3, 0x09,
        0x97, 0x9b, 0x43, 0x00, 0x3d, 0x23, 0x20, 0xd9, 0xf0, 0xe8, 0xea, 0x98, 0x31, 0xa9,
        0x27, 0x59, 0xfb, 0x4b,
    ];
    assert_eq!(hash_pair(&b32(0), &b32(0)), expected);
    assert_ne!(hash_pair(&b32(1), &b32(2)), b32(1));
}

#[test]
fn branch_accepts_genuine_and_rejects_flipped_byte() {
    let leaf = b32(5);
    let branch: Vec<Vec<u8>> = (0..6).map(|i| b32(10 + i)).collect();
    let root = fold(&leaf, &branch, 105);
    assert!(verify_branch(&leaf, &branch, 6, 105, &root));
    // One flipped byte anywhere voids the proof.
    let mut bad = branch.clone();
    bad[3][7] ^= 0x01;
    assert!(!verify_branch(&leaf, &bad, 6, 105, &root));
    let mut bad_leaf = leaf.clone();
    bad_leaf[0] ^= 0x80;
    assert!(!verify_branch(&bad_leaf, &branch, 6, 105, &root));
    // A branch of the wrong depth is rejected outright.
    assert!(!verify_branch(&leaf, &branch, 5, 105, &root));
}

#[test]
fn bootstrap_rejects_tampered_branch() {
    let s0 = committee(1);
    let branch: Vec<Vec<u8>> = (0..5).map(|i| b32(40 + i)).collect();
    let state_root = fold(&committee_root(&s0), &branch, 54);
    let h = Header {
        slot: 100,
        proposer_index: 1,
        parent_root: b32(0),
        state_root,
        body_root: b32(0),
    };
    let checkpoint = header_root(&h);
    let mut tampered = branch.clone();
    tampered[0][0] ^= 1;
    let boot = Bootstrap {
        header: h,
        current_sync_committee: s0,
        current_sync_committee_branch: tampered,
    };
    let mut m = ConsensusStateManager::new(b32(11));
    assert_eq!(m.bootstrap(&checkpoint, &boot), Err(Error::InvalidMerkleProof));
    assert_eq!(m.current_phase(), Phase::Uninitialized);
}

#[test]
fn bootstrap_rejects_wrong_depth_branch() {
    let s0 = committee(1);
    let branch: Vec<Vec<u8>> = (0..4).map(|i| b32(40 + i)).collect();
    let h = header(100, 0);
    let boot = Bootstrap {
        header: h,
        current_sync_committee: s0,
        current_sync_committee_branch: branch,
    };
    let mut m = ConsensusStateManager::new(b32(11));
    assert_eq!(m.bootstrap(&b32(9), &boot), Err(Error::MalformedInput));
}

#[test]
fn update_before_bootstrap_is_rejected() {
    let mut m = ConsensusStateManager::new(b32(11));
    let u = finality_only_update(9000, 8500, 400);
    assert_eq!(m.apply_update(&u, true), Err(Error::NotBootstrapped));
}

#[test]
fn quorum_boundary_is_exact() {
    // floor of two thirds of 512 is 341: accepted; one fewer is rejected.
    let mut m = bootstrapped(8200);
    let mut u = finality_only_update(8300, 8250, 340);
    u.finalized_header = None;
    u.finality_branch = None;
    assert_eq!(m.apply_update(&u, true), Err(Error::InsufficientSignatures));
    let mut v = finality_only_update(8300, 8250, 341);
    v.finalized_header = None;
    v.finality_branch = None;
    assert!(m.apply_update(&v, true).is_ok());
}

#[test]
fn invalid_signature_is_rejected_without_mutation() {
    let mut m = bootstrapped(8200);
    let u = finality_only_update(8300, 8250, 400);
    assert_eq!(m.apply_update(&u, false), Err(Error::SignatureInvalid));
    assert_eq!(m.get_finalized_header().slot, 8200);
}

#[test]
fn replay_and_stale_updates_are_rejected() {
    let mut m = bootstrapped(8200);
    let u = finality_only_update(8300, 8250, 400);
    assert!(m.apply_update(&u, true).is_ok());
    assert_eq!(m.get_finalized_header().slot, 8250);
    // Reapplying the very same update is a replay.
    assert_eq!(m.apply_update(&u, true), Err(Error::StaleUpdate));
    assert_eq!(m.get_finalized_header().slot, 8250);
    // An older update is stale too.
    let older = finality_only_update(8260, 8210, 400);
    assert_eq!(m.apply_update(&older, true), Err(Error::StaleUpdate));
    assert_eq!(m.get_finalized_header().slot, 8250);
    // Ordering violation: signature slot not after the attested slot.
    let mut bad = finality_only_update(8400, 8350, 400);
    bad.signature_slot = 8400;
    assert_eq!(m.apply_update(&bad, true), Err(Error::StaleUpdate));
}

#[test]
fn finalized_slot_never_decreases() {
    let mut m = bootstrapped(8200);
    let mut last = m.get_finalized_header().slot;
    let slots = [(8300, 8250), (8400, 8350), (8320, 8260), (8500, 8450)];
    for (attested, finalized) in slots {
        let u = finality_only_update(attested, finalized, 400);
        let _ = m.apply_update(&u, true);
        let now = m.get_finalized_header().slot;
        assert!(now >= last);
        last = now;
    }
}

#[test]
fn tampered_finality_proof_is_rejected() {
    let mut m = bootstrapped(8200);
    let mut u = finality_only_update(8300, 8250, 400);
    if let Some(b) = &mut u.finality_branch {
        b[2][0] ^= 1;
    }
    assert_eq!(m.apply_update(&u, true), Err(Error::InvalidMerkleProof));
    assert_eq!(m.get_finalized_header().slot, 8200);
}

#[test]
fn optimistic_update_moves_only_the_watermark() {
    let mut m = bootstrapped(8200);
    let mut u = finality_only_update(8300, 8250, 400);
    u.finalized_header = None;
    u.finality_branch = None;
    let out = m.apply_update(&u, true).unwrap();
    assert_eq!(
        out,
        UpdateOutcome {
            finalized_advanced: false,
            committee_rotated: false,
            optimistic_advanced: true,
        }
    );
    assert_eq!(m.get_finalized_header().slot, 8200);
    assert_eq!(m.get_head_header().slot, 8300);
}

#[test]
fn end_to_end_bootstrap_update_and_rotation() {
    // Bootstrap with checkpoint C and committee S0 in period 1.
    let mut m = bootstrapped(8200);
    let s0 = committee(1);
    let s1 = committee(2);

    // U1 carries a valid next-committee S1 proof and a finalized header F1
    // still inside period 1.
    let f1 = header(8250, 5);
    let (root, cb, fb) = build_state_with_proofs(&committee_root(&s1), &header_root(&f1));
    let a1 = Header {
        slot: 8292,
        proposer_index: 1,
        parent_root: b32(4),
        state_root: root,
        body_root: b32(4),
    };
    let u1 = GenericUpdate {
        attested_header: a1,
        sync_aggregate: aggregate(400),
        signature_slot: 8293,
        next_sync_committee: Some(committee(2)),
        next_sync_committee_branch: Some(cb),
        finalized_header: Some(f1),
        finality_branch: Some(fb),
    };
    let out1 = m.apply_update(&u1, true).unwrap();
    assert!(out1.finalized_advanced);
    assert!(!out1.committee_rotated);
    assert_eq!(m.current_phase(), Phase::Synced);
    assert_eq!(m.get_finalized_header().slot, 8250);
    assert_eq!(m.get_current_sync_committee().pubkeys, s0.pubkeys);
    let pending = m.get_next_sync_committee().as_ref().unwrap();
    assert_eq!(pending.pubkeys, s1.pubkeys);

    // U2's finalized header falls in the following period: the committee
    // rotates to S1.
    let u2 = finality_only_update(16500, 16460, 400);
    let out2 = m.apply_update(&u2, true).unwrap();
    assert!(out2.committee_rotated);
    assert_eq!(m.get_finalized_header().slot, 16460);
    assert_eq!(m.get_current_sync_committee().pubkeys, s1.pubkeys);
    assert!(m.get_next_sync_committee().is_none());
}

#[test]
fn signing_input_selects_participating_keys() {
    let m = bootstrapped(consensus::forks::BELLATRIX_EPOCH * 32 + 10);
    let mut u = finality_only_update(
        consensus::forks::BELLATRIX_EPOCH * 32 + 100,
        consensus::forks::BELLATRIX_EPOCH * 32 + 50,
        3,
    );
    u.sync_aggregate.sync_committee_bits = (0..512).map(|i| i == 0 || i == 5).collect();
    let (root, keys) = m.signing_input(&u).unwrap();
    assert_eq!(root.len(), 32);
    assert_eq!(keys.len(), 2);
    assert_eq!(keys[0], vec![1u8; 48]);
    // A slot before the earliest fork has no signing domain.
    u.signature_slot = 100;
    assert_eq!(m.signing_input(&u), Err(Error::UnsupportedForkVariant));
}

#[test]
fn rotation_waits_for_the_activation_period_boundary() {
    let mut m = bootstrapped(8200);
    let s1 = committee(2);
    // Store S1 as pending; its activation period is the one after the
    // attested header's.
    let f1 = header(8250, 5);
    let (root, cb, fb) = build_state_with_proofs(&committee_root(&s1), &header_root(&f1));
    let a1 = Header {
        slot: 8292,
        proposer_index: 1,
        parent_root: b32(4),
        state_root: root,
        body_root: b32(4),
    };
    let u1 = GenericUpdate {
        attested_header: a1,
        sync_aggregate: aggregate(400),
        signature_slot: 8293,
        next_sync_committee: Some(committee(2)),
        next_sync_committee_branch: Some(cb),
        finalized_header: Some(f1),
        finality_branch: Some(fb),
    };
    m.apply_update(&u1, true).unwrap();
    // A finalized header at the very last slot of the current period does
    // not rotate yet.
    let u2 = finality_only_update(16400, 16383, 400);
    let out2 = m.apply_update(&u2, true).unwrap();
    assert!(!out2.committee_rotated);
    assert_eq!(m.get_current_sync_committee().pubkeys, committee(1).pubkeys);
    // One at the first slot of the next period does.
    let u3 = finality_only_update(16500, 16384, 400);
    let out3 = m.apply_update(&u3, true).unwrap();
    assert!(out3.committee_rotated);
    assert_eq!(m.get_current_sync_committee().pubkeys, s1.pubkeys);
}
