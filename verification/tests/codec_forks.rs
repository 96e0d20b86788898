use consensus::codec::{
    from_compact_finality_update, from_compact_optimistic_update, from_compact_update,
    to_compact_finality_update, to_compact_optimistic_update, to_compact_response,
    to_compact_update,
};
use consensus::errors::Error;
use consensus::forks::{
    decode_body, encode_body, fork_version, resolve, BeaconBlockBody, BodyBellatrix, BodyCapella,
    ExecutionPayload, ForkVariant, PayloadBellatrix, PayloadCapella, BELLATRIX_EPOCH,
    CAPELLA_EPOCH, DENEB_EPOCH,
};
use consensus::types::{
    FinalityUpdate, Header, OptimisticUpdate, SyncAggregate, SyncCommittee, Update,
    UpdatesResponse,
};

fn b32(x: u8) -> Vec<u8> {
    vec![x; 32]
}

fn pk48(x: u8) -> Vec<u8> {
    vec![x; 48]
}

fn committee(x: u8) -> SyncCommittee {
    SyncCommittee {
        pubkeys: (0..512).map(|_| pk48(x)).collect(),
        aggregate_pubkey: pk48(x),
    }
}

fn header(slot: u64, tag: u8) -> Header {
    Header {
        slot,
        proposer_index: 7,
        parent_root: b32(tag),
        state_root: b32(tag.wrapping_add(1)),
        body_root: b32(tag.wrapping_add(2)),
    }
}

fn aggregate() -> SyncAggregate {
    SyncAggregate {
        sync_committee_bits: (0..512).map(|i| i % 3 == 0).collect(),
        sync_committee_signature: vec![9u8; 96],
    }
}

fn sample_update() -> Update {
    Update {
        attested_header: header(1000, 1),
        next_sync_committee: committee(4),
        next_sync_committee_branch: (0..5).map(|i| b32(20 + i)).collect(),
        finalized_header: header(950, 8),
        finality_branch: (0..6).map(|i| b32(30 + i)).collect(),
        sync_aggregate: aggregate(),
        signature_slot: 1001,
    }
}

fn sample_finality_update() -> FinalityUpdate {
    FinalityUpdate {
        attested_header: header(1100, 2),
        finalized_header: header(1050, 3),
        finality_branch: (0..6).map(|i| b32(50 + i)).collect(),
        sync_aggregate: aggregate(),
        signature_slot: 1101,
    }
}

fn sample_optimistic_update() -> OptimisticUpdate {
    OptimisticUpdate {
        attested_header: header(1200, 6),
        sync_aggregate: aggregate(),
        signature_slot: 1201,
    }
}

fn assert_header_eq(a: &Header, b: &Header) {
    assert_eq!(a.slot, b.slot);
    assert_eq!(a.proposer_index, b.proposer_index);
    assert_eq!(a.parent_root, b.parent_root);
    assert_eq!(a.state_root, b.state_root);
    assert_eq!(a.body_root, b.body_root);
}

fn assert_update_eq(a: &Update, b: &Update) {
    assert_header_eq(&a.attested_header, &b.attested_header);
    assert_eq!(a.next_sync_committee.pubkeys, b.next_sync_committee.pubkeys);
    assert_eq!(
        a.next_sync_committee.aggregate_pubkey,
        b.next_sync_committee.aggregate_pubkey
    );
    assert_eq!(a.next_sync_committee_branch, b.next_sync_committee_branch);
    assert_header_eq(&a.finalized_header, &b.finalized_header);
    assert_eq!(a.finality_branch, b.finality_branch);
    assert_eq!(
        a.sync_aggregate.sync_committee_bits,
        b.sync_aggregate.sync_committee_bits
    );
    assert_eq!(
        a.sync_aggregate.sync_committee_signature,
        b.sync_aggregate.sync_committee_signature
    );
    assert_eq!(a.signature_slot, b.signature_slot);
}

#[test]
fn update_round_trips_through_compact_form() {
    let u = sample_update();
    let bytes = to_compact_update(&u);
    let back = from_compact_update(&bytes).unwrap();
    assert_update_eq(&u, &back);
}

#[test]
fn finality_update_round_trips_through_compact_form() {
    let u = sample_finality_update();
    let bytes = to_compact_finality_update(&u);
    let back = from_compact_finality_update(&bytes).unwrap();
    assert_header_eq(&u.attested_header, &back.attested_header);
    assert_header_eq(&u.finalized_header, &back.finalized_header);
    assert_eq!(u.finality_branch, back.finality_branch);
    assert_eq!(u.signature_slot, back.signature_slot);
}

#[test]
fn optimistic_update_round_trips_through_compact_form() {
    let u = sample_optimistic_update();
    let bytes = to_compact_optimistic_update(&u);
    let back = from_compact_optimistic_update(&bytes).unwrap();
    assert_header_eq(&u.attested_header, &back.attested_header);
    assert_eq!(
        u.sync_aggregate.sync_committee_bits,
        back.sync_aggregate.sync_committee_bits
    );
    assert_eq!(u.signature_slot, back.signature_slot);
}

#[test]
fn response_round_trips_through_compact_form() {
    let resp = UpdatesResponse {
        updates: vec![sample_update(), sample_update()],
        finality_update: sample_finality_update(),
        optimistic_update: sample_optimistic_update(),
    };
    let bytes = to_compact_response(&resp);
    let back = UpdatesResponse::deserialize_from_bytes(bytes).unwrap();
    assert_eq!(back.updates.len(), 2);
    assert_update_eq(&resp.updates[0], &back.updates[0]);
    assert_update_eq(&resp.updates[1], &back.updates[1]);
    assert_header_eq(
        &resp.finality_update.finalized_header,
        &back.finality_update.finalized_header,
    );
    assert_eq!(
        resp.optimistic_update.signature_slot,
        back.optimistic_update.signature_slot
    );
}

#[test]
fn truncated_or_padded_compact_forms_are_rejected() {
    let u = sample_update();
    let bytes = to_compact_update(&u);
    let mut short = bytes.clone();
    short.pop();
    assert!(matches!(from_compact_update(&short), Err(Error::MalformedInput)));
    let mut long = bytes.clone();
    long.push(0);
    assert!(matches!(from_compact_update(&long), Err(Error::MalformedInput)));
    assert!(matches!(from_compact_update(&vec![1, 2, 3]), Err(Error::MalformedInput)));
    // A participation byte other than zero or one has no canonical reading.
    let ou = sample_optimistic_update();
    let mut obytes = to_compact_optimistic_update(&ou);
    obytes[112] = 2;
    assert!(matches!(from_compact_optimistic_update(&obytes), Err(Error::MalformedInput)));
}

#[test]
fn fork_schedule_boundaries_resolve_exactly() {
    assert_eq!(resolve(BELLATRIX_EPOCH * 32 - 1), Err(Error::UnsupportedForkVariant));
    assert_eq!(resolve(BELLATRIX_EPOCH * 32), Ok(ForkVariant::Bellatrix));
    assert_eq!(resolve(CAPELLA_EPOCH * 32 - 1), Ok(ForkVariant::Bellatrix));
    assert_eq!(resolve(CAPELLA_EPOCH * 32), Ok(ForkVariant::Capella));
    assert_eq!(resolve(DENEB_EPOCH * 32 - 1), Ok(ForkVariant::Capella));
    assert_eq!(resolve(DENEB_EPOCH * 32), Ok(ForkVariant::Deneb));
    assert_eq!(fork_version(ForkVariant::Capella), vec![3, 0, 0, 0]);
}

fn bellatrix_body() -> BeaconBlockBody {
    BeaconBlockBody::Bellatrix(BodyBellatrix {
        graffiti: b32(1),
        execution_payload: ExecutionPayload::Bellatrix(PayloadBellatrix {
            block_number: 77,
            timestamp: 123456,
            block_hash: b32(2),
        }),
    })
}

fn capella_body() -> BeaconBlockBody {
    BeaconBlockBody::Capella(BodyCapella {
        graffiti: b32(1),
        execution_payload: ExecutionPayload::Capella(PayloadCapella {
            block_number: 77,
            timestamp: 123456,
            block_hash: b32(2),
            withdrawals_root: b32(3),
        }),
        bls_changes_root: b32(4),
    })
}

#[test]
fn body_decodes_under_the_variant_its_slot_resolves_to() {
    // A body encoded at the final slot of one fork decodes under that
    // fork's variant; the first slot of the next fork needs the new one.
    let last_bellatrix = resolve(CAPELLA_EPOCH * 32 - 1).unwrap();
    let first_capella = resolve(CAPELLA_EPOCH * 32).unwrap();
    let b = bellatrix_body();
    let enc = encode_body(&b);
    let decoded = decode_body(&enc, last_bellatrix).unwrap();
    match decoded {
        BeaconBlockBody::Bellatrix(x) => match x.execution_payload {
            ExecutionPayload::Bellatrix(p) => {
                assert_eq!(p.block_number, 77);
                assert_eq!(p.block_hash, b32(2));
            }
            _ => panic!("wrong payload variant"),
        },
        _ => panic!("wrong variant"),
    }
    // The same bytes under the next fork's variant must fail rather than
    // default the absent trailing fields.
    assert!(matches!(decode_body(&enc, first_capella), Err(Error::UnsupportedForkVariant)));
    let c = capella_body();
    let enc_c = encode_body(&c);
    assert!(matches!(decode_body(&enc_c, first_capella), Ok(BeaconBlockBody::Capella(_))));
    assert!(matches!(decode_body(&enc_c, last_bellatrix), Err(Error::UnsupportedForkVariant)));
    // A right tag with a wrong length is malformed, not a fork mismatch.
    let mut short = enc_c.clone();
    short.pop();
    assert!(matches!(decode_body(&short, first_capella), Err(Error::MalformedInput)));
}

#[test]
fn later_fork_fields_cannot_be_read_from_earlier_bodies() {
    let b = bellatrix_body();
    assert_eq!(b.withdrawals_root(), Err(Error::UnsupportedForkVariant));
    assert_eq!(b.bls_changes_root(), Err(Error::UnsupportedForkVariant));
    assert_eq!(b.blob_gas_used(), Err(Error::UnsupportedForkVariant));
    let c = capella_body();
    assert_eq!(c.withdrawals_root(), Ok(&b32(3)));
    assert_eq!(c.blob_kzg_commitments_root(), Err(Error::UnsupportedForkVariant));
}

#[test]
fn block_header_carries_the_body_root() {
    let block = consensus::forks::BeaconBlock {
        slot: CAPELLA_EPOCH * 32 + 5,
        proposer_index: 9,
        parent_root: b32(1),
        state_root: b32(2),
        body: capella_body(),
    };
    let h = block.to_header();
    assert_eq!(h.slot, block.slot);
    assert_eq!(h.body_root, block.body.hash_tree_root());
    assert_eq!(h.body_root.len(), 32);
    // A different body yields a different root.
    assert_ne!(h.body_root, bellatrix_body().hash_tree_root());
}

#[test]
fn default_response_round_trips_and_garbage_is_rejected() {
    let resp = UpdatesResponse::default();
    assert!(resp.updates.is_empty());
    let bytes = to_compact_response(&resp);
    let back = UpdatesResponse::deserialize_from_bytes(bytes).unwrap();
    assert!(back.updates.is_empty());
    assert_eq!(back.finality_update.signature_slot, 0);
    assert!(matches!(
        UpdatesResponse::deserialize_from_bytes(vec![5u8; 11]),
        Err(Error::MalformedInput)
    ));
    assert!(matches!(
        UpdatesResponse::deserialize_from_bytes(Vec::new()),
        Err(Error::MalformedInput)
    ));
}
