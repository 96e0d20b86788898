use vstd::prelude::*;

use crate::bytes::{
    le_bytes, zeros, zero_bytes, copy_bytes, read_bytes, read_u64_le, push_u64_le, push_bytes,
    lemma_le_bytes_injective,
};
use crate::errors::Error;
use crate::merkle::{u64_chunk, merkle_root_of, merkle_root, is_pow2, node_views};
use crate::types::Header;

verus! {

/// The mutually exclusive structural shapes of fork-dependent records.
/// Each later fork appends trailing fields and never removes or reorders
/// earlier ones.
#[derive(Clone, Copy, Debug, PartialEq, Eq, Structural)]
pub enum ForkVariant {
    Bellatrix,
    Capella,
    Deneb,
}

/// Activation epochs of the static fork schedule.
pub const BELLATRIX_EPOCH: u64 = 144896;

pub const CAPELLA_EPOCH: u64 = 194048;

pub const DENEB_EPOCH: u64 = 269568;

/// The epoch a slot falls in.
pub open spec fn epoch_of(slot: u64) -> u64 {
    slot / crate::SLOTS_PER_EPOCH
}

/// The variant a slot maps to under the schedule, if any.
pub open spec fn variant_of(slot: u64) -> Option<ForkVariant> {
    if epoch_of(slot) >= DENEB_EPOCH {
        Some(ForkVariant::Deneb)
    } else if epoch_of(slot) >= CAPELLA_EPOCH {
        Some(ForkVariant::Capella)
    } else if epoch_of(slot) >= BELLATRIX_EPOCH {
        Some(ForkVariant::Bellatrix)
    } else {
        None
    }
}

/// Map a slot to the one variant that is valid for it.
pub fn resolve(slot: u64) -> (r: Result<ForkVariant, Error>)
    ensures
        r == (match variant_of(slot) {
            Some(v) => Ok::<ForkVariant, Error>(v),
            None => Err::<ForkVariant, Error>(Error::UnsupportedForkVariant),
        }),
{
    let epoch = slot / crate::SLOTS_PER_EPOCH;
    if epoch >= DENEB_EPOCH {
        Ok(ForkVariant::Deneb)
    } else if epoch >= CAPELLA_EPOCH {
        Ok(ForkVariant::Capella)
    } else if epoch >= BELLATRIX_EPOCH {
        Ok(ForkVariant::Bellatrix)
    } else {
        Err(Error::UnsupportedForkVariant)
    }
}

/// The four-byte fork version of a variant; part of the signing domain.
pub open spec fn version_of(v: ForkVariant) -> Seq<u8> {
    match v {
        ForkVariant::Bellatrix => seq![2u8, 0u8, 0u8, 0u8],
        ForkVariant::Capella => seq![3u8, 0u8, 0u8, 0u8],
        ForkVariant::Deneb => seq![4u8, 0u8, 0u8, 0u8],
    }
}

/// Build the four-byte fork version of a variant.
pub fn fork_version(v: ForkVariant) -> (r: Vec<u8>)
    ensures
        r@ == version_of(v),
{
    let mut out: Vec<u8> = Vec::new();
    match v {
        ForkVariant::Bellatrix => out.push(2u8),
        ForkVariant::Capella => out.push(3u8),
        ForkVariant::Deneb => out.push(4u8),
    }
    out.push(0u8);
    out.push(0u8);
    out.push(0u8);
    proof {
        assert(out@ =~= version_of(v));
    }
    out
}

/// The execution-payload summary of the earliest fork: the fields the
/// light client reads, with the deep lists represented by their hash tree
/// roots.
pub struct PayloadBellatrix {
    pub block_number: u64,
    pub timestamp: u64,
    pub block_hash: Vec<u8>,
}

pub struct PayloadCapella {
    pub block_number: u64,
    pub timestamp: u64,
    pub block_hash: Vec<u8>,
    pub withdrawals_root: Vec<u8>,
}

pub struct PayloadDeneb {
    pub block_number: u64,
    pub timestamp: u64,
    pub block_hash: Vec<u8>,
    pub withdrawals_root: Vec<u8>,
    pub blob_gas_used: u64,
    pub excess_blob_gas: u64,
}

/// Exactly one payload shape per fork; each later fork appends fields.
pub enum ExecutionPayload {
    Bellatrix(PayloadBellatrix),
    Capella(PayloadCapella),
    Deneb(PayloadDeneb),
}

impl ExecutionPayload {
    pub open spec fn spec_variant(&self) -> ForkVariant {
        match self {
            ExecutionPayload::Bellatrix(_) => ForkVariant::Bellatrix,
            ExecutionPayload::Capella(_) => ForkVariant::Capella,
            ExecutionPayload::Deneb(_) => ForkVariant::Deneb,
        }
    }

    pub open spec fn spec_block_number(&self) -> u64 {
        match self {
            ExecutionPayload::Bellatrix(p) => p.block_number,
            ExecutionPayload::Capella(p) => p.block_number,
            ExecutionPayload::Deneb(p) => p.block_number,
        }
    }

    pub open spec fn spec_timestamp(&self) -> u64 {
        match self {
            ExecutionPayload::Bellatrix(p) => p.timestamp,
            ExecutionPayload::Capella(p) => p.timestamp,
            ExecutionPayload::Deneb(p) => p.timestamp,
        }
    }

    pub open spec fn spec_block_hash(&self) -> Seq<u8> {
        match self {
            ExecutionPayload::Bellatrix(p) => p.block_hash@,
            ExecutionPayload::Capella(p) => p.block_hash@,
            ExecutionPayload::Deneb(p) => p.block_hash@,
        }
    }

    pub open spec fn spec_withdrawals_root(&self) -> Option<Seq<u8>> {
        match self {
            ExecutionPayload::Bellatrix(_) => None,
            ExecutionPayload::Capella(p) => Some(p.withdrawals_root@),
            ExecutionPayload::Deneb(p) => Some(p.withdrawals_root@),
        }
    }

    pub open spec fn spec_blob_gas_used(&self) -> Option<u64> {
        match self {
            ExecutionPayload::Deneb(p) => Some(p.blob_gas_used),
            _ => None,
        }
    }

    pub open spec fn spec_excess_blob_gas(&self) -> Option<u64> {
        match self {
            ExecutionPayload::Deneb(p) => Some(p.excess_blob_gas),
            _ => None,
        }
    }

    /// The withdrawals root; absent before the fork that introduced it.
    pub fn withdrawals_root(&self) -> (r: Result<&Vec<u8>, Error>)
        ensures
            self.spec_withdrawals_root() is Some ==> (r matches Ok(w) && w@
                == self.spec_withdrawals_root()->0),
            self.spec_withdrawals_root() is None ==> r == Err::<&Vec<u8>, Error>(
                Error::UnsupportedForkVariant,
            ),
    {
        match self {
            ExecutionPayload::Bellatrix(_) => Err(Error::UnsupportedForkVariant),
            ExecutionPayload::Capella(p) => Ok(&p.withdrawals_root),
            ExecutionPayload::Deneb(p) => Ok(&p.withdrawals_root),
        }
    }

    /// The blob gas used; only the newest variant carries it.
    pub fn blob_gas_used(&self) -> (r: Result<u64, Error>)
        ensures
            self.spec_blob_gas_used() is Some ==> r == Ok::<u64, Error>(
                self.spec_blob_gas_used()->0,
            ),
            self.spec_blob_gas_used() is None ==> r == Err::<u64, Error>(
                Error::UnsupportedForkVariant,
            ),
    {
        match self {
            ExecutionPayload::Deneb(p) => Ok(p.blob_gas_used),
            _ => Err(Error::UnsupportedForkVariant),
        }
    }
}

/// A fork-dependent block-body summary around its payload.
pub struct BodyBellatrix {
    pub graffiti: Vec<u8>,
    pub execution_payload: ExecutionPayload,
}

pub struct BodyCapella {
    pub graffiti: Vec<u8>,
    pub execution_payload: ExecutionPayload,
    pub bls_changes_root: Vec<u8>,
}

pub struct BodyDeneb {
    pub graffiti: Vec<u8>,
    pub execution_payload: ExecutionPayload,
    pub bls_changes_root: Vec<u8>,
    pub blob_kzg_commitments_root: Vec<u8>,
}

/// Exactly one structural shape per fork. Well-formedness ties the
/// payload's variant to the body's: a field of a later fork can never be
/// read out of an earlier record.
pub enum BeaconBlockBody {
    Bellatrix(BodyBellatrix),
    Capella(BodyCapella),
    Deneb(BodyDeneb),
}

/// Flat mathematical model of a body; fields a variant lacks are `None`.
#[verifier::ext_equal]
pub ghost struct BodyModel {
    pub variant: ForkVariant,
    pub graffiti: Seq<u8>,
    pub block_number: u64,
    pub timestamp: u64,
    pub block_hash: Seq<u8>,
    pub withdrawals_root: Option<Seq<u8>>,
    pub bls_changes_root: Option<Seq<u8>>,
    pub blob_gas_used: Option<u64>,
    pub excess_blob_gas: Option<u64>,
    pub blob_kzg_commitments_root: Option<Seq<u8>>,
}

impl BodyModel {
    /// The optional fields are exactly those of the variant, and every root
    /// is 32 bytes.
    pub open spec fn wf(self) -> bool {
        &&& self.graffiti.len() == 32
        &&& self.block_hash.len() == 32
        &&& (self.withdrawals_root is Some <==> !(self.variant is Bellatrix))
        &&& (self.bls_changes_root is Some <==> !(self.variant is Bellatrix))
        &&& (self.blob_gas_used is Some <==> self.variant is Deneb)
        &&& (self.excess_blob_gas is Some <==> self.variant is Deneb)
        &&& (self.blob_kzg_commitments_root is Some <==> self.variant is Deneb)
        &&& (self.withdrawals_root is Some ==> self.withdrawals_root->0.len() == 32)
        &&& (self.bls_changes_root is Some ==> self.bls_changes_root->0.len() == 32)
        &&& (self.blob_kzg_commitments_root is Some ==> self.blob_kzg_commitments_root->0.len()
            == 32)
    }
}

impl View for BeaconBlockBody {
    type V = BodyModel;

    open spec fn view(&self) -> BodyModel {
        match self {
            BeaconBlockBody::Bellatrix(b) => BodyModel {
                variant: ForkVariant::Bellatrix,
                graffiti: b.graffiti@,
                block_number: b.execution_payload.spec_block_number(),
                timestamp: b.execution_payload.spec_timestamp(),
                block_hash: b.execution_payload.spec_block_hash(),
                withdrawals_root: b.execution_payload.spec_withdrawals_root(),
                bls_changes_root: None,
                blob_gas_used: b.execution_payload.spec_blob_gas_used(),
                excess_blob_gas: b.execution_payload.spec_excess_blob_gas(),
                blob_kzg_commitments_root: None,
            },
            BeaconBlockBody::Capella(b) => BodyModel {
                variant: ForkVariant::Capella,
                graffiti: b.graffiti@,
                block_number: b.execution_payload.spec_block_number(),
                timestamp: b.execution_payload.spec_timestamp(),
                block_hash: b.execution_payload.spec_block_hash(),
                withdrawals_root: b.execution_payload.spec_withdrawals_root(),
                bls_changes_root: Some(b.bls_changes_root@),
                blob_gas_used: b.execution_payload.spec_blob_gas_used(),
                excess_blob_gas: b.execution_payload.spec_excess_blob_gas(),
                blob_kzg_commitments_root: None,
            },
            BeaconBlockBody::Deneb(b) => BodyModel {
                variant: ForkVariant::Deneb,
                graffiti: b.graffiti@,
                block_number: b.execution_payload.spec_block_number(),
                timestamp: b.execution_payload.spec_timestamp(),
                block_hash: b.execution_payload.spec_block_hash(),
                withdrawals_root: b.execution_payload.spec_withdrawals_root(),
                bls_changes_root: Some(b.bls_changes_root@),
                blob_gas_used: b.execution_payload.spec_blob_gas_used(),
                excess_blob_gas: b.execution_payload.spec_excess_blob_gas(),
                blob_kzg_commitments_root: Some(b.blob_kzg_commitments_root@),
            },
        }
    }
}

impl BeaconBlockBody {
    pub open spec fn wf(&self) -> bool {
        self@.wf()
    }

    /// The variant tag of this body.
    pub fn fork_variant(&self) -> (r: ForkVariant)
        ensures
            r == self@.variant,
    {
        match self {
            BeaconBlockBody::Bellatrix(_) => ForkVariant::Bellatrix,
            BeaconBlockBody::Capella(_) => ForkVariant::Capella,
            BeaconBlockBody::Deneb(_) => ForkVariant::Deneb,
        }
    }

    /// The withdrawals root; absent before the fork that introduced it.
    pub fn withdrawals_root(&self) -> (r: Result<&Vec<u8>, Error>)
        ensures
            self@.withdrawals_root is Some ==> (r matches Ok(w) && w@ == self@.withdrawals_root->0),
            self@.withdrawals_root is None ==> r == Err::<&Vec<u8>, Error>(
                Error::UnsupportedForkVariant,
            ),
    {
        match self {
            BeaconBlockBody::Bellatrix(b) => b.execution_payload.withdrawals_root(),
            BeaconBlockBody::Capella(b) => b.execution_payload.withdrawals_root(),
            BeaconBlockBody::Deneb(b) => b.execution_payload.withdrawals_root(),
        }
    }

    /// The root of the BLS-to-execution change list; absent before the fork
    /// that introduced it.
    pub fn bls_changes_root(&self) -> (r: Result<&Vec<u8>, Error>)
        ensures
            self@.bls_changes_root is Some ==> (r matches Ok(w) && w@ == self@.bls_changes_root->0),
            self@.bls_changes_root is None ==> r == Err::<&Vec<u8>, Error>(
                Error::UnsupportedForkVariant,
            ),
    {
        match self {
            BeaconBlockBody::Bellatrix(_) => Err(Error::UnsupportedForkVariant),
            BeaconBlockBody::Capella(b) => Ok(&b.bls_changes_root),
            BeaconBlockBody::Deneb(b) => Ok(&b.bls_changes_root),
        }
    }

    /// The blob gas used; only the newest variant carries it.
    pub fn blob_gas_used(&self) -> (r: Result<u64, Error>)
        ensures
            self@.blob_gas_used is Some ==> r == Ok::<u64, Error>(self@.blob_gas_used->0),
            self@.blob_gas_used is None ==> r == Err::<u64, Error>(Error::UnsupportedForkVariant),
    {
        match self {
            BeaconBlockBody::Bellatrix(b) => b.execution_payload.blob_gas_used(),
            BeaconBlockBody::Capella(b) => b.execution_payload.blob_gas_used(),
            BeaconBlockBody::Deneb(b) => b.execution_payload.blob_gas_used(),
        }
    }

    /// The root of the blob commitment list; only the newest variant
    /// carries it.
    pub fn blob_kzg_commitments_root(&self) -> (r: Result<&Vec<u8>, Error>)
        ensures
            self@.blob_kzg_commitments_root is Some ==> (r matches Ok(w) && w@
                == self@.blob_kzg_commitments_root->0),
            self@.blob_kzg_commitments_root is None ==> r == Err::<&Vec<u8>, Error>(
                Error::UnsupportedForkVariant,
            ),
    {
        match self {
            BeaconBlockBody::Deneb(b) => Ok(&b.blob_kzg_commitments_root),
            _ => Err(Error::UnsupportedForkVariant),
        }
    }
}

/// The tag byte that opens a body's encoding.
pub open spec fn tag_of(v: ForkVariant) -> u8 {
    match v {
        ForkVariant::Bellatrix => 0u8,
        ForkVariant::Capella => 1u8,
        ForkVariant::Deneb => 2u8,
    }
}

/// The total encoded length of a variant's body.
pub open spec fn body_len_of(v: ForkVariant) -> int {
    match v {
        ForkVariant::Bellatrix => 81,
        ForkVariant::Capella => 145,
        ForkVariant::Deneb => 193,
    }
}

/// The fixed egress layout of a body: tag, graffiti, block number,
/// timestamp, block hash, then the trailing fields of later variants.
pub open spec fn enc_body(m: BodyModel) -> Seq<u8> {
    seq![tag_of(m.variant)] + m.graffiti + le_bytes(m.block_number) + le_bytes(m.timestamp)
        + m.block_hash + (match m.variant {
        ForkVariant::Bellatrix => Seq::<u8>::empty(),
        ForkVariant::Capella => m.withdrawals_root->0 + m.bls_changes_root->0,
        ForkVariant::Deneb => m.withdrawals_root->0 + le_bytes(m.blob_gas_used->0) + le_bytes(
            m.excess_blob_gas->0,
        ) + m.bls_changes_root->0 + m.blob_kzg_commitments_root->0,
    })
}

/// Two well-formed bodies with the same encoding are the same body.
pub proof fn lemma_enc_body_injective(m1: BodyModel, m2: BodyModel)
    requires
        m1.wf(),
        m2.wf(),
        enc_body(m1) == enc_body(m2),
    ensures
        m1 == m2,
{
    let e = enc_body(m1);
    assert(e[0] == tag_of(m1.variant));
    assert(e[0] == tag_of(m2.variant));
    assert(m1.variant == m2.variant);
    assert(m1.graffiti =~= e.subrange(1, 33));
    assert(m2.graffiti =~= e.subrange(1, 33));
    assert(le_bytes(m1.block_number) =~= e.subrange(33, 41));
    assert(le_bytes(m2.block_number) =~= e.subrange(33, 41));
    lemma_le_bytes_injective(m1.block_number, m2.block_number);
    assert(le_bytes(m1.timestamp) =~= e.subrange(41, 49));
    assert(le_bytes(m2.timestamp) =~= e.subrange(41, 49));
    lemma_le_bytes_injective(m1.timestamp, m2.timestamp);
    assert(m1.block_hash =~= e.subrange(49, 81));
    assert(m2.block_hash =~= e.subrange(49, 81));
    if m1.variant is Capella {
        assert(m1.withdrawals_root->0 =~= e.subrange(81, 113));
        assert(m2.withdrawals_root->0 =~= e.subrange(81, 113));
        assert(m1.bls_changes_root->0 =~= e.subrange(113, 145));
        assert(m2.bls_changes_root->0 =~= e.subrange(113, 145));
    }
    if m1.variant is Deneb {
        assert(m1.withdrawals_root->0 =~= e.subrange(81, 113));
        assert(m2.withdrawals_root->0 =~= e.subrange(81, 113));
        assert(le_bytes(m1.blob_gas_used->0) =~= e.subrange(113, 121));
        assert(le_bytes(m2.blob_gas_used->0) =~= e.subrange(113, 121));
        lemma_le_bytes_injective(m1.blob_gas_used->0, m2.blob_gas_used->0);
        assert(le_bytes(m1.excess_blob_gas->0) =~= e.subrange(121, 129));
        assert(le_bytes(m2.excess_blob_gas->0) =~= e.subrange(121, 129));
        lemma_le_bytes_injective(m1.excess_blob_gas->0, m2.excess_blob_gas->0);
        assert(m1.bls_changes_root->0 =~= e.subrange(129, 161));
        assert(m2.bls_changes_root->0 =~= e.subrange(129, 161));
        assert(m1.blob_kzg_commitments_root->0 =~= e.subrange(161, 193));
        assert(m2.blob_kzg_commitments_root->0 =~= e.subrange(161, 193));
    }
    assert(m1 =~= m2);
}

/// Encode a body into its fixed egress layout.
pub fn encode_body(b: &BeaconBlockBody) -> (r: Vec<u8>)
    requires
        b.wf(),
    ensures
        r@ == enc_body(b@),
{
    let mut out: Vec<u8> = Vec::new();
    match b {
        BeaconBlockBody::Bellatrix(x) => {
            out.push(0u8);
            push_bytes(&mut out, &x.graffiti);
            match &x.execution_payload {
                ExecutionPayload::Bellatrix(p) => {
                    push_u64_le(&mut out, p.block_number);
                    push_u64_le(&mut out, p.timestamp);
                    push_bytes(&mut out, &p.block_hash);
                },
                _ => {
                    proof {
                        assert(false);
                    }
                },
            }
        },
        BeaconBlockBody::Capella(x) => {
            out.push(1u8);
            push_bytes(&mut out, &x.graffiti);
            match &x.execution_payload {
                ExecutionPayload::Capella(p) => {
                    push_u64_le(&mut out, p.block_number);
                    push_u64_le(&mut out, p.timestamp);
                    push_bytes(&mut out, &p.block_hash);
                    push_bytes(&mut out, &p.withdrawals_root);
                },
                _ => {
                    proof {
                        assert(false);
                    }
                },
            }
            push_bytes(&mut out, &x.bls_changes_root);
        },
        BeaconBlockBody::Deneb(x) => {
            out.push(2u8);
            push_bytes(&mut out, &x.graffiti);
            match &x.execution_payload {
                ExecutionPayload::Deneb(p) => {
                    push_u64_le(&mut out, p.block_number);
                    push_u64_le(&mut out, p.timestamp);
                    push_bytes(&mut out, &p.block_hash);
                    push_bytes(&mut out, &p.withdrawals_root);
                    push_u64_le(&mut out, p.blob_gas_used);
                    push_u64_le(&mut out, p.excess_blob_gas);
                },
                _ => {
                    proof {
                        assert(false);
                    }
                },
            }
            push_bytes(&mut out, &x.bls_changes_root);
            push_bytes(&mut out, &x.blob_kzg_commitments_root);
        },
    }
    proof {
        assert(out@ =~= enc_body(b@));
    }
    out
}

/// Decode a body under the variant the slot resolved to. A tag other than
/// the expected one fails with `UnsupportedForkVariant` rather than
/// defaulting absent fields; a wrong total length is `MalformedInput`.
pub fn decode_body(s: &Vec<u8>, v: ForkVariant) -> (r: Result<BeaconBlockBody, Error>)
    ensures
        s@.len() == 0 ==> r == Err::<BeaconBlockBody, Error>(Error::MalformedInput),
        s@.len() > 0 && s@[0] != tag_of(v) ==> r == Err::<BeaconBlockBody, Error>(
            Error::UnsupportedForkVariant,
        ),
        s@.len() > 0 && s@[0] == tag_of(v) && s@.len() != body_len_of(v) ==> r == Err::<
            BeaconBlockBody,
            Error,
        >(Error::MalformedInput),
        s@.len() > 0 && s@[0] == tag_of(v) && s@.len() == body_len_of(v) ==> (r matches Ok(b)
            && b.wf() && b@.variant == v && enc_body(b@) == s@),
{
    let len = s.len();
    if len == 0 {
        return Err(Error::MalformedInput);
    }
    let expected: u8 = match v {
        ForkVariant::Bellatrix => 0u8,
        ForkVariant::Capella => 1u8,
        ForkVariant::Deneb => 2u8,
    };
    if s[0] != expected {
        return Err(Error::UnsupportedForkVariant);
    }
    let need: usize = match v {
        ForkVariant::Bellatrix => 81,
        ForkVariant::Capella => 145,
        ForkVariant::Deneb => 193,
    };
    if len != need {
        return Err(Error::MalformedInput);
    }
    let graffiti = read_bytes(s, 1, 32);
    let block_number = read_u64_le(s, 33);
    let timestamp = read_u64_le(s, 41);
    let block_hash = read_bytes(s, 49, 32);
    let b = match v {
        ForkVariant::Bellatrix => BeaconBlockBody::Bellatrix(
            BodyBellatrix {
                graffiti,
                execution_payload: ExecutionPayload::Bellatrix(
                    PayloadBellatrix { block_number, timestamp, block_hash },
                ),
            },
        ),
        ForkVariant::Capella => {
            let withdrawals_root = read_bytes(s, 81, 32);
            let bls_changes_root = read_bytes(s, 113, 32);
            BeaconBlockBody::Capella(
                BodyCapella {
                    graffiti,
                    execution_payload: ExecutionPayload::Capella(
                        PayloadCapella { block_number, timestamp, block_hash, withdrawals_root },
                    ),
                    bls_changes_root,
                },
            )
        },
        ForkVariant::Deneb => {
            let withdrawals_root = read_bytes(s, 81, 32);
            let blob_gas_used = read_u64_le(s, 113);
            let excess_blob_gas = read_u64_le(s, 121);
            let bls_changes_root = read_bytes(s, 129, 32);
            let blob_kzg_commitments_root = read_bytes(s, 161, 32);
            BeaconBlockBody::Deneb(
                BodyDeneb {
                    graffiti,
                    execution_payload: ExecutionPayload::Deneb(
                        PayloadDeneb {
                            block_number,
                            timestamp,
                            block_hash,
                            withdrawals_root,
                            blob_gas_used,
                            excess_blob_gas,
                        },
                    ),
                    bls_changes_root,
                    blob_kzg_commitments_root,
                },
            )
        },
    };
    proof {
        crate::bytes::lemma_le_bytes_of_u64_from_le(s@.subrange(33, 41));
        crate::bytes::lemma_le_bytes_of_u64_from_le(s@.subrange(41, 49));
        if v is Deneb {
            crate::bytes::lemma_le_bytes_of_u64_from_le(s@.subrange(113, 121));
            crate::bytes::lemma_le_bytes_of_u64_from_le(s@.subrange(121, 129));
        }
        assert(enc_body(b@) =~= s@);
    }
    Ok(b)
}

/// The 32-byte chunk a root field occupies, or the zero chunk where the
/// variant lacks the field.
pub open spec fn opt_root_chunk(o: Option<Seq<u8>>) -> Seq<u8> {
    match o {
        Some(x) => x,
        None => zeros(32),
    }
}

/// The chunk shared by the two gas counters, or the zero chunk where the
/// variant lacks them.
pub open spec fn gas_chunk(g: Option<u64>, e: Option<u64>) -> Seq<u8> {
    if g is Some && e is Some {
        le_bytes(g->0) + le_bytes(e->0) + zeros(16)
    } else {
        zeros(32)
    }
}

/// The eight leaves a body summary is hashed from.
pub open spec fn body_chunks_of(m: BodyModel) -> Seq<Seq<u8>> {
    seq![
        m.graffiti,
        u64_chunk(m.block_number),
        u64_chunk(m.timestamp),
        m.block_hash,
        opt_root_chunk(m.withdrawals_root),
        opt_root_chunk(m.bls_changes_root),
        gas_chunk(m.blob_gas_used, m.excess_blob_gas),
        opt_root_chunk(m.blob_kzg_commitments_root),
    ]
}

/// The hash tree root of a body summary.
pub open spec fn body_root_of(m: BodyModel) -> Seq<u8> {
    merkle_root_of(body_chunks_of(m))
}

/// Build the 32-byte chunk of a `u64`.
fn chunk_u64(x: u64) -> (r: Vec<u8>)
    ensures
        r@ == u64_chunk(x),
{
    let mut v: Vec<u8> = Vec::new();
    push_u64_le(&mut v, x);
    let z = zero_bytes(24);
    push_bytes(&mut v, &z);
    proof {
        assert(v@ =~= u64_chunk(x));
    }
    v
}

impl BeaconBlockBody {
    /// Compute the body's hash tree root: its eight chunks pairwise-hashed
    /// up to one root.
    pub fn hash_tree_root(&self) -> (r: Vec<u8>)
        requires
            self.wf(),
        ensures
            r@ == body_root_of(self@),
            r@.len() == 32,
    {
        let graffiti = match self {
            BeaconBlockBody::Bellatrix(x) => &x.graffiti,
            BeaconBlockBody::Capella(x) => &x.graffiti,
            BeaconBlockBody::Deneb(x) => &x.graffiti,
        };
        let payload = match self {
            BeaconBlockBody::Bellatrix(x) => &x.execution_payload,
            BeaconBlockBody::Capella(x) => &x.execution_payload,
            BeaconBlockBody::Deneb(x) => &x.execution_payload,
        };
        let mut leaves: Vec<Vec<u8>> = Vec::new();
        leaves.push(copy_bytes(graffiti));
        match payload {
            ExecutionPayload::Bellatrix(p) => {
                leaves.push(chunk_u64(p.block_number));
                leaves.push(chunk_u64(p.timestamp));
                leaves.push(copy_bytes(&p.block_hash));
                leaves.push(zero_bytes(32));
            },
            ExecutionPayload::Capella(p) => {
                leaves.push(chunk_u64(p.block_number));
                leaves.push(chunk_u64(p.timestamp));
                leaves.push(copy_bytes(&p.block_hash));
                leaves.push(copy_bytes(&p.withdrawals_root));
            },
            ExecutionPayload::Deneb(p) => {
                leaves.push(chunk_u64(p.block_number));
                leaves.push(chunk_u64(p.timestamp));
                leaves.push(copy_bytes(&p.block_hash));
                leaves.push(copy_bytes(&p.withdrawals_root));
            },
        }
        match self {
            BeaconBlockBody::Bellatrix(_) => {
                leaves.push(zero_bytes(32));
            },
            BeaconBlockBody::Capella(x) => {
                leaves.push(copy_bytes(&x.bls_changes_root));
            },
            BeaconBlockBody::Deneb(x) => {
                leaves.push(copy_bytes(&x.bls_changes_root));
            },
        }
        match payload {
            ExecutionPayload::Deneb(p) => {
                let mut g: Vec<u8> = Vec::new();
                push_u64_le(&mut g, p.blob_gas_used);
                push_u64_le(&mut g, p.excess_blob_gas);
                let z = zero_bytes(16);
                push_bytes(&mut g, &z);
                leaves.push(g);
            },
            _ => {
                leaves.push(zero_bytes(32));
            },
        }
        match self {
            BeaconBlockBody::Deneb(x) => {
                leaves.push(copy_bytes(&x.blob_kzg_commitments_root));
            },
            _ => {
                leaves.push(zero_bytes(32));
            },
        }
        proof {
            assert(node_views(leaves@) =~= body_chunks_of(self@));
            reveal_with_fuel(is_pow2, 4);
        }
        merkle_root(leaves)
    }
}

/// A full beacon block: the header fields plus the fork-dependent body.
pub struct BeaconBlock {
    pub slot: u64,
    pub proposer_index: u64,
    pub parent_root: Vec<u8>,
    pub state_root: Vec<u8>,
    pub body: BeaconBlockBody,
}

impl BeaconBlock {
    pub open spec fn wf(&self) -> bool {
        self.parent_root@.len() == 32 && self.state_root@.len() == 32 && self.body.wf()
    }

    /// The header that stands for this block: the same fields, with the
    /// body replaced by its hash tree root.
    pub fn to_header(&self) -> (r: Header)
        requires
            self.wf(),
        ensures
            r@.slot == self.slot,
            r@.proposer_index == self.proposer_index,
            r@.parent_root == self.parent_root@,
            r@.state_root == self.state_root@,
            r@.body_root == body_root_of(self.body@),
            r.wf(),
    {
        Header {
            slot: self.slot,
            proposer_index: self.proposer_index,
            parent_root: copy_bytes(&self.parent_root),
            state_root: copy_bytes(&self.state_root),
            body_root: self.body.hash_tree_root(),
        }
    }
}

} // verus!
