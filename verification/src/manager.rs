use vstd::prelude::*;

use crate::bytes::{zeros, zero_bytes, copy_bytes, push_bytes};
use crate::errors::Error;
use crate::forks::{variant_of, version_of, fork_version, resolve};
use crate::hashing::{hash_pair, hash_pair_of};
use crate::merkle::{
    verify_branch, branch_root_of, header_root, header_root_of, committee_root, committee_root_of,
};
use crate::types::{
    Header, HeaderView, SyncCommittee, CommitteeView, GenericUpdate, GenericUpdateView, Bootstrap,
    branch_view, copy_header, copy_committee,
};
use crate::period_of;

verus! {

/// Generalized index of the current sync committee under a state root.
pub const CURRENT_COMMITTEE_GINDEX: u64 = 54;

/// Generalized index of the next sync committee under a state root.
pub const NEXT_COMMITTEE_GINDEX: u64 = 55;

/// Depth of a sync-committee inclusion branch.
pub const COMMITTEE_PROOF_DEPTH: u64 = 5;

/// Generalized index of the finalized checkpoint under a state root.
pub const FINALITY_GINDEX: u64 = 105;

/// Depth of a finality inclusion branch.
pub const FINALITY_PROOF_DEPTH: u64 = 6;

/// First byte of the sync-committee signing domain.
pub const SYNC_COMMITTEE_DOMAIN_TYPE: u8 = 7;

/// Lifecycle of a manager: updates are accepted only after bootstrap, and
/// there is no path back from the steady state.
#[derive(Clone, Copy, Debug, PartialEq, Eq, Structural)]
pub enum Phase {
    Uninitialized,
    Bootstrapped,
    Synced,
}

/// Owns the verified light-client state of one monitored chain and folds
/// updates into it, all-or-nothing.
pub struct ConsensusStateManager {
    phase: Phase,
    genesis_validators_root: Vec<u8>,
    finalized_header: Header,
    optimistic_header: Header,
    current_sync_committee: SyncCommittee,
    next_sync_committee: Option<SyncCommittee>,
    next_activation_period: u64,
}

/// Mathematical model of the manager's state.
#[verifier::ext_equal]
pub ghost struct ManagerView {
    pub phase: Phase,
    pub genesis_validators_root: Seq<u8>,
    pub finalized_header: HeaderView,
    pub optimistic_header: HeaderView,
    pub current_sync_committee: CommitteeView,
    pub next_sync_committee: Option<CommitteeView>,
    pub next_activation_period: u64,
}

impl ManagerView {
    pub open spec fn wf(self) -> bool {
        &&& self.genesis_validators_root.len() == 32
        &&& self.finalized_header.wf()
        &&& self.optimistic_header.wf()
        &&& self.current_sync_committee.wf()
        &&& (self.next_sync_committee is Some ==> self.next_sync_committee->0.wf())
    }
}

impl View for ConsensusStateManager {
    type V = ManagerView;

    closed spec fn view(&self) -> ManagerView {
        ManagerView {
            phase: self.phase,
            genesis_validators_root: self.genesis_validators_root@,
            finalized_header: self.finalized_header@,
            optimistic_header: self.optimistic_header@,
            current_sync_committee: self.current_sync_committee@,
            next_sync_committee: match self.next_sync_committee {
                Some(ref c) => Some(c@),
                None => None,
            },
            next_activation_period: self.next_activation_period,
        }
    }
}

/// What a successful update application changed.
#[derive(Clone, Copy, Debug, PartialEq, Eq, Structural)]
pub struct UpdateOutcome {
    pub finalized_advanced: bool,
    pub committee_rotated: bool,
    pub optimistic_advanced: bool,
}

/// Number of set bits in a participation vector.
pub open spec fn participant_count(bits: Seq<bool>) -> nat
    decreases bits.len(),
{
    if bits.len() == 0 {
        0
    } else {
        participant_count(bits.drop_last()) + if bits.last() {
            1nat
        } else {
            0nat
        }
    }
}

/// The participation quorum: at least two thirds of the committee.
pub open spec fn quorum_met(u: GenericUpdateView) -> bool {
    participant_count(u.sync_aggregate.sync_committee_bits) >= crate::QUORUM_THRESHOLD
}

/// The slots are ordered: finalized at or before attested, attested before
/// the signature, and attested not older than the committed state.
pub open spec fn ordering_ok(s: ManagerView, u: GenericUpdateView) -> bool {
    &&& (u.finalized_header is Some ==> u.finalized_header->0.slot <= u.attested_header.slot)
    &&& u.attested_header.slot < u.signature_slot
    &&& u.attested_header.slot >= s.finalized_header.slot
}

/// The update violates ordering or replays an already-committed slot: a
/// carried finalized header must be strictly newer than the committed one,
/// and an update without one must advance the optimistic watermark.
pub open spec fn is_stale(s: ManagerView, u: GenericUpdateView) -> bool {
    ||| !ordering_ok(s, u)
    ||| (u.finalized_header is Some && u.finalized_header->0.slot <= s.finalized_header.slot)
    ||| (u.finalized_header is None && u.attested_header.slot <= s.optimistic_header.slot)
}

/// The next-committee branch, when present, has the protocol-fixed depth.
pub open spec fn next_branch_len_ok(u: GenericUpdateView) -> bool {
    u.next_sync_committee is Some ==> u.next_sync_committee_branch->0.len()
        == COMMITTEE_PROOF_DEPTH
}

/// The next committee's root is included under the attested state root.
pub open spec fn next_proof_ok(u: GenericUpdateView) -> bool {
    u.next_sync_committee is Some ==> branch_root_of(
        committee_root_of(u.next_sync_committee->0),
        u.next_sync_committee_branch->0,
        NEXT_COMMITTEE_GINDEX,
    ) == u.attested_header.state_root
}

/// The finality branch, when present, has the protocol-fixed depth.
pub open spec fn finality_branch_len_ok(u: GenericUpdateView) -> bool {
    u.finalized_header is Some ==> u.finality_branch->0.len() == FINALITY_PROOF_DEPTH
}

/// The finalized header's root is included under the attested state root.
pub open spec fn finality_proof_ok(u: GenericUpdateView) -> bool {
    u.finalized_header is Some ==> branch_root_of(
        header_root_of(u.finalized_header->0),
        u.finality_branch->0,
        FINALITY_GINDEX,
    ) == u.attested_header.state_root
}

/// The first check an update fails, or `None` when every check passes.
/// `signature_valid` is the verdict of the external signature-verification
/// capability on this update's signing input.
pub open spec fn check_update(s: ManagerView, u: GenericUpdateView, signature_valid: bool) -> Option<
    Error,
> {
    if s.phase is Uninitialized {
        Some(Error::NotBootstrapped)
    } else if is_stale(s, u) {
        Some(Error::StaleUpdate)
    } else if !quorum_met(u) {
        Some(Error::InsufficientSignatures)
    } else if !signature_valid {
        Some(Error::SignatureInvalid)
    } else if !next_branch_len_ok(u) {
        Some(Error::MalformedInput)
    } else if !next_proof_ok(u) {
        Some(Error::InvalidMerkleProof)
    } else if !finality_branch_len_ok(u) {
        Some(Error::MalformedInput)
    } else if !finality_proof_ok(u) {
        Some(Error::InvalidMerkleProof)
    } else {
        None
    }
}

/// Whether folding in `u` rotates the active committee: only a committed
/// finalized header that reaches the pending committee's activation period
/// may trigger it.
pub open spec fn rotates(s: ManagerView, u: GenericUpdateView) -> bool {
    u.finalized_header is Some && s.next_sync_committee is Some && period_of(
        u.finalized_header->0.slot,
    ) >= s.next_activation_period
}

/// The state after a fully valid update is folded in.
pub open spec fn step_state(s: ManagerView, u: GenericUpdateView) -> ManagerView {
    ManagerView {
        phase: Phase::Synced,
        genesis_validators_root: s.genesis_validators_root,
        finalized_header: if u.finalized_header is Some {
            u.finalized_header->0
        } else {
            s.finalized_header
        },
        optimistic_header: if u.attested_header.slot > s.optimistic_header.slot {
            u.attested_header
        } else {
            s.optimistic_header
        },
        current_sync_committee: if rotates(s, u) {
            s.next_sync_committee->0
        } else {
            s.current_sync_committee
        },
        next_sync_committee: if u.next_sync_committee is Some {
            u.next_sync_committee
        } else if rotates(s, u) {
            None
        } else {
            s.next_sync_committee
        },
        next_activation_period: if u.next_sync_committee is Some {
            (period_of(u.attested_header.slot) + 1) as u64
        } else if rotates(s, u) {
            0
        } else {
            s.next_activation_period
        },
    }
}

/// What a fully valid update reports back.
pub open spec fn outcome_of(s: ManagerView, u: GenericUpdateView) -> UpdateOutcome {
    UpdateOutcome {
        finalized_advanced: u.finalized_header is Some,
        committee_rotated: rotates(s, u),
        optimistic_advanced: u.attested_header.slot > s.optimistic_header.slot,
    }
}

/// The first check a bootstrap record fails against its checkpoint root, or
/// `None` when it is accepted.
pub open spec fn check_bootstrap(
    checkpoint_root: Seq<u8>,
    header: HeaderView,
    committee: CommitteeView,
    branch: Seq<Seq<u8>>,
) -> Option<Error> {
    if branch.len() != COMMITTEE_PROOF_DEPTH {
        Some(Error::MalformedInput)
    } else if branch_root_of(committee_root_of(committee), branch, CURRENT_COMMITTEE_GINDEX)
        != header.state_root {
        Some(Error::InvalidMerkleProof)
    } else if header_root_of(header) != checkpoint_root {
        Some(Error::InvalidMerkleProof)
    } else {
        None
    }
}

/// Count the set bits of a participation vector.
pub fn count_bits(bits: &Vec<bool>) -> (r: u64)
    requires
        bits@.len() <= u64::MAX,
    ensures
        r == participant_count(bits@),
        r <= bits@.len(),
{
    let mut r: u64 = 0;
    let mut i: usize = 0;
    while i < bits.len()
        invariant
            i <= bits@.len(),
            bits@.len() <= u64::MAX,
            r == participant_count(bits@.subrange(0, i as int)),
            r <= i,
        decreases bits@.len() - i,
    {
        proof {
            let next = bits@.subrange(0, i as int + 1);
            assert(next.drop_last() =~= bits@.subrange(0, i as int));
            assert(next.last() == bits@[i as int]);
        }
        if bits[i] {
            r = r + 1;
        }
        i = i + 1;
    }
    proof {
        assert(bits@.subrange(0, bits@.len() as int) =~= bits@);
    }
    r
}

/// The keys of the committee members whose participation bit is set, in
/// committee order.
pub open spec fn selected_keys(pubkeys: Seq<Seq<u8>>, bits: Seq<bool>) -> Seq<Seq<u8>>
    decreases bits.len(),
{
    if bits.len() == 0 || pubkeys.len() != bits.len() {
        Seq::empty()
    } else {
        let rest = selected_keys(pubkeys.drop_last(), bits.drop_last());
        if bits.last() {
            rest.push(pubkeys.last())
        } else {
            rest
        }
    }
}

/// Select the public keys whose participation bit is set.
pub fn participant_pubkeys(committee: &SyncCommittee, bits: &Vec<bool>) -> (r: Vec<Vec<u8>>)
    requires
        committee@.pubkeys.len() == bits@.len(),
    ensures
        crate::merkle::node_views(r@) == selected_keys(committee@.pubkeys, bits@),
{
    let mut out: Vec<Vec<u8>> = Vec::new();
    let mut i: usize = 0;
    while i < bits.len()
        invariant
            i <= bits@.len(),
            committee@.pubkeys.len() == bits@.len(),
            crate::merkle::node_views(out@) == selected_keys(
                committee@.pubkeys.subrange(0, i as int),
                bits@.subrange(0, i as int),
            ),
        decreases bits@.len() - i,
    {
        let ghost pk_next = committee@.pubkeys.subrange(0, i as int + 1);
        let ghost bit_next = bits@.subrange(0, i as int + 1);
        proof {
            assert(pk_next.drop_last() =~= committee@.pubkeys.subrange(0, i as int));
            assert(bit_next.drop_last() =~= bits@.subrange(0, i as int));
            assert(pk_next.last() == committee@.pubkeys[i as int]);
            assert(bit_next.last() == bits@[i as int]);
            assert(committee@.pubkeys[i as int] == committee.pubkeys@[i as int]@);
        }
        if bits[i] {
            let pk = copy_bytes(&committee.pubkeys[i]);
            out.push(pk);
            proof {
                assert(crate::merkle::node_views(out@) =~= selected_keys(pk_next, bit_next));
            }
        } else {
            proof {
                assert(crate::merkle::node_views(out@) =~= selected_keys(pk_next, bit_next));
            }
        }
        i = i + 1;
    }
    proof {
        assert(committee@.pubkeys.subrange(0, bits@.len() as int) =~= committee@.pubkeys);
        assert(bits@.subrange(0, bits@.len() as int) =~= bits@);
    }
    out
}

/// The root of the fork data: the padded fork version paired with the
/// genesis validators root.
pub open spec fn fork_data_root_of(version: Seq<u8>, genesis_root: Seq<u8>) -> Seq<u8> {
    hash_pair_of(version + zeros(28), genesis_root)
}

/// The 32-byte signing domain: the domain tag followed by the first 28
/// bytes of the fork data root.
pub open spec fn domain_of(version: Seq<u8>, genesis_root: Seq<u8>) -> Seq<u8> {
    seq![SYNC_COMMITTEE_DOMAIN_TYPE, 0u8, 0u8, 0u8] + fork_data_root_of(
        version,
        genesis_root,
    ).subrange(0, 28)
}

/// The domain-separated root the aggregate signature must cover.
pub open spec fn signing_root_of(h: HeaderView, version: Seq<u8>, genesis_root: Seq<u8>) -> Seq<
    u8,
> {
    hash_pair_of(header_root_of(h), domain_of(version, genesis_root))
}

impl ConsensusStateManager {
    pub open spec fn wf(&self) -> bool {
        self@.wf()
    }

    /// A fresh, uninitialized manager for the chain identified by
    /// `genesis_validators_root`.
    pub fn new(genesis_validators_root: Vec<u8>) -> (r: ConsensusStateManager)
        requires
            genesis_validators_root@.len() == 32,
        ensures
            r.wf(),
            r@.phase is Uninitialized,
            r@.genesis_validators_root == genesis_validators_root@,
            r@.next_sync_committee is None,
            r@.finalized_header.slot == 0,
            r@.optimistic_header.slot == 0,
    {
        let empty_header = Header {
            slot: 0,
            proposer_index: 0,
            parent_root: zero_bytes(32),
            state_root: zero_bytes(32),
            body_root: zero_bytes(32),
        };
        let other_header = copy_header(&empty_header);
        let mut pubkeys: Vec<Vec<u8>> = Vec::new();
        let mut i: usize = 0;
        while i < 512
            invariant
                i <= 512,
                pubkeys@.len() == i,
                forall|j: int| 0 <= j < i ==> (#[trigger] pubkeys@[j])@.len() == 48,
            decreases 512 - i,
        {
            pubkeys.push(zero_bytes(48));
            i = i + 1;
        }
        let committee = SyncCommittee { pubkeys, aggregate_pubkey: zero_bytes(48) };
        proof {
            assert(forall|j: int| 0 <= j < committee@.pubkeys.len() ==> (
            #[trigger] committee@.pubkeys[j]).len() == 48);
        }
        ConsensusStateManager {
            phase: Phase::Uninitialized,
            genesis_validators_root,
            finalized_header: empty_header,
            optimistic_header: other_header,
            current_sync_committee: committee,
            next_sync_committee: None,
            next_activation_period: 0,
        }
    }

    /// Initialize the state from a trusted checkpoint, exactly once: the
    /// committee must be included under the header's state root, and the
    /// header must hash to the checkpoint root. On failure nothing is
    /// stored and the manager stays uninitialized.
    pub fn bootstrap(&mut self, checkpoint_root: &Vec<u8>, b: &Bootstrap) -> (r: Result<(), Error>)
        requires
            old(self).wf(),
            old(self)@.phase is Uninitialized,
            checkpoint_root@.len() == 32,
            b.wf(),
        ensures
            final(self).wf(),
            (match check_bootstrap(
                checkpoint_root@,
                b.header@,
                b.current_sync_committee@,
                branch_view(b.current_sync_committee_branch@),
            ) {
                Some(e) => r == Err::<(), Error>(e) && final(self)@ == old(self)@,
                None => r == Ok::<(), Error>(()) && final(self)@ == (ManagerView {
                    phase: Phase::Bootstrapped,
                    genesis_validators_root: old(self)@.genesis_validators_root,
                    finalized_header: b.header@,
                    optimistic_header: b.header@,
                    current_sync_committee: b.current_sync_committee@,
                    next_sync_committee: None,
                    next_activation_period: 0,
                }),
            }),
    {
        if b.current_sync_committee_branch.len() != COMMITTEE_PROOF_DEPTH as usize {
            return Err(Error::MalformedInput);
        }
        let committee_leaf = committee_root(&b.current_sync_committee);
        if !verify_branch(
            &committee_leaf,
            &b.current_sync_committee_branch,
            COMMITTEE_PROOF_DEPTH,
            CURRENT_COMMITTEE_GINDEX,
            &b.header.state_root,
        ) {
            return Err(Error::InvalidMerkleProof);
        }
        let hr = header_root(&b.header);
        if !crate::bytes::bytes_eq(&hr, checkpoint_root) {
            return Err(Error::InvalidMerkleProof);
        }
        self.phase = Phase::Bootstrapped;
        self.finalized_header = copy_header(&b.header);
        self.optimistic_header = copy_header(&b.header);
        self.current_sync_committee = copy_committee(&b.current_sync_committee);
        self.next_sync_committee = None;
        self.next_activation_period = 0;
        proof {
            assert(self@ =~~= (ManagerView {
                phase: Phase::Bootstrapped,
                genesis_validators_root: old(self)@.genesis_validators_root,
                finalized_header: b.header@,
                optimistic_header: b.header@,
                current_sync_committee: b.current_sync_committee@,
                next_sync_committee: None,
                next_activation_period: 0,
            }));
        }
        Ok(())
    }

    /// The signing input the external signature capability needs for `u`:
    /// the domain-separated signing root over the attested header, and the
    /// participating members' public keys.
    pub fn signing_input(&self, u: &GenericUpdate) -> (r: Result<(Vec<u8>, Vec<Vec<u8>>), Error>)
        requires
            self.wf(),
            u.wf(),
            u@.sync_aggregate.sync_committee_bits.len()
                == self@.current_sync_committee.pubkeys.len(),
        ensures
            (match variant_of(u@.signature_slot) {
                None => r == Err::<(Vec<u8>, Vec<Vec<u8>>), Error>(Error::UnsupportedForkVariant),
                Some(v) => r matches Ok(p) && p.0@ == signing_root_of(
                    u@.attested_header,
                    version_of(v),
                    self@.genesis_validators_root,
                ) && crate::merkle::node_views(p.1@) == selected_keys(
                    self@.current_sync_committee.pubkeys,
                    u@.sync_aggregate.sync_committee_bits,
                ),
            }),
    {
        let variant = match resolve(u.signature_slot) {
            Ok(v) => v,
            Err(e) => {
                return Err(e);
            },
        };
        let mut version = fork_version(variant);
        let z28 = zero_bytes(28);
        push_bytes(&mut version, &z28);
        proof {
            assert(version@ =~= version_of(variant) + zeros(28));
        }
        let fork_data_root = hash_pair(&version, &self.genesis_validators_root);
        let mut domain: Vec<u8> = Vec::new();
        domain.push(SYNC_COMMITTEE_DOMAIN_TYPE);
        domain.push(0u8);
        domain.push(0u8);
        domain.push(0u8);
        let mut i: usize = 0;
        while i < 28
            invariant
                i <= 28,
                fork_data_root@.len() == 32,
                domain@.len() == 4 + i,
                domain@.subrange(0, 4) =~= seq![SYNC_COMMITTEE_DOMAIN_TYPE, 0u8, 0u8, 0u8],
                forall|j: int| 0 <= j < i ==> domain@[4 + j] == fork_data_root@[j],
            decreases 28 - i,
        {
            let byte = fork_data_root[i];
            domain.push(byte);
            proof {
                assert(domain@.subrange(0, 4) =~= seq![SYNC_COMMITTEE_DOMAIN_TYPE, 0u8, 0u8, 0u8]);
            }
            i = i + 1;
        }
        proof {
            assert(domain@ =~= domain_of(version_of(variant), self@.genesis_validators_root));
        }
        let hr = header_root(&u.attested_header);
        let root = hash_pair(&hr, &domain);
        let keys = participant_pubkeys(
            &self.current_sync_committee,
            &u.sync_aggregate.sync_committee_bits,
        );
        Ok((root, keys))
    }

    /// Apply one normalized update, atomically: every check must pass or
    /// the state is left untouched and the failed check is reported.
    /// `signature_valid` is the external capability's verdict on this
    /// update's signing input. The committed finalized slot never
    /// decreases, and only a committed finality proof that reaches the
    /// pending committee's activation period rotates the committee.
    pub fn apply_update(&mut self, u: &GenericUpdate, signature_valid: bool) -> (r: Result<
        UpdateOutcome,
        Error,
    >)
        requires
            old(self).wf(),
            u.wf(),
        ensures
            final(self).wf(),
            (match check_update(old(self)@, u@, signature_valid) {
                Some(e) => r == Err::<UpdateOutcome, Error>(e) && final(self)@ == old(self)@,
                None => r == Ok::<UpdateOutcome, Error>(outcome_of(old(self)@, u@))
                    && final(self)@ == step_state(old(self)@, u@),
            }),
            final(self)@.finalized_header.slot >= old(self)@.finalized_header.slot,
            final(self)@.optimistic_header.slot >= old(self)@.optimistic_header.slot,
    {
        if self.phase == Phase::Uninitialized {
            return Err(Error::NotBootstrapped);
        }
        // Ordering and replay rejection.
        let ordering = (match &u.finalized_header {
            Some(f) => f.slot <= u.attested_header.slot,
            None => true,
        }) && u.attested_header.slot < u.signature_slot && u.attested_header.slot
            >= self.finalized_header.slot;
        let replay = match &u.finalized_header {
            Some(f) => f.slot <= self.finalized_header.slot,
            None => u.attested_header.slot <= self.optimistic_header.slot,
        };
        if !ordering || replay {
            proof {
                assert(is_stale(self@, u@));
            }
            return Err(Error::StaleUpdate);
        }
        // Quorum.
        let participants = count_bits(&u.sync_aggregate.sync_committee_bits);
        if participants < crate::QUORUM_THRESHOLD {
            return Err(Error::InsufficientSignatures);
        }
        // External signature verdict.
        if !signature_valid {
            return Err(Error::SignatureInvalid);
        }
        // Next-committee inclusion proof.
        match (&u.next_sync_committee, &u.next_sync_committee_branch) {
            (Some(c), Some(b)) => {
                if b.len() != COMMITTEE_PROOF_DEPTH as usize {
                    return Err(Error::MalformedInput);
                }
                let leaf = committee_root(c);
                if !verify_branch(
                    &leaf,
                    b,
                    COMMITTEE_PROOF_DEPTH,
                    NEXT_COMMITTEE_GINDEX,
                    &u.attested_header.state_root,
                ) {
                    return Err(Error::InvalidMerkleProof);
                }
            },
            (None, None) => {},
            _ => {
                // Well-formedness pairs the committee with its branch.
                proof {
                    assert(false);
                }
                return Err(Error::MalformedInput);
            },
        }
        // Finality inclusion proof.
        match (&u.finalized_header, &u.finality_branch) {
            (Some(f), Some(b)) => {
                if b.len() != FINALITY_PROOF_DEPTH as usize {
                    return Err(Error::MalformedInput);
                }
                let leaf = header_root(f);
                if !verify_branch(
                    &leaf,
                    b,
                    FINALITY_PROOF_DEPTH,
                    FINALITY_GINDEX,
                    &u.attested_header.state_root,
                ) {
                    return Err(Error::InvalidMerkleProof);
                }
            },
            (None, None) => {},
            _ => {
                // Well-formedness pairs the finalized header with its branch.
                proof {
                    assert(false);
                }
                return Err(Error::MalformedInput);
            },
        }
        proof {
            assert(check_update(self@, u@, signature_valid) is None);
        }
        // Commit, in order: finality, rotation, new pending committee,
        // optimistic watermark.
        let outcome = UpdateOutcome {
            finalized_advanced: match &u.finalized_header {
                Some(_) => true,
                None => false,
            },
            committee_rotated: match (&u.finalized_header, &self.next_sync_committee) {
                (Some(f), Some(_)) => slot_period_at_least(
                    f.slot,
                    self.next_activation_period,
                ),
                _ => false,
            },
            optimistic_advanced: u.attested_header.slot > self.optimistic_header.slot,
        };
        match &u.finalized_header {
            Some(f) => {
                let rotate = match &self.next_sync_committee {
                    Some(_) => slot_period_at_least(f.slot, self.next_activation_period),
                    None => false,
                };
                if rotate {
                    let pending = match &self.next_sync_committee {
                        Some(c) => copy_committee(c),
                        None => {
                            // Rotation is only reached with a pending committee.
                            proof {
                                assert(false);
                            }
                            copy_committee(&self.current_sync_committee)
                        },
                    };
                    self.current_sync_committee = pending;
                    self.next_sync_committee = None;
                    self.next_activation_period = 0;
                }
                self.finalized_header = copy_header(f);
            },
            None => {},
        }
        match &u.next_sync_committee {
            Some(c) => {
                self.next_sync_committee = Some(copy_committee(c));
                proof {
                    assert(period_of(u@.attested_header.slot) < u64::MAX) by {
                        assert(u@.attested_header.slot / crate::SLOTS_PER_PERIOD
                            <= u@.attested_header.slot);
                    };
                }
                self.next_activation_period = crate::slot_period(u.attested_header.slot) + 1;
            },
            None => {},
        }
        if u.attested_header.slot > self.optimistic_header.slot {
            self.optimistic_header = copy_header(&u.attested_header);
        }
        self.phase = Phase::Synced;
        proof {
            assert(self@ =~~= step_state(old(self)@, u@));
            assert(outcome == outcome_of(old(self)@, u@));
        }
        Ok(outcome)
    }

    /// The authoritative finalized header.
    pub fn get_finalized_header(&self) -> (r: &Header)
        ensures
            r@ == self@.finalized_header,
    {
        &self.finalized_header
    }

    /// The best head: the optimistic watermark when it is more recent than
    /// the finalized header, else the finalized header.
    pub fn get_head_header(&self) -> (r: &Header)
        ensures
            self@.optimistic_header.slot > self@.finalized_header.slot ==> r@
                == self@.optimistic_header,
            self@.optimistic_header.slot <= self@.finalized_header.slot ==> r@
                == self@.finalized_header,
    {
        if self.optimistic_header.slot > self.finalized_header.slot {
            &self.optimistic_header
        } else {
            &self.finalized_header
        }
    }

    /// The currently active sync committee.
    pub fn get_current_sync_committee(&self) -> (r: &SyncCommittee)
        ensures
            r@ == self@.current_sync_committee,
    {
        &self.current_sync_committee
    }

    /// The pending next committee, if one is stored.
    pub fn get_next_sync_committee(&self) -> (r: &Option<SyncCommittee>)
        ensures
            (self@.next_sync_committee is Some <==> r is Some),
            r matches Some(c) ==> c@ == self@.next_sync_committee->0,
    {
        &self.next_sync_committee
    }

    /// The lifecycle phase the manager is in.
    pub fn current_phase(&self) -> (r: Phase)
        ensures
            r == self@.phase,
    {
        self.phase
    }
}

/// Whether the period of `slot` has reached `threshold`.
fn slot_period_at_least(slot: u64, threshold: u64) -> (r: bool)
    ensures
        r == (period_of(slot) >= threshold),
{
    slot / crate::SLOTS_PER_PERIOD >= threshold
}

/// Once committed, the finalized slot never decreases: whenever an update
/// passes every check against a state, the successor state's finalized
/// header is at least as recent, and strictly newer when the update carries
/// a finality proof.
pub proof fn lemma_finalized_monotonic(s: ManagerView, u: GenericUpdateView, signature_valid: bool)
    requires
        check_update(s, u, signature_valid) is None,
    ensures
        step_state(s, u).finalized_header.slot >= s.finalized_header.slot,
        u.finalized_header is Some ==> step_state(s, u).finalized_header.slot
            > s.finalized_header.slot,
{
}

/// Replay rejection: an update whose finality proof replays an
/// already-committed or older slot, or whose attested header does not
/// advance past the committed state, fails with `StaleUpdate` in every
/// bootstrapped state.
pub proof fn lemma_replay_rejected(s: ManagerView, u: GenericUpdateView, signature_valid: bool)
    requires
        !(s.phase is Uninitialized),
        u.finalized_header is Some,
        u.finalized_header->0.slot <= s.finalized_header.slot,
    ensures
        check_update(s, u, signature_valid) == Some(Error::StaleUpdate),
{
}

/// Quorum boundary: with every other check passing, a participation count
/// at the two-thirds floor is accepted and one below it is rejected with
/// `InsufficientSignatures`.
pub proof fn lemma_quorum_boundary(s: ManagerView, u: GenericUpdateView, signature_valid: bool)
    requires
        !(s.phase is Uninitialized),
        !is_stale(s, u),
    ensures
        participant_count(u.sync_aggregate.sync_committee_bits) < crate::QUORUM_THRESHOLD
            ==> check_update(s, u, signature_valid) == Some(Error::InsufficientSignatures),
        participant_count(u.sync_aggregate.sync_committee_bits) >= crate::QUORUM_THRESHOLD
            ==> check_update(s, u, signature_valid) != Some(Error::InsufficientSignatures),
{
}

} // verus!
