use vstd::prelude::*;

use crate::bytes::{copy_bytes, zeros, zero_bytes};

verus! {

/// A beacon block header; its hash tree root is what signatures and Merkle
/// proofs target.
pub struct Header {
    pub slot: u64,
    pub proposer_index: u64,
    pub parent_root: Vec<u8>,
    pub state_root: Vec<u8>,
    pub body_root: Vec<u8>,
}

/// Mathematical model of a `Header`.
#[verifier::ext_equal]
pub ghost struct HeaderView {
    pub slot: u64,
    pub proposer_index: u64,
    pub parent_root: Seq<u8>,
    pub state_root: Seq<u8>,
    pub body_root: Seq<u8>,
}

impl HeaderView {
    /// Each root field is exactly 32 bytes.
    pub open spec fn wf(self) -> bool {
        self.parent_root.len() == 32 && self.state_root.len() == 32 && self.body_root.len() == 32
    }
}

impl View for Header {
    type V = HeaderView;

    open spec fn view(&self) -> HeaderView {
        HeaderView {
            slot: self.slot,
            proposer_index: self.proposer_index,
            parent_root: self.parent_root@,
            state_root: self.state_root@,
            body_root: self.body_root@,
        }
    }
}

impl Header {
    pub open spec fn wf(&self) -> bool {
        self@.wf()
    }
}

/// The 512 committee member public keys plus the aggregate public key.
pub struct SyncCommittee {
    pub pubkeys: Vec<Vec<u8>>,
    pub aggregate_pubkey: Vec<u8>,
}

/// Mathematical model of a `SyncCommittee`.
#[verifier::ext_equal]
pub ghost struct CommitteeView {
    pub pubkeys: Seq<Seq<u8>>,
    pub aggregate_pubkey: Seq<u8>,
}

impl CommitteeView {
    /// Exactly 512 keys of 48 bytes each, and a 48-byte aggregate key.
    pub open spec fn wf(self) -> bool {
        &&& self.pubkeys.len() == crate::SYNC_COMMITTEE_SIZE
        &&& forall|i: int| 0 <= i < self.pubkeys.len() ==> (#[trigger] self.pubkeys[i]).len() == 48
        &&& self.aggregate_pubkey.len() == 48
    }
}

impl View for SyncCommittee {
    type V = CommitteeView;

    open spec fn view(&self) -> CommitteeView {
        CommitteeView {
            pubkeys: self.pubkeys@.map_values(|v: Vec<u8>| v@),
            aggregate_pubkey: self.aggregate_pubkey@,
        }
    }
}

impl SyncCommittee {
    pub open spec fn wf(&self) -> bool {
        self@.wf()
    }
}

/// A 512-bit participation vector and the aggregate signature over the
/// attested header's signing root.
pub struct SyncAggregate {
    pub sync_committee_bits: Vec<bool>,
    pub sync_committee_signature: Vec<u8>,
}

/// Mathematical model of a `SyncAggregate`.
#[verifier::ext_equal]
pub ghost struct AggregateView {
    pub sync_committee_bits: Seq<bool>,
    pub sync_committee_signature: Seq<u8>,
}

impl AggregateView {
    pub open spec fn wf(self) -> bool {
        self.sync_committee_bits.len() == crate::SYNC_COMMITTEE_SIZE
            && self.sync_committee_signature.len() == 96
    }
}

impl View for SyncAggregate {
    type V = AggregateView;

    open spec fn view(&self) -> AggregateView {
        AggregateView {
            sync_committee_bits: self.sync_committee_bits@,
            sync_committee_signature: self.sync_committee_signature@,
        }
    }
}

impl SyncAggregate {
    pub open spec fn wf(&self) -> bool {
        self@.wf()
    }
}

/// The view of a Merkle branch: the views of its sibling hashes in order.
pub open spec fn branch_view(b: Seq<Vec<u8>>) -> Seq<Seq<u8>> {
    b.map_values(|v: Vec<u8>| v@)
}

/// Every node of the branch is a 32-byte hash.
pub open spec fn branch_wf(b: Seq<Seq<u8>>) -> bool {
    forall|i: int| 0 <= i < b.len() ==> (#[trigger] b[i]).len() == 32
}

/// A trusted-checkpoint snapshot: header, current committee, and the branch
/// proving the committee's inclusion under the header's state root.
pub struct Bootstrap {
    pub header: Header,
    pub current_sync_committee: SyncCommittee,
    pub current_sync_committee_branch: Vec<Vec<u8>>,
}

impl Bootstrap {
    pub open spec fn wf(&self) -> bool {
        self.header.wf() && self.current_sync_committee.wf()
            && branch_wf(branch_view(self.current_sync_committee_branch@))
    }
}

/// A full sync-committee update: attested header, next committee with its
/// inclusion branch, finalized header with its branch, aggregate, and the
/// slot the signature was produced at.
pub struct Update {
    pub attested_header: Header,
    pub next_sync_committee: SyncCommittee,
    pub next_sync_committee_branch: Vec<Vec<u8>>,
    pub finalized_header: Header,
    pub finality_branch: Vec<Vec<u8>>,
    pub sync_aggregate: SyncAggregate,
    pub signature_slot: u64,
}

/// Mathematical model of an `Update`.
#[verifier::ext_equal]
pub ghost struct UpdateView {
    pub attested_header: HeaderView,
    pub next_sync_committee: CommitteeView,
    pub next_sync_committee_branch: Seq<Seq<u8>>,
    pub finalized_header: HeaderView,
    pub finality_branch: Seq<Seq<u8>>,
    pub sync_aggregate: AggregateView,
    pub signature_slot: u64,
}

impl UpdateView {
    pub open spec fn wf(self) -> bool {
        &&& self.attested_header.wf()
        &&& self.next_sync_committee.wf()
        &&& branch_wf(self.next_sync_committee_branch)
        &&& self.finalized_header.wf()
        &&& branch_wf(self.finality_branch)
        &&& self.sync_aggregate.wf()
    }
}

impl View for Update {
    type V = UpdateView;

    open spec fn view(&self) -> UpdateView {
        UpdateView {
            attested_header: self.attested_header@,
            next_sync_committee: self.next_sync_committee@,
            next_sync_committee_branch: branch_view(self.next_sync_committee_branch@),
            finalized_header: self.finalized_header@,
            finality_branch: branch_view(self.finality_branch@),
            sync_aggregate: self.sync_aggregate@,
            signature_slot: self.signature_slot,
        }
    }
}

impl Update {
    pub open spec fn wf(&self) -> bool {
        &&& self.attested_header.wf()
        &&& self.next_sync_committee.wf()
        &&& branch_wf(branch_view(self.next_sync_committee_branch@))
        &&& self.finalized_header.wf()
        &&& branch_wf(branch_view(self.finality_branch@))
        &&& self.sync_aggregate.wf()
    }
}

/// An update that carries a finality proof but no next committee.
pub struct FinalityUpdate {
    pub attested_header: Header,
    pub finalized_header: Header,
    pub finality_branch: Vec<Vec<u8>>,
    pub sync_aggregate: SyncAggregate,
    pub signature_slot: u64,
}

/// Mathematical model of a `FinalityUpdate`.
#[verifier::ext_equal]
pub ghost struct FinalityUpdateView {
    pub attested_header: HeaderView,
    pub finalized_header: HeaderView,
    pub finality_branch: Seq<Seq<u8>>,
    pub sync_aggregate: AggregateView,
    pub signature_slot: u64,
}

impl FinalityUpdateView {
    pub open spec fn wf(self) -> bool {
        &&& self.attested_header.wf()
        &&& self.finalized_header.wf()
        &&& branch_wf(self.finality_branch)
        &&& self.sync_aggregate.wf()
    }
}

impl View for FinalityUpdate {
    type V = FinalityUpdateView;

    open spec fn view(&self) -> FinalityUpdateView {
        FinalityUpdateView {
            attested_header: self.attested_header@,
            finalized_header: self.finalized_header@,
            finality_branch: branch_view(self.finality_branch@),
            sync_aggregate: self.sync_aggregate@,
            signature_slot: self.signature_slot,
        }
    }
}

impl FinalityUpdate {
    pub open spec fn wf(&self) -> bool {
        &&& self.attested_header.wf()
        &&& self.finalized_header.wf()
        &&& branch_wf(branch_view(self.finality_branch@))
        &&& self.sync_aggregate.wf()
    }
}

/// An update with neither finality proof nor next committee; it can only
/// advance the non-authoritative optimistic head.
pub struct OptimisticUpdate {
    pub attested_header: Header,
    pub sync_aggregate: SyncAggregate,
    pub signature_slot: u64,
}

/// Mathematical model of an `OptimisticUpdate`.
#[verifier::ext_equal]
pub ghost struct OptimisticUpdateView {
    pub attested_header: HeaderView,
    pub sync_aggregate: AggregateView,
    pub signature_slot: u64,
}

impl OptimisticUpdateView {
    pub open spec fn wf(self) -> bool {
        self.attested_header.wf() && self.sync_aggregate.wf()
    }
}

impl View for OptimisticUpdate {
    type V = OptimisticUpdateView;

    open spec fn view(&self) -> OptimisticUpdateView {
        OptimisticUpdateView {
            attested_header: self.attested_header@,
            sync_aggregate: self.sync_aggregate@,
            signature_slot: self.signature_slot,
        }
    }
}

impl OptimisticUpdate {
    pub open spec fn wf(&self) -> bool {
        self.attested_header.wf() && self.sync_aggregate.wf()
    }
}

/// A batched egress response: a list of updates plus the freshest finality
/// and optimistic updates.
pub struct UpdatesResponse {
    pub updates: Vec<Update>,
    pub finality_update: FinalityUpdate,
    pub optimistic_update: OptimisticUpdate,
}

/// Mathematical model of an `UpdatesResponse`.
#[verifier::ext_equal]
pub ghost struct UpdatesResponseView {
    pub updates: Seq<UpdateView>,
    pub finality_update: FinalityUpdateView,
    pub optimistic_update: OptimisticUpdateView,
}

impl UpdatesResponseView {
    pub open spec fn wf(self) -> bool {
        &&& forall|i: int| 0 <= i < self.updates.len() ==> (#[trigger] self.updates[i]).wf()
        &&& self.finality_update.wf()
        &&& self.optimistic_update.wf()
    }
}

impl View for UpdatesResponse {
    type V = UpdatesResponseView;

    open spec fn view(&self) -> UpdatesResponseView {
        UpdatesResponseView {
            updates: self.updates@.map_values(|u: Update| u@),
            finality_update: self.finality_update@,
            optimistic_update: self.optimistic_update@,
        }
    }
}

impl UpdatesResponse {
    pub open spec fn wf(&self) -> bool {
        self@.wf()
    }
}

/// The projection that unifies the three update shapes, so the verification
/// logic is written once; fields a concrete shape lacks are `None`.
pub struct GenericUpdate {
    pub attested_header: Header,
    pub sync_aggregate: SyncAggregate,
    pub signature_slot: u64,
    pub next_sync_committee: Option<SyncCommittee>,
    pub next_sync_committee_branch: Option<Vec<Vec<u8>>>,
    pub finalized_header: Option<Header>,
    pub finality_branch: Option<Vec<Vec<u8>>>,
}

/// Mathematical model of a `GenericUpdate`.
#[verifier::ext_equal]
pub ghost struct GenericUpdateView {
    pub attested_header: HeaderView,
    pub sync_aggregate: AggregateView,
    pub signature_slot: u64,
    pub next_sync_committee: Option<CommitteeView>,
    pub next_sync_committee_branch: Option<Seq<Seq<u8>>>,
    pub finalized_header: Option<HeaderView>,
    pub finality_branch: Option<Seq<Seq<u8>>>,
}

impl GenericUpdateView {
    /// A committee is present exactly when its proof is, and a finalized
    /// header exactly when the finality branch is.
    pub open spec fn wf(self) -> bool {
        &&& self.attested_header.wf()
        &&& self.sync_aggregate.wf()
        &&& (self.next_sync_committee is Some <==> self.next_sync_committee_branch is Some)
        &&& (self.finalized_header is Some <==> self.finality_branch is Some)
        &&& (self.next_sync_committee is Some ==> self.next_sync_committee->0.wf())
        &&& (self.next_sync_committee_branch is Some ==> branch_wf(self.next_sync_committee_branch->0))
        &&& (self.finalized_header is Some ==> self.finalized_header->0.wf())
        &&& (self.finality_branch is Some ==> branch_wf(self.finality_branch->0))
    }
}

impl View for GenericUpdate {
    type V = GenericUpdateView;

    open spec fn view(&self) -> GenericUpdateView {
        GenericUpdateView {
            attested_header: self.attested_header@,
            sync_aggregate: self.sync_aggregate@,
            signature_slot: self.signature_slot,
            next_sync_committee: match self.next_sync_committee {
                Some(c) => Some(c@),
                None => None,
            },
            next_sync_committee_branch: match self.next_sync_committee_branch {
                Some(ref b) => Some(branch_view(b@)),
                None => None,
            },
            finalized_header: match self.finalized_header {
                Some(ref h) => Some(h@),
                None => None,
            },
            finality_branch: match self.finality_branch {
                Some(ref b) => Some(branch_view(b@)),
                None => None,
            },
        }
    }
}

impl GenericUpdate {
    pub open spec fn wf(&self) -> bool {
        self@.wf()
    }
}

impl Default for Header {
    /// The all-zero header.
    fn default() -> (r: Header)
        ensures
            r@.slot == 0,
            r@.proposer_index == 0,
            r@.parent_root == zeros(32),
            r@.state_root == zeros(32),
            r@.body_root == zeros(32),
            r.wf(),
    {
        Header {
            slot: 0,
            proposer_index: 0,
            parent_root: zero_bytes(32),
            state_root: zero_bytes(32),
            body_root: zero_bytes(32),
        }
    }
}

impl Default for SyncAggregate {
    /// An aggregate with no participating bit and an all-zero signature.
    fn default() -> (r: SyncAggregate)
        ensures
            r@.sync_committee_bits.len() == 512,
            forall|i: int| 0 <= i < 512 ==> !r@.sync_committee_bits[i],
            r@.sync_committee_signature == zeros(96),
            r.wf(),
    {
        let mut bits: Vec<bool> = Vec::new();
        let mut i: usize = 0;
        while i < 512
            invariant
                i <= 512,
                bits@.len() == i,
                forall|j: int| 0 <= j < i ==> !bits@[j],
            decreases 512 - i,
        {
            bits.push(false);
            i = i + 1;
        }
        SyncAggregate { sync_committee_bits: bits, sync_committee_signature: zero_bytes(96) }
    }
}

impl Default for FinalityUpdate {
    /// An all-zero finality update with an empty branch.
    fn default() -> (r: FinalityUpdate)
        ensures
            r.wf(),
            r@.attested_header.slot == 0,
            r@.finalized_header.slot == 0,
            r@.finality_branch.len() == 0,
            r@.signature_slot == 0,
    {
        FinalityUpdate {
            attested_header: Header::default(),
            finalized_header: Header::default(),
            finality_branch: Vec::new(),
            sync_aggregate: SyncAggregate::default(),
            signature_slot: 0,
        }
    }
}

impl Default for OptimisticUpdate {
    /// An all-zero optimistic update.
    fn default() -> (r: OptimisticUpdate)
        ensures
            r.wf(),
            r@.attested_header.slot == 0,
            r@.signature_slot == 0,
    {
        OptimisticUpdate {
            attested_header: Header::default(),
            sync_aggregate: SyncAggregate::default(),
            signature_slot: 0,
        }
    }
}

impl Default for UpdatesResponse {
    /// A response with no updates and all-zero trailing records.
    fn default() -> (r: UpdatesResponse)
        ensures
            r.wf(),
            r@.updates.len() == 0,
            r@.finality_update.signature_slot == 0,
            r@.optimistic_update.signature_slot == 0,
    {
        UpdatesResponse {
            updates: Vec::new(),
            finality_update: FinalityUpdate::default(),
            optimistic_update: OptimisticUpdate::default(),
        }
    }
}

/// Copy a header.
pub fn copy_header(h: &Header) -> (r: Header)
    ensures
        r@ == h@,
{
    let r = Header {
        slot: h.slot,
        proposer_index: h.proposer_index,
        parent_root: copy_bytes(&h.parent_root),
        state_root: copy_bytes(&h.state_root),
        body_root: copy_bytes(&h.body_root),
    };
    proof {
        assert(r@ =~= h@);
    }
    r
}

/// Copy a branch of sibling hashes.
pub fn copy_branch(b: &Vec<Vec<u8>>) -> (r: Vec<Vec<u8>>)
    ensures
        branch_view(r@) == branch_view(b@),
        r@.len() == b@.len(),
{
    let mut v: Vec<Vec<u8>> = Vec::new();
    let mut i: usize = 0;
    while i < b.len()
        invariant
            i <= b@.len(),
            v@.len() == i,
            forall|j: int| 0 <= j < i ==> (#[trigger] v@[j])@ == b@[j]@,
        decreases b@.len() - i,
    {
        v.push(copy_bytes(&b[i]));
        i = i + 1;
    }
    proof {
        assert(branch_view(v@) =~= branch_view(b@));
    }
    v
}

/// Copy a sync committee.
pub fn copy_committee(c: &SyncCommittee) -> (r: SyncCommittee)
    ensures
        r@ == c@,
{
    let pubkeys = copy_branch(&c.pubkeys);
    let r = SyncCommittee { pubkeys, aggregate_pubkey: copy_bytes(&c.aggregate_pubkey) };
    proof {
        assert(r@.pubkeys =~= c@.pubkeys);
        assert(r@ =~= c@);
    }
    r
}

/// Copy a sync aggregate.
pub fn copy_aggregate(a: &SyncAggregate) -> (r: SyncAggregate)
    ensures
        r@ == a@,
{
    let mut bits: Vec<bool> = Vec::new();
    let mut i: usize = 0;
    while i < a.sync_committee_bits.len()
        invariant
            i <= a.sync_committee_bits@.len(),
            bits@ == a.sync_committee_bits@.subrange(0, i as int),
        decreases a.sync_committee_bits@.len() - i,
    {
        bits.push(a.sync_committee_bits[i]);
        proof {
            assert(bits@ =~= a.sync_committee_bits@.subrange(0, (i + 1) as int));
        }
        i = i + 1;
    }
    proof {
        assert(a.sync_committee_bits@.subrange(0, a.sync_committee_bits@.len() as int)
            =~= a.sync_committee_bits@);
    }
    let r = SyncAggregate {
        sync_committee_bits: bits,
        sync_committee_signature: copy_bytes(&a.sync_committee_signature),
    };
    proof {
        assert(r@ =~= a@);
    }
    r
}

impl GenericUpdate {
    /// Project a full update; every optional field is present.
    pub fn from_update(u: &Update) -> (r: GenericUpdate)
        ensures
            r@.attested_header == u.attested_header@,
            r@.sync_aggregate == u.sync_aggregate@,
            r@.signature_slot == u.signature_slot,
            r@.next_sync_committee == Some(u.next_sync_committee@),
            r@.next_sync_committee_branch == Some(branch_view(u.next_sync_committee_branch@)),
            r@.finalized_header == Some(u.finalized_header@),
            r@.finality_branch == Some(branch_view(u.finality_branch@)),
    {
        GenericUpdate {
            attested_header: copy_header(&u.attested_header),
            sync_aggregate: copy_aggregate(&u.sync_aggregate),
            signature_slot: u.signature_slot,
            next_sync_committee: Some(copy_committee(&u.next_sync_committee)),
            next_sync_committee_branch: Some(copy_branch(&u.next_sync_committee_branch)),
            finalized_header: Some(copy_header(&u.finalized_header)),
            finality_branch: Some(copy_branch(&u.finality_branch)),
        }
    }

    /// Project a finality update; the next-committee fields are `None`.
    pub fn from_finality_update(u: &FinalityUpdate) -> (r: GenericUpdate)
        ensures
            r@.attested_header == u.attested_header@,
            r@.sync_aggregate == u.sync_aggregate@,
            r@.signature_slot == u.signature_slot,
            r@.next_sync_committee is None,
            r@.next_sync_committee_branch is None,
            r@.finalized_header == Some(u.finalized_header@),
            r@.finality_branch == Some(branch_view(u.finality_branch@)),
    {
        GenericUpdate {
            attested_header: copy_header(&u.attested_header),
            sync_aggregate: copy_aggregate(&u.sync_aggregate),
            signature_slot: u.signature_slot,
            next_sync_committee: None,
            next_sync_committee_branch: None,
            finalized_header: Some(copy_header(&u.finalized_header)),
            finality_branch: Some(copy_branch(&u.finality_branch)),
        }
    }

    /// Project an optimistic update; every optional field is `None`.
    pub fn from_optimistic_update(u: &OptimisticUpdate) -> (r: GenericUpdate)
        ensures
            r@.attested_header == u.attested_header@,
            r@.sync_aggregate == u.sync_aggregate@,
            r@.signature_slot == u.signature_slot,
            r@.next_sync_committee is None,
            r@.next_sync_committee_branch is None,
            r@.finalized_header is None,
            r@.finality_branch is None,
    {
        GenericUpdate {
            attested_header: copy_header(&u.attested_header),
            sync_aggregate: copy_aggregate(&u.sync_aggregate),
            signature_slot: u.signature_slot,
            next_sync_committee: None,
            next_sync_committee_branch: None,
            finalized_header: None,
            finality_branch: None,
        }
    }
}

} // verus!
