use vstd::prelude::*;

use crate::bytes::{
    le_bytes, u64_from_le, lemma_u64_le_round_trip, read_bytes,
    read_u64_le, push_u64_le, push_bytes,
};
use crate::errors::Error;
use crate::types::{
    Header, HeaderView, SyncCommittee, CommitteeView, SyncAggregate, AggregateView, Update,
    UpdateView, FinalityUpdate, FinalityUpdateView, OptimisticUpdate, OptimisticUpdateView,
    UpdatesResponse, UpdatesResponseView, branch_view, branch_wf,
};

verus! {

// The compact egress layout is schema-fixed and free of self-describing
// markers: fixed-size fields back to back, lists with a 64-bit count.
//
//   header      112 bytes: slot, proposer index, three roots
//   committee 24624 bytes: 512 keys of 48 bytes, then the aggregate key
//   aggregate   608 bytes: 512 participation bytes, then the signature
//   branch    8 + 32n bytes: count, then the sibling hashes

/// Concatenation of a sequence of byte strings.
pub open spec fn concat_all(s: Seq<Seq<u8>>) -> Seq<u8>
    decreases s.len(),
{
    if s.len() == 0 {
        Seq::empty()
    } else {
        concat_all(s.drop_last()) + s.last()
    }
}

/// Concatenating `n` strings of `k` bytes yields `n * k` bytes.
pub proof fn lemma_concat_len(nodes: Seq<Seq<u8>>, k: int)
    requires
        forall|i: int| 0 <= i < nodes.len() ==> (#[trigger] nodes[i]).len() == k,
    ensures
        concat_all(nodes).len() == nodes.len() * k,
    decreases nodes.len(),
{
    if nodes.len() == 0 {
    } else {
        lemma_concat_len(nodes.drop_last(), k);
        assert((nodes.len() - 1) * k + k == nodes.len() * k) by (nonlinear_arith);
    }
}

/// The `j`-th string can be read back out of the concatenation.
pub proof fn lemma_concat_extract(nodes: Seq<Seq<u8>>, k: int, j: int)
    requires
        forall|i: int| 0 <= i < nodes.len() ==> (#[trigger] nodes[i]).len() == k,
        0 <= j < nodes.len(),
        k >= 0,
    ensures
        concat_all(nodes).subrange(k * j, k * j + k) == nodes[j],
    decreases nodes.len(),
{
    let n = nodes.len() as int;
    lemma_concat_len(nodes.drop_last(), k);
    if j == n - 1 {
        let prefix = concat_all(nodes.drop_last());
        assert(concat_all(nodes) == prefix + nodes.last());
        assert(prefix.len() == (n - 1) * k);
        assert(k * j == (n - 1) * k) by (nonlinear_arith)
            requires
                j == n - 1,
        ;
        assert(concat_all(nodes).subrange(k * j, k * j + k) =~= nodes[j]);
    } else {
        lemma_concat_extract(nodes.drop_last(), k, j);
        assert((j + 1) * k <= (n - 1) * k) by (nonlinear_arith)
            requires
                j + 1 <= n - 1,
                k >= 0,
        ;
        assert(k * j + k == (j + 1) * k) by (nonlinear_arith);
        assert(concat_all(nodes).subrange(k * j, k * j + k) =~= concat_all(
            nodes.drop_last(),
        ).subrange(k * j, k * j + k));
    }
}

/// The layout of a header.
pub open spec fn enc_header(h: HeaderView) -> Seq<u8> {
    le_bytes(h.slot) + le_bytes(h.proposer_index) + h.parent_root + h.state_root + h.body_root
}

/// The layout of a committee.
pub open spec fn enc_committee(c: CommitteeView) -> Seq<u8> {
    concat_all(c.pubkeys) + c.aggregate_pubkey
}

/// The layout of a participation vector: one byte per bit.
pub open spec fn enc_bits(bits: Seq<bool>) -> Seq<u8> {
    Seq::new(
        bits.len(),
        |i: int|
            if bits[i] {
                1u8
            } else {
                0u8
            },
    )
}

/// The layout of a sync aggregate.
pub open spec fn enc_aggregate(a: AggregateView) -> Seq<u8> {
    enc_bits(a.sync_committee_bits) + a.sync_committee_signature
}

/// The layout of a Merkle branch: its count, then its nodes.
pub open spec fn enc_branch(b: Seq<Seq<u8>>) -> Seq<u8> {
    le_bytes(b.len() as u64) + concat_all(b)
}

/// The layout of a full update.
pub open spec fn enc_update(m: UpdateView) -> Seq<u8> {
    enc_header(m.attested_header) + enc_committee(m.next_sync_committee) + enc_branch(
        m.next_sync_committee_branch,
    ) + enc_header(m.finalized_header) + enc_branch(m.finality_branch) + enc_aggregate(
        m.sync_aggregate,
    ) + le_bytes(m.signature_slot)
}

/// The layout of a finality update.
pub open spec fn enc_finality_update(m: FinalityUpdateView) -> Seq<u8> {
    enc_header(m.attested_header) + enc_header(m.finalized_header) + enc_branch(m.finality_branch)
        + enc_aggregate(m.sync_aggregate) + le_bytes(m.signature_slot)
}

/// The layout of an optimistic update.
pub open spec fn enc_optimistic_update(m: OptimisticUpdateView) -> Seq<u8> {
    enc_header(m.attested_header) + enc_aggregate(m.sync_aggregate) + le_bytes(m.signature_slot)
}

/// Concatenation of the encodings of a list of updates.
pub open spec fn enc_update_list(us: Seq<UpdateView>) -> Seq<u8>
    decreases us.len(),
{
    if us.len() == 0 {
        Seq::empty()
    } else {
        enc_update_list(us.drop_last()) + enc_update(us.last())
    }
}

/// The layout of a batched response.
pub open spec fn enc_response(r: UpdatesResponseView) -> Seq<u8> {
    le_bytes(r.updates.len() as u64) + enc_update_list(r.updates) + enc_finality_update(
        r.finality_update,
    ) + enc_optimistic_update(r.optimistic_update)
}

// What each decoder reads out of a byte string at a position, and when it
// succeeds.

pub open spec fn header_ok(s: Seq<u8>, pos: int) -> bool {
    0 <= pos && pos + 112 <= s.len()
}

pub open spec fn header_at(s: Seq<u8>, pos: int) -> HeaderView {
    HeaderView {
        slot: u64_from_le(s.subrange(pos, pos + 8)),
        proposer_index: u64_from_le(s.subrange(pos + 8, pos + 16)),
        parent_root: s.subrange(pos + 16, pos + 48),
        state_root: s.subrange(pos + 48, pos + 80),
        body_root: s.subrange(pos + 80, pos + 112),
    }
}

pub open spec fn committee_ok(s: Seq<u8>, pos: int) -> bool {
    0 <= pos && pos + 24624 <= s.len()
}

pub open spec fn committee_at(s: Seq<u8>, pos: int) -> CommitteeView {
    CommitteeView {
        pubkeys: Seq::new(512, |j: int| s.subrange(pos + 48 * j, pos + 48 * j + 48)),
        aggregate_pubkey: s.subrange(pos + 24576, pos + 24624),
    }
}

pub open spec fn bits_ok(s: Seq<u8>, pos: int) -> bool {
    &&& 0 <= pos
    &&& pos + 512 <= s.len()
    &&& forall|j: int| 0 <= j < 512 ==> (#[trigger] s[pos + j] == 0u8 || s[pos + j] == 1u8)
}

pub open spec fn bits_at(s: Seq<u8>, pos: int) -> Seq<bool> {
    Seq::new(512, |j: int| s[pos + j] == 1u8)
}

pub open spec fn aggregate_ok(s: Seq<u8>, pos: int) -> bool {
    bits_ok(s, pos) && pos + 608 <= s.len()
}

pub open spec fn aggregate_at(s: Seq<u8>, pos: int) -> AggregateView {
    AggregateView {
        sync_committee_bits: bits_at(s, pos),
        sync_committee_signature: s.subrange(pos + 512, pos + 608),
    }
}

pub open spec fn branch_count(s: Seq<u8>, pos: int) -> int {
    u64_from_le(s.subrange(pos, pos + 8)) as int
}

pub open spec fn branch_ok(s: Seq<u8>, pos: int) -> bool {
    0 <= pos && pos + 8 <= s.len() && pos + 8 + 32 * branch_count(s, pos) <= s.len()
}

pub open spec fn branch_end(s: Seq<u8>, pos: int) -> int {
    pos + 8 + 32 * branch_count(s, pos)
}

pub open spec fn branch_at(s: Seq<u8>, pos: int) -> Seq<Seq<u8>> {
    Seq::new(branch_count(s, pos) as nat, |j: int| s.subrange(pos + 8 + 32 * j, pos + 8 + 32 * j + 32))
}

pub open spec fn update_committee_off(pos: int) -> int {
    pos + 112
}

pub open spec fn update_next_branch_off(pos: int) -> int {
    pos + 24736
}

pub open spec fn update_finalized_off(s: Seq<u8>, pos: int) -> int {
    branch_end(s, update_next_branch_off(pos))
}

pub open spec fn update_finality_branch_off(s: Seq<u8>, pos: int) -> int {
    update_finalized_off(s, pos) + 112
}

pub open spec fn update_aggregate_off(s: Seq<u8>, pos: int) -> int {
    branch_end(s, update_finality_branch_off(s, pos))
}

pub open spec fn update_ok(s: Seq<u8>, pos: int) -> bool {
    &&& header_ok(s, pos)
    &&& committee_ok(s, update_committee_off(pos))
    &&& branch_ok(s, update_next_branch_off(pos))
    &&& header_ok(s, update_finalized_off(s, pos))
    &&& branch_ok(s, update_finality_branch_off(s, pos))
    &&& aggregate_ok(s, update_aggregate_off(s, pos))
    &&& update_aggregate_off(s, pos) + 616 <= s.len()
}

pub open spec fn update_end(s: Seq<u8>, pos: int) -> int {
    update_aggregate_off(s, pos) + 616
}

pub open spec fn update_at(s: Seq<u8>, pos: int) -> UpdateView {
    UpdateView {
        attested_header: header_at(s, pos),
        next_sync_committee: committee_at(s, update_committee_off(pos)),
        next_sync_committee_branch: branch_at(s, update_next_branch_off(pos)),
        finalized_header: header_at(s, update_finalized_off(s, pos)),
        finality_branch: branch_at(s, update_finality_branch_off(s, pos)),
        sync_aggregate: aggregate_at(s, update_aggregate_off(s, pos)),
        signature_slot: u64_from_le(
            s.subrange(update_aggregate_off(s, pos) + 608, update_aggregate_off(s, pos) + 616),
        ),
    }
}

pub open spec fn finality_branch_off(pos: int) -> int {
    pos + 224
}

pub open spec fn finality_aggregate_off(s: Seq<u8>, pos: int) -> int {
    branch_end(s, finality_branch_off(pos))
}

pub open spec fn finality_ok(s: Seq<u8>, pos: int) -> bool {
    &&& header_ok(s, pos)
    &&& header_ok(s, pos + 112)
    &&& branch_ok(s, finality_branch_off(pos))
    &&& aggregate_ok(s, finality_aggregate_off(s, pos))
    &&& finality_aggregate_off(s, pos) + 616 <= s.len()
}

pub open spec fn finality_end(s: Seq<u8>, pos: int) -> int {
    finality_aggregate_off(s, pos) + 616
}

pub open spec fn finality_at(s: Seq<u8>, pos: int) -> FinalityUpdateView {
    FinalityUpdateView {
        attested_header: header_at(s, pos),
        finalized_header: header_at(s, pos + 112),
        finality_branch: branch_at(s, finality_branch_off(pos)),
        sync_aggregate: aggregate_at(s, finality_aggregate_off(s, pos)),
        signature_slot: u64_from_le(
            s.subrange(finality_aggregate_off(s, pos) + 608, finality_aggregate_off(s, pos) + 616),
        ),
    }
}

pub open spec fn optimistic_ok(s: Seq<u8>, pos: int) -> bool {
    header_ok(s, pos) && aggregate_ok(s, pos + 112) && pos + 728 <= s.len()
}

pub open spec fn optimistic_end(pos: int) -> int {
    pos + 728
}

pub open spec fn optimistic_at(s: Seq<u8>, pos: int) -> OptimisticUpdateView {
    OptimisticUpdateView {
        attested_header: header_at(s, pos),
        sync_aggregate: aggregate_at(s, pos + 112),
        signature_slot: u64_from_le(s.subrange(pos + 720, pos + 728)),
    }
}

// Appending encoders.

/// Append a header's compact form.
pub fn push_header(out: &mut Vec<u8>, h: &Header)
    ensures
        final(out)@ == old(out)@ + enc_header(h@),
{
    let ghost start = out@;
    push_u64_le(out, h.slot);
    push_u64_le(out, h.proposer_index);
    push_bytes(out, &h.parent_root);
    push_bytes(out, &h.state_root);
    push_bytes(out, &h.body_root);
    proof {
        assert(out@ =~= start + enc_header(h@));
    }
}

/// Append a committee's compact form.
pub fn push_committee(out: &mut Vec<u8>, c: &SyncCommittee)
    ensures
        final(out)@ == old(out)@ + enc_committee(c@),
{
    let ghost start = out@;
    let mut i: usize = 0;
    while i < c.pubkeys.len()
        invariant
            i <= c.pubkeys@.len(),
            out@ == start + concat_all(c@.pubkeys.subrange(0, i as int)),
        decreases c.pubkeys@.len() - i,
    {
        let ghost upto = c@.pubkeys.subrange(0, i as int + 1);
        proof {
            assert(upto.drop_last() =~= c@.pubkeys.subrange(0, i as int));
            assert(upto.last() == c.pubkeys@[i as int]@);
        }
        push_bytes(out, &c.pubkeys[i]);
        i = i + 1;
    }
    proof {
        assert(c@.pubkeys.subrange(0, c@.pubkeys.len() as int) =~= c@.pubkeys);
    }
    push_bytes(out, &c.aggregate_pubkey);
    proof {
        assert(out@ =~= start + enc_committee(c@));
    }
}

/// Append an aggregate's compact form.
pub fn push_aggregate(out: &mut Vec<u8>, a: &SyncAggregate)
    ensures
        final(out)@ == old(out)@ + enc_aggregate(a@),
{
    let ghost start = out@;
    let mut i: usize = 0;
    while i < a.sync_committee_bits.len()
        invariant
            i <= a.sync_committee_bits@.len(),
            out@.len() == start.len() + i,
            out@.subrange(0, start.len() as int) == start,
            forall|j: int| 0 <= j < i ==> out@[start.len() + j] == enc_bits(
                a@.sync_committee_bits,
            )[j],
        decreases a.sync_committee_bits@.len() - i,
    {
        if a.sync_committee_bits[i] {
            out.push(1u8);
        } else {
            out.push(0u8);
        }
        proof {
            assert(out@.subrange(0, start.len() as int) =~= start);
        }
        i = i + 1;
    }
    proof {
        assert(out@ =~= start + enc_bits(a@.sync_committee_bits));
    }
    push_bytes(out, &a.sync_committee_signature);
    proof {
        assert(out@ =~= start + enc_aggregate(a@));
    }
}

/// Append a branch's compact form.
pub fn push_branch(out: &mut Vec<u8>, b: &Vec<Vec<u8>>)
    ensures
        final(out)@ == old(out)@ + enc_branch(branch_view(b@)),
{
    let ghost start = out@;
    push_u64_le(out, b.len() as u64);
    let ghost mid = out@;
    let mut i: usize = 0;
    while i < b.len()
        invariant
            i <= b@.len(),
            out@ == mid + concat_all(branch_view(b@).subrange(0, i as int)),
            mid == start + le_bytes(b@.len() as u64),
        decreases b@.len() - i,
    {
        let ghost upto = branch_view(b@).subrange(0, i as int + 1);
        proof {
            assert(upto.drop_last() =~= branch_view(b@).subrange(0, i as int));
            assert(upto.last() == b@[i as int]@);
        }
        push_bytes(out, &b[i]);
        i = i + 1;
    }
    proof {
        assert(branch_view(b@).subrange(0, b@.len() as int) =~= branch_view(b@));
        assert(out@ =~= start + enc_branch(branch_view(b@)));
    }
}

/// Encode a full update into its compact egress form.
pub fn to_compact_update(u: &Update) -> (r: Vec<u8>)
    ensures
        r@ == enc_update(u@),
{
    let mut out: Vec<u8> = Vec::new();
    push_header(&mut out, &u.attested_header);
    push_committee(&mut out, &u.next_sync_committee);
    push_branch(&mut out, &u.next_sync_committee_branch);
    push_header(&mut out, &u.finalized_header);
    push_branch(&mut out, &u.finality_branch);
    push_aggregate(&mut out, &u.sync_aggregate);
    push_u64_le(&mut out, u.signature_slot);
    proof {
        assert(out@ =~= enc_update(u@));
    }
    out
}

/// Encode a finality update into its compact egress form.
pub fn to_compact_finality_update(u: &FinalityUpdate) -> (r: Vec<u8>)
    ensures
        r@ == enc_finality_update(u@),
{
    let mut out: Vec<u8> = Vec::new();
    push_header(&mut out, &u.attested_header);
    push_header(&mut out, &u.finalized_header);
    push_branch(&mut out, &u.finality_branch);
    push_aggregate(&mut out, &u.sync_aggregate);
    push_u64_le(&mut out, u.signature_slot);
    proof {
        assert(out@ =~= enc_finality_update(u@));
    }
    out
}

/// Encode an optimistic update into its compact egress form.
pub fn to_compact_optimistic_update(u: &OptimisticUpdate) -> (r: Vec<u8>)
    ensures
        r@ == enc_optimistic_update(u@),
{
    let mut out: Vec<u8> = Vec::new();
    push_header(&mut out, &u.attested_header);
    push_aggregate(&mut out, &u.sync_aggregate);
    push_u64_le(&mut out, u.signature_slot);
    proof {
        assert(out@ =~= enc_optimistic_update(u@));
    }
    out
}

/// Encode a batched response into its compact egress form.
pub fn to_compact_response(r: &UpdatesResponse) -> (out: Vec<u8>)
    ensures
        out@ == enc_response(r@),
{
    let mut out: Vec<u8> = Vec::new();
    push_u64_le(&mut out, r.updates.len() as u64);
    let ghost mid = out@;
    let mut i: usize = 0;
    while i < r.updates.len()
        invariant
            i <= r.updates@.len(),
            out@ == mid + enc_update_list(r@.updates.subrange(0, i as int)),
            mid == le_bytes(r@.updates.len() as u64),
            r@.updates.len() == r.updates@.len(),
        decreases r.updates@.len() - i,
    {
        let ghost upto = r@.updates.subrange(0, i as int + 1);
        proof {
            assert(upto.drop_last() =~= r@.updates.subrange(0, i as int));
            assert(upto.last() == r.updates@[i as int]@);
        }
        let enc = to_compact_update(&r.updates[i]);
        push_bytes(&mut out, &enc);
        i = i + 1;
    }
    proof {
        assert(r@.updates.subrange(0, r@.updates.len() as int) =~= r@.updates);
    }
    let fin = to_compact_finality_update(&r.finality_update);
    push_bytes(&mut out, &fin);
    let opt = to_compact_optimistic_update(&r.optimistic_update);
    push_bytes(&mut out, &opt);
    proof {
        assert(out@ =~= enc_response(r@));
    }
    out
}

// Decoders.

/// Decode a header at `pos`.
fn dec_header(s: &Vec<u8>, pos: usize) -> (r: Result<(Header, usize), Error>)
    ensures
        (r is Ok <==> header_ok(s@, pos as int)),
        r matches Ok(p) ==> p.0@ == header_at(s@, pos as int) && p.0.wf() && p.1 == pos + 112,
        r is Err ==> r == Err::<(Header, usize), Error>(Error::MalformedInput),
{
    let len = s.len();
    if len < 112 || pos > len - 112 {
        return Err(Error::MalformedInput);
    }
    let slot = read_u64_le(s, pos);
    let proposer_index = read_u64_le(s, pos + 8);
    let parent_root = read_bytes(s, pos + 16, 32);
    let state_root = read_bytes(s, pos + 48, 32);
    let body_root = read_bytes(s, pos + 80, 32);
    let h = Header { slot, proposer_index, parent_root, state_root, body_root };
    proof {
        assert(h@ =~= header_at(s@, pos as int));
    }
    Ok((h, pos + 112))
}

/// Decode a committee at `pos`.
fn dec_committee(s: &Vec<u8>, pos: usize) -> (r: Result<(SyncCommittee, usize), Error>)
    ensures
        (r is Ok <==> committee_ok(s@, pos as int)),
        r matches Ok(p) ==> p.0@ == committee_at(s@, pos as int) && p.0.wf() && p.1 == pos + 24624,
        r is Err ==> r == Err::<(SyncCommittee, usize), Error>(Error::MalformedInput),
{
    let len = s.len();
    if len < 24624 || pos > len - 24624 {
        return Err(Error::MalformedInput);
    }
    let mut pubkeys: Vec<Vec<u8>> = Vec::new();
    let mut i: usize = 0;
    while i < 512
        invariant
            i <= 512,
            pos + 24624 <= s@.len(),
            s@.len() <= usize::MAX,
            pubkeys@.len() == i,
            forall|j: int| 0 <= j < i ==> (#[trigger] pubkeys@[j])@ == s@.subrange(
                pos + 48 * j,
                pos + 48 * j + 48,
            ),
        decreases 512 - i,
    {
        let pk = read_bytes(s, pos + 48 * i, 48);
        pubkeys.push(pk);
        i = i + 1;
    }
    let aggregate_pubkey = read_bytes(s, pos + 24576, 48);
    let c = SyncCommittee { pubkeys, aggregate_pubkey };
    proof {
        assert(c@.pubkeys =~= committee_at(s@, pos as int).pubkeys);
        assert(c@ =~= committee_at(s@, pos as int));
    }
    Ok((c, pos + 24624))
}

/// Decode an aggregate at `pos`; a participation byte other than zero or
/// one is rejected, so the layout has one canonical form.
fn dec_aggregate(s: &Vec<u8>, pos: usize) -> (r: Result<(SyncAggregate, usize), Error>)
    ensures
        (r is Ok <==> aggregate_ok(s@, pos as int)),
        r matches Ok(p) ==> p.0@ == aggregate_at(s@, pos as int) && p.0.wf() && p.1 == pos + 608,
        r is Err ==> r == Err::<(SyncAggregate, usize), Error>(Error::MalformedInput),
{
    let len = s.len();
    if len < 608 || pos > len - 608 {
        return Err(Error::MalformedInput);
    }
    let mut bits: Vec<bool> = Vec::new();
    let mut i: usize = 0;
    while i < 512
        invariant
            i <= 512,
            pos + 608 <= s@.len(),
            s@.len() <= usize::MAX,
            bits@.len() == i,
            forall|j: int| 0 <= j < i ==> (#[trigger] s@[pos + j] == 0u8 || s@[pos + j] == 1u8),
            forall|j: int| 0 <= j < i ==> bits@[j] == (s@[pos + j] == 1u8),
        decreases 512 - i,
    {
        let byte = s[pos + i];
        if byte > 1 {
            return Err(Error::MalformedInput);
        }
        bits.push(byte == 1);
        i = i + 1;
    }
    let sync_committee_signature = read_bytes(s, pos + 512, 96);
    let a = SyncAggregate { sync_committee_bits: bits, sync_committee_signature };
    proof {
        assert(a@.sync_committee_bits =~= bits_at(s@, pos as int));
        assert(a@ =~= aggregate_at(s@, pos as int));
    }
    Ok((a, pos + 608))
}

/// Decode a branch at `pos`.
fn dec_branch(s: &Vec<u8>, pos: usize) -> (r: Result<(Vec<Vec<u8>>, usize), Error>)
    ensures
        (r is Ok <==> branch_ok(s@, pos as int)),
        r matches Ok(p) ==> branch_view(p.0@) == branch_at(s@, pos as int) && branch_wf(
            branch_view(p.0@),
        ) && p.1 == branch_end(s@, pos as int) && p.1 <= s@.len(),
        r is Err ==> r == Err::<(Vec<Vec<u8>>, usize), Error>(Error::MalformedInput),
{
    let len = s.len();
    if len < 8 || pos > len - 8 {
        return Err(Error::MalformedInput);
    }
    let n = read_u64_le(s, pos);
    let ghost count = branch_count(s@, pos as int);
    proof {
        assert(count == n as int);
    }
    let mut nodes: Vec<Vec<u8>> = Vec::new();
    let mut p: usize = pos + 8;
    let mut i: u64 = 0;
    while i < n
        invariant
            i <= n,
            pos + 8 <= s@.len(),
            s@.len() <= usize::MAX,
            count == n as int,
            count == branch_count(s@, pos as int),
            p == pos + 8 + 32 * i,
            p <= s@.len(),
            nodes@.len() == i,
            forall|j: int| 0 <= j < i ==> (#[trigger] nodes@[j])@ == s@.subrange(
                pos + 8 + 32 * j,
                pos + 8 + 32 * j + 32,
            ),
        decreases n - i,
    {
        if s.len() - p < 32 {
            proof {
                assert(32 * (i as int + 1) <= 32 * count) by (nonlinear_arith)
                    requires
                        i as int + 1 <= count,
                ;
                assert(!branch_ok(s@, pos as int));
            }
            return Err(Error::MalformedInput);
        }
        let node = read_bytes(s, p, 32);
        nodes.push(node);
        p = p + 32;
        i = i + 1;
    }
    proof {
        assert(branch_view(nodes@) =~= branch_at(s@, pos as int));
        assert(branch_ok(s@, pos as int));
    }
    Ok((nodes, p))
}

/// Decode a full update at `pos`.
fn dec_update(s: &Vec<u8>, pos: usize) -> (r: Result<(Update, usize), Error>)
    ensures
        (r is Ok <==> update_ok(s@, pos as int)),
        r matches Ok(p) ==> p.0@ == update_at(s@, pos as int) && p.0.wf() && p.1 == update_end(
            s@,
            pos as int,
        ) && p.1 <= s@.len(),
        r is Err ==> r == Err::<(Update, usize), Error>(Error::MalformedInput),
{
    let (attested_header, p1) = match dec_header(s, pos) {
        Ok(p) => p,
        Err(e) => {
            return Err(e);
        },
    };
    let (next_sync_committee, p2) = match dec_committee(s, p1) {
        Ok(p) => p,
        Err(e) => {
            return Err(e);
        },
    };
    let (next_sync_committee_branch, p3) = match dec_branch(s, p2) {
        Ok(p) => p,
        Err(e) => {
            return Err(e);
        },
    };
    let (finalized_header, p4) = match dec_header(s, p3) {
        Ok(p) => p,
        Err(e) => {
            return Err(e);
        },
    };
    let (finality_branch, p5) = match dec_branch(s, p4) {
        Ok(p) => p,
        Err(e) => {
            return Err(e);
        },
    };
    let (sync_aggregate, p6) = match dec_aggregate(s, p5) {
        Ok(p) => p,
        Err(e) => {
            return Err(e);
        },
    };
    let len = s.len();
    if len - p6 < 8 {
        return Err(Error::MalformedInput);
    }
    let signature_slot = read_u64_le(s, p6);
    let u = Update {
        attested_header,
        next_sync_committee,
        next_sync_committee_branch,
        finalized_header,
        finality_branch,
        sync_aggregate,
        signature_slot,
    };
    proof {
        assert(u@ =~= update_at(s@, pos as int));
    }
    Ok((u, p6 + 8))
}

/// Decode a finality update at `pos`.
fn dec_finality_update(s: &Vec<u8>, pos: usize) -> (r: Result<(FinalityUpdate, usize), Error>)
    ensures
        (r is Ok <==> finality_ok(s@, pos as int)),
        r matches Ok(p) ==> p.0@ == finality_at(s@, pos as int) && p.0.wf() && p.1 == finality_end(
            s@,
            pos as int,
        ) && p.1 <= s@.len(),
        r is Err ==> r == Err::<(FinalityUpdate, usize), Error>(Error::MalformedInput),
{
    let (attested_header, p1) = match dec_header(s, pos) {
        Ok(p) => p,
        Err(e) => {
            return Err(e);
        },
    };
    let (finalized_header, p2) = match dec_header(s, p1) {
        Ok(p) => p,
        Err(e) => {
            return Err(e);
        },
    };
    let (finality_branch, p3) = match dec_branch(s, p2) {
        Ok(p) => p,
        Err(e) => {
            return Err(e);
        },
    };
    let (sync_aggregate, p4) = match dec_aggregate(s, p3) {
        Ok(p) => p,
        Err(e) => {
            return Err(e);
        },
    };
    let len = s.len();
    if len - p4 < 8 {
        return Err(Error::MalformedInput);
    }
    let signature_slot = read_u64_le(s, p4);
    let u = FinalityUpdate {
        attested_header,
        finalized_header,
        finality_branch,
        sync_aggregate,
        signature_slot,
    };
    proof {
        assert(u@ =~= finality_at(s@, pos as int));
    }
    Ok((u, p4 + 8))
}

/// Decode an optimistic update at `pos`.
fn dec_optimistic_update(s: &Vec<u8>, pos: usize) -> (r: Result<(OptimisticUpdate, usize), Error>)
    ensures
        (r is Ok <==> optimistic_ok(s@, pos as int)),
        r matches Ok(p) ==> p.0@ == optimistic_at(s@, pos as int) && p.0.wf() && p.1
            == optimistic_end(pos as int) && p.1 <= s@.len(),
        r is Err ==> r == Err::<(OptimisticUpdate, usize), Error>(Error::MalformedInput),
{
    let (attested_header, p1) = match dec_header(s, pos) {
        Ok(p) => p,
        Err(e) => {
            return Err(e);
        },
    };
    let (sync_aggregate, p2) = match dec_aggregate(s, p1) {
        Ok(p) => p,
        Err(e) => {
            return Err(e);
        },
    };
    let len = s.len();
    if len - p2 < 8 {
        return Err(Error::MalformedInput);
    }
    let signature_slot = read_u64_le(s, p2);
    let u = OptimisticUpdate { attested_header, sync_aggregate, signature_slot };
    proof {
        assert(u@ =~= optimistic_at(s@, pos as int));
    }
    Ok((u, p2 + 8))
}

/// Decode a full update from its exact compact form; trailing bytes are
/// rejected.
pub fn from_compact_update(s: &Vec<u8>) -> (r: Result<Update, Error>)
    ensures
        (r is Ok <==> update_ok(s@, 0) && update_end(s@, 0) == s@.len()),
        r matches Ok(u) ==> u@ == update_at(s@, 0) && u.wf(),
        r is Err ==> r == Err::<Update, Error>(Error::MalformedInput),
{
    match dec_update(s, 0) {
        Ok((u, end)) => {
            if end != s.len() {
                return Err(Error::MalformedInput);
            }
            Ok(u)
        },
        Err(e) => Err(e),
    }
}

/// Decode a finality update from its exact compact form.
pub fn from_compact_finality_update(s: &Vec<u8>) -> (r: Result<FinalityUpdate, Error>)
    ensures
        (r is Ok <==> finality_ok(s@, 0) && finality_end(s@, 0) == s@.len()),
        r matches Ok(u) ==> u@ == finality_at(s@, 0) && u.wf(),
        r is Err ==> r == Err::<FinalityUpdate, Error>(Error::MalformedInput),
{
    match dec_finality_update(s, 0) {
        Ok((u, end)) => {
            if end != s.len() {
                return Err(Error::MalformedInput);
            }
            Ok(u)
        },
        Err(e) => Err(e),
    }
}

/// Decode an optimistic update from its exact compact form.
pub fn from_compact_optimistic_update(s: &Vec<u8>) -> (r: Result<OptimisticUpdate, Error>)
    ensures
        (r is Ok <==> optimistic_ok(s@, 0) && optimistic_end(0) == s@.len()),
        r matches Ok(u) ==> u@ == optimistic_at(s@, 0) && u.wf(),
        r is Err ==> r == Err::<OptimisticUpdate, Error>(Error::MalformedInput),
{
    match dec_optimistic_update(s, 0) {
        Ok((u, end)) => {
            if end != s.len() {
                return Err(Error::MalformedInput);
            }
            Ok(u)
        },
        Err(e) => Err(e),
    }
}

// Round trip: decoding an encoding yields the message that was encoded.

/// A slice of an embedded byte string can be taken in the whole string or
/// in the embedded one, with the same result.
pub proof fn lemma_eq_slice(s: Seq<u8>, pos: int, e: Seq<u8>, a: int, b: int)
    requires
        0 <= pos,
        0 <= a <= b <= e.len(),
        pos + e.len() <= s.len(),
        s.subrange(pos, pos + e.len()) == e,
    ensures
        s.subrange(pos + a, pos + b) == e.subrange(a, b),
{
    assert forall|t: int| 0 <= t < b - a implies s.subrange(pos + a, pos + b)[t] == e.subrange(
        a,
        b,
    )[t] by {
        assert(s.subrange(pos, pos + e.len())[a + t] == e[a + t]);
    }
    assert(s.subrange(pos + a, pos + b) =~= e.subrange(a, b));
}

/// A header can be read back out of its own encoding.
pub proof fn lemma_parse_header(s: Seq<u8>, pos: int, h: HeaderView)
    requires
        h.wf(),
        0 <= pos,
        pos + 112 <= s.len(),
        s.subrange(pos, pos + 112) == enc_header(h),
    ensures
        header_at(s, pos) == h,
{
    let e = enc_header(h);
    lemma_eq_slice(s, pos, e, 0, 8);
    lemma_eq_slice(s, pos, e, 8, 16);
    lemma_eq_slice(s, pos, e, 16, 48);
    lemma_eq_slice(s, pos, e, 48, 80);
    lemma_eq_slice(s, pos, e, 80, 112);
    assert(e.subrange(0, 8) =~= le_bytes(h.slot));
    assert(e.subrange(8, 16) =~= le_bytes(h.proposer_index));
    lemma_u64_le_round_trip(h.slot);
    lemma_u64_le_round_trip(h.proposer_index);
    assert(e.subrange(16, 48) =~= h.parent_root);
    assert(e.subrange(48, 80) =~= h.state_root);
    assert(e.subrange(80, 112) =~= h.body_root);
    assert(header_at(s, pos) =~= h);
}

/// A committee can be read back out of its own encoding.
pub proof fn lemma_parse_committee(s: Seq<u8>, pos: int, c: CommitteeView)
    requires
        c.wf(),
        0 <= pos,
        pos + 24624 <= s.len(),
        s.subrange(pos, pos + 24624) == enc_committee(c),
    ensures
        committee_at(s, pos) == c,
{
    let e = enc_committee(c);
    lemma_concat_len(c.pubkeys, 48);
    assert forall|j: int| 0 <= j < 512 implies committee_at(s, pos).pubkeys[j] == c.pubkeys[j] by {
        lemma_concat_extract(c.pubkeys, 48, j);
        lemma_eq_slice(s, pos, e, 48 * j, 48 * j + 48);
        assert(e.subrange(48 * j, 48 * j + 48) =~= concat_all(c.pubkeys).subrange(
            48 * j,
            48 * j + 48,
        ));
    }
    assert(committee_at(s, pos).pubkeys =~= c.pubkeys);
    lemma_eq_slice(s, pos, e, 24576, 24624);
    assert(e.subrange(24576, 24624) =~= c.aggregate_pubkey);
    assert(committee_at(s, pos) =~= c);
}

/// An aggregate can be read back out of its own encoding.
pub proof fn lemma_parse_aggregate(s: Seq<u8>, pos: int, a: AggregateView)
    requires
        a.wf(),
        0 <= pos,
        pos + 608 <= s.len(),
        s.subrange(pos, pos + 608) == enc_aggregate(a),
    ensures
        bits_ok(s, pos),
        aggregate_ok(s, pos),
        aggregate_at(s, pos) == a,
{
    let e = enc_aggregate(a);
    assert forall|j: int| 0 <= j < 512 implies (#[trigger] s[pos + j] == 0u8 || s[pos + j] == 1u8)
        && bits_at(s, pos)[j] == a.sync_committee_bits[j] by {
        assert(s.subrange(pos, pos + 608)[j] == e[j]);
        assert(e[j] == enc_bits(a.sync_committee_bits)[j]);
    }
    assert(bits_at(s, pos) =~= a.sync_committee_bits);
    lemma_eq_slice(s, pos, e, 512, 608);
    assert(e.subrange(512, 608) =~= a.sync_committee_signature);
    assert(aggregate_at(s, pos) =~= a);
}

/// A branch can be read back out of its own encoding.
pub proof fn lemma_parse_branch(s: Seq<u8>, pos: int, b: Seq<Seq<u8>>)
    requires
        branch_wf(b),
        b.len() <= u64::MAX,
        0 <= pos,
        pos + 8 + 32 * b.len() <= s.len(),
        s.subrange(pos, pos + 8 + 32 * b.len()) == enc_branch(b),
    ensures
        branch_count(s, pos) == b.len(),
        branch_ok(s, pos),
        branch_end(s, pos) == pos + 8 + 32 * b.len(),
        branch_at(s, pos) == b,
{
    let e = enc_branch(b);
    lemma_concat_len(b, 32);
    lemma_eq_slice(s, pos, e, 0, 8);
    assert(e.subrange(0, 8) =~= le_bytes(b.len() as u64));
    lemma_u64_le_round_trip(b.len() as u64);
    assert(branch_count(s, pos) == b.len());
    assert forall|j: int| 0 <= j < b.len() implies branch_at(s, pos)[j] == b[j] by {
        lemma_concat_extract(b, 32, j);
        lemma_eq_slice(s, pos, e, 8 + 32 * j, 8 + 32 * j + 32);
        assert(e.subrange(8 + 32 * j, 8 + 32 * j + 32) =~= concat_all(b).subrange(
            32 * j,
            32 * j + 32,
        ));
    }
    assert(branch_at(s, pos) =~= b);
}

/// A full update can be read back out of its own encoding, wherever in a
/// byte string it is embedded.
pub proof fn lemma_parse_update(s: Seq<u8>, pos: int, m: UpdateView)
    requires
        m.wf(),
        m.next_sync_committee_branch.len() <= u64::MAX,
        m.finality_branch.len() <= u64::MAX,
        0 <= pos,
        pos + enc_update(m).len() <= s.len(),
        s.subrange(pos, pos + enc_update(m).len()) == enc_update(m),
    ensures
        update_ok(s, pos),
        update_end(s, pos) == pos + enc_update(m).len(),
        update_at(s, pos) == m,
{
    let e = enc_update(m);
    let n1 = m.next_sync_committee_branch.len() as int;
    let n2 = m.finality_branch.len() as int;
    lemma_concat_len(m.next_sync_committee.pubkeys, 48);
    lemma_concat_len(m.next_sync_committee_branch, 32);
    lemma_concat_len(m.finality_branch, 32);
    assert(enc_header(m.attested_header).len() == 112);
    assert(enc_committee(m.next_sync_committee).len() == 24624);
    assert(enc_branch(m.next_sync_committee_branch).len() == 8 + 32 * n1);
    assert(enc_header(m.finalized_header).len() == 112);
    assert(enc_branch(m.finality_branch).len() == 8 + 32 * n2);
    assert(enc_aggregate(m.sync_aggregate).len() == 608);
    assert(e.len() == 25480 + 32 * n1 + 32 * n2);
    lemma_eq_slice(s, pos, e, 0, 112);
    assert(e.subrange(0, 112) =~= enc_header(m.attested_header));
    lemma_parse_header(s, pos, m.attested_header);
    lemma_eq_slice(s, pos, e, 112, 24736);
    assert(e.subrange(112, 24736) =~= enc_committee(m.next_sync_committee));
    lemma_parse_committee(s, pos + 112, m.next_sync_committee);
    lemma_eq_slice(s, pos, e, 24736, 24744 + 32 * n1);
    assert(e.subrange(24736, 24744 + 32 * n1) =~= enc_branch(m.next_sync_committee_branch));
    lemma_parse_branch(s, pos + 24736, m.next_sync_committee_branch);
    let f = pos + 24744 + 32 * n1;
    assert(update_finalized_off(s, pos) == f);
    lemma_eq_slice(s, pos, e, 24744 + 32 * n1, 24856 + 32 * n1);
    assert(e.subrange(24744 + 32 * n1, 24856 + 32 * n1) =~= enc_header(m.finalized_header));
    lemma_parse_header(s, f, m.finalized_header);
    lemma_eq_slice(s, pos, e, 24856 + 32 * n1, 24864 + 32 * n1 + 32 * n2);
    assert(e.subrange(24856 + 32 * n1, 24864 + 32 * n1 + 32 * n2) =~= enc_branch(
        m.finality_branch,
    ));
    lemma_parse_branch(s, f + 112, m.finality_branch);
    let ag = f + 120 + 32 * n2;
    assert(update_aggregate_off(s, pos) == ag);
    lemma_eq_slice(s, pos, e, 24864 + 32 * n1 + 32 * n2, 25472 + 32 * n1 + 32 * n2);
    assert(e.subrange(24864 + 32 * n1 + 32 * n2, 25472 + 32 * n1 + 32 * n2) =~= enc_aggregate(
        m.sync_aggregate,
    ));
    lemma_parse_aggregate(s, ag, m.sync_aggregate);
    lemma_eq_slice(s, pos, e, 25472 + 32 * n1 + 32 * n2, 25480 + 32 * n1 + 32 * n2);
    assert(e.subrange(25472 + 32 * n1 + 32 * n2, 25480 + 32 * n1 + 32 * n2) =~= le_bytes(
        m.signature_slot,
    ));
    lemma_u64_le_round_trip(m.signature_slot);
    assert(update_at(s, pos) =~= m);
}

/// Round trip for a full update: its compact encoding decodes, consumes
/// every byte, and parses back to the very same message.
pub proof fn lemma_compact_round_trip_update(m: UpdateView)
    requires
        m.wf(),
        m.next_sync_committee_branch.len() <= u64::MAX,
        m.finality_branch.len() <= u64::MAX,
    ensures
        update_ok(enc_update(m), 0),
        update_end(enc_update(m), 0) == enc_update(m).len(),
        update_at(enc_update(m), 0) == m,
{
    let s = enc_update(m);
    assert(s.subrange(0, s.len() as int) =~= s);
    lemma_parse_update(s, 0, m);
}

/// A finality update can be read back out of its own encoding, wherever
/// in a byte string it is embedded.
pub proof fn lemma_parse_finality(s: Seq<u8>, pos: int, m: FinalityUpdateView)
    requires
        m.wf(),
        m.finality_branch.len() <= u64::MAX,
        0 <= pos,
        pos + enc_finality_update(m).len() <= s.len(),
        s.subrange(pos, pos + enc_finality_update(m).len()) == enc_finality_update(m),
    ensures
        finality_ok(s, pos),
        finality_end(s, pos) == pos + enc_finality_update(m).len(),
        finality_at(s, pos) == m,
{
    let e = enc_finality_update(m);
    let n2 = m.finality_branch.len() as int;
    lemma_concat_len(m.finality_branch, 32);
    assert(enc_header(m.attested_header).len() == 112);
    assert(enc_header(m.finalized_header).len() == 112);
    assert(enc_branch(m.finality_branch).len() == 8 + 32 * n2);
    assert(enc_aggregate(m.sync_aggregate).len() == 608);
    assert(e.len() == 848 + 32 * n2);
    lemma_eq_slice(s, pos, e, 0, 112);
    assert(e.subrange(0, 112) =~= enc_header(m.attested_header));
    lemma_parse_header(s, pos, m.attested_header);
    lemma_eq_slice(s, pos, e, 112, 224);
    assert(e.subrange(112, 224) =~= enc_header(m.finalized_header));
    lemma_parse_header(s, pos + 112, m.finalized_header);
    lemma_eq_slice(s, pos, e, 224, 232 + 32 * n2);
    assert(e.subrange(224, 232 + 32 * n2) =~= enc_branch(m.finality_branch));
    lemma_parse_branch(s, pos + 224, m.finality_branch);
    let ag = pos + 232 + 32 * n2;
    assert(finality_aggregate_off(s, pos) == ag);
    lemma_eq_slice(s, pos, e, 232 + 32 * n2, 840 + 32 * n2);
    assert(e.subrange(232 + 32 * n2, 840 + 32 * n2) =~= enc_aggregate(m.sync_aggregate));
    lemma_parse_aggregate(s, ag, m.sync_aggregate);
    lemma_eq_slice(s, pos, e, 840 + 32 * n2, 848 + 32 * n2);
    assert(e.subrange(840 + 32 * n2, 848 + 32 * n2) =~= le_bytes(m.signature_slot));
    lemma_u64_le_round_trip(m.signature_slot);
    assert(finality_at(s, pos) =~= m);
}

/// Round trip for a finality update.
pub proof fn lemma_compact_round_trip_finality(m: FinalityUpdateView)
    requires
        m.wf(),
        m.finality_branch.len() <= u64::MAX,
    ensures
        finality_ok(enc_finality_update(m), 0),
        finality_end(enc_finality_update(m), 0) == enc_finality_update(m).len(),
        finality_at(enc_finality_update(m), 0) == m,
{
    let s = enc_finality_update(m);
    assert(s.subrange(0, s.len() as int) =~= s);
    lemma_parse_finality(s, 0, m);
}

/// An optimistic update can be read back out of its own encoding, wherever
/// in a byte string it is embedded.
pub proof fn lemma_parse_optimistic(s: Seq<u8>, pos: int, m: OptimisticUpdateView)
    requires
        m.wf(),
        0 <= pos,
        pos + 728 <= s.len(),
        s.subrange(pos, pos + 728) == enc_optimistic_update(m),
    ensures
        optimistic_ok(s, pos),
        optimistic_end(pos) == pos + 728,
        optimistic_at(s, pos) == m,
{
    let e = enc_optimistic_update(m);
    assert(enc_header(m.attested_header).len() == 112);
    assert(enc_aggregate(m.sync_aggregate).len() == 608);
    assert(e.len() == 728);
    lemma_eq_slice(s, pos, e, 0, 112);
    assert(e.subrange(0, 112) =~= enc_header(m.attested_header));
    lemma_parse_header(s, pos, m.attested_header);
    lemma_eq_slice(s, pos, e, 112, 720);
    assert(e.subrange(112, 720) =~= enc_aggregate(m.sync_aggregate));
    lemma_parse_aggregate(s, pos + 112, m.sync_aggregate);
    lemma_eq_slice(s, pos, e, 720, 728);
    assert(e.subrange(720, 728) =~= le_bytes(m.signature_slot));
    lemma_u64_le_round_trip(m.signature_slot);
    assert(optimistic_at(s, pos) =~= m);
}

/// Round trip for an optimistic update.
pub proof fn lemma_compact_round_trip_optimistic(m: OptimisticUpdateView)
    requires
        m.wf(),
    ensures
        optimistic_ok(enc_optimistic_update(m), 0),
        optimistic_end(0) == enc_optimistic_update(m).len(),
        optimistic_at(enc_optimistic_update(m), 0) == m,
{
    let s = enc_optimistic_update(m);
    assert(s.subrange(0, s.len() as int) =~= s);
    lemma_parse_optimistic(s, 0, m);
}

// The batched response.

pub open spec fn updates_ok(s: Seq<u8>, pos: int, n: nat) -> bool
    decreases n,
{
    n == 0 || (update_ok(s, pos) && updates_ok(s, update_end(s, pos), (n - 1) as nat))
}

pub open spec fn updates_end(s: Seq<u8>, pos: int, n: nat) -> int
    decreases n,
{
    if n == 0 {
        pos
    } else {
        updates_end(s, update_end(s, pos), (n - 1) as nat)
    }
}

pub open spec fn updates_at(s: Seq<u8>, pos: int, n: nat) -> Seq<UpdateView>
    decreases n,
{
    if n == 0 {
        Seq::empty()
    } else {
        seq![update_at(s, pos)] + updates_at(s, update_end(s, pos), (n - 1) as nat)
    }
}

/// Reading one more update appends it at the end of what was read so far.
proof fn lemma_updates_snoc(s: Seq<u8>, pos: int, n: nat)
    ensures
        updates_ok(s, pos, n + 1) == (updates_ok(s, pos, n) && update_ok(
            s,
            updates_end(s, pos, n),
        )),
        updates_end(s, pos, n + 1) == update_end(s, updates_end(s, pos, n)),
        updates_at(s, pos, n + 1) == updates_at(s, pos, n).push(
            update_at(s, updates_end(s, pos, n)),
        ),
    decreases n,
{
    if n == 0 {
        assert(updates_ok(s, update_end(s, pos), 0));
        assert(updates_end(s, update_end(s, pos), 0) == update_end(s, pos));
        assert(updates_at(s, update_end(s, pos), 0) == Seq::<UpdateView>::empty());
        assert(updates_at(s, pos, 1) =~= updates_at(s, pos, 0).push(update_at(s, pos)));
    } else {
        lemma_updates_snoc(s, update_end(s, pos), (n - 1) as nat);
        assert(updates_at(s, pos, n + 1) =~= updates_at(s, pos, n).push(
            update_at(s, updates_end(s, pos, n)),
        ));
    }
}

/// A readable run of `n` updates is readable up to any shorter count.
proof fn lemma_updates_prefix(s: Seq<u8>, pos: int, i: nat, n: nat)
    requires
        i <= n,
        updates_ok(s, pos, n),
    ensures
        updates_ok(s, pos, i),
        i < n ==> update_ok(s, updates_end(s, pos, i)),
    decreases i,
{
    if i > 0 {
        lemma_updates_prefix(s, update_end(s, pos), (i - 1) as nat, (n - 1) as nat);
    }
}

pub open spec fn response_count(s: Seq<u8>) -> int {
    u64_from_le(s.subrange(0, 8)) as int
}

pub open spec fn response_ok(s: Seq<u8>) -> bool {
    &&& 8 <= s.len()
    &&& updates_ok(s, 8, response_count(s) as nat)
    &&& finality_ok(s, updates_end(s, 8, response_count(s) as nat))
    &&& optimistic_ok(s, finality_end(s, updates_end(s, 8, response_count(s) as nat)))
    &&& optimistic_end(finality_end(s, updates_end(s, 8, response_count(s) as nat))) == s.len()
}

pub open spec fn response_at(s: Seq<u8>) -> UpdatesResponseView {
    UpdatesResponseView {
        updates: updates_at(s, 8, response_count(s) as nat),
        finality_update: finality_at(s, updates_end(s, 8, response_count(s) as nat)),
        optimistic_update: optimistic_at(
            s,
            finality_end(s, updates_end(s, 8, response_count(s) as nat)),
        ),
    }
}

/// Decode a batched response from its exact compact form.
#[verifier::rlimit(50)]
pub fn from_compact_response(s: &Vec<u8>) -> (r: Result<UpdatesResponse, Error>)
    ensures
        (r is Ok <==> response_ok(s@)),
        r matches Ok(resp) ==> resp@ == response_at(s@) && resp.wf(),
        r is Err ==> r == Err::<UpdatesResponse, Error>(Error::MalformedInput),
{
    let len = s.len();
    if len < 8 {
        return Err(Error::MalformedInput);
    }
    let n = read_u64_le(s, 0);
    let mut updates: Vec<Update> = Vec::new();
    let mut pos: usize = 8;
    let mut i: u64 = 0;
    while i < n
        invariant
            i <= n,
            s@.len() <= usize::MAX,
            8 <= s@.len(),
            n as int == response_count(s@),
            pos as int == updates_end(s@, 8, i as nat),
            pos <= s@.len(),
            updates_ok(s@, 8, i as nat),
            updates@.len() == i,
            updates@.map_values(|u: Update| u@) == updates_at(s@, 8, i as nat),
            forall|j: int| 0 <= j < updates@.len() ==> (#[trigger] updates@[j]).wf(),
        decreases n - i,
    {
        proof {
            lemma_updates_snoc(s@, 8, i as nat);
        }
        match dec_update(s, pos) {
            Ok(p) => {
                updates.push(p.0);
                pos = p.1;
                proof {
                    assert(updates@.map_values(|u: Update| u@) =~= updates_at(
                        s@,
                        8,
                        (i + 1) as nat,
                    ));
                }
            },
            Err(_) => {
                proof {
                    if response_ok(s@) {
                        lemma_updates_prefix(s@, 8, i as nat, response_count(s@) as nat);
                    }
                }
                return Err(Error::MalformedInput);
            },
        }
        i = i + 1;
    }
    let (finality_update, p2) = match dec_finality_update(s, pos) {
        Ok(p) => p,
        Err(e) => {
            return Err(e);
        },
    };
    let (optimistic_update, p3) = match dec_optimistic_update(s, p2) {
        Ok(p) => p,
        Err(e) => {
            return Err(e);
        },
    };
    if p3 != len {
        return Err(Error::MalformedInput);
    }
    let resp = UpdatesResponse { updates, finality_update, optimistic_update };
    proof {
        assert(resp@ =~= response_at(s@));
    }
    Ok(resp)
}

/// A run of encoded updates can be read back out of its own encoding.
proof fn lemma_parse_update_list(s: Seq<u8>, pos: int, us: Seq<UpdateView>)
    requires
        forall|i: int| 0 <= i < us.len() ==> (#[trigger] us[i]).wf()
            && us[i].next_sync_committee_branch.len() <= u64::MAX
            && us[i].finality_branch.len() <= u64::MAX,
        0 <= pos,
        pos + enc_update_list(us).len() <= s.len(),
        s.subrange(pos, pos + enc_update_list(us).len()) == enc_update_list(us),
    ensures
        updates_ok(s, pos, us.len()),
        updates_end(s, pos, us.len()) == pos + enc_update_list(us).len(),
        updates_at(s, pos, us.len()) == us,
    decreases us.len(),
{
    if us.len() == 0 {
        assert(updates_at(s, pos, 0) =~= us);
    } else {
        let us0 = us.drop_last();
        let u = us.last();
        let e = enc_update_list(us);
        let l0 = enc_update_list(us0).len() as int;
        assert(e == enc_update_list(us0) + enc_update(u));
        lemma_eq_slice(s, pos, e, 0, l0);
        assert(e.subrange(0, l0) =~= enc_update_list(us0));
        lemma_parse_update_list(s, pos, us0);
        lemma_eq_slice(s, pos, e, l0, e.len() as int);
        assert(e.subrange(l0, e.len() as int) =~= enc_update(u));
        lemma_parse_update(s, pos + l0, u);
        lemma_updates_snoc(s, pos, (us.len() - 1) as nat);
        assert(updates_at(s, pos, us.len()) =~= us);
    }
}

/// Round trip for a batched response: its compact encoding decodes,
/// consumes every byte, and parses back to the very same response.
pub proof fn lemma_compact_round_trip_response(m: UpdatesResponseView)
    requires
        m.wf(),
        m.updates.len() <= u64::MAX,
        forall|i: int| 0 <= i < m.updates.len() ==> (
        #[trigger] m.updates[i]).next_sync_committee_branch.len() <= u64::MAX
            && m.updates[i].finality_branch.len() <= u64::MAX,
        m.finality_update.finality_branch.len() <= u64::MAX,
    ensures
        response_ok(enc_response(m)),
        response_at(enc_response(m)) == m,
{
    let s = enc_response(m);
    let n = m.updates.len() as int;
    let llen = enc_update_list(m.updates).len() as int;
    lemma_concat_len(m.finality_update.finality_branch, 32);
    let flen = enc_finality_update(m.finality_update).len() as int;
    assert(flen == 848 + 32 * m.finality_update.finality_branch.len());
    assert(enc_optimistic_update(m.optimistic_update).len() == 728);
    assert(s.len() == 8 + llen + flen + 728);
    assert(s.subrange(0, 8) =~= le_bytes(m.updates.len() as u64));
    lemma_u64_le_round_trip(m.updates.len() as u64);
    assert(response_count(s) == n);
    assert(s.subrange(8, 8 + llen) =~= enc_update_list(m.updates));
    lemma_parse_update_list(s, 8, m.updates);
    assert(s.subrange(8 + llen, 8 + llen + flen) =~= enc_finality_update(m.finality_update));
    lemma_parse_finality(s, 8 + llen, m.finality_update);
    assert(s.subrange(8 + llen + flen, 8 + llen + flen + 728) =~= enc_optimistic_update(
        m.optimistic_update,
    ));
    lemma_parse_optimistic(s, 8 + llen + flen, m.optimistic_update);
    assert(response_at(s) =~= m);
}

impl UpdatesResponse {
    /// Decode a batched response from compact bytes, as the relay target
    /// does.
    pub fn deserialize_from_bytes(bytes: Vec<u8>) -> (r: Result<UpdatesResponse, Error>)
        ensures
            (r is Ok <==> response_ok(bytes@)),
            r matches Ok(resp) ==> resp@ == response_at(bytes@) && resp.wf(),
            r is Err ==> r == Err::<UpdatesResponse, Error>(Error::MalformedInput),
    {
        from_compact_response(&bytes)
    }
}

} // verus!
