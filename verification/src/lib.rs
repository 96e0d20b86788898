//! A verified beacon-chain light-client core: a state manager that ingests
//! signed sync-committee updates and proves their validity through Merkle
//! inclusion checks and an external aggregate-signature capability, over a
//! merkleization engine, a fork-variant resolver, and a dual codec between
//! the verbose ingress form and a compact binary egress form.

use vstd::prelude::*;

pub mod bytes;
pub mod codec;
pub mod errors;
pub mod forks;
pub mod hashing;
pub mod manager;
pub mod merkle;
pub mod types;

verus! {

/// Number of members in a sync committee.
pub const SYNC_COMMITTEE_SIZE: u64 = 512;

/// Smallest participation count that still meets the two-thirds quorum.
pub const QUORUM_THRESHOLD: u64 = 2 * SYNC_COMMITTEE_SIZE / 3;

/// Slots in an epoch.
pub const SLOTS_PER_EPOCH: u64 = 32;

/// Epochs in a sync-committee period.
pub const EPOCHS_PER_PERIOD: u64 = 256;

/// Slots in a sync-committee period.
pub const SLOTS_PER_PERIOD: u64 = SLOTS_PER_EPOCH * EPOCHS_PER_PERIOD;

/// The sync-committee period that `slot` falls in.
pub open spec fn period_of(slot: u64) -> u64 {
    slot / SLOTS_PER_PERIOD
}

/// Compute the sync-committee period of a slot.
pub fn slot_period(slot: u64) -> (r: u64)
    ensures
        r == period_of(slot),
{
    slot / SLOTS_PER_PERIOD
}

} // verus!
