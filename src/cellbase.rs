use vstd::prelude::*;

use crate::error::Error;

verus! {

/// A block-reward record as the chain-data provider reports it, each field a
/// wide unsigned integer.
#[derive(Debug, Clone, Copy, PartialEq, Eq, Structural, Default)]
pub struct RewardRecord {
    pub total: u128,
    pub primary: u128,
    pub secondary: u128,
    pub tx_fee: u128,
    pub proposal_reward: u128,
}

/// The reward breakdown paid for a block: its total and the four parts the
/// total is made of.
#[derive(Debug, Clone, Copy, PartialEq, Eq, Structural, Default)]
pub struct Cellbase {
    pub total: u64,
    pub primary: u64,
    pub secondary: u64,
    pub tx_fee: u64,
    pub proposal_reward: u64,
}

/// Every field of the record fits in 64 bits.
pub open spec fn record_fits(r: RewardRecord) -> bool {
    &&& r.total <= u64::MAX
    &&& r.primary <= u64::MAX
    &&& r.secondary <= u64::MAX
    &&& r.tx_fee <= u64::MAX
    &&& r.proposal_reward <= u64::MAX
}

/// The breakdown a record stands for, its fields narrowed to 64 bits.
pub open spec fn cellbase_of(r: RewardRecord) -> Cellbase {
    Cellbase {
        total: r.total as u64,
        primary: r.primary as u64,
        secondary: r.secondary as u64,
        tx_fee: r.tx_fee as u64,
        proposal_reward: r.proposal_reward as u64,
    }
}

/// Narrows a reward record to 64-bit fields, refusing any field that would
/// lose data.
pub fn decode_reward(record: &RewardRecord) -> (r: Result<Cellbase, Error>)
    ensures
        record_fits(*record) ==> r == Ok::<Cellbase, Error>(cellbase_of(*record)),
        !record_fits(*record) ==> r == Err::<Cellbase, Error>(Error::ValueOutOfRange),
{
    let max: u128 = u64::MAX as u128;
    if record.total > max || record.primary > max || record.secondary > max || record.tx_fee > max
        || record.proposal_reward > max {
        return Err(Error::ValueOutOfRange);
    }
    Ok(
        Cellbase {
            total: record.total as u64,
            primary: record.primary as u64,
            secondary: record.secondary as u64,
            tx_fee: record.tx_fee as u64,
            proposal_reward: record.proposal_reward as u64,
        },
    )
}

impl Cellbase {
    /// The sum of the four parts of the reward.
    pub open spec fn parts_sum(self) -> int {
        self.primary + self.secondary + self.tx_fee + self.proposal_reward
    }

    /// Whether the total is the sum of the four parts.
    pub fn check_total(self) -> (r: bool)
        ensures
            r == (self.total as int == self.parts_sum()),
    {
        let sum: u128 = self.primary as u128 + self.secondary as u128 + self.tx_fee as u128
            + self.proposal_reward as u128;
        sum == self.total as u128
    }
}

} // verus!
