use vstd::prelude::*;

verus! {

/// Every way in which a walk over the chain can stop. All of them are fatal.
#[derive(Debug, Clone, Copy, PartialEq, Eq, Structural)]
pub enum Error {
    /// A fixed-size record does not have the size its layout asks for.
    MalformedRecord,
    /// A value, or a quantity derived from values, does not fit in 64 bits.
    ValueOutOfRange,
    /// The chain-data provider failed to deliver what was asked of it.
    ProviderError,
    /// A structural element of a block is missing.
    MalformedChain { height: u64 },
    /// An epoch too short for its boundary to be seen after the maturity
    /// delay.
    UnsupportedEpochLength { height: u64 },
    /// A reward breakdown whose components do not add up to its total.
    RewardSumMismatch { height: u64 },
    /// The coinbase outputs differ from the reward they are meant to pay.
    CoinbaseRewardMismatch { height: u64 },
    /// The accumulator's total differs from the issuance counted so far.
    IssuanceIdentityMismatch { height: u64 },
    /// The miner's share of secondary issuance is not the expected one.
    SecondarySplitMismatch { height: u64 },
    /// An epoch issued a different amount than the first full epoch did.
    EpochAccountingMismatch { epoch: u64 },
}

} // verus!
