use vstd::prelude::*;
use vstd::arithmetic::div_mod::lemma_div_multiples_vanish;

use crate::cellbase::{Cellbase, RewardRecord, cellbase_of, decode_reward, record_fits};
use crate::dao::{Dao, SNAPSHOT_LEN, decode_snapshot, snapshot_of};
use crate::epoch::{EpochAccountant, accumulate_spec, boundary_spec};
use crate::error::Error;
use crate::maturity::{MATURITY, MaturityBuffer, drive, lemma_maturity_window, push_spec};

verus! {

/// What the walk reads of a block: its epoch, its place in it and the epoch's
/// length, its accumulator record, and the output capacities of each of its
/// transactions, in order.
#[derive(Debug, Clone, PartialEq, Eq)]
pub struct BlockRecord {
    pub epoch_number: u64,
    pub epoch_index: u64,
    pub epoch_length: u64,
    pub dao: Vec<u8>,
    pub transactions: Vec<Vec<u64>>,
}

/// What the maturity buffer holds for a block: its accumulator snapshot and
/// the sum of its coinbase outputs, both needed once the block matures.
#[derive(Debug, Clone, Copy, PartialEq, Eq, Structural, Default)]
pub struct Pending {
    pub snapshot: Dao,
    pub coinbase: u64,
}

/// The running figures of a walk: the height it will check next, issuance
/// totals, the epoch accountant, the constants read at genesis and the most
/// recently matured snapshot.
#[derive(Debug, Clone, Copy, PartialEq, Eq, Structural, Default)]
pub struct Ledger {
    pub next_block: u64,
    pub total: u64,
    pub total_primary: u64,
    pub total_secondary: u64,
    pub total_miner_secondary: u64,
    pub total_tx_fee: u64,
    pub total_proposal_reward: u64,
    pub epoch: EpochAccountant,
    pub genesis_cellbase: u64,
    pub primary_burned: u64,
    pub dao_prev: Dao,
}

/// The sum of a sequence of capacities.
pub open spec fn seq_sum(s: Seq<u64>) -> int
    decreases s.len(),
{
    if s.len() == 0 {
        0
    } else {
        seq_sum(s.drop_last()) + s.last()
    }
}

/// The part of the genesis allocation that was burned: what the genesis
/// accumulator counts beyond the coinbase outputs and the secondary issuance.
pub open spec fn genesis_burn(total: int, coinbase: int, secondary: int) -> int {
    total - coinbase - secondary
}

/// Issuance the chain should have recorded: the genesis coinbase, all primary
/// and secondary issuance, and the genesis burn.
pub open spec fn total_issuance_spec(l: Ledger) -> int {
    l.genesis_cellbase + l.total_primary + l.total_secondary + l.primary_burned
}

/// The miner's share of a block's secondary issuance, in proportion to the
/// occupied capacity, rounded down.
pub open spec fn split_spec(block_secondary: int, occupied: int, total: int) -> int {
    block_secondary * occupied / total
}

/// Reading the genesis block.
pub open spec fn genesis_spec(l: Ledger, coinbase: u64, snapshot: Dao) -> Result<Ledger, Error> {
    let burned = genesis_burn(snapshot.total as int, coinbase as int, snapshot.secondary as int);
    if burned < 0 {
        Err(Error::ValueOutOfRange)
    } else {
        Ok(
            Ledger {
                genesis_cellbase: coinbase,
                primary_burned: burned as u64,
                total_secondary: snapshot.secondary,
                epoch: EpochAccountant { epoch_secondary: snapshot.secondary, ..l.epoch },
                ..l
            },
        )
    }
}

/// The epoch check due before a matured block is counted: when the block at
/// the tip sits at index `MATURITY` of its epoch, the matured block opens that
/// epoch and the previous one is closed.
pub open spec fn epoch_step_spec(l: Ledger, height: u64, block: BlockRecord) -> Result<
    EpochAccountant,
    Error,
> {
    if block.epoch_index == MATURITY {
        if block.epoch_number == 0 {
            Err(Error::MalformedChain { height })
        } else {
            boundary_spec(l.epoch, (block.epoch_number - 1) as u64, l.primary_burned)
        }
    } else {
        Ok(l.epoch)
    }
}

/// Adding a reward to the run totals; `None` when a total leaves 64 bits.
pub open spec fn add_cellbase_spec(l: Ledger, c: Cellbase) -> Option<Ledger> {
    if l.total + c.total > u64::MAX || l.total_primary + c.primary > u64::MAX
        || l.total_miner_secondary + c.secondary > u64::MAX || l.total_tx_fee + c.tx_fee
        > u64::MAX || l.total_proposal_reward + c.proposal_reward > u64::MAX {
        None
    } else {
        Some(
            Ledger {
                total: (l.total + c.total) as u64,
                total_primary: (l.total_primary + c.primary) as u64,
                total_miner_secondary: (l.total_miner_secondary + c.secondary) as u64,
                total_tx_fee: (l.total_tx_fee + c.tx_fee) as u64,
                total_proposal_reward: (l.total_proposal_reward + c.proposal_reward) as u64,
                ..l
            },
        )
    }
}

/// Adding a reward to the run totals and its primary issuance to the current
/// epoch; `None` when a sum leaves 64 bits.
pub open spec fn credit_reward_spec(l: Ledger, c: Cellbase) -> Option<Ledger> {
    match add_cellbase_spec(l, c) {
        Some(l2) => match accumulate_spec(l.epoch, c.primary as int, 0) {
            Some(epoch) => Some(Ledger { epoch, ..l2 }),
            None => None,
        },
        None => None,
    }
}

/// Counting the matured snapshot `d`, paid by reward `c` whose coinbase
/// outputs add up to `coinbase`, against the previous matured snapshot.
pub open spec fn count_matured_spec(
    l: Ledger,
    epoch: EpochAccountant,
    height: u64,
    coinbase: u64,
    c: Cellbase,
    d: Dao,
) -> Result<Ledger, Error> {
    let prev = l.dao_prev;
    let block_secondary = d.total - prev.total - c.primary;
    if c.total != c.parts_sum() {
        Err(Error::RewardSumMismatch { height })
    } else if block_secondary < 0 {
        Err(Error::ValueOutOfRange)
    } else if accumulate_spec(epoch, c.primary as int, block_secondary) is None
        || l.total_secondary + block_secondary > u64::MAX {
        Err(Error::ValueOutOfRange)
    } else if coinbase != c.total {
        Err(Error::CoinbaseRewardMismatch { height })
    } else if add_cellbase_spec(l, c) is None {
        Err(Error::ValueOutOfRange)
    } else {
        let l2 = Ledger {
            epoch: accumulate_spec(epoch, c.primary as int, block_secondary)->Some_0,
            total_secondary: (l.total_secondary + block_secondary) as u64,
            ..add_cellbase_spec(l, c)->Some_0
        };
        if d.total != total_issuance_spec(l2) {
            Err(Error::IssuanceIdentityMismatch { height })
        } else if prev.total == 0 || split_spec(block_secondary, prev.occupied as int, prev.total as int)
            != c.secondary {
            Err(Error::SecondarySplitMismatch { height })
        } else {
            Ok(Ledger { dao_prev: d, ..l2 })
        }
    }
}

/// Checking a block past the maturity delay against the block `m` that
/// matures with it, whose reward breakdown is `reward`.
pub open spec fn settle_spec(
    l: Ledger,
    height: u64,
    block: BlockRecord,
    reward: Option<RewardRecord>,
    m: Pending,
) -> Result<Ledger, Error> {
    let matured_height = (height - MATURITY) as u64;
    match epoch_step_spec(l, height, block) {
        Err(e) => Err(e),
        Ok(epoch) => match reward {
            None => Err(Error::ProviderError),
            Some(rec) => if !record_fits(rec) {
                Err(Error::ValueOutOfRange)
            } else {
                count_matured_spec(
                    l,
                    epoch,
                    matured_height,
                    m.coinbase,
                    cellbase_of(rec),
                    m.snapshot,
                )
            },
        },
    }
}

/// One step of the walk: the block at height `l.next_block`, with the reward
/// breakdown of the block that matures with it, if that height is past the
/// maturity delay. The block's coinbase total waits in the buffer beside its
/// snapshot and is compared with its own reward when it matures. Of a
/// snapshot the walk reads the total and occupied capacity of every block and
/// the secondary issuance of genesis; the rate is carried through unchecked. The result is the ledger and buffer afterwards, or the
/// error that stops the walk.
pub open spec fn step_spec(
    l: Ledger,
    q: Seq<Pending>,
    block: BlockRecord,
    reward: Option<RewardRecord>,
) -> Result<(Ledger, Seq<Pending>), Error> {
    let h = l.next_block;
    let txs = block.transactions@;
    if h == u64::MAX {
        Err(Error::ValueOutOfRange)
    } else if txs.len() == 0 {
        Err(Error::MalformedChain { height: h })
    } else if seq_sum(txs[0]@) > u64::MAX {
        Err(Error::ValueOutOfRange)
    } else if block.dao@.len() != SNAPSHOT_LEN {
        Err(Error::MalformedRecord)
    } else if block.epoch_length <= MATURITY {
        Err(Error::UnsupportedEpochLength { height: h })
    } else {
        let coinbase = seq_sum(txs[0]@) as u64;
        let snapshot = snapshot_of(block.dao@);
        let pushed = push_spec(q, Pending { snapshot, coinbase });
        let l1 = Ledger { next_block: (h + 1) as u64, ..l };
        if h == 0 {
            match genesis_spec(l1, coinbase, snapshot) {
                Ok(l2) => Ok((l2, pushed.0)),
                Err(e) => Err(e),
            }
        } else if h < MATURITY {
            Ok((l1, pushed.0))
        } else if h == MATURITY {
            Ok((Ledger { dao_prev: pushed.1->Some_0.snapshot, ..l1 }, pushed.0))
        } else {
            match settle_spec(l1, h, block, reward, pushed.1->Some_0) {
                Ok(l2) => Ok((l2, pushed.0)),
                Err(e) => Err(e),
            }
        }
    }
}

/// The ledger of a walk that has not read any block.
pub open spec fn initial_ledger() -> Ledger {
    Ledger {
        next_block: 0,
        total: 0,
        total_primary: 0,
        total_secondary: 0,
        total_miner_secondary: 0,
        total_tx_fee: 0,
        total_proposal_reward: 0,
        epoch: EpochAccountant {
            epoch_primary: 0,
            epoch_secondary: 0,
            epoch_primary_expected: 0,
            epoch_secondary_expected: 0,
        },
        genesis_cellbase: 0,
        primary_burned: 0,
        dao_prev: Dao { total: 0, rate: 0, secondary: 0, occupied: 0 },
    }
}

/// The reward handed in with the block at index `i`, if there is one.
pub open spec fn reward_at(rewards: Seq<Option<RewardRecord>>, i: int) -> Option<RewardRecord> {
    if 0 <= i < rewards.len() {
        rewards[i]
    } else {
        None
    }
}

/// The state after walking the first `n` blocks from `l` and `q`.
pub open spec fn run_spec(
    l: Ledger,
    q: Seq<Pending>,
    blocks: Seq<BlockRecord>,
    rewards: Seq<Option<RewardRecord>>,
    n: nat,
) -> Result<(Ledger, Seq<Pending>), Error>
    decreases n,
{
    if n == 0 {
        Ok((l, q))
    } else {
        match run_spec(l, q, blocks, rewards, (n - 1) as nat) {
            Ok(s) => step_spec(s.0, s.1, blocks[n - 1], reward_at(rewards, n - 1)),
            Err(e) => Err(e),
        }
    }
}

proof fn lemma_seq_sum_nonneg(s: Seq<u64>)
    ensures
        seq_sum(s) >= 0,
    decreases s.len(),
{
    if s.len() > 0 {
        lemma_seq_sum_nonneg(s.drop_last());
    }
}

proof fn lemma_seq_sum_prefix(s: Seq<u64>, i: int)
    requires
        0 <= i < s.len(),
    ensures
        seq_sum(s.subrange(0, i + 1)) == seq_sum(s.subrange(0, i)) + s[i],
{
    assert(s.subrange(0, i + 1).drop_last() =~= s.subrange(0, i));
}

proof fn lemma_seq_sum_prefix_le(s: Seq<u64>, i: int)
    requires
        0 <= i <= s.len(),
    ensures
        seq_sum(s.subrange(0, i)) <= seq_sum(s),
    decreases s.len() - i,
{
    if i < s.len() {
        lemma_seq_sum_prefix(s, i);
        lemma_seq_sum_prefix_le(s, i + 1);
    } else {
        assert(s.subrange(0, i) =~= s);
    }
}

/// The sum of the output capacities of a transaction, if it fits in 64 bits.
fn sum_capacities(outputs: &Vec<u64>) -> (r: Option<u64>)
    ensures
        seq_sum(outputs@) <= u64::MAX ==> r == Some(seq_sum(outputs@) as u64),
        seq_sum(outputs@) > u64::MAX ==> r is None,
{
    let mut acc: u64 = 0;
    let mut i: usize = 0;
    while i < outputs.len()
        invariant
            i <= outputs@.len(),
            acc as int == seq_sum(outputs@.subrange(0, i as int)),
        decreases outputs@.len() - i,
    {
        proof {
            lemma_seq_sum_prefix(outputs@, i as int);
        }
        if outputs[i] > u64::MAX - acc {
            proof {
                lemma_seq_sum_prefix_le(outputs@, i + 1);
            }
            return None;
        }
        acc = acc + outputs[i];
        i = i + 1;
    }
    assert(outputs@.subrange(0, i as int) =~= outputs@);
    Some(acc)
}

/// The miner's share `floor(block_secondary * occupied / total)` of a block's
/// secondary issuance, computed without overflow; `None` when `total` is zero.
pub fn miner_secondary(block_secondary: u64, occupied: u64, total: u64) -> (r: Option<u128>)
    ensures
        total == 0 ==> r is None,
        total > 0 ==> r == Some(
            split_spec(block_secondary as int, occupied as int, total as int) as u128,
        ),
        total > 0 ==> split_spec(block_secondary as int, occupied as int, total as int)
            <= u128::MAX,
{
    if total == 0 {
        return None;
    }
    let b: u128 = block_secondary as u128;
    let o: u128 = occupied as u128;
    assert(b * o <= u64::MAX as int * u64::MAX as int) by (nonlinear_arith)
        requires
            b <= u64::MAX,
            o <= u64::MAX,
    ;
    let product: u128 = b * o;
    assert(product as int / total as int <= product as int) by (nonlinear_arith)
        requires
            total > 0,
            product >= 0,
    ;
    Some(product / total as u128)
}

/// Reads the genesis block: its coinbase outputs and accumulator set the
/// genesis constants and start the secondary-issuance count.
fn genesis(l: Ledger, coinbase: u64, snapshot: Dao) -> (r: Result<Ledger, Error>)
    ensures
        r == genesis_spec(l, coinbase, snapshot),
{
    if snapshot.total < coinbase || snapshot.total - coinbase < snapshot.secondary {
        return Err(Error::ValueOutOfRange);
    }
    let mut out = l;
    out.genesis_cellbase = coinbase;
    out.primary_burned = snapshot.total - coinbase - snapshot.secondary;
    out.total_secondary = snapshot.secondary;
    out.epoch.epoch_secondary = snapshot.secondary;
    Ok(out)
}

impl Ledger {
    /// Adds a reward's parts to the run totals.
    pub fn add_cellbase(&mut self, cellbase: Cellbase) -> (r: Result<(), Error>)
        ensures
            add_cellbase_spec(*old(self), cellbase) is Some ==> r == Ok::<(), Error>(())
                && Some(*final(self)) == add_cellbase_spec(*old(self), cellbase),
            add_cellbase_spec(*old(self), cellbase) is None ==> r == Err::<(), Error>(
                Error::ValueOutOfRange,
            ) && *final(self) == *old(self),
    {
        if cellbase.total > u64::MAX - self.total || cellbase.primary > u64::MAX
            - self.total_primary || cellbase.secondary > u64::MAX - self.total_miner_secondary
            || cellbase.tx_fee > u64::MAX - self.total_tx_fee || cellbase.proposal_reward
            > u64::MAX - self.total_proposal_reward {
            return Err(Error::ValueOutOfRange);
        }
        self.total = self.total + cellbase.total;
        self.total_primary = self.total_primary + cellbase.primary;
        self.total_miner_secondary = self.total_miner_secondary + cellbase.secondary;
        self.total_tx_fee = self.total_tx_fee + cellbase.tx_fee;
        self.total_proposal_reward = self.total_proposal_reward + cellbase.proposal_reward;
        Ok(())
    }

    /// Issuance the chain should have recorded so far.
    pub fn total_issuance(&self) -> (r: u128)
        ensures
            r as int == total_issuance_spec(*self),
    {
        self.genesis_cellbase as u128 + self.total_primary as u128 + self.total_secondary as u128
            + self.primary_burned as u128
    }
}

/// Counts a matured snapshot and checks the identities it must meet.
fn count_matured(
    l: Ledger,
    epoch: EpochAccountant,
    height: u64,
    coinbase: u64,
    c: Cellbase,
    d: Dao,
) -> (r: Result<Ledger, Error>)
    ensures
        r == count_matured_spec(l, epoch, height, coinbase, c, d),
{
    let prev = l.dao_prev;
    if !c.check_total() {
        return Err(Error::RewardSumMismatch { height });
    }
    if d.total < prev.total || d.total - prev.total < c.primary {
        return Err(Error::ValueOutOfRange);
    }
    let block_secondary: u64 = d.total - prev.total - c.primary;
    let mut ep = epoch;
    match ep.accumulate(c.primary, block_secondary) {
        Ok(_) => {},
        Err(e) => {
            return Err(e);
        },
    }
    if block_secondary > u64::MAX - l.total_secondary {
        return Err(Error::ValueOutOfRange);
    }
    if coinbase != c.total {
        return Err(Error::CoinbaseRewardMismatch { height });
    }
    let mut l2 = l;
    match l2.add_cellbase(c) {
        Ok(_) => {},
        Err(e) => {
            return Err(e);
        },
    }
    l2.epoch = ep;
    l2.total_secondary = l.total_secondary + block_secondary;
    if d.total as u128 != l2.total_issuance() {
        return Err(Error::IssuanceIdentityMismatch { height });
    }
    match miner_secondary(block_secondary, prev.occupied, prev.total) {
        None => {
            return Err(Error::SecondarySplitMismatch { height });
        },
        Some(share) => {
            if share != c.secondary as u128 {
                return Err(Error::SecondarySplitMismatch { height });
            }
        },
    }
    l2.dao_prev = d;
    Ok(l2)
}

/// Checks a block past the maturity delay against the block `m` that
/// matured with it.
fn settle(
    l: Ledger,
    height: u64,
    block: &BlockRecord,
    reward: Option<RewardRecord>,
    m: Pending,
) -> (r: Result<Ledger, Error>)
    requires
        height > MATURITY,
    ensures
        r == settle_spec(l, height, *block, reward, m),
{
    let mut epoch = l.epoch;
    if block.epoch_index == MATURITY as u64 {
        if block.epoch_number == 0 {
            return Err(Error::MalformedChain { height });
        }
        match epoch.on_epoch_boundary(block.epoch_number - 1, l.primary_burned) {
            Ok(_) => {},
            Err(e) => {
                return Err(e);
            },
        }
    }
    let rec = match reward {
        None => {
            return Err(Error::ProviderError);
        },
        Some(rec) => rec,
    };
    let c = match decode_reward(&rec) {
        Ok(c) => c,
        Err(e) => {
            return Err(e);
        },
    };
    count_matured(l, epoch, height - MATURITY as u64, m.coinbase, c, m.snapshot)
}

/// The aggregator of one walk over the chain, from genesis upwards.
pub struct Summary {
    ledger: Ledger,
    buffer: MaturityBuffer<Pending>,
}

impl View for Summary {
    type V = (Ledger, Seq<Pending>);

    closed spec fn view(&self) -> (Ledger, Seq<Pending>) {
        (self.ledger, self.buffer@)
    }
}

/// A walk's buffer holds the snapshots of the last `MATURITY` blocks it read,
/// or of all of them while it has read fewer.
pub open spec fn buffer_depth_ok(l: Ledger, q: Seq<Pending>) -> bool {
    q.len() == if l.next_block < MATURITY {
        l.next_block as int
    } else {
        MATURITY as int
    }
}

impl Summary {
    /// The buffer's depth matches the number of blocks read.
    pub open spec fn wf(&self) -> bool {
        buffer_depth_ok(self@.0, self@.1)
    }

    /// A walk that has read no block yet.
    pub fn new() -> (r: Self)
        ensures
            r@ == (initial_ledger(), Seq::<Pending>::empty()),
            r.wf(),
    {
        let ledger = Ledger {
            next_block: 0,
            total: 0,
            total_primary: 0,
            total_secondary: 0,
            total_miner_secondary: 0,
            total_tx_fee: 0,
            total_proposal_reward: 0,
            epoch: EpochAccountant::new(),
            genesis_cellbase: 0,
            primary_burned: 0,
            dao_prev: Dao { total: 0, rate: 0, secondary: 0, occupied: 0 },
        };
        Summary { ledger, buffer: MaturityBuffer::new() }
    }

    /// Checks the block at height `next_block`. `reward` is the reward
    /// breakdown of the block that matures with it (height `next_block -
    /// MATURITY`); it is read only past the maturity delay.
    pub fn next(&mut self, block: &BlockRecord, reward: Option<RewardRecord>) -> (r: Result<
        (),
        Error,
    >)
        requires
            old(self).wf(),
        ensures
            match r {
                Ok(_) => step_spec(old(self)@.0, old(self)@.1, *block, reward) == Ok::<
                    (Ledger, Seq<Pending>),
                    Error,
                >(final(self)@) && final(self).wf(),
                Err(e) => step_spec(old(self)@.0, old(self)@.1, *block, reward) == Err::<
                    (Ledger, Seq<Pending>),
                    Error,
                >(e),
            },
    {
        let h = self.ledger.next_block;
        if h == u64::MAX {
            return Err(Error::ValueOutOfRange);
        }
        if block.transactions.len() == 0 {
            return Err(Error::MalformedChain { height: h });
        }
        let coinbase = match sum_capacities(&block.transactions[0]) {
            Some(v) => v,
            None => {
                return Err(Error::ValueOutOfRange);
            },
        };
        let snapshot = match decode_snapshot(block.dao.as_slice()) {
            Ok(d) => d,
            Err(e) => {
                return Err(e);
            },
        };
        if block.epoch_length <= MATURITY as u64 {
            return Err(Error::UnsupportedEpochLength { height: h });
        }
        let matured = self.buffer.push_and_maybe_mature(Pending { snapshot, coinbase });
        let mut l = self.ledger;
        l.next_block = h + 1;
        if h == 0 {
            l = match genesis(l, coinbase, snapshot) {
                Ok(l2) => l2,
                Err(e) => {
                    return Err(e);
                },
            };
        } else if h < MATURITY as u64 {
        } else {
            let m = match matured {
                Some(m) => m,
                None => {
                    return Err(Error::MalformedChain { height: h });
                },
            };
            if h == MATURITY as u64 {
                l.dao_prev = m.snapshot;
            } else {
                l = match settle(l, h, block, reward, m) {
                    Ok(l2) => l2,
                    Err(e) => {
                        return Err(e);
                    },
                };
            }
        }
        self.ledger = l;
        Ok(())
    }

    /// The running figures of the walk.
    pub fn ledger(&self) -> (r: Ledger)
        ensures
            r == self@.0,
    {
        self.ledger
    }

    /// The height the walk checks next.
    pub fn next_block(&self) -> (r: u64)
        ensures
            r == self@.0.next_block,
    {
        self.ledger.next_block
    }

    /// Whether the next block is past the maturity delay, so that its step
    /// reads a reward breakdown.
    pub fn needs_reward(&self) -> (r: bool)
        ensures
            r == (self@.0.next_block > MATURITY),
    {
        self.ledger.next_block > MATURITY as u64
    }

    /// Adds a reward's parts to the run totals and its primary issuance to
    /// the current epoch.
    pub fn add_cellbase(&mut self, cellbase: Cellbase) -> (r: Result<(), Error>)
        ensures
            final(self)@.1 == old(self)@.1,
            credit_reward_spec(old(self)@.0, cellbase) is Some ==> r == Ok::<(), Error>(())
                && Some(final(self)@.0) == credit_reward_spec(old(self)@.0, cellbase),
            credit_reward_spec(old(self)@.0, cellbase) is None ==> r == Err::<(), Error>(
                Error::ValueOutOfRange,
            ) && final(self)@ == old(self)@,
    {
        if cellbase.primary > u64::MAX - self.ledger.epoch.epoch_primary {
            return Err(Error::ValueOutOfRange);
        }
        match self.ledger.add_cellbase(cellbase) {
            Ok(_) => {},
            Err(e) => {
                return Err(e);
            },
        }
        self.ledger.epoch.epoch_primary = self.ledger.epoch.epoch_primary + cellbase.primary;
        Ok(())
    }

    /// Issuance the chain should have recorded so far.
    pub fn total_issuance(&self) -> (r: u128)
        ensures
            r as int == total_issuance_spec(self@.0),
    {
        self.ledger.total_issuance()
    }
}

proof fn lemma_run_stops(
    l: Ledger,
    q: Seq<Pending>,
    blocks: Seq<BlockRecord>,
    rewards: Seq<Option<RewardRecord>>,
    i: nat,
    n: nat,
)
    requires
        i <= n,
        run_spec(l, q, blocks, rewards, i) is Err,
    ensures
        run_spec(l, q, blocks, rewards, n) == run_spec(l, q, blocks, rewards, i),
    decreases n,
{
    if n > i {
        lemma_run_stops(l, q, blocks, rewards, i, (n - 1) as nat);
    }
}

/// Walks `blocks` from genesis, the block at index `i` standing at height
/// `i` and `rewards[i]` being the reward breakdown of the block that matures
/// with it, and stops at the first violation.
pub fn execute(blocks: &Vec<BlockRecord>, rewards: &Vec<Option<RewardRecord>>) -> (r: Result<
    Summary,
    Error,
>)
    ensures
        match r {
            Ok(s) => run_spec(
                initial_ledger(),
                Seq::empty(),
                blocks@,
                rewards@,
                blocks@.len(),
            ) == Ok::<(Ledger, Seq<Pending>), Error>(s@),
            Err(e) => run_spec(
                initial_ledger(),
                Seq::empty(),
                blocks@,
                rewards@,
                blocks@.len(),
            ) == Err::<(Ledger, Seq<Pending>), Error>(e),
        },
{
    let mut summary = Summary::new();
    let mut i: usize = 0;
    while i < blocks.len()
        invariant
            i <= blocks@.len(),
            summary.wf(),
            run_spec(initial_ledger(), Seq::empty(), blocks@, rewards@, i as nat) == Ok::<
                (Ledger, Seq<Pending>),
                Error,
            >(summary@),
        decreases blocks@.len() - i,
    {
        let reward = if i < rewards.len() {
            rewards[i]
        } else {
            None
        };
        match summary.next(&blocks[i], reward) {
            Ok(_) => {},
            Err(e) => {
                proof {
                    lemma_run_stops(
                        initial_ledger(),
                        Seq::empty(),
                        blocks@,
                        rewards@,
                        (i + 1) as nat,
                        blocks@.len(),
                    );
                }
                return Err(e);
            },
        }
        i = i + 1;
    }
    Ok(summary)
}

/// The genesis block is accepted whenever its accumulator total covers the
/// coinbase outputs and the secondary issuance; the burn is then
/// `total - coinbase - secondary`, and the issuance identity holds on the
/// ledger that genesis leaves.
pub proof fn lemma_genesis_identity(coinbase: u64, snapshot: Dao)
    requires
        snapshot.total >= coinbase + snapshot.secondary,
    ensures
        genesis_spec(initial_ledger(), coinbase, snapshot) is Ok,
        ({
            let g = genesis_spec(initial_ledger(), coinbase, snapshot)->Ok_0;
            &&& g.primary_burned == snapshot.total - coinbase - snapshot.secondary
            &&& snapshot.total == total_issuance_spec(g)
        }),
{
}

/// What a walk keeps true of its figures once genesis has been read: the
/// issuance identity (against the genesis snapshot while the buffer fills,
/// against the matured baseline after), epoch accumulators bounded by the run
/// totals, and the reward total made of its parts.
pub open spec fn ledger_consistent(l: Ledger, q: Seq<Pending>) -> bool {
    &&& 1 <= l.next_block
    &&& buffer_depth_ok(l, q)
    &&& l.epoch.epoch_primary <= l.total_primary
    &&& l.epoch.epoch_secondary <= l.total_secondary
    &&& l.total == l.total_primary + l.total_miner_secondary + l.total_tx_fee
        + l.total_proposal_reward
    &&& l.next_block <= MATURITY ==> q[0].snapshot.total == total_issuance_spec(l)
    &&& l.next_block > MATURITY ==> l.dao_prev.total == total_issuance_spec(l)
}

/// The reward paid for matured snapshot `d` meets the reward-sum, coinbase and
/// secondary-split identities, the accumulator grew by at least the primary
/// issuance, the run's reward total has room for it, and a due epoch check
/// finds the expected amounts.
pub open spec fn reward_consistent(
    l: Ledger,
    d: Dao,
    block: BlockRecord,
    coinbase: int,
    rec: RewardRecord,
) -> bool {
    let c = cellbase_of(rec);
    let prev = l.dao_prev;
    let block_secondary = d.total - prev.total - c.primary;
    &&& record_fits(rec)
    &&& c.total == c.parts_sum()
    &&& coinbase == c.total
    &&& block_secondary >= 0
    &&& prev.total > 0
    &&& split_spec(block_secondary, prev.occupied as int, prev.total as int) == c.secondary
    &&& l.total + c.total <= u64::MAX
    &&& block.epoch_index == MATURITY ==> {
        &&& block.epoch_number > 0
        &&& block.epoch_number > 1 ==> l.epoch.epoch_primary == l.epoch.epoch_primary_expected
            && l.epoch.epoch_secondary == l.epoch.epoch_secondary_expected
    }
}

/// The block the walk reads next is well formed and, past the maturity delay,
/// comes with a reward consistent with the snapshot that matures.
pub open spec fn block_consistent(
    l: Ledger,
    q: Seq<Pending>,
    block: BlockRecord,
    reward: Option<RewardRecord>,
) -> bool {
    let txs = block.transactions@;
    let snapshot = snapshot_of(block.dao@);
    &&& l.next_block < u64::MAX
    &&& txs.len() > 0
    &&& seq_sum(txs[0]@) <= u64::MAX
    &&& block.dao@.len() == SNAPSHOT_LEN
    &&& block.epoch_length > MATURITY
    &&& l.next_block == 0 ==> genesis_burn(
        snapshot.total as int,
        seq_sum(txs[0]@),
        snapshot.secondary as int,
    ) >= 0
    &&& l.next_block > MATURITY ==> reward is Some && reward_consistent(
        l,
        q[0].snapshot,
        block,
        q[0].coinbase as int,
        reward->Some_0,
    )
}

/// A walk state from which the next step may start: the fresh one, or one
/// that keeps the figures consistent.
pub open spec fn walk_state_ok(l: Ledger, q: Seq<Pending>) -> bool {
    (l == initial_ledger() && q.len() == 0) || ledger_consistent(l, q)
}

proof fn lemma_consistent_step(
    l: Ledger,
    q: Seq<Pending>,
    block: BlockRecord,
    reward: Option<RewardRecord>,
)
    requires
        walk_state_ok(l, q),
        block_consistent(l, q, block, reward),
    ensures
        step_spec(l, q, block, reward) is Ok,
        ledger_consistent(
            step_spec(l, q, block, reward)->Ok_0.0,
            step_spec(l, q, block, reward)->Ok_0.1,
        ),
{
    let h = l.next_block;
    let snapshot = snapshot_of(block.dao@);
    let q1 = q.push(Pending { snapshot, coinbase: seq_sum(block.transactions@[0]@) as u64 });
    lemma_seq_sum_nonneg(block.transactions@[0]@);
    let l1 = Ledger { next_block: (h + 1) as u64, ..l };
    if h > 0 {
        assert(q1[0] == q[0]);
        if h >= MATURITY {
            assert(q1.len() > MATURITY);
            assert(q1.drop_first().len() == MATURITY);
        }
        if h > MATURITY {
            let rec = reward->Some_0;
            let c = cellbase_of(rec);
            let d = q[0].snapshot;
            let prev = l.dao_prev;
            let bs = d.total - prev.total - c.primary;
            assert(l.total_primary + c.primary + l.total_secondary + bs <= d.total);
            let epoch = epoch_step_spec(l1, h, block)->Ok_0;
            assert(epoch.epoch_primary <= l.total_primary);
            assert(add_cellbase_spec(l1, c) is Some);
        }
    }
}

/// A walk from genesis over blocks each of which is consistent with the
/// figures the walk has reached completes every height without error. The
/// issuance identity is not assumed: consistent rewards keep it.
pub proof fn lemma_consistent_chain_completes(
    blocks: Seq<BlockRecord>,
    rewards: Seq<Option<RewardRecord>>,
    n: nat,
)
    requires
        n <= blocks.len(),
        forall|i: nat|
            i < n && (#[trigger] run_spec(initial_ledger(), Seq::empty(), blocks, rewards, i)) is Ok
                ==> block_consistent(
                run_spec(initial_ledger(), Seq::empty(), blocks, rewards, i)->Ok_0.0,
                run_spec(initial_ledger(), Seq::empty(), blocks, rewards, i)->Ok_0.1,
                blocks[i as int],
                reward_at(rewards, i as int),
            ),
    ensures
        run_spec(initial_ledger(), Seq::empty(), blocks, rewards, n) is Ok,
        walk_state_ok(
            run_spec(initial_ledger(), Seq::empty(), blocks, rewards, n)->Ok_0.0,
            run_spec(initial_ledger(), Seq::empty(), blocks, rewards, n)->Ok_0.1,
        ),
    decreases n,
{
    if n > 0 {
        let m = (n - 1) as nat;
        lemma_consistent_chain_completes(blocks, rewards, m);
        let s = run_spec(initial_ledger(), Seq::empty(), blocks, rewards, m)->Ok_0;
        lemma_consistent_step(s.0, s.1, blocks[m as int], reward_at(rewards, m as int));
    }
}

/// Where the matured baseline's capacity is fully occupied, two matured
/// snapshots whose totals differ cannot both pass the checks of one step with
/// the same reward and coinbase.
pub proof fn lemma_total_change_detected_when_fully_occupied(
    l: Ledger,
    epoch: EpochAccountant,
    height: u64,
    coinbase: u64,
    c: Cellbase,
    d: Dao,
    e: Dao,
)
    requires
        l.dao_prev.occupied == l.dao_prev.total,
        d.total != e.total,
    ensures
        !(count_matured_spec(l, epoch, height, coinbase, c, d) is Ok && count_matured_spec(
            l,
            epoch,
            height,
            coinbase,
            c,
            e,
        ) is Ok),
{
    let t = l.dao_prev.total as int;
    if t > 0 {
        let bd = d.total - t - c.primary;
        let be = e.total - t - c.primary;
        lemma_div_multiples_vanish(bd, t);
        lemma_div_multiples_vanish(be, t);
        assert(bd * t == t * bd && be * t == t * be) by (nonlinear_arith);
    }
}

/// The buffer entry of a block: its snapshot and its coinbase total.
pub open spec fn pending_of(block: BlockRecord) -> Pending {
    Pending {
        snapshot: snapshot_of(block.dao@),
        coinbase: seq_sum(block.transactions@[0]@) as u64,
    }
}

/// The buffer entries of the first `n` blocks.
pub open spec fn pendings(blocks: Seq<BlockRecord>, n: nat) -> Seq<Pending> {
    Seq::new(n, |i: int| pending_of(blocks[i]))
}

/// A walk from genesis that has checked heights `0..n` without error stands at
/// height `n` and holds in its buffer the entries of the last
/// `min(n, MATURITY)` blocks, in order. Once it has checked height
/// `MATURITY`, its matured baseline is the snapshot of the block `MATURITY`
/// below the last one checked: each step from there on matures exactly one
/// entry, and no earlier step matures any.
pub proof fn lemma_walk_buffer(
    blocks: Seq<BlockRecord>,
    rewards: Seq<Option<RewardRecord>>,
    n: nat,
)
    requires
        n <= blocks.len(),
        run_spec(initial_ledger(), Seq::empty(), blocks, rewards, n) is Ok,
    ensures
        ({
            let s = run_spec(initial_ledger(), Seq::empty(), blocks, rewards, n)->Ok_0;
            &&& s.0.next_block == n
            &&& s.1 == drive(pendings(blocks, n))
            &&& s.1 == pendings(blocks, n).subrange(
                n - (if n < MATURITY { n as int } else { MATURITY as int }),
                n as int,
            )
            &&& n > MATURITY ==> s.0.dao_prev == pending_of(blocks[n - 1 - MATURITY]).snapshot
        }),
    decreases n,
{
    lemma_maturity_window(pendings(blocks, n));
    if n > 0 {
        let m = (n - 1) as nat;
        if run_spec(initial_ledger(), Seq::empty(), blocks, rewards, m) is Err {
            lemma_run_stops(initial_ledger(), Seq::empty(), blocks, rewards, m, n);
        }
        lemma_walk_buffer(blocks, rewards, m);
        lemma_maturity_window(pendings(blocks, m));
        assert(pendings(blocks, n).drop_last() =~= pendings(blocks, m));
        assert(pendings(blocks, n).last() == pending_of(blocks[m as int]));
    }
}

/// The first step of a walk, on a well-formed genesis block whose
/// accumulator total covers its coinbase outputs and secondary issuance,
/// succeeds; the ledger then holds the coinbase total, the burn
/// `total - coinbase - secondary`, the genesis secondary issuance, and an
/// issuance identity that holds.
pub proof fn lemma_genesis_step(block: BlockRecord, reward: Option<RewardRecord>)
    requires
        block.transactions@.len() > 0,
        seq_sum(block.transactions@[0]@) <= u64::MAX,
        block.dao@.len() == SNAPSHOT_LEN,
        block.epoch_length > MATURITY,
        snapshot_of(block.dao@).total >= seq_sum(block.transactions@[0]@) + snapshot_of(
            block.dao@,
        ).secondary,
    ensures
        step_spec(initial_ledger(), Seq::empty(), block, reward) is Ok,
        ({
            let l = step_spec(initial_ledger(), Seq::empty(), block, reward)->Ok_0.0;
            let d = snapshot_of(block.dao@);
            let coinbase = seq_sum(block.transactions@[0]@);
            &&& l.genesis_cellbase == coinbase
            &&& l.primary_burned == d.total - coinbase - d.secondary
            &&& l.total_secondary == d.secondary
            &&& total_issuance_spec(l) == d.total
        }),
{
    lemma_seq_sum_nonneg(block.transactions@[0]@);
}

} // verus!
