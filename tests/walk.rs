use eagle_eye::cellbase::{Cellbase, RewardRecord};
use eagle_eye::dao::Dao;
use eagle_eye::error::Error;
use eagle_eye::issuance::{execute, BlockRecord, Summary};

const EPOCH_LEN: u64 = 20;
const PRIMARY: u64 = 100;
const GENESIS_COINBASE: u64 = 1000;
const GENESIS_SECONDARY: u64 = 40;
const BURNED: u64 = 100;

struct Chain {
    blocks: Vec<BlockRecord>,
    rewards: Vec<Option<RewardRecord>>,
    snapshots: Vec<Dao>,
}

/// A chain of `n` blocks that meets every identity, block `k >= 1` issuing
/// `PRIMARY` and `secondary_of(k)`, genesis counting `secondary_of(0)` as its
/// secondary issuance.
fn build_chain(n: u64, secondary_of: &dyn Fn(u64) -> u64) -> Chain {
    let mut snapshots = Vec::new();
    let mut total = GENESIS_COINBASE + secondary_of(0) + BURNED;
    let mut secondary = secondary_of(0);
    for k in 0..n {
        if k > 0 {
            total += PRIMARY + secondary_of(k);
            secondary += secondary_of(k);
        }
        snapshots.push(Dao { total, rate: 7, secondary, occupied: total / 2 });
    }
    let reward_of = |m: usize| {
        let prev = snapshots[m - 1];
        let bs = secondary_of(m as u64) as u128;
        let miner = (bs * prev.occupied as u128 / prev.total as u128) as u64;
        RewardRecord {
            total: (PRIMARY + miner + 8) as u128,
            primary: PRIMARY as u128,
            secondary: miner as u128,
            tx_fee: 5,
            proposal_reward: 3,
        }
    };
    let mut blocks = Vec::new();
    let mut rewards = Vec::new();
    for h in 0..n {
        let outputs = if h == 0 {
            vec![GENESIS_COINBASE]
        } else {
            let rec = reward_of(h as usize);
            vec![PRIMARY, rec.total as u64 - PRIMARY]
        };
        let reward = if h > 11 { Some(reward_of((h - 11) as usize)) } else { None };
        blocks.push(BlockRecord {
            epoch_number: h / EPOCH_LEN,
            epoch_index: h % EPOCH_LEN,
            epoch_length: EPOCH_LEN,
            dao: snapshots[h as usize].to_bytes(),
            transactions: vec![outputs, vec![1, 2, 3]],
        });
        rewards.push(reward);
    }
    Chain { blocks, rewards, snapshots }
}

fn steady(_: u64) -> u64 {
    40
}

#[test]
fn synthetic_chain_completes() {
    let chain = build_chain(80, &steady);
    let summary = execute(&chain.blocks, &chain.rewards).unwrap();
    let l = summary.ledger();
    assert_eq!(l.next_block, 80);
    assert_eq!(l.genesis_cellbase, GENESIS_COINBASE);
    assert_eq!(l.primary_burned, BURNED);
    assert_eq!(l.total_primary, 68 * PRIMARY);
    assert_eq!(l.total_secondary, GENESIS_SECONDARY + 68 * 40);
    assert_eq!(l.total_miner_secondary, 68 * 20);
    assert_eq!(l.total_tx_fee, 68 * 5);
    assert_eq!(l.total_proposal_reward, 68 * 3);
    assert_eq!(l.total, 68 * (PRIMARY + 28));
    assert_eq!(l.dao_prev, chain.snapshots[68]);
    assert_eq!(summary.total_issuance(), chain.snapshots[68].total as u128);
    assert_eq!(l.epoch.epoch_primary_expected, 20 * PRIMARY);
    assert_eq!(l.epoch.epoch_secondary_expected, 20 * 40);
}

#[test]
fn varying_secondary_chain_completes() {
    let chain = build_chain(75, &|k| 30 + (k % 20) * 3);
    assert!(execute(&chain.blocks, &chain.rewards).is_ok());
}

#[test]
fn stepwise_walk_matches_execute() {
    let chain = build_chain(45, &steady);
    let mut s = Summary::new();
    for h in 0..45usize {
        assert_eq!(s.next_block(), h as u64);
        assert_eq!(s.needs_reward(), h > 11);
        s.next(&chain.blocks[h], chain.rewards[h]).unwrap();
    }
    let all = execute(&chain.blocks, &chain.rewards).unwrap();
    assert_eq!(s.ledger(), all.ledger());
}

#[test]
fn genesis_burn_example() {
    let genesis = BlockRecord {
        epoch_number: 0,
        epoch_index: 0,
        epoch_length: 1000,
        dao: Dao { total: 1200, rate: 0, secondary: 200, occupied: 0 }.to_bytes(),
        transactions: vec![vec![600, 400]],
    };
    let s = execute(&vec![genesis], &vec![]).unwrap();
    let l = s.ledger();
    assert_eq!(l.primary_burned, 0);
    assert_eq!(l.genesis_cellbase, 1000);
    assert_eq!(l.total_secondary, 200);
    assert_eq!(l.epoch.epoch_secondary, 200);
    assert_eq!(s.total_issuance(), 1200);
}

#[test]
fn genesis_total_below_outputs() {
    let genesis = BlockRecord {
        epoch_number: 0,
        epoch_index: 0,
        epoch_length: 1000,
        dao: Dao { total: 1199, rate: 0, secondary: 200, occupied: 0 }.to_bytes(),
        transactions: vec![vec![1000]],
    };
    assert_eq!(execute(&vec![genesis], &vec![]).err(), Some(Error::ValueOutOfRange));
}

#[test]
fn epoch_off_by_one_is_caught() {
    let chain = build_chain(60, &|k| if k == 25 { 41 } else { 40 });
    assert!(execute(&chain.blocks[..51].to_vec(), &chain.rewards).is_ok());
    let r = execute(&chain.blocks, &chain.rewards);
    assert_eq!(r.err(), Some(Error::EpochAccountingMismatch { epoch: 1 }));
}

#[test]
fn epoch_primary_off_by_one_is_caught() {
    let mut chain = build_chain(60, &steady);
    // block 25 is paid one unit less of primary issuance, which shows up as
    // one more unit of secondary issuance
    let rec = chain.rewards[36].unwrap();
    chain.rewards[36] = Some(RewardRecord { primary: rec.primary - 1, total: rec.total - 1, ..rec });
    chain.blocks[25].transactions[0] = vec![PRIMARY - 1, 28];
    let r = execute(&chain.blocks, &chain.rewards);
    assert_eq!(r.err(), Some(Error::EpochAccountingMismatch { epoch: 1 }));
}

#[test]
fn mutated_total_byte_is_caught() {
    let chain = build_chain(60, &steady);
    for block in [15usize, 30, 40] {
        for byte in 0..8usize {
            for bit in [0x01u8, 0x80] {
                let mut bad = chain.blocks.clone();
                bad[block].dao[byte] ^= bit;
                assert!(execute(&bad, &chain.rewards).is_err(), "block {} byte {}", block, byte);
            }
        }
    }
}

#[test]
fn mutated_total_low_bit_gives_split_mismatch() {
    let chain = build_chain(60, &steady);
    let mut bad = chain.blocks.clone();
    bad[15].dao[0] ^= 1;
    assert_eq!(
        execute(&bad, &chain.rewards).err(),
        Some(Error::SecondarySplitMismatch { height: 16 })
    );
}

#[test]
fn rate_field_is_carried_through() {
    let chain = build_chain(40, &steady);
    let mut other = chain.blocks.clone();
    other[15].dao[8] ^= 0xff;
    let s = execute(&other, &chain.rewards).unwrap();
    assert_eq!(s.ledger().dao_prev.rate, 7);
}

#[test]
fn missing_coinbase_transaction() {
    let mut chain = build_chain(20, &steady);
    chain.blocks[5].transactions = vec![];
    assert_eq!(
        execute(&chain.blocks, &chain.rewards).err(),
        Some(Error::MalformedChain { height: 5 })
    );
}

#[test]
fn missing_reward_record() {
    let chain = build_chain(20, &steady);
    let rewards = chain.rewards[..14].to_vec();
    assert_eq!(
        execute(&chain.blocks, &rewards).err(),
        Some(Error::ProviderError)
    );
}

#[test]
fn wrong_accumulator_length() {
    let mut chain = build_chain(20, &steady);
    chain.blocks[3].dao.push(0);
    assert_eq!(execute(&chain.blocks, &chain.rewards).err(), Some(Error::MalformedRecord));
}

#[test]
fn coinbase_sum_overflow() {
    let mut chain = build_chain(20, &steady);
    chain.blocks[2].transactions[0] = vec![u64::MAX, 1];
    assert_eq!(execute(&chain.blocks, &chain.rewards).err(), Some(Error::ValueOutOfRange));
}

#[test]
fn reward_sum_mismatch() {
    let mut chain = build_chain(30, &steady);
    let rec = chain.rewards[20].unwrap();
    chain.rewards[20] = Some(RewardRecord { tx_fee: rec.tx_fee + 1, ..rec });
    assert_eq!(
        execute(&chain.blocks, &chain.rewards).err(),
        Some(Error::RewardSumMismatch { height: 9 })
    );
}

#[test]
fn reward_out_of_range_on_chain() {
    let mut chain = build_chain(30, &steady);
    let rec = chain.rewards[20].unwrap();
    chain.rewards[20] = Some(RewardRecord { proposal_reward: 1u128 << 64, ..rec });
    assert_eq!(execute(&chain.blocks, &chain.rewards).err(), Some(Error::ValueOutOfRange));
}

#[test]
fn coinbase_reward_mismatch() {
    let mut chain = build_chain(30, &steady);
    chain.blocks[9].transactions[0].push(1);
    assert_eq!(
        execute(&chain.blocks, &chain.rewards).err(),
        Some(Error::CoinbaseRewardMismatch { height: 9 })
    );
}

#[test]
fn secondary_split_mismatch() {
    let mut chain = build_chain(30, &steady);
    let rec = chain.rewards[20].unwrap();
    chain.rewards[20] = Some(RewardRecord {
        secondary: rec.secondary + 1,
        tx_fee: rec.tx_fee - 1,
        ..rec
    });
    assert_eq!(
        execute(&chain.blocks, &chain.rewards).err(),
        Some(Error::SecondarySplitMismatch { height: 9 })
    );
}

#[test]
fn issuance_identity_mismatch() {
    let chain = build_chain(30, &steady);
    let mut s = Summary::new();
    for h in 0..20usize {
        s.next(&chain.blocks[h], chain.rewards[h]).unwrap();
    }
    let extra = Cellbase { total: 0, primary: 1, secondary: 0, tx_fee: 0, proposal_reward: 0 };
    s.add_cellbase(extra).unwrap();
    assert_eq!(s.ledger().total_primary, 8 * PRIMARY + 1);
    assert_eq!(
        s.next(&chain.blocks[20], chain.rewards[20]),
        Err(Error::IssuanceIdentityMismatch { height: 9 })
    );
}

#[test]
fn accumulator_decrease_is_out_of_range() {
    let mut chain = build_chain(30, &steady);
    let mut d = chain.snapshots[9];
    d.total = chain.snapshots[8].total;
    chain.blocks[9].dao = d.to_bytes();
    assert_eq!(execute(&chain.blocks, &chain.rewards).err(), Some(Error::ValueOutOfRange));
}

#[test]
fn short_chain_only_buffers() {
    let chain = build_chain(12, &steady);
    let s = execute(&chain.blocks, &chain.rewards).unwrap();
    let l = s.ledger();
    assert_eq!(l.next_block, 12);
    assert_eq!(l.dao_prev, chain.snapshots[0]);
    assert_eq!(l.total_primary, 0);
    assert!(execute(&vec![], &vec![]).is_ok());
}

#[test]
fn short_epoch_is_unsupported() {
    let mut chain = build_chain(20, &steady);
    chain.blocks[4].epoch_length = 11;
    assert_eq!(
        execute(&chain.blocks, &chain.rewards).err(),
        Some(Error::UnsupportedEpochLength { height: 4 })
    );
    chain.blocks[4].epoch_length = 12;
    assert!(execute(&chain.blocks, &chain.rewards).is_ok());
}

#[test]
fn coinbase_of_current_block_is_not_compared() {
    let mut chain = build_chain(35, &steady);
    chain.blocks[20].transactions[0].push(1);
    assert!(execute(&chain.blocks[..21].to_vec(), &chain.rewards).is_ok());
    assert_eq!(
        execute(&chain.blocks, &chain.rewards).err(),
        Some(Error::CoinbaseRewardMismatch { height: 20 })
    );
}

#[test]
fn add_cellbase_counts_epoch_primary() {
    let mut s = Summary::new();
    let c = Cellbase { total: 10, primary: 1, secondary: 2, tx_fee: 3, proposal_reward: 4 };
    s.add_cellbase(c).unwrap();
    let l = s.ledger();
    assert_eq!(l.total, 10);
    assert_eq!(l.total_primary, 1);
    assert_eq!(l.epoch.epoch_primary, 1);
    assert_eq!(l.total_miner_secondary, 2);
    assert_eq!(l.total_tx_fee, 3);
    assert_eq!(l.total_proposal_reward, 4);
    let big = Cellbase { total: 0, primary: u64::MAX, secondary: 0, tx_fee: 0, proposal_reward: 0 };
    assert_eq!(s.add_cellbase(big), Err(Error::ValueOutOfRange));
    assert_eq!(s.ledger(), l);
}
