use melblkidx::coinquery::{Bound, CoinQuery};
use melblkidx::idmap::IdMap;
use melblkidx::ingest::{reward_id, IngestError};
use melblkidx::pass::IngestPass;
use melblkidx::types::{
    Block, BlockHeader, CoinData, CoinID, CoinSpendInfo, Denom, HashVal, HeightInfo, Transaction,
    TxKind,
};
use melblkidx::Indexer;

fn hash(n: u8) -> HashVal {
    HashVal([n; 32])
}

fn coin(value: u128, denom: Denom) -> CoinData {
    CoinData {
        covhash: hash(50),
        value,
        denom,
        additional_data: vec![],
    }
}

fn tx(kind: TxKind, id: u8, inputs: Vec<CoinID>, outputs: Vec<CoinData>) -> Transaction {
    Transaction {
        kind,
        txhash: hash(id),
        inputs,
        outputs,
        fee: 0,
        covenants: vec![],
        data: vec![],
        sigs: vec![],
    }
}

fn block(height: u64, transactions: Vec<Transaction>) -> Block {
    Block {
        header: BlockHeader {
            height,
            hash: hash(100 + height as u8),
            fee_pool: 10 * height as u128,
            fee_multiplier: 2,
            dosc_speed: 3,
            stakes_hash: hash(0),
        },
        transactions,
    }
}

fn snapshot(entries: Vec<(CoinID, CoinData)>) -> IdMap<CoinData> {
    let mut map = IdMap::new();
    for (id, data) in entries {
        map.insert(id, data);
    }
    map
}

/// An indexer with one coin of 1_000_000 MEL, the proposer's reward of height 1.
fn after_first_block() -> Indexer {
    let mut indexer = Indexer::new();
    let snap = snapshot(vec![(reward_id(1), coin(1_000_000, Denom::Mel))]);
    indexer.ingest_block(&block(1, vec![]), &snap).unwrap();
    indexer
}

/// The same, with the coin spent at height 5.
fn after_spend() -> Indexer {
    let mut indexer = after_first_block();
    let spend = tx(TxKind::Normal, 9, vec![reward_id(1)], vec![]);
    indexer
        .ingest_block(&block(5, vec![spend]), &snapshot(vec![]))
        .unwrap();
    indexer
}

#[test]
fn fresh_indexer_is_empty() {
    let indexer = Indexer::new();
    assert_eq!(indexer.max_height(), 0);
    assert!(indexer.query_coins().iter(indexer.coins()).is_empty());
    let mut tracker = indexer.query_coins().balance_tracker();
    assert_eq!(tracker.balance_at(indexer.coins(), 0), Some(0));
    assert_eq!(indexer.height_info(0), None);
    assert_eq!(indexer.txhash_to_height(hash(1)), None);
    assert_eq!(indexer.blkhash_to_height(hash(1)), None);
}

#[test]
fn one_coin_of_a_million_mel_at_height_one() {
    let indexer = after_first_block();
    let found = indexer
        .query_coins()
        .denom(Denom::Mel)
        .unspent()
        .iter(indexer.coins());
    assert_eq!(found.len(), 1);
    assert_eq!(found[0].coin_data.value, 1_000_000);
    assert_eq!(found[0].create_height, 1);
    assert_eq!(found[0].spend_info, None);
    let mut tracker = indexer.query_coins().denom(Denom::Mel).balance_tracker();
    assert_eq!(tracker.balance_at(indexer.coins(), 1), Some(1_000_000));
    assert_eq!(tracker.balance_at(indexer.coins(), 0), Some(0));
    assert_eq!(indexer.max_height(), 1);
}

#[test]
fn coin_spent_at_height_five() {
    let indexer = after_spend();
    let all = indexer.query_coins().iter(indexer.coins());
    assert_eq!(all.len(), 1);
    assert_eq!(
        all[0].spend_info,
        Some(CoinSpendInfo {
            spend_txhash: hash(9),
            spend_index: 0,
            spend_height: 5,
        })
    );
    assert!(indexer.query_coins().unspent().iter(indexer.coins()).is_empty());
    let mut tracker = indexer.query_coins().denom(Denom::Mel).balance_tracker();
    assert_eq!(tracker.balance_at(indexer.coins(), 4), Some(1_000_000));
    assert_eq!(tracker.balance_at(indexer.coins(), 5), Some(0));
    assert_eq!(indexer.txhash_to_height(hash(9)), Some(5));
    assert_eq!(indexer.txhash_to_height(hash(8)), None);
}

#[test]
fn created_and_spent_coin_is_found_by_both_heights() {
    let indexer = after_spend();
    let created = indexer
        .query_coins()
        .create_height_range(Bound::Included(1), Bound::Included(1))
        .iter(indexer.coins());
    let spent = indexer
        .query_coins()
        .spend_height_range(Bound::Included(5), Bound::Included(5))
        .iter(indexer.coins());
    assert_eq!(created.len(), 1);
    assert_eq!(created, spent);
    assert_eq!(created[0].create_txhash, reward_id(1).txhash);
}

#[test]
fn swap_output_is_stored_as_the_snapshot_reports_it() {
    let mut indexer = Indexer::new();
    let swap = tx(
        TxKind::Swap,
        4,
        vec![],
        vec![coin(70, Denom::Mel), coin(5, Denom::Mel)],
    );
    let snap = snapshot(vec![(CoinID::new(hash(4), 0), coin(31, Denom::Sym))]);
    indexer.ingest_block(&block(10, vec![swap]), &snap).unwrap();
    let first = indexer
        .query_coins()
        .create_txhash(hash(4))
        .create_index(0)
        .iter(indexer.coins());
    assert_eq!(first.len(), 1);
    assert_eq!(first[0].coin_data.denom, Denom::Sym);
    assert_eq!(first[0].coin_data.value, 31);
    assert!(CoinQuery::new()
        .denom(Denom::Mel)
        .create_index(0)
        .iter(indexer.coins())
        .is_empty());
}

#[test]
fn withdrawal_with_two_outputs_stores_up_to_three_coins() {
    let withdraw = || {
        tx(
            TxKind::LiqWithdraw,
            6,
            vec![],
            vec![coin(1, Denom::Mel), coin(2, Denom::Mel)],
        )
    };
    let mut all_three = Indexer::new();
    let snap = snapshot(vec![
        (CoinID::new(hash(6), 0), coin(11, Denom::Mel)),
        (CoinID::new(hash(6), 1), coin(12, Denom::Sym)),
        (CoinID::new(hash(6), 2), coin(13, Denom::Erg)),
    ]);
    all_three.ingest_block(&block(20, vec![withdraw()]), &snap).unwrap();
    let mut stored: Vec<(u8, u128)> = all_three
        .coins()
        .iter()
        .map(|c| (c.create_index, c.coin_data.value))
        .collect();
    stored.sort();
    assert_eq!(stored, vec![(0, 11), (1, 12), (2, 13)]);

    let mut only_two = Indexer::new();
    let snap = snapshot(vec![
        (CoinID::new(hash(6), 0), coin(11, Denom::Mel)),
        (CoinID::new(hash(6), 2), coin(13, Denom::Erg)),
    ]);
    only_two.ingest_block(&block(20, vec![withdraw()]), &snap).unwrap();
    let mut stored: Vec<(u8, u128)> = only_two
        .coins()
        .iter()
        .map(|c| (c.create_index, c.coin_data.value))
        .collect();
    stored.sort();
    assert_eq!(stored, vec![(0, 11), (2, 13)]);
}

#[test]
fn heights_are_recorded_with_their_header() {
    let indexer = after_spend();
    assert_eq!(indexer.max_height(), 5);
    assert_eq!(
        indexer.height_info(5),
        Some(HeightInfo {
            height: 5,
            blkhash: hash(105),
            fee_pool: 50,
            fee_multiplier: 2,
            dosc_speed: 3,
        })
    );
    assert_eq!(indexer.height_info(1).map(|i| i.blkhash), Some(hash(101)));
    assert_eq!(indexer.height_info(3), None);
    assert_eq!(indexer.blkhash_to_height(hash(101)), Some(1));
    assert_eq!(indexer.blkhash_to_height(hash(105)), Some(5));
    assert_eq!(indexer.blkhash_to_height(hash(102)), None);
}

#[test]
fn block_at_the_highest_height_may_come_again() {
    let mut indexer = after_spend();
    let before = indexer.coins().clone();
    let spend = tx(TxKind::Normal, 9, vec![reward_id(1)], vec![]);
    indexer
        .ingest_block(&block(5, vec![spend]), &snapshot(vec![]))
        .unwrap();
    assert_eq!(indexer.coins(), &before);
    assert_eq!(indexer.max_height(), 5);
}

#[test]
fn block_below_the_highest_height_is_refused() {
    let mut indexer = after_spend();
    let before = indexer.coins().clone();
    let late = tx(TxKind::Normal, 3, vec![], vec![coin(1, Denom::Mel)]);
    assert_eq!(
        indexer
            .ingest_block(&block(4, vec![late]), &snapshot(vec![]))
            .err(),
        Some(IngestError::OutOfOrder)
    );
    assert_eq!(indexer.coins(), &before);
    assert_eq!(indexer.height_info(4), None);
}

#[test]
fn block_with_too_many_outputs_changes_nothing() {
    let mut indexer = after_first_block();
    let over = tx(TxKind::Normal, 3, vec![], vec![coin(1, Denom::Mel); 300]);
    assert_eq!(
        indexer
            .ingest_block(&block(2, vec![over]), &snapshot(vec![]))
            .err(),
        Some(IngestError::TooManyOutputs)
    );
    assert_eq!(indexer.coins().len(), 1);
    assert_eq!(indexer.max_height(), 1);
}

#[test]
fn no_coin_is_spent_before_it_is_created() {
    let mut indexer = after_first_block();
    let make = tx(TxKind::Normal, 2, vec![], vec![coin(5, Denom::Mel), coin(6, Denom::Sym)]);
    // Spends a coin of its own block, one of an earlier block, and one that
    // does not exist.
    let take = tx(
        TxKind::Normal,
        3,
        vec![CoinID::new(hash(2), 1), reward_id(1), CoinID::new(hash(77), 0)],
        vec![coin(7, Denom::Mel)],
    );
    indexer
        .ingest_block(&block(2, vec![make, take]), &snapshot(vec![]))
        .unwrap();
    assert_eq!(indexer.coins().len(), 4);
    for c in indexer.coins().iter() {
        if let Some(s) = c.spend_info {
            assert!(s.spend_height >= c.create_height);
        }
    }
    let spent = indexer.query_coins().spend_txhash(hash(3)).iter(indexer.coins());
    assert_eq!(spent.len(), 2);
    assert_eq!(indexer.txhash_to_height(hash(3)), Some(2));
}

#[test]
fn passes_leave_no_gap_in_the_heights() {
    let mut indexer = Indexer::new();
    // The node's tip moves from 3 to 6 to 6 to 9; each pass starts at the
    // highest indexed height.
    for tip in [3u64, 6, 6, 9] {
        let mut pass = IngestPass::begin(indexer.max_height(), tip);
        while let Some(height) = pass.next_height() {
            let blk = block(height, vec![]);
            indexer.ingest_block(&blk, &snapshot(vec![])).unwrap();
            pass.committed(&blk.header);
        }
        assert_eq!(indexer.max_height(), tip);
        for height in 0..=tip {
            assert_eq!(indexer.height_info(height).map(|i| i.height), Some(height));
        }
        assert_eq!(indexer.height_info(tip + 1), None);
    }
}

#[test]
fn cloned_block_is_the_same_block() {
    let blk = block(
        3,
        vec![tx(
            TxKind::Swap,
            4,
            vec![CoinID::new(hash(1), 2)],
            vec![coin(70, Denom::Mel), coin(5, Denom::Custom(hash(8)))],
        )],
    );
    assert_eq!(blk.clone(), blk);
    assert_eq!(blk.transactions[0].clone(), blk.transactions[0]);
}
