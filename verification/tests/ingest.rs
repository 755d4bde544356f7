use melblkidx::idmap::IdMap;
use melblkidx::ingest::{
    derive_mutations, is_addressable, lookup_targets, reward_id, IngestError, Spender,
};
use melblkidx::types::{CoinData, CoinID, Denom, HashVal, Transaction, TxKind};

fn hash(n: u8) -> HashVal {
    HashVal([n; 32])
}

fn coin(value: u128, denom: Denom) -> CoinData {
    CoinData {
        covhash: hash(50),
        value,
        denom,
        additional_data: vec![],
    }
}

fn tx(kind: TxKind, id: u8, inputs: Vec<CoinID>, outputs: Vec<CoinData>) -> Transaction {
    Transaction {
        kind,
        txhash: hash(id),
        inputs,
        outputs,
        fee: 0,
        covenants: vec![],
        data: vec![],
        sigs: vec![],
    }
}

fn snapshot(entries: Vec<(CoinID, CoinData)>) -> IdMap<CoinData> {
    let mut map = IdMap::new();
    for (id, data) in entries {
        map.insert(id, data);
    }
    map
}

fn entries(map: &IdMap<CoinData>) -> Vec<(CoinID, CoinData)> {
    let mut all: Vec<(CoinID, CoinData)> = (0..map.len())
        .map(|i| (map.id_at(i), map.value_at(i).clone()))
        .collect();
    all.sort();
    all
}

#[test]
fn outputs_become_new_coins_and_inputs_spent_coins() {
    let txs = vec![tx(
        TxKind::Normal,
        1,
        vec![CoinID::new(hash(7), 3), CoinID::new(hash(8), 0)],
        vec![coin(10, Denom::Mel), coin(20, Denom::Sym)],
    )];
    let m = derive_mutations(4, &txs, &snapshot(vec![])).unwrap();
    assert_eq!(
        entries(&m.new_coins),
        vec![
            (CoinID::new(hash(1), 0), coin(10, Denom::Mel)),
            (CoinID::new(hash(1), 1), coin(20, Denom::Sym)),
        ]
    );
    assert_eq!(m.spent_coins.len(), 2);
    assert_eq!(
        m.spent_coins.get(&CoinID::new(hash(7), 3)),
        Some(&Spender { txhash: hash(1), index: 0 })
    );
    assert_eq!(
        m.spent_coins.get(&CoinID::new(hash(8), 0)),
        Some(&Spender { txhash: hash(1), index: 1 })
    );
}

#[test]
fn empty_block_has_no_mutations() {
    let m = derive_mutations(4, &vec![], &snapshot(vec![])).unwrap();
    assert_eq!(m.new_coins.len(), 0);
    assert_eq!(m.spent_coins.len(), 0);
}

#[test]
fn proposer_reward_is_a_new_coin_when_the_snapshot_has_it() {
    let reward = coin(123, Denom::Mel);
    let m = derive_mutations(9, &vec![], &snapshot(vec![(reward_id(9), reward.clone())])).unwrap();
    assert_eq!(entries(&m.new_coins), vec![(reward_id(9), reward.clone())]);
    // The reward of another height is not this block's.
    let m = derive_mutations(8, &vec![], &snapshot(vec![(reward_id(9), reward)])).unwrap();
    assert_eq!(m.new_coins.len(), 0);
}

#[test]
fn swap_takes_its_first_output_from_the_snapshot() {
    let txs = vec![tx(
        TxKind::Swap,
        1,
        vec![],
        vec![coin(10, Denom::Mel), coin(20, Denom::Mel)],
    )];
    let snap = snapshot(vec![
        (CoinID::new(hash(1), 0), coin(33, Denom::Sym)),
        (CoinID::new(hash(1), 1), coin(44, Denom::Erg)),
    ]);
    let m = derive_mutations(10, &txs, &snap).unwrap();
    assert_eq!(
        entries(&m.new_coins),
        vec![
            (CoinID::new(hash(1), 0), coin(33, Denom::Sym)),
            (CoinID::new(hash(1), 1), coin(20, Denom::Mel)),
        ]
    );
}

#[test]
fn swap_output_that_the_snapshot_lacks_is_left_out() {
    let txs = vec![tx(
        TxKind::Swap,
        1,
        vec![],
        vec![coin(10, Denom::Mel), coin(20, Denom::Mel)],
    )];
    let m = derive_mutations(10, &txs, &snapshot(vec![])).unwrap();
    assert_eq!(
        entries(&m.new_coins),
        vec![(CoinID::new(hash(1), 1), coin(20, Denom::Mel))]
    );
}

#[test]
fn deposit_takes_its_first_two_outputs_from_the_snapshot() {
    let txs = vec![tx(
        TxKind::LiqDeposit,
        1,
        vec![],
        vec![coin(10, Denom::Mel), coin(20, Denom::Sym), coin(30, Denom::Mel)],
    )];
    let snap = snapshot(vec![(CoinID::new(hash(1), 0), coin(5, Denom::Custom(hash(9))))]);
    let m = derive_mutations(10, &txs, &snap).unwrap();
    assert_eq!(
        entries(&m.new_coins),
        vec![
            (CoinID::new(hash(1), 0), coin(5, Denom::Custom(hash(9)))),
            (CoinID::new(hash(1), 2), coin(30, Denom::Mel)),
        ]
    );
}

#[test]
fn deposit_with_one_output_still_looks_at_two_slots() {
    let txs = vec![tx(TxKind::LiqDeposit, 1, vec![], vec![coin(10, Denom::Mel)])];
    let snap = snapshot(vec![(CoinID::new(hash(1), 1), coin(6, Denom::Sym))]);
    let m = derive_mutations(10, &txs, &snap).unwrap();
    assert_eq!(
        entries(&m.new_coins),
        vec![(CoinID::new(hash(1), 1), coin(6, Denom::Sym))]
    );
}

#[test]
fn withdrawal_looks_one_slot_past_its_outputs() {
    let txs = vec![tx(
        TxKind::LiqWithdraw,
        1,
        vec![],
        vec![coin(10, Denom::Mel), coin(20, Denom::Mel)],
    )];
    let snap = snapshot(vec![
        (CoinID::new(hash(1), 0), coin(1, Denom::Mel)),
        (CoinID::new(hash(1), 1), coin(2, Denom::Sym)),
        (CoinID::new(hash(1), 2), coin(3, Denom::Erg)),
        (CoinID::new(hash(1), 3), coin(4, Denom::Erg)),
    ]);
    let m = derive_mutations(20, &txs, &snap).unwrap();
    assert_eq!(
        entries(&m.new_coins),
        vec![
            (CoinID::new(hash(1), 0), coin(1, Denom::Mel)),
            (CoinID::new(hash(1), 1), coin(2, Denom::Sym)),
            (CoinID::new(hash(1), 2), coin(3, Denom::Erg)),
        ]
    );
    let partly = snapshot(vec![(CoinID::new(hash(1), 2), coin(3, Denom::Erg))]);
    let m = derive_mutations(20, &txs, &partly).unwrap();
    assert_eq!(
        entries(&m.new_coins),
        vec![(CoinID::new(hash(1), 2), coin(3, Denom::Erg))]
    );
}

#[test]
fn other_kinds_keep_their_outputs_whatever_the_snapshot_holds() {
    for kind in [TxKind::Normal, TxKind::Stake, TxKind::DoscMint, TxKind::Faucet] {
        let txs = vec![tx(kind, 1, vec![], vec![coin(10, Denom::Mel)])];
        let snap = snapshot(vec![(CoinID::new(hash(1), 0), coin(99, Denom::Sym))]);
        let m = derive_mutations(3, &txs, &snap).unwrap();
        assert_eq!(
            entries(&m.new_coins),
            vec![(CoinID::new(hash(1), 0), coin(10, Denom::Mel))]
        );
    }
}

#[test]
fn later_input_for_one_coin_stands() {
    let shared = CoinID::new(hash(7), 0);
    let txs = vec![
        tx(TxKind::Normal, 1, vec![shared, CoinID::new(hash(7), 1)], vec![]),
        tx(TxKind::Normal, 2, vec![CoinID::new(hash(7), 2), shared], vec![]),
    ];
    let m = derive_mutations(3, &txs, &snapshot(vec![])).unwrap();
    assert_eq!(m.spent_coins.len(), 3);
    assert_eq!(
        m.spent_coins.get(&shared),
        Some(&Spender { txhash: hash(2), index: 1 })
    );
}

#[test]
fn lookup_targets_lists_reward_then_rewritten_slots() {
    let txs = vec![
        tx(TxKind::Normal, 1, vec![], vec![coin(1, Denom::Mel)]),
        tx(TxKind::Swap, 2, vec![], vec![coin(1, Denom::Mel), coin(1, Denom::Mel)]),
        tx(TxKind::LiqDeposit, 3, vec![], vec![]),
        tx(TxKind::LiqWithdraw, 4, vec![], vec![coin(1, Denom::Mel), coin(1, Denom::Mel)]),
    ];
    assert_eq!(
        lookup_targets(6, &txs),
        Ok(vec![
            reward_id(6),
            CoinID::new(hash(2), 0),
            CoinID::new(hash(3), 0),
            CoinID::new(hash(3), 1),
            CoinID::new(hash(4), 0),
            CoinID::new(hash(4), 1),
            CoinID::new(hash(4), 2),
        ])
    );
    assert_eq!(lookup_targets(6, &vec![]), Ok(vec![reward_id(6)]));
}

#[test]
fn outputs_up_to_the_last_index_are_numbered() {
    let full = tx(TxKind::Normal, 1, vec![], vec![coin(1, Denom::Mel); 256]);
    assert!(is_addressable(&full));
    let m = derive_mutations(1, &vec![full], &snapshot(vec![])).unwrap();
    assert_eq!(m.new_coins.len(), 256);
    assert!(m.new_coins.get(&CoinID::new(hash(1), 255)).is_some());

    let withdraw = tx(TxKind::LiqWithdraw, 2, vec![], vec![coin(1, Denom::Mel); 255]);
    assert!(is_addressable(&withdraw));
    let snap = snapshot(vec![(CoinID::new(hash(2), 255), coin(8, Denom::Sym))]);
    let m = derive_mutations(1, &vec![withdraw.clone()], &snap).unwrap();
    assert_eq!(entries(&m.new_coins), vec![(CoinID::new(hash(2), 255), coin(8, Denom::Sym))]);
    assert_eq!(lookup_targets(1, &vec![withdraw]).unwrap().len(), 257);
}

#[test]
fn too_many_outputs_are_refused() {
    let over = tx(TxKind::Normal, 1, vec![], vec![coin(1, Denom::Mel); 257]);
    assert!(!is_addressable(&over));
    let txs = vec![tx(TxKind::Normal, 2, vec![], vec![]), over];
    assert_eq!(
        derive_mutations(1, &txs, &snapshot(vec![])).err(),
        Some(IngestError::TooManyOutputs)
    );
    assert_eq!(lookup_targets(1, &txs), Err(IngestError::TooManyOutputs));

    let withdraw = tx(TxKind::LiqWithdraw, 3, vec![], vec![coin(1, Denom::Mel); 256]);
    assert!(!is_addressable(&withdraw));
    assert_eq!(
        derive_mutations(1, &vec![withdraw], &snapshot(vec![])).err(),
        Some(IngestError::TooManyOutputs)
    );
}

#[test]
fn id_map_binds_each_id_once() {
    let mut map: IdMap<CoinData> = IdMap::new();
    let a = CoinID::new(hash(1), 0);
    let b = CoinID::new(hash(1), 1);
    map.insert(a, coin(1, Denom::Mel));
    map.insert(b, coin(2, Denom::Mel));
    map.insert(a, coin(3, Denom::Mel));
    assert_eq!(map.len(), 2);
    assert_eq!(map.get(&a), Some(&coin(3, Denom::Mel)));
    assert_eq!(map.position(&b).map(|i| map.id_at(i)), Some(b));
    map.remove(&b);
    map.remove(&b);
    assert_eq!(map.len(), 1);
    assert_eq!(map.get(&b), None);
    assert_eq!(map.position(&b), None);
}

#[test]
fn withdrawal_takes_its_slots_from_the_snapshot_wherever_it_stands() {
    let before = tx(
        TxKind::Normal,
        1,
        vec![],
        vec![coin(1, Denom::Mel), coin(2, Denom::Mel), coin(3, Denom::Mel)],
    );
    let withdraw = tx(
        TxKind::LiqWithdraw,
        2,
        vec![],
        vec![coin(10, Denom::Mel), coin(20, Denom::Mel)],
    );
    let after = tx(
        TxKind::Swap,
        3,
        vec![CoinID::new(hash(2), 1)],
        vec![coin(7, Denom::Mel), coin(8, Denom::Mel)],
    );
    let snap = snapshot(vec![
        (CoinID::new(hash(2), 0), coin(100, Denom::Sym)),
        (CoinID::new(hash(2), 2), coin(300, Denom::Erg)),
        (CoinID::new(hash(2), 3), coin(400, Denom::Erg)),
        (CoinID::new(hash(1), 0), coin(999, Denom::Erg)),
        (reward_id(20), coin(5, Denom::Mel)),
    ]);
    for txs in [
        vec![withdraw.clone(), before.clone(), after.clone()],
        vec![before.clone(), withdraw.clone(), after.clone()],
        vec![before.clone(), after.clone(), withdraw.clone()],
    ] {
        let m = derive_mutations(20, &txs, &snap).unwrap();
        let of_withdrawal: Vec<(CoinID, CoinData)> = entries(&m.new_coins)
            .into_iter()
            .filter(|(id, _)| id.txhash == hash(2))
            .collect();
        assert_eq!(
            of_withdrawal,
            vec![
                (CoinID::new(hash(2), 0), coin(100, Denom::Sym)),
                (CoinID::new(hash(2), 2), coin(300, Denom::Erg)),
            ]
        );
        assert_eq!(m.new_coins.get(&CoinID::new(hash(1), 0)), Some(&coin(1, Denom::Mel)));
        assert_eq!(m.new_coins.get(&CoinID::new(hash(3), 0)), None);
        assert_eq!(m.new_coins.get(&CoinID::new(hash(3), 1)), Some(&coin(8, Denom::Mel)));
        assert_eq!(m.new_coins.get(&reward_id(20)), Some(&coin(5, Denom::Mel)));
        assert_eq!(m.new_coins.len(), 7);
    }
}

#[test]
fn last_transaction_that_writes_a_slot_decides_it() {
    let withdraw = tx(
        TxKind::LiqWithdraw,
        2,
        vec![],
        vec![coin(10, Denom::Mel), coin(20, Denom::Mel)],
    );
    // The same hash again, writing slot 0 only.
    let again = tx(TxKind::Normal, 2, vec![], vec![coin(77, Denom::Mel)]);
    let snap = snapshot(vec![
        (CoinID::new(hash(2), 0), coin(100, Denom::Sym)),
        (CoinID::new(hash(2), 1), coin(200, Denom::Sym)),
    ]);
    let m = derive_mutations(20, &vec![withdraw.clone(), again.clone()], &snap).unwrap();
    assert_eq!(
        entries(&m.new_coins),
        vec![
            (CoinID::new(hash(2), 0), coin(77, Denom::Mel)),
            (CoinID::new(hash(2), 1), coin(200, Denom::Sym)),
        ]
    );
    let m = derive_mutations(20, &vec![again, withdraw], &snap).unwrap();
    assert_eq!(
        entries(&m.new_coins),
        vec![
            (CoinID::new(hash(2), 0), coin(100, Denom::Sym)),
            (CoinID::new(hash(2), 1), coin(200, Denom::Sym)),
        ]
    );
}
