use melblkidx::idmap::IdMap;
use melblkidx::ingest::{derive_mutations, Spender};
use melblkidx::schema::{schema_statements, CREATE_COINS_SQL, CREATE_TXVARS_SQL};
use melblkidx::sql::{SqlValue, Statement};
use melblkidx::statements::{
    commit_statements, insert_coin, insert_headvars, insert_txvars, keep_data, update_spend,
    INSERT_COIN_SQL, INSERT_HEADVARS_SQL, INSERT_TXVARS_SQL, UPDATE_SPEND_SQL,
};
use melblkidx::types::{BlockHeader, CoinData, CoinID, Denom, HashVal, Transaction, TxKind};

fn hash(n: u8) -> HashVal {
    HashVal([n; 32])
}

fn be(v: u128) -> Vec<u8> {
    v.to_be_bytes().to_vec()
}

fn header(height: u64) -> BlockHeader {
    BlockHeader {
        height,
        hash: hash(0xaa),
        fee_pool: 1_000,
        fee_multiplier: 2_000,
        dosc_speed: u128::MAX,
        stakes_hash: hash(0xbb),
    }
}

#[test]
fn coin_insert_binds_its_columns() {
    let data = CoinData {
        covhash: hash(0x0c),
        value: 1_000_000,
        denom: Denom::Mel,
        additional_data: vec![4, 5],
    };
    let st = insert_coin(&CoinID::new(hash(0x1f), 3), 12, &data);
    assert_eq!(st.sql, INSERT_COIN_SQL);
    assert_eq!(
        st.sql,
        "insert into coins values ($1, $2, $3, NULL, NULL, NULL, $4, $5, $6, $7)"
    );
    assert_eq!(
        st.params,
        vec![
            SqlValue::Text("1f".repeat(32)),
            SqlValue::Integer(3),
            SqlValue::Integer(12),
            SqlValue::Blob(be(1_000_000)),
            SqlValue::Blob(b"m".to_vec()),
            SqlValue::Text("0c".repeat(32)),
            SqlValue::Blob(vec![4, 5]),
        ]
    );
}

#[test]
fn spend_update_binds_spender_then_coin() {
    let st = update_spend(
        &CoinID::new(hash(0x1f), 3),
        12,
        &Spender { txhash: hash(0x2e), index: 300 },
    );
    assert_eq!(st.sql, UPDATE_SPEND_SQL);
    assert_eq!(
        st.params,
        vec![
            SqlValue::Text("2e".repeat(32)),
            SqlValue::Integer(300),
            SqlValue::Integer(12),
            SqlValue::Text("1f".repeat(32)),
            SqlValue::Integer(3),
        ]
    );
}

#[test]
fn headvars_insert_binds_the_header() {
    let st = insert_headvars(7, &header(7));
    assert_eq!(st.sql, INSERT_HEADVARS_SQL);
    assert_eq!(
        st.params,
        vec![
            SqlValue::Integer(7),
            SqlValue::Text("aa".repeat(32)),
            SqlValue::Blob(be(1_000)),
            SqlValue::Blob(be(2_000)),
            SqlValue::Blob(vec![0xff; 16]),
        ]
    );
}

#[test]
fn transaction_data_is_cut_to_its_first_1024_bytes() {
    let long: Vec<u8> = (0..3000u32).map(|i| (i % 251) as u8).collect();
    assert_eq!(keep_data(&long), long[..1024].to_vec());
    assert_eq!(keep_data(&long[..1024].to_vec()), long[..1024].to_vec());
    assert_eq!(keep_data(&long[..1025].to_vec()), long[..1024].to_vec());
    assert_eq!(keep_data(&long[..1023].to_vec()), long[..1023].to_vec());
    assert_eq!(keep_data(&vec![]), Vec::<u8>::new());
}

#[test]
fn txvars_insert_binds_the_transaction() {
    let tx = Transaction {
        kind: TxKind::Swap,
        txhash: hash(0x33),
        inputs: vec![],
        outputs: vec![],
        fee: 77,
        covenants: vec![vec![0x01, 0x02]],
        data: vec![9; 2000],
        sigs: vec![],
    };
    let st = insert_txvars(&tx).unwrap();
    assert_eq!(st.sql, INSERT_TXVARS_SQL);
    assert_eq!(
        st.params,
        vec![
            SqlValue::Text("33".repeat(32)),
            SqlValue::Integer(0x51),
            SqlValue::Blob(be(77)),
            SqlValue::Text("[\"0102\"]".to_string()),
            SqlValue::Blob(vec![9; 1024]),
            SqlValue::Text("[]".to_string()),
        ]
    );
}

#[test]
fn block_statements_come_in_their_order() {
    let txs = vec![
        Transaction {
            kind: TxKind::Normal,
            txhash: hash(1),
            inputs: vec![CoinID::new(hash(7), 0)],
            outputs: vec![
                CoinData {
                    covhash: hash(2),
                    value: 5,
                    denom: Denom::Mel,
                    additional_data: vec![],
                },
                CoinData {
                    covhash: hash(3),
                    value: 6,
                    denom: Denom::Sym,
                    additional_data: vec![],
                },
            ],
            fee: 1,
            covenants: vec![],
            data: vec![],
            sigs: vec![],
        },
        Transaction {
            kind: TxKind::Faucet,
            txhash: hash(4),
            inputs: vec![],
            outputs: vec![],
            fee: 0,
            covenants: vec![],
            data: vec![],
            sigs: vec![],
        },
    ];
    let mutations = derive_mutations(3, &txs, &IdMap::new()).unwrap();
    let list = commit_statements(3, &header(3), &mutations, &Some(vec![]), &txs).unwrap();
    let texts: Vec<&str> = list.iter().map(|st| st.sql.as_str()).collect();
    assert_eq!(
        texts,
        vec![
            INSERT_COIN_SQL,
            INSERT_COIN_SQL,
            UPDATE_SPEND_SQL,
            INSERT_HEADVARS_SQL,
            INSERT_TXVARS_SQL,
            INSERT_TXVARS_SQL,
        ]
    );
    let mut coins: Vec<&Statement> = list[..2].iter().collect();
    coins.sort_by_key(|st| format!("{:?}", st.params[1]));
    assert_eq!(coins[0].params[1], SqlValue::Integer(0));
    assert_eq!(coins[0].params[3], SqlValue::Blob(be(5)));
    assert_eq!(coins[1].params[1], SqlValue::Integer(1));
    assert_eq!(coins[1].params[4], SqlValue::Blob(b"s".to_vec()));
    assert_eq!(list[2].params[3], SqlValue::Text("07".repeat(32)));
    assert_eq!(list[3].params[0], SqlValue::Integer(3));
    assert_eq!(list[4].params[0], SqlValue::Text("01".repeat(32)));
    assert_eq!(list[5].params[1], SqlValue::Integer(0xff));
}

#[test]
fn empty_block_still_records_its_height() {
    let mutations = derive_mutations(3, &vec![], &IdMap::new()).unwrap();
    let list = commit_statements(3, &header(3), &mutations, &None, &vec![]).unwrap();
    assert_eq!(list.len(), 1);
    assert_eq!(list[0], insert_headvars(3, &header(3)));
}

#[test]
fn schema_creates_four_tables_and_nine_indexes() {
    let list = schema_statements();
    assert_eq!(list.len(), 13);
    assert_eq!(list[0].sql, CREATE_COINS_SQL);
    assert_eq!(list[12].sql, CREATE_TXVARS_SQL);
    assert!(list.iter().all(|st| st.params.is_empty()));
    let tables = list
        .iter()
        .filter(|st| st.sql.starts_with("create table if not exists "))
        .count();
    let indexes: Vec<&str> = list
        .iter()
        .filter(|st| st.sql.starts_with("create index if not exists "))
        .map(|st| st.sql.split(" on ").nth(1).unwrap())
        .collect();
    assert_eq!(tables, 4);
    assert_eq!(
        indexes,
        vec![
            "coins(covhash)",
            "coins(covhash, spend_txhash)",
            "coins(covhash, spend_height)",
            "coins(create_height, spend_height)",
            "coins(create_height, spend_txhash)",
            "coins(denom)",
            "coins(spend_txhash)",
            "coins(create_height)",
            "coins(spend_height)",
        ]
    );
    assert!(list[0]
        .sql
        .contains("UNIQUE(create_txhash, create_index, create_height) ON CONFLICT IGNORE"));
}
