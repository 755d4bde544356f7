use melblkidx::coinquery::CoinQuery;
use melblkidx::idmap::IdMap;
use melblkidx::ingest::{reward_id, IngestError, Mutations};
use melblkidx::rows::{parse_denom, parse_hash};
use melblkidx::sql::SqlValue;
use melblkidx::statements::{
    commit_statements, hex_each, insert_txvars, insert_txvars_with, INSERT_STAKE_SQL,
};
use melblkidx::types::{BlockHeader, Denom, HashVal, Transaction, TxKind};

fn counting_hash() -> HashVal {
    let mut bytes = [0u8; 32];
    for (i, b) in bytes.iter_mut().enumerate() {
        *b = (i as u8) * 8 + 3;
    }
    HashVal(bytes)
}

fn header(height: u64) -> BlockHeader {
    BlockHeader {
        height,
        hash: HashVal([1; 32]),
        fee_pool: 0,
        fee_multiplier: 0,
        dosc_speed: 0,
        stakes_hash: HashVal([2; 32]),
    }
}

fn empty_mutations() -> Mutations {
    Mutations {
        new_coins: IdMap::new(),
        spent_coins: IdMap::new(),
    }
}

fn tx_of_kind(kind: TxKind) -> Transaction {
    Transaction {
        kind,
        txhash: HashVal([9; 32]),
        inputs: vec![],
        outputs: vec![],
        fee: 0,
        covenants: vec![],
        data: vec![],
        sigs: vec![],
    }
}

#[test]
fn hash_text_is_lowercase_hex() {
    let h = counting_hash();
    let st = CoinQuery::new().create_txhash(h).statement();
    let expected = "030b131b232b333b434b535b636b737b838b939ba3abb3bbc3cbd3dbe3ebf3fb";
    assert_eq!(st.params, vec![SqlValue::Text(expected.to_string())]);
    assert_eq!(tmelcrypt::HashVal(h.0).to_string(), expected);
}

#[test]
fn hash_text_parses_in_either_case() {
    let h = counting_hash();
    let lower = "030b131b232b333b434b535b636b737b838b939ba3abb3bbc3cbd3dbe3ebf3fb";
    assert_eq!(parse_hash(lower), Some(h));
    assert_eq!(parse_hash(&lower.to_uppercase()), Some(h));
    assert_eq!(
        parse_hash("030B131b232b333b434b535b636b737b838b939ba3abb3bbc3cbd3dbe3ebf3fB"),
        Some(h)
    );
}

#[test]
fn hash_text_of_wrong_shape_is_refused() {
    let lower = "030b131b232b333b434b535b636b737b838b939ba3abb3bbc3cbd3dbe3ebf3fb";
    assert_eq!(parse_hash(""), None);
    assert_eq!(parse_hash(&lower[..63]), None);
    assert_eq!(parse_hash(&lower[..62]), None);
    assert_eq!(parse_hash(&format!("{}0", lower)), None);
    assert_eq!(parse_hash(&format!("{}00", lower)), None);
    assert_eq!(parse_hash(&format!("g{}", &lower[1..])), None);
    assert_eq!(parse_hash(&format!("{} ", &lower[..63])), None);
    // 62 ASCII digits and one two-byte letter: 64 bytes, 63 characters.
    assert_eq!(parse_hash(&format!("{}é", &lower[..62])), None);
    // 63 ASCII digits and one two-byte letter: 64 characters, 65 bytes.
    assert_eq!(parse_hash(&format!("{}é", &lower[..63])), None);
}

#[test]
fn byte_strings_are_written_in_hex() {
    let texts = hex_each(&vec![vec![0xde, 0xad], vec![], vec![0x00, 0x0f, 0xf0, 0xff]]);
    assert_eq!(texts, vec!["dead", "", "000ff0ff"]);
}

#[test]
fn covenants_and_sigs_are_json_arrays_of_hex() {
    let mut tx = tx_of_kind(TxKind::Normal);
    tx.covenants = vec![vec![0xde, 0xad], vec![0x01]];
    tx.sigs = vec![vec![0xbe, 0xef], vec![]];
    let st = insert_txvars(&tx).unwrap();
    assert_eq!(st.params[3], SqlValue::Text("[\"dead\",\"01\"]".to_string()));
    assert_eq!(st.params[5], SqlValue::Text("[\"beef\",\"\"]".to_string()));
    let none = insert_txvars(&tx_of_kind(TxKind::Normal)).unwrap();
    assert_eq!(none.params[3], SqlValue::Text("[]".to_string()));
}

#[test]
fn conditions_are_joined_by_and() {
    let st = CoinQuery::new().denom(Denom::Mel).unspent().create_index(3).statement();
    assert_eq!(
        st.sql,
        "select * from coins where denom == ? and spend_txhash is null and create_index == ?"
    );
    let one = CoinQuery::new().unspent().statement();
    assert_eq!(one.sql, "select * from coins where spend_txhash is null");
}

#[test]
fn denoms_have_their_bytes() {
    let bytes_of = |d: Denom| match CoinQuery::new().denom(d).statement().params.remove(0) {
        SqlValue::Blob(b) => b,
        other => panic!("not a blob: {:?}", other),
    };
    assert_eq!(bytes_of(Denom::Mel), b"m".to_vec());
    assert_eq!(bytes_of(Denom::Sym), b"s".to_vec());
    assert_eq!(bytes_of(Denom::Erg), b"d".to_vec());
    assert_eq!(bytes_of(Denom::NewCustom), Vec::<u8>::new());
    assert_eq!(bytes_of(Denom::Custom(counting_hash())), counting_hash().0.to_vec());
}

#[test]
fn denom_bytes_parse_back() {
    for d in [
        Denom::Mel,
        Denom::Sym,
        Denom::Erg,
        Denom::NewCustom,
        Denom::Custom(counting_hash()),
        Denom::Custom(HashVal([b'm'; 32])),
    ] {
        let bytes = match CoinQuery::new().denom(d).statement().params.remove(0) {
            SqlValue::Blob(b) => b,
            other => panic!("not a blob: {:?}", other),
        };
        assert_eq!(parse_denom(&bytes), Some(d));
    }
    assert_eq!(parse_denom(&b"x".to_vec()), None);
    assert_eq!(parse_denom(&b"M".to_vec()), None);
    assert_eq!(parse_denom(&b"ms".to_vec()), None);
    assert_eq!(parse_denom(&vec![7u8; 31]), None);
    assert_eq!(parse_denom(&vec![7u8; 33]), None);
}

#[test]
fn kinds_have_their_bytes() {
    let byte_of = |kind: TxKind| {
        insert_txvars_with(&tx_of_kind(kind), "[]".to_string(), "[]".to_string()).params[1].clone()
    };
    assert_eq!(byte_of(TxKind::Normal), SqlValue::Integer(0x00));
    assert_eq!(byte_of(TxKind::Stake), SqlValue::Integer(0x10));
    assert_eq!(byte_of(TxKind::DoscMint), SqlValue::Integer(0x50));
    assert_eq!(byte_of(TxKind::Swap), SqlValue::Integer(0x51));
    assert_eq!(byte_of(TxKind::LiqDeposit), SqlValue::Integer(0x52));
    assert_eq!(byte_of(TxKind::LiqWithdraw), SqlValue::Integer(0x53));
    assert_eq!(byte_of(TxKind::Faucet), SqlValue::Integer(0xff));
}

#[test]
fn reward_id_is_that_of_the_ledger() {
    for height in [0u64, 1, 7, 1_000_000, u64::MAX] {
        let id = reward_id(height);
        let theirs = melstructs::CoinID::proposer_reward(melstructs::BlockHeight(height));
        assert_eq!(id.txhash.0, theirs.txhash.0 .0);
        assert_eq!(id.index, 0);
    }
    assert_ne!(reward_id(1), reward_id(2));
    assert_ne!(reward_id(7).txhash.0[..8], 7u64.to_be_bytes());
}

#[test]
fn stake_documents_are_decoded_into_their_statement() {
    let doc = melstructs::StakeDoc {
        pubkey: tmelcrypt::Ed25519PK([3; 32]),
        e_start: 1,
        e_post_end: 5,
        syms_staked: melstructs::CoinValue(77),
    };
    let raw = stdcode::serialize(&doc).unwrap();
    let stakers = Some(vec![(HashVal([8; 32]), raw)]);
    let list = commit_statements(4, &header(4), &empty_mutations(), &stakers, &vec![]).unwrap();
    assert_eq!(list.len(), 2);
    assert_eq!(list[1].sql, INSERT_STAKE_SQL);
    let mut staked = vec![0u8; 16];
    staked[15] = 77;
    assert_eq!(
        list[1].params,
        vec![
            SqlValue::Text("08".repeat(32)),
            SqlValue::Blob(vec![3; 32]),
            SqlValue::Integer(1),
            SqlValue::Integer(5),
            SqlValue::Blob(staked),
        ]
    );
}

#[test]
fn undecodable_stake_document_is_an_error() {
    let good = stdcode::serialize(&melstructs::StakeDoc {
        pubkey: tmelcrypt::Ed25519PK([3; 32]),
        e_start: 1,
        e_post_end: 5,
        syms_staked: melstructs::CoinValue(77),
    })
    .unwrap();
    let mut trailing = good.clone();
    trailing.push(0);
    for bad in [vec![], vec![1, 2, 3], trailing] {
        let stakers = Some(vec![(HashVal([8; 32]), good.clone()), (HashVal([9; 32]), bad)]);
        assert_eq!(
            commit_statements(4, &header(4), &empty_mutations(), &stakers, &vec![]),
            Err(IngestError::BadStakeDoc)
        );
    }
}
