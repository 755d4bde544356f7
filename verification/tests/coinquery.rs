use melblkidx::coinquery::{Bound, CoinQuery, Operator, Predicate};
use melblkidx::sql::SqlValue;
use melblkidx::types::{CoinData, CoinInfo, CoinSpendInfo, Denom, HashVal};

fn hash(n: u8) -> HashVal {
    HashVal([n; 32])
}

fn row(
    tx: u8,
    index: u8,
    height: u64,
    value: u128,
    denom: Denom,
    spend: Option<(u8, usize, u64)>,
) -> CoinInfo {
    CoinInfo {
        create_txhash: hash(tx),
        create_index: index,
        create_height: height,
        coin_data: CoinData {
            covhash: hash(100 + tx),
            value,
            denom,
            additional_data: vec![tx],
        },
        spend_info: spend.map(|(by, at, when)| CoinSpendInfo {
            spend_txhash: hash(by),
            spend_index: at,
            spend_height: when,
        }),
    }
}

fn table() -> Vec<CoinInfo> {
    vec![
        row(1, 0, 1, 100, Denom::Mel, Some((3, 0, 3))),
        row(1, 1, 1, 200, Denom::Sym, None),
        row(2, 0, 2, 300, Denom::Mel, Some((3, 1, 3))),
        row(3, 0, 3, 400, Denom::Mel, None),
        row(4, 0, 7, 500, Denom::Erg, Some((5, 0, 9))),
        row(4, 1, 7, 1 << 70, Denom::Mel, None),
    ]
}

fn values(q: &CoinQuery) -> Vec<u128> {
    q.iter(&table()).iter().map(|c| c.coin_data.value).collect()
}

#[test]
fn empty_query_yields_every_row_in_table_order() {
    assert_eq!(CoinQuery::new().iter(&table()), table());
    assert_eq!(CoinQuery::new().iter(&vec![]), vec![]);
}

#[test]
fn unspent_yields_exactly_the_rows_without_spend_fields() {
    let expected: Vec<CoinInfo> = table()
        .into_iter()
        .filter(|c| c.spend_info.is_none())
        .collect();
    assert_eq!(CoinQuery::new().unspent().iter(&table()), expected);
    assert_eq!(values(&CoinQuery::new().unspent()), vec![200, 400, 1 << 70]);
}

#[test]
fn equality_conditions_select_their_rows() {
    assert_eq!(values(&CoinQuery::new().create_txhash(hash(1))), vec![100, 200]);
    assert_eq!(values(&CoinQuery::new().create_index(1)), vec![200, 1 << 70]);
    assert_eq!(values(&CoinQuery::new().spend_txhash(hash(3))), vec![100, 300]);
    assert_eq!(values(&CoinQuery::new().spend_index(1)), vec![300]);
    assert_eq!(values(&CoinQuery::new().spend_index(0)), vec![100, 500]);
    assert_eq!(values(&CoinQuery::new().denom(Denom::Mel)), vec![100, 300, 400, 1 << 70]);
    assert_eq!(values(&CoinQuery::new().denom(Denom::NewCustom)), Vec::<u128>::new());
    assert_eq!(values(&CoinQuery::new().covhash(hash(102))), vec![300]);
    assert_eq!(values(&CoinQuery::new().additional_data(&[4])), vec![500, 1 << 70]);
    assert_eq!(values(&CoinQuery::new().additional_data(&[])), Vec::<u128>::new());
}

#[test]
fn height_ranges_respect_their_bounds() {
    let created = |a, b| values(&CoinQuery::new().create_height_range(a, b));
    assert_eq!(created(Bound::Included(2), Bound::Included(3)), vec![300, 400]);
    assert_eq!(created(Bound::Excluded(2), Bound::Included(7)), vec![400, 500, 1 << 70]);
    assert_eq!(created(Bound::Included(2), Bound::Excluded(3)), vec![300]);
    assert_eq!(created(Bound::Unbounded, Bound::Included(1)), vec![100, 200]);
    assert_eq!(created(Bound::Excluded(7), Bound::Unbounded), Vec::<u128>::new());
    assert_eq!(created(Bound::Unbounded, Bound::Unbounded).len(), 6);
    assert_eq!(created(Bound::Included(5), Bound::Included(4)), Vec::<u128>::new());
    assert_eq!(created(Bound::Unbounded, Bound::Included(u64::MAX)).len(), 6);
}

#[test]
fn spend_height_bounds_leave_unspent_coins_out() {
    let spent = |a, b| values(&CoinQuery::new().spend_height_range(a, b));
    assert_eq!(spent(Bound::Included(0), Bound::Unbounded), vec![100, 300, 500]);
    assert_eq!(spent(Bound::Unbounded, Bound::Included(u64::MAX)), vec![100, 300, 500]);
    assert_eq!(spent(Bound::Excluded(3), Bound::Unbounded), vec![500]);
    assert_eq!(spent(Bound::Included(3), Bound::Included(3)), vec![100, 300]);
    assert_eq!(spent(Bound::Unbounded, Bound::Excluded(3)), Vec::<u128>::new());
    assert_eq!(spent(Bound::Unbounded, Bound::Unbounded).len(), 6);
}

#[test]
fn value_ranges_compare_numbers() {
    let valued = |a, b| values(&CoinQuery::new().value_range(a, b));
    assert_eq!(valued(Bound::Included(200), Bound::Included(400)), vec![200, 300, 400]);
    assert_eq!(valued(Bound::Excluded(200), Bound::Excluded(400)), vec![300]);
    assert_eq!(valued(Bound::Included(501), Bound::Unbounded), vec![1 << 70]);
    assert_eq!(valued(Bound::Unbounded, Bound::Excluded(100)), Vec::<u128>::new());
    assert_eq!(valued(Bound::Included(1 << 70), Bound::Included(u128::MAX)), vec![1 << 70]);
}

#[test]
fn adding_a_condition_never_adds_a_row() {
    let bases = [
        CoinQuery::new(),
        CoinQuery::new().denom(Denom::Mel),
        CoinQuery::new().create_height_range(Bound::Included(2), Bound::Unbounded),
    ];
    for base in bases.iter() {
        let wide = base.iter(&table());
        let narrowed: Vec<CoinQuery> = vec![
            base.clone().unspent(),
            base.clone().create_txhash(hash(1)),
            base.clone().create_index(0),
            base.clone().spend_txhash(hash(3)),
            base.clone().spend_index(0),
            base.clone().denom(Denom::Mel),
            base.clone().covhash(hash(103)),
            base.clone().additional_data(&[1]),
            base.clone().value_range(Bound::Included(300), Bound::Unbounded),
            base.clone().spend_height_range(Bound::Unbounded, Bound::Included(3)),
            base.clone().create_height_range(Bound::Unbounded, Bound::Excluded(7)),
        ];
        for q in narrowed.iter() {
            let narrow = q.iter(&table());
            assert!(narrow.len() <= wide.len());
            for r in narrow.iter() {
                assert!(wide.contains(r));
            }
            let refiltered: Vec<CoinInfo> =
                wide.iter().filter(|r| q.accepts(r)).cloned().collect();
            assert_eq!(narrow, refiltered);
        }
    }
}

#[test]
fn accepts_agrees_with_iter() {
    let q = CoinQuery::new().denom(Denom::Mel).unspent();
    let picked: Vec<bool> = table().iter().map(|r| q.accepts(r)).collect();
    assert_eq!(picked, vec![false, false, false, true, false, true]);
}

#[test]
fn conditions_hold_of_rows() {
    let spent = row(1, 0, 1, 100, Denom::Mel, Some((3, 2, 5)));
    let unspent = row(1, 0, 1, 100, Denom::Mel, None);
    assert!(Predicate::SpendIndex(2).holds(&spent));
    assert!(!Predicate::SpendIndex(2).holds(&unspent));
    assert!(Predicate::SpendHeight(Operator::AtMost, 5).holds(&spent));
    assert!(!Predicate::SpendHeight(Operator::Below, 5).holds(&spent));
    assert!(!Predicate::SpendHeight(Operator::AtLeast, 0).holds(&unspent));
    assert!(Predicate::CreateHeight(Operator::Above, 0).holds(&unspent));
    assert!(!Predicate::CreateHeight(Operator::Above, 1).holds(&unspent));
    assert!(Predicate::Value(Operator::AtLeast, 100).holds(&unspent));
    assert!(Predicate::Unspent.holds(&unspent));
    assert!(!Predicate::Unspent.holds(&spent));
}

#[test]
fn query_without_conditions_has_no_where() {
    let st = CoinQuery::new().statement();
    assert_eq!(st.sql, "select * from coins");
    assert!(st.params.is_empty());
}

#[test]
fn each_condition_has_its_text_and_value() {
    let q = CoinQuery::new()
        .create_txhash(hash(0xab))
        .create_index(3)
        .create_height_range(Bound::Included(5), Bound::Excluded(9))
        .unspent()
        .spend_txhash(hash(0xcd))
        .spend_index(4)
        .spend_height_range(Bound::Excluded(6), Bound::Included(8))
        .value_range(Bound::Included(256), Bound::Included(1_000_000))
        .denom(Denom::Sym)
        .covhash(hash(0x01))
        .additional_data(&[9, 9]);
    let st = q.statement();
    assert_eq!(
        st.sql,
        "select * from coins where create_txhash == ? and create_index == ? and create_height >= ? and create_height < ? and spend_txhash is null and spend_txhash == ? and spend_index == ? and spend_height > ? and spend_height <= ? and value >= ? and value <= ? and denom == ? and covhash == ? and additional_data == ?"
    );
    let mut low = vec![0u8; 16];
    low[14] = 1;
    let mut high = vec![0u8; 16];
    high[13] = 0x0f;
    high[14] = 0x42;
    high[15] = 0x40;
    assert_eq!(
        st.params,
        vec![
            SqlValue::Text("ab".repeat(32)),
            SqlValue::Integer(3),
            SqlValue::Integer(5),
            SqlValue::Integer(9),
            SqlValue::Text("cd".repeat(32)),
            SqlValue::Integer(4),
            SqlValue::Integer(6),
            SqlValue::Integer(8),
            SqlValue::Blob(low),
            SqlValue::Blob(high),
            SqlValue::Blob(b"s".to_vec()),
            SqlValue::Text("01".repeat(32)),
            SqlValue::Blob(vec![9, 9]),
        ]
    );
}

#[test]
fn open_ranges_add_no_condition() {
    let st = CoinQuery::new()
        .create_height_range(Bound::Unbounded, Bound::Unbounded)
        .value_range(Bound::Unbounded, Bound::Unbounded)
        .spend_height_range(Bound::Unbounded, Bound::Unbounded)
        .statement();
    assert_eq!(st.sql, "select * from coins");
    let st = CoinQuery::new()
        .value_range(Bound::Excluded(1), Bound::Excluded(2))
        .statement();
    assert_eq!(st.sql, "select * from coins where value > ? and value < ?");
}

#[test]
fn clone_keeps_the_conditions() {
    let q = CoinQuery::new().denom(Denom::Mel).additional_data(&[1, 2]);
    let copy = q.clone();
    assert_eq!(copy, q);
    assert_eq!(copy.statement(), q.statement());
}
