//! What holds of the rows that a query selects.

use crate::coinquery::{Bound, Operator, PredicateView, all_hold, compares, holds, selected};
use crate::coinquery::{create_height_conditions, spend_height_conditions};
use crate::encoding::{be_bytes, bytes_less, lemma_values_ordered};
use crate::ingest::Spender;
use crate::table::{has_row, insert_ignoring, marked, spend_at};
use crate::types::{CoinDataView, CoinID, CoinInfoView};
use vstd::prelude::*;

verus! {

/// The selected rows are the rows of the table that meet the conditions, in
/// table order: the table filtered by any test that agrees with the
/// conditions.
pub proof fn lemma_selected_is_filter(
    rows: Seq<CoinInfoView>,
    ps: Seq<PredicateView>,
    test: spec_fn(CoinInfoView) -> bool,
)
    requires
        forall|r: CoinInfoView| test(r) == all_hold(ps, r),
    ensures
        selected(rows, ps) == rows.filter(test),
    decreases rows.len(),
{
    reveal(Seq::filter);
    if rows.len() > 0 {
        lemma_selected_is_filter(rows.drop_last(), ps, test);
    } else {
        assert(selected(rows, ps) =~= rows);
    }
}

/// The query for unspent coins yields exactly the rows without spend fields.
pub proof fn lemma_unspent_rows(rows: Seq<CoinInfoView>)
    ensures
        selected(rows, seq![PredicateView::Unspent]) == rows.filter(
            |r: CoinInfoView| r.spend_info is None,
        ),
{
    let ps = seq![PredicateView::Unspent];
    assert forall|r: CoinInfoView| (r.spend_info is None) == all_hold(ps, r) by {
        if all_hold(ps, r) {
            assert(holds(ps[0], r));
        }
    }
    lemma_selected_is_filter(rows, ps, |r: CoinInfoView| r.spend_info is None);
}

/// Adding conditions to a query shrinks what it yields: the rows that meet
/// the longer list are those of the shorter list's rows that meet the added
/// conditions, and there are no more of them.
pub proof fn lemma_narrowing(rows: Seq<CoinInfoView>, ps: Seq<PredicateView>, more: Seq<PredicateView>)
    ensures
        selected(rows, ps + more) == selected(selected(rows, ps), more),
        selected(rows, ps + more).len() <= selected(rows, ps).len(),
    decreases rows.len(),
{
    if rows.len() > 0 {
        let init = rows.drop_last();
        lemma_narrowing(init, ps, more);
        crate::balance_laws::lemma_all_hold_concat(ps, more, rows.last());
        if all_hold(ps, rows.last()) {
            let wide = selected(init, ps).push(rows.last());
            assert(wide.drop_last() =~= selected(init, ps));
            assert(wide.last() == rows.last());
        }
    }
    lemma_selected_len(selected(rows, ps), more);
}

/// A query yields no more rows than the table has.
pub proof fn lemma_selected_len(rows: Seq<CoinInfoView>, ps: Seq<PredicateView>)
    ensures
        selected(rows, ps).len() <= rows.len(),
    decreases rows.len(),
{
    if rows.len() > 0 {
        lemma_selected_len(rows.drop_last(), ps);
    }
}

/// A coin inserted at a height has a row of that height.
pub proof fn lemma_inserted_has_row(
    rows: Seq<CoinInfoView>,
    id: CoinID,
    h: u64,
    data: CoinDataView,
)
    ensures
        has_row(insert_ignoring(rows, id, h, data), id, h),
{
    let after = insert_ignoring(rows, id, h, data);
    if has_row(rows, id, h) {
    } else {
        assert(after[rows.len() as int].id() == id);
    }
}

/// A row stays in the table, under its id and height, whatever coin is
/// inserted or marked as spent after it.
pub proof fn lemma_row_stays(
    rows: Seq<CoinInfoView>,
    id: CoinID,
    h: u64,
    other: CoinID,
    height: u64,
    data: CoinDataView,
    by: Spender,
)
    requires
        has_row(rows, id, h),
    ensures
        has_row(insert_ignoring(rows, other, height, data), id, h),
        has_row(marked(rows, other, spend_at(by, height)), id, h),
{
    let i = choose|i: int| 0 <= i < rows.len() && #[trigger] rows[i].id() == id && rows[i].create_height == h;
    let grown = insert_ignoring(rows, other, height, data);
    assert(grown[i].id() == id && grown[i].create_height == h);
    let spent = marked(rows, other, spend_at(by, height));
    assert(spent[i].id() == id && spent[i].create_height == h);
}

/// A coin inserted at height `h` and later marked as spent at height `later`
/// is yielded both by the query for the coins created at `h` and by the query
/// for the coins spent at `later`: once the table holds a row of the coin at
/// `h`, marking the coin leaves a row that both queries yield.
pub proof fn lemma_created_then_spent(
    rows: Seq<CoinInfoView>,
    id: CoinID,
    h: u64,
    by: Spender,
    later: u64,
)
    requires
        has_row(rows, id, h),
    ensures
        ({
            let table = marked(rows, id, spend_at(by, later));
            exists|i: int|
                {
                    &&& 0 <= i < table.len()
                    &&& (#[trigger] table[i]).id() == id
                    &&& table[i].create_height == h
                    &&& table[i].spend_info == Some(spend_at(by, later))
                    &&& selected(
                        table,
                        create_height_conditions(Bound::Included(h), Bound::Included(h)),
                    ).contains(table[i])
                    &&& selected(
                        table,
                        spend_height_conditions(Bound::Included(later), Bound::Included(later)),
                    ).contains(table[i])
                }
        }),
{
    let table = marked(rows, id, spend_at(by, later));
    let i = choose|i: int| 0 <= i < rows.len() && #[trigger] rows[i].id() == id && rows[i].create_height == h;
    assert(table[i].id() == id);
    let created = create_height_conditions(Bound::Included(h), Bound::Included(h));
    let spent = spend_height_conditions(Bound::Included(later), Bound::Included(later));
    assert(all_hold(created, table[i]));
    assert(all_hold(spent, table[i]));
    crate::coinquery::lemma_selected_complete(table, created, i);
    crate::coinquery::lemma_selected_complete(table, spent, i);
}

/// How the store holds one byte string against another.
pub open spec fn blob_compares(op: Operator, left: Seq<u8>, right: Seq<u8>) -> bool {
    match op {
        Operator::AtLeast => !bytes_less(left, right),
        Operator::Above => bytes_less(right, left),
        Operator::AtMost => !bytes_less(right, left),
        Operator::Below => bytes_less(left, right),
    }
}

/// A bound on the value may be held against the stored bytes: the encoded
/// value of a row stands to the encoded bound, byte by byte, as the value
/// stands to the bound.
pub proof fn lemma_value_bound_bytewise(op: Operator, value: u128, bound: u128)
    ensures
        blob_compares(op, be_bytes(value as nat, 16), be_bytes(bound as nat, 16)) <==> compares(
            op,
            value as int,
            bound as int,
        ),
{
    lemma_values_ordered(value, bound);
    lemma_values_ordered(bound, value);
}

} // verus!
