//! What holds of the balances that a tracker returns and keeps.

use crate::balance::{Plan, capped_sum, clamp, computed, created_conditions, is_next, is_prev};
use crate::balance::{memoized, planned, spent_conditions, spent_later_conditions};
use crate::balance::{unspent_conditions, value_sum};
use crate::coinquery::{Bound, PredicateView, all_hold, holds, selected};
use crate::coinquery::{create_height_conditions, spend_height_conditions};
use crate::table::spends_follow;
use crate::types::CoinInfoView;
use vstd::prelude::*;

verus! {

/// The sum of the values of the rows that meet a condition.
pub open spec fn sum_where(rows: Seq<CoinInfoView>, f: spec_fn(CoinInfoView) -> bool) -> nat
    decreases rows.len(),
{
    if rows.len() == 0 {
        0
    } else if f(rows.last()) {
        sum_where(rows.drop_last(), f) + rows.last().coin_data.value as nat
    } else {
        sum_where(rows.drop_last(), f)
    }
}

/// The balance of a query at a height: the sum of the values of the rows
/// that meet the query's conditions and are alive at the height.
pub open spec fn alive_sum(rows: Seq<CoinInfoView>, q: Seq<PredicateView>, h: u64) -> nat {
    sum_where(rows, |r: CoinInfoView| all_hold(q, r) && r.alive_at(h))
}

/// Whether every balance of a cache is the balance of the query at its height.
pub open spec fn cache_exact(
    cache: Map<u64, u128>,
    rows: Seq<CoinInfoView>,
    q: Seq<PredicateView>,
) -> bool {
    forall|k: u64| cache.dom().contains(k) ==> cache[k] == alive_sum(rows, q, k)
}

/// The number 1 for a true condition and 0 for a false one.
pub open spec fn unit(b: bool) -> int {
    if b {
        1
    } else {
        0
    }
}

/// The values of the selected rows add up to the sum over the rows that
/// meet the conditions.
pub proof fn lemma_selected_sum(rows: Seq<CoinInfoView>, ps: Seq<PredicateView>)
    ensures
        value_sum(selected(rows, ps)) == sum_where(rows, |r: CoinInfoView| all_hold(ps, r)),
    decreases rows.len(),
{
    if rows.len() > 0 {
        lemma_selected_sum(rows.drop_last(), ps);
        if all_hold(ps, rows.last()) {
            let s = selected(rows.drop_last(), ps).push(rows.last());
            assert(s.drop_last() =~= selected(rows.drop_last(), ps));
        }
    }
}

/// Where, row by row, two conditions count as often as two others, their
/// sums are as large.
pub proof fn lemma_sums_balance(
    rows: Seq<CoinInfoView>,
    f1: spec_fn(CoinInfoView) -> bool,
    f2: spec_fn(CoinInfoView) -> bool,
    g1: spec_fn(CoinInfoView) -> bool,
    g2: spec_fn(CoinInfoView) -> bool,
)
    requires
        forall|i: int|
            0 <= i < rows.len() ==> unit(f1(#[trigger] rows[i])) + unit(f2(rows[i])) == unit(
                g1(rows[i]),
            ) + unit(g2(rows[i])),
    ensures
        sum_where(rows, f1) + sum_where(rows, f2) == sum_where(rows, g1) + sum_where(rows, g2),
    decreases rows.len(),
{
    if rows.len() > 0 {
        let init = rows.drop_last();
        assert forall|i: int| 0 <= i < init.len() implies unit(f1(#[trigger] init[i])) + unit(
            f2(init[i]),
        ) == unit(g1(init[i])) + unit(g2(init[i])) by {
            assert(init[i] == rows[i]);
        }
        lemma_sums_balance(init, f1, f2, g1, g2);
        assert(rows.last() == rows[rows.len() - 1]);
    }
}

/// A condition that no row meets sums to nothing.
pub proof fn lemma_sum_of_none(rows: Seq<CoinInfoView>)
    ensures
        sum_where(rows, |r: CoinInfoView| false) == 0,
    decreases rows.len(),
{
    if rows.len() > 0 {
        lemma_sum_of_none(rows.drop_last());
    }
}

/// A row meets two lists of conditions put together exactly if it meets both.
pub proof fn lemma_all_hold_concat(a: Seq<PredicateView>, b: Seq<PredicateView>, row: CoinInfoView)
    ensures
        all_hold(a + b, row) <==> all_hold(a, row) && all_hold(b, row),
{
    let c = a + b;
    if all_hold(c, row) {
        assert forall|i: int| 0 <= i < a.len() implies holds(#[trigger] a[i], row) by {
            assert(c[i] == a[i]);
        }
        assert forall|i: int| 0 <= i < b.len() implies holds(#[trigger] b[i], row) by {
            assert(c[a.len() + i] == b[i]);
        }
    }
    if all_hold(a, row) && all_hold(b, row) {
        assert forall|i: int| 0 <= i < c.len() implies holds(#[trigger] c[i], row) by {
            if i < a.len() {
                assert(c[i] == a[i]);
            } else {
                assert(c[i] == b[i - a.len()]);
            }
        }
    }
}

/// What the conditions of a plan's queries ask of a row.
pub proof fn lemma_conditions_meaning(q: Seq<PredicateView>, row: CoinInfoView, a: u64, b: u64)
    ensures
        all_hold(unspent_conditions(q, b), row) <==> all_hold(q, row) && row.create_height <= b
            && row.spend_info is None,
        all_hold(spent_later_conditions(q, b), row) <==> all_hold(q, row) && row.create_height <= b
            && (row.spend_info matches Some(s) && s.spend_height > b),
        all_hold(created_conditions(q, a, b), row) <==> all_hold(q, row) && a < row.create_height
            <= b,
        all_hold(spent_conditions(q, a, b), row) <==> all_hold(q, row) && (
        row.spend_info matches Some(s) && a < s.spend_height <= b),
{
    let upto = create_height_conditions(Bound::Unbounded, Bound::Included(b));
    let later = spend_height_conditions(Bound::Excluded(b), Bound::Unbounded);
    let created = create_height_conditions(Bound::Excluded(a), Bound::Included(b));
    let spent = spend_height_conditions(Bound::Excluded(a), Bound::Included(b));
    let unspent = seq![PredicateView::Unspent];
    lemma_all_hold_concat(q, upto, row);
    lemma_all_hold_concat(q + upto, unspent, row);
    lemma_all_hold_concat(q + upto, later, row);
    lemma_all_hold_concat(q, created, row);
    lemma_all_hold_concat(q, spent, row);
    assert(all_hold(upto, row) <==> row.create_height <= b) by {
        assert(upto.len() == 1);
        if all_hold(upto, row) {
            assert(holds(upto[0], row));
        }
    }
    assert(all_hold(unspent, row) <==> row.spend_info is None) by {
        if all_hold(unspent, row) {
            assert(holds(unspent[0], row));
        }
    }
    assert(all_hold(later, row) <==> (row.spend_info matches Some(s) && s.spend_height > b)) by {
        assert(later.len() == 1);
        if all_hold(later, row) {
            assert(holds(later[0], row));
        }
    }
    assert(all_hold(created, row) <==> a < row.create_height <= b) by {
        assert(created.len() == 2);
        if all_hold(created, row) {
            assert(holds(created[0], row));
            assert(holds(created[1], row));
        }
    }
    assert(all_hold(spent, row) <==> (row.spend_info matches Some(s) && a < s.spend_height <= b))
        by {
        assert(spent.len() == 2);
        if all_hold(spent, row) {
            assert(holds(spent[0], row));
            assert(holds(spent[1], row));
        }
    }
}

/// Between two heights the balance changes by what came alive less what
/// ceased to be alive.
pub proof fn lemma_balance_steps(rows: Seq<CoinInfoView>, q: Seq<PredicateView>, h: u64, later: u64)
    ensures
        alive_sum(rows, q, later) - alive_sum(rows, q, h) == sum_where(
            rows,
            |r: CoinInfoView| all_hold(q, r) && r.alive_at(later) && !r.alive_at(h),
        ) - sum_where(rows, |r: CoinInfoView| all_hold(q, r) && r.alive_at(h) && !r.alive_at(later)),
{
    lemma_sums_balance(
        rows,
        |r: CoinInfoView| all_hold(q, r) && r.alive_at(later),
        |r: CoinInfoView| all_hold(q, r) && r.alive_at(h) && !r.alive_at(later),
        |r: CoinInfoView| all_hold(q, r) && r.alive_at(h),
        |r: CoinInfoView| all_hold(q, r) && r.alive_at(later) && !r.alive_at(h),
    );
}

/// From a height to the next the balance changes by the coins alive at the
/// next height less the coins alive at the first and not at the next, where
/// the coins alive at both heights are worth nothing together.
pub proof fn lemma_balance_step_without_survivors(
    rows: Seq<CoinInfoView>,
    q: Seq<PredicateView>,
    h: u64,
)
    requires
        h < u64::MAX,
        sum_where(
            rows,
            |r: CoinInfoView| all_hold(q, r) && r.alive_at(h) && r.alive_at((h + 1) as u64),
        ) == 0,
    ensures
        alive_sum(rows, q, (h + 1) as u64) - alive_sum(rows, q, h) == sum_where(
            rows,
            |r: CoinInfoView|
                all_hold(q, r) && r.create_height <= h + 1 && r.alive_at((h + 1) as u64),
        ) - sum_where(
            rows,
            |r: CoinInfoView| all_hold(q, r) && r.alive_at(h) && !r.alive_at((h + 1) as u64),
        ),
{
    let next = (h + 1) as u64;
    lemma_sums_balance(
        rows,
        |r: CoinInfoView| all_hold(q, r) && r.alive_at(h),
        |r: CoinInfoView| false,
        |r: CoinInfoView| all_hold(q, r) && r.alive_at(h) && r.alive_at(next),
        |r: CoinInfoView| all_hold(q, r) && r.alive_at(h) && !r.alive_at(next),
    );
    lemma_sums_balance(
        rows,
        |r: CoinInfoView| all_hold(q, r) && r.alive_at(next),
        |r: CoinInfoView| false,
        |r: CoinInfoView| all_hold(q, r) && r.create_height <= h + 1 && r.alive_at(next),
        |r: CoinInfoView| false,
    );
    lemma_sum_of_none(rows);
}

/// The balance at a height is at most the sum of all matching coins.
pub proof fn lemma_alive_bounded(rows: Seq<CoinInfoView>, q: Seq<PredicateView>, h: u64)
    ensures
        alive_sum(rows, q, h) <= value_sum(selected(rows, q)),
{
    lemma_selected_sum(rows, q);
    lemma_sums_balance(
        rows,
        |r: CoinInfoView| all_hold(q, r) && r.alive_at(h),
        |r: CoinInfoView| all_hold(q, r) && !r.alive_at(h),
        |r: CoinInfoView| all_hold(q, r),
        |r: CoinInfoView| false,
    );
    lemma_sum_of_none(rows);
}

/// The sum of the values of the rows that match a list of conditions.
pub open spec fn matching_sum(rows: Seq<CoinInfoView>, ps: Seq<PredicateView>) -> nat {
    sum_where(rows, |r: CoinInfoView| all_hold(ps, r))
}

/// From scratch, the two sums of a plan add up to the balance.
pub proof fn lemma_scratch_sums(rows: Seq<CoinInfoView>, q: Seq<PredicateView>, h: u64)
    ensures
        matching_sum(rows, unspent_conditions(q, h)) + matching_sum(
            rows,
            spent_later_conditions(q, h),
        ) == alive_sum(rows, q, h),
{
    assert forall|i: int| 0 <= i < rows.len() implies unit(
        all_hold(unspent_conditions(q, h), #[trigger] rows[i]),
    ) + unit(all_hold(spent_later_conditions(q, h), rows[i])) == unit(
        all_hold(q, rows[i]) && rows[i].alive_at(h),
    ) + unit(false) by {
        lemma_conditions_meaning(q, rows[i], 0, h);
    }
    lemma_sums_balance(
        rows,
        |r: CoinInfoView| all_hold(unspent_conditions(q, h), r),
        |r: CoinInfoView| all_hold(spent_later_conditions(q, h), r),
        |r: CoinInfoView| all_hold(q, r) && r.alive_at(h),
        |r: CoinInfoView| false,
    );
    lemma_sum_of_none(rows);
}

/// Between two heights, in a table where no coin is spent before it is
/// created, the balance grows by the coins created and shrinks by the coins
/// spent.
pub proof fn lemma_diff_sums(rows: Seq<CoinInfoView>, q: Seq<PredicateView>, a: u64, b: u64)
    requires
        spends_follow(rows),
        a <= b,
    ensures
        alive_sum(rows, q, b) + matching_sum(rows, spent_conditions(q, a, b)) == alive_sum(
            rows,
            q,
            a,
        ) + matching_sum(rows, created_conditions(q, a, b)),
{
    assert forall|i: int| 0 <= i < rows.len() implies unit(
        all_hold(q, #[trigger] rows[i]) && rows[i].alive_at(b),
    ) + unit(all_hold(spent_conditions(q, a, b), rows[i])) == unit(
        all_hold(q, rows[i]) && rows[i].alive_at(a),
    ) + unit(all_hold(created_conditions(q, a, b), rows[i])) by {
        lemma_conditions_meaning(q, rows[i], a, b);
    }
    lemma_sums_balance(
        rows,
        |r: CoinInfoView| all_hold(q, r) && r.alive_at(b),
        |r: CoinInfoView| all_hold(spent_conditions(q, a, b), r),
        |r: CoinInfoView| all_hold(q, r) && r.alive_at(a),
        |r: CoinInfoView| all_hold(created_conditions(q, a, b), r),
    );
}

/// The sum over the rows that match a query and more conditions is at most
/// the sum over the rows that match the query.
pub proof fn lemma_narrower_sum(rows: Seq<CoinInfoView>, q: Seq<PredicateView>, more: Seq<PredicateView>)
    ensures
        matching_sum(rows, q + more) <= matching_sum(rows, q),
        value_sum(selected(rows, q + more)) == matching_sum(rows, q + more),
        capped_sum(selected(rows, q + more)) == clamp(matching_sum(rows, q + more) as int),
{
    lemma_selected_sum(rows, q + more);
    assert forall|i: int| 0 <= i < rows.len() implies unit(all_hold(q + more, #[trigger] rows[i]))
        + unit(all_hold(q, rows[i]) && !all_hold(more, rows[i])) == unit(all_hold(q, rows[i]))
        + unit(false) by {
        lemma_all_hold_concat(q, more, rows[i]);
    }
    lemma_sums_balance(
        rows,
        |r: CoinInfoView| all_hold(q + more, r),
        |r: CoinInfoView| all_hold(q, r) && !all_hold(more, r),
        |r: CoinInfoView| all_hold(q, r),
        |r: CoinInfoView| false,
    );
    lemma_sum_of_none(rows);
}

/// Whatever was asked before, and in whatever order, the balance that a
/// tracker finds at a height is the sum of the values of the matching coins
/// alive at that height, and what it keeps stays exact. This holds of a
/// table where no coin is spent before it is created and the values of all
/// matching coins together fit 128 bits.
pub proof fn lemma_balance_is_alive_sum(
    cache: Map<u64, u128>,
    rows: Seq<CoinInfoView>,
    q: Seq<PredicateView>,
    h: u64,
)
    requires
        spends_follow(rows),
        value_sum(selected(rows, q)) <= u128::MAX,
        cache_exact(cache, rows, q),
    ensures
        computed(planned(cache, h), rows, q, h) == alive_sum(rows, q, h),
        cache_exact(
            memoized(cache, planned(cache, h), h, computed(planned(cache, h), rows, q, h)),
            rows,
            q,
        ),
{
    let plan = planned(cache, h);
    lemma_selected_sum(rows, q);
    let upto = create_height_conditions(Bound::Unbounded, Bound::Included(h));
    lemma_alive_bounded(rows, q, h);
    assert(alive_sum(rows, q, h) <= u128::MAX);
    match plan {
        Plan::Hit(v) => {},
        Plan::Scratch => {
            lemma_scratch_sums(rows, q, h);
            lemma_narrower_sum(rows, q, upto + seq![PredicateView::Unspent]);
            lemma_narrower_sum(
                rows,
                q,
                upto + spend_height_conditions(Bound::Excluded(h), Bound::Unbounded),
            );
            assert(q + (upto + seq![PredicateView::Unspent]) =~= unspent_conditions(q, h));
            assert(q + (upto + spend_height_conditions(Bound::Excluded(h), Bound::Unbounded))
                =~= spent_later_conditions(q, h));
        },
        Plan::FromPrev { height: p, balance } => {
            assert(is_prev(cache, h, p));
            lemma_diff_sums(rows, q, p, h);
            lemma_narrower_sum(
                rows,
                q,
                create_height_conditions(Bound::Excluded(p), Bound::Included(h)),
            );
            lemma_narrower_sum(
                rows,
                q,
                spend_height_conditions(Bound::Excluded(p), Bound::Included(h)),
            );
            lemma_alive_bounded(rows, q, p);
        },
        Plan::FromNext { height: n, balance } => {
            assert(is_next(cache, h, n));
            lemma_diff_sums(rows, q, h, n);
            lemma_narrower_sum(
                rows,
                q,
                create_height_conditions(Bound::Excluded(h), Bound::Included(n)),
            );
            lemma_narrower_sum(
                rows,
                q,
                spend_height_conditions(Bound::Excluded(h), Bound::Included(n)),
            );
            lemma_alive_bounded(rows, q, n);
        },
    }
}

} // verus!
