//! The balance of a query over time: the sum of the values of the matching
//! coins that are alive at a height, computed from the nearest height that
//! was asked before.

use crate::balance_laws::{alive_sum, cache_exact, lemma_alive_bounded};
use crate::balance_laws::lemma_balance_is_alive_sum;
use crate::coinquery::{Bound, CoinQuery, PredicateView};
use crate::coinquery::{create_height_conditions, selected, spend_height_conditions};
use crate::table::spends_follow;
use crate::types::{CoinInfo, CoinInfoView, coin_info_views};
use std::collections::BTreeMap;
use vstd::prelude::*;

verus! {

/// The sum of the values of a sequence of rows.
pub open spec fn value_sum(rows: Seq<CoinInfoView>) -> nat
    decreases rows.len(),
{
    if rows.len() == 0 {
        0
    } else {
        value_sum(rows.drop_last()) + rows.last().coin_data.value as nat
    }
}

/// An integer held to the range of a balance: below zero it counts as zero,
/// above the largest 128-bit number as that number.
pub open spec fn clamp(v: int) -> u128 {
    if v < 0 {
        0
    } else if v > u128::MAX {
        u128::MAX
    } else {
        v as u128
    }
}

/// The sum of the values of a sequence of rows, as a balance.
pub open spec fn capped_sum(rows: Seq<CoinInfoView>) -> u128 {
    clamp(value_sum(rows) as int)
}

/// Adds the value of one more row to a sum; the sum stops at the largest
/// 128-bit number.
pub fn accumulate(total: u128, row: &CoinInfo) -> (sum: u128)
    ensures
        sum == clamp(total + row@.coin_data.value),
{
    total.saturating_add(row.coin_data.value)
}

/// Adds up the values of rows; the sum stops at the largest 128-bit number.
pub fn sum_values(rows: &Vec<CoinInfo>) -> (total: u128)
    ensures
        total == capped_sum(coin_info_views(rows@)),
{
    let ghost views = coin_info_views(rows@);
    let mut total: u128 = 0;
    let mut i: usize = 0;
    proof {
        assert(views.take(0) =~= Seq::empty());
    }
    while i < rows.len()
        invariant
            i <= rows@.len(),
            views == coin_info_views(rows@),
            total == capped_sum(views.take(i as int)),
        decreases rows@.len() - i,
    {
        proof {
            assert(views.take(i + 1).drop_last() =~= views.take(i as int));
            assert(views.take(i + 1).last() == rows@[i as int]@);
        }
        total = accumulate(total, &rows[i]);
        i = i + 1;
    }
    proof {
        assert(views.take(i as int) =~= views);
    }
    total
}

/// The conditions of the matching coins created up to `h` and never spent.
pub open spec fn unspent_conditions(q: Seq<PredicateView>, h: u64) -> Seq<PredicateView> {
    q + create_height_conditions(Bound::Unbounded, Bound::Included(h)) + seq![
        PredicateView::Unspent,
    ]
}

/// The conditions of the matching coins created up to `h` and spent after `h`.
pub open spec fn spent_later_conditions(q: Seq<PredicateView>, h: u64) -> Seq<PredicateView> {
    q + create_height_conditions(Bound::Unbounded, Bound::Included(h)) + spend_height_conditions(
        Bound::Excluded(h),
        Bound::Unbounded,
    )
}

/// The conditions of the matching coins created after `a` and up to `b`.
pub open spec fn created_conditions(q: Seq<PredicateView>, a: u64, b: u64) -> Seq<PredicateView> {
    q + create_height_conditions(Bound::Excluded(a), Bound::Included(b))
}

/// The conditions of the matching coins spent after `a` and up to `b`.
pub open spec fn spent_conditions(q: Seq<PredicateView>, a: u64, b: u64) -> Seq<PredicateView> {
    q + spend_height_conditions(Bound::Excluded(a), Bound::Included(b))
}

/// How the balance at a height is to be found.
#[derive(Clone, Copy, Debug, PartialEq, Eq)]
pub enum Plan {
    /// The height was asked before: this is its balance.
    Hit(u128),
    /// Nothing was asked before: add up the coins alive at the height.
    Scratch,
    /// Go forward from a lower height that was asked before.
    FromPrev { height: u64, balance: u128 },
    /// Go back from a higher height that was asked before.
    FromNext { height: u64, balance: u128 },
}

/// Whether `p` is the greatest cached height below `h`.
pub open spec fn is_prev(cache: Map<u64, u128>, h: u64, p: u64) -> bool {
    &&& cache.dom().contains(p)
    &&& p < h
    &&& forall|k: u64| cache.dom().contains(k) && k < h ==> k <= p
}

/// Whether `n` is the smallest cached height above `h`.
pub open spec fn is_next(cache: Map<u64, u128>, h: u64, n: u64) -> bool {
    &&& cache.dom().contains(n)
    &&& n > h
    &&& forall|k: u64| cache.dom().contains(k) && k > h ==> k >= n
}

/// Whether some cached height lies below `h`.
pub open spec fn has_prev(cache: Map<u64, u128>, h: u64) -> bool {
    exists|p: u64| is_prev(cache, h, p)
}

/// Whether some cached height lies above `h`.
pub open spec fn has_next(cache: Map<u64, u128>, h: u64) -> bool {
    exists|n: u64| is_next(cache, h, n)
}

/// The greatest cached height below `h`.
pub open spec fn prev_of(cache: Map<u64, u128>, h: u64) -> u64 {
    choose|p: u64| is_prev(cache, h, p)
}

/// The smallest cached height above `h`.
pub open spec fn next_of(cache: Map<u64, u128>, h: u64) -> u64 {
    choose|n: u64| is_next(cache, h, n)
}

/// How the balance at `h` is found with a given cache: from the cache where
/// it holds `h`; from scratch where it holds no other height; else from the
/// nearer of the two neighbours, the lower one where both are as near.
pub open spec fn planned(cache: Map<u64, u128>, h: u64) -> Plan {
    if cache.dom().contains(h) {
        Plan::Hit(cache[h])
    } else if !has_prev(cache, h) && !has_next(cache, h) {
        Plan::Scratch
    } else if has_next(cache, h) && (!has_prev(cache, h) || next_of(cache, h) - h < h - prev_of(
        cache,
        h,
    )) {
        Plan::FromNext { height: next_of(cache, h), balance: cache[next_of(cache, h)] }
    } else {
        Plan::FromPrev { height: prev_of(cache, h), balance: cache[prev_of(cache, h)] }
    }
}

/// The two lists of conditions whose matching rows a plan adds up; none for
/// a hit.
pub open spec fn plan_conditions(plan: Plan, q: Seq<PredicateView>, h: u64) -> Option<
    (Seq<PredicateView>, Seq<PredicateView>),
> {
    match plan {
        Plan::Hit(_) => None,
        Plan::Scratch => Some((unspent_conditions(q, h), spent_later_conditions(q, h))),
        Plan::FromPrev { height, .. } => Some(
            (created_conditions(q, height, h), spent_conditions(q, height, h)),
        ),
        Plan::FromNext { height, .. } => Some(
            (created_conditions(q, h, height), spent_conditions(q, h, height)),
        ),
    }
}

/// The balance that a plan gives from the two sums it asked for.
pub open spec fn combined(plan: Plan, first: u128, second: u128) -> u128 {
    match plan {
        Plan::Hit(v) => v,
        Plan::Scratch => clamp(first + second),
        Plan::FromPrev { balance, .. } => clamp(balance + first - second),
        Plan::FromNext { balance, .. } => clamp(balance - first + second),
    }
}

/// The balance that a plan gives over a table.
pub open spec fn computed(plan: Plan, rows: Seq<CoinInfoView>, q: Seq<PredicateView>, h: u64) -> u128 {
    match plan_conditions(plan, q, h) {
        None => combined(plan, 0, 0),
        Some((first, second)) => combined(
            plan,
            capped_sum(selected(rows, first)),
            capped_sum(selected(rows, second)),
        ),
    }
}

/// The cache after the balance `v` at `h` was found by a plan: a balance
/// found from scratch is kept; one found from a neighbour is kept unless a
/// neighbour's cached balance is the same.
pub open spec fn memoized(cache: Map<u64, u128>, plan: Plan, h: u64, v: u128) -> Map<u64, u128> {
    match plan {
        Plan::Hit(_) => cache,
        Plan::Scratch => cache.insert(h, v),
        _ => if (has_prev(cache, h) && cache[prev_of(cache, h)] == v) || (has_next(cache, h)
            && cache[next_of(cache, h)] == v) {
            cache
        } else {
            cache.insert(h, v)
        },
    }
}

/// There is at most one greatest cached height below `h`, and at most one
/// smallest above.
pub proof fn lemma_neighbours_unique(cache: Map<u64, u128>, h: u64, a: u64, b: u64)
    ensures
        is_prev(cache, h, a) && is_prev(cache, h, b) ==> a == b,
        is_next(cache, h, a) && is_next(cache, h, b) ==> a == b,
        is_prev(cache, h, a) ==> has_prev(cache, h) && prev_of(cache, h) == a,
        is_next(cache, h, a) ==> has_next(cache, h) && next_of(cache, h) == a,
{
}

/// Tracks the balance of a query at the heights that are asked of it.
#[derive(Debug, PartialEq, Eq)]
pub struct BalanceTracker {
    query: CoinQuery,
    cache: BTreeMap<u64, u128>,
}

impl BalanceTracker {
    /// The conditions of the tracked query.
    pub closed spec fn conditions(&self) -> Seq<PredicateView> {
        self.query@
    }

    /// The balances that are kept, by height.
    pub closed spec fn cache(&self) -> Map<u64, u128> {
        self.cache@
    }

    /// A tracker for a query, with nothing asked yet.
    pub fn new(query: CoinQuery) -> (tracker: BalanceTracker)
        ensures
            tracker.conditions() == query@,
            tracker.cache() == Map::<u64, u128>::empty(),
    {
        BalanceTracker { query, cache: BTreeMap::new() }
    }

    /// The heights whose balance is kept, with their balances.
    pub fn cached(&self) -> (entries: BTreeMap<u64, u128>)
        ensures
            entries@ == self.cache(),
    {
        self.cache.clone()
    }

    /// Looks through the cache for `height` and for its two neighbours.
    fn scan(&self, height: u64) -> (found: (Option<u128>, Option<(u64, u128)>, Option<(u64, u128)>))
        ensures
            match found.0 {
                Some(v) => self.cache().dom().contains(height) && self.cache()[height] == v,
                None => !self.cache().dom().contains(height),
            },
            match found.1 {
                Some(p) => is_prev(self.cache(), height, p.0) && self.cache()[p.0] == p.1,
                None => !has_prev(self.cache(), height),
            },
            match found.2 {
                Some(n) => is_next(self.cache(), height, n.0) && self.cache()[n.0] == n.1,
                None => !has_next(self.cache(), height),
            },
    {
        let ghost cache = self.cache@;
        let mut hit: Option<u128> = None;
        let mut prev: Option<(u64, u128)> = None;
        let mut next: Option<(u64, u128)> = None;
        for entry in it: self.cache.iter()
            invariant
                cache == self.cache@,
                forall|j: int|
                    0 <= j < it.seq().len() ==> cache.dom().contains(*(#[trigger] it.seq()[j]).0)
                        && cache[*it.seq()[j].0] == *it.seq()[j].1,
                forall|k: u64| #[trigger]
                    cache.dom().contains(k) ==> (exists|j: int|
                        it.index() <= j < it.seq().len() && *(#[trigger] it.seq()[j]).0 == k) || {
                        &&& k == height ==> hit == Some(cache[k])
                        &&& k < height ==> (prev matches Some(p) && k <= p.0)
                        &&& k > height ==> (next matches Some(n) && k >= n.0)
                    },
                hit matches Some(v) ==> (cache.dom().contains(height) && cache[height] == v),
                prev matches Some(p) ==> (p.0 < height && cache.dom().contains(p.0) && cache[p.0]
                    == p.1),
                next matches Some(n) ==> (n.0 > height && cache.dom().contains(n.0) && cache[n.0]
                    == n.1),
        {
            let key = *entry.0;
            let value = *entry.1;
            if key == height {
                hit = Some(value);
            } else if key < height {
                let better = match prev {
                    Some(p) => key > p.0,
                    None => true,
                };
                if better {
                    prev = Some((key, value));
                }
            } else {
                let better = match next {
                    Some(n) => key < n.0,
                    None => true,
                };
                if better {
                    next = Some((key, value));
                }
            }
        }
        (hit, prev, next)
    }

    /// How the balance at `height` is to be found.
    pub fn plan(&self, height: u64) -> (plan: Plan)
        ensures
            plan == planned(self.cache(), height),
    {
        let (hit, prev, next) = self.scan(height);
        proof {
            if let Some(p) = prev {
                lemma_neighbours_unique(self.cache(), height, p.0, p.0);
            }
            if let Some(n) = next {
                lemma_neighbours_unique(self.cache(), height, n.0, n.0);
            }
        }
        match hit {
            Some(v) => Plan::Hit(v),
            None => match (prev, next) {
                (None, None) => Plan::Scratch,
                (Some(p), None) => Plan::FromPrev { height: p.0, balance: p.1 },
                (None, Some(n)) => Plan::FromNext { height: n.0, balance: n.1 },
                (Some(p), Some(n)) => if n.0 - height < height - p.0 {
                    Plan::FromNext { height: n.0, balance: n.1 }
                } else {
                    Plan::FromPrev { height: p.0, balance: p.1 }
                },
            },
        }
    }

    /// The two queries whose matching rows a plan adds up; none for a hit.
    pub fn queries(&self, plan: &Plan, height: u64) -> (out: Option<(CoinQuery, CoinQuery)>)
        ensures
            match out {
                Some((first, second)) => plan_conditions(*plan, self.conditions(), height) == Some(
                    (first@, second@),
                ),
                None => plan_conditions(*plan, self.conditions(), height) is None,
            },
    {
        match plan {
            Plan::Hit(_) => None,
            Plan::Scratch => {
                let first = self.query.clone().create_height_range(
                    Bound::Unbounded,
                    Bound::Included(height),
                ).unspent();
                let second = self.query.clone().create_height_range(
                    Bound::Unbounded,
                    Bound::Included(height),
                ).spend_height_range(Bound::Excluded(height), Bound::Unbounded);
                proof {
                    assert(first@ =~= unspent_conditions(self.conditions(), height));
                }
                Some((first, second))
            },
            Plan::FromPrev { height: from, .. } => {
                let first = self.query.clone().create_height_range(
                    Bound::Excluded(*from),
                    Bound::Included(height),
                );
                let second = self.query.clone().spend_height_range(
                    Bound::Excluded(*from),
                    Bound::Included(height),
                );
                Some((first, second))
            },
            Plan::FromNext { height: to, .. } => {
                let first = self.query.clone().create_height_range(
                    Bound::Excluded(height),
                    Bound::Included(*to),
                );
                let second = self.query.clone().spend_height_range(
                    Bound::Excluded(height),
                    Bound::Included(*to),
                );
                Some((first, second))
            },
        }
    }

    /// Binds a height to a balance in the cache.
    fn remember(&mut self, height: u64, balance: u128)
        ensures
            final(self).cache() == old(self).cache().insert(height, balance),
            final(self).conditions() == old(self).conditions(),
    {
        self.cache.insert(height, balance);
    }

    /// Turns the two sums that a plan asked for into the balance at `height`,
    /// and keeps it as the cache's rule says.
    pub fn settle(&mut self, height: u64, plan: &Plan, first: u128, second: u128) -> (balance: u128)
        ensures
            balance == combined(*plan, first, second),
            final(self).cache() == memoized(old(self).cache(), *plan, height, balance),
            final(self).conditions() == old(self).conditions(),
    {
        let (_, prev, next) = self.scan(height);
        proof {
            if let Some(p) = prev {
                lemma_neighbours_unique(self.cache(), height, p.0, p.0);
            }
            if let Some(n) = next {
                lemma_neighbours_unique(self.cache(), height, n.0, n.0);
            }
        }
        match plan {
            Plan::Hit(v) => *v,
            Plan::Scratch => {
                let balance = first.saturating_add(second);
                self.remember(height, balance);
                balance
            },
            Plan::FromPrev { balance: from, .. } => {
                let balance = if first >= second {
                    from.saturating_add(first - second)
                } else {
                    from.saturating_sub(second - first)
                };
                self.keep_unless_flat(height, balance, prev, next);
                balance
            },
            Plan::FromNext { balance: from, .. } => {
                let balance = if second >= first {
                    from.saturating_add(second - first)
                } else {
                    from.saturating_sub(first - second)
                };
                self.keep_unless_flat(height, balance, prev, next);
                balance
            },
        }
    }

    /// Keeps a balance unless a neighbour's cached balance is the same.
    fn keep_unless_flat(
        &mut self,
        height: u64,
        balance: u128,
        prev: Option<(u64, u128)>,
        next: Option<(u64, u128)>,
    )
        requires
            match prev {
                Some(p) => has_prev(old(self).cache(), height) && old(self).cache()[prev_of(
                    old(self).cache(),
                    height,
                )] == p.1,
                None => !has_prev(old(self).cache(), height),
            },
            match next {
                Some(n) => has_next(old(self).cache(), height) && old(self).cache()[next_of(
                    old(self).cache(),
                    height,
                )] == n.1,
                None => !has_next(old(self).cache(), height),
            },
        ensures
            final(self).conditions() == old(self).conditions(),
            final(self).cache() == if (has_prev(old(self).cache(), height) && old(self).cache()[prev_of(
                old(self).cache(),
                height,
            )] == balance) || (has_next(old(self).cache(), height) && old(self).cache()[next_of(
                old(self).cache(),
                height,
            )] == balance) {
                old(self).cache()
            } else {
                old(self).cache().insert(height, balance)
            },
    {
        let flat_prev = match prev {
            Some(p) => p.1 == balance,
            None => false,
        };
        let flat_next = match next {
            Some(n) => n.1 == balance,
            None => false,
        };
        if !flat_prev && !flat_next {
            self.remember(height, balance);
        }
    }

    /// The balance of the tracked query at `height` over a table, found as
    /// the plan for `height` says.
    ///
    /// Where every kept balance is exact for the table, no coin of the table
    /// is spent before it is created, and the values of the matching coins
    /// together fit 128 bits, the result is the sum of the values of the
    /// matching coins that are alive at `height`, and what is kept stays
    /// exact.
    pub fn balance_at(&mut self, rows: &Vec<CoinInfo>, height: u64) -> (out: Option<u128>)
        ensures
            out == Some(
                computed(
                    planned(old(self).cache(), height),
                    coin_info_views(rows@),
                    old(self).conditions(),
                    height,
                ),
            ),
            final(self).cache() == memoized(
                old(self).cache(),
                planned(old(self).cache(), height),
                height,
                out.unwrap(),
            ),
            final(self).conditions() == old(self).conditions(),
            spends_follow(coin_info_views(rows@)) && value_sum(
                selected(coin_info_views(rows@), old(self).conditions()),
            ) <= u128::MAX && cache_exact(
                old(self).cache(),
                coin_info_views(rows@),
                old(self).conditions(),
            ) ==> out == Some(
                alive_sum(coin_info_views(rows@), old(self).conditions(), height) as u128,
            ) && alive_sum(coin_info_views(rows@), old(self).conditions(), height) <= u128::MAX
                && cache_exact(
                final(self).cache(),
                coin_info_views(rows@),
                old(self).conditions(),
            ),
    {
        proof {
            let views = coin_info_views(rows@);
            if spends_follow(views) && value_sum(selected(views, self.conditions())) <= u128::MAX
                && cache_exact(self.cache(), views, self.conditions()) {
                lemma_balance_is_alive_sum(self.cache(), views, self.conditions(), height);
                lemma_alive_bounded(views, self.conditions(), height);
            }
        }
        let plan = self.plan(height);
        match self.queries(&plan, height) {
            None => Some(self.settle(height, &plan, 0, 0)),
            Some((first, second)) => {
                let created = sum_values(&first.iter(rows));
                let spent = sum_values(&second.iter(rows));
                Some(self.settle(height, &plan, created, spent))
            },
        }
    }
}

impl CoinQuery {
    /// A balance tracker for this query, with nothing asked yet.
    pub fn balance_tracker(self) -> (tracker: BalanceTracker)
        ensures
            tracker.conditions() == self@,
            tracker.cache() == Map::<u64, u128>::empty(),
    {
        BalanceTracker::new(self)
    }
}

} // verus!
