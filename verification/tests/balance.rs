use melblkidx::balance::{sum_values, BalanceTracker, Plan};
use melblkidx::coinquery::CoinQuery;
use melblkidx::types::{CoinData, CoinInfo, CoinSpendInfo, Denom, HashVal};

fn coin(id: u8, created: u64, value: u128, denom: Denom, spent: Option<u64>) -> CoinInfo {
    CoinInfo {
        create_txhash: HashVal([id; 32]),
        create_index: 0,
        create_height: created,
        coin_data: CoinData {
            covhash: HashVal([0; 32]),
            value,
            denom,
            additional_data: vec![],
        },
        spend_info: spent.map(|h| CoinSpendInfo {
            spend_txhash: HashVal([200; 32]),
            spend_index: 0,
            spend_height: h,
        }),
    }
}

fn table() -> Vec<CoinInfo> {
    vec![
        coin(1, 50, 10, Denom::Mel, None),
        coin(2, 200, 20, Denom::Mel, Some(450)),
        coin(3, 400, 40, Denom::Mel, None),
        coin(4, 400, 1000, Denom::Sym, None),
        coin(5, 120, 7, Denom::Mel, Some(130)),
        coin(6, 600, 5, Denom::Mel, Some(600)),
    ]
}

/// The balance counted row by row.
fn scratch(rows: &[CoinInfo], denom: Denom, h: u64) -> u128 {
    rows.iter()
        .filter(|c| c.coin_data.denom == denom)
        .filter(|c| c.create_height <= h && c.spend_info.map_or(true, |s| s.spend_height > h))
        .map(|c| c.coin_data.value)
        .sum()
}

fn mel() -> BalanceTracker {
    CoinQuery::new().denom(Denom::Mel).balance_tracker()
}

fn cache_of(tracker: &BalanceTracker) -> Vec<(u64, u128)> {
    tracker.cached().into_iter().collect()
}

#[test]
fn probes_at_100_500_300_are_all_kept_and_exact() {
    let rows = table();
    let mut tracker = mel();
    assert_eq!(tracker.balance_at(&rows, 100), Some(10));
    assert_eq!(tracker.balance_at(&rows, 500), Some(50));
    assert_eq!(tracker.balance_at(&rows, 300), Some(30));
    assert_eq!(cache_of(&tracker), vec![(100, 10), (300, 30), (500, 50)]);
    for (h, v) in cache_of(&tracker) {
        assert_eq!(v, scratch(&rows, Denom::Mel, h));
    }
}

#[test]
fn plans_follow_the_nearest_neighbour() {
    let rows = table();
    let mut tracker = mel();
    assert_eq!(tracker.plan(100), Plan::Scratch);
    tracker.balance_at(&rows, 100);
    assert_eq!(tracker.plan(100), Plan::Hit(10));
    assert_eq!(tracker.plan(150), Plan::FromPrev { height: 100, balance: 10 });
    assert_eq!(tracker.plan(60), Plan::FromNext { height: 100, balance: 10 });
    tracker.balance_at(&rows, 500);
    assert_eq!(tracker.plan(299), Plan::FromPrev { height: 100, balance: 10 });
    assert_eq!(tracker.plan(301), Plan::FromNext { height: 500, balance: 50 });
    assert_eq!(tracker.plan(700), Plan::FromPrev { height: 500, balance: 50 });
    assert_eq!(tracker.plan(0), Plan::FromNext { height: 100, balance: 10 });
}

#[test]
fn equal_distance_goes_to_the_lower_neighbour() {
    let rows = table();
    let mut tracker = mel();
    tracker.balance_at(&rows, 100);
    tracker.balance_at(&rows, 500);
    assert_eq!(tracker.plan(300), Plan::FromPrev { height: 100, balance: 10 });
}

#[test]
fn going_back_from_a_higher_height_is_exact() {
    let rows = table();
    let mut tracker = mel();
    assert_eq!(tracker.balance_at(&rows, 500), Some(50));
    assert_eq!(tracker.balance_at(&rows, 425), Some(70));
    assert_eq!(tracker.balance_at(&rows, 125), Some(17));
    assert_eq!(tracker.balance_at(&rows, 10), Some(0));
    assert_eq!(cache_of(&tracker), vec![(10, 0), (125, 17), (425, 70), (500, 50)]);
}

#[test]
fn flat_stretch_is_not_kept() {
    let rows = table();
    let mut tracker = mel();
    tracker.balance_at(&rows, 100);
    // Nothing happens between 100 and 110: the balance is that of 100.
    assert_eq!(tracker.balance_at(&rows, 110), Some(10));
    assert_eq!(cache_of(&tracker), vec![(100, 10)]);
    // The coin created at 120 is spent at 130: at 140 the balance is 10 again.
    assert_eq!(tracker.balance_at(&rows, 140), Some(10));
    assert_eq!(cache_of(&tracker), vec![(100, 10)]);
    assert_eq!(tracker.balance_at(&rows, 125), Some(17));
    assert_eq!(cache_of(&tracker), vec![(100, 10), (125, 17)]);
}

#[test]
fn balance_found_from_scratch_is_kept_even_when_zero() {
    let rows = table();
    let mut tracker = mel();
    assert_eq!(tracker.balance_at(&rows, 0), Some(0));
    assert_eq!(cache_of(&tracker), vec![(0, 0)]);
    // Found from the neighbour at 0 and equal to it: not kept.
    assert_eq!(tracker.balance_at(&rows, 49), Some(0));
    assert_eq!(cache_of(&tracker), vec![(0, 0)]);
}

#[test]
fn a_hit_returns_what_was_kept() {
    let rows = table();
    let mut tracker = mel();
    assert_eq!(tracker.balance_at(&rows, 300), Some(30));
    let plan = tracker.plan(300);
    assert_eq!(plan, Plan::Hit(30));
    assert!(tracker.queries(&plan, 300).is_none());
    assert_eq!(tracker.balance_at(&rows, 300), Some(30));
    assert_eq!(cache_of(&tracker), vec![(300, 30)]);
}

#[test]
fn coin_spent_at_its_own_height_never_counts() {
    let rows = table();
    let mut tracker = mel();
    assert_eq!(tracker.balance_at(&rows, 599), Some(50));
    assert_eq!(tracker.balance_at(&rows, 600), Some(50));
    assert_eq!(tracker.balance_at(&rows, 601), Some(50));
}

#[test]
fn balance_steps_match_what_came_and_went() {
    let rows = table();
    let mut tracker = mel();
    for h in 0..650u64 {
        let here = tracker.balance_at(&rows, h).unwrap() as i128;
        let next = tracker.balance_at(&rows, h + 1).unwrap() as i128;
        let alive = |c: &CoinInfo, at: u64| {
            c.create_height <= at && c.spend_info.map_or(true, |s| s.spend_height > at)
        };
        let mel = rows.iter().filter(|c| c.coin_data.denom == Denom::Mel);
        let came: i128 = mel
            .clone()
            .filter(|c| alive(c, h + 1) && !alive(c, h))
            .map(|c| c.coin_data.value as i128)
            .sum();
        let went: i128 = mel
            .filter(|c| alive(c, h) && !alive(c, h + 1))
            .map(|c| c.coin_data.value as i128)
            .sum();
        assert_eq!(next - here, came - went, "at {}", h);
    }
}

#[test]
fn every_order_of_probes_gives_the_balance_from_scratch() {
    let rows = table();
    let heights = [0u64, 50, 125, 130, 300, 450, 600];
    // All orders of seven probes, by Heap's algorithm.
    let mut order: Vec<usize> = (0..heights.len()).collect();
    let mut counters = vec![0usize; order.len()];
    let mut check = |order: &Vec<usize>| {
        let mut tracker = mel();
        for &i in order.iter() {
            let h = heights[i];
            assert_eq!(tracker.balance_at(&rows, h), Some(scratch(&rows, Denom::Mel, h)));
        }
        for (h, v) in tracker.cached() {
            assert_eq!(v, scratch(&rows, Denom::Mel, h));
        }
    };
    check(&order);
    let mut i = 0;
    while i < order.len() {
        if counters[i] < i {
            if i % 2 == 0 {
                order.swap(0, i);
            } else {
                order.swap(counters[i], i);
            }
            check(&order);
            counters[i] += 1;
            i = 0;
        } else {
            counters[i] = 0;
            i += 1;
        }
    }
}

#[test]
fn tracker_of_another_denom_is_separate() {
    let rows = table();
    let mut sym = CoinQuery::new().denom(Denom::Sym).balance_tracker();
    assert_eq!(sym.balance_at(&rows, 399), Some(0));
    assert_eq!(sym.balance_at(&rows, 400), Some(1000));
    assert_eq!(sym.balance_at(&rows, u64::MAX), Some(1000));
}

#[test]
fn the_last_height_there_is_can_be_asked() {
    let rows = table();
    let mut tracker = mel();
    assert_eq!(tracker.balance_at(&rows, u64::MAX), Some(50));
    assert_eq!(tracker.balance_at(&rows, u64::MAX - 1), Some(50));
    assert_eq!(tracker.balance_at(&rows, 0), Some(0));
}

#[test]
fn sums_stop_at_the_largest_value() {
    let rows = vec![
        coin(1, 1, u128::MAX, Denom::Mel, None),
        coin(2, 1, 5, Denom::Mel, None),
    ];
    assert_eq!(sum_values(&rows), u128::MAX);
    assert_eq!(sum_values(&rows[1..].to_vec()), 5);
    assert_eq!(sum_values(&vec![]), 0);
    let mut tracker = mel();
    assert_eq!(tracker.balance_at(&rows, 1), Some(u128::MAX));
}

#[test]
fn settling_holds_the_balance_within_its_range() {
    let mut tracker = mel();
    let up = Plan::FromPrev { height: 1, balance: u128::MAX - 1 };
    assert_eq!(tracker.settle(5, &up, 10, 3), u128::MAX);
    let down = Plan::FromPrev { height: 1, balance: 4 };
    assert_eq!(tracker.settle(6, &down, 1, 10), 0);
    let back = Plan::FromNext { height: 9, balance: 4 };
    assert_eq!(tracker.settle(7, &back, 10, 1), 0);
    assert_eq!(tracker.settle(8, &back, 1, 10), 13);
    assert_eq!(tracker.settle(9, &Plan::Scratch, u128::MAX, 1), u128::MAX);
    assert_eq!(tracker.settle(10, &Plan::Hit(77), 1, 2), 77);
}

#[test]
fn queries_of_a_plan_select_what_it_adds_up() {
    let rows = table();
    let tracker = mel();
    let (created, spent) = tracker
        .queries(&Plan::FromPrev { height: 100, balance: 10 }, 450)
        .unwrap();
    let values = |q: &CoinQuery| -> Vec<u128> {
        q.iter(&rows).iter().map(|c| c.coin_data.value).collect()
    };
    assert_eq!(values(&created), vec![20, 40, 7]);
    assert_eq!(values(&spent), vec![20, 7]);
    let (unspent, later) = tracker.queries(&Plan::Scratch, 200).unwrap();
    assert_eq!(values(&unspent), vec![10]);
    assert_eq!(values(&later), vec![20]);
    let (created, spent) = tracker
        .queries(&Plan::FromNext { height: 450, balance: 50 }, 130)
        .unwrap();
    assert_eq!(values(&created), vec![20, 40]);
    assert_eq!(values(&spent), vec![20]);
}
