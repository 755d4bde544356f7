//! What committing a block does to the coin table and to the table of
//! indexed heights, and what stays true of the tables.

use crate::idmap::distinct_keys;
use crate::ingest::Spender;
use crate::types::{BlockHeader, CoinDataView, CoinID, CoinInfoView, CoinSpendInfo, HeightInfo};
use vstd::prelude::*;

verus! {

/// Whether the table holds a row created under `id` at `height`.
pub open spec fn has_row(rows: Seq<CoinInfoView>, id: CoinID, height: u64) -> bool {
    exists|i: int| 0 <= i < rows.len() && #[trigger] rows[i].id() == id && rows[i].create_height == height
}

/// The row of a coin just created.
pub open spec fn fresh_row(id: CoinID, height: u64, data: CoinDataView) -> CoinInfoView {
    CoinInfoView {
        create_txhash: id.txhash,
        create_index: id.index,
        create_height: height,
        coin_data: data,
        spend_info: None,
    }
}

/// The table after a coin was inserted: a coin that the table already holds
/// under the same id and height is left as it is.
pub open spec fn insert_ignoring(
    rows: Seq<CoinInfoView>,
    id: CoinID,
    height: u64,
    data: CoinDataView,
) -> Seq<CoinInfoView> {
    if has_row(rows, id, height) {
        rows
    } else {
        rows.push(fresh_row(id, height, data))
    }
}

/// The table after the first `n` of a list of new coins were inserted.
pub open spec fn inserted_all(
    rows: Seq<CoinInfoView>,
    entries: Seq<(CoinID, CoinDataView)>,
    height: u64,
    n: nat,
) -> Seq<CoinInfoView>
    decreases n,
{
    if n == 0 {
        rows
    } else {
        insert_ignoring(
            inserted_all(rows, entries, height, (n - 1) as nat),
            entries[n - 1].0,
            height,
            entries[n - 1].1,
        )
    }
}

/// A row with its spend fields set.
pub open spec fn spent_row(row: CoinInfoView, spend: CoinSpendInfo) -> CoinInfoView {
    CoinInfoView { spend_info: Some(spend), ..row }
}

/// The table after every row created under `id`, at whatever height, was
/// marked as spent.
pub open spec fn marked(rows: Seq<CoinInfoView>, id: CoinID, spend: CoinSpendInfo) -> Seq<
    CoinInfoView,
> {
    Seq::new(
        rows.len(),
        |i: int|
            if rows[i].id() == id {
                spent_row(rows[i], spend)
            } else {
                rows[i]
            },
    )
}

/// How a coin spent at `height` by a spender is marked.
pub open spec fn spend_at(by: Spender, height: u64) -> CoinSpendInfo {
    CoinSpendInfo { spend_txhash: by.txhash, spend_index: by.index, spend_height: height }
}

/// The table after the first `n` of a list of spends were marked.
pub open spec fn marked_all(
    rows: Seq<CoinInfoView>,
    entries: Seq<(CoinID, Spender)>,
    height: u64,
    n: nat,
) -> Seq<CoinInfoView>
    decreases n,
{
    if n == 0 {
        rows
    } else {
        marked(
            marked_all(rows, entries, height, (n - 1) as nat),
            entries[n - 1].0,
            spend_at(entries[n - 1].1, height),
        )
    }
}

/// The coin table after a block at `height` was committed: its new coins
/// inserted, then its spends marked.
pub open spec fn rows_after_block(
    rows: Seq<CoinInfoView>,
    new_coins: Seq<(CoinID, CoinDataView)>,
    spent_coins: Seq<(CoinID, Spender)>,
    height: u64,
) -> Seq<CoinInfoView> {
    marked_all(
        inserted_all(rows, new_coins, height, new_coins.len()),
        spent_coins,
        height,
        spent_coins.len(),
    )
}

/// Whether the table of heights holds a height.
pub open spec fn has_height(heights: Seq<HeightInfo>, height: u64) -> bool {
    exists|i: int| 0 <= i < heights.len() && #[trigger] heights[i].height == height
}

/// Whether no height occurs twice in a table of heights.
pub open spec fn heights_distinct(heights: Seq<HeightInfo>) -> bool {
    forall|i: int, j: int|
        0 <= i < j < heights.len() ==> (#[trigger] heights[i]).height != (
        #[trigger] heights[j]).height
}

/// What is kept of a block.
pub open spec fn info_of(header: BlockHeader) -> HeightInfo {
    HeightInfo {
        height: header.height,
        blkhash: header.hash,
        fee_pool: header.fee_pool,
        fee_multiplier: header.fee_multiplier,
        dosc_speed: header.dosc_speed,
    }
}

/// The table of heights after a block was committed: a height that it
/// already holds is left as it is.
pub open spec fn heights_after(heights: Seq<HeightInfo>, info: HeightInfo) -> Seq<HeightInfo> {
    if has_height(heights, info.height) {
        heights
    } else {
        heights.push(info)
    }
}

/// The greatest height of a table of heights, and 0 for an empty one.
pub open spec fn max_height_of(heights: Seq<HeightInfo>) -> u64
    decreases heights.len(),
{
    if heights.len() == 0 {
        0
    } else {
        let rest = max_height_of(heights.drop_last());
        if heights.last().height > rest {
            heights.last().height
        } else {
            rest
        }
    }
}

/// Whether no coin was spent before it was created.
pub open spec fn spends_follow(rows: Seq<CoinInfoView>) -> bool {
    forall|i: int|
        0 <= i < rows.len() ==> (#[trigger] rows[i].spend_info matches Some(s) ==> s.spend_height
            >= rows[i].create_height)
}

/// Whether no two rows were created under one id at one height.
pub open spec fn rows_unique(rows: Seq<CoinInfoView>) -> bool {
    forall|i: int, j: int|
        0 <= i < j < rows.len() ==> !(#[trigger] rows[i].id() == #[trigger] rows[j].id()
            && rows[i].create_height == rows[j].create_height)
}

/// Whether no row was created above a height.
pub open spec fn created_by(rows: Seq<CoinInfoView>, top: u64) -> bool {
    forall|i: int| 0 <= i < rows.len() ==> (#[trigger] rows[i]).create_height <= top
}

/// What holds of a coin table whose blocks were committed up to `top`.
pub open spec fn table_ok(rows: Seq<CoinInfoView>, top: u64) -> bool {
    &&& spends_follow(rows)
    &&& rows_unique(rows)
    &&& created_by(rows, top)
}

/// Whether the heights of a table are all the heights from `low` to `high`,
/// each once.
pub open spec fn heights_contiguous(heights: Seq<HeightInfo>, low: u64, high: u64) -> bool {
    &&& low <= high
    &&& forall|h: u64| low <= h <= high ==> has_height(heights, h)
    &&& forall|i: int| 0 <= i < heights.len() ==> low <= (#[trigger] heights[i]).height <= high
    &&& forall|i: int, j: int|
        0 <= i < j < heights.len() ==> (#[trigger] heights[i]).height != (
        #[trigger] heights[j]).height
}

/// Inserting a coin at the top height keeps the table in order.
pub proof fn lemma_insert_keeps(
    rows: Seq<CoinInfoView>,
    id: CoinID,
    height: u64,
    data: CoinDataView,
)
    requires
        table_ok(rows, height),
    ensures
        table_ok(insert_ignoring(rows, id, height, data), height),
{
    let after = insert_ignoring(rows, id, height, data);
    if !has_row(rows, id, height) {
        assert forall|i: int, j: int| 0 <= i < j < after.len() implies !(#[trigger] after[i].id()
            == #[trigger] after[j].id() && after[i].create_height == after[j].create_height) by {
            if j == rows.len() {
                assert(after[i] == rows[i]);
                assert(!(rows[i].id() == id && rows[i].create_height == height));
            } else {
                assert(after[i] == rows[i] && after[j] == rows[j]);
            }
        }
        assert forall|i: int| 0 <= i < after.len() implies (#[trigger] after[i].spend_info matches Some(
            s,
        ) ==> s.spend_height >= after[i].create_height) by {
            if i < rows.len() {
                assert(after[i] == rows[i]);
            }
        }
        assert forall|i: int| 0 <= i < after.len() implies (#[trigger] after[i]).create_height
            <= height by {
            if i < rows.len() {
                assert(after[i] == rows[i]);
            }
        }
    }
}

/// Marking a coin as spent at the top height keeps the table in order.
pub proof fn lemma_mark_keeps(rows: Seq<CoinInfoView>, id: CoinID, spend: CoinSpendInfo)
    requires
        table_ok(rows, spend.spend_height),
    ensures
        table_ok(marked(rows, id, spend), spend.spend_height),
{
    let after = marked(rows, id, spend);
    assert forall|i: int, j: int| 0 <= i < j < after.len() implies !(#[trigger] after[i].id()
        == #[trigger] after[j].id() && after[i].create_height == after[j].create_height) by {
        assert(after[i].id() == rows[i].id() && after[j].id() == rows[j].id());
    }
    assert forall|i: int| 0 <= i < after.len() implies (#[trigger] after[i].spend_info matches Some(
        s,
    ) ==> s.spend_height >= after[i].create_height) by {
        assert(rows[i].create_height <= spend.spend_height);
        assert(rows[i].spend_info matches Some(s) ==> s.spend_height >= rows[i].create_height);
    }
    assert forall|i: int| 0 <= i < after.len() implies (#[trigger] after[i]).create_height
        <= spend.spend_height by {
        assert(rows[i].create_height <= spend.spend_height);
    }
}

/// Committing a block at or above every height committed before keeps the
/// coin table in order: no coin is spent before it is created, and no two
/// rows share an id and a height.
pub proof fn lemma_block_keeps(
    rows: Seq<CoinInfoView>,
    new_coins: Seq<(CoinID, CoinDataView)>,
    spent_coins: Seq<(CoinID, Spender)>,
    top: u64,
    height: u64,
)
    requires
        table_ok(rows, top),
        top <= height,
    ensures
        table_ok(rows_after_block(rows, new_coins, spent_coins, height), height),
{
    assert(table_ok(rows, height));
    lemma_inserted_keeps(rows, new_coins, height, new_coins.len());
    lemma_marked_keeps(
        inserted_all(rows, new_coins, height, new_coins.len()),
        spent_coins,
        height,
        spent_coins.len(),
    );
}

/// Inserting new coins at the top height keeps the table in order.
pub proof fn lemma_inserted_keeps(
    rows: Seq<CoinInfoView>,
    entries: Seq<(CoinID, CoinDataView)>,
    height: u64,
    n: nat,
)
    requires
        table_ok(rows, height),
    ensures
        table_ok(inserted_all(rows, entries, height, n), height),
    decreases n,
{
    if n > 0 {
        lemma_inserted_keeps(rows, entries, height, (n - 1) as nat);
        lemma_insert_keeps(
            inserted_all(rows, entries, height, (n - 1) as nat),
            entries[n - 1].0,
            height,
            entries[n - 1].1,
        );
    }
}

/// Marking spends at the top height keeps the table in order.
pub proof fn lemma_marked_keeps(
    rows: Seq<CoinInfoView>,
    entries: Seq<(CoinID, Spender)>,
    height: u64,
    n: nat,
)
    requires
        table_ok(rows, height),
    ensures
        table_ok(marked_all(rows, entries, height, n), height),
    decreases n,
{
    if n > 0 {
        lemma_marked_keeps(rows, entries, height, (n - 1) as nat);
        lemma_mark_keeps(
            marked_all(rows, entries, height, (n - 1) as nat),
            entries[n - 1].0,
            spend_at(entries[n - 1].1, height),
        );
    }
}

/// Committing the block at the highest indexed height again, or the block
/// just above it, leaves the indexed heights without a gap.
pub proof fn lemma_heights_stay_contiguous(
    heights: Seq<HeightInfo>,
    low: u64,
    high: u64,
    info: HeightInfo,
)
    requires
        heights_contiguous(heights, low, high),
        info.height == high || info.height == high + 1,
    ensures
        heights_contiguous(heights_after(heights, info), low, info.height),
{
    let after = heights_after(heights, info);
    if has_height(heights, info.height) {
        let i = choose|i: int| 0 <= i < heights.len() && #[trigger] heights[i].height == info.height;
        assert(heights[i].height <= high);
    } else {
        assert(info.height == high + 1) by {
            if info.height == high {
                assert(has_height(heights, high));
            }
        }
        assert forall|h: u64| low <= h <= info.height implies has_height(after, h) by {
            if h == info.height {
                assert(after[heights.len() as int].height == h);
            } else {
                assert(has_height(heights, h));
                let i = choose|i: int| 0 <= i < heights.len() && #[trigger] heights[i].height == h;
                assert(after[i].height == h);
            }
        }
        assert forall|i: int| 0 <= i < after.len() implies low <= (#[trigger] after[i]).height
            <= info.height by {
            if i < heights.len() {
                assert(after[i] == heights[i]);
            }
        }
        assert forall|i: int, j: int| 0 <= i < j < after.len() implies (#[trigger] after[i]).height
            != (#[trigger] after[j]).height by {
            if j == heights.len() {
                assert(after[i] == heights[i]);
                assert(heights[i].height <= high);
            } else {
                assert(after[i] == heights[i] && after[j] == heights[j]);
            }
        }
    }
}

/// The first block committed to an empty table makes its height the only
/// indexed height.
pub proof fn lemma_first_height(info: HeightInfo)
    ensures
        heights_contiguous(
            heights_after(Seq::<HeightInfo>::empty(), info),
            info.height,
            info.height,
        ),
{
    let after = heights_after(Seq::<HeightInfo>::empty(), info);
    assert(!has_height(Seq::<HeightInfo>::empty(), info.height));
    assert(after[0].height == info.height);
}

/// The greatest height of a table without gaps is its upper end.
pub proof fn lemma_max_of_contiguous(heights: Seq<HeightInfo>, low: u64, high: u64)
    requires
        heights_contiguous(heights, low, high),
    ensures
        max_height_of(heights) == high,
{
    lemma_max_height(heights);
    assert(has_height(heights, high));
}

/// The greatest height is a height of the table and none is greater.
pub proof fn lemma_max_height(heights: Seq<HeightInfo>)
    ensures
        forall|i: int| 0 <= i < heights.len() ==> (#[trigger] heights[i]).height <= max_height_of(
            heights,
        ),
        heights.len() > 0 ==> has_height(heights, max_height_of(heights)),
        heights.len() == 0 ==> max_height_of(heights) == 0,
    decreases heights.len(),
{
    if heights.len() > 0 {
        let init = heights.drop_last();
        lemma_max_height(init);
        assert forall|i: int| 0 <= i < heights.len() implies (#[trigger] heights[i]).height
            <= max_height_of(heights) by {
            if i < init.len() {
                assert(init[i] == heights[i]);
            }
        }
        if heights.last().height > max_height_of(init) {
            assert(heights[heights.len() - 1].height == max_height_of(heights));
        } else {
            if init.len() > 0 {
                let i = choose|i: int|
                    0 <= i < init.len() && #[trigger] init[i].height == max_height_of(init);
                assert(heights[i].height == max_height_of(heights));
            } else {
                assert(heights[0].height == max_height_of(heights));
            }
        }
    }
}

/// Whether a later table keeps every row of an earlier one in its place,
/// with its id, height and contents, and keeps spent what was spent.
pub open spec fn extends(before: Seq<CoinInfoView>, after: Seq<CoinInfoView>) -> bool {
    &&& before.len() <= after.len()
    &&& forall|i: int|
        0 <= i < before.len() ==> {
            &&& (#[trigger] after[i]).id() == before[i].id()
            &&& after[i].create_height == before[i].create_height
            &&& after[i].coin_data == before[i].coin_data
            &&& before[i].spend_info is Some ==> after[i].spend_info is Some
        }
}

/// Committing a block deletes no row, changes no coin's contents, and clears
/// no spend fields.
pub proof fn lemma_block_extends(
    rows: Seq<CoinInfoView>,
    new_coins: Seq<(CoinID, CoinDataView)>,
    spent_coins: Seq<(CoinID, Spender)>,
    height: u64,
)
    ensures
        extends(rows, rows_after_block(rows, new_coins, spent_coins, height)),
{
    lemma_inserted_extends(rows, new_coins, height, new_coins.len());
    lemma_marked_extends(
        inserted_all(rows, new_coins, height, new_coins.len()),
        spent_coins,
        height,
        spent_coins.len(),
    );
}

/// Inserting coins keeps every row as it is.
pub proof fn lemma_inserted_extends(
    rows: Seq<CoinInfoView>,
    entries: Seq<(CoinID, CoinDataView)>,
    height: u64,
    n: nat,
)
    ensures
        extends(rows, inserted_all(rows, entries, height, n)),
        forall|i: int|
            0 <= i < rows.len() ==> (#[trigger] inserted_all(rows, entries, height, n)[i])
                == rows[i],
    decreases n,
{
    if n > 0 {
        lemma_inserted_extends(rows, entries, height, (n - 1) as nat);
    }
}

/// Marking spends keeps every row in its place and clears no spend fields.
pub proof fn lemma_marked_extends(
    rows: Seq<CoinInfoView>,
    entries: Seq<(CoinID, Spender)>,
    height: u64,
    n: nat,
)
    ensures
        extends(rows, marked_all(rows, entries, height, n)),
        marked_all(rows, entries, height, n).len() == rows.len(),
    decreases n,
{
    if n > 0 {
        lemma_marked_extends(rows, entries, height, (n - 1) as nat);
    }
}

/// After a list of coins was inserted at a height, each of them has a row
/// of that height.
pub proof fn lemma_inserted_have_rows(
    rows: Seq<CoinInfoView>,
    entries: Seq<(CoinID, CoinDataView)>,
    height: u64,
    n: nat,
)
    requires
        n <= entries.len(),
    ensures
        forall|k: int|
            0 <= k < n ==> has_row(
                inserted_all(rows, entries, height, n),
                (#[trigger] entries[k]).0,
                height,
            ),
    decreases n,
{
    if n > 0 {
        let before = inserted_all(rows, entries, height, (n - 1) as nat);
        let after = inserted_all(rows, entries, height, n);
        lemma_inserted_have_rows(rows, entries, height, (n - 1) as nat);
        assert forall|k: int| 0 <= k < n implies has_row(after, (#[trigger] entries[k]).0, height) by {
            if k < n - 1 {
                let i = choose|i: int|
                    0 <= i < before.len() && #[trigger] before[i].id() == entries[k].0
                        && before[i].create_height == height;
                assert(after[i].id() == entries[k].0 && after[i].create_height == height);
            } else {
                if !has_row(before, entries[k].0, height) {
                    assert(after[before.len() as int].id() == entries[k].0);
                }
            }
        }
    }
}

/// After a list of spends with distinct ids was marked, every row of each of
/// the ids carries the spend of its id.
pub proof fn lemma_marked_carry_spends(
    rows: Seq<CoinInfoView>,
    entries: Seq<(CoinID, Spender)>,
    height: u64,
    n: nat,
)
    requires
        n <= entries.len(),
        distinct_keys(entries),
    ensures
        marked_all(rows, entries, height, n).len() == rows.len(),
        forall|i: int|
            0 <= i < rows.len() ==> (#[trigger] marked_all(rows, entries, height, n)[i]).id()
                == rows[i].id() && marked_all(rows, entries, height, n)[i].create_height
                == rows[i].create_height,
        forall|k: int, i: int|
            0 <= k < n && 0 <= i < rows.len() && rows[i].id() == (#[trigger] entries[k]).0 ==> (
            #[trigger] marked_all(rows, entries, height, n)[i]).spend_info == Some(
                spend_at(entries[k].1, height),
            ),
    decreases n,
{
    if n > 0 {
        lemma_marked_carry_spends(rows, entries, height, (n - 1) as nat);
        let before = marked_all(rows, entries, height, (n - 1) as nat);
        let after = marked_all(rows, entries, height, n);
        assert forall|k: int, i: int|
            0 <= k < n && 0 <= i < rows.len() && rows[i].id() == (#[trigger] entries[k]).0 implies (
        #[trigger] after[i]).spend_info == Some(spend_at(entries[k].1, height)) by {
            assert(before[i].id() == rows[i].id());
            if k < n - 1 {
                assert(entries[k].0 != entries[n - 1].0);
                assert(before[i].spend_info == Some(spend_at(entries[k].1, height)));
            }
        }
    }
}

/// Committing a block a second time changes nothing: its coins are in the
/// table and are left as they are, and its spends are marked already.
pub proof fn lemma_block_again(
    rows: Seq<CoinInfoView>,
    new_coins: Seq<(CoinID, CoinDataView)>,
    spent_coins: Seq<(CoinID, Spender)>,
    height: u64,
)
    requires
        distinct_keys(spent_coins),
    ensures
        rows_after_block(
            rows_after_block(rows, new_coins, spent_coins, height),
            new_coins,
            spent_coins,
            height,
        ) == rows_after_block(rows, new_coins, spent_coins, height),
{
    let inserted = inserted_all(rows, new_coins, height, new_coins.len());
    let once = marked_all(inserted, spent_coins, height, spent_coins.len());
    lemma_inserted_have_rows(rows, new_coins, height, new_coins.len());
    lemma_marked_carry_spends(inserted, spent_coins, height, spent_coins.len());
    assert forall|k: int| 0 <= k < new_coins.len() implies has_row(
        once,
        (#[trigger] new_coins[k]).0,
        height,
    ) by {
        let i = choose|i: int|
            0 <= i < inserted.len() && #[trigger] inserted[i].id() == new_coins[k].0
                && inserted[i].create_height == height;
        assert(once[i].id() == new_coins[k].0 && once[i].create_height == height);
    }
    lemma_inserts_ignored(once, new_coins, height, new_coins.len());
    lemma_marks_repeat(once, spent_coins, height, spent_coins.len());
}

/// Inserting coins that the table holds changes nothing.
proof fn lemma_inserts_ignored(
    rows: Seq<CoinInfoView>,
    entries: Seq<(CoinID, CoinDataView)>,
    height: u64,
    n: nat,
)
    requires
        n <= entries.len(),
        forall|k: int| 0 <= k < entries.len() ==> has_row(rows, (#[trigger] entries[k]).0, height),
    ensures
        inserted_all(rows, entries, height, n) == rows,
    decreases n,
{
    if n > 0 {
        lemma_inserts_ignored(rows, entries, height, (n - 1) as nat);
        assert(has_row(rows, entries[n - 1].0, height));
    }
}

/// Marking spends that the rows carry changes nothing.
proof fn lemma_marks_repeat(
    rows: Seq<CoinInfoView>,
    entries: Seq<(CoinID, Spender)>,
    height: u64,
    n: nat,
)
    requires
        n <= entries.len(),
        forall|k: int, i: int|
            0 <= k < entries.len() && 0 <= i < rows.len() && rows[i].id() == (
            #[trigger] entries[k]).0 ==> (#[trigger] rows[i]).spend_info == Some(
                spend_at(entries[k].1, height),
            ),
    ensures
        marked_all(rows, entries, height, n) == rows,
    decreases n,
{
    if n > 0 {
        lemma_marks_repeat(rows, entries, height, (n - 1) as nat);
        let id = entries[n - 1].0;
        let spend = spend_at(entries[n - 1].1, height);
        assert forall|i: int| 0 <= i < rows.len() implies #[trigger] marked(rows, id, spend)[i]
            == rows[i] by {
            if rows[i].id() == id {
                assert(rows[i].spend_info == Some(spend));
            }
        }
        assert(marked(rows, id, spend) =~= rows);
    }
}

} // verus!
