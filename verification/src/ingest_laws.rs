//! What holds of the coins that a block creates, transaction by transaction.

use crate::idmap::{distinct_keys, entries_map, lemma_entries_dom, lemma_entries_get};
use crate::ingest::{Spender, addressable, all_addressable, coins_after_tx, new_coins_of};
use crate::ingest::{output_id, reward_coin_id, reward_coins, transmuted, transmuted_slots};
use crate::ingest::with_outputs;
use crate::table::{fresh_row, has_row, insert_ignoring, inserted_all};
use crate::table::{lemma_block_extends, lemma_inserted_extends, lemma_marked_extends};
use crate::table::rows_after_block;
use crate::types::{CoinDataView, CoinID, CoinInfoView, TransactionView, TxHash, TxKind};
use vstd::prelude::*;

verus! {

/// What a map holds under an id, if anything.
pub open spec fn held(m: Map<CoinID, CoinDataView>, id: CoinID) -> Option<CoinDataView> {
    if m.dom().contains(id) {
        Some(m[id])
    } else {
        None
    }
}

/// What a transaction leaves under its output slot `index`: what the
/// snapshot holds for a slot that the transaction's kind rewrites, the
/// declared output for another slot that it declares, and nothing beyond.
pub open spec fn coin_of_transaction(
    tx: TransactionView,
    snapshot: Map<CoinID, CoinDataView>,
    index: u8,
) -> Option<CoinDataView> {
    let id = CoinID { txhash: tx.txhash, index };
    if index < transmuted_slots(tx) {
        held(snapshot, id)
    } else if index < tx.outputs.len() {
        Some(tx.outputs[index as int])
    } else {
        None
    }
}

/// Whether a transaction writes the slot of an id: the id is of its hash,
/// and its index is that of a declared output or of a slot that the
/// transaction's kind rewrites.
pub open spec fn touches(tx: TransactionView, id: CoinID) -> bool {
    tx.txhash == id.txhash && (id.index < transmuted_slots(tx) || id.index < tx.outputs.len())
}

/// Whether no transaction of a block after place `t` writes the slot of an id.
pub open spec fn untouched_after(txs: Seq<TransactionView>, t: int, id: CoinID) -> bool {
    forall|k: int| t < k < txs.len() ==> !touches(#[trigger] txs[k], id)
}

/// Whether no transaction of a block before place `t` writes the slot of an id.
pub open spec fn untouched_before(txs: Seq<TransactionView>, t: int, id: CoinID) -> bool {
    forall|k: int| 0 <= k < t && k < txs.len() ==> !touches(#[trigger] txs[k], id)
}

/// What a block creates under an id: what the last transaction that writes
/// the id's slot leaves there, and the proposer's reward or nothing where no
/// transaction writes it.
pub open spec fn created_under(
    height: u64,
    txs: Seq<TransactionView>,
    snapshot: Map<CoinID, CoinDataView>,
    id: CoinID,
) -> Option<CoinDataView>
    decreases txs.len(),
{
    if txs.len() == 0 {
        held(reward_coins(height, snapshot), id)
    } else if touches(txs.last(), id) {
        coin_of_transaction(txs.last(), snapshot, id.index)
    } else {
        created_under(height, txs.drop_last(), snapshot, id)
    }
}

/// Whether the table holds a row created under `id` at `height` with the
/// given contents.
pub open spec fn has_row_holding(
    rows: Seq<CoinInfoView>,
    id: CoinID,
    height: u64,
    data: CoinDataView,
) -> bool {
    exists|i: int|
        0 <= i < rows.len() && (#[trigger] rows[i]).id() == id && rows[i].create_height == height
            && rows[i].coin_data == data
}

/// Binding the first `n` outputs of a transaction binds each of their ids to
/// its output and leaves every other id as it was.
pub proof fn lemma_with_outputs(
    m: Map<CoinID, CoinDataView>,
    txhash: TxHash,
    outputs: Seq<CoinDataView>,
    n: nat,
    id: CoinID,
)
    requires
        n <= 256,
    ensures
        held(with_outputs(m, txhash, outputs, n), id) == if id.txhash == txhash && id.index < n {
            Some(outputs[id.index as int])
        } else {
            held(m, id)
        },
    decreases n,
{
    if n > 0 {
        lemma_with_outputs(m, txhash, outputs, (n - 1) as nat, id);
        assert(output_id(txhash, n - 1) == CoinID { txhash, index: (n - 1) as u8 });
    }
}

/// Taking the first `n` slots of a transaction from the snapshot leaves
/// under each of their ids what the snapshot holds, and every other id as
/// it was.
pub proof fn lemma_transmuted(
    m: Map<CoinID, CoinDataView>,
    txhash: TxHash,
    snapshot: Map<CoinID, CoinDataView>,
    n: nat,
    id: CoinID,
)
    requires
        n <= 256,
    ensures
        held(transmuted(m, txhash, snapshot, n), id) == if id.txhash == txhash && id.index < n {
            held(snapshot, id)
        } else {
            held(m, id)
        },
    decreases n,
{
    if n > 0 {
        lemma_transmuted(m, txhash, snapshot, (n - 1) as nat, id);
        assert(output_id(txhash, n - 1) == CoinID { txhash, index: (n - 1) as u8 });
    }
}

/// One transaction leaves under each of its own ids what
/// `coin_of_transaction` says, or what was there where it says nothing, and
/// leaves the ids of other transactions as they were.
pub proof fn lemma_coins_after_tx(
    m: Map<CoinID, CoinDataView>,
    tx: TransactionView,
    snapshot: Map<CoinID, CoinDataView>,
    id: CoinID,
)
    requires
        addressable(tx),
    ensures
        held(coins_after_tx(m, tx, snapshot), id) == if id.txhash == tx.txhash {
            if id.index < transmuted_slots(tx) || id.index < tx.outputs.len() {
                coin_of_transaction(tx, snapshot, id.index)
            } else {
                held(m, id)
            }
        } else {
            held(m, id)
        },
{
    let filled = with_outputs(m, tx.txhash, tx.outputs, tx.outputs.len());
    lemma_with_outputs(m, tx.txhash, tx.outputs, tx.outputs.len(), id);
    lemma_transmuted(filled, tx.txhash, snapshot, transmuted_slots(tx), id);
}

/// Under every id a block creates what the last transaction that writes the
/// id's slot leaves there: whatever the order of the transactions, and
/// whether or not two of them have one hash.
pub proof fn lemma_created_under(
    height: u64,
    txs: Seq<TransactionView>,
    snapshot: Map<CoinID, CoinDataView>,
    id: CoinID,
)
    requires
        all_addressable(txs),
    ensures
        held(new_coins_of(height, txs, snapshot), id) == created_under(height, txs, snapshot, id),
    decreases txs.len(),
{
    if txs.len() > 0 {
        let init = txs.drop_last();
        assert forall|k: int| 0 <= k < init.len() implies addressable(#[trigger] init[k]) by {
            assert(init[k] == txs[k]);
        }
        lemma_created_under(height, init, snapshot, id);
        assert(txs.last() == txs[txs.len() - 1]);
        lemma_coins_after_tx(new_coins_of(height, init, snapshot), txs.last(), snapshot, id);
    }
}

/// Where no transaction after place `t` writes the slot of an id, the block
/// creates under the id what it creates up to and with the transaction at `t`.
pub proof fn lemma_later_leave_alone(
    height: u64,
    txs: Seq<TransactionView>,
    snapshot: Map<CoinID, CoinDataView>,
    t: int,
    id: CoinID,
)
    requires
        0 <= t < txs.len(),
        untouched_after(txs, t, id),
    ensures
        created_under(height, txs, snapshot, id) == created_under(
            height,
            txs.take(t + 1),
            snapshot,
            id,
        ),
    decreases txs.len(),
{
    if t == txs.len() - 1 {
        assert(txs.take(t + 1) =~= txs);
    } else {
        let init = txs.drop_last();
        assert(txs.last() == txs[txs.len() - 1]);
        assert forall|k: int| t < k < init.len() implies !touches(#[trigger] init[k], id) by {
            assert(init[k] == txs[k]);
        }
        lemma_later_leave_alone(height, init, snapshot, t, id);
        assert(init.take(t + 1) =~= txs.take(t + 1));
    }
}

/// Where no transaction writes the slot of an id, the block creates under
/// the id the proposer's reward or nothing.
pub proof fn lemma_never_touched(
    height: u64,
    txs: Seq<TransactionView>,
    snapshot: Map<CoinID, CoinDataView>,
    id: CoinID,
)
    requires
        forall|k: int| 0 <= k < txs.len() ==> !touches(#[trigger] txs[k], id),
    ensures
        created_under(height, txs, snapshot, id) == held(reward_coins(height, snapshot), id),
    decreases txs.len(),
{
    if txs.len() > 0 {
        let init = txs.drop_last();
        assert(txs.last() == txs[txs.len() - 1]);
        assert forall|k: int| 0 <= k < init.len() implies !touches(#[trigger] init[k], id) by {
            assert(init[k] == txs[k]);
        }
        lemma_never_touched(height, init, snapshot, id);
    }
}

/// Wherever a transaction stands in a block, the block creates under each
/// slot that the transaction writes, and that no later transaction writes,
/// what `coin_of_transaction` says; under a slot of its hash that no
/// transaction writes, nothing but the proposer's reward can stand.
pub proof fn lemma_coins_of_transaction(
    height: u64,
    txs: Seq<TransactionView>,
    snapshot: Map<CoinID, CoinDataView>,
    t: int,
    index: u8,
)
    requires
        all_addressable(txs),
        0 <= t < txs.len(),
        untouched_after(txs, t, CoinID { txhash: txs[t].txhash, index }),
        !touches(txs[t], CoinID { txhash: txs[t].txhash, index }) ==> untouched_before(
            txs,
            t,
            CoinID { txhash: txs[t].txhash, index },
        ),
    ensures
        ({
            let id = CoinID { txhash: txs[t].txhash, index };
            let created = held(new_coins_of(height, txs, snapshot), id);
            if touches(txs[t], id) {
                created == coin_of_transaction(txs[t], snapshot, index)
            } else {
                created == held(reward_coins(height, snapshot), id)
            }
        }),
{
    let id = CoinID { txhash: txs[t].txhash, index };
    lemma_created_under(height, txs, snapshot, id);
    if touches(txs[t], id) {
        lemma_later_leave_alone(height, txs, snapshot, t, id);
        assert(txs.take(t + 1).last() == txs[t]);
    } else {
        assert forall|k: int| 0 <= k < txs.len() implies !touches(#[trigger] txs[k], id) by {
            if k > t {
                assert(untouched_after(txs, t, id));
            }
        }
        lemma_never_touched(height, txs, snapshot, id);
    }
}

/// A liquidity withdrawal with `n` declared outputs, wherever it stands in
/// its block, creates under each slot up to `n` exactly what the snapshot
/// holds for the slot, with the snapshot's contents and not the declared
/// output's, and creates nothing under a slot above `n`. This holds of a
/// slot that no later transaction of the block writes and, above `n`, that
/// no earlier one writes.
pub proof fn lemma_withdrawal_slots(
    height: u64,
    txs: Seq<TransactionView>,
    snapshot: Map<CoinID, CoinDataView>,
    t: int,
    index: u8,
)
    requires
        all_addressable(txs),
        0 <= t < txs.len(),
        txs[t].kind == TxKind::LiqWithdraw,
        untouched_after(txs, t, CoinID { txhash: txs[t].txhash, index }),
        index > txs[t].outputs.len() ==> untouched_before(
            txs,
            t,
            CoinID { txhash: txs[t].txhash, index },
        ),
    ensures
        ({
            let id = CoinID { txhash: txs[t].txhash, index };
            let created = new_coins_of(height, txs, snapshot);
            &&& index <= txs[t].outputs.len() ==> (created.dom().contains(id)
                <==> snapshot.dom().contains(id))
            &&& index <= txs[t].outputs.len() && snapshot.dom().contains(id) ==> created[id]
                == snapshot[id]
            &&& index > txs[t].outputs.len() ==> !created.dom().contains(id)
        }),
{
    lemma_coins_of_transaction(height, txs, snapshot, t, index);
    let id = CoinID { txhash: txs[t].txhash, index };
    if index > txs[t].outputs.len() {
        assert(id != reward_coin_id(height));
    }
}

/// A swap, wherever it stands in its block, creates under its first slot
/// what the snapshot holds for it and nothing where the snapshot holds
/// nothing, and under each other declared slot the declared output. This
/// holds of a slot that no later transaction of the block writes and, where
/// the swap does not write it, that no earlier one writes.
pub proof fn lemma_swap_slots(
    height: u64,
    txs: Seq<TransactionView>,
    snapshot: Map<CoinID, CoinDataView>,
    t: int,
    index: u8,
)
    requires
        all_addressable(txs),
        0 <= t < txs.len(),
        txs[t].kind == TxKind::Swap,
        untouched_after(txs, t, CoinID { txhash: txs[t].txhash, index }),
        1 <= index && index >= txs[t].outputs.len() ==> untouched_before(
            txs,
            t,
            CoinID { txhash: txs[t].txhash, index },
        ),
    ensures
        ({
            let id = CoinID { txhash: txs[t].txhash, index };
            let created = held(new_coins_of(height, txs, snapshot), id);
            &&& index == 0 ==> created == held(snapshot, id)
            &&& 1 <= index < txs[t].outputs.len() ==> created == Some(txs[t].outputs[index as int])
            &&& 1 <= index && index >= txs[t].outputs.len() ==> created is None
        }),
{
    lemma_coins_of_transaction(height, txs, snapshot, t, index);
    let id = CoinID { txhash: txs[t].txhash, index };
    if index >= 1 {
        assert(id != reward_coin_id(height));
    }
}

/// A liquidity deposit, wherever it stands in its block, creates under its
/// first two slots what the snapshot holds for them, and under each other
/// declared slot the declared output. This holds of a slot that no later
/// transaction of the block writes and, where the deposit does not write it,
/// that no earlier one writes.
pub proof fn lemma_deposit_slots(
    height: u64,
    txs: Seq<TransactionView>,
    snapshot: Map<CoinID, CoinDataView>,
    t: int,
    index: u8,
)
    requires
        all_addressable(txs),
        0 <= t < txs.len(),
        txs[t].kind == TxKind::LiqDeposit,
        untouched_after(txs, t, CoinID { txhash: txs[t].txhash, index }),
        2 <= index && index >= txs[t].outputs.len() ==> untouched_before(
            txs,
            t,
            CoinID { txhash: txs[t].txhash, index },
        ),
    ensures
        ({
            let id = CoinID { txhash: txs[t].txhash, index };
            let created = held(new_coins_of(height, txs, snapshot), id);
            &&& index < 2 ==> created == held(snapshot, id)
            &&& 2 <= index < txs[t].outputs.len() ==> created == Some(txs[t].outputs[index as int])
            &&& 2 <= index && index >= txs[t].outputs.len() ==> created is None
        }),
{
    lemma_coins_of_transaction(height, txs, snapshot, t, index);
    let id = CoinID { txhash: txs[t].txhash, index };
    if index >= 2 {
        assert(id != reward_coin_id(height));
    }
}

/// Committing a block stores a row of the block's height for exactly the
/// coins that the block creates, beside those that had such a row before;
/// the row of a coin that had none before holds the contents that the block
/// gives it.
pub proof fn lemma_block_rows(
    rows: Seq<CoinInfoView>,
    new_coins: Seq<(CoinID, CoinDataView)>,
    spent_coins: Seq<(CoinID, Spender)>,
    height: u64,
    id: CoinID,
)
    requires
        distinct_keys(new_coins),
    ensures
        ({
            let after = rows_after_block(rows, new_coins, spent_coins, height);
            let created = entries_map(new_coins);
            &&& has_row(after, id, height) <==> has_row(rows, id, height) || created.dom().contains(
                id,
            )
            &&& !has_row(rows, id, height) && created.dom().contains(id) ==> has_row_holding(
                after,
                id,
                height,
                created[id],
            )
            &&& forall|data: CoinDataView| #[trigger]
                has_row_holding(rows, id, height, data) ==> has_row_holding(
                    after,
                    id,
                    height,
                    data,
                )
            &&& has_row(rows, id, height) ==> forall|data: CoinDataView| #[trigger]
                has_row_holding(after, id, height, data) ==> has_row_holding(
                    rows,
                    id,
                    height,
                    data,
                )
        }),
{
    let inserted = inserted_all(rows, new_coins, height, new_coins.len());
    lemma_block_extends(rows, new_coins, spent_coins, height);
    lemma_inserted_extends(rows, new_coins, height, new_coins.len());
    assert forall|data: CoinDataView| #[trigger]
        has_row_holding(rows, id, height, data) implies has_row_holding(
        rows_after_block(rows, new_coins, spent_coins, height),
        id,
        height,
        data,
    ) by {
        let after = rows_after_block(rows, new_coins, spent_coins, height);
        let i = choose|i: int|
            0 <= i < rows.len() && (#[trigger] rows[i]).id() == id && rows[i].create_height
                == height && rows[i].coin_data == data;
        assert(after[i].id() == id && after[i].create_height == height && after[i].coin_data
            == data);
    }
    if has_row(rows, id, height) {
        lemma_inserts_keep_length(rows, new_coins, height, new_coins.len(), id);
        lemma_marked_extends(inserted, spent_coins, height, spent_coins.len());
        assert forall|data: CoinDataView| #[trigger]
            has_row_holding(
                rows_after_block(rows, new_coins, spent_coins, height),
                id,
                height,
                data,
            ) implies has_row_holding(rows, id, height, data) by {
            let after = rows_after_block(rows, new_coins, spent_coins, height);
            let i = choose|i: int|
                0 <= i < after.len() && (#[trigger] after[i]).id() == id && after[i].create_height
                    == height && after[i].coin_data == data;
            assert(inserted[i].id() == id && inserted[i].create_height == height
                && inserted[i].coin_data == data);
            assert(i < rows.len());
            assert(rows[i] == inserted[i]);
        }
    }
    let after = rows_after_block(rows, new_coins, spent_coins, height);
    let created = entries_map(new_coins);
    lemma_inserted_rows(rows, new_coins, height, new_coins.len(), id);
    lemma_marked_extends(inserted, spent_coins, height, spent_coins.len());
    lemma_entries_dom(new_coins, id);
    if has_row(inserted, id, height) {
        let i = choose|i: int|
            0 <= i < inserted.len() && #[trigger] inserted[i].id() == id && inserted[i].create_height
                == height;
        assert(after[i].id() == id && after[i].create_height == height);
    }
    if has_row(after, id, height) {
        let i = choose|i: int|
            0 <= i < after.len() && #[trigger] after[i].id() == id && after[i].create_height
                == height;
        assert(inserted[i].id() == id && inserted[i].create_height == height);
    }
    if !has_row(rows, id, height) && created.dom().contains(id) {
        let k = choose|k: int| 0 <= k < new_coins.len() && new_coins[k].0 == id;
        lemma_entries_get(new_coins, k);
        let i = choose|i: int|
            0 <= i < inserted.len() && #[trigger] inserted[i].id() == id && inserted[i].create_height
                == height && inserted[i].coin_data == new_coins[k].1;
        assert(after[i].id() == id && after[i].create_height == height && after[i].coin_data
            == created[id]);
    }
}

/// Inserting coins adds no row under an id that had a row of the height
/// before: every row under the id at the height is one of the rows before.
proof fn lemma_inserts_keep_length(
    rows: Seq<CoinInfoView>,
    entries: Seq<(CoinID, CoinDataView)>,
    height: u64,
    n: nat,
    id: CoinID,
)
    requires
        n <= entries.len(),
        has_row(rows, id, height),
    ensures
        forall|i: int|
            0 <= i < inserted_all(rows, entries, height, n).len() && (#[trigger] inserted_all(
                rows,
                entries,
                height,
                n,
            )[i]).id() == id && inserted_all(rows, entries, height, n)[i].create_height == height
                ==> i < rows.len(),
        rows.len() <= inserted_all(rows, entries, height, n).len(),
        has_row(inserted_all(rows, entries, height, n), id, height),
    decreases n,
{
    if n > 0 {
        lemma_inserts_keep_length(rows, entries, height, (n - 1) as nat, id);
        let before = inserted_all(rows, entries, height, (n - 1) as nat);
        let after = inserted_all(rows, entries, height, n);
        let j = choose|j: int|
            0 <= j < before.len() && #[trigger] before[j].id() == id && before[j].create_height
                == height;
        assert(after[j].id() == id && after[j].create_height == height);
        assert forall|i: int|
            0 <= i < after.len() && (#[trigger] after[i]).id() == id && after[i].create_height
                == height implies i < rows.len() by {
            if i < before.len() {
                assert(before[i] == after[i]);
            } else {
                assert(entries[n - 1].0 == id);
                assert(has_row(before, id, height));
            }
        }
    }
}

/// After the first `n` of a list of new coins with distinct ids were
/// inserted, a coin has a row of the height exactly if it had one before or
/// is among the `n`; if it had none before, its row holds its entry's
/// contents.
proof fn lemma_inserted_rows(
    rows: Seq<CoinInfoView>,
    entries: Seq<(CoinID, CoinDataView)>,
    height: u64,
    n: nat,
    id: CoinID,
)
    requires
        n <= entries.len(),
        distinct_keys(entries),
    ensures
        has_row(inserted_all(rows, entries, height, n), id, height) <==> has_row(rows, id, height)
            || exists|k: int| 0 <= k < n && entries[k].0 == id,
        forall|k: int|
            0 <= k < n && entries[k].0 == id && !has_row(rows, id, height) ==> exists|i: int|
                0 <= i < inserted_all(rows, entries, height, n).len() && (#[trigger] inserted_all(
                    rows,
                    entries,
                    height,
                    n,
                )[i]).id() == id && inserted_all(rows, entries, height, n)[i].create_height
                    == height && inserted_all(rows, entries, height, n)[i].coin_data
                    == entries[k].1,
    decreases n,
{
    if n > 0 {
        let before = inserted_all(rows, entries, height, (n - 1) as nat);
        let after = inserted_all(rows, entries, height, n);
        let entry = entries[n - 1];
        lemma_inserted_rows(rows, entries, height, (n - 1) as nat, id);
        assert(after == insert_ignoring(before, entry.0, height, entry.1));
        if has_row(before, id, height) {
            let i = choose|i: int|
                0 <= i < before.len() && #[trigger] before[i].id() == id && before[i].create_height
                    == height;
            assert(after[i].id() == id && after[i].create_height == height);
        }
        if has_row(after, id, height) && !has_row(before, id, height) {
            let i = choose|i: int|
                0 <= i < after.len() && #[trigger] after[i].id() == id && after[i].create_height
                    == height;
            if i < before.len() {
                assert(before[i].id() == id);
            }
            assert(entry.0 == id);
        }
        if entry.0 == id {
            if !has_row(before, id, height) {
                assert(after[before.len() as int] == fresh_row(id, height, entry.1));
                assert(after[before.len() as int].id() == id);
            }
        }
        assert forall|k: int|
            0 <= k < n && entries[k].0 == id && !has_row(rows, id, height) implies exists|i: int|
            0 <= i < after.len() && (#[trigger] after[i]).id() == id && after[i].create_height
                == height && after[i].coin_data == entries[k].1 by {
            if k < n - 1 {
                let i = choose|i: int|
                    0 <= i < before.len() && (#[trigger] before[i]).id() == id
                        && before[i].create_height == height && before[i].coin_data
                        == entries[k].1;
                assert(after[i] == before[i]);
            } else {
                assert(!has_row(before, id, height)) by {
                    if has_row(before, id, height) {
                        let j = choose|j: int| 0 <= j < n - 1 && entries[j].0 == id;
                        assert(entries[j].0 != entries[n - 1].0);
                    }
                }
                assert(after[before.len() as int] == fresh_row(id, height, entry.1));
                assert(after[before.len() as int].id() == id);
            }
        }
    }
}

/// Committing a block with a liquidity withdrawal of `n` declared outputs
/// stores, for each slot up to `n`, a row of the block's height exactly if
/// the snapshot holds the slot's coin, with the snapshot's contents, and
/// stores no row for a slot above `n`: at most `n + 1` rows for the
/// withdrawal. This holds wherever the withdrawal stands in the block, of a
/// slot that no later transaction of the block writes (above `n`, no earlier
/// one either), and of a table that held no row of the slot at the height
/// unless it held what the snapshot holds.
pub proof fn lemma_withdrawal_rows(
    rows: Seq<CoinInfoView>,
    new_coins: Seq<(CoinID, CoinDataView)>,
    spent_coins: Seq<(CoinID, Spender)>,
    height: u64,
    txs: Seq<TransactionView>,
    snapshot: Map<CoinID, CoinDataView>,
    t: int,
    index: u8,
)
    requires
        all_addressable(txs),
        0 <= t < txs.len(),
        txs[t].kind == TxKind::LiqWithdraw,
        untouched_after(txs, t, CoinID { txhash: txs[t].txhash, index }),
        index > txs[t].outputs.len() ==> untouched_before(
            txs,
            t,
            CoinID { txhash: txs[t].txhash, index },
        ),
        distinct_keys(new_coins),
        entries_map(new_coins) == new_coins_of(height, txs, snapshot),
        index <= txs[t].outputs.len() && has_row(
            rows,
            CoinID { txhash: txs[t].txhash, index },
            height,
        ) ==> snapshot.dom().contains(CoinID { txhash: txs[t].txhash, index })
            && has_row_holding(
            rows,
            CoinID { txhash: txs[t].txhash, index },
            height,
            snapshot[CoinID { txhash: txs[t].txhash, index }],
        ),
        index > txs[t].outputs.len() ==> !has_row(
            rows,
            CoinID { txhash: txs[t].txhash, index },
            height,
        ),
    ensures
        ({
            let id = CoinID { txhash: txs[t].txhash, index };
            let after = rows_after_block(rows, new_coins, spent_coins, height);
            &&& index <= txs[t].outputs.len() ==> (has_row(after, id, height)
                <==> snapshot.dom().contains(id))
            &&& index <= txs[t].outputs.len() && snapshot.dom().contains(id) ==> has_row_holding(
                after,
                id,
                height,
                snapshot[id],
            )
            &&& index > txs[t].outputs.len() ==> !has_row(after, id, height)
        }),
{
    let id = CoinID { txhash: txs[t].txhash, index };
    lemma_withdrawal_slots(height, txs, snapshot, t, index);
    lemma_block_rows(rows, new_coins, spent_coins, height, id);
}

} // verus!
