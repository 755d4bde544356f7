//! What a block does to the coin table: the coins it creates and the coins
//! it spends.

use crate::codec::{proposer_reward_id, reward_pseudo_hash};
use crate::idmap::IdMap;
use crate::types::{CoinData, CoinDataView, CoinID, HashVal, Transaction, TransactionView, TxHash};
use crate::types::{TxKind, hash_with_bytes, transaction_views};
use vstd::prelude::*;

verus! {

/// The transaction that spends a coin, and the place of the coin among that
/// transaction's inputs.
#[derive(Clone, Copy, Debug, PartialEq, Eq)]
pub struct Spender {
    pub txhash: TxHash,
    pub index: usize,
}

impl View for Spender {
    type V = Spender;

    open spec fn view(&self) -> Spender {
        *self
    }
}

/// Why a block could not be turned into mutations or statements.
#[derive(Clone, Copy, Debug, PartialEq, Eq)]
pub enum IngestError {
    /// A transaction has more outputs than a coin id can number.
    TooManyOutputs,
    /// A stake document does not decode.
    BadStakeDoc,
    /// The JSON writer handed back an error. It has none to hand back for a
    /// list of texts, so no block gives this.
    Encoding,
    /// The block lies below a height that is already indexed.
    OutOfOrder,
}

/// The coins that a block creates and the coins that it spends.
#[derive(Debug, PartialEq, Eq)]
pub struct Mutations {
    pub new_coins: IdMap<CoinData>,
    pub spent_coins: IdMap<Spender>,
}

/// The id under which the proposer's reward of a height is known.
pub open spec fn reward_coin_id(height: u64) -> CoinID {
    CoinID { txhash: hash_with_bytes(reward_pseudo_hash(height)), index: 0 }
}

/// The id of the `i`-th output of a transaction.
pub open spec fn output_id(txhash: TxHash, i: int) -> CoinID {
    CoinID { txhash, index: i as u8 }
}

/// Whether each output of a transaction, and each slot that its kind
/// rewrites, has an index that fits a coin id.
pub open spec fn addressable(tx: TransactionView) -> bool {
    &&& tx.outputs.len() <= 256
    &&& tx.kind == TxKind::LiqWithdraw ==> tx.outputs.len() <= 255
}

/// Whether every transaction of a list is addressable.
pub open spec fn all_addressable(txs: Seq<TransactionView>) -> bool {
    forall|i: int| 0 <= i < txs.len() ==> addressable(#[trigger] txs[i])
}

/// How many leading output slots of a transaction the ledger rewrites, so
/// that their contents must be taken from the snapshot: the first for a
/// swap, the first two for a liquidity deposit, and one more than there are
/// outputs for a liquidity withdrawal.
pub open spec fn transmuted_slots(tx: TransactionView) -> nat {
    match tx.kind {
        TxKind::Swap => 1,
        TxKind::LiqDeposit => 2,
        TxKind::LiqWithdraw => tx.outputs.len() + 1,
        _ => 0,
    }
}

/// `m` with the first `n` outputs of a transaction bound to their ids.
pub open spec fn with_outputs(
    m: Map<CoinID, CoinDataView>,
    txhash: TxHash,
    outputs: Seq<CoinDataView>,
    n: nat,
) -> Map<CoinID, CoinDataView>
    decreases n,
{
    if n == 0 {
        m
    } else {
        with_outputs(m, txhash, outputs, (n - 1) as nat).insert(
            output_id(txhash, n - 1),
            outputs[n - 1],
        )
    }
}

/// `m` with the first `n` output slots of a transaction taken from the
/// snapshot: a slot holds what the snapshot holds under its id, and nothing
/// where the snapshot holds nothing.
pub open spec fn transmuted(
    m: Map<CoinID, CoinDataView>,
    txhash: TxHash,
    snapshot: Map<CoinID, CoinDataView>,
    n: nat,
) -> Map<CoinID, CoinDataView>
    decreases n,
{
    if n == 0 {
        m
    } else {
        let before = transmuted(m, txhash, snapshot, (n - 1) as nat);
        let id = output_id(txhash, n - 1);
        if snapshot.dom().contains(id) {
            before.insert(id, snapshot[id])
        } else {
            before.remove(id)
        }
    }
}

/// The new coins after one more transaction.
pub open spec fn coins_after_tx(
    m: Map<CoinID, CoinDataView>,
    tx: TransactionView,
    snapshot: Map<CoinID, CoinDataView>,
) -> Map<CoinID, CoinDataView> {
    transmuted(
        with_outputs(m, tx.txhash, tx.outputs, tx.outputs.len()),
        tx.txhash,
        snapshot,
        transmuted_slots(tx),
    )
}

/// The proposer's reward of a height, if the snapshot holds it.
pub open spec fn reward_coins(height: u64, snapshot: Map<CoinID, CoinDataView>) -> Map<
    CoinID,
    CoinDataView,
> {
    let id = reward_coin_id(height);
    if snapshot.dom().contains(id) {
        Map::<CoinID, CoinDataView>::empty().insert(id, snapshot[id])
    } else {
        Map::empty()
    }
}

/// The coins that a block at `height` creates: the proposer's reward, then
/// the outputs of each transaction in order, with the rewritten slots taken
/// from the snapshot.
pub open spec fn new_coins_of(
    height: u64,
    txs: Seq<TransactionView>,
    snapshot: Map<CoinID, CoinDataView>,
) -> Map<CoinID, CoinDataView>
    decreases txs.len(),
{
    if txs.len() == 0 {
        reward_coins(height, snapshot)
    } else {
        coins_after_tx(new_coins_of(height, txs.drop_last(), snapshot), txs.last(), snapshot)
    }
}

/// `m` with the first `n` inputs of a transaction bound to their spender.
pub open spec fn with_inputs(
    m: Map<CoinID, Spender>,
    txhash: TxHash,
    inputs: Seq<CoinID>,
    n: nat,
) -> Map<CoinID, Spender>
    decreases n,
{
    if n == 0 {
        m
    } else {
        with_inputs(m, txhash, inputs, (n - 1) as nat).insert(
            inputs[n - 1],
            Spender { txhash, index: (n - 1) as usize },
        )
    }
}

/// The coins that a block spends, each with the transaction and input place
/// that spends it; where two inputs name one coin, the later one stands.
pub open spec fn spent_coins_of(txs: Seq<TransactionView>) -> Map<CoinID, Spender>
    decreases txs.len(),
{
    if txs.len() == 0 {
        Map::empty()
    } else {
        with_inputs(
            spent_coins_of(txs.drop_last()),
            txs.last().txhash,
            txs.last().inputs,
            txs.last().inputs.len(),
        )
    }
}

/// The ids of the first `n` output slots of a transaction.
pub open spec fn slot_ids(txhash: TxHash, n: nat) -> Seq<CoinID> {
    Seq::new(n, |j: int| output_id(txhash, j))
}

/// The coin ids whose contents must be asked of the snapshot before a block
/// can be indexed: the proposer's reward, then the rewritten slots of each
/// transaction in order.
pub open spec fn targets_of(height: u64, txs: Seq<TransactionView>) -> Seq<CoinID>
    decreases txs.len(),
{
    if txs.len() == 0 {
        seq![reward_coin_id(height)]
    } else {
        targets_of(height, txs.drop_last()) + slot_ids(
            txs.last().txhash,
            transmuted_slots(txs.last()),
        )
    }
}

/// The id of the proposer's reward at a height.
pub fn reward_id(height: u64) -> (id: CoinID)
    ensures
        id == reward_coin_id(height),
{
    let id = proposer_reward_id(height);
    proof {
        let chosen = hash_with_bytes(reward_pseudo_hash(height));
        assert(id.txhash@ == reward_pseudo_hash(height));
        HashVal::lemma_same_bytes(chosen, id.txhash);
    }
    id
}

/// Whether a transaction's outputs and rewritten slots can all be numbered.
pub fn is_addressable(tx: &Transaction) -> (ok: bool)
    ensures
        ok == addressable(tx@),
{
    match tx.kind {
        TxKind::LiqWithdraw => tx.outputs.len() <= 255,
        _ => tx.outputs.len() <= 256,
    }
}

/// How many leading output slots of a transaction are taken from the snapshot.
pub fn slot_count(tx: &Transaction) -> (n: usize)
    requires
        addressable(tx@),
    ensures
        n == transmuted_slots(tx@),
        n <= 256,
{
    match tx.kind {
        TxKind::Swap => 1,
        TxKind::LiqDeposit => 2,
        TxKind::LiqWithdraw => tx.outputs.len() + 1,
        _ => 0,
    }
}

/// Lists the coin ids to ask of the snapshot pinned at `height` before the
/// block's mutations can be derived.
pub fn lookup_targets(height: u64, txs: &Vec<Transaction>) -> (out: Result<Vec<CoinID>, IngestError>)
    ensures
        out is Ok <==> all_addressable(transaction_views(txs@)),
        out matches Ok(ids) ==> ids@ == targets_of(height, transaction_views(txs@)),
        out matches Err(e) ==> e == IngestError::TooManyOutputs,
{
    let ghost views = transaction_views(txs@);
    let mut ids: Vec<CoinID> = Vec::new();
    ids.push(reward_id(height));
    let mut t: usize = 0;
    proof {
        assert(views.take(0) =~= Seq::empty());
        assert(ids@ =~= targets_of(height, views.take(0)));
    }
    while t < txs.len()
        invariant
            t <= txs@.len(),
            views == transaction_views(txs@),
            all_addressable(views.take(t as int)),
            ids@ == targets_of(height, views.take(t as int)),
        decreases txs@.len() - t,
    {
        let tx = &txs[t];
        assert(views[t as int] == tx@);
        if !is_addressable(tx) {
            return Err(IngestError::TooManyOutputs);
        }
        let slots = slot_count(tx);
        let ghost before = ids@;
        let mut j: usize = 0;
        while j < slots
            invariant
                j <= slots,
                slots <= 256,
                ids@ == before + slot_ids(tx.txhash, j as nat),
            decreases slots - j,
        {
            ids.push(CoinID::new(tx.txhash, j as u8));
            proof {
                assert(ids@ =~= before + slot_ids(tx.txhash, (j + 1) as nat));
            }
            j = j + 1;
        }
        proof {
            let next = views.take(t + 1);
            assert(next.drop_last() =~= views.take(t as int));
            assert(next.last() == tx@);
            assert forall|i: int| 0 <= i < next.len() implies addressable(#[trigger] next[i]) by {
                if i < t {
                    assert(views.take(t as int)[i] == next[i]);
                }
            }
        }
        t = t + 1;
    }
    proof {
        assert(views.take(t as int) =~= views);
    }
    Ok(ids)
}

/// Derives the coins that a block at `height` creates and spends.
///
/// `snapshot` holds, for each id of `lookup_targets`, what the snapshot
/// pinned at `height` reported: an id that it does not hold counts as a coin
/// that the snapshot does not have.
pub fn derive_mutations(height: u64, txs: &Vec<Transaction>, snapshot: &IdMap<CoinData>) -> (out:
    Result<Mutations, IngestError>)
    ensures
        out is Ok <==> all_addressable(transaction_views(txs@)),
        out matches Ok(m) ==> {
            &&& m.new_coins@ == new_coins_of(height, transaction_views(txs@), snapshot@)
            &&& m.spent_coins@ == spent_coins_of(transaction_views(txs@))
        },
        out matches Err(e) ==> e == IngestError::TooManyOutputs,
{
    let ghost views = transaction_views(txs@);
    let mut new_coins: IdMap<CoinData> = IdMap::new();
    let mut spent_coins: IdMap<Spender> = IdMap::new();
    let reward = reward_id(height);
    match snapshot.get(&reward) {
        Some(data) => {
            new_coins.insert(reward, data.clone());
        },
        None => {},
    }
    proof {
        assert(views.take(0) =~= Seq::empty());
    }
    let mut t: usize = 0;
    while t < txs.len()
        invariant
            t <= txs@.len(),
            views == transaction_views(txs@),
            all_addressable(views.take(t as int)),
            new_coins@ == new_coins_of(height, views.take(t as int), snapshot@),
            spent_coins@ == spent_coins_of(views.take(t as int)),
        decreases txs@.len() - t,
    {
        let tx = &txs[t];
        assert(views[t as int] == tx@);
        if !is_addressable(tx) {
            return Err(IngestError::TooManyOutputs);
        }
        let ghost base = new_coins@;
        let mut i: usize = 0;
        while i < tx.outputs.len()
            invariant
                i <= tx.outputs@.len(),
                tx.outputs@.len() <= 256,
                new_coins@ == with_outputs(base, tx.txhash, tx@.outputs, i as nat),
            decreases tx.outputs@.len() - i,
        {
            let data = tx.outputs[i].clone();
            assert(data@ == tx@.outputs[i as int]);
            new_coins.insert(CoinID::new(tx.txhash, i as u8), data);
            i = i + 1;
        }
        let ghost filled = new_coins@;
        let slots = slot_count(tx);
        let mut j: usize = 0;
        while j < slots
            invariant
                j <= slots,
                slots <= 256,
                new_coins@ == transmuted(filled, tx.txhash, snapshot@, j as nat),
            decreases slots - j,
        {
            let id = CoinID::new(tx.txhash, j as u8);
            match snapshot.get(&id) {
                Some(data) => {
                    new_coins.insert(id, data.clone());
                },
                None => {
                    new_coins.remove(&id);
                },
            }
            j = j + 1;
        }
        let ghost spent_base = spent_coins@;
        let mut k: usize = 0;
        while k < tx.inputs.len()
            invariant
                k <= tx.inputs@.len(),
                spent_coins@ == with_inputs(spent_base, tx.txhash, tx.inputs@, k as nat),
            decreases tx.inputs@.len() - k,
        {
            spent_coins.insert(tx.inputs[k], Spender { txhash: tx.txhash, index: k });
            k = k + 1;
        }
        proof {
            let next = views.take(t + 1);
            assert(next.drop_last() =~= views.take(t as int));
            assert(next.last() == tx@);
            assert forall|n: int| 0 <= n < next.len() implies addressable(#[trigger] next[n]) by {
                if n < t {
                    assert(views.take(t as int)[n] == next[n]);
                }
            }
        }
        t = t + 1;
    }
    proof {
        assert(views.take(t as int) =~= views);
    }
    Ok(Mutations { new_coins, spent_coins })
}

} // verus!
