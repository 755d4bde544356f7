//! The indexed projection of the ledger, held in memory: the coin table and
//! the table of indexed heights, with the operations that read them and the
//! one that commits a block.

use crate::coinquery::{CoinQuery, PredicateView, selected};
use crate::idmap::IdMap;
use crate::ingest::{IngestError, Mutations, derive_mutations, new_coins_of};
use crate::ingest::{all_addressable, spent_coins_of};
use crate::table::{fresh_row, has_height, has_row, heights_after, info_of, inserted_all};
use crate::table::{lemma_block_keeps, lemma_max_height, marked, marked_all, max_height_of};
use crate::table::{heights_distinct, rows_after_block, table_ok};
use crate::types::{Block, BlockHeader, CoinData, CoinID, CoinInfo, CoinInfoView, CoinSpendInfo};
use crate::types::{HashVal, HeightInfo, TxHash, coin_info_views, transaction_views};
use vstd::prelude::*;

verus! {

/// Whether the row at `i` is the first of a table of heights with a block hash.
pub open spec fn is_first_with_hash(heights: Seq<HeightInfo>, blkhash: HashVal, i: int) -> bool {
    &&& 0 <= i < heights.len()
    &&& heights[i].blkhash == blkhash
    &&& forall|j: int| 0 <= j < i ==> (#[trigger] heights[j]).blkhash != blkhash
}

/// The coins and heights indexed so far.
#[derive(Debug, PartialEq, Eq)]
pub struct Indexer {
    coins: Vec<CoinInfo>,
    heights: Vec<HeightInfo>,
    top: u64,
}

impl Indexer {
    #[verifier::type_invariant]
    spec fn in_order(&self) -> bool {
        &&& table_ok(coin_info_views(self.coins@), self.top)
        &&& self.top == max_height_of(self.heights@)
        &&& heights_distinct(self.heights@)
    }

    /// The rows of the coin table.
    pub closed spec fn rows(&self) -> Seq<CoinInfoView> {
        coin_info_views(self.coins@)
    }

    /// The rows of the table of indexed heights.
    pub closed spec fn heights(&self) -> Seq<HeightInfo> {
        self.heights@
    }

    /// An indexer that has indexed nothing.
    pub fn new() -> (indexer: Indexer)
        ensures
            indexer.rows() == Seq::<CoinInfoView>::empty(),
            indexer.heights() == Seq::<HeightInfo>::empty(),
    {
        let indexer = Indexer { coins: Vec::new(), heights: Vec::new(), top: 0 };
        proof {
            assert(indexer.rows() =~= Seq::<CoinInfoView>::empty());
        }
        indexer
    }

    /// A query that every coin matches, to be narrowed.
    pub fn query_coins(&self) -> (q: CoinQuery)
        ensures
            q@ == Seq::<PredicateView>::empty(),
            forall|row: CoinInfoView| q.matches(row),
    {
        CoinQuery::new()
    }

    /// The coin table. No coin in it is spent before it is created, no two
    /// rows share an id and a creation height, and no row is created above
    /// the highest indexed height.
    pub fn coins(&self) -> (rows: &Vec<CoinInfo>)
        ensures
            coin_info_views(rows@) == self.rows(),
            table_ok(self.rows(), max_height_of(self.heights())),
    {
        proof {
            use_type_invariant(self);
        }
        &self.coins
    }

    /// What is kept of the block at a height, if that height is indexed: the
    /// one row of that height.
    pub fn height_info(&self, height: u64) -> (info: Option<HeightInfo>)
        ensures
            match info {
                Some(found) => found.height == height && self.heights().contains(found),
                None => !has_height(self.heights(), height),
            },
            heights_distinct(self.heights()),
    {
        proof {
            use_type_invariant(self);
        }
        let mut i: usize = 0;
        while i < self.heights.len()
            invariant
                i <= self.heights@.len(),
                heights_distinct(self.heights@),
                forall|j: int| 0 <= j < i ==> (#[trigger] self.heights@[j]).height != height,
            decreases self.heights@.len() - i,
        {
            if self.heights[i].height == height {
                return Some(self.heights[i]);
            }
            i = i + 1;
        }
        None
    }

    /// The greatest indexed height, and 0 where none is indexed.
    pub fn max_height(&self) -> (height: u64)
        ensures
            height == max_height_of(self.heights()),
    {
        proof {
            use_type_invariant(self);
        }
        self.top
    }

    /// The height of the block that holds a transaction: the height at which
    /// the first coin that the transaction spent was spent. A transaction
    /// that spent no indexed coin is not found.
    pub fn txhash_to_height(&self, txhash: TxHash) -> (height: Option<u64>)
        ensures
            ({
                let spent = selected(self.rows(), seq![PredicateView::SpendTxhash(txhash)]);
                match height {
                    Some(h) => spent.len() > 0 && (spent[0].spend_info matches Some(s)
                        && s.spend_height == h),
                    None => spent.len() == 0,
                }
            }),
    {
        let query = self.query_coins().spend_txhash(txhash);
        proof {
            assert(query@ =~= seq![PredicateView::SpendTxhash(txhash)]);
        }
        let found = query.iter(&self.coins);
        let ghost spent = selected(self.rows(), query@);
        if found.len() == 0 {
            assert(coin_info_views(found@).len() == 0);
            return None;
        }
        proof {
            assert(coin_info_views(found@)[0] == found@[0]@);
            crate::coinquery::lemma_selected_match(self.rows(), query@, 0);
            assert(crate::coinquery::holds(query@[0], spent[0]));
        }
        match found[0].spend_info {
            Some(s) => Some(s.spend_height),
            None => None,
        }
    }

    /// The height of the block with a hash: that of the first indexed block
    /// with it.
    pub fn blkhash_to_height(&self, blkhash: HashVal) -> (height: Option<u64>)
        ensures
            match height {
                Some(h) => exists|i: int| #[trigger]
                    is_first_with_hash(self.heights(), blkhash, i) && self.heights()[i].height == h,
                None => forall|i: int|
                    0 <= i < self.heights().len() ==> (#[trigger] self.heights()[i]).blkhash
                        != blkhash,
            },
    {
        let mut i: usize = 0;
        while i < self.heights.len()
            invariant
                i <= self.heights@.len(),
                forall|j: int| 0 <= j < i ==> (#[trigger] self.heights@[j]).blkhash != blkhash,
            decreases self.heights@.len() - i,
        {
            if self.heights[i].blkhash.same(&blkhash) {
                assert(is_first_with_hash(self.heights(), blkhash, i as int));
                return Some(self.heights[i].height);
            }
            i = i + 1;
        }
        None
    }

    /// Commits a block: inserts its new coins, marks its spends, and records
    /// its height. A block below the highest indexed height is refused and
    /// changes nothing; the block at that height may be committed again.
    pub fn apply_block(&mut self, header: &BlockHeader, mutations: &Mutations) -> (applied: bool)
        ensures
            applied == (header.height >= max_height_of(old(self).heights())),
            applied ==> final(self).rows() == rows_after_block(
                old(self).rows(),
                mutations.new_coins.entries(),
                mutations.spent_coins.entries(),
                header.height,
            ),
            applied ==> final(self).heights() == heights_after(
                old(self).heights(),
                info_of(*header),
            ),
            !applied ==> final(self).rows() == old(self).rows() && final(self).heights() == old(
                self,
            ).heights(),
    {
        proof {
            use_type_invariant(&*self);
        }
        let height = header.height;
        if height < self.top {
            return false;
        }
        let ghost rows0 = self.rows();
        let ghost heights0 = self.heights();
        let ghost top0 = self.top;
        let ghost new_entries = mutations.new_coins.entries();
        let ghost spent_entries = mutations.spent_coins.entries();
        let mut taken = Indexer::new();
        core::mem::swap(self, &mut taken);
        let mut coins = taken.coins;
        let mut heights = taken.heights;
        let n_new = mutations.new_coins.len();
        let mut n: usize = 0;
        while n < n_new
            invariant
                n <= n_new,
                n_new == new_entries.len(),
                new_entries == mutations.new_coins.entries(),
                coin_info_views(coins@) == inserted_all(rows0, new_entries, height, n as nat),
            decreases n_new - n,
        {
            let id = mutations.new_coins.id_at(n);
            let data = mutations.new_coins.value_at(n);
            if !holds_row(&coins, &id, height) {
                let ghost before = coin_info_views(coins@);
                coins.push(
                    CoinInfo {
                        create_txhash: id.txhash,
                        create_index: id.index,
                        create_height: height,
                        coin_data: data.clone(),
                        spend_info: None,
                    },
                );
                proof {
                    assert(coin_info_views(coins@) =~= before.push(
                        fresh_row(id, height, new_entries[n as int].1),
                    ));
                }
            }
            n = n + 1;
        }
        let ghost inserted = coin_info_views(coins@);
        let n_spent = mutations.spent_coins.len();
        let mut m: usize = 0;
        while m < n_spent
            invariant
                m <= n_spent,
                n_spent == spent_entries.len(),
                spent_entries == mutations.spent_coins.entries(),
                coin_info_views(coins@) == marked_all(inserted, spent_entries, height, m as nat),
            decreases n_spent - m,
        {
            let id = mutations.spent_coins.id_at(m);
            let by = mutations.spent_coins.value_at(m);
            mark_rows(
                &mut coins,
                &id,
                CoinSpendInfo {
                    spend_txhash: by.txhash,
                    spend_index: by.index,
                    spend_height: height,
                },
            );
            m = m + 1;
        }
        let mut known = false;
        let mut i: usize = 0;
        while i < heights.len()
            invariant
                i <= heights@.len(),
                known <==> exists|j: int| 0 <= j < i && (#[trigger] heights@[j]).height == height,
            decreases heights@.len() - i,
        {
            if heights[i].height == height {
                known = true;
            }
            i = i + 1;
        }
        proof {
            lemma_max_height(heights0);
            lemma_block_keeps(rows0, new_entries, spent_entries, top0, height);
        }
        if !known {
            heights.push(
                HeightInfo {
                    height,
                    blkhash: header.hash,
                    fee_pool: header.fee_pool,
                    fee_multiplier: header.fee_multiplier,
                    dosc_speed: header.dosc_speed,
                },
            );
            proof {
                assert(heights@ =~= heights0.push(info_of(*header)));
                assert(heights@.drop_last() =~= heights0);
            }
        }
        *self = Indexer { coins, heights, top: height };
        true
    }

    /// Derives what a block does to the coin table and commits it.
    ///
    /// `snapshot` holds what the snapshot pinned at the block's height
    /// reported for the ids of `lookup_targets`. The mutations that were
    /// committed are handed back.
    pub fn ingest_block(&mut self, block: &Block, snapshot: &IdMap<CoinData>) -> (out: Result<
        Mutations,
        IngestError,
    >)
        ensures
            out is Ok <==> all_addressable(transaction_views(block.transactions@))
                && block.header.height >= max_height_of(old(self).heights()),
            out == Err::<Mutations, IngestError>(IngestError::TooManyOutputs) <==> !all_addressable(
                transaction_views(block.transactions@),
            ),
            out matches Err(e) ==> (e == IngestError::TooManyOutputs || e == IngestError::OutOfOrder)
                && final(self).rows() == old(self).rows() && final(self).heights() == old(
                self,
            ).heights(),
            out matches Ok(m) ==> {
                &&& m.new_coins@ == new_coins_of(
                    block.header.height,
                    transaction_views(block.transactions@),
                    snapshot@,
                )
                &&& m.spent_coins@ == spent_coins_of(transaction_views(block.transactions@))
                &&& final(self).rows() == rows_after_block(
                    old(self).rows(),
                    m.new_coins.entries(),
                    m.spent_coins.entries(),
                    block.header.height,
                )
                &&& final(self).heights() == heights_after(
                    old(self).heights(),
                    info_of(block.header),
                )
            },
    {
        let mutations = match derive_mutations(block.header.height, &block.transactions, snapshot) {
            Ok(m) => m,
            Err(e) => {
                return Err(e);
            },
        };
        if self.apply_block(&block.header, &mutations) {
            Ok(mutations)
        } else {
            Err(IngestError::OutOfOrder)
        }
    }
}

/// Whether a table holds a row created under `id` at `height`.
fn holds_row(coins: &Vec<CoinInfo>, id: &CoinID, height: u64) -> (found: bool)
    ensures
        found == has_row(coin_info_views(coins@), *id, height),
{
    let ghost rows = coin_info_views(coins@);
    let mut i: usize = 0;
    while i < coins.len()
        invariant
            i <= coins@.len(),
            rows == coin_info_views(coins@),
            forall|j: int|
                0 <= j < i ==> !(#[trigger] rows[j].id() == *id && rows[j].create_height == height),
        decreases coins@.len() - i,
    {
        let row = &coins[i];
        assert(rows[i as int] == row@);
        if row.create_height == height && row.create_index == id.index && row.create_txhash.same(
            &id.txhash,
        ) {
            assert(rows[i as int].id() == *id);
            return true;
        }
        i = i + 1;
    }
    false
}

/// Marks every row created under `id` as spent.
fn mark_rows(coins: &mut Vec<CoinInfo>, id: &CoinID, spend: CoinSpendInfo)
    ensures
        coin_info_views(final(coins)@) == marked(coin_info_views(old(coins)@), *id, spend),
{
    let ghost rows = coin_info_views(coins@);
    let mut i: usize = 0;
    while i < coins.len()
        invariant
            i <= coins@.len(),
            coins@.len() == rows.len(),
            forall|j: int| 0 <= j < i ==> (#[trigger] coins@[j])@ == marked(rows, *id, spend)[j],
            forall|j: int| i <= j < rows.len() ==> (#[trigger] coins@[j])@ == rows[j],
        decreases coins@.len() - i,
    {
        let row = &coins[i];
        if row.create_index == id.index && row.create_txhash.same(&id.txhash) {
            let updated = CoinInfo {
                create_txhash: row.create_txhash,
                create_index: row.create_index,
                create_height: row.create_height,
                coin_data: row.coin_data.clone(),
                spend_info: Some(spend),
            };
            assert(rows[i as int].id() == *id);
            coins.set(i, updated);
        } else {
            assert(rows[i as int].id() != *id);
        }
        i = i + 1;
    }
    proof {
        assert(coin_info_views(coins@) =~= marked(rows, *id, spend));
    }
}

} // verus!
