//! The statements that persist a block, and those that read the store back.

use crate::codec::{all_plain, hash_to_text, hex_encode, hex_text, json_of_texts};
use crate::codec::{lemma_hex_text_plain, plain_json_array};
use crate::codec::{decode_stake_doc, denom_bytes, denom_to_bytes, kind_byte, kind_code};
use crate::codec::{stake_doc_fields, text_views};
use crate::encoding::{be_bytes, encode_value};
use crate::ingest::{IngestError, Mutations, Spender};
use crate::rows::stored_row;
use crate::sql::{SqlValue, SqlValueView, Statement, StatementView, statement_views};
use crate::table::{fresh_row, spend_at, spent_row};
use crate::types::{BlockHeader, CoinData, CoinDataView, CoinID, CoinInfoView, StakeDoc};
use crate::types::Transaction;
use crate::types::{TransactionView, TxHash, transaction_views};
use vstd::prelude::*;
use vstd::string::StringExecFns;

verus! {

/// Inserts one coin, unspent.
pub const INSERT_COIN_SQL: &'static str =
    "insert into coins values ($1, $2, $3, NULL, NULL, NULL, $4, $5, $6, $7)";

/// Marks the coins of one id as spent.
pub const UPDATE_SPEND_SQL: &'static str =
    "update coins set spend_txhash = $1, spend_index = $2, spend_height = $3 where create_txhash = $4 and create_index = $5";

/// Inserts what is kept of one block.
pub const INSERT_HEADVARS_SQL: &'static str = "insert into headvars values ($1, $2, $3, $4, $5)";

/// Inserts one stake document.
pub const INSERT_STAKE_SQL: &'static str = "insert into stakes values ($1, $2, $3, $4, $5)";

/// Inserts what is kept of one transaction.
pub const INSERT_TXVARS_SQL: &'static str = "insert into txvars values ($1, $2, $3, $4, $5, $6)";

/// How many bytes of a transaction's data are kept.
pub const DATA_KEPT: usize = 1024;

/// The statement that inserts a coin created at `height`.
pub open spec fn insert_coin_statement(id: CoinID, height: u64, data: CoinDataView) -> StatementView {
    StatementView {
        sql: INSERT_COIN_SQL@,
        params: seq![
            SqlValueView::Text(hex_text(id.txhash@)),
            SqlValueView::Integer(id.index as u64),
            SqlValueView::Integer(height),
            SqlValueView::Blob(be_bytes(data.value as nat, 16)),
            SqlValueView::Blob(denom_bytes(data.denom)),
            SqlValueView::Text(hex_text(data.covhash@)),
            SqlValueView::Blob(data.additional_data),
        ],
    }
}

/// Builds the statement that inserts a coin created at `height`.
pub fn insert_coin(id: &CoinID, height: u64, data: &CoinData) -> (st: Statement)
    ensures
        st@ == insert_coin_statement(*id, height, data@),
{
    let mut params: Vec<SqlValue> = Vec::new();
    params.push(SqlValue::Text(hash_to_text(&id.txhash)));
    params.push(SqlValue::Integer(id.index as u64));
    params.push(SqlValue::Integer(height));
    params.push(SqlValue::Blob(encode_value(data.value)));
    params.push(SqlValue::Blob(denom_to_bytes(&data.denom)));
    params.push(SqlValue::Text(hash_to_text(&data.covhash)));
    params.push(SqlValue::Blob(data.additional_data.clone()));
    let st = Statement { sql: String::from_str(INSERT_COIN_SQL), params };
    proof {
        assert(st@.params =~= insert_coin_statement(*id, height, data@).params);
    }
    st
}

/// The insert of a coin binds the stored columns of its fresh row, and
/// leaves the three spend columns null.
pub proof fn lemma_insert_binds_stored_row(id: CoinID, height: u64, data: CoinDataView)
    ensures
        ({
            let stored = stored_row(fresh_row(id, height, data));
            let bound = insert_coin_statement(id, height, data).params;
            &&& bound[0] == SqlValueView::Text(stored.create_txhash)
            &&& bound[1] == SqlValueView::Integer(stored.create_index as u64)
            &&& bound[2] == SqlValueView::Integer(stored.create_height)
            &&& bound[3] == SqlValueView::Blob(stored.value)
            &&& bound[4] == SqlValueView::Blob(stored.denom)
            &&& bound[5] == SqlValueView::Text(stored.covhash)
            &&& bound[6] == SqlValueView::Blob(stored.additional_data)
            &&& stored.spend_txhash is None
            &&& stored.spend_index is None
            &&& stored.spend_height is None
        }),
{
}

/// The statement that marks the coins of `id` as spent at `height`.
pub open spec fn update_spend_statement(id: CoinID, height: u64, by: Spender) -> StatementView {
    StatementView {
        sql: UPDATE_SPEND_SQL@,
        params: seq![
            SqlValueView::Text(hex_text(by.txhash@)),
            SqlValueView::Integer(by.index as u64),
            SqlValueView::Integer(height),
            SqlValueView::Text(hex_text(id.txhash@)),
            SqlValueView::Integer(id.index as u64),
        ],
    }
}

/// The update of a spend binds the three spend columns of the stored row of
/// a coin so spent, all of them set, and the id of the coin.
pub proof fn lemma_update_binds_spend_columns(row: CoinInfoView, height: u64, by: Spender)
    ensures
        ({
            let stored = stored_row(spent_row(row, spend_at(by, height)));
            let bound = update_spend_statement(row.id(), height, by).params;
            &&& stored.spend_txhash == Some(hex_text(by.txhash@))
            &&& bound[0] == SqlValueView::Text(stored.spend_txhash.unwrap())
            &&& bound[1] == SqlValueView::Integer(stored.spend_index.unwrap() as u64)
            &&& bound[2] == SqlValueView::Integer(stored.spend_height.unwrap())
            &&& bound[3] == SqlValueView::Text(stored.create_txhash)
            &&& bound[4] == SqlValueView::Integer(stored.create_index as u64)
        }),
{
}

/// Builds the statement that marks the coins of `id` as spent at `height`.
pub fn update_spend(id: &CoinID, height: u64, by: &Spender) -> (st: Statement)
    ensures
        st@ == update_spend_statement(*id, height, *by),
{
    let mut params: Vec<SqlValue> = Vec::new();
    params.push(SqlValue::Text(hash_to_text(&by.txhash)));
    params.push(SqlValue::Integer(by.index as u64));
    params.push(SqlValue::Integer(height));
    params.push(SqlValue::Text(hash_to_text(&id.txhash)));
    params.push(SqlValue::Integer(id.index as u64));
    let st = Statement { sql: String::from_str(UPDATE_SPEND_SQL), params };
    proof {
        assert(st@.params =~= update_spend_statement(*id, height, *by).params);
    }
    st
}

/// The statement that inserts what is kept of the block at `height`.
pub open spec fn headvars_statement(height: u64, header: BlockHeader) -> StatementView {
    StatementView {
        sql: INSERT_HEADVARS_SQL@,
        params: seq![
            SqlValueView::Integer(height),
            SqlValueView::Text(hex_text(header.hash@)),
            SqlValueView::Blob(be_bytes(header.fee_pool as nat, 16)),
            SqlValueView::Blob(be_bytes(header.fee_multiplier as nat, 16)),
            SqlValueView::Blob(be_bytes(header.dosc_speed as nat, 16)),
        ],
    }
}

/// Builds the statement that inserts what is kept of the block at `height`.
pub fn insert_headvars(height: u64, header: &BlockHeader) -> (st: Statement)
    ensures
        st@ == headvars_statement(height, *header),
{
    let mut params: Vec<SqlValue> = Vec::new();
    params.push(SqlValue::Integer(height));
    params.push(SqlValue::Text(hash_to_text(&header.hash)));
    params.push(SqlValue::Blob(encode_value(header.fee_pool)));
    params.push(SqlValue::Blob(encode_value(header.fee_multiplier)));
    params.push(SqlValue::Blob(encode_value(header.dosc_speed)));
    let st = Statement { sql: String::from_str(INSERT_HEADVARS_SQL), params };
    proof {
        assert(st@.params =~= headvars_statement(height, *header).params);
    }
    st
}

/// The statement that inserts a stake document with the given fields:
/// public key, first epoch, epoch after the last, and amount.
pub open spec fn stake_statement(txhash: TxHash, fields: (Seq<u8>, u64, u64, u128)) -> StatementView {
    StatementView {
        sql: INSERT_STAKE_SQL@,
        params: seq![
            SqlValueView::Text(hex_text(txhash@)),
            SqlValueView::Blob(fields.0),
            SqlValueView::Integer(fields.1),
            SqlValueView::Integer(fields.2),
            SqlValueView::Blob(be_bytes(fields.3 as nat, 16)),
        ],
    }
}

/// Builds the statement that inserts a stake document.
pub fn insert_stake(txhash: &TxHash, doc: &StakeDoc) -> (st: Statement)
    ensures
        st@ == stake_statement(
            *txhash,
            (doc.pubkey@, doc.e_start, doc.e_post_end, doc.syms_staked),
        ),
{
    let mut key: Vec<u8> = Vec::new();
    let mut i: usize = 0;
    while i < 32
        invariant
            i <= 32,
            key@ == doc.pubkey@.take(i as int),
        decreases 32 - i,
    {
        key.push(doc.pubkey[i]);
        proof {
            assert(key@ =~= doc.pubkey@.take(i + 1));
        }
        i = i + 1;
    }
    proof {
        assert(doc.pubkey@.take(32) =~= doc.pubkey@);
    }
    let mut params: Vec<SqlValue> = Vec::new();
    params.push(SqlValue::Text(hash_to_text(txhash)));
    params.push(SqlValue::Blob(key));
    params.push(SqlValue::Integer(doc.e_start));
    params.push(SqlValue::Integer(doc.e_post_end));
    params.push(SqlValue::Blob(encode_value(doc.syms_staked)));
    let st = Statement { sql: String::from_str(INSERT_STAKE_SQL), params };
    proof {
        assert(st@.params =~= stake_statement(
            *txhash,
            (doc.pubkey@, doc.e_start, doc.e_post_end, doc.syms_staked),
        ).params);
    }
    st
}

/// The hex forms of a list of byte strings.
pub open spec fn hex_texts(items: Seq<Seq<u8>>) -> Seq<Seq<char>> {
    Seq::new(items.len(), |i: int| hex_text(items[i]))
}

/// Writes each byte string of a list in hex.
pub fn hex_each(items: &Vec<Vec<u8>>) -> (texts: Vec<String>)
    ensures
        text_views(texts@) == hex_texts(crate::types::byte_string_views(items@)),
{
    let mut texts: Vec<String> = Vec::new();
    let mut i: usize = 0;
    while i < items.len()
        invariant
            i <= items@.len(),
            texts@.len() == i,
            forall|j: int| 0 <= j < i ==> texts@[j]@ == hex_text(items@[j]@),
        decreases items@.len() - i,
    {
        texts.push(hex_encode(&items[i]));
        i = i + 1;
    }
    proof {
        assert(text_views(texts@) =~= hex_texts(crate::types::byte_string_views(items@)));
    }
    texts
}

/// The part of a transaction's data that is kept: its first 1024 bytes.
pub open spec fn kept_data(data: Seq<u8>) -> Seq<u8> {
    if data.len() > DATA_KEPT {
        data.take(DATA_KEPT as int)
    } else {
        data
    }
}

/// Cuts a transaction's data to the part that is kept.
pub fn keep_data(data: &Vec<u8>) -> (kept: Vec<u8>)
    ensures
        kept@ == kept_data(data@),
{
    let mut kept = data.clone();
    kept.truncate(DATA_KEPT);
    proof {
        assert(kept@ =~= kept_data(data@));
    }
    kept
}

/// The statement that inserts what is kept of a transaction, given the JSON
/// texts of its covenants and of its signatures.
pub open spec fn txvars_statement_with(
    tx: TransactionView,
    covenants_json: Seq<char>,
    sigs_json: Seq<char>,
) -> StatementView {
    StatementView {
        sql: INSERT_TXVARS_SQL@,
        params: seq![
            SqlValueView::Text(hex_text(tx.txhash@)),
            SqlValueView::Integer(kind_code(tx.kind) as u64),
            SqlValueView::Blob(be_bytes(tx.fee as nat, 16)),
            SqlValueView::Text(covenants_json),
            SqlValueView::Blob(kept_data(tx.data)),
            SqlValueView::Text(sigs_json),
        ],
    }
}

/// The statement that inserts what is kept of a transaction: its hash, the
/// byte of its kind, its fee, its covenants and signatures as JSON arrays of
/// hex texts, and the kept part of its data.
pub open spec fn txvars_statement(tx: TransactionView) -> StatementView {
    txvars_statement_with(
        tx,
        plain_json_array(hex_texts(tx.covenants)),
        plain_json_array(hex_texts(tx.sigs)),
    )
}

/// The hex forms of byte strings need no escape in a JSON string.
pub proof fn lemma_hex_texts_plain(items: Seq<Seq<u8>>)
    ensures
        all_plain(hex_texts(items)),
{
    assert forall|i: int, j: int|
        0 <= i < hex_texts(items).len() && 0 <= j < hex_texts(items)[i].len() implies crate::codec::is_plain(
        #[trigger] hex_texts(items)[i][j],
    ) by {
        lemma_hex_text_plain(items[i]);
    }
}

/// Builds the statement that inserts what is kept of a transaction from the
/// JSON texts of its covenants and signatures.
pub fn insert_txvars_with(tx: &Transaction, covenants_json: String, sigs_json: String) -> (st:
    Statement)
    ensures
        st@ == txvars_statement_with(tx@, covenants_json@, sigs_json@),
{
    let mut params: Vec<SqlValue> = Vec::new();
    params.push(SqlValue::Text(hash_to_text(&tx.txhash)));
    params.push(SqlValue::Integer(kind_byte(tx.kind) as u64));
    params.push(SqlValue::Blob(encode_value(tx.fee)));
    params.push(SqlValue::Text(covenants_json));
    params.push(SqlValue::Blob(keep_data(&tx.data)));
    params.push(SqlValue::Text(sigs_json));
    let st = Statement { sql: String::from_str(INSERT_TXVARS_SQL), params };
    proof {
        assert(st@.params =~= txvars_statement_with(tx@, covenants_json@, sigs_json@).params);
    }
    st
}

/// Builds the statement that inserts what is kept of a transaction. It
/// succeeds for every transaction.
pub fn insert_txvars(tx: &Transaction) -> (out: Result<Statement, IngestError>)
    ensures
        out is Ok,
        out matches Ok(st) ==> st@ == txvars_statement(tx@),
{
    let covenants = hex_each(&tx.covenants);
    let sigs = hex_each(&tx.sigs);
    proof {
        lemma_hex_texts_plain(tx@.covenants);
        lemma_hex_texts_plain(tx@.sigs);
    }
    let covenants_json = match json_of_texts(&covenants) {
        Ok(text) => text,
        Err(_) => {
            return Err(IngestError::Encoding);
        },
    };
    let sigs_json = match json_of_texts(&sigs) {
        Ok(text) => text,
        Err(_) => {
            return Err(IngestError::Encoding);
        },
    };
    Ok(insert_txvars_with(tx, covenants_json, sigs_json))
}

/// The views of a list of raw stake documents, each under the hash of the
/// transaction that staked.
pub open spec fn staker_views(stakers: Seq<(TxHash, Vec<u8>)>) -> Seq<(TxHash, Seq<u8>)> {
    Seq::new(stakers.len(), |i: int| (stakers[i].0, stakers[i].1@))
}

/// The raw stake documents that were fetched for a block; none where the
/// staker set was not fetched.
pub open spec fn fetched_stakers(stakers: Option<Vec<(TxHash, Vec<u8>)>>) -> Seq<
    (TxHash, Seq<u8>),
> {
    match stakers {
        Some(list) => staker_views(list@),
        None => Seq::empty(),
    }
}

/// Whether every raw stake document of a list decodes.
pub open spec fn all_decode(stakers: Seq<(TxHash, Seq<u8>)>) -> bool {
    forall|i: int| 0 <= i < stakers.len() ==> (#[trigger] stake_doc_fields(stakers[i].1)) is Some
}

/// One insert for each new coin, in the order of the entries.
pub open spec fn coin_inserts(entries: Seq<(CoinID, CoinDataView)>, height: u64) -> Seq<
    StatementView,
> {
    Seq::new(entries.len(), |i: int| insert_coin_statement(entries[i].0, height, entries[i].1))
}

/// One update for each spent coin, in the order of the entries.
pub open spec fn spend_updates(entries: Seq<(CoinID, Spender)>, height: u64) -> Seq<StatementView> {
    Seq::new(entries.len(), |i: int| update_spend_statement(entries[i].0, height, entries[i].1))
}

/// One insert for each stake document, in order.
pub open spec fn stake_statements(stakers: Seq<(TxHash, Seq<u8>)>) -> Seq<StatementView> {
    Seq::new(
        stakers.len(),
        |i: int| stake_statement(stakers[i].0, stake_doc_fields(stakers[i].1).unwrap()),
    )
}

/// One insert for each transaction, in order.
pub open spec fn txvars_statements(txs: Seq<TransactionView>) -> Seq<StatementView> {
    Seq::new(txs.len(), |i: int| txvars_statement(txs[i]))
}

/// The statements that persist a block, to be run in one transaction of the
/// store: the new coins, the spends, the block's own row, the stake
/// documents, and the transactions.
pub open spec fn block_statements(
    height: u64,
    header: BlockHeader,
    new_coins: Seq<(CoinID, CoinDataView)>,
    spent_coins: Seq<(CoinID, Spender)>,
    stakers: Seq<(TxHash, Seq<u8>)>,
    txs: Seq<TransactionView>,
) -> Seq<StatementView> {
    coin_inserts(new_coins, height) + spend_updates(spent_coins, height) + seq![
        headvars_statement(height, header),
    ] + stake_statements(stakers) + txvars_statements(txs)
}

proof fn lemma_pushed_views(list: Seq<Statement>, st: Statement, all: Seq<StatementView>, n: int)
    requires
        0 <= n < all.len(),
        st@ == all[n],
    ensures
        statement_views(list).len() == n ==> statement_views(list.push(st)) == statement_views(
            list,
        ) + all.subrange(n, n + 1),
        all.take(n + 1) == all.take(n) + all.subrange(n, n + 1),
{
    if statement_views(list).len() == n {
        assert(statement_views(list.push(st)) =~= statement_views(list) + all.subrange(n, n + 1));
    }
    assert(all.take(n + 1) =~= all.take(n) + all.subrange(n, n + 1));
}

/// Builds the statements that persist a block at `height`.
///
/// `stakers` holds the raw stake documents where the staker set was fetched
/// for this block. The result is `BadStakeDoc` if one of them does not
/// decode, and the statements of the block if all of them decode.
pub fn commit_statements(
    height: u64,
    header: &BlockHeader,
    mutations: &Mutations,
    stakers: &Option<Vec<(TxHash, Vec<u8>)>>,
    txs: &Vec<Transaction>,
) -> (out: Result<Vec<Statement>, IngestError>)
    ensures
        out is Ok <==> all_decode(fetched_stakers(*stakers)),
        out matches Err(e) ==> e == IngestError::BadStakeDoc,
        out matches Ok(list) ==> statement_views(list@) == block_statements(
            height,
            *header,
            mutations.new_coins.entries(),
            mutations.spent_coins.entries(),
            fetched_stakers(*stakers),
            transaction_views(txs@),
        ),
{
    let ghost new_entries = mutations.new_coins.entries();
    let ghost spent_entries = mutations.spent_coins.entries();
    let ghost docs = fetched_stakers(*stakers);
    let ghost views = transaction_views(txs@);
    let mut list: Vec<Statement> = Vec::new();
    let mut i: usize = 0;
    let n_new = mutations.new_coins.len();
    while i < n_new
        invariant
            i <= n_new,
            n_new == new_entries.len(),
            new_entries == mutations.new_coins.entries(),
            statement_views(list@) == coin_inserts(new_entries, height).take(i as int),
        decreases n_new - i,
    {
        let id = mutations.new_coins.id_at(i);
        let st = insert_coin(&id, height, mutations.new_coins.value_at(i));
        proof {
            lemma_pushed_views(list@, st, coin_inserts(new_entries, height), i as int);
        }
        list.push(st);
        i = i + 1;
    }
    let ghost part1 = coin_inserts(new_entries, height);
    proof {
        assert(part1.take(i as int) =~= part1);
    }
    let mut j: usize = 0;
    let n_spent = mutations.spent_coins.len();
    while j < n_spent
        invariant
            j <= n_spent,
            n_spent == spent_entries.len(),
            spent_entries == mutations.spent_coins.entries(),
            statement_views(list@) == part1 + spend_updates(spent_entries, height).take(j as int),
        decreases n_spent - j,
    {
        let id = mutations.spent_coins.id_at(j);
        let st = update_spend(&id, height, mutations.spent_coins.value_at(j));
        proof {
            let all = spend_updates(spent_entries, height);
            lemma_pushed_views(list@, st, part1 + all, part1.len() + j);
            assert((part1 + all).take(part1.len() + j) =~= part1 + all.take(j as int));
            assert((part1 + all).take(part1.len() + j + 1) =~= part1 + all.take(j + 1));
        }
        list.push(st);
        j = j + 1;
    }
    let ghost part2 = part1 + spend_updates(spent_entries, height);
    proof {
        assert(spend_updates(spent_entries, height).take(j as int) =~= spend_updates(
            spent_entries,
            height,
        ));
    }
    list.push(insert_headvars(height, header));
    let ghost part3 = part2 + seq![headvars_statement(height, *header)];
    proof {
        assert(statement_views(list@) =~= part3 + stake_statements(docs).take(0));
    }
    match stakers {
        Some(raw) => {
            let mut k: usize = 0;
            while k < raw.len()
                invariant
                    k <= raw@.len(),
                    docs == staker_views(raw@),
                    docs == fetched_stakers(*stakers),
                    all_decode(docs.take(k as int)),
                    statement_views(list@) == part3 + stake_statements(docs).take(k as int),
                decreases raw@.len() - k,
            {
                assert(docs[k as int].1 == raw@[k as int].1@);
                match decode_stake_doc(&raw[k].1) {
                    Some(doc) => {
                        let st = insert_stake(&raw[k].0, &doc);
                        proof {
                            let all = stake_statements(docs);
                            lemma_pushed_views(list@, st, part3 + all, part3.len() + k);
                            assert((part3 + all).take(part3.len() + k) =~= part3 + all.take(
                                k as int,
                            ));
                            assert((part3 + all).take(part3.len() + k + 1) =~= part3 + all.take(
                                k + 1,
                            ));
                        }
                        list.push(st);
                        proof {
                            assert forall|n: int| 0 <= n < docs.take(k + 1).len() implies (
                            #[trigger] stake_doc_fields(docs.take(k + 1)[n].1)) is Some by {
                                if n < k {
                                    assert(docs.take(k as int)[n] == docs.take(k + 1)[n]);
                                }
                            }
                        }
                    },
                    None => {
                        proof {
                            assert(stake_doc_fields(docs[k as int].1) is None);
                        }
                        return Err(IngestError::BadStakeDoc);
                    },
                }
                k = k + 1;
            }
            proof {
                assert(docs.take(k as int) =~= docs);
            }
        },
        None => {},
    }
    let ghost part4 = part3 + stake_statements(docs);
    proof {
        assert(stake_statements(docs).take(docs.len() as int) =~= stake_statements(docs));
        assert(statement_views(list@) =~= part4 + txvars_statements(views).take(0));
    }
    let mut t: usize = 0;
    while t < txs.len()
        invariant
            t <= txs@.len(),
            views == transaction_views(txs@),
            all_decode(docs),
            docs == fetched_stakers(*stakers),
            statement_views(list@) == part4 + txvars_statements(views).take(t as int),
        decreases txs@.len() - t,
    {
        match insert_txvars(&txs[t]) {
            Ok(st) => {
                proof {
                    let all = txvars_statements(views);
                    lemma_pushed_views(list@, st, part4 + all, part4.len() + t);
                    assert((part4 + all).take(part4.len() + t) =~= part4 + all.take(t as int));
                    assert((part4 + all).take(part4.len() + t + 1) =~= part4 + all.take(t + 1));
                }
                list.push(st);
            },
            Err(e) => {
                return Err(e);
            },
        }
        t = t + 1;
    }
    proof {
        assert(txvars_statements(views).take(t as int) =~= txvars_statements(views));
    }
    Ok(list)
}

} // verus!
