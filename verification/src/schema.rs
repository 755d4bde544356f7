//! The tables and indexes of the store, how a connection is set up, and the
//! statements of the read path.

use crate::codec::{hash_to_text, hex_text};
use crate::sql::{SqlValue, SqlValueView, Statement, StatementView, statement_views};
use crate::types::HashVal;
use vstd::prelude::*;
use vstd::string::StringExecFns;

verus! {

/// Creates the coin table: one row per coin, unique in its id and creation height.
pub const CREATE_COINS_SQL: &'static str =
    "create table if not exists coins (create_txhash not null, create_index not null, create_height not null, spend_txhash, spend_index, spend_height, value not null, denom not null, covhash not null, additional_data not null, UNIQUE(create_txhash, create_index, create_height) ON CONFLICT IGNORE)";

/// Indexes the coins by owner.
pub const INDEX_OWNER_SQL: &'static str = "create index if not exists coins_owner on coins(covhash)";

/// Indexes the coins by owner and spending transaction.
pub const INDEX_BALANCE_SQL: &'static str =
    "create index if not exists coins_balance on coins(covhash, spend_txhash)";

/// Indexes the coins by owner and spend height.
pub const INDEX_BALANCE1_SQL: &'static str =
    "create index if not exists coins_balance1 on coins(covhash, spend_height)";

/// Indexes the coins by creation height and spend height.
pub const INDEX_SUPPLY_SQL: &'static str =
    "create index if not exists coins_supply on coins(create_height, spend_height)";

/// Indexes the coins by creation height and spending transaction.
pub const INDEX_SUPPLY1_SQL: &'static str =
    "create index if not exists coins_supply1 on coins(create_height, spend_txhash)";

/// Indexes the coins by denomination.
pub const INDEX_DENOM_SQL: &'static str = "create index if not exists coins_denom on coins(denom)";

/// Indexes the coins by spending transaction.
pub const INDEX_SPENDER_SQL: &'static str =
    "create index if not exists coins_spender on coins(spend_txhash)";

/// Indexes the coins by creation height.
pub const INDEX_CREATEHEIGHT_SQL: &'static str =
    "create index if not exists coins_createheight on coins(create_height)";

/// Indexes the coins by spend height.
pub const INDEX_SPENDHEIGHT_SQL: &'static str =
    "create index if not exists coins_spendheight on coins(spend_height)";

/// Creates the table of indexed heights: one row per block.
pub const CREATE_HEADVARS_SQL: &'static str =
    "create table if not exists headvars (height primary key not null, blkhash not null, fee_pool not null, fee_multiplier not null, dosc_speed not null, UNIQUE(height) ON CONFLICT IGNORE)";

/// Creates the table of stake documents: one row per staking transaction.
pub const CREATE_STAKES_SQL: &'static str =
    "create table if not exists stakes (txhash primary key not null, pubkey not null, e_start not null, e_post_end not null, staked not null, UNIQUE(txhash) ON CONFLICT IGNORE)";

/// Creates the table of transactions: one row per transaction.
pub const CREATE_TXVARS_SQL: &'static str =
    "create table if not exists txvars (txhash primary key not null, kind not null, fee not null, covenants not null, data not null, sigs not null, UNIQUE(txhash) ON CONFLICT IGNORE)";

/// Switches a connection to write-ahead journaling.
pub const JOURNAL_MODE_SQL: &'static str = "PRAGMA journal_mode = WAL;";

/// Switches a connection to normal synchronous mode.
pub const SYNCHRONOUS_SQL: &'static str = "PRAGMA synchronous = NORMAL;";

/// Hints the store to optimize itself.
pub const OPTIMIZE_SQL: &'static str = "PRAGMA optimize;";

/// Selects what is kept of the block at a height.
pub const SELECT_HEIGHT_INFO_SQL: &'static str = "select * from headvars where height = $1";

/// Selects the greatest indexed height, and 0 where none is indexed.
pub const SELECT_MAX_HEIGHT_SQL: &'static str = "select coalesce(max(height), 0) from headvars";

/// Selects the height of the block with a hash.
pub const SELECT_BLKHASH_HEIGHT_SQL: &'static str = "select height from headvars where blkhash = $1";

/// Seconds between two hints to optimize the store.
pub const OPTIMIZE_EVERY_SECS: u64 = 3600;

/// Seconds to wait before trying again what failed, and between two passes
/// of ingestion.
pub const RETRY_DELAY_SECS: u64 = 1;

/// A statement without bound values.
pub open spec fn plain(sql: Seq<char>) -> StatementView {
    StatementView { sql, params: Seq::empty() }
}

/// The statements that create the tables and indexes where they are absent:
/// the coin table, its nine indexes, and the tables of heights, stakes and
/// transactions.
pub open spec fn schema() -> Seq<StatementView> {
    seq![
        plain(CREATE_COINS_SQL@),
        plain(INDEX_OWNER_SQL@),
        plain(INDEX_BALANCE_SQL@),
        plain(INDEX_BALANCE1_SQL@),
        plain(INDEX_SUPPLY_SQL@),
        plain(INDEX_SUPPLY1_SQL@),
        plain(INDEX_DENOM_SQL@),
        plain(INDEX_SPENDER_SQL@),
        plain(INDEX_CREATEHEIGHT_SQL@),
        plain(INDEX_SPENDHEIGHT_SQL@),
        plain(CREATE_HEADVARS_SQL@),
        plain(CREATE_STAKES_SQL@),
        plain(CREATE_TXVARS_SQL@),
    ]
}

/// Builds the statements that create the tables and indexes, in the order in
/// which they are to be run.
pub fn schema_statements() -> (list: Vec<Statement>)
    ensures
        statement_views(list@) == schema(),
{
    let mut list: Vec<Statement> = Vec::new();
    list.push(Statement::plain(CREATE_COINS_SQL));
    list.push(Statement::plain(INDEX_OWNER_SQL));
    list.push(Statement::plain(INDEX_BALANCE_SQL));
    list.push(Statement::plain(INDEX_BALANCE1_SQL));
    list.push(Statement::plain(INDEX_SUPPLY_SQL));
    list.push(Statement::plain(INDEX_SUPPLY1_SQL));
    list.push(Statement::plain(INDEX_DENOM_SQL));
    list.push(Statement::plain(INDEX_SPENDER_SQL));
    list.push(Statement::plain(INDEX_CREATEHEIGHT_SQL));
    list.push(Statement::plain(INDEX_SPENDHEIGHT_SQL));
    list.push(Statement::plain(CREATE_HEADVARS_SQL));
    list.push(Statement::plain(CREATE_STAKES_SQL));
    list.push(Statement::plain(CREATE_TXVARS_SQL));
    proof {
        assert(statement_views(list@) =~= schema());
    }
    list
}

/// Builds the statements that set up a fresh connection: write-ahead
/// journaling, then normal synchronous mode.
pub fn connection_setup() -> (list: Vec<Statement>)
    ensures
        statement_views(list@) == seq![plain(JOURNAL_MODE_SQL@), plain(SYNCHRONOUS_SQL@)],
{
    let mut list: Vec<Statement> = Vec::new();
    list.push(Statement::plain(JOURNAL_MODE_SQL));
    list.push(Statement::plain(SYNCHRONOUS_SQL));
    proof {
        assert(statement_views(list@) =~= seq![plain(JOURNAL_MODE_SQL@), plain(SYNCHRONOUS_SQL@)]);
    }
    list
}

/// Builds the statement that selects what is kept of the block at a height.
pub fn select_height_info(height: u64) -> (st: Statement)
    ensures
        st@ == (StatementView {
            sql: SELECT_HEIGHT_INFO_SQL@,
            params: seq![SqlValueView::Integer(height)],
        }),
{
    let mut params: Vec<SqlValue> = Vec::new();
    params.push(SqlValue::Integer(height));
    let st = Statement { sql: String::from_str(SELECT_HEIGHT_INFO_SQL), params };
    proof {
        assert(st@.params =~= seq![SqlValueView::Integer(height)]);
    }
    st
}

/// Builds the statement that selects the greatest indexed height.
pub fn select_max_height() -> (st: Statement)
    ensures
        st@ == plain(SELECT_MAX_HEIGHT_SQL@),
{
    Statement::plain(SELECT_MAX_HEIGHT_SQL)
}

/// Builds the statement that selects the height of the block with a hash.
pub fn select_blkhash_height(blkhash: &HashVal) -> (st: Statement)
    ensures
        st@ == (StatementView {
            sql: SELECT_BLKHASH_HEIGHT_SQL@,
            params: seq![SqlValueView::Text(hex_text(blkhash@))],
        }),
{
    let mut params: Vec<SqlValue> = Vec::new();
    params.push(SqlValue::Text(hash_to_text(blkhash)));
    let st = Statement { sql: String::from_str(SELECT_BLKHASH_HEIGHT_SQL), params };
    proof {
        assert(st@.params =~= seq![SqlValueView::Text(hex_text(blkhash@))]);
    }
    st
}

} // verus!
