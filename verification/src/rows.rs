//! Rows of the store as they come back from a select, and what they decode to.

use crate::codec::{denom_bytes, denom_from_bytes, hash_from_text, hex_bytes, is_hash_text};
use crate::codec::{denom_to_bytes, hash_to_text, hex_text, lemma_hex_round_trip};
use crate::encoding::{be_bytes, be_value, decode_value, encode_value, lemma_be_bytes_len};
use crate::encoding::{lemma_u128_fits, lemma_value_of_bytes};
use crate::types::{CoinData, CoinDataView, CoinInfo, CoinInfoView, CoinSpendInfo, Denom, HashVal};
use crate::types::{HeightInfo, hash_with_bytes};
use vstd::prelude::*;

verus! {

/// A row of the coin table, column by column, as the store holds it.
#[derive(Debug, PartialEq, Eq)]
pub struct RawCoinRow {
    pub create_txhash: String,
    pub create_index: u8,
    pub create_height: u64,
    pub spend_txhash: Option<String>,
    pub spend_index: Option<usize>,
    pub spend_height: Option<u64>,
    pub value: Vec<u8>,
    pub denom: Vec<u8>,
    pub covhash: String,
    pub additional_data: Vec<u8>,
}

/// A raw coin row as a mathematical value.
pub struct RawCoinRowView {
    pub create_txhash: Seq<char>,
    pub create_index: u8,
    pub create_height: u64,
    pub spend_txhash: Option<Seq<char>>,
    pub spend_index: Option<usize>,
    pub spend_height: Option<u64>,
    pub value: Seq<u8>,
    pub denom: Seq<u8>,
    pub covhash: Seq<char>,
    pub additional_data: Seq<u8>,
}

impl View for RawCoinRow {
    type V = RawCoinRowView;

    open spec fn view(&self) -> RawCoinRowView {
        RawCoinRowView {
            create_txhash: self.create_txhash@,
            create_index: self.create_index,
            create_height: self.create_height,
            spend_txhash: match self.spend_txhash {
                Some(t) => Some(t@),
                None => None,
            },
            spend_index: self.spend_index,
            spend_height: self.spend_height,
            value: self.value@,
            denom: self.denom@,
            covhash: self.covhash@,
            additional_data: self.additional_data@,
        }
    }
}

impl Clone for RawCoinRow {
    fn clone(&self) -> (out: RawCoinRow)
        ensures
            out@ == self@,
    {
        RawCoinRow {
            create_txhash: self.create_txhash.clone(),
            create_index: self.create_index,
            create_height: self.create_height,
            spend_txhash: match &self.spend_txhash {
                Some(t) => Some(t.clone()),
                None => None,
            },
            spend_index: self.spend_index,
            spend_height: self.spend_height,
            value: self.value.clone(),
            denom: self.denom.clone(),
            covhash: self.covhash.clone(),
            additional_data: self.additional_data.clone(),
        }
    }
}

/// Why a row does not decode.
#[derive(Clone, Copy, Debug, PartialEq, Eq)]
pub enum RowError {
    /// The creating transaction's hash is not 64 hex digits.
    BadCreateTxhash,
    /// The spending transaction's hash is not 64 hex digits.
    BadSpendTxhash,
    /// A 128-bit column is not 16 bytes long.
    BadValue,
    /// The denomination's bytes are those of no denomination.
    BadDenom,
    /// The address is not 64 hex digits.
    BadCovhash,
    /// The row names a spending transaction but no input index.
    MissingSpendIndex,
    /// The row names a spending transaction but no spend height.
    MissingSpendHeight,
    /// The block hash is not 64 hex digits.
    BadBlockHash,
}

/// The hash that a text spells.
pub open spec fn hash_of_text(text: Seq<char>) -> HashVal {
    hash_with_bytes(hex_bytes(text))
}

/// Whether some denomination has the given bytes.
pub open spec fn is_denom(bytes: Seq<u8>) -> bool {
    exists|d: Denom| denom_bytes(d) == bytes
}

/// The denomination that has the given bytes.
pub open spec fn denom_with_bytes(bytes: Seq<u8>) -> Denom {
    choose|d: Denom| denom_bytes(d) == bytes
}

/// No two denominations have the same bytes.
pub proof fn lemma_denom_bytes_injective(a: Denom, b: Denom)
    requires
        denom_bytes(a) == denom_bytes(b),
    ensures
        a == b,
{
    match (a, b) {
        (Denom::Custom(x), Denom::Custom(y)) => {
            HashVal::lemma_same_bytes(x, y);
        },
        (Denom::Custom(x), _) => {
            HashVal::lemma_same_bytes(x, x);
            assert(denom_bytes(b).len() <= 1);
        },
        (_, Denom::Custom(y)) => {
            HashVal::lemma_same_bytes(y, y);
            assert(denom_bytes(a).len() <= 1);
        },
        _ => {
            assert(denom_bytes(Denom::Mel)[0] == 0x6d && denom_bytes(Denom::Mel).len() == 1);
            assert(denom_bytes(Denom::Sym)[0] == 0x73 && denom_bytes(Denom::Sym).len() == 1);
            assert(denom_bytes(Denom::Erg)[0] == 0x64 && denom_bytes(Denom::Erg).len() == 1);
            assert(denom_bytes(Denom::NewCustom).len() == 0);
        },
    }
}

/// How the spend columns of a row decode, once the hash has been read: a row
/// that names no spending transaction is unspent, whatever its other spend
/// columns hold; one that names a spending transaction needs both others.
pub open spec fn decoded_spend(raw: RawCoinRowView) -> Result<Option<CoinSpendInfo>, RowError> {
    match raw.spend_txhash {
        None => Ok(None),
        Some(text) => match (raw.spend_index, raw.spend_height) {
            (None, _) => Err(RowError::MissingSpendIndex),
            (Some(_), None) => Err(RowError::MissingSpendHeight),
            (Some(index), Some(height)) => Ok(
                Some(
                    CoinSpendInfo {
                        spend_txhash: hash_of_text(text),
                        spend_index: index,
                        spend_height: height,
                    },
                ),
            ),
        },
    }
}

/// What a raw coin row decodes to. The columns are read in table order, and
/// the first that does not decode gives the error; the spend index and
/// height are looked at last.
pub open spec fn decoded_row(raw: RawCoinRowView) -> Result<CoinInfoView, RowError> {
    if !is_hash_text(raw.create_txhash) {
        Err(RowError::BadCreateTxhash)
    } else if raw.spend_txhash matches Some(text) && !is_hash_text(text) {
        Err(RowError::BadSpendTxhash)
    } else if raw.value.len() != 16 {
        Err(RowError::BadValue)
    } else if !is_denom(raw.denom) {
        Err(RowError::BadDenom)
    } else if !is_hash_text(raw.covhash) {
        Err(RowError::BadCovhash)
    } else {
        match decoded_spend(raw) {
            Err(e) => Err(e),
            Ok(spend_info) => Ok(
                CoinInfoView {
                    create_txhash: hash_of_text(raw.create_txhash),
                    create_index: raw.create_index,
                    create_height: raw.create_height,
                    coin_data: CoinDataView {
                        covhash: hash_of_text(raw.covhash),
                        value: be_value(raw.value) as u128,
                        denom: denom_with_bytes(raw.denom),
                        additional_data: raw.additional_data,
                    },
                    spend_info,
                },
            ),
        }
    }
}

/// Reads a hash from its text, if the text is one.
pub fn parse_hash(text: &str) -> (hash: Option<HashVal>)
    ensures
        hash is Some <==> is_hash_text(text@),
        hash matches Some(h) ==> h == hash_of_text(text@),
{
    let hash = hash_from_text(text);
    proof {
        if let Some(h) = hash {
            HashVal::lemma_hash_with_bytes(h);
        }
    }
    hash
}

/// Reads a denomination from its bytes, if they are those of one.
pub fn parse_denom(bytes: &Vec<u8>) -> (denom: Option<Denom>)
    ensures
        denom is Some <==> is_denom(bytes@),
        denom matches Some(d) ==> d == denom_with_bytes(bytes@),
{
    let denom = denom_from_bytes(bytes);
    proof {
        if let Some(d) = denom {
            lemma_denom_bytes_injective(d, denom_with_bytes(bytes@));
        }
    }
    denom
}

/// Decodes a row of the coin table.
pub fn decode_coin_row(raw: &RawCoinRow) -> (out: Result<CoinInfo, RowError>)
    ensures
        match out {
            Ok(row) => decoded_row(raw@) == Ok::<CoinInfoView, RowError>(row@),
            Err(e) => decoded_row(raw@) == Err::<CoinInfoView, RowError>(e),
        },
{
    let create_txhash = match parse_hash(raw.create_txhash.as_str()) {
        Some(h) => h,
        None => {
            return Err(RowError::BadCreateTxhash);
        },
    };
    let spend_txhash = match &raw.spend_txhash {
        Some(text) => match parse_hash(text.as_str()) {
            Some(h) => Some(h),
            None => {
                return Err(RowError::BadSpendTxhash);
            },
        },
        None => None,
    };
    let value = match decode_value(raw.value.as_slice()) {
        Some(v) => v,
        None => {
            return Err(RowError::BadValue);
        },
    };
    let denom = match parse_denom(&raw.denom) {
        Some(d) => d,
        None => {
            return Err(RowError::BadDenom);
        },
    };
    let covhash = match parse_hash(raw.covhash.as_str()) {
        Some(h) => h,
        None => {
            return Err(RowError::BadCovhash);
        },
    };
    let spend_info = match spend_txhash {
        None => None,
        Some(spend_txhash) => {
            let spend_index = match raw.spend_index {
                Some(i) => i,
                None => {
                    return Err(RowError::MissingSpendIndex);
                },
            };
            let spend_height = match raw.spend_height {
                Some(h) => h,
                None => {
                    return Err(RowError::MissingSpendHeight);
                },
            };
            Some(CoinSpendInfo { spend_txhash, spend_index, spend_height })
        },
    };
    Ok(
        CoinInfo {
            create_txhash,
            create_index: raw.create_index,
            create_height: raw.create_height,
            coin_data: CoinData {
                covhash,
                value,
                denom,
                additional_data: raw.additional_data.clone(),
            },
            spend_info,
        },
    )
}

/// The columns under which a coin row is stored: hashes and the address as
/// hex text, the value as 16 big-endian bytes, the denomination as its bytes,
/// and the three spend columns either all set or all null.
pub open spec fn stored_row(row: CoinInfoView) -> RawCoinRowView {
    RawCoinRowView {
        create_txhash: hex_text(row.create_txhash@),
        create_index: row.create_index,
        create_height: row.create_height,
        spend_txhash: match row.spend_info {
            Some(s) => Some(hex_text(s.spend_txhash@)),
            None => None,
        },
        spend_index: match row.spend_info {
            Some(s) => Some(s.spend_index),
            None => None,
        },
        spend_height: match row.spend_info {
            Some(s) => Some(s.spend_height),
            None => None,
        },
        value: be_bytes(row.coin_data.value as nat, 16),
        denom: denom_bytes(row.coin_data.denom),
        covhash: hex_text(row.coin_data.covhash@),
        additional_data: row.coin_data.additional_data,
    }
}

/// Writes a coin row in the columns under which it is stored.
pub fn store_coin_row(row: &CoinInfo) -> (raw: RawCoinRow)
    ensures
        raw@ == stored_row(row@),
{
    let (spend_txhash, spend_index, spend_height) = match &row.spend_info {
        Some(s) => (Some(hash_to_text(&s.spend_txhash)), Some(s.spend_index), Some(s.spend_height)),
        None => (None, None, None),
    };
    RawCoinRow {
        create_txhash: hash_to_text(&row.create_txhash),
        create_index: row.create_index,
        create_height: row.create_height,
        spend_txhash,
        spend_index,
        spend_height,
        value: encode_value(row.coin_data.value),
        denom: denom_to_bytes(&row.coin_data.denom),
        covhash: hash_to_text(&row.coin_data.covhash),
        additional_data: row.coin_data.additional_data.clone(),
    }
}

/// In the stored form of a row the spending transaction is null exactly if
/// the spend index is null, and exactly if the spend height is null.
pub proof fn lemma_spend_columns_together(row: CoinInfoView)
    ensures
        stored_row(row).spend_txhash is None <==> stored_row(row).spend_index is None,
        stored_row(row).spend_index is None <==> stored_row(row).spend_height is None,
        stored_row(row).spend_txhash is None <==> row.spend_info is None,
{
}

/// A hash's text is a hash text and spells the hash.
pub proof fn lemma_hash_text_round_trip(h: HashVal)
    ensures
        is_hash_text(hex_text(h@)),
        hash_of_text(hex_text(h@)) == h,
{
    HashVal::lemma_same_bytes(h, h);
    lemma_hex_round_trip(h@);
    HashVal::lemma_hash_with_bytes(h);
}

/// The stored form of a row decodes to the row.
pub proof fn lemma_stored_row_decodes(row: CoinInfoView)
    ensures
        decoded_row(stored_row(row)) == Ok::<CoinInfoView, RowError>(row),
{
    let raw = stored_row(row);
    lemma_hash_text_round_trip(row.create_txhash);
    lemma_hash_text_round_trip(row.coin_data.covhash);
    if let Some(s) = row.spend_info {
        lemma_hash_text_round_trip(s.spend_txhash);
    }
    lemma_be_bytes_len(row.coin_data.value as nat, 16);
    lemma_u128_fits(row.coin_data.value);
    lemma_value_of_bytes(row.coin_data.value as nat, 16);
    assert(is_denom(raw.denom)) by {
        assert(denom_bytes(row.coin_data.denom) == raw.denom);
    }
    lemma_denom_bytes_injective(denom_with_bytes(raw.denom), row.coin_data.denom);
}

/// A row of the block table, column by column, as the store holds it.
#[derive(Debug, PartialEq, Eq)]
pub struct RawHeightRow {
    pub height: u64,
    pub blkhash: String,
    pub fee_pool: Vec<u8>,
    pub fee_multiplier: Vec<u8>,
    pub dosc_speed: Vec<u8>,
}

/// A raw block row as a mathematical value.
pub struct RawHeightRowView {
    pub height: u64,
    pub blkhash: Seq<char>,
    pub fee_pool: Seq<u8>,
    pub fee_multiplier: Seq<u8>,
    pub dosc_speed: Seq<u8>,
}

impl View for RawHeightRow {
    type V = RawHeightRowView;

    open spec fn view(&self) -> RawHeightRowView {
        RawHeightRowView {
            height: self.height,
            blkhash: self.blkhash@,
            fee_pool: self.fee_pool@,
            fee_multiplier: self.fee_multiplier@,
            dosc_speed: self.dosc_speed@,
        }
    }
}

impl Clone for RawHeightRow {
    fn clone(&self) -> (out: RawHeightRow)
        ensures
            out@ == self@,
    {
        RawHeightRow {
            height: self.height,
            blkhash: self.blkhash.clone(),
            fee_pool: self.fee_pool.clone(),
            fee_multiplier: self.fee_multiplier.clone(),
            dosc_speed: self.dosc_speed.clone(),
        }
    }
}

/// What a raw block row decodes to.
pub open spec fn decoded_height_row(raw: RawHeightRowView) -> Result<HeightInfo, RowError> {
    if !is_hash_text(raw.blkhash) {
        Err(RowError::BadBlockHash)
    } else if raw.fee_pool.len() != 16 || raw.fee_multiplier.len() != 16 || raw.dosc_speed.len()
        != 16 {
        Err(RowError::BadValue)
    } else {
        Ok(
            HeightInfo {
                height: raw.height,
                blkhash: hash_of_text(raw.blkhash),
                fee_pool: be_value(raw.fee_pool) as u128,
                fee_multiplier: be_value(raw.fee_multiplier) as u128,
                dosc_speed: be_value(raw.dosc_speed) as u128,
            },
        )
    }
}

/// Decodes a row of the block table.
pub fn decode_height_row(raw: &RawHeightRow) -> (out: Result<HeightInfo, RowError>)
    ensures
        out == decoded_height_row(raw@),
{
    let blkhash = match parse_hash(raw.blkhash.as_str()) {
        Some(h) => h,
        None => {
            return Err(RowError::BadBlockHash);
        },
    };
    let fee_pool = match decode_value(raw.fee_pool.as_slice()) {
        Some(v) => v,
        None => {
            return Err(RowError::BadValue);
        },
    };
    let fee_multiplier = match decode_value(raw.fee_multiplier.as_slice()) {
        Some(v) => v,
        None => {
            return Err(RowError::BadValue);
        },
    };
    let dosc_speed = match decode_value(raw.dosc_speed.as_slice()) {
        Some(v) => v,
        None => {
            return Err(RowError::BadValue);
        },
    };
    Ok(HeightInfo { height: raw.height, blkhash, fee_pool, fee_multiplier, dosc_speed })
}

} // verus!
