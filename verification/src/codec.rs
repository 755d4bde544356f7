//! Text and byte forms of the ledger's values, as the domain crates define
//! them. Each function here hands one call to the crate that owns the format;
//! its contract states what that crate returns.

use crate::types::{CoinID, Denom, HashVal, StakeDoc, TxKind};
use vstd::prelude::*;

verus! {

/// The lowercase hex digit of a number below 16.
pub open spec fn hex_digit(n: int) -> char {
    seq!['0', '1', '2', '3', '4', '5', '6', '7', '8', '9', 'a', 'b', 'c', 'd', 'e', 'f'][n]
}

/// The lowercase hex form of a byte string: two digits per byte, high half first.
pub open spec fn hex_text(bytes: Seq<u8>) -> Seq<char> {
    Seq::new(
        2 * bytes.len(),
        |i: int|
            if i % 2 == 0 {
                hex_digit(bytes[i / 2] as int / 16)
            } else {
                hex_digit(bytes[i / 2] as int % 16)
            },
    )
}

/// The number that a hex digit of either case stands for.
pub open spec fn hex_digit_value(c: char) -> Option<int> {
    if '0' <= c <= '9' {
        Some(c as int - '0' as int)
    } else if 'a' <= c <= 'f' {
        Some(c as int - 'a' as int + 10)
    } else if 'A' <= c <= 'F' {
        Some(c as int - 'A' as int + 10)
    } else {
        None
    }
}

/// Whether a text is made of hex digits alone.
pub open spec fn all_hex(text: Seq<char>) -> bool {
    forall|i: int| 0 <= i < text.len() ==> (#[trigger] hex_digit_value(text[i])) is Some
}

/// The bytes that a text of hex digits spells, two digits per byte.
pub open spec fn hex_bytes(text: Seq<char>) -> Seq<u8> {
    Seq::new(
        text.len() / 2,
        |i: int|
            (hex_digit_value(text[2 * i]).unwrap() * 16 + hex_digit_value(
                text[2 * i + 1],
            ).unwrap()) as u8,
    )
}

/// Whether a text is the hex form of a 256-bit hash: 64 hex digits of either case.
pub open spec fn is_hash_text(text: Seq<char>) -> bool {
    text.len() == 64 && all_hex(text)
}

/// A hex digit stands for the number it was made from.
pub proof fn lemma_hex_digit(n: int)
    requires
        0 <= n < 16,
    ensures
        hex_digit_value(hex_digit(n)) == Some(n),
{
    let digits = seq![
        '0',
        '1',
        '2',
        '3',
        '4',
        '5',
        '6',
        '7',
        '8',
        '9',
        'a',
        'b',
        'c',
        'd',
        'e',
        'f',
    ];
    assert(digits[0] == '0' && digits[1] == '1' && digits[2] == '2' && digits[3] == '3');
    assert(digits[4] == '4' && digits[5] == '5' && digits[6] == '6' && digits[7] == '7');
    assert(digits[8] == '8' && digits[9] == '9' && digits[10] == 'a' && digits[11] == 'b');
    assert(digits[12] == 'c' && digits[13] == 'd' && digits[14] == 'e' && digits[15] == 'f');
}

/// The hex form of a byte string spells the byte string.
pub proof fn lemma_hex_round_trip(bytes: Seq<u8>)
    ensures
        hex_text(bytes).len() == 2 * bytes.len(),
        all_hex(hex_text(bytes)),
        hex_bytes(hex_text(bytes)) == bytes,
{
    let text = hex_text(bytes);
    assert forall|i: int| 0 <= i < text.len() implies (#[trigger] hex_digit_value(text[i])) is Some by {
        let b = bytes[i / 2] as int;
        lemma_hex_digit(b / 16);
        lemma_hex_digit(b % 16);
    }
    assert forall|k: int| 0 <= k < bytes.len() implies hex_bytes(text)[k] == bytes[k] by {
        let b = bytes[k] as int;
        lemma_hex_digit(b / 16);
        lemma_hex_digit(b % 16);
        assert((2 * k) / 2 == k && (2 * k) % 2 == 0);
        assert((2 * k + 1) / 2 == k && (2 * k + 1) % 2 == 1);
        assert(text[2 * k] == hex_digit(b / 16));
        assert(text[2 * k + 1] == hex_digit(b % 16));
    }
    assert(hex_bytes(text) =~= bytes);
}

/// The text form of a hash: 64 lowercase hex digits.
///
/// Calls `tmelcrypt::HashVal`'s `Display`, which formats `hex::encode` of the
/// 32 bytes.
#[verifier::external_body]
pub(crate) fn hash_to_text(hash: &HashVal) -> (text: String)
    ensures
        text@ == hex_text(hash@),
{
    tmelcrypt::HashVal(hash.0).to_string()
}

/// Reads the text form of a hash.
///
/// Calls `tmelcrypt::HashVal`'s `FromStr`, which decodes with
/// `hex::decode_to_slice` into 32 bytes: it accepts exactly the texts of 64
/// hex digits, of either case, and refuses every other text.
#[verifier::external_body]
pub(crate) fn hash_from_text(text: &str) -> (hash: Option<HashVal>)
    ensures
        hash is Some <==> is_hash_text(text@),
        hash matches Some(h) ==> h@ == hex_bytes(text@),
{
    text.parse::<tmelcrypt::HashVal>().ok().map(|h| HashVal(h.0))
}

/// The lowercase hex form of a byte string.
///
/// Calls `hex::encode`.
#[verifier::external_body]
pub(crate) fn hex_encode(bytes: &Vec<u8>) -> (text: String)
    ensures
        text@ == hex_text(bytes@),
{
    hex::encode(bytes)
}

/// The texts of a list joined by a separator.
pub open spec fn joined(parts: Seq<Seq<char>>, sep: Seq<char>) -> Seq<char>
    decreases parts.len(),
{
    if parts.len() == 0 {
        Seq::empty()
    } else if parts.len() == 1 {
        parts[0]
    } else {
        joined(parts.drop_last(), sep) + sep + parts.last()
    }
}

/// The views of a list of texts.
pub open spec fn text_views(parts: Seq<String>) -> Seq<Seq<char>> {
    Seq::new(parts.len(), |i: int| parts[i]@)
}

/// Joins texts with a separator between each two.
///
/// Calls `itertools::Itertools::join`, which writes the first element and
/// then, for each further one, the separator and the element.
#[verifier::external_body]
pub(crate) fn join_texts(parts: &Vec<String>, sep: &str) -> (text: String)
    ensures
        text@ == joined(text_views(parts@), sep@),
{
    itertools::Itertools::join(&mut parts.iter(), sep)
}

/// The error of `serde_json`, carried through and never looked into.
#[verifier::external_type_specification]
#[verifier::external_body]
pub struct ExJsonError(serde_json::Error);

/// Whether a character stands in a JSON string as it is: every character
/// but the controls below the space, the double quote and the backslash.
pub open spec fn is_plain(c: char) -> bool {
    c as int >= 0x20 && c != '"' && c != '\\'
}

/// Whether every character of every text of a list stands in a JSON string
/// as it is.
pub open spec fn all_plain(items: Seq<Seq<char>>) -> bool {
    forall|i: int, j: int|
        0 <= i < items.len() && 0 <= j < items[i].len() ==> is_plain(#[trigger] items[i][j])
}

/// Each text of a list between double quotes.
pub open spec fn quoted(items: Seq<Seq<char>>) -> Seq<Seq<char>> {
    Seq::new(items.len(), |i: int| seq!['"'] + items[i] + seq!['"'])
}

/// The JSON array of a list of texts that need no escape: the texts between
/// double quotes, with a comma between each two, in square brackets.
pub open spec fn plain_json_array(items: Seq<Seq<char>>) -> Seq<char> {
    seq!['['] + joined(quoted(items), seq![',']) + seq![']']
}

/// Writes a list of texts as a JSON array of strings.
///
/// Calls `serde_json::to_string`. For a list of strings it writes into a
/// byte vector and has no error to hand back. It writes a bracket, each
/// string between double quotes with a comma before all but the first, and a
/// bracket; within a string it escapes the controls below the space, the
/// double quote and the backslash, and nothing else.
#[verifier::external_body]
pub(crate) fn json_of_texts(items: &Vec<String>) -> (out: Result<String, serde_json::Error>)
    ensures
        out is Ok,
        out matches Ok(text) ==> (all_plain(text_views(items@)) ==> text@ == plain_json_array(
            text_views(items@),
        )),
{
    serde_json::to_string(items)
}

/// A hex digit stands in a JSON string as it is.
pub proof fn lemma_hex_digit_plain(n: int)
    requires
        0 <= n < 16,
    ensures
        is_plain(hex_digit(n)),
{
    lemma_hex_digit(n);
}

/// The hex form of a byte string needs no escape in a JSON string.
pub proof fn lemma_hex_text_plain(bytes: Seq<u8>)
    ensures
        forall|j: int| 0 <= j < hex_text(bytes).len() ==> is_plain(#[trigger] hex_text(bytes)[j]),
{
    assert forall|j: int| 0 <= j < hex_text(bytes).len() implies is_plain(
        #[trigger] hex_text(bytes)[j],
    ) by {
        let b = bytes[j / 2] as int;
        lemma_hex_digit_plain(b / 16);
        lemma_hex_digit_plain(b % 16);
    }
}

/// The bytes that stand for a denomination in a stored column.
pub open spec fn denom_bytes(denom: Denom) -> Seq<u8> {
    match denom {
        Denom::Mel => seq![0x6du8],
        Denom::Sym => seq![0x73u8],
        Denom::Erg => seq![0x64u8],
        Denom::NewCustom => Seq::empty(),
        Denom::Custom(hash) => hash@,
    }
}

/// The bytes of a denomination.
///
/// Calls `melstructs::Denom::to_bytes`: one letter for each of the three
/// built-in kinds, nothing for a custom token in the making, and the 32 bytes
/// of the creating transaction's hash for a custom token.
#[verifier::external_body]
pub(crate) fn denom_to_bytes(denom: &Denom) -> (bytes: Vec<u8>)
    ensures
        bytes@ == denom_bytes(*denom),
{
    let outside = match denom {
        Denom::Mel => melstructs::Denom::Mel,
        Denom::Sym => melstructs::Denom::Sym,
        Denom::Erg => melstructs::Denom::Erg,
        Denom::NewCustom => melstructs::Denom::NewCustom,
        Denom::Custom(h) => melstructs::Denom::Custom(melstructs::TxHash(tmelcrypt::HashVal(h.0))),
    };
    outside.to_bytes().to_vec()
}

/// Reads the bytes of a denomination.
///
/// Calls `melstructs::Denom::from_bytes`, the inverse of `to_bytes`: it
/// returns the denomination whose bytes these are, and nothing where there is
/// none.
#[verifier::external_body]
pub(crate) fn denom_from_bytes(bytes: &Vec<u8>) -> (denom: Option<Denom>)
    ensures
        denom matches Some(d) ==> denom_bytes(d) == bytes@,
        denom is None ==> forall|d: Denom| denom_bytes(d) != bytes@,
{
    match melstructs::Denom::from_bytes(bytes) {
        None => None,
        Some(melstructs::Denom::Mel) => Some(Denom::Mel),
        Some(melstructs::Denom::Sym) => Some(Denom::Sym),
        Some(melstructs::Denom::Erg) => Some(Denom::Erg),
        Some(melstructs::Denom::NewCustom) => Some(Denom::NewCustom),
        Some(melstructs::Denom::Custom(h)) => Some(Denom::Custom(HashVal(h.0.0))),
    }
}

/// The byte that stands for a transaction kind.
pub open spec fn kind_code(kind: TxKind) -> u8 {
    match kind {
        TxKind::DoscMint => 0x50,
        TxKind::Faucet => 0xff,
        TxKind::LiqDeposit => 0x52,
        TxKind::LiqWithdraw => 0x53,
        TxKind::Normal => 0x00,
        TxKind::Stake => 0x10,
        TxKind::Swap => 0x51,
    }
}

/// The byte of a transaction kind.
///
/// Calls the conversion of `melstructs::TxKind` into `u8`, which gives the
/// number that the kind is declared with.
#[verifier::external_body]
pub(crate) fn kind_byte(kind: TxKind) -> (code: u8)
    ensures
        code == kind_code(kind),
{
    u8::from(match kind {
        TxKind::DoscMint => melstructs::TxKind::DoscMint,
        TxKind::Faucet => melstructs::TxKind::Faucet,
        TxKind::LiqDeposit => melstructs::TxKind::LiqDeposit,
        TxKind::LiqWithdraw => melstructs::TxKind::LiqWithdraw,
        TxKind::Normal => melstructs::TxKind::Normal,
        TxKind::Stake => melstructs::TxKind::Stake,
        TxKind::Swap => melstructs::TxKind::Swap,
    })
}

/// The hash under which the proposer's reward of a height is known: a keyed
/// hash of the height, as `melstructs` computes it.
pub uninterp spec fn reward_pseudo_hash(height: u64) -> Seq<u8>;

/// The coin id of the proposer's reward at a height.
///
/// Calls `melstructs::CoinID::proposer_reward`: a hash that depends on the
/// height alone, with index 0.
#[verifier::external_body]
pub(crate) fn proposer_reward_id(height: u64) -> (id: CoinID)
    ensures
        id.txhash@ == reward_pseudo_hash(height),
        id.index == 0,
{
    let id = melstructs::CoinID::proposer_reward(melstructs::BlockHeight(height));
    CoinID { txhash: HashVal(id.txhash.0.0), index: id.index }
}

/// The fields of the stake document that a byte string encodes, if it
/// encodes one: public key, first epoch, epoch after the last, and amount.
pub uninterp spec fn stake_doc_fields(raw: Seq<u8>) -> Option<(Seq<u8>, u64, u64, u128)>;

/// Reads a stake document from its canonical bytes.
///
/// Calls `stdcode::deserialize` for a `melstructs::StakeDoc`; whether the
/// bytes decode, and to what, depends on the bytes alone.
#[verifier::external_body]
pub(crate) fn decode_stake_doc(raw: &Vec<u8>) -> (doc: Option<StakeDoc>)
    ensures
        doc is Some <==> stake_doc_fields(raw@) is Some,
        doc matches Some(d) ==> stake_doc_fields(raw@) == Some(
            (d.pubkey@, d.e_start, d.e_post_end, d.syms_staked),
        ),
{
    stdcode::deserialize::<melstructs::StakeDoc>(raw).ok().map(
        |d| StakeDoc {
            pubkey: d.pubkey.0,
            e_start: d.e_start,
            e_post_end: d.e_post_end,
            syms_staked: d.syms_staked.0,
        },
    )
}

} // verus!
