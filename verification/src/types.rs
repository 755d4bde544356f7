//! The ledger's values as the indexer reads them: hashes, coins, transactions
//! and block headers, each held as plain data.

use vstd::prelude::*;

verus! {

/// A 256-bit hash: of a transaction, of a block header, or of a covenant (an
/// address).
#[derive(Clone, Copy, Debug, PartialEq, Eq, PartialOrd, Ord, Hash)]
pub struct HashVal(pub [u8; 32]);

/// The hash of a transaction without its signatures.
pub type TxHash = HashVal;

/// The hash of the covenant that locks a coin.
pub type Address = HashVal;

impl View for HashVal {
    type V = Seq<u8>;

    open spec fn view(&self) -> Seq<u8> {
        self.0@
    }
}

/// The hash that has the given bytes.
pub open spec fn hash_with_bytes(bytes: Seq<u8>) -> HashVal {
    choose|h: HashVal| h@ == bytes
}

impl HashVal {
    /// A hash is the hash that has its bytes.
    pub proof fn lemma_hash_with_bytes(h: HashVal)
        ensures
            hash_with_bytes(h@) == h,
    {
        Self::lemma_same_bytes(hash_with_bytes(h@), h);
    }

    /// Two hashes with the same bytes are the same hash.
    pub proof fn lemma_same_bytes(a: HashVal, b: HashVal)
        ensures
            a@ == b@ <==> a == b,
            a@.len() == 32,
    {
        if a@ == b@ {
            assert(a.0 =~= b.0);
        }
    }

    /// Whether two hashes are equal, byte by byte.
    pub fn same(&self, other: &HashVal) -> (r: bool)
        ensures
            r == (*self == *other),
    {
        let mut i: usize = 0;
        while i < 32
            invariant
                i <= 32,
                forall|j: int| 0 <= j < i ==> self.0@[j] == other.0@[j],
            decreases 32 - i,
        {
            if self.0[i] != other.0[i] {
                return false;
            }
            i = i + 1;
        }
        proof {
            assert(self.0 =~= other.0);
        }
        true
    }
}

/// What identifies a coin: the transaction that made it and its place among
/// that transaction's outputs.
#[derive(Clone, Copy, Debug, PartialEq, Eq, PartialOrd, Ord, Hash)]
pub struct CoinID {
    pub txhash: TxHash,
    pub index: u8,
}

impl CoinID {
    /// The id of the output at `index` of the transaction with hash `txhash`.
    pub fn new(txhash: TxHash, index: u8) -> (id: CoinID)
        ensures
            id == (CoinID { txhash, index }),
    {
        CoinID { txhash, index }
    }

    /// Whether two coin ids name the same coin.
    pub fn same(&self, other: &CoinID) -> (r: bool)
        ensures
            r == (*self == *other),
    {
        self.index == other.index && self.txhash.same(&other.txhash)
    }
}

/// A token kind.
#[derive(Clone, Copy, Debug, PartialEq, Eq, PartialOrd, Ord, Hash)]
pub enum Denom {
    Mel,
    Sym,
    Erg,
    NewCustom,
    Custom(TxHash),
}

impl Denom {
    /// Whether two denominations are the same token kind.
    pub fn same(&self, other: &Denom) -> (r: bool)
        ensures
            r == (*self == *other),
    {
        match (self, other) {
            (Denom::Mel, Denom::Mel) => true,
            (Denom::Sym, Denom::Sym) => true,
            (Denom::Erg, Denom::Erg) => true,
            (Denom::NewCustom, Denom::NewCustom) => true,
            (Denom::Custom(a), Denom::Custom(b)) => a.same(b),
            _ => false,
        }
    }
}

/// The contents of a coin.
#[derive(Debug, PartialEq, Eq, PartialOrd, Ord, Hash)]
pub struct CoinData {
    pub covhash: Address,
    pub value: u128,
    pub denom: Denom,
    pub additional_data: Vec<u8>,
}

/// A coin's contents as a mathematical value.
pub struct CoinDataView {
    pub covhash: Address,
    pub value: u128,
    pub denom: Denom,
    pub additional_data: Seq<u8>,
}

impl View for CoinData {
    type V = CoinDataView;

    open spec fn view(&self) -> CoinDataView {
        CoinDataView {
            covhash: self.covhash,
            value: self.value,
            denom: self.denom,
            additional_data: self.additional_data@,
        }
    }
}

impl Clone for CoinData {
    fn clone(&self) -> (out: CoinData)
        ensures
            out@ == self@,
    {
        CoinData {
            covhash: self.covhash,
            value: self.value,
            denom: self.denom,
            additional_data: self.additional_data.clone(),
        }
    }
}

/// How a coin was spent.
#[derive(Clone, Copy, Debug, PartialEq, Eq, PartialOrd, Ord, Hash)]
pub struct CoinSpendInfo {
    pub spend_txhash: TxHash,
    pub spend_index: usize,
    pub spend_height: u64,
}

/// One coin that the indexer has seen, with how it was spent if it was.
#[derive(Debug, PartialEq, Eq, PartialOrd, Ord, Hash)]
pub struct CoinInfo {
    pub create_txhash: TxHash,
    pub create_index: u8,
    pub create_height: u64,
    pub coin_data: CoinData,
    pub spend_info: Option<CoinSpendInfo>,
}

/// A coin row as a mathematical value.
pub struct CoinInfoView {
    pub create_txhash: TxHash,
    pub create_index: u8,
    pub create_height: u64,
    pub coin_data: CoinDataView,
    pub spend_info: Option<CoinSpendInfo>,
}

impl View for CoinInfo {
    type V = CoinInfoView;

    open spec fn view(&self) -> CoinInfoView {
        CoinInfoView {
            create_txhash: self.create_txhash,
            create_index: self.create_index,
            create_height: self.create_height,
            coin_data: self.coin_data@,
            spend_info: self.spend_info,
        }
    }
}

impl Clone for CoinInfo {
    fn clone(&self) -> (out: CoinInfo)
        ensures
            out@ == self@,
    {
        CoinInfo {
            create_txhash: self.create_txhash,
            create_index: self.create_index,
            create_height: self.create_height,
            coin_data: self.coin_data.clone(),
            spend_info: self.spend_info,
        }
    }
}

impl CoinInfoView {
    /// The coin id under which the row was created.
    pub open spec fn id(self) -> CoinID {
        CoinID { txhash: self.create_txhash, index: self.create_index }
    }

    /// Whether the coin exists and is unspent at `height`.
    pub open spec fn alive_at(self, height: u64) -> bool {
        &&& self.create_height <= height
        &&& match self.spend_info {
            None => true,
            Some(s) => s.spend_height > height,
        }
    }
}

/// What the indexer keeps of one block.
#[derive(Clone, Copy, Debug, PartialEq, Eq)]
pub struct HeightInfo {
    pub height: u64,
    pub blkhash: HashVal,
    pub fee_pool: u128,
    pub fee_multiplier: u128,
    pub dosc_speed: u128,
}

/// The kind of a transaction.
#[derive(Clone, Copy, Debug, PartialEq, Eq, Hash)]
pub enum TxKind {
    DoscMint,
    Faucet,
    LiqDeposit,
    LiqWithdraw,
    Normal,
    Stake,
    Swap,
}

/// A transaction as the indexer reads it. `txhash` is the hash of the
/// transaction without its signatures, under which its outputs are known.
#[derive(Debug, PartialEq, Eq)]
pub struct Transaction {
    pub kind: TxKind,
    pub txhash: TxHash,
    pub inputs: Vec<CoinID>,
    pub outputs: Vec<CoinData>,
    pub fee: u128,
    pub covenants: Vec<Vec<u8>>,
    pub data: Vec<u8>,
    pub sigs: Vec<Vec<u8>>,
}

/// The header fields that the indexer stores or decides on.
#[derive(Clone, Copy, Debug, PartialEq, Eq)]
pub struct BlockHeader {
    pub height: u64,
    pub hash: HashVal,
    pub fee_pool: u128,
    pub fee_multiplier: u128,
    pub dosc_speed: u128,
    pub stakes_hash: HashVal,
}

/// A block: its header and its transactions, in the order in which they apply.
#[derive(Debug, PartialEq, Eq)]
pub struct Block {
    pub header: BlockHeader,
    pub transactions: Vec<Transaction>,
}

/// A stake document.
#[derive(Clone, Copy, Debug, PartialEq, Eq)]
pub struct StakeDoc {
    pub pubkey: [u8; 32],
    pub e_start: u64,
    pub e_post_end: u64,
    pub syms_staked: u128,
}

/// The views of a sequence of coin contents.
pub open spec fn coin_data_views(s: Seq<CoinData>) -> Seq<CoinDataView> {
    Seq::new(s.len(), |i: int| s[i]@)
}

/// The views of a sequence of coin rows.
pub open spec fn coin_info_views(s: Seq<CoinInfo>) -> Seq<CoinInfoView> {
    Seq::new(s.len(), |i: int| s[i]@)
}

/// The views of a sequence of byte strings.
pub open spec fn byte_string_views(s: Seq<Vec<u8>>) -> Seq<Seq<u8>> {
    Seq::new(s.len(), |i: int| s[i]@)
}

/// A transaction as a mathematical value.
pub struct TransactionView {
    pub kind: TxKind,
    pub txhash: TxHash,
    pub inputs: Seq<CoinID>,
    pub outputs: Seq<CoinDataView>,
    pub fee: u128,
    pub covenants: Seq<Seq<u8>>,
    pub data: Seq<u8>,
    pub sigs: Seq<Seq<u8>>,
}

impl View for Transaction {
    type V = TransactionView;

    open spec fn view(&self) -> TransactionView {
        TransactionView {
            kind: self.kind,
            txhash: self.txhash,
            inputs: self.inputs@,
            outputs: coin_data_views(self.outputs@),
            fee: self.fee,
            covenants: byte_string_views(self.covenants@),
            data: self.data@,
            sigs: byte_string_views(self.sigs@),
        }
    }
}

/// The views of a sequence of transactions.
pub open spec fn transaction_views(s: Seq<Transaction>) -> Seq<TransactionView> {
    Seq::new(s.len(), |i: int| s[i]@)
}

impl Clone for Transaction {
    fn clone(&self) -> (out: Transaction)
        ensures
            out@ == self@,
    {
        let mut inputs: Vec<CoinID> = Vec::new();
        let mut i: usize = 0;
        while i < self.inputs.len()
            invariant
                i <= self.inputs@.len(),
                inputs@ == self.inputs@.take(i as int),
            decreases self.inputs@.len() - i,
        {
            inputs.push(self.inputs[i]);
            proof {
                assert(inputs@ =~= self.inputs@.take(i + 1));
            }
            i = i + 1;
        }
        proof {
            assert(self.inputs@.take(i as int) =~= self.inputs@);
        }
        let mut outputs: Vec<CoinData> = Vec::new();
        let mut k: usize = 0;
        while k < self.outputs.len()
            invariant
                k <= self.outputs@.len(),
                outputs@.len() == k,
                forall|j: int| 0 <= j < k ==> (#[trigger] outputs@[j])@ == self.outputs@[j]@,
            decreases self.outputs@.len() - k,
        {
            outputs.push(self.outputs[k].clone());
            k = k + 1;
        }
        let out = Transaction {
            kind: self.kind,
            txhash: self.txhash,
            inputs,
            outputs,
            fee: self.fee,
            covenants: clone_byte_strings(&self.covenants),
            data: self.data.clone(),
            sigs: clone_byte_strings(&self.sigs),
        };
        proof {
            assert(out@.outputs =~= self@.outputs);
        }
        out
    }
}

impl Clone for Block {
    fn clone(&self) -> (out: Block)
        ensures
            out.header == self.header,
            transaction_views(out.transactions@) == transaction_views(self.transactions@),
    {
        let mut transactions: Vec<Transaction> = Vec::new();
        let mut i: usize = 0;
        while i < self.transactions.len()
            invariant
                i <= self.transactions@.len(),
                transactions@.len() == i,
                forall|j: int|
                    0 <= j < i ==> (#[trigger] transactions@[j])@ == self.transactions@[j]@,
            decreases self.transactions@.len() - i,
        {
            transactions.push(self.transactions[i].clone());
            i = i + 1;
        }
        proof {
            assert(transaction_views(transactions@) =~= transaction_views(self.transactions@));
        }
        Block { header: self.header, transactions }
    }
}

/// Copies a list of byte strings.
pub fn clone_byte_strings(list: &Vec<Vec<u8>>) -> (out: Vec<Vec<u8>>)
    ensures
        byte_string_views(out@) == byte_string_views(list@),
{
    let mut out: Vec<Vec<u8>> = Vec::new();
    let mut i: usize = 0;
    while i < list.len()
        invariant
            i <= list@.len(),
            out@.len() == i,
            forall|j: int| 0 <= j < i ==> (#[trigger] out@[j])@ == list@[j]@,
        decreases list@.len() - i,
    {
        out.push(list[i].clone());
        i = i + 1;
    }
    proof {
        assert(byte_string_views(out@) =~= byte_string_views(list@));
    }
    out
}

/// Whether two byte strings hold the same bytes.
pub fn bytes_equal(a: &Vec<u8>, b: &Vec<u8>) -> (r: bool)
    ensures
        r == (a@ == b@),
{
    if a.len() != b.len() {
        return false;
    }
    let mut i: usize = 0;
    while i < a.len()
        invariant
            i <= a.len(),
            a.len() == b.len(),
            forall|j: int| 0 <= j < i ==> a@[j] == b@[j],
        decreases a.len() - i,
    {
        if a[i] != b[i] {
            return false;
        }
        i = i + 1;
    }
    proof {
        assert(a@ =~= b@);
    }
    true
}

} // verus!
