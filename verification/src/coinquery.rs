//! Queries on the coin table: a list of conditions that a row must all meet.

use crate::codec::{denom_bytes, denom_to_bytes, hash_to_text, hex_text, join_texts, joined};
use crate::codec::text_views;
use crate::encoding::{be_bytes, encode_value};
use crate::sql::{SqlValue, SqlValueView, Statement, StatementView, value_views};
use crate::types::{Address, CoinInfo, CoinInfoView, Denom, TxHash, bytes_equal, coin_info_views};
use vstd::prelude::*;
use vstd::string::StringExecFns;

verus! {

/// One end of a range.
#[derive(Debug, PartialEq, Eq)]
pub enum Bound<T> {
    Included(T),
    Excluded(T),
    Unbounded,
}

/// How a column is held against a bound.
#[derive(Clone, Copy, Debug, PartialEq, Eq)]
pub enum Operator {
    AtLeast,
    Above,
    AtMost,
    Below,
}

/// One condition on a coin row.
#[derive(Debug, PartialEq, Eq)]
pub enum Predicate {
    CreateTxhash(TxHash),
    CreateIndex(u8),
    CreateHeight(Operator, u64),
    Unspent,
    SpendTxhash(TxHash),
    SpendIndex(u8),
    SpendHeight(Operator, u64),
    Value(Operator, u128),
    Denom(Denom),
    Covhash(Address),
    AdditionalData(Vec<u8>),
}

/// A condition as a mathematical value.
pub enum PredicateView {
    CreateTxhash(TxHash),
    CreateIndex(u8),
    CreateHeight(Operator, u64),
    Unspent,
    SpendTxhash(TxHash),
    SpendIndex(u8),
    SpendHeight(Operator, u64),
    Value(Operator, u128),
    Denom(Denom),
    Covhash(Address),
    AdditionalData(Seq<u8>),
}

impl View for Predicate {
    type V = PredicateView;

    open spec fn view(&self) -> PredicateView {
        match self {
            Predicate::CreateTxhash(h) => PredicateView::CreateTxhash(*h),
            Predicate::CreateIndex(i) => PredicateView::CreateIndex(*i),
            Predicate::CreateHeight(op, h) => PredicateView::CreateHeight(*op, *h),
            Predicate::Unspent => PredicateView::Unspent,
            Predicate::SpendTxhash(h) => PredicateView::SpendTxhash(*h),
            Predicate::SpendIndex(i) => PredicateView::SpendIndex(*i),
            Predicate::SpendHeight(op, h) => PredicateView::SpendHeight(*op, *h),
            Predicate::Value(op, v) => PredicateView::Value(*op, *v),
            Predicate::Denom(d) => PredicateView::Denom(*d),
            Predicate::Covhash(a) => PredicateView::Covhash(*a),
            Predicate::AdditionalData(b) => PredicateView::AdditionalData(b@),
        }
    }
}

impl Clone for Predicate {
    fn clone(&self) -> (out: Predicate)
        ensures
            out@ == self@,
    {
        match self {
            Predicate::CreateTxhash(h) => Predicate::CreateTxhash(*h),
            Predicate::CreateIndex(i) => Predicate::CreateIndex(*i),
            Predicate::CreateHeight(op, h) => Predicate::CreateHeight(*op, *h),
            Predicate::Unspent => Predicate::Unspent,
            Predicate::SpendTxhash(h) => Predicate::SpendTxhash(*h),
            Predicate::SpendIndex(i) => Predicate::SpendIndex(*i),
            Predicate::SpendHeight(op, h) => Predicate::SpendHeight(*op, *h),
            Predicate::Value(op, v) => Predicate::Value(*op, *v),
            Predicate::Denom(d) => Predicate::Denom(*d),
            Predicate::Covhash(a) => Predicate::Covhash(*a),
            Predicate::AdditionalData(b) => Predicate::AdditionalData(b.clone()),
        }
    }
}

/// Whether `left` stands to `right` as the operator says.
pub open spec fn compares(op: Operator, left: int, right: int) -> bool {
    match op {
        Operator::AtLeast => left >= right,
        Operator::Above => left > right,
        Operator::AtMost => left <= right,
        Operator::Below => left < right,
    }
}

/// Whether a row meets a condition. A condition on how a coin was spent is
/// met by no unspent coin.
pub open spec fn holds(p: PredicateView, row: CoinInfoView) -> bool {
    match p {
        PredicateView::CreateTxhash(h) => row.create_txhash == h,
        PredicateView::CreateIndex(i) => row.create_index == i,
        PredicateView::CreateHeight(op, h) => compares(op, row.create_height as int, h as int),
        PredicateView::Unspent => row.spend_info is None,
        PredicateView::SpendTxhash(h) => row.spend_info matches Some(s) && s.spend_txhash == h,
        PredicateView::SpendIndex(i) => row.spend_info matches Some(s) && s.spend_index == i,
        PredicateView::SpendHeight(op, h) => row.spend_info matches Some(s) && compares(
            op,
            s.spend_height as int,
            h as int,
        ),
        PredicateView::Value(op, v) => compares(op, row.coin_data.value as int, v as int),
        PredicateView::Denom(d) => row.coin_data.denom == d,
        PredicateView::Covhash(a) => row.coin_data.covhash == a,
        PredicateView::AdditionalData(b) => row.coin_data.additional_data == b,
    }
}

/// Whether a row meets every condition of a list.
pub open spec fn all_hold(ps: Seq<PredicateView>, row: CoinInfoView) -> bool {
    forall|i: int| 0 <= i < ps.len() ==> holds(#[trigger] ps[i], row)
}

/// Whether a value lies within two bounds.
pub open spec fn in_range(start: Bound<int>, end: Bound<int>, v: int) -> bool {
    &&& match start {
        Bound::Included(a) => v >= a,
        Bound::Excluded(a) => v > a,
        Bound::Unbounded => true,
    }
    &&& match end {
        Bound::Included(b) => v <= b,
        Bound::Excluded(b) => v < b,
        Bound::Unbounded => true,
    }
}

/// A bound on 64-bit numbers as a bound on integers.
pub open spec fn bound_u64(b: Bound<u64>) -> Bound<int> {
    match b {
        Bound::Included(v) => Bound::Included(v as int),
        Bound::Excluded(v) => Bound::Excluded(v as int),
        Bound::Unbounded => Bound::Unbounded,
    }
}

/// A bound on 128-bit numbers as a bound on integers.
pub open spec fn bound_u128(b: Bound<u128>) -> Bound<int> {
    match b {
        Bound::Included(v) => Bound::Included(v as int),
        Bound::Excluded(v) => Bound::Excluded(v as int),
        Bound::Unbounded => Bound::Unbounded,
    }
}

/// The rows of a table that meet every condition of a list, in table order.
pub open spec fn selected(rows: Seq<CoinInfoView>, ps: Seq<PredicateView>) -> Seq<CoinInfoView>
    decreases rows.len(),
{
    if rows.len() == 0 {
        Seq::empty()
    } else if all_hold(ps, rows.last()) {
        selected(rows.drop_last(), ps).push(rows.last())
    } else {
        selected(rows.drop_last(), ps)
    }
}

fn compare_u64(op: Operator, left: u64, right: u64) -> (r: bool)
    ensures
        r == compares(op, left as int, right as int),
{
    match op {
        Operator::AtLeast => left >= right,
        Operator::Above => left > right,
        Operator::AtMost => left <= right,
        Operator::Below => left < right,
    }
}

fn compare_u128(op: Operator, left: u128, right: u128) -> (r: bool)
    ensures
        r == compares(op, left as int, right as int),
{
    match op {
        Operator::AtLeast => left >= right,
        Operator::Above => left > right,
        Operator::AtMost => left <= right,
        Operator::Below => left < right,
    }
}

impl Predicate {
    /// Whether a row meets this condition.
    pub fn holds(&self, row: &CoinInfo) -> (r: bool)
        ensures
            r == holds(self@, row@),
    {
        match self {
            Predicate::CreateTxhash(h) => row.create_txhash.same(h),
            Predicate::CreateIndex(i) => row.create_index == *i,
            Predicate::CreateHeight(op, h) => compare_u64(*op, row.create_height, *h),
            Predicate::Unspent => row.spend_info.is_none(),
            Predicate::SpendTxhash(h) => match &row.spend_info {
                Some(s) => s.spend_txhash.same(h),
                None => false,
            },
            Predicate::SpendIndex(i) => match &row.spend_info {
                Some(s) => s.spend_index == *i as usize,
                None => false,
            },
            Predicate::SpendHeight(op, h) => match &row.spend_info {
                Some(s) => compare_u64(*op, s.spend_height, *h),
                None => false,
            },
            Predicate::Value(op, v) => compare_u128(*op, row.coin_data.value, *v),
            Predicate::Denom(d) => row.coin_data.denom.same(d),
            Predicate::Covhash(a) => row.coin_data.covhash.same(a),
            Predicate::AdditionalData(b) => bytes_equal(&row.coin_data.additional_data, b),
        }
    }
}

/// A half-built query on the coin table.
#[derive(Debug, PartialEq, Eq)]
pub struct CoinQuery {
    predicates: Vec<Predicate>,
}

impl View for CoinQuery {
    type V = Seq<PredicateView>;

    closed spec fn view(&self) -> Seq<PredicateView> {
        Seq::new(self.predicates@.len(), |i: int| self.predicates@[i]@)
    }
}

impl Clone for CoinQuery {
    fn clone(&self) -> (out: CoinQuery)
        ensures
            out@ == self@,
    {
        let mut predicates: Vec<Predicate> = Vec::new();
        let mut i: usize = 0;
        while i < self.predicates.len()
            invariant
                i <= self.predicates@.len(),
                predicates@.len() == i,
                forall|j: int| 0 <= j < i ==> predicates@[j]@ == self.predicates@[j]@,
            decreases self.predicates@.len() - i,
        {
            predicates.push(self.predicates[i].clone());
            i = i + 1;
        }
        let out = CoinQuery { predicates };
        proof {
            assert(out@ =~= self@);
        }
        out
    }
}

impl CoinQuery {
    /// Whether a row meets every condition of the query.
    pub open spec fn matches(&self, row: CoinInfoView) -> bool {
        all_hold(self@, row)
    }

    /// The query that every row meets.
    pub fn new() -> (q: CoinQuery)
        ensures
            q@ == Seq::<PredicateView>::empty(),
            forall|row: CoinInfoView| q.matches(row),
    {
        let q = CoinQuery { predicates: Vec::new() };
        proof {
            assert(q@ =~= Seq::<PredicateView>::empty());
        }
        q
    }

    /// Adds one condition.
    pub fn with(self, p: Predicate) -> (q: CoinQuery)
        ensures
            q@ == self@.push(p@),
            forall|row: CoinInfoView| q.matches(row) <==> self.matches(row) && holds(p@, row),
    {
        let ghost before = self@;
        let ghost pv = p@;
        let mut predicates = self.predicates;
        predicates.push(p);
        let q = CoinQuery { predicates };
        proof {
            assert(q@ =~= before.push(pv));
            assert forall|row: CoinInfoView| q.matches(row) <==> all_hold(before, row) && holds(
                pv,
                row,
            ) by {
                lemma_all_hold_push(before, pv, row);
            }
        }
        q
    }

    /// Adds a condition on the creating transaction.
    pub fn create_txhash(self, txhash: TxHash) -> (q: CoinQuery)
        ensures
            q@ == self@.push(PredicateView::CreateTxhash(txhash)),
            forall|row: CoinInfoView|
                q.matches(row) <==> self.matches(row) && row.create_txhash == txhash,
    {
        self.with(Predicate::CreateTxhash(txhash))
    }

    /// Adds a condition on the place among the creating transaction's outputs.
    pub fn create_index(self, create_index: u8) -> (q: CoinQuery)
        ensures
            q@ == self@.push(PredicateView::CreateIndex(create_index)),
            forall|row: CoinInfoView|
                q.matches(row) <==> self.matches(row) && row.create_index == create_index,
    {
        self.with(Predicate::CreateIndex(create_index))
    }

    /// Adds bounds on the height at which the coin was created.
    pub fn create_height_range(self, start: Bound<u64>, end: Bound<u64>) -> (q: CoinQuery)
        ensures
            q@ == self@ + create_height_conditions(start, end),
            forall|row: CoinInfoView|
                q.matches(row) <==> self.matches(row) && in_range(
                    bound_u64(start),
                    bound_u64(end),
                    row.create_height as int,
                ),
    {
        let ghost before = self@;
        let lower = match start {
            Bound::Included(v) => self.with(Predicate::CreateHeight(Operator::AtLeast, v)),
            Bound::Excluded(v) => self.with(Predicate::CreateHeight(Operator::Above, v)),
            Bound::Unbounded => self,
        };
        let q = match end {
            Bound::Included(v) => lower.with(Predicate::CreateHeight(Operator::AtMost, v)),
            Bound::Excluded(v) => lower.with(Predicate::CreateHeight(Operator::Below, v)),
            Bound::Unbounded => lower,
        };
        proof {
            assert(q@ =~= before + create_height_conditions(start, end));
        }
        q
    }

    /// Adds the condition that the coin is unspent.
    pub fn unspent(self) -> (q: CoinQuery)
        ensures
            q@ == self@.push(PredicateView::Unspent),
            forall|row: CoinInfoView|
                q.matches(row) <==> self.matches(row) && row.spend_info is None,
    {
        self.with(Predicate::Unspent)
    }

    /// Adds a condition on the spending transaction.
    pub fn spend_txhash(self, txhash: TxHash) -> (q: CoinQuery)
        ensures
            q@ == self@.push(PredicateView::SpendTxhash(txhash)),
            forall|row: CoinInfoView|
                q.matches(row) <==> self.matches(row) && (row.spend_info matches Some(s)
                    && s.spend_txhash == txhash),
    {
        self.with(Predicate::SpendTxhash(txhash))
    }

    /// Adds a condition on the place among the spending transaction's inputs.
    pub fn spend_index(self, spend_index: u8) -> (q: CoinQuery)
        ensures
            q@ == self@.push(PredicateView::SpendIndex(spend_index)),
            forall|row: CoinInfoView|
                q.matches(row) <==> self.matches(row) && (row.spend_info matches Some(s)
                    && s.spend_index == spend_index),
    {
        self.with(Predicate::SpendIndex(spend_index))
    }

    /// Adds bounds on the height at which the coin was spent; no unspent coin
    /// meets them, unless both ends are open.
    pub fn spend_height_range(self, start: Bound<u64>, end: Bound<u64>) -> (q: CoinQuery)
        ensures
            q@ == self@ + spend_height_conditions(start, end),
            forall|row: CoinInfoView|
                q.matches(row) <==> self.matches(row) && (start is Unbounded && end is Unbounded
                    || (row.spend_info matches Some(s) && in_range(
                    bound_u64(start),
                    bound_u64(end),
                    s.spend_height as int,
                ))),
    {
        let ghost before = self@;
        let lower = match start {
            Bound::Included(v) => self.with(Predicate::SpendHeight(Operator::AtLeast, v)),
            Bound::Excluded(v) => self.with(Predicate::SpendHeight(Operator::Above, v)),
            Bound::Unbounded => self,
        };
        let q = match end {
            Bound::Included(v) => lower.with(Predicate::SpendHeight(Operator::AtMost, v)),
            Bound::Excluded(v) => lower.with(Predicate::SpendHeight(Operator::Below, v)),
            Bound::Unbounded => lower,
        };
        proof {
            assert(q@ =~= before + spend_height_conditions(start, end));
        }
        q
    }

    /// Adds bounds on the value.
    pub fn value_range(self, start: Bound<u128>, end: Bound<u128>) -> (q: CoinQuery)
        ensures
            q@ == self@ + value_conditions(start, end),
            forall|row: CoinInfoView|
                q.matches(row) <==> self.matches(row) && in_range(
                    bound_u128(start),
                    bound_u128(end),
                    row.coin_data.value as int,
                ),
    {
        let ghost before = self@;
        let lower = match start {
            Bound::Included(v) => self.with(Predicate::Value(Operator::AtLeast, v)),
            Bound::Excluded(v) => self.with(Predicate::Value(Operator::Above, v)),
            Bound::Unbounded => self,
        };
        let q = match end {
            Bound::Included(v) => lower.with(Predicate::Value(Operator::AtMost, v)),
            Bound::Excluded(v) => lower.with(Predicate::Value(Operator::Below, v)),
            Bound::Unbounded => lower,
        };
        proof {
            assert(q@ =~= before + value_conditions(start, end));
        }
        q
    }

    /// Adds a condition on the denomination.
    pub fn denom(self, denom: Denom) -> (q: CoinQuery)
        ensures
            q@ == self@.push(PredicateView::Denom(denom)),
            forall|row: CoinInfoView|
                q.matches(row) <==> self.matches(row) && row.coin_data.denom == denom,
    {
        self.with(Predicate::Denom(denom))
    }

    /// Adds a condition on the address that owns the coin.
    pub fn covhash(self, covhash: Address) -> (q: CoinQuery)
        ensures
            q@ == self@.push(PredicateView::Covhash(covhash)),
            forall|row: CoinInfoView|
                q.matches(row) <==> self.matches(row) && row.coin_data.covhash == covhash,
    {
        self.with(Predicate::Covhash(covhash))
    }

    /// Adds a condition on the additional data.
    pub fn additional_data(self, additional_data: &[u8]) -> (q: CoinQuery)
        ensures
            q@ == self@.push(PredicateView::AdditionalData(additional_data@)),
            forall|row: CoinInfoView|
                q.matches(row) <==> self.matches(row) && row.coin_data.additional_data
                    == additional_data@,
    {
        self.with(Predicate::AdditionalData(vstd::slice::slice_to_vec(additional_data)))
    }

    /// Whether a row meets every condition of the query.
    pub fn accepts(&self, row: &CoinInfo) -> (r: bool)
        ensures
            r == self.matches(row@),
    {
        let mut i: usize = 0;
        while i < self.predicates.len()
            invariant
                i <= self.predicates@.len(),
                forall|j: int| 0 <= j < i ==> holds(#[trigger] self@[j], row@),
            decreases self.predicates@.len() - i,
        {
            if !self.predicates[i].holds(row) {
                assert(!holds(self@[i as int], row@));
                return false;
            }
            i = i + 1;
        }
        true
    }

    /// The rows of a table that match the query, in table order.
    pub fn iter(&self, rows: &Vec<CoinInfo>) -> (out: Vec<CoinInfo>)
        ensures
            coin_info_views(out@) == selected(coin_info_views(rows@), self@),
    {
        let ghost views = coin_info_views(rows@);
        let mut out: Vec<CoinInfo> = Vec::new();
        let mut i: usize = 0;
        proof {
            assert(views.take(0) =~= Seq::empty());
            assert(coin_info_views(out@) =~= Seq::empty());
        }
        while i < rows.len()
            invariant
                i <= rows@.len(),
                views == coin_info_views(rows@),
                coin_info_views(out@) == selected(views.take(i as int), self@),
            decreases rows@.len() - i,
        {
            proof {
                assert(views.take(i + 1).drop_last() =~= views.take(i as int));
                assert(views.take(i + 1).last() == rows@[i as int]@);
            }
            if self.accepts(&rows[i]) {
                let ghost before = coin_info_views(out@);
                out.push(rows[i].clone());
                proof {
                    assert(coin_info_views(out@) =~= before.push(rows@[i as int]@));
                }
            }
            i = i + 1;
        }
        proof {
            assert(views.take(i as int) =~= views);
        }
        out
    }
}

/// The conditions that bounds on the creation height add.
pub open spec fn create_height_conditions(start: Bound<u64>, end: Bound<u64>) -> Seq<PredicateView> {
    (match start {
        Bound::Included(v) => seq![PredicateView::CreateHeight(Operator::AtLeast, v)],
        Bound::Excluded(v) => seq![PredicateView::CreateHeight(Operator::Above, v)],
        Bound::Unbounded => Seq::empty(),
    }) + (match end {
        Bound::Included(v) => seq![PredicateView::CreateHeight(Operator::AtMost, v)],
        Bound::Excluded(v) => seq![PredicateView::CreateHeight(Operator::Below, v)],
        Bound::Unbounded => Seq::empty(),
    })
}

/// The conditions that bounds on the spend height add.
pub open spec fn spend_height_conditions(start: Bound<u64>, end: Bound<u64>) -> Seq<PredicateView> {
    (match start {
        Bound::Included(v) => seq![PredicateView::SpendHeight(Operator::AtLeast, v)],
        Bound::Excluded(v) => seq![PredicateView::SpendHeight(Operator::Above, v)],
        Bound::Unbounded => Seq::empty(),
    }) + (match end {
        Bound::Included(v) => seq![PredicateView::SpendHeight(Operator::AtMost, v)],
        Bound::Excluded(v) => seq![PredicateView::SpendHeight(Operator::Below, v)],
        Bound::Unbounded => Seq::empty(),
    })
}

/// The conditions that bounds on the value add.
pub open spec fn value_conditions(start: Bound<u128>, end: Bound<u128>) -> Seq<PredicateView> {
    (match start {
        Bound::Included(v) => seq![PredicateView::Value(Operator::AtLeast, v)],
        Bound::Excluded(v) => seq![PredicateView::Value(Operator::Above, v)],
        Bound::Unbounded => Seq::empty(),
    }) + (match end {
        Bound::Included(v) => seq![PredicateView::Value(Operator::AtMost, v)],
        Bound::Excluded(v) => seq![PredicateView::Value(Operator::Below, v)],
        Bound::Unbounded => Seq::empty(),
    })
}

/// A row meets a list with one more condition exactly if it meets the list
/// and the condition.
pub proof fn lemma_all_hold_push(ps: Seq<PredicateView>, p: PredicateView, row: CoinInfoView)
    ensures
        all_hold(ps.push(p), row) <==> all_hold(ps, row) && holds(p, row),
{
    let qs = ps.push(p);
    if all_hold(qs, row) {
        assert(holds(qs[ps.len() as int], row));
        assert forall|i: int| 0 <= i < ps.len() implies holds(#[trigger] ps[i], row) by {
            assert(qs[i] == ps[i]);
        }
    }
    if all_hold(ps, row) && holds(p, row) {
        assert forall|i: int| 0 <= i < qs.len() implies holds(#[trigger] qs[i], row) by {
            if i < ps.len() {
                assert(qs[i] == ps[i]);
            }
        }
    }
}

/// The text that holds a column against a placeholder.
pub open spec fn operator_text(op: Operator) -> Seq<char> {
    match op {
        Operator::AtLeast => " >= ?"@,
        Operator::Above => " > ?"@,
        Operator::AtMost => " <= ?"@,
        Operator::Below => " < ?"@,
    }
}

/// The text of one condition in a statement.
pub open spec fn fragment(p: PredicateView) -> Seq<char> {
    match p {
        PredicateView::CreateTxhash(_) => "create_txhash == ?"@,
        PredicateView::CreateIndex(_) => "create_index == ?"@,
        PredicateView::CreateHeight(op, _) => "create_height"@ + operator_text(op),
        PredicateView::Unspent => "spend_txhash is null"@,
        PredicateView::SpendTxhash(_) => "spend_txhash == ?"@,
        PredicateView::SpendIndex(_) => "spend_index == ?"@,
        PredicateView::SpendHeight(op, _) => "spend_height"@ + operator_text(op),
        PredicateView::Value(op, _) => "value"@ + operator_text(op),
        PredicateView::Denom(_) => "denom == ?"@,
        PredicateView::Covhash(_) => "covhash == ?"@,
        PredicateView::AdditionalData(_) => "additional_data == ?"@,
    }
}

/// The value that a condition binds to its placeholder, in the encoding of
/// the stored column; the condition on unspent coins binds none.
pub open spec fn param_of(p: PredicateView) -> Option<SqlValueView> {
    match p {
        PredicateView::CreateTxhash(h) => Some(SqlValueView::Text(hex_text(h@))),
        PredicateView::CreateIndex(i) => Some(SqlValueView::Integer(i as u64)),
        PredicateView::CreateHeight(_, h) => Some(SqlValueView::Integer(h)),
        PredicateView::Unspent => None,
        PredicateView::SpendTxhash(h) => Some(SqlValueView::Text(hex_text(h@))),
        PredicateView::SpendIndex(i) => Some(SqlValueView::Integer(i as u64)),
        PredicateView::SpendHeight(_, h) => Some(SqlValueView::Integer(h)),
        PredicateView::Value(_, v) => Some(SqlValueView::Blob(be_bytes(v as nat, 16))),
        PredicateView::Denom(d) => Some(SqlValueView::Blob(denom_bytes(d))),
        PredicateView::Covhash(a) => Some(SqlValueView::Text(hex_text(a@))),
        PredicateView::AdditionalData(b) => Some(SqlValueView::Blob(b)),
    }
}

/// The texts of the conditions of a list, in order.
pub open spec fn fragments(ps: Seq<PredicateView>) -> Seq<Seq<char>> {
    Seq::new(ps.len(), |i: int| fragment(ps[i]))
}

/// The values that the conditions of a list bind, in order.
pub open spec fn params_of(ps: Seq<PredicateView>) -> Seq<SqlValueView>
    decreases ps.len(),
{
    if ps.len() == 0 {
        Seq::empty()
    } else {
        match param_of(ps.last()) {
            Some(v) => params_of(ps.drop_last()).push(v),
            None => params_of(ps.drop_last()),
        }
    }
}

/// The text of the statement that selects the rows meeting a list of
/// conditions: the conditions joined by `and`, and no `where` for none.
pub open spec fn query_text(ps: Seq<PredicateView>) -> Seq<char> {
    if ps.len() == 0 {
        "select * from coins"@
    } else {
        "select * from coins where "@ + joined(fragments(ps), " and "@)
    }
}

fn operator_str(op: Operator) -> (text: &'static str)
    ensures
        text@ == operator_text(op),
{
    match op {
        Operator::AtLeast => " >= ?",
        Operator::Above => " > ?",
        Operator::AtMost => " <= ?",
        Operator::Below => " < ?",
    }
}

impl Predicate {
    /// The text of this condition in a statement.
    pub fn fragment(&self) -> (text: String)
        ensures
            text@ == fragment(self@),
    {
        match self {
            Predicate::CreateTxhash(_) => String::from_str("create_txhash == ?"),
            Predicate::CreateIndex(_) => String::from_str("create_index == ?"),
            Predicate::CreateHeight(op, _) => String::from_str("create_height").concat(
                operator_str(*op),
            ),
            Predicate::Unspent => String::from_str("spend_txhash is null"),
            Predicate::SpendTxhash(_) => String::from_str("spend_txhash == ?"),
            Predicate::SpendIndex(_) => String::from_str("spend_index == ?"),
            Predicate::SpendHeight(op, _) => String::from_str("spend_height").concat(
                operator_str(*op),
            ),
            Predicate::Value(op, _) => String::from_str("value").concat(operator_str(*op)),
            Predicate::Denom(_) => String::from_str("denom == ?"),
            Predicate::Covhash(_) => String::from_str("covhash == ?"),
            Predicate::AdditionalData(_) => String::from_str("additional_data == ?"),
        }
    }

    /// The value that this condition binds to its placeholder, if it has one.
    pub fn param(&self) -> (value: Option<SqlValue>)
        ensures
            match value {
                Some(v) => param_of(self@) == Some(v@),
                None => param_of(self@) is None,
            },
    {
        match self {
            Predicate::CreateTxhash(h) => Some(SqlValue::Text(hash_to_text(h))),
            Predicate::CreateIndex(i) => Some(SqlValue::Integer(*i as u64)),
            Predicate::CreateHeight(_, h) => Some(SqlValue::Integer(*h)),
            Predicate::Unspent => None,
            Predicate::SpendTxhash(h) => Some(SqlValue::Text(hash_to_text(h))),
            Predicate::SpendIndex(i) => Some(SqlValue::Integer(*i as u64)),
            Predicate::SpendHeight(_, h) => Some(SqlValue::Integer(*h)),
            Predicate::Value(_, v) => Some(SqlValue::Blob(encode_value(*v))),
            Predicate::Denom(d) => Some(SqlValue::Blob(denom_to_bytes(d))),
            Predicate::Covhash(a) => Some(SqlValue::Text(hash_to_text(a))),
            Predicate::AdditionalData(b) => Some(SqlValue::Blob(b.clone())),
        }
    }
}

impl CoinQuery {
    /// The statement that selects the matching rows from the store.
    pub fn statement(&self) -> (st: Statement)
        ensures
            st@ == (StatementView { sql: query_text(self@), params: params_of(self@) }),
    {
        let mut texts: Vec<String> = Vec::new();
        let mut params: Vec<SqlValue> = Vec::new();
        let mut i: usize = 0;
        proof {
            assert(self@.take(0) =~= Seq::empty());
            assert(value_views(params@) =~= Seq::empty());
        }
        while i < self.predicates.len()
            invariant
                i <= self.predicates@.len(),
                self@.len() == self.predicates@.len(),
                texts@.len() == i,
                forall|j: int| 0 <= j < i ==> texts@[j]@ == fragment(self@[j]),
                value_views(params@) == params_of(self@.take(i as int)),
            decreases self.predicates@.len() - i,
        {
            let p = &self.predicates[i];
            assert(p@ == self@[i as int]);
            texts.push(p.fragment());
            proof {
                assert(self@.take(i + 1).drop_last() =~= self@.take(i as int));
                assert(self@.take(i + 1).last() == p@);
            }
            match p.param() {
                Some(v) => {
                    let ghost before = value_views(params@);
                    params.push(v);
                    proof {
                        assert(value_views(params@) =~= before.push(v@));
                    }
                },
                None => {},
            }
            i = i + 1;
        }
        proof {
            assert(self@.take(i as int) =~= self@);
            assert(text_views(texts@) =~= fragments(self@));
        }
        let sql = if texts.len() == 0 {
            String::from_str("select * from coins")
        } else {
            String::from_str("select * from coins where ").concat(
                join_texts(&texts, " and ").as_str(),
            )
        };
        Statement { sql, params }
    }
}

/// Every selected row meets the conditions and is a row of the table.
pub proof fn lemma_selected_match(rows: Seq<CoinInfoView>, ps: Seq<PredicateView>, k: int)
    requires
        0 <= k < selected(rows, ps).len(),
    ensures
        all_hold(ps, selected(rows, ps)[k]),
        rows.contains(selected(rows, ps)[k]),
    decreases rows.len(),
{
    if rows.len() > 0 {
        let init = rows.drop_last();
        let sub = selected(init, ps);
        if k < sub.len() {
            lemma_selected_match(init, ps, k);
            let i = choose|i: int| 0 <= i < init.len() && init[i] == sub[k];
            assert(rows[i] == sub[k]);
        } else {
            assert(selected(rows, ps)[k] == rows[rows.len() - 1]);
        }
    }
}

/// Every row of the table that meets the conditions is selected.
pub proof fn lemma_selected_complete(rows: Seq<CoinInfoView>, ps: Seq<PredicateView>, i: int)
    requires
        0 <= i < rows.len(),
        all_hold(ps, rows[i]),
    ensures
        selected(rows, ps).contains(rows[i]),
    decreases rows.len(),
{
    let init = rows.drop_last();
    let sub = selected(init, ps);
    if i < rows.len() - 1 {
        lemma_selected_complete(init, ps, i);
        let k = choose|k: int| 0 <= k < sub.len() && sub[k] == init[i];
        assert(selected(rows, ps)[k] == rows[i]);
    } else {
        assert(selected(rows, ps)[sub.len() as int] == rows[i]);
    }
}

} // verus!
