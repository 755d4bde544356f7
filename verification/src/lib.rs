//! Core of a block indexer for a UTXO ledger.
//!
//! The crate holds the rules of the indexer with no I/O of its own: the byte
//! encodings of the stored columns, the coin query builder, the balance
//! tracker, the derivation of coin mutations from a block, the statements
//! that persist them, and the tables held in memory. Every function is
//! verified against its contract.

pub mod balance;
pub mod balance_laws;
pub mod codec;
pub mod coinquery;
pub mod encoding;
pub mod idmap;
pub mod indexer;
pub mod ingest;
pub mod ingest_laws;
pub mod pass;
pub mod query_laws;
pub mod rows;
pub mod schema;
pub mod sql;
pub mod statements;
pub mod table;
pub mod types;

pub use balance::BalanceTracker;
pub use coinquery::CoinQuery;
pub use indexer::Indexer;
pub use types::{CoinInfo, CoinSpendInfo, HeightInfo};

use vstd::prelude::*;

verus! {

/// What follows one try.
#[derive(Debug, PartialEq, Eq)]
pub enum Attempt<T> {
    /// The try succeeded: this is its value, and nothing more is tried.
    Done(T),
    /// The try failed, and this many tries are left.
    Again(u64),
    /// The try failed, and it was the last.
    GaveUp,
}

/// Decides what follows a try, from its result and from the number of tries
/// that were left before it: a success ends the tries with its value; a
/// failure is followed by another try as long as one is left.
pub fn after_attempt<T, E>(result: Result<T, E>, left: u64) -> (next: Attempt<T>)
    requires
        left > 0,
    ensures
        match result {
            Ok(val) => next == Attempt::Done(val),
            Err(_) => next == (if left > 1 {
                Attempt::<T>::Again((left - 1) as u64)
            } else {
                Attempt::<T>::GaveUp
            }),
        },
{
    match result {
        Ok(val) => Attempt::Done(val),
        Err(_) => if left > 1 {
            Attempt::Again(left - 1)
        } else {
            Attempt::GaveUp
        },
    }
}

/// Tries something until it stops failing, at most `attempts` times.
///
/// The result is what the first try that succeeded returned, and nothing
/// where every try failed. What follows each try is what `after_attempt`
/// says.
pub fn repeat_fallible<T, E, F: Fn() -> Result<T, E>>(clos: F, attempts: u64) -> (out: Option<T>)
    requires
        call_requires(clos, ()),
    ensures
        out matches Some(val) ==> call_ensures(clos, (), Ok::<T, E>(val)),
        attempts == 0 ==> out is None,
        attempts > 0 && (forall|r: Result<T, E>| call_ensures(clos, (), r) ==> r is Ok)
            ==> out is Some,
{
    let mut left: u64 = attempts;
    while left > 0
        invariant
            call_requires(clos, ()),
            left <= attempts,
            left < attempts ==> !(forall|r: Result<T, E>| call_ensures(clos, (), r) ==> r is Ok),
        decreases left,
    {
        let result = clos();
        let ghost tried = result;
        match after_attempt(result, left) {
            Attempt::Done(val) => {
                return Some(val);
            },
            Attempt::Again(rest) => {
                assert(tried is Err);
                left = rest;
            },
            Attempt::GaveUp => {
                assert(tried is Err);
                return None;
            },
        }
    }
    None
}

} // verus!
