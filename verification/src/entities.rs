//! The ledger's entities: products for sale and people with a cash balance
//! and an outstanding due amount.

use vstd::prelude::*;

verus! {

/// Due amounts are kept one hundred times finer than balances and prices:
/// one cent of balance equals `DUE_UNITS_PER_CENT` due units. At that scale
/// simple interest on a whole-cent price at an integer percent rate is exact.
pub const DUE_UNITS_PER_CENT: u64 = 100;

/// An item of the catalog. Immutable once created; `price` is in cents.
pub struct Product {
    pub name: String,
    pub price: u64,
}

/// A ledger participant. `name` is the unique key of the collection,
/// `balance` is in cents, `due_amount` in due units (hundredths of a cent).
/// `due_amount` can never go below zero: payments larger than the due are
/// rejected before any subtraction happens.
pub struct Person {
    pub name: String,
    pub balance: u64,
    pub due_amount: u64,
}

impl Person {
    /// A fresh participant starts with the given balance and owes nothing.
    pub fn new(name: &str, balance: u64) -> (p: Person)
        ensures
            p.name@ == name@,
            p.balance == balance,
            p.due_amount == 0,
    {
        Person { name: name.to_owned(), balance, due_amount: 0 }
    }
}

/// Converts an amount in cents to due units, the scale of `due_amount`.
pub fn due_units_from_cents(cents: u64) -> (r: u64)
    requires
        cents * DUE_UNITS_PER_CENT <= u64::MAX,
    ensures
        r == cents * DUE_UNITS_PER_CENT,
{
    cents * DUE_UNITS_PER_CENT
}

/// Splits an amount in cents into whole currency units and leftover cents,
/// for rendering with exactly two fraction digits.
pub fn split_cents(cents: u64) -> (r: (u64, u64))
    ensures
        r.0 == cents / 100,
        r.1 == cents % 100,
        r.1 < 100,
        r.0 * 100 + r.1 == cents,
{
    (cents / 100, cents % 100)
}

/// Rounds a due amount to whole cents for display, half a cent and more
/// rounding up. Rounding happens only here, at display time: the ledger
/// itself accumulates due units unrounded.
pub fn due_display_cents(due: u64) -> (r: u64)
    ensures
        r == due / DUE_UNITS_PER_CENT + (if due % DUE_UNITS_PER_CENT >= DUE_UNITS_PER_CENT / 2 {
            1int
        } else {
            0int
        }),
{
    let q = due / DUE_UNITS_PER_CENT;
    let rem = due % DUE_UNITS_PER_CENT;
    if rem >= DUE_UNITS_PER_CENT / 2 {
        proof {
            assert(due / DUE_UNITS_PER_CENT < u64::MAX) by (nonlinear_arith)
                requires due <= u64::MAX,
            ;
        }
        q + 1
    } else {
        q
    }
}

} // verus!
