//! The transaction engine: the effect of a cash or credit purchase on a
//! person's record.

use vstd::prelude::*;

use crate::entities::DUE_UNITS_PER_CENT;
use crate::entities::Person;
use crate::entities::Product;

verus! {

/// What a purchase did, reported back to the caller for display.
#[derive(Clone, Copy, Debug, PartialEq, Eq)]
pub enum PurchaseOutcome {
    /// Cash purchase went through; the person's balance is now `new_balance` cents.
    CashPaid { new_balance: u64 },
    /// Cash purchase rejected: the balance is below the price. Nothing changed.
    InsufficientBalance,
    /// Credit purchase recorded: `charge` due units (price plus simple
    /// interest) were added, bringing the person's due to `new_due`.
    CreditRecorded { charge: u64, new_due: u64 },
}

/// What a credit purchase adds to the due amount, in due units: the price
/// itself plus simple interest `price * (rate / 100) * time`. With the price
/// in cents and due units a hundred times finer, the division by the percent
/// scale cancels and the charge is exact:
/// `price * (rate / 100) * time` cents is `price * rate * time` due units.
pub open spec fn credit_charge(price: u64, rate: u64, time: u64) -> int {
    price * DUE_UNITS_PER_CENT + price * rate * time
}

/// The person record as a purchase leaves it: cash debits the balance when
/// it covers the price and is otherwise a no-op; credit adds the charge to
/// the due amount and leaves the balance alone.
pub open spec fn purchase_effect(p: Person, price: u64, pay_now: bool, rate: u64, time: u64) -> Person {
    if pay_now {
        if p.balance >= price {
            Person { name: p.name, balance: (p.balance - price) as u64, due_amount: p.due_amount }
        } else {
            p
        }
    } else {
        Person {
            name: p.name,
            balance: p.balance,
            due_amount: (p.due_amount + credit_charge(price, rate, time)) as u64,
        }
    }
}

/// What a purchase reports for the same cases as `purchase_effect`.
pub open spec fn purchase_report(p: Person, price: u64, pay_now: bool, rate: u64, time: u64) -> PurchaseOutcome {
    if pay_now {
        if p.balance >= price {
            PurchaseOutcome::CashPaid { new_balance: (p.balance - price) as u64 }
        } else {
            PurchaseOutcome::InsufficientBalance
        }
    } else {
        PurchaseOutcome::CreditRecorded {
            charge: credit_charge(price, rate, time) as u64,
            new_due: (p.due_amount + credit_charge(price, rate, time)) as u64,
        }
    }
}

/// Computes the credit charge in due units, declining instead of wrapping
/// when it does not fit the machine range.
pub fn credit_charge_checked(price: u64, rate: u64, time: u64) -> (r: Option<u64>)
    requires
        rate > 0,
        time > 0,
    ensures
        match r {
            Some(c) => c == credit_charge(price, rate, time),
            None => credit_charge(price, rate, time) > u64::MAX,
        },
{
    proof {
        assert(price * rate <= price * rate * time) by (nonlinear_arith)
            requires time >= 1,
        ;
    }
    let principal = match price.checked_mul(DUE_UNITS_PER_CENT) {
        Some(x) => x,
        None => {
            return None;
        },
    };
    let price_rate = match price.checked_mul(rate) {
        Some(x) => x,
        None => {
            return None;
        },
    };
    let interest = match price_rate.checked_mul(time) {
        Some(x) => x,
        None => {
            return None;
        },
    };
    principal.checked_add(interest)
}

impl Person {
    /// Buys `product`, for cash when `pay_now` holds, else on credit at
    /// `interest_rate` percent per year over `time` years.
    ///
    /// Cash: when the balance covers the price it is debited by the price
    /// and the due is untouched; otherwise nothing changes and the purchase
    /// is reported rejected. No partial payment is ever applied.
    ///
    /// Credit: the price plus simple interest is added to the due amount and
    /// the balance is untouched; with valid terms this never fails. The
    /// caller must have validated the rate and the time, and the accumulated
    /// due must stay within the machine range.
    pub fn buy_product(
        &mut self,
        product: &Product,
        pay_now: bool,
        interest_rate: u64,
        time: u64,
    ) -> (out: PurchaseOutcome)
        requires
            !pay_now ==> interest_rate > 0 && time > 0,
            !pay_now ==> old(self).due_amount + credit_charge(
                product.price,
                interest_rate,
                time,
            ) <= u64::MAX,
        ensures
            *final(self) == purchase_effect(*old(self), product.price, pay_now, interest_rate, time),
            out == purchase_report(*old(self), product.price, pay_now, interest_rate, time),
            final(self).name == old(self).name,
            pay_now ==> final(self).due_amount == old(self).due_amount,
            pay_now && old(self).balance >= product.price ==> {
                &&& final(self).balance == old(self).balance - product.price
                &&& out == (PurchaseOutcome::CashPaid { new_balance: final(self).balance })
            },
            pay_now && old(self).balance < product.price ==> {
                &&& final(self).balance == old(self).balance
                &&& out == PurchaseOutcome::InsufficientBalance
            },
            !pay_now ==> {
                &&& final(self).balance == old(self).balance
                &&& final(self).due_amount == old(self).due_amount + credit_charge(
                    product.price,
                    interest_rate,
                    time,
                )
                &&& out == (PurchaseOutcome::CreditRecorded {
                    charge: (credit_charge(product.price, interest_rate, time)) as u64,
                    new_due: final(self).due_amount,
                })
            },
    {
        if pay_now {
            if self.balance >= product.price {
                self.balance = self.balance - product.price;
                PurchaseOutcome::CashPaid { new_balance: self.balance }
            } else {
                PurchaseOutcome::InsufficientBalance
            }
        } else {
            proof {
                assert(product.price * interest_rate <= product.price * interest_rate * time)
                    by (nonlinear_arith)
                    requires time >= 1,
                ;
            }
            let interest: u64 = product.price * interest_rate * time;
            let principal: u64 = product.price * DUE_UNITS_PER_CENT;
            let charge: u64 = principal + interest;
            self.due_amount = self.due_amount + charge;
            PurchaseOutcome::CreditRecorded { charge, new_due: self.due_amount }
        }
    }
}

} // verus!
