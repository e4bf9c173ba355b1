//! The session controller's decisions: parsing the menu choice, the
//! yes-token for immediate payment, catalog selection, and the ledger that
//! owns the people and the catalog for the whole session.

use vstd::prelude::*;

use crate::engine::PurchaseOutcome;
use crate::engine::credit_charge;
use crate::engine::credit_charge_checked;
use crate::engine::purchase_effect;
use crate::engine::purchase_report;
use crate::entities::Person;
use crate::entities::Product;
use crate::settlement::SettlementOutcome;
use crate::settlement::SettlementStart;
use crate::settlement::begin_settlement;
use crate::settlement::find_person;
use crate::settlement::find_person_spec;
use crate::settlement::lemma_find_person_spec;
use crate::settlement::settlement_post;
use crate::settlement::settlement_start_spec;

verus! {

/// One of the four menu actions, or none of them.
#[derive(Clone, Copy, Debug, PartialEq, Eq)]
pub enum MenuChoice {
    Buy,
    PayDue,
    ShowBalances,
    Exit,
    Invalid,
}

/// The action a trimmed input line selects: the digits `1` to `4` pick an
/// action, anything else is invalid.
pub open spec fn menu_choice_of(s: Seq<char>) -> MenuChoice {
    if s == seq!['1'] {
        MenuChoice::Buy
    } else if s == seq!['2'] {
        MenuChoice::PayDue
    } else if s == seq!['3'] {
        MenuChoice::ShowBalances
    } else if s == seq!['4'] {
        MenuChoice::Exit
    } else {
        MenuChoice::Invalid
    }
}

/// Parses a trimmed menu input line into the action it selects.
pub fn parse_menu_choice(s: &str) -> (c: MenuChoice)
    ensures
        c == menu_choice_of(s@),
{
    if s.unicode_len() != 1 {
        return MenuChoice::Invalid;
    }
    let ch = s.get_char(0);
    proof {
        assert(s@ =~= seq![s@[0]]);
    }
    if ch == '1' {
        MenuChoice::Buy
    } else if ch == '2' {
        MenuChoice::PayDue
    } else if ch == '3' {
        MenuChoice::ShowBalances
    } else if ch == '4' {
        MenuChoice::Exit
    } else {
        proof {
            assert(seq![ch] != seq!['1']) by {
                assert(seq![ch][0] == ch && seq!['1'][0] == '1');
            }
            assert(seq![ch] != seq!['2']) by {
                assert(seq![ch][0] == ch && seq!['2'][0] == '2');
            }
            assert(seq![ch] != seq!['3']) by {
                assert(seq![ch][0] == ch && seq!['3'][0] == '3');
            }
            assert(seq![ch] != seq!['4']) by {
                assert(seq![ch][0] == ch && seq!['4'][0] == '4');
            }
        }
        MenuChoice::Invalid
    }
}

/// Whether a trimmed input line is the token `yes` in any letter case.
/// Anything else — including an empty line — means credit, not cash.
pub open spec fn is_yes_spec(s: Seq<char>) -> bool {
    &&& s.len() == 3
    &&& (s[0] == 'y' || s[0] == 'Y')
    &&& (s[1] == 'e' || s[1] == 'E')
    &&& (s[2] == 's' || s[2] == 'S')
}

/// Decides the pay-now question: only the token `yes`, compared without
/// regard to letter case, selects immediate payment.
pub fn is_yes(s: &str) -> (r: bool)
    ensures
        r == is_yes_spec(s@),
{
    if s.unicode_len() != 3 {
        return false;
    }
    let c0 = s.get_char(0);
    let c1 = s.get_char(1);
    let c2 = s.get_char(2);
    (c0 == 'y' || c0 == 'Y') && (c1 == 'e' || c1 == 'E') && (c2 == 's' || c2 == 'S')
}

/// Turns a 1-based catalog selection into an index: `Some(number - 1)`
/// exactly when `number` lies in `[1, catalog length]`.
pub fn select_product(products: &Vec<Product>, number: usize) -> (r: Option<usize>)
    ensures
        1 <= number <= products@.len() ==> r == Some((number - 1) as usize),
        !(1 <= number <= products@.len()) ==> r is None,
{
    if 1 <= number && number <= products.len() {
        Some(number - 1)
    } else {
        None
    }
}

/// No two people of the collection share a name: the name is the key.
pub open spec fn names_unique(people: Seq<Person>) -> bool {
    forall|i: int, j: int|
        0 <= i < j < people.len() ==> people[i].name@ != people[j].name@
}

/// An operation that keeps every name in place keeps the names unique.
pub proof fn lemma_names_preserved_unique(before: Seq<Person>, after: Seq<Person>)
    requires
        names_unique(before),
        after.len() == before.len(),
        forall|k: int| 0 <= k < after.len() ==> after[k].name@ == before[k].name@,
    ensures
        names_unique(after),
{
}

/// How the buy sub-flow ended.
#[derive(Clone, Copy, Debug, PartialEq, Eq)]
pub enum BuyOutcome {
    /// No person carries the given name; nothing was prompted further.
    PersonNotFound,
    /// The catalog selection is outside `[1, catalog length]`.
    InvalidSelection,
    /// Credit was asked for with a rate that is not positive.
    InvalidRate,
    /// Credit was asked for with a duration that is not positive.
    InvalidTime,
    /// The credit charge would not fit the machine range; nothing changed.
    AmountOutOfRange,
    /// The purchase ran; the engine reported this outcome.
    Purchase(PurchaseOutcome),
}

/// The entity collection and the catalog, owned by the session controller
/// for the process lifetime. People are keyed by name; neither set grows or
/// shrinks after startup.
pub struct Ledger {
    pub people: Vec<Person>,
    pub products: Vec<Product>,
}

impl Ledger {
    /// Names are unique, so a name selects at most one person.
    pub open spec fn wf(&self) -> bool {
        names_unique(self.people@)
    }

    /// The startup state: Alice with 500.00 and Bob with 1000.00 in cash,
    /// a catalog of a Laptop at 800.00 and a Phone at 500.00, and no dues.
    /// Balances and prices are in cents.
    pub fn new() -> (l: Ledger)
        ensures
            l.wf(),
            l.people@.len() == 2,
            l.people@[0].name@ == "Alice"@,
            l.people@[0].balance == 50000,
            l.people@[0].due_amount == 0,
            l.people@[1].name@ == "Bob"@,
            l.people@[1].balance == 100000,
            l.people@[1].due_amount == 0,
            l.products@.len() == 2,
            l.products@[0].name@ == "Laptop"@,
            l.products@[0].price == 80000,
            l.products@[1].name@ == "Phone"@,
            l.products@[1].price == 50000,
    {
        let mut people: Vec<Person> = Vec::new();
        people.push(Person::new("Alice", 50000));
        people.push(Person::new("Bob", 100000));
        let mut products: Vec<Product> = Vec::new();
        products.push(Product { name: "Laptop".to_owned(), price: 80000 });
        products.push(Product { name: "Phone".to_owned(), price: 50000 });
        proof {
            reveal_strlit("Alice");
            reveal_strlit("Bob");
            assert("Alice"@.len() == 5 && "Bob"@.len() == 3);
            assert(people@[0].name@ != people@[1].name@);
        }
        Ledger { people, products }
    }

    /// The buy sub-flow, after the controller has collected its inputs:
    /// select the person by name and the product by 1-based number, check
    /// the credit terms, and run the purchase. Every rejected path leaves
    /// the ledger untouched; a run purchase changes exactly the selected
    /// person, as the engine's `purchase_effect` says.
    pub fn buy(
        &mut self,
        name: &String,
        number: usize,
        pay_now: bool,
        rate: u64,
        time: u64,
    ) -> (r: BuyOutcome)
        requires
            old(self).wf(),
        ensures
            final(self).wf(),
            final(self).products@ == old(self).products@,
            final(self).people@.len() == old(self).people@.len(),
            ({
                let found = find_person_spec(old(self).people@, name@);
                let catalog_len = old(self).products@.len();
                match found {
                    None => {
                        &&& r == BuyOutcome::PersonNotFound
                        &&& final(self).people@ == old(self).people@
                    },
                    Some(i) => {
                        if !(1 <= number <= catalog_len) {
                            &&& r == BuyOutcome::InvalidSelection
                            &&& final(self).people@ == old(self).people@
                        } else {
                            let price = old(self).products@[number - 1].price;
                            let p = old(self).people@[i];
                            if !pay_now && rate == 0 {
                                &&& r == BuyOutcome::InvalidRate
                                &&& final(self).people@ == old(self).people@
                            } else if !pay_now && time == 0 {
                                &&& r == BuyOutcome::InvalidTime
                                &&& final(self).people@ == old(self).people@
                            } else if !pay_now && p.due_amount + credit_charge(price, rate, time)
                                > u64::MAX {
                                &&& r == BuyOutcome::AmountOutOfRange
                                &&& final(self).people@ == old(self).people@
                            } else {
                                &&& r == BuyOutcome::Purchase(
                                    purchase_report(p, price, pay_now, rate, time),
                                )
                                &&& final(self).people@ == old(self).people@.update(
                                    i,
                                    purchase_effect(p, price, pay_now, rate, time),
                                )
                            }
                        }
                    },
                }
            }),
    {
        let found = find_person(&self.people, name);
        let i = match found {
            Some(i) => i,
            None => {
                return BuyOutcome::PersonNotFound;
            },
        };
        if number < 1 || number > self.products.len() {
            return BuyOutcome::InvalidSelection;
        }
        let price = self.products[number - 1].price;
        if !pay_now {
            if rate == 0 {
                return BuyOutcome::InvalidRate;
            }
            if time == 0 {
                return BuyOutcome::InvalidTime;
            }
            let fits = match credit_charge_checked(price, rate, time) {
                Some(c) => self.people[i].due_amount <= u64::MAX - c,
                None => false,
            };
            if !fits {
                return BuyOutcome::AmountOutOfRange;
            }
        }
        let product = &self.products[number - 1];
        let p = &mut self.people[i];
        let out = p.buy_product(product, pay_now, rate, time);
        proof {
            assert forall|a: int, b: int|
                0 <= a < b < self.people@.len() implies self.people@[a].name@
                != self.people@[b].name@ by {
                assert(self.people@[a].name@ == old(self).people@[a].name@);
                assert(self.people@[b].name@ == old(self).people@[b].name@);
            }
        }
        BuyOutcome::Purchase(out)
    }

    /// The pay-due sub-flow's selection step, against this ledger's people.
    pub fn begin_settlement(&self, name: &String) -> (s: SettlementStart)
        ensures
            s == settlement_start_spec(self.people@, name@),
    {
        begin_settlement(&self.people, name)
    }

    /// The pay-due sub-flow: one full settlement pass against this ledger's
    /// people. The catalog and everyone else's records are untouched.
    pub fn pay(&mut self, name: &String, amount: u64) -> (r: SettlementOutcome)
        requires
            old(self).wf(),
        ensures
            final(self).wf(),
            final(self).products@ == old(self).products@,
            final(self).people@.len() == old(self).people@.len(),
            settlement_post(old(self).people@, final(self).people@, name@, amount, r),
    {
        let r = Person::pay_due(&mut self.people, name, amount);
        proof {
            let before = old(self).people@;
            let after = self.people@;
            assert forall|k: int| 0 <= k < after.len() implies after[k].name@
                == before[k].name@ by {
                if before.len() > 0 {
                    lemma_find_person_spec(before, name@);
                    match find_person_spec(before, name@) {
                        None => {},
                        Some(i) => {
                            let due = before[i].due_amount;
                            if due > 0 && amount <= due {
                                assert(after == before.update(
                                    i,
                                    (Person {
                                        name: before[i].name,
                                        balance: before[i].balance,
                                        due_amount: (due - amount) as u64,
                                    }),
                                ));
                            }
                        },
                    }
                }
            }
            lemma_names_preserved_unique(before, after);
        }
        r
    }
}

} // verus!
