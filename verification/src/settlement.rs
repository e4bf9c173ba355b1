//! The due-settlement flow: listing people with dues, selecting a person by
//! name, and applying one payment against that person's outstanding due.

use vstd::prelude::*;

use crate::entities::Person;

verus! {

/// The index of the first person whose name matches, scanning from the
/// front, or `None` when no name matches.
pub open spec fn find_person_spec(people: Seq<Person>, name: Seq<char>) -> Option<int>
    decreases people.len(),
{
    if people.len() == 0 {
        None
    } else if people[0].name@ == name {
        Some(0int)
    } else {
        match find_person_spec(people.subrange(1, people.len() as int), name) {
            Some(i) => Some(i + 1),
            None => None,
        }
    }
}

/// `find_person_spec` returns the first matching index: the match is in
/// range and carries the name, everything before it does not; `None` means
/// no entry carries the name.
pub proof fn lemma_find_person_spec(people: Seq<Person>, name: Seq<char>)
    ensures
        match find_person_spec(people, name) {
            Some(i) => 0 <= i < people.len() && people[i].name@ == name && (forall|j: int|
                0 <= j < i ==> people[j].name@ != name),
            None => forall|j: int| 0 <= j < people.len() ==> people[j].name@ != name,
        },
    decreases people.len(),
{
    if people.len() > 0 && people[0].name@ != name {
        let rest = people.subrange(1, people.len() as int);
        lemma_find_person_spec(rest, name);
        assert forall|j: int| 1 <= j < people.len() implies people[j] == rest[j - 1] by {}
    }
}

/// When everything before `i` mismatches and `i` matches, `i` is what
/// `find_person_spec` returns; when everything mismatches, it returns `None`.
pub proof fn lemma_find_person_spec_from_scan(people: Seq<Person>, name: Seq<char>, i: int)
    requires
        0 <= i <= people.len(),
        forall|j: int| 0 <= j < i ==> people[j].name@ != name,
        i < people.len() ==> people[i].name@ == name,
    ensures
        i < people.len() ==> find_person_spec(people, name) == Some(i),
        i == people.len() ==> find_person_spec(people, name) is None,
    decreases people.len(),
{
    if people.len() > 0 && people[0].name@ != name {
        let rest = people.subrange(1, people.len() as int);
        assert forall|j: int| 0 <= j < rest.len() implies rest[j] == people[j + 1] by {}
        lemma_find_person_spec_from_scan(rest, name, i - 1);
    }
}

/// Looks a person up by exact name match, returning the index of the first
/// match in the collection's order.
pub fn find_person(people: &Vec<Person>, name: &String) -> (r: Option<usize>)
    ensures
        match r {
            Some(i) => find_person_spec(people@, name@) == Some(i as int) && i < people.len(),
            None => find_person_spec(people@, name@) is None,
        },
{
    let n = people.len();
    let mut k: usize = 0;
    while k < n
        invariant
            n == people.len(),
            k <= n,
            forall|j: int| 0 <= j < k ==> people@[j].name@ != name@,
        decreases n - k,
    {
        if people[k].name == *name {
            proof {
                lemma_find_person_spec_from_scan(people@, name@, k as int);
            }
            return Some(k);
        }
        k = k + 1;
    }
    proof {
        lemma_find_person_spec_from_scan(people@, name@, n as int);
    }
    None
}

/// The indices of the people with a positive due, in the collection's order.
pub open spec fn due_indices(people: Seq<Person>, upto: int) -> Seq<int>
    decreases upto,
{
    if upto <= 0 {
        Seq::empty()
    } else if people[upto - 1].due_amount > 0 {
        due_indices(people, upto - 1).push(upto - 1)
    } else {
        due_indices(people, upto - 1)
    }
}

/// Lists the people that owe something: the indices of everyone with a
/// positive due, in the collection's order, for display with 1-based
/// numbering.
pub fn people_with_dues(people: &Vec<Person>) -> (r: Vec<usize>)
    ensures
        r@.map_values(|i: usize| i as int) == due_indices(people@, people@.len() as int),
{
    let n = people.len();
    let mut r: Vec<usize> = Vec::new();
    let mut k: usize = 0;
    while k < n
        invariant
            n == people.len(),
            k <= n,
            r@.map_values(|i: usize| i as int) == due_indices(people@, k as int),
        decreases n - k,
    {
        if people[k].due_amount > 0 {
            r.push(k);
            proof {
                assert(r@.map_values(|i: usize| i as int) =~= due_indices(
                    people@,
                    k + 1,
                ));
            }
        }
        k = k + 1;
    }
    r
}

/// What one payment attempt did.
#[derive(Clone, Copy, Debug, PartialEq, Eq)]
pub enum PaymentOutcome {
    /// The amount exceeds the outstanding due of `due` units; nothing changed.
    Overpayment { due: u64 },
    /// The payment was applied; the due is now `new_due` units.
    Paid { new_due: u64 },
}

/// The due that remains after one payment attempt: an amount above the due
/// is rejected and leaves it unchanged, anything else is subtracted in full.
pub open spec fn settled_due(due: u64, amount: u64) -> int {
    if amount > due {
        due as int
    } else {
        due - amount
    }
}

impl Person {
    /// Applies one payment of `amount` due units against this person's due.
    /// An amount above the due is rejected outright, leaving the record
    /// untouched; otherwise the due drops by exactly the amount, so it can
    /// reach zero but never go below it.
    pub fn apply_payment(&mut self, amount: u64) -> (r: PaymentOutcome)
        ensures
            final(self).name == old(self).name,
            final(self).balance == old(self).balance,
            final(self).due_amount == settled_due(old(self).due_amount, amount),
            amount > old(self).due_amount ==> r == (PaymentOutcome::Overpayment {
                due: old(self).due_amount,
            }),
            amount <= old(self).due_amount ==> r == (PaymentOutcome::Paid {
                new_due: final(self).due_amount,
            }),
    {
        if amount > self.due_amount {
            PaymentOutcome::Overpayment { due: self.due_amount }
        } else {
            self.due_amount = self.due_amount - amount;
            PaymentOutcome::Paid { new_due: self.due_amount }
        }
    }
}

/// A payment attempt is safe under the overpayment guard: an amount above
/// the due changes nothing, an amount within it lowers the due by exactly
/// that amount, and the due never goes below zero either way.
pub proof fn lemma_payment_guard(due: u64, amount: u64)
    ensures
        amount > due ==> settled_due(due, amount) == due,
        amount <= due ==> settled_due(due, amount) == due - amount,
        settled_due(due, amount) >= 0,
{
}

/// Paying exactly the outstanding due always clears it to exactly zero:
/// with due amounts held in integer units, settlement in full leaves no
/// residue and never drives the due negative.
pub proof fn lemma_full_payment_clears_due(due: u64)
    ensures
        settled_due(due, due) == 0,
{
}

/// Where the settlement flow stands after the person-selection step.
#[derive(Clone, Copy, Debug, PartialEq, Eq)]
pub enum SettlementStart {
    /// The collection is empty; the flow ends before any selection.
    NoPeople,
    /// No person carries the given name.
    PersonNotFound,
    /// The person at `index` exists but owes nothing; the flow ends.
    NoDue { index: usize },
    /// The person at `index` owes `due` units; a payment amount may follow.
    HasDue { index: usize, due: u64 },
}

/// Where the settlement flow stands for a given collection and name.
pub open spec fn settlement_start_spec(people: Seq<Person>, name: Seq<char>) -> SettlementStart {
    if people.len() == 0 {
        SettlementStart::NoPeople
    } else {
        match find_person_spec(people, name) {
            None => SettlementStart::PersonNotFound,
            Some(i) => if people[i].due_amount == 0 {
                SettlementStart::NoDue { index: i as usize }
            } else {
                SettlementStart::HasDue { index: i as usize, due: people[i].due_amount }
            },
        }
    }
}

/// Runs the selection steps of the settlement flow: reports an empty
/// collection, an unknown name, or the selected person, with the due when
/// there is one to pay.
pub fn begin_settlement(people: &Vec<Person>, name: &String) -> (s: SettlementStart)
    ensures
        s == settlement_start_spec(people@, name@),
        s matches SettlementStart::HasDue { index, due } ==> index < people.len()
            && people@[index as int].name@ == name@ && people@[index as int].due_amount == due
            && due > 0,
{
    if people.len() == 0 {
        return SettlementStart::NoPeople;
    }
    match find_person(people, name) {
        None => SettlementStart::PersonNotFound,
        Some(i) => {
            proof {
                lemma_find_person_spec(people@, name@);
            }
            let due = people[i].due_amount;
            if due == 0 {
                SettlementStart::NoDue { index: i }
            } else {
                SettlementStart::HasDue { index: i, due }
            }
        },
    }
}

/// How one full pass of the settlement flow ended.
#[derive(Clone, Copy, Debug, PartialEq, Eq)]
pub enum SettlementOutcome {
    /// The collection is empty.
    NoPeople,
    /// No person carries the given name.
    PersonNotFound,
    /// The named person owes nothing.
    NoDue,
    /// The amount exceeds the outstanding due of `due` units; nothing changed.
    Overpayment { due: u64 },
    /// The payment was applied; the person's due is now `new_due` units.
    Paid { new_due: u64 },
}

/// Relates the collection before and after one full pass of the settlement
/// flow to the reported outcome: the flow ends without touching anything
/// when the collection is empty, the name is unknown, the person owes
/// nothing, or the amount exceeds the due; otherwise exactly the selected
/// person's due drops by the amount.
pub open spec fn settlement_post(
    before: Seq<Person>,
    after: Seq<Person>,
    name: Seq<char>,
    amount: u64,
    r: SettlementOutcome,
) -> bool {
    if before.len() == 0 {
        &&& r == SettlementOutcome::NoPeople
        &&& after == before
    } else {
        match find_person_spec(before, name) {
            None => {
                &&& r == SettlementOutcome::PersonNotFound
                &&& after == before
            },
            Some(i) => {
                let due = before[i].due_amount;
                if due == 0 {
                    &&& r == SettlementOutcome::NoDue
                    &&& after == before
                } else if amount > due {
                    &&& r == (SettlementOutcome::Overpayment { due })
                    &&& after == before
                } else {
                    &&& r == (SettlementOutcome::Paid { new_due: (due - amount) as u64 })
                    &&& after == before.update(
                        i,
                        (Person {
                            name: before[i].name,
                            balance: before[i].balance,
                            due_amount: (due - amount) as u64,
                        }),
                    )
                }
            },
        }
    }
}

impl Person {
    /// One full pass of the settlement flow: select the person named `name`,
    /// then pay `amount` due units against their due. Exactly one person is
    /// updated, and only when the flow reaches the payment step with an
    /// amount within the due; every other path leaves the collection as it
    /// was and reports why it ended.
    pub fn pay_due(people: &mut Vec<Person>, name: &String, amount: u64) -> (r: SettlementOutcome)
        ensures
            final(people)@.len() == old(people)@.len(),
            settlement_post(old(people)@, final(people)@, name@, amount, r),
    {
        if people.len() == 0 {
            return SettlementOutcome::NoPeople;
        }
        match find_person(people, name) {
            None => SettlementOutcome::PersonNotFound,
            Some(i) => {
                if people[i].due_amount == 0 {
                    SettlementOutcome::NoDue
                } else {
                    let p = &mut people[i];
                    match p.apply_payment(amount) {
                        PaymentOutcome::Overpayment { due } => {
                            proof {
                                assert(people@ =~= old(people)@);
                            }
                            SettlementOutcome::Overpayment { due }
                        },
                        PaymentOutcome::Paid { new_due } => {
                            SettlementOutcome::Paid { new_due }
                        },
                    }
                }
            },
        }
    }
}

} // verus!
