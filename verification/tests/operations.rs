//! Unit tests for the engine, the settlement flow, the session parsing
//! helpers, and the display conversions.

use credit_ledger::engine::PurchaseOutcome;
use credit_ledger::engine::credit_charge_checked;
use credit_ledger::entities::Person;
use credit_ledger::entities::Product;
use credit_ledger::entities::due_display_cents;
use credit_ledger::entities::due_units_from_cents;
use credit_ledger::entities::split_cents;
use credit_ledger::numbers::cents_string;
use credit_ledger::numbers::parse_digits;
use credit_ledger::numbers::parse_money;
use credit_ledger::numbers::u64_string;
use credit_ledger::session::BuyOutcome;
use credit_ledger::session::Ledger;
use credit_ledger::session::MenuChoice;
use credit_ledger::session::is_yes;
use credit_ledger::session::parse_menu_choice;
use credit_ledger::session::select_product;
use credit_ledger::settlement::PaymentOutcome;
use credit_ledger::settlement::SettlementOutcome;
use credit_ledger::settlement::SettlementStart;
use credit_ledger::settlement::begin_settlement;
use credit_ledger::settlement::find_person;
use credit_ledger::settlement::people_with_dues;

fn laptop() -> Product {
    Product { name: "Laptop".to_string(), price: 80000 }
}

#[test]
fn cash_purchase_debits_exactly_the_price() {
    let mut p = Person::new("Dana", 100000);
    let out = p.buy_product(&laptop(), true, 0, 0);
    assert_eq!(out, PurchaseOutcome::CashPaid { new_balance: 20000 });
    assert_eq!(p.balance, 20000);
    assert_eq!(p.due_amount, 0);
}

#[test]
fn cash_purchase_at_exactly_the_price_empties_the_balance() {
    let mut p = Person::new("Dana", 80000);
    let out = p.buy_product(&laptop(), true, 0, 0);
    assert_eq!(out, PurchaseOutcome::CashPaid { new_balance: 0 });
    assert_eq!(p.balance, 0);
}

#[test]
fn insufficient_balance_changes_nothing() {
    let mut p = Person::new("Dana", 79999);
    let out = p.buy_product(&laptop(), true, 0, 0);
    assert_eq!(out, PurchaseOutcome::InsufficientBalance);
    assert_eq!(p.balance, 79999);
    assert_eq!(p.due_amount, 0);
}

#[test]
fn credit_charge_follows_the_simple_interest_formula() {
    // 8.05 at 3 percent over 2 years: 805 + 805 * 0.03 * 2 cents,
    // exactly 80500 + 4830 due units.
    let mut p = Person::new("Dana", 0);
    let item = Product { name: "Gadget".to_string(), price: 805 };
    let out = p.buy_product(&item, false, 3, 2);
    assert_eq!(
        out,
        PurchaseOutcome::CreditRecorded { charge: 85330, new_due: 85330 }
    );
    assert_eq!(p.balance, 0);
}

#[test]
fn credit_purchases_accumulate_the_due() {
    let mut p = Person::new("Dana", 100);
    let item = Product { name: "Gadget".to_string(), price: 1000 };
    p.buy_product(&item, false, 5, 1);
    p.buy_product(&item, false, 5, 1);
    // Each purchase adds 100000 + 5000 due units.
    assert_eq!(p.due_amount, 210000);
    assert_eq!(p.balance, 100);
}

#[test]
fn overpayment_is_rejected_outright() {
    let mut p = Person::new("Dana", 0);
    p.due_amount = 500;
    let out = p.apply_payment(600);
    assert_eq!(out, PaymentOutcome::Overpayment { due: 500 });
    assert_eq!(p.due_amount, 500);
}

#[test]
fn partial_payment_lowers_the_due() {
    let mut p = Person::new("Dana", 0);
    p.due_amount = 500;
    let out = p.apply_payment(200);
    assert_eq!(out, PaymentOutcome::Paid { new_due: 300 });
    assert_eq!(p.due_amount, 300);
}

#[test]
fn full_payment_reaches_exact_zero() {
    let mut p = Person::new("Dana", 0);
    p.due_amount = 12345;
    let out = p.apply_payment(12345);
    assert_eq!(out, PaymentOutcome::Paid { new_due: 0 });
    assert_eq!(p.due_amount, 0);
}

#[test]
fn settling_an_empty_collection_reports_no_people() {
    let mut people: Vec<Person> = Vec::new();
    let r = Person::pay_due(&mut people, &"Dana".to_string(), 100);
    assert_eq!(r, SettlementOutcome::NoPeople);
    assert_eq!(begin_settlement(&people, &"Dana".to_string()), SettlementStart::NoPeople);
}

#[test]
fn settling_without_a_due_reports_no_due() {
    let mut people = vec![Person::new("Dana", 100)];
    let name = "Dana".to_string();
    assert_eq!(begin_settlement(&people, &name), SettlementStart::NoDue { index: 0 });
    let r = Person::pay_due(&mut people, &name, 100);
    assert_eq!(r, SettlementOutcome::NoDue);
}

#[test]
fn settlement_selects_the_person_by_exact_name() {
    let mut people = vec![Person::new("Dana", 100), Person::new("Erin", 100)];
    people[1].due_amount = 700;
    let erin = "Erin".to_string();
    assert_eq!(find_person(&people, &erin), Some(1));
    assert_eq!(find_person(&people, &"dana".to_string()), None);
    assert_eq!(
        begin_settlement(&people, &erin),
        SettlementStart::HasDue { index: 1, due: 700 }
    );
    let r = Person::pay_due(&mut people, &erin, 700);
    assert_eq!(r, SettlementOutcome::Paid { new_due: 0 });
    assert_eq!(people[1].due_amount, 0);
    assert_eq!(people[0].due_amount, 0);
}

#[test]
fn dues_listing_keeps_collection_order() {
    let mut people = vec![
        Person::new("Dana", 0),
        Person::new("Erin", 0),
        Person::new("Finn", 0),
    ];
    people[0].due_amount = 10;
    people[2].due_amount = 30;
    assert_eq!(people_with_dues(&people), vec![0, 2]);
    people[0].due_amount = 0;
    assert_eq!(people_with_dues(&people), vec![2]);
}

#[test]
fn menu_digits_select_their_actions() {
    assert_eq!(parse_menu_choice("1"), MenuChoice::Buy);
    assert_eq!(parse_menu_choice("2"), MenuChoice::PayDue);
    assert_eq!(parse_menu_choice("3"), MenuChoice::ShowBalances);
    assert_eq!(parse_menu_choice("4"), MenuChoice::Exit);
    assert_eq!(parse_menu_choice("5"), MenuChoice::Invalid);
    assert_eq!(parse_menu_choice(""), MenuChoice::Invalid);
    assert_eq!(parse_menu_choice("12"), MenuChoice::Invalid);
}

#[test]
fn only_the_yes_token_selects_cash() {
    assert!(is_yes("yes"));
    assert!(is_yes("YES"));
    assert!(is_yes("Yes"));
    assert!(is_yes("yEs"));
    assert!(!is_yes("y"));
    assert!(!is_yes("no"));
    assert!(!is_yes(""));
    assert!(!is_yes("yess"));
}

#[test]
fn product_selection_accepts_exactly_the_catalog_range() {
    let products = vec![laptop(), Product { name: "Phone".to_string(), price: 50000 }];
    assert_eq!(select_product(&products, 0), None);
    assert_eq!(select_product(&products, 1), Some(0));
    assert_eq!(select_product(&products, 2), Some(1));
    assert_eq!(select_product(&products, 3), None);
}

#[test]
fn invalid_catalog_selection_is_reported() {
    let mut ledger = Ledger::new();
    let alice = "Alice".to_string();
    assert_eq!(ledger.buy(&alice, 0, true, 0, 0), BuyOutcome::InvalidSelection);
    assert_eq!(ledger.buy(&alice, 3, true, 0, 0), BuyOutcome::InvalidSelection);
    assert_eq!(ledger.people[0].balance, 50000);
}

#[test]
fn credit_needs_positive_rate_and_time() {
    let mut ledger = Ledger::new();
    let alice = "Alice".to_string();
    assert_eq!(ledger.buy(&alice, 1, false, 0, 1), BuyOutcome::InvalidRate);
    assert_eq!(ledger.buy(&alice, 1, false, 10, 0), BuyOutcome::InvalidTime);
    assert_eq!(ledger.people[0].due_amount, 0);
}

#[test]
fn a_charge_beyond_the_machine_range_is_declined() {
    assert_eq!(credit_charge_checked(u64::MAX, 2, 1), None);
    assert_eq!(credit_charge_checked(805, 3, 2), Some(85330));
    let mut ledger = Ledger {
        people: vec![Person::new("Dana", 0)],
        products: vec![Product { name: "Vault".to_string(), price: u64::MAX }],
    };
    let r = ledger.buy(&"Dana".to_string(), 1, false, 1, 1);
    assert_eq!(r, BuyOutcome::AmountOutOfRange);
    assert_eq!(ledger.people[0].due_amount, 0);
}

#[test]
fn digit_strings_parse_exactly_or_not_at_all() {
    assert_eq!(parse_digits("42"), Some(42));
    assert_eq!(parse_digits("0"), Some(0));
    assert_eq!(parse_digits("007"), Some(7));
    assert_eq!(parse_digits(""), None);
    assert_eq!(parse_digits("4x2"), None);
    assert_eq!(parse_digits("-3"), None);
    assert_eq!(parse_digits("18446744073709551615"), Some(u64::MAX));
    assert_eq!(parse_digits("18446744073709551616"), None);
    assert_eq!(parse_digits("99999999999999999999999"), None);
}

#[test]
fn money_strings_parse_to_due_units() {
    assert_eq!(parse_money("880.00"), Some(8_800_000));
    assert_eq!(parse_money("880"), Some(8_800_000));
    assert_eq!(parse_money("880.5"), Some(8_805_000));
    assert_eq!(parse_money("8.05"), Some(80_500));
    assert_eq!(parse_money("0.01"), Some(100));
    assert_eq!(parse_money("0"), Some(0));
    assert_eq!(parse_money(""), None);
    assert_eq!(parse_money("."), None);
    assert_eq!(parse_money(".5"), None);
    assert_eq!(parse_money("5."), None);
    assert_eq!(parse_money("8.123"), None);
    assert_eq!(parse_money("8.0.5"), None);
    assert_eq!(parse_money("abc"), None);
    assert_eq!(parse_money("8,05"), None);
}

#[test]
fn display_conversions_round_only_at_display_time() {
    assert_eq!(due_units_from_cents(88000), 8_800_000);
    assert_eq!(split_cents(50000), (500, 0));
    assert_eq!(split_cents(50001), (500, 1));
    // 1.49 cents of due rounds down, 1.50 rounds up.
    assert_eq!(due_display_cents(149), 1);
    assert_eq!(due_display_cents(150), 2);
    assert_eq!(due_display_cents(8_800_000), 88000);
}

#[test]
fn amounts_render_with_exactly_two_fraction_digits() {
    assert_eq!(u64_string(0), "0");
    assert_eq!(u64_string(42), "42");
    assert_eq!(u64_string(18446744073709551615), "18446744073709551615");
    assert_eq!(cents_string(50000), "500.00");
    assert_eq!(cents_string(5), "0.05");
    assert_eq!(cents_string(880), "8.80");
    assert_eq!(cents_string(due_display_cents(8_800_000)), "880.00");
}
