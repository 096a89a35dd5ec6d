use std::collections::HashMap;

use payments_engine::account::{is_under_dispute, Account};
use payments_engine::amount::Amount;
use payments_engine::transactions::{process_transactions, Ledger, Transaction, TxKind};
use rust_decimal::Decimal;

fn amount(s: &str) -> Amount {
    let d = Decimal::from_str_exact(s).unwrap();
    Amount::new(d.mantissa(), d.scale()).unwrap()
}

fn decimal(a: Amount) -> Decimal {
    Decimal::from_i128_with_scale(a.mantissa, a.scale)
}

fn exact(s: &str) -> Decimal {
    Decimal::from_str_exact(s).unwrap()
}

fn event(kind: TxKind, client: u16, tx: u32, value: &str) -> Transaction {
    Transaction { kind, client, tx, amount: amount(value) }
}

fn account_of(client: u16, accounts: &[Account]) -> Account {
    *accounts.iter().find(|a| a.client == client).unwrap()
}

fn scenario_a() -> Vec<Transaction> {
    vec![
        event(TxKind::Deposit, 1, 1, "7"),
        event(TxKind::Deposit, 2, 2, "17"),
        event(TxKind::Deposit, 2, 3, "27"),
    ]
}

fn assert_balances(a: &Account, available: &str, held: &str, total: &str) {
    assert_eq!(decimal(a.available), exact(available));
    assert_eq!(decimal(a.held), exact(held));
    assert_eq!(decimal(a.total), exact(total));
}

#[test]
fn scenario_deposits() {
    let accounts = process_transactions(&scenario_a());
    assert_eq!(accounts.len(), 2);
    assert_balances(&account_of(1, &accounts), "7.00", "0.00", "7.00");
    assert_balances(&account_of(2, &accounts), "44.00", "0.00", "44.00");
}

#[test]
fn scenario_withdrawals() {
    let mut events = scenario_a();
    events.push(event(TxKind::Withdrawal, 2, 4, "15"));
    events.push(event(TxKind::Withdrawal, 2, 5, "25"));
    let accounts = process_transactions(&events);
    assert_balances(&account_of(2, &accounts), "4.00", "0.00", "4.00");
}

#[test]
fn scenario_dispute() {
    let mut events = scenario_a();
    events.push(event(TxKind::Dispute, 2, 2, "0"));
    let accounts = process_transactions(&events);
    assert_balances(&account_of(2, &accounts), "27.00", "17.00", "44.00");
}

#[test]
fn scenario_resolve() {
    let mut events = scenario_a();
    events.push(event(TxKind::Dispute, 2, 2, "0"));
    events.push(event(TxKind::Resolve, 2, 2, "0"));
    let accounts = process_transactions(&events);
    let a = account_of(2, &accounts);
    assert_balances(&a, "44.00", "0.00", "44.00");
    assert!(!a.locked);
}

#[test]
fn scenario_chargeback_then_deposit() {
    let mut events = scenario_a();
    events.push(event(TxKind::Dispute, 2, 2, "0"));
    events.push(event(TxKind::Chargeback, 2, 2, "0"));
    events.push(event(TxKind::Deposit, 2, 9, "100"));
    let accounts = process_transactions(&events);
    let a = account_of(2, &accounts);
    assert_balances(&a, "27.00", "0.00", "27.00");
    assert!(a.locked);
    assert_balances(&account_of(1, &accounts), "7", "0", "7");
}

#[test]
fn dispute_of_unseen_tx_changes_nothing() {
    let mut events = scenario_a();
    events.push(event(TxKind::Dispute, 2, 99, "0"));
    let accounts = process_transactions(&events);
    assert_balances(&account_of(2, &accounts), "44", "0", "44");
}

#[test]
fn balance_holds_at_every_step() {
    let events = vec![
        event(TxKind::Deposit, 3, 1, "10.5"),
        event(TxKind::Withdrawal, 3, 2, "0.25"),
        event(TxKind::Dispute, 3, 1, "0"),
        event(TxKind::Deposit, 3, 3, "1.125"),
        event(TxKind::Resolve, 3, 1, "0"),
        event(TxKind::Dispute, 3, 2, "0"),
        event(TxKind::Chargeback, 3, 2, "0"),
    ];
    let mut ledger = Ledger::new();
    for e in events.iter() {
        ledger.apply(e);
        for a in ledger.accounts.iter() {
            assert_eq!(decimal(a.total), decimal(a.available) + decimal(a.held));
        }
    }
    let a = account_of(3, &ledger.accounts);
    assert_balances(&a, "11.125", "0", "11.125");
    assert!(a.locked);
}

#[test]
fn locked_account_ignores_every_kind() {
    let mut ledger = Ledger::new();
    ledger.apply(&event(TxKind::Deposit, 5, 1, "20"));
    ledger.apply(&event(TxKind::Deposit, 5, 2, "5"));
    ledger.apply(&event(TxKind::Dispute, 5, 1, "0"));
    ledger.apply(&event(TxKind::Dispute, 5, 2, "0"));
    ledger.apply(&event(TxKind::Chargeback, 5, 1, "0"));
    let frozen = account_of(5, &ledger.accounts);
    assert!(frozen.locked);
    assert_balances(&frozen, "0", "5", "5");
    let open_before = ledger.disputed_transactions_by_id.len();
    for kind in [TxKind::Deposit, TxKind::Withdrawal, TxKind::Dispute, TxKind::Resolve, TxKind::Chargeback, TxKind::Unknown] {
        ledger.apply(&event(kind, 5, 2, "1"));
        let a = account_of(5, &ledger.accounts);
        assert_balances(&a, "0", "5", "5");
        assert!(a.locked);
        assert_eq!(ledger.disputed_transactions_by_id.len(), open_before);
        assert!(is_under_dispute(2, &ledger.disputed_transactions_by_id));
    }
}

#[test]
fn second_dispute_in_a_row_is_a_no_op() {
    let mut once = Ledger::new();
    let mut twice = Ledger::new();
    for l in [&mut once, &mut twice] {
        l.apply(&event(TxKind::Deposit, 1, 1, "3.5"));
        l.apply(&event(TxKind::Dispute, 1, 1, "0"));
    }
    twice.apply(&event(TxKind::Dispute, 1, 1, "0"));
    let a = account_of(1, &once.accounts);
    let b = account_of(1, &twice.accounts);
    assert_eq!(decimal(a.available), decimal(b.available));
    assert_eq!(decimal(a.held), decimal(b.held));
    assert_eq!(decimal(a.total), decimal(b.total));
    assert_eq!(once.disputed_transactions_by_id.len(), twice.disputed_transactions_by_id.len());
}

#[test]
fn dispute_then_resolve_restores_balances() {
    let mut ledger = Ledger::new();
    ledger.apply(&event(TxKind::Deposit, 4, 1, "8.75"));
    ledger.apply(&event(TxKind::Deposit, 4, 2, "1.25"));
    let before = account_of(4, &ledger.accounts);
    ledger.apply(&event(TxKind::Dispute, 4, 1, "0"));
    let during = account_of(4, &ledger.accounts);
    assert_balances(&during, "1.25", "8.75", "10.00");
    ledger.apply(&event(TxKind::Resolve, 4, 1, "0"));
    let after = account_of(4, &ledger.accounts);
    assert_eq!(decimal(after.available), decimal(before.available));
    assert_eq!(decimal(after.held), decimal(before.held));
    assert_eq!(decimal(after.total), decimal(before.total));
    assert!(!is_under_dispute(1, &ledger.disputed_transactions_by_id));
}

#[test]
fn disputed_withdrawal_moves_its_amount_to_held() {
    let mut events = vec![event(TxKind::Deposit, 1, 1, "10"), event(TxKind::Withdrawal, 1, 2, "4")];
    events.push(event(TxKind::Dispute, 1, 2, "0"));
    let accounts = process_transactions(&events);
    assert_balances(&account_of(1, &accounts), "2", "4", "6");
}

#[test]
fn failed_withdrawal_cannot_be_disputed() {
    let events = vec![
        event(TxKind::Deposit, 1, 1, "1"),
        event(TxKind::Withdrawal, 1, 2, "5"),
        event(TxKind::Dispute, 1, 2, "0"),
    ];
    let accounts = process_transactions(&events);
    assert_balances(&account_of(1, &accounts), "1", "0", "1");
}

#[test]
fn withdrawal_compares_across_scales() {
    let events = vec![
        event(TxKind::Deposit, 1, 1, "10.0"),
        event(TxKind::Withdrawal, 1, 2, "10.0001"),
        event(TxKind::Withdrawal, 1, 3, "9.99"),
    ];
    let accounts = process_transactions(&events);
    assert_balances(&account_of(1, &accounts), "0.01", "0", "0.01");
}

#[test]
fn deposits_add_exactly_across_scales() {
    let events = vec![
        event(TxKind::Deposit, 1, 1, "1.5"),
        event(TxKind::Deposit, 1, 2, "2.25"),
        event(TxKind::Deposit, 1, 3, "0.0001"),
    ];
    let accounts = process_transactions(&events);
    assert_balances(&account_of(1, &accounts), "3.7501", "0", "3.7501");
}

#[test]
fn unknown_kind_creates_empty_account_only() {
    let events = vec![event(TxKind::from_name("transfer"), 9, 1, "5")];
    let accounts = process_transactions(&events);
    assert_eq!(accounts.len(), 1);
    let a = account_of(9, &accounts);
    assert_balances(&a, "0", "0", "0");
    assert!(!a.locked);
}

#[test]
fn empty_stream_gives_no_accounts() {
    assert!(process_transactions(&Vec::new()).is_empty());
}

#[test]
fn kind_names_match_exactly() {
    assert_eq!(TxKind::from_name("deposit"), TxKind::Deposit);
    assert_eq!(TxKind::from_name("withdrawal"), TxKind::Withdrawal);
    assert_eq!(TxKind::from_name("dispute"), TxKind::Dispute);
    assert_eq!(TxKind::from_name("resolve"), TxKind::Resolve);
    assert_eq!(TxKind::from_name("chargeback"), TxKind::Chargeback);
    assert_eq!(TxKind::from_name("Deposit"), TxKind::Unknown);
    assert_eq!(TxKind::from_name("deposits"), TxKind::Unknown);
    assert_eq!(TxKind::from_name(""), TxKind::Unknown);
}

#[test]
fn amount_range_is_checked() {
    assert!(Amount::new(1, 28).is_some());
    assert!(Amount::new(1, 29).is_none());
    assert!(Amount::new(0xFFFF_FFFF_FFFF_FFFF_FFFF_FFFF, 0).is_some());
    assert!(Amount::new(0x1_0000_0000_0000_0000_0000_0000, 0).is_none());
    assert!(Amount::new(-0x1_0000_0000_0000_0000_0000_0000, 0).is_none());
    let z = Amount::zero();
    assert_eq!((z.mantissa, z.scale), (0, 0));
}

#[test]
fn account_methods_follow_the_rules() {
    let mut a = Account::new(7);
    assert!(!a.locked);
    a.deposit(amount("12.5"));
    a.withdraw(amount("20"));
    assert_balances(&a, "12.5", "0", "12.5");
    a.withdraw(amount("2.5"));
    assert_balances(&a, "10", "0", "10");
    let record = event(TxKind::Deposit, 7, 1, "4");
    a.dispute(None);
    assert_balances(&a, "10", "0", "10");
    a.dispute(Some(&record));
    assert_balances(&a, "6", "4", "10");
    let mut open: HashMap<u32, Transaction> = HashMap::new();
    a.resolve(Some(&record), &mut open);
    assert_balances(&a, "6", "4", "10");
    open.insert(1, record);
    a.chargeback(Some(&record), &mut open);
    assert_balances(&a, "6", "0", "6");
    assert!(a.locked);
    assert!(open.is_empty());
    a.deposit(amount("1"));
    assert_balances(&a, "6", "0", "6");
}
