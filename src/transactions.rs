//! Payment events and the replay of an event stream into account balances.

use std::collections::HashMap;

use crate::account::{is_under_dispute, Account};
use crate::amount::{decimal_ge, Amount};
use vstd::prelude::*;

verus! {

broadcast use vstd::std_specs::hash::group_hash_axioms;

/// What an event does.
#[derive(Clone, Copy, Debug, PartialEq, Eq, Structural)]
pub enum TxKind {
    Deposit,
    Withdrawal,
    Dispute,
    Resolve,
    Chargeback,
    /// A kind this engine does not know; such events change nothing.
    Unknown,
}

/// The kind named by `name`, matched exactly; any other name is `Unknown`.
pub open spec fn kind_named(name: Seq<char>) -> TxKind {
    if name == "deposit"@ {
        TxKind::Deposit
    } else if name == "withdrawal"@ {
        TxKind::Withdrawal
    } else if name == "dispute"@ {
        TxKind::Dispute
    } else if name == "resolve"@ {
        TxKind::Resolve
    } else if name == "chargeback"@ {
        TxKind::Chargeback
    } else {
        TxKind::Unknown
    }
}

/// Whether two strings hold the same characters.
fn same_text(a: &str, b: &str) -> (r: bool)
    ensures
        r == (a@ == b@),
{
    let n = a.unicode_len();
    if n != b.unicode_len() {
        return false;
    }
    let mut i: usize = 0;
    while i < n
        invariant
            n == a@.len(),
            n == b@.len(),
            i <= n,
            forall|j: int| 0 <= j < i ==> a@[j] == b@[j],
        decreases n - i,
    {
        if a.get_char(i) != b.get_char(i) {
            return false;
        }
        i = i + 1;
    }
    assert(a@ =~= b@);
    true
}

impl TxKind {
    /// The kind of an event from its name in the input (`"deposit"`,
    /// `"withdrawal"`, `"dispute"`, `"resolve"`, `"chargeback"`).
    pub fn from_name(name: &str) -> (r: TxKind)
        ensures
            r == kind_named(name@),
    {
        if same_text(name, "deposit") {
            TxKind::Deposit
        } else if same_text(name, "withdrawal") {
            TxKind::Withdrawal
        } else if same_text(name, "dispute") {
            TxKind::Dispute
        } else if same_text(name, "resolve") {
            TxKind::Resolve
        } else if same_text(name, "chargeback") {
            TxKind::Chargeback
        } else {
            TxKind::Unknown
        }
    }
}

/// One payment event. Disputes, resolves and chargebacks name in `tx` the
/// deposit or withdrawal they refer to, and carry no amount of their own.
#[derive(Clone, Copy, Debug)]
pub struct Transaction {
    pub kind: TxKind,
    pub client: u16,
    pub tx: u32,
    pub amount: Amount,
}

/// The record behind an optional reference.
pub open spec fn record_of(t: Option<&Transaction>) -> Option<Transaction> {
    match t {
        Some(r) => Some(*r),
        None => None,
    }
}

/// The entry of `m` under `k`, if any.
pub open spec fn lookup(m: Map<u32, Transaction>, k: u32) -> Option<Transaction> {
    if m.contains_key(k) {
        Some(m[k])
    } else {
        None
    }
}

/// What an event does to the account of its client (`pre` before, `post`
/// after) and to the two tables: the recorded deposits and withdrawals, and
/// the transactions under an open dispute.
pub open spec fn account_event(
    pre: Account,
    t: Transaction,
    records_pre: Map<u32, Transaction>,
    open_pre: Map<u32, Transaction>,
    post: Account,
    records_post: Map<u32, Transaction>,
    open_post: Map<u32, Transaction>,
) -> bool {
    if pre.locked {
        post == pre && records_post == records_pre && open_post == open_pre
    } else {
        match t.kind {
            TxKind::Deposit => {
                &&& Account::deposited(pre, t.amount, post)
                &&& records_post == records_pre.insert(t.tx, t)
                &&& open_post == open_pre
            },
            TxKind::Withdrawal => {
                &&& Account::withdrawn(pre, t.amount, post)
                &&& records_post == if pre.available.value() >= t.amount.value() {
                    records_pre.insert(t.tx, t)
                } else {
                    records_pre
                }
                &&& open_post == open_pre
            },
            TxKind::Dispute => {
                &&& records_post == records_pre
                &&& if records_pre.contains_key(t.tx) && !open_pre.contains_key(t.tx) {
                    &&& open_post == open_pre.insert(t.tx, records_pre[t.tx])
                    &&& Account::disputed(pre, Some(records_pre[t.tx]), post)
                } else {
                    open_post == open_pre && post == pre
                }
            },
            TxKind::Resolve => {
                &&& records_post == records_pre
                &&& Account::resolved(pre, lookup(records_pre, t.tx), open_pre, post, open_post)
            },
            TxKind::Chargeback => {
                &&& records_post == records_pre
                &&& Account::charged_back(pre, lookup(records_pre, t.tx), open_pre, post, open_post)
            },
            TxKind::Unknown => post == pre && records_post == records_pre && open_post == open_pre,
        }
    }
}

/// Every sum and difference that event `t` asks of account `a` is exact,
/// given the recorded transactions `records`.
pub open spec fn event_exact(a: Account, t: Transaction, records: Map<u32, Transaction>) -> bool {
    let amount = records[t.tx].amount;
    match t.kind {
        TxKind::Deposit => a.available.sum_exact(t.amount) && a.total.sum_exact(t.amount),
        TxKind::Withdrawal => a.available.diff_exact(t.amount) && a.total.diff_exact(t.amount),
        TxKind::Dispute => records.contains_key(t.tx) ==> a.available.diff_exact(amount)
            && a.held.sum_exact(amount),
        TxKind::Resolve => records.contains_key(t.tx) ==> a.available.sum_exact(amount)
            && a.held.diff_exact(amount),
        TxKind::Chargeback => records.contains_key(t.tx) ==> a.held.diff_exact(amount)
            && a.total.diff_exact(amount),
        TxKind::Unknown => true,
    }
}

/// The state of a replay: the accounts in order of first appearance, the
/// recorded deposits and withdrawals by id, and the open disputes by id.
pub struct LedgerModel {
    pub accounts: Seq<Account>,
    pub records: Map<u32, Transaction>,
    pub open: Map<u32, Transaction>,
}

impl LedgerModel {
    /// The state before any event.
    pub open spec fn empty() -> LedgerModel {
        LedgerModel { accounts: Seq::empty(), records: Map::empty(), open: Map::empty() }
    }

    /// Balances and amounts in range, one account per client, and each
    /// record filed under its own id.
    pub open spec fn wf(self) -> bool {
        &&& forall|i: int| 0 <= i < self.accounts.len() ==> #[trigger] self.accounts[i].wf()
        &&& forall|i: int, j: int|
            0 <= i < j < self.accounts.len() ==> #[trigger] self.accounts[i].client
                != #[trigger] self.accounts[j].client
        &&& forall|k: u32| #[trigger]
            self.records.contains_key(k) ==> self.records[k].amount.wf() && self.records[k].tx == k
        &&& forall|k: u32| #[trigger]
            self.open.contains_key(k) ==> self.open[k].amount.wf() && self.open[k].tx == k
    }

    pub open spec fn has_client(self, client: u16) -> bool {
        exists|i: int| 0 <= i < self.accounts.len() && #[trigger] self.accounts[i].client == client
    }

    /// The position of the client's account, or the end where it is absent.
    pub open spec fn index_of(self, client: u16) -> int {
        if self.has_client(client) {
            choose|i: int| 0 <= i < self.accounts.len() && #[trigger] self.accounts[i].client == client
        } else {
            self.accounts.len() as int
        }
    }

    /// The client's account, or a fresh one where it has none yet.
    pub open spec fn account_of(self, client: u16) -> Account {
        if self.has_client(client) {
            self.accounts[self.index_of(client)]
        } else {
            Account::fresh(client)
        }
    }

    /// One event: the client's account is created where missing, then
    /// changed as `account_event` says; no other account changes.
    pub open spec fn step(pre: LedgerModel, t: Transaction, post: LedgerModel) -> bool {
        let i = pre.index_of(t.client);
        &&& post.accounts.len() == if pre.has_client(t.client) {
            pre.accounts.len()
        } else {
            pre.accounts.len() + 1
        }
        &&& forall|j: int|
            0 <= j < pre.accounts.len() && j != i ==> #[trigger] post.accounts[j] == pre.accounts[j]
        &&& account_event(
            pre.account_of(t.client),
            t,
            pre.records,
            pre.open,
            post.accounts[i],
            post.records,
            post.open,
        )
    }

    /// `states` is the run of a replay of `events` from the empty state.
    pub open spec fn replays(events: Seq<Transaction>, states: Seq<LedgerModel>) -> bool {
        &&& states.len() == events.len() + 1
        &&& states[0] == LedgerModel::empty()
        &&& forall|i: int|
            0 <= i < events.len() ==> LedgerModel::step(
                #[trigger] states[i],
                events[i],
                states[i + 1],
            )
    }
}

/// The accounts and the two lookup tables of one replay.
pub struct Ledger {
    pub accounts: Vec<Account>,
    pub transactions_by_id: HashMap<u32, Transaction>,
    pub disputed_transactions_by_id: HashMap<u32, Transaction>,
}

impl View for Ledger {
    type V = LedgerModel;

    open spec fn view(&self) -> LedgerModel {
        LedgerModel {
            accounts: self.accounts@,
            records: self.transactions_by_id@,
            open: self.disputed_transactions_by_id@,
        }
    }
}

/// The position of the account of `client`, or `accounts.len()` where there
/// is none.
fn find_account(accounts: &Vec<Account>, client: u16) -> (r: usize)
    ensures
        r <= accounts@.len(),
        r < accounts@.len() ==> accounts@[r as int].client == client,
        r == accounts@.len() ==> forall|i: int|
            0 <= i < accounts@.len() ==> #[trigger] accounts@[i].client != client,
{
    let mut i: usize = 0;
    while i < accounts.len()
        invariant
            i <= accounts@.len(),
            forall|j: int| 0 <= j < i ==> #[trigger] accounts@[j].client != client,
        decreases accounts@.len() - i,
    {
        if accounts[i].client == client {
            return i;
        }
        i = i + 1;
    }
    i
}

impl Ledger {
    /// No accounts and empty tables.
    pub fn new() -> (r: Ledger)
        ensures
            r@ == LedgerModel::empty(),
            r@.wf(),
    {
        let r = Ledger {
            accounts: Vec::new(),
            transactions_by_id: HashMap::new(),
            disputed_transactions_by_id: HashMap::new(),
        };
        assert(r@.accounts =~= Seq::<Account>::empty());
        assert(r@.records =~= Map::<u32, Transaction>::empty());
        assert(r@.open =~= Map::<u32, Transaction>::empty());
        r
    }

    /// Replays one event.
    pub fn apply(&mut self, transaction: &Transaction)
        requires
            old(self)@.wf(),
            transaction.amount.wf(),
        ensures
            final(self)@.wf(),
            LedgerModel::step(old(self)@, *transaction, final(self)@),
    {
        let ghost pre = self@;
        let client = transaction.client;
        let i = find_account(&self.accounts, client);
        if i == self.accounts.len() {
            self.accounts.push(Account::new(client));
        } else {
            assert(pre.accounts[i as int].client == client);
            assert(pre.has_client(client));
            let ghost k = pre.index_of(client);
            assert(pre.accounts[k].client == client);
            assert(k == i as int);
        }
        assert(pre.account_of(client) == self.accounts@[i as int]);
        let mut account = self.accounts[i];
        assert(account.wf());
        if !account.locked {
            match transaction.kind {
                TxKind::Deposit => {
                    account.deposit(transaction.amount);
                    self.transactions_by_id.insert(transaction.tx, *transaction);
                },
                TxKind::Withdrawal => {
                    let enough = decimal_ge(account.available, transaction.amount);
                    account.withdraw(transaction.amount);
                    if enough {
                        self.transactions_by_id.insert(transaction.tx, *transaction);
                    }
                },
                TxKind::Dispute => {
                    if let Some(record) = self.transactions_by_id.get(&transaction.tx) {
                        if !is_under_dispute(transaction.tx, &self.disputed_transactions_by_id) {
                            let record = *record;
                            self.disputed_transactions_by_id.insert(transaction.tx, record);
                            account.dispute(Some(&record));
                        }
                    }
                },
                TxKind::Resolve => {
                    account.resolve(
                        self.transactions_by_id.get(&transaction.tx),
                        &mut self.disputed_transactions_by_id,
                    );
                },
                TxKind::Chargeback => {
                    account.chargeback(
                        self.transactions_by_id.get(&transaction.tx),
                        &mut self.disputed_transactions_by_id,
                    );
                },
                TxKind::Unknown => {},
            }
        }
        assert(account.client == client);
        assert(account.wf());
        self.accounts.set(i, account);
        proof {
            let post = self@;
            assert forall|a: int, b: int|
                0 <= a < b < post.accounts.len() implies #[trigger] post.accounts[a].client
                != #[trigger] post.accounts[b].client by {
                if a != i && b != i {
                    assert(post.accounts[a] == pre.accounts[a]);
                    assert(post.accounts[b] == pre.accounts[b]);
                }
            }
            assert forall|a: int| 0 <= a < post.accounts.len() implies #[trigger]
                post.accounts[a].wf() by {
                if a != i {
                    assert(post.accounts[a] == pre.accounts[a]);
                }
            }
        }
    }
}

/// Replays `transactions` in order from empty tables, and returns every
/// client's final account, in order of first appearance.
pub fn process_transactions(transactions: &Vec<Transaction>) -> (r: Vec<Account>)
    requires
        forall|i: int| 0 <= i < transactions@.len() ==> #[trigger] transactions@[i].amount.wf(),
    ensures
        exists|states: Seq<LedgerModel>|
            LedgerModel::replays(transactions@, states) && r@ == states.last().accounts
                && states.last().wf(),
{
    let mut ledger = Ledger::new();
    let ghost mut states: Seq<LedgerModel> = seq![ledger@];
    let mut n: usize = 0;
    while n < transactions.len()
        invariant
            n <= transactions@.len(),
            forall|i: int| 0 <= i < transactions@.len() ==> #[trigger] transactions@[i].amount.wf(),
            ledger@.wf(),
            states.len() == n + 1,
            states[0] == LedgerModel::empty(),
            states.last() == ledger@,
            forall|i: int|
                0 <= i < n ==> LedgerModel::step(
                    #[trigger] states[i],
                    transactions@[i],
                    states[i + 1],
                ),
        decreases transactions@.len() - n,
    {
        ledger.apply(&transactions[n]);
        proof {
            states = states.push(ledger@);
        }
        n = n + 1;
    }
    assert(LedgerModel::replays(transactions@, states));
    ledger.accounts
}

} // verus!
