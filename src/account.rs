//! One client's balances and the rules by which each event changes them.

use std::collections::HashMap;

use crate::amount::{decimal_add, decimal_ge, decimal_sub, Amount};
use crate::transactions::{record_of, Transaction};
use vstd::prelude::*;

verus! {

broadcast use vstd::std_specs::hash::group_hash_axioms;

/// The balances of one client.
#[derive(Clone, Copy, Debug)]
pub struct Account {
    pub client: u16,
    pub available: Amount,
    pub held: Amount,
    pub total: Amount,
    pub locked: bool,
}

impl Account {
    /// Every balance is within a decimal's range.
    pub open spec fn wf(self) -> bool {
        &&& self.available.wf()
        &&& self.held.wf()
        &&& self.total.wf()
    }

    /// The total is what is available plus what is held.
    pub open spec fn balanced(self) -> bool {
        self.total.value() == self.available.value() + self.held.value()
    }

    /// A fresh account: nothing in it, not locked.
    pub open spec fn fresh(client: u16) -> Account {
        Account {
            client,
            available: Amount { mantissa: 0, scale: 0 },
            held: Amount { mantissa: 0, scale: 0 },
            total: Amount { mantissa: 0, scale: 0 },
            locked: false,
        }
    }

    /// The outcome of a deposit of `amount` on `pre`.
    pub open spec fn deposited(pre: Account, amount: Amount, post: Account) -> bool {
        if pre.locked {
            post == pre
        } else {
            &&& post.wf()
            &&& post.client == pre.client
            &&& post.held == pre.held
            &&& !post.locked
            &&& pre.available.sum_exact(amount) && pre.total.sum_exact(amount) ==> {
                &&& post.available.value() == pre.available.value() + amount.value()
                &&& post.total.value() == pre.total.value() + amount.value()
            }
        }
    }

    /// The outcome of a withdrawal of `amount` from `pre`: nothing happens
    /// when less than `amount` is available.
    pub open spec fn withdrawn(pre: Account, amount: Amount, post: Account) -> bool {
        if pre.locked || pre.available.value() < amount.value() {
            post == pre
        } else {
            &&& post.wf()
            &&& post.client == pre.client
            &&& post.held == pre.held
            &&& !post.locked
            &&& pre.available.diff_exact(amount) && pre.total.diff_exact(amount) ==> {
                &&& post.available.value() == pre.available.value() - amount.value()
                &&& post.total.value() == pre.total.value() - amount.value()
            }
        }
    }

    /// The outcome of a dispute of the recorded transaction `t`: its amount
    /// moves from available to held.
    pub open spec fn disputed(pre: Account, t: Option<Transaction>, post: Account) -> bool {
        if pre.locked || t is None {
            post == pre
        } else {
            let amount = t.unwrap().amount;
            &&& post.wf()
            &&& post.client == pre.client
            &&& post.total == pre.total
            &&& !post.locked
            &&& pre.available.diff_exact(amount) && pre.held.sum_exact(amount) ==> {
                &&& post.available.value() == pre.available.value() - amount.value()
                &&& post.held.value() == pre.held.value() + amount.value()
            }
        }
    }

    /// Whether a resolve or a chargeback of `t` takes effect: the account is
    /// not locked and `t` is under dispute.
    pub open spec fn settles(pre: Account, t: Option<Transaction>, open: Map<u32, Transaction>) -> bool {
        !pre.locked && t is Some && open.contains_key(t.unwrap().tx)
    }

    /// The outcome of resolving the dispute of `t`: its amount moves back
    /// from held to available, and the dispute is closed.
    pub open spec fn resolved(
        pre: Account,
        t: Option<Transaction>,
        open_pre: Map<u32, Transaction>,
        post: Account,
        open_post: Map<u32, Transaction>,
    ) -> bool {
        if !Account::settles(pre, t, open_pre) {
            post == pre && open_post == open_pre
        } else {
            let amount = t.unwrap().amount;
            &&& open_post == open_pre.remove(t.unwrap().tx)
            &&& post.wf()
            &&& post.client == pre.client
            &&& post.total == pre.total
            &&& !post.locked
            &&& pre.available.sum_exact(amount) && pre.held.diff_exact(amount) ==> {
                &&& post.available.value() == pre.available.value() + amount.value()
                &&& post.held.value() == pre.held.value() - amount.value()
            }
        }
    }

    /// The outcome of a chargeback of `t`: its amount leaves held and total,
    /// the dispute is closed and the account is locked for good.
    pub open spec fn charged_back(
        pre: Account,
        t: Option<Transaction>,
        open_pre: Map<u32, Transaction>,
        post: Account,
        open_post: Map<u32, Transaction>,
    ) -> bool {
        if !Account::settles(pre, t, open_pre) {
            post == pre && open_post == open_pre
        } else {
            let amount = t.unwrap().amount;
            &&& open_post == open_pre.remove(t.unwrap().tx)
            &&& post.wf()
            &&& post.client == pre.client
            &&& post.available == pre.available
            &&& post.locked
            &&& pre.held.diff_exact(amount) && pre.total.diff_exact(amount) ==> {
                &&& post.held.value() == pre.held.value() - amount.value()
                &&& post.total.value() == pre.total.value() - amount.value()
            }
        }
    }

    /// An empty, unlocked account for `client`.
    pub fn new(client: u16) -> (r: Account)
        ensures
            r == Account::fresh(client),
            r.wf(),
            r.balanced(),
            r.available.value() == 0,
            r.held.value() == 0,
            r.total.value() == 0,
    {
        Account {
            client,
            available: Amount::zero(),
            held: Amount::zero(),
            total: Amount::zero(),
            locked: false,
        }
    }

    /// Adds `amount` to available and total, unless the account is locked.
    pub fn deposit(&mut self, amount: Amount)
        requires
            old(self).wf(),
            amount.wf(),
        ensures
            Account::deposited(*old(self), amount, *final(self)),
    {
        if self.locked {
            return;
        }
        let available = decimal_add(self.available, amount);
        let total = decimal_add(self.total, amount);
        if let (Some(a), Some(t)) = (available, total) {
            self.available = a;
            self.total = t;
        }
    }

    /// Takes `amount` from available and total when that much is available
    /// and the account is not locked; otherwise does nothing.
    pub fn withdraw(&mut self, amount: Amount)
        requires
            old(self).wf(),
            amount.wf(),
        ensures
            Account::withdrawn(*old(self), amount, *final(self)),
    {
        if self.locked {
            return;
        }
        if decimal_ge(self.available, amount) {
            let available = decimal_sub(self.available, amount);
            let total = decimal_sub(self.total, amount);
            if let (Some(a), Some(t)) = (available, total) {
                self.available = a;
                self.total = t;
            }
        }
    }

    /// Holds the amount of the recorded transaction `transaction`, if any.
    pub fn dispute(&mut self, transaction: Option<&Transaction>)
        requires
            old(self).wf(),
            transaction matches Some(t) ==> t.amount.wf(),
        ensures
            Account::disputed(*old(self), record_of(transaction), *final(self)),
    {
        if self.locked {
            return;
        }
        if let Some(t) = transaction {
            let available = decimal_sub(self.available, t.amount);
            let held = decimal_add(self.held, t.amount);
            if let (Some(a), Some(h)) = (available, held) {
                self.available = a;
                self.held = h;
            }
        }
    }

    /// Releases the held amount of `transaction` when it is under dispute,
    /// and closes the dispute.
    pub fn resolve(
        &mut self,
        transaction: Option<&Transaction>,
        disputed_transactions_by_id: &mut HashMap<u32, Transaction>,
    )
        requires
            old(self).wf(),
            transaction matches Some(t) ==> t.amount.wf(),
        ensures
            Account::resolved(
                *old(self),
                record_of(transaction),
                old(disputed_transactions_by_id)@,
                *final(self),
                final(disputed_transactions_by_id)@,
            ),
    {
        if self.locked {
            return;
        }
        if let Some(t) = transaction {
            if !is_under_dispute(t.tx, disputed_transactions_by_id) {
                return;
            }
            let available = decimal_add(self.available, t.amount);
            let held = decimal_sub(self.held, t.amount);
            if let (Some(a), Some(h)) = (available, held) {
                self.available = a;
                self.held = h;
            }
            disputed_transactions_by_id.remove(&t.tx);
        }
    }

    /// Removes the held amount of `transaction` when it is under dispute,
    /// closes the dispute and locks the account.
    pub fn chargeback(
        &mut self,
        transaction: Option<&Transaction>,
        disputed_transactions_by_id: &mut HashMap<u32, Transaction>,
    )
        requires
            old(self).wf(),
            transaction matches Some(t) ==> t.amount.wf(),
        ensures
            Account::charged_back(
                *old(self),
                record_of(transaction),
                old(disputed_transactions_by_id)@,
                *final(self),
                final(disputed_transactions_by_id)@,
            ),
    {
        if self.locked {
            return;
        }
        if let Some(t) = transaction {
            if !is_under_dispute(t.tx, disputed_transactions_by_id) {
                return;
            }
            let held = decimal_sub(self.held, t.amount);
            let total = decimal_sub(self.total, t.amount);
            if let (Some(h), Some(t)) = (held, total) {
                self.held = h;
                self.total = t;
            }
            self.locked = true;
            disputed_transactions_by_id.remove(&t.tx);
        }
    }
}

/// Whether `tx_id` is under an open dispute.
pub fn is_under_dispute(tx_id: u32, disputed_transactions_by_id: &HashMap<u32, Transaction>) -> (r:
    bool)
    ensures
        r == disputed_transactions_by_id@.contains_key(tx_id),
{
    disputed_transactions_by_id.contains_key(&tx_id)
}

} // verus!
