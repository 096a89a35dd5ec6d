//! What holds of every replay: balances stay consistent, locked accounts stay
//! frozen, a repeated dispute changes nothing, and a resolve undoes a dispute.

use crate::transactions::{event_exact, LedgerModel, Transaction, TxKind};
use vstd::prelude::*;

verus! {

/// In a well-formed state each client has one account, at `index_of`.
proof fn lemma_index_of(s: LedgerModel, k: int)
    requires
        s.wf(),
        0 <= k < s.accounts.len(),
    ensures
        s.has_client(s.accounts[k].client),
        s.index_of(s.accounts[k].client) == k,
        s.account_of(s.accounts[k].client) == s.accounts[k],
{
    let c = s.accounts[k].client;
    assert(s.accounts[k].client == c);
    let j = s.index_of(c);
    assert(s.accounts[j].client == c);
    if j < k {
        assert(s.accounts[j].client != s.accounts[k].client);
    } else if k < j {
        assert(s.accounts[k].client != s.accounts[j].client);
    }
}

/// One event keeps a state well formed, when its amount is in range.
pub proof fn lemma_step_keeps_wf(pre: LedgerModel, t: Transaction, post: LedgerModel)
    requires
        pre.wf(),
        t.amount.wf(),
        LedgerModel::step(pre, t, post),
    ensures
        post.wf(),
{
    let i = pre.index_of(t.client);
    if pre.has_client(t.client) {
        assert(pre.accounts[i].client == t.client);
    }
    let a = pre.account_of(t.client);
    assert(a.wf());
    assert(post.accounts[i].client == t.client);
    assert forall|x: int, y: int|
        0 <= x < y < post.accounts.len() implies #[trigger] post.accounts[x].client
        != #[trigger] post.accounts[y].client by {
        if x != i && y != i {
            assert(post.accounts[x] == pre.accounts[x]);
            assert(post.accounts[y] == pre.accounts[y]);
        } else if x == i {
            assert(post.accounts[y] == pre.accounts[y]);
            if pre.has_client(t.client) {
                lemma_index_of(pre, y);
            }
        } else {
            assert(post.accounts[x] == pre.accounts[x]);
            if pre.has_client(t.client) {
                lemma_index_of(pre, x);
            }
        }
    }
    assert forall|x: int| 0 <= x < post.accounts.len() implies #[trigger] post.accounts[x].wf() by {
        if x != i {
            assert(post.accounts[x] == pre.accounts[x]);
        }
    }
}

/// Through any event whose arithmetic is exact, every account keeps
/// `total == available + held`.
pub proof fn lemma_step_keeps_balance(pre: LedgerModel, t: Transaction, post: LedgerModel)
    requires
        LedgerModel::step(pre, t, post),
        forall|j: int| 0 <= j < pre.accounts.len() ==> #[trigger] pre.accounts[j].balanced(),
        event_exact(pre.account_of(t.client), t, pre.records),
    ensures
        forall|j: int| 0 <= j < post.accounts.len() ==> #[trigger] post.accounts[j].balanced(),
{
    let i = pre.index_of(t.client);
    if pre.has_client(t.client) {
        assert(pre.accounts[i].client == t.client);
        assert(pre.accounts[i].balanced());
    }
    assert(pre.account_of(t.client).balanced());
    assert forall|j: int| 0 <= j < post.accounts.len() implies #[trigger]
        post.accounts[j].balanced() by {
        if j != i {
            assert(post.accounts[j] == pre.accounts[j]);
        }
    }
}

/// Over a whole replay in which every event's arithmetic is exact, every
/// account is balanced in every state.
pub proof fn lemma_replay_keeps_balance(events: Seq<Transaction>, states: Seq<LedgerModel>)
    requires
        LedgerModel::replays(events, states),
        forall|i: int|
            0 <= i < events.len() ==> event_exact(
                #[trigger] states[i].account_of(events[i].client),
                events[i],
                states[i].records,
            ),
    ensures
        forall|k: int, j: int|
            0 <= k < states.len() && 0 <= j < states[k].accounts.len() ==> #[trigger] states[k].accounts[j].balanced(),
{
    assert forall|k: int, j: int|
        0 <= k < states.len() && 0 <= j < states[k].accounts.len() implies #[trigger]
        states[k].accounts[j].balanced() by {
        lemma_prefix_balanced(events, states, k);
    }
}

proof fn lemma_prefix_balanced(events: Seq<Transaction>, states: Seq<LedgerModel>, k: int)
    requires
        LedgerModel::replays(events, states),
        forall|i: int|
            0 <= i < events.len() ==> event_exact(
                #[trigger] states[i].account_of(events[i].client),
                events[i],
                states[i].records,
            ),
        0 <= k < states.len(),
    ensures
        forall|j: int| 0 <= j < states[k].accounts.len() ==> #[trigger] states[k].accounts[j].balanced(),
    decreases k,
{
    if k > 0 {
        lemma_prefix_balanced(events, states, k - 1);
        assert(LedgerModel::step(states[k - 1], events[k - 1], states[k]));
        assert(event_exact(states[k - 1].account_of(events[k - 1].client), events[k - 1], states[k - 1].records));
        lemma_step_keeps_balance(states[k - 1], events[k - 1], states[k]);
    }
}

/// A locked account is frozen: no event changes it, and an event of its
/// client changes neither lookup table.
pub proof fn lemma_locked_account_frozen(pre: LedgerModel, t: Transaction, post: LedgerModel, k: int)
    requires
        pre.wf(),
        LedgerModel::step(pre, t, post),
        0 <= k < pre.accounts.len(),
        pre.accounts[k].locked,
    ensures
        post.accounts[k] == pre.accounts[k],
        t.client == pre.accounts[k].client ==> post.records == pre.records && post.open == pre.open,
{
    lemma_index_of(pre, k);
    if t.client == pre.accounts[k].client {
        assert(pre.index_of(t.client) == k);
    } else if pre.has_client(t.client) {
        let i = pre.index_of(t.client);
        assert(pre.accounts[i].client == t.client);
    }
}

/// Every state of a replay whose amounts are in range is well formed.
pub proof fn lemma_replay_keeps_wf(events: Seq<Transaction>, states: Seq<LedgerModel>, k: int)
    requires
        LedgerModel::replays(events, states),
        forall|i: int| 0 <= i < events.len() ==> #[trigger] events[i].amount.wf(),
        0 <= k < states.len(),
    ensures
        states[k].wf(),
    decreases k,
{
    if k == 0 {
        assert(states[0].accounts =~= Seq::<crate::account::Account>::empty());
    } else {
        lemma_replay_keeps_wf(events, states, k - 1);
        assert(LedgerModel::step(states[k - 1], events[k - 1], states[k]));
        assert(events[k - 1].amount.wf());
        lemma_step_keeps_wf(states[k - 1], events[k - 1], states[k]);
    }
}

/// Once an account is locked at some point of a replay, it stays exactly
/// as it is in every later state.
pub proof fn lemma_replay_locked_frozen(
    events: Seq<Transaction>,
    states: Seq<LedgerModel>,
    k: int,
    m: int,
    j: int,
)
    requires
        LedgerModel::replays(events, states),
        forall|i: int| 0 <= i < events.len() ==> #[trigger] events[i].amount.wf(),
        0 <= k <= m < states.len(),
        0 <= j < states[k].accounts.len(),
        states[k].accounts[j].locked,
    ensures
        j < states[m].accounts.len(),
        states[m].accounts[j] == states[k].accounts[j],
    decreases m - k,
{
    if m > k {
        lemma_replay_locked_frozen(events, states, k, m - 1, j);
        lemma_replay_keeps_wf(events, states, m - 1);
        assert(LedgerModel::step(states[m - 1], events[m - 1], states[m]));
        lemma_locked_account_frozen(states[m - 1], events[m - 1], states[m], j);
    }
}

/// Disputing the same transaction twice in a row has the effect of
/// disputing it once.
pub proof fn lemma_dispute_idempotent(
    s0: LedgerModel,
    t: Transaction,
    s1: LedgerModel,
    s2: LedgerModel,
)
    requires
        s0.wf(),
        t.amount.wf(),
        t.kind == TxKind::Dispute,
        LedgerModel::step(s0, t, s1),
        LedgerModel::step(s1, t, s2),
    ensures
        s2 == s1,
{
    lemma_step_keeps_wf(s0, t, s1);
    let i = s0.index_of(t.client);
    if s0.has_client(t.client) {
        assert(s0.accounts[i].client == t.client);
    }
    assert(s1.accounts[i].client == t.client);
    lemma_index_of(s1, i);
    assert(s2.accounts =~= s1.accounts);
    assert(s2.records =~= s1.records);
    assert(s2.open =~= s1.open);
}

/// A dispute followed at once by the resolve of the same transaction gives
/// back the available and held balances of before the dispute, when that
/// transaction was not already under dispute and the arithmetic is exact;
/// the total never changes.
pub proof fn lemma_dispute_resolve_round_trip(
    s0: LedgerModel,
    d: Transaction,
    s1: LedgerModel,
    r: Transaction,
    s2: LedgerModel,
)
    requires
        s0.wf(),
        d.amount.wf(),
        d.kind == TxKind::Dispute,
        r.kind == TxKind::Resolve,
        r.client == d.client,
        r.tx == d.tx,
        !s0.open.contains_key(d.tx),
        LedgerModel::step(s0, d, s1),
        LedgerModel::step(s1, r, s2),
        event_exact(s0.account_of(d.client), d, s0.records),
        event_exact(s1.account_of(r.client), r, s1.records),
    ensures
        s2.account_of(d.client).available.value() == s0.account_of(d.client).available.value(),
        s2.account_of(d.client).held.value() == s0.account_of(d.client).held.value(),
        s1.account_of(d.client).total == s0.account_of(d.client).total,
        s2.account_of(d.client).total == s0.account_of(d.client).total,
{
    lemma_step_keeps_wf(s0, d, s1);
    let i = s0.index_of(d.client);
    if s0.has_client(d.client) {
        assert(s0.accounts[i].client == d.client);
    }
    assert(s1.accounts[i].client == d.client);
    lemma_index_of(s1, i);
    assert(s2.accounts[i].client == d.client);
    assert(s2.accounts.len() == s1.accounts.len());
    assert forall|x: int, y: int|
        0 <= x < y < s2.accounts.len() implies #[trigger] s2.accounts[x].client
        != #[trigger] s2.accounts[y].client by {
        if x != i && y != i {
            assert(s2.accounts[x] == s1.accounts[x]);
            assert(s2.accounts[y] == s1.accounts[y]);
        } else if x == i {
            assert(s2.accounts[y] == s1.accounts[y]);
            lemma_index_of(s1, y);
        } else {
            assert(s2.accounts[x] == s1.accounts[x]);
            lemma_index_of(s1, x);
        }
    }
    assert(s2.accounts[i].client == d.client);
    assert(s2.has_client(d.client));
    let j = s2.index_of(d.client);
    assert(s2.accounts[j].client == d.client);
    if j != i {
        if j < i {
            assert(s2.accounts[j].client != s2.accounts[i].client);
        } else {
            assert(s2.accounts[i].client != s2.accounts[j].client);
        }
    }
}

} // verus!
