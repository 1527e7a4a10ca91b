//! What holds of the engine across transactions and accounts.
use vstd::prelude::*;

use crate::model::{
    account_or_empty, is_first_dispute, lemma_swap_remove_multiset, first_dispute, has_dispute, held_at_most_once, lemma_first_dispute_found,
    lemma_first_dispute_is, lemma_sum_push,
    lemma_sum_swap_remove, step, swap_remove_at, Accounts, BalanceView,
};
use crate::types::{
    spec_into_transaction, Amount, ClientId, RawTransaction, Rejection, Transaction, TransactionId,
};

verus! {

/// The funds of an account split into held and available funds: together
/// they make up the total.
pub proof fn law_held_plus_available_is_total(b: BalanceView)
    ensures
        b.held() + b.available() == b.total,
{
}

/// A dispute holds the disputed deposit: the available funds fall by its
/// amount, the held funds rise by it, the total stays the same.
pub proof fn law_dispute_holds_funds(b: BalanceView, tid: TransactionId)
    requires
        b.dispute(tid) is Ok,
    ensures
        ({
            let n = b.dispute(tid)->Ok_0;
            let amount = b.undisputed[tid];
            &&& n.total == b.total
            &&& n.held() == b.held() + amount
            &&& n.available() == b.available() - amount
        }),
{
    lemma_sum_push(b.disputed, (tid, b.undisputed[tid]));
}

/// A resolution releases the disputed deposit: the held funds fall by its
/// amount, the available funds rise by it, the total stays the same, and
/// the deposit may be disputed again.
pub proof fn law_resolve_releases_funds(b: BalanceView, tid: TransactionId)
    requires
        b.resolve(tid) is Ok,
    ensures
        ({
            let n = b.resolve(tid)->Ok_0;
            let amount = n.undisputed[tid];
            &&& n.total == b.total
            &&& n.held() == b.held() - amount
            &&& n.available() == b.available() + amount
            &&& n.dispute(tid) is Ok
        }),
{
    let i = first_dispute(b.disputed, tid)->0;
    lemma_sum_swap_remove(b.disputed, i);
}

/// A chargeback withdraws the disputed deposit: the held funds and the
/// total fall by its amount, the available funds stay the same, and the
/// account is locked.
pub proof fn law_chargeback_reverses_deposit(b: BalanceView, tid: TransactionId)
    requires
        b.chargeback(tid) is Ok,
    ensures
        ({
            let n = b.chargeback(tid)->Ok_0;
            let i = first_dispute(b.disputed, tid)->0;
            let amount = b.disputed[i].1;
            &&& n.total == b.total - amount
            &&& n.held() == b.held() - amount
            &&& n.available() == b.available()
            &&& n.locked
        }),
{
    let i = first_dispute(b.disputed, tid)->0;
    lemma_sum_swap_remove(b.disputed, i);
}

/// A resolution undoes a dispute: disputing a deposit that has no open
/// dispute and then resolving it gives back the account as it was.
pub proof fn law_resolve_undoes_dispute(b: BalanceView, tid: TransactionId)
    requires
        b.dispute(tid) is Ok,
        !has_dispute(b.disputed, tid),
    ensures
        b.dispute(tid)->Ok_0.resolve(tid) == Ok::<BalanceView, Rejection>(b),
{
    let n = b.dispute(tid)->Ok_0;
    let last = b.disputed.len() as int;
    assert forall|j: int| 0 <= j < last implies n.disputed[j].0 != tid by {
        assert(n.disputed[j] == b.disputed[j]);
    }
    lemma_first_dispute_is(n.disputed, tid, last);
    assert(swap_remove_at(n.disputed, last) =~= b.disputed);
    assert(n.undisputed.insert(tid, n.disputed[last].1) =~= b.undisputed);
    assert(n.resolve(tid)->Ok_0 =~= b);
}

/// A deposit is never held twice: a dispute keeps every deposit held at
/// most once, and disputing the same deposit again right away is refused
/// and changes nothing.
pub proof fn law_dispute_holds_at_most_once(b: BalanceView, tid: TransactionId)
    requires
        held_at_most_once(b),
    ensures
        b.dispute(tid) matches Ok(n) ==> held_at_most_once(n) && n.dispute(tid) == Err::<
            BalanceView,
            Rejection,
        >(Rejection::UnknownDeposit),
{
    if let Ok(n) = b.dispute(tid) {
        let last = b.disputed.len() as int;
        assert forall|i: int, j: int| 0 <= i < j < n.disputed.len() implies n.disputed[i].0
            != n.disputed[j].0 by {
            if j == last {
                assert(b.undisputed.contains_key(tid));
                assert(!b.undisputed.contains_key(b.disputed[i].0));
            }
        }
        assert forall|i: int| 0 <= i < n.disputed.len() implies !n.undisputed.contains_key(
            #[trigger] n.disputed[i].0,
        ) by {
            if i < last {
                assert(n.disputed[i] == b.disputed[i]);
            }
        }
    }
}

/// A resolution keeps every deposit held at most once.
pub proof fn law_resolve_holds_at_most_once(b: BalanceView, tid: TransactionId)
    requires
        held_at_most_once(b),
    ensures
        b.resolve(tid) matches Ok(n) ==> held_at_most_once(n),
{
    if let Ok(n) = b.resolve(tid) {
        lemma_first_dispute_found(b.disputed, tid);
        let k = first_dispute(b.disputed, tid)->0;
        let s = b.disputed;
        let last = s.len() - 1;
        // every kept entry was an entry of `s` other than the one at `k`
        assert forall|i: int| 0 <= i < n.disputed.len() implies (i != k ==> n.disputed[i] == s[i]) && (
        i == k ==> n.disputed[i] == s[last] && k != last) by {
        }
        assert forall|i: int, j: int| 0 <= i < j < n.disputed.len() implies n.disputed[i].0
            != n.disputed[j].0 by {
            if i == k {
                assert(s[last].0 != s[j].0);
            } else if j == k {
                assert(s[i].0 != s[last].0);
            }
        }
        assert forall|i: int| 0 <= i < n.disputed.len() implies !n.undisputed.contains_key(
            #[trigger] n.disputed[i].0,
        ) by {
            if i == k {
                assert(s[last].0 != s[k].0);
                assert(!b.undisputed.contains_key(s[last].0));
            } else {
                assert(s[i].0 != s[k].0);
                assert(!b.undisputed.contains_key(s[i].0));
            }
        }
    }
}

/// When every deposit is held at most once, a resolution undoes a dispute
/// of an undisputed deposit: the account is back as it was.
pub proof fn law_resolve_undoes_dispute_held_once(b: BalanceView, tid: TransactionId)
    requires
        held_at_most_once(b),
        b.undisputed.contains_key(tid),
    ensures
        b.dispute(tid) is Ok,
        b.dispute(tid)->Ok_0.resolve(tid) == Ok::<BalanceView, Rejection>(b),
{
    assert(!has_dispute(b.disputed, tid));
    law_resolve_undoes_dispute(b, tid);
}

/// A withdrawal never takes more than the available funds: the available
/// funds fall by its amount and stay non-negative.
pub proof fn law_withdrawal_within_available(b: BalanceView, amount: Amount)
    requires
        b.withdraw(amount) is Ok,
    ensures
        b.available() >= amount,
        b.withdraw(amount)->Ok_0.available() == b.available() - amount,
        b.withdraw(amount)->Ok_0.available() >= 0,
{
}

/// Only deposits may be disputed: a withdrawal adds nothing that a dispute
/// could name.
pub proof fn law_withdrawal_not_disputable(b: BalanceView, amount: Amount, tid: TransactionId)
    requires
        b.withdraw(amount) is Ok,
        !b.undisputed.contains_key(tid),
    ensures
        b.withdraw(amount)->Ok_0.dispute(tid) == Err::<BalanceView, Rejection>(
            Rejection::UnknownDeposit,
        ),
{
}

/// A locked account refuses every transaction, and nothing changes.
pub proof fn law_locked_account_refuses_all(m: Accounts, tx: Transaction)
    requires
        m.contains_key(tx.client()),
        m[tx.client()].locked,
    ensures
        step(m, tx).0 == m,
        step(m, tx).1 == Err::<(), Rejection>(Rejection::FrozenAccount),
{
}

/// Once locked, an account stays locked, whatever transaction comes.
pub proof fn law_lock_is_permanent(m: Accounts, tx: Transaction, c: ClientId)
    requires
        m.contains_key(c),
        m[c].locked,
    ensures
        step(m, tx).0.contains_key(c),
        step(m, tx).0[c].locked,
{
}

/// Only a deposit opens an account: any other transaction for a client
/// without an account is refused, and nothing changes.
pub proof fn law_unknown_account_refused(m: Accounts, tx: Transaction)
    requires
        !m.contains_key(tx.client()),
        !(tx is Deposit),
    ensures
        step(m, tx).0 == m,
        step(m, tx).1 == Err::<(), Rejection>(Rejection::UnknownAccount),
{
}

/// Only a deposit opens an account, and no transaction closes one.
pub proof fn law_only_deposit_opens_account(m: Accounts, tx: Transaction, c: ClientId)
    ensures
        m.contains_key(c) ==> step(m, tx).0.contains_key(c),
        !m.contains_key(c) && step(m, tx).0.contains_key(c) ==> tx is Deposit && tx.client() == c,
{
}

/// A refused transaction changes nothing.
pub proof fn law_refused_changes_nothing(m: Accounts, tx: Transaction)
    requires
        step(m, tx).1 is Err,
    ensures
        step(m, tx).0 == m,
{
}

/// A transaction touches the account of its own client only: every other
/// account is left as it was.
pub proof fn law_other_accounts_untouched(m: Accounts, tx: Transaction, c: ClientId)
    requires
        c != tx.client(),
    ensures
        step(m, tx).0.contains_key(c) == m.contains_key(c),
        m.contains_key(c) ==> step(m, tx).0[c] == m[c],
{
}

/// Transactions of different clients commute: applying them in either order
/// gives the same accounts and the same answers. This is what lets the
/// clients be split between engines.
pub proof fn law_different_clients_commute(m: Accounts, t1: Transaction, t2: Transaction)
    requires
        t1.client() != t2.client(),
    ensures
        step(step(m, t1).0, t2).0 == step(step(m, t2).0, t1).0,
        step(step(m, t1).0, t2).1 == step(m, t2).1,
        step(step(m, t2).0, t1).1 == step(m, t1).1,
{
    let c1 = t1.client();
    let c2 = t2.client();
    let m1 = step(m, t1).0;
    let m2 = step(m, t2).0;
    law_other_accounts_untouched(m, t1, c2);
    law_other_accounts_untouched(m, t2, c1);
    assert(m1.contains_key(c2) == m.contains_key(c2));
    assert(m2.contains_key(c1) == m.contains_key(c1));
    assert(step(m1, t2).0 =~= step(m2, t1).0);
}

/// `n` is account `b` after a deposit of `a` under transaction `t`: the
/// total and the available funds rise by `a`, the deposit becomes
/// disputable, and the open disputes, the held funds and the lock stay.
pub open spec fn deposited(b: BalanceView, t: TransactionId, a: Amount, n: BalanceView) -> bool {
    &&& n.total == b.total + a
    &&& n.available() == b.available() + a
    &&& n.held() == b.held()
    &&& n.disputed == b.disputed
    &&& n.undisputed == b.undisputed.insert(t, a)
    &&& n.locked == b.locked
}

/// `n` is account `b` after a withdrawal of `a`: only the total changes,
/// and it falls by `a`.
pub open spec fn withdrawn(b: BalanceView, a: Amount, n: BalanceView) -> bool {
    &&& n.total == b.total - a
    &&& n.available() == b.available() - a
    &&& n.held() == b.held()
    &&& n.disputed == b.disputed
    &&& n.undisputed == b.undisputed
    &&& n.locked == b.locked
}

/// `n` is account `b` after its undisputed deposit `t` was disputed: the
/// deposit is now held, the total and the lock stay.
pub open spec fn disputed(b: BalanceView, t: TransactionId, n: BalanceView) -> bool {
    &&& b.undisputed.contains_key(t)
    &&& n.total == b.total
    &&& n.held() == b.held() + b.undisputed[t]
    &&& n.disputed == b.disputed.push((t, b.undisputed[t]))
    &&& n.undisputed == b.undisputed.remove(t)
    &&& n.locked == b.locked
}

/// `n` is account `b` after the open dispute of `t` at position `i` (the
/// first one for `t`, wherever it stands) was resolved: that dispute alone
/// is closed, its deposit is disputable again, the held funds fall and the
/// available funds rise by its amount, the total and the lock stay.
pub open spec fn resolved(b: BalanceView, t: TransactionId, n: BalanceView) -> bool {
    exists|i: int|
        #![trigger b.disputed[i]]
        {
            let amount = b.disputed[i].1;
            &&& is_first_dispute(b.disputed, t, i)
            &&& n.disputed.to_multiset() == b.disputed.to_multiset().remove(b.disputed[i])
            &&& n.undisputed == b.undisputed.insert(t, amount)
            &&& n.held() == b.held() - amount
            &&& n.available() == b.available() + amount
            &&& n.total == b.total
            &&& n.locked == b.locked
        }
}

/// `n` is account `b` after the open dispute of `t` at position `i` (the
/// first one for `t`, wherever it stands) was charged back: that dispute
/// alone is closed, its amount leaves the total and the held funds, the
/// available funds stay, and the account is locked.
pub open spec fn charged_back(b: BalanceView, t: TransactionId, n: BalanceView) -> bool {
    exists|i: int|
        #![trigger b.disputed[i]]
        {
            let amount = b.disputed[i].1;
            &&& is_first_dispute(b.disputed, t, i)
            &&& n.disputed.to_multiset() == b.disputed.to_multiset().remove(b.disputed[i])
            &&& n.undisputed == b.undisputed
            &&& n.held() == b.held() - amount
            &&& n.available() == b.available()
            &&& n.total == b.total - amount
            &&& n.locked
        }
}

/// A deposit credits the account and leaves every open dispute open.
pub proof fn law_deposit_effect(b: BalanceView, t: TransactionId, a: Amount)
    ensures
        deposited(b, t, a, b.deposit(t, a)),
{
}

/// A withdrawal succeeds exactly when the available funds cover it, and
/// then changes the total only; otherwise it is refused for insufficient
/// funds.
pub proof fn law_withdrawal_effect(b: BalanceView, a: Amount)
    ensures
        b.withdraw(a) is Ok <==> b.available() >= a,
        b.withdraw(a) matches Ok(n) ==> withdrawn(b, a, n),
        b.withdraw(a) matches Err(e) ==> e == Rejection::InsufficientFunds,
{
}

/// A dispute succeeds exactly when the transaction is an undisputed
/// deposit, and then holds it; otherwise it is refused as an unknown deposit.
pub proof fn law_dispute_effect(b: BalanceView, t: TransactionId)
    ensures
        b.dispute(t) is Ok <==> b.undisputed.contains_key(t),
        b.dispute(t) matches Ok(n) ==> disputed(b, t, n),
        b.dispute(t) matches Err(e) ==> e == Rejection::UnknownDeposit,
{
    if b.dispute(t) is Ok {
        lemma_sum_push(b.disputed, (t, b.undisputed[t]));
    }
}

/// A resolution succeeds exactly when the transaction has an open dispute,
/// at whatever position among the open disputes, and then releases it;
/// otherwise it is refused as an unknown dispute.
pub proof fn law_resolve_effect(b: BalanceView, t: TransactionId)
    ensures
        b.resolve(t) is Ok <==> has_dispute(b.disputed, t),
        b.resolve(t) matches Ok(n) ==> resolved(b, t, n),
        b.resolve(t) matches Err(e) ==> e == Rejection::UnknownDispute,
{
    lemma_first_dispute_found(b.disputed, t);
    if let Ok(n) = b.resolve(t) {
        let i = first_dispute(b.disputed, t)->0;
        lemma_sum_swap_remove(b.disputed, i);
        lemma_swap_remove_multiset(b.disputed, i);
        assert(n.disputed.to_multiset() == b.disputed.to_multiset().remove(b.disputed[i]));
    }
}

/// A chargeback succeeds exactly when the transaction has an open dispute,
/// at whatever position among the open disputes, and then reverses it and
/// locks the account; otherwise it is refused as an unknown dispute.
pub proof fn law_chargeback_effect(b: BalanceView, t: TransactionId)
    ensures
        b.chargeback(t) is Ok <==> has_dispute(b.disputed, t),
        b.chargeback(t) matches Ok(n) ==> charged_back(b, t, n),
        b.chargeback(t) matches Err(e) ==> e == Rejection::UnknownDispute,
{
    lemma_first_dispute_found(b.disputed, t);
    if let Ok(n) = b.chargeback(t) {
        let i = first_dispute(b.disputed, t)->0;
        lemma_sum_swap_remove(b.disputed, i);
        lemma_swap_remove_multiset(b.disputed, i);
        assert(n.disputed.to_multiset() == b.disputed.to_multiset().remove(b.disputed[i]));
    }
}

/// What the engine does to the account of the transaction's client, when
/// that account is not locked (a deposit needs no account yet, the other
/// transactions need one): each kind succeeds exactly when its condition
/// holds and then has exactly its effect on that account.
pub proof fn law_engine_transaction_effect(m: Accounts, tx: Transaction)
    requires
        tx is Deposit || m.contains_key(tx.client()),
        !account_or_empty(m, tx.client()).locked,
    ensures
        ({
            let c = tx.client();
            let b = account_or_empty(m, c);
            let (after, answer) = step(m, tx);
            &&& answer is Ok ==> after.contains_key(c)
            &&& match tx {
                Transaction::Deposit { transaction_id, amount, .. } => answer is Ok && deposited(
                    b,
                    transaction_id,
                    amount,
                    after[c],
                ),
                Transaction::Withdrawal { amount, .. } => (answer is Ok <==> b.available()
                    >= amount) && (answer is Ok ==> withdrawn(b, amount, after[c])),
                Transaction::Dispute { transaction_id, .. } => (answer is Ok
                    <==> b.undisputed.contains_key(transaction_id)) && (answer is Ok ==> disputed(
                    b,
                    transaction_id,
                    after[c],
                )),
                Transaction::Resolve { transaction_id, .. } => (answer is Ok <==> has_dispute(
                    b.disputed,
                    transaction_id,
                )) && (answer is Ok ==> resolved(b, transaction_id, after[c])),
                Transaction::Chargeback { transaction_id, .. } => (answer is Ok <==> has_dispute(
                    b.disputed,
                    transaction_id,
                )) && (answer is Ok ==> charged_back(b, transaction_id, after[c])),
            }
        }),
{
    let c = tx.client();
    let b = account_or_empty(m, c);
    match tx {
        Transaction::Deposit { transaction_id, amount, .. } => {
            law_deposit_effect(b, transaction_id, amount);
        },
        Transaction::Withdrawal { amount, .. } => {
            law_withdrawal_effect(b, amount);
        },
        Transaction::Dispute { transaction_id, .. } => {
            law_dispute_effect(b, transaction_id);
        },
        Transaction::Resolve { transaction_id, .. } => {
            law_resolve_effect(b, transaction_id);
        },
        Transaction::Chargeback { transaction_id, .. } => {
            law_chargeback_effect(b, transaction_id);
        },
    }
}

/// Reading a record keeps what it says: a transaction read from a record
/// has the record's kind, client and transaction id, and a deposit or
/// withdrawal has the record's amount. A record is refused exactly when its
/// kind is none of the five, or it is a deposit or withdrawal without an
/// amount.
pub proof fn law_into_transaction_keeps_record(raw: RawTransaction)
    ensures
        spec_into_transaction(raw) matches Ok(t) ==> {
            &&& t.kind_name() == raw.tx_type@
            &&& t.client() == raw.client
            &&& t.id() == raw.tx
            &&& (t is Deposit || t is Withdrawal) ==> t.amount() == raw.amount
        },
        spec_into_transaction(raw) is Err <==> {
            let kind = raw.tx_type@;
            ||| (kind != "deposit"@ && kind != "withdrawal"@ && kind != "dispute"@ && kind
                != "resolve"@ && kind != "chargeback"@)
            ||| ((kind == "deposit"@ || kind == "withdrawal"@) && raw.amount is None)
        },
{
}

/// A fresh account holds nothing: no funds, no disputes, not locked.
pub proof fn law_fresh_account_is_empty()
    ensures
        BalanceView::empty().total == 0,
        BalanceView::empty().held() == 0,
        BalanceView::empty().available() == 0,
        BalanceView::empty().disputed.len() == 0,
        BalanceView::empty().undisputed.dom().is_empty(),
        !BalanceView::empty().locked,
{
    assert(BalanceView::empty().undisputed.dom() =~= Set::<TransactionId>::empty());
}

/// The message of a refused record names the reason and the kind: a
/// missing amount for a deposit or a withdrawal, an unknown kind otherwise.
pub proof fn law_into_transaction_messages(raw: RawTransaction)
    ensures
        spec_into_transaction(raw) matches Err(msg) ==> {
            let kind = raw.tx_type@;
            if kind == "deposit"@ || kind == "withdrawal"@ {
                msg == "Amount is required for "@ + kind
            } else {
                msg == "Unknown transaction type: "@ + kind
            }
        },
{
    reveal_strlit("deposit");
    reveal_strlit("withdrawal");
    reveal_strlit("Amount is required for ");
    reveal_strlit("Amount is required for deposit");
    reveal_strlit("Amount is required for withdrawal");
    assert("Amount is required for deposit"@ =~= "Amount is required for "@ + "deposit"@);
    assert("Amount is required for withdrawal"@ =~= "Amount is required for "@ + "withdrawal"@);
}

} // verus!
