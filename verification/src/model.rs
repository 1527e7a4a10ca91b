//! The mathematical model of balances and of the engine: what each kind of
//! transaction does to the accounts, stated over maps and sequences.
use vstd::prelude::*;

use crate::types::{Amount, ClientId, Rejection, Transaction, TransactionId};

verus! {

/// A disputed deposit: its transaction id and its amount.
pub type Disputed = (TransactionId, Amount);

/// The sum of the amounts of a list of disputed deposits.
pub open spec fn sum_amounts(s: Seq<Disputed>) -> int
    decreases s.len(),
{
    if s.len() == 0 {
        0
    } else {
        sum_amounts(s.drop_last()) + s.last().1
    }
}

/// `i` is the first position of `s` that holds transaction `tid`.
pub open spec fn is_first_dispute(s: Seq<Disputed>, tid: TransactionId, i: int) -> bool {
    &&& 0 <= i < s.len()
    &&& s[i].0 == tid
    &&& forall|j: int| 0 <= j < i ==> s[j].0 != tid
}

/// `s` holds transaction `tid` somewhere.
pub open spec fn has_dispute(s: Seq<Disputed>, tid: TransactionId) -> bool {
    exists|i: int| 0 <= i < s.len() && s[i].0 == tid
}

/// The first position of `s` that holds transaction `tid`, if any.
pub open spec fn first_dispute(s: Seq<Disputed>, tid: TransactionId) -> Option<int> {
    if exists|i: int| is_first_dispute(s, tid, i) {
        Some(choose|i: int| is_first_dispute(s, tid, i))
    } else {
        None
    }
}

/// `s` with position `i` removed by moving the last element into its place.
pub open spec fn swap_remove_at(s: Seq<Disputed>, i: int) -> Seq<Disputed> {
    s.update(i, s.last()).drop_last()
}

/// The value `n` is an `Amount`.
pub open spec fn in_amount_range(n: int) -> bool {
    i64::MIN <= n <= i64::MAX
}

/// The abstract state of one client's account.
#[verifier::ext_equal]
pub struct BalanceView {
    /// All funds of the account, held or not.
    pub total: int,
    /// A locked account refuses every further transaction.
    pub locked: bool,
    /// Deposits under dispute, in the order the engine keeps them.
    pub disputed: Seq<Disputed>,
    /// Deposits that may still be disputed, by transaction id.
    pub undisputed: Map<TransactionId, Amount>,
}

impl BalanceView {
    /// A fresh account: no funds, no deposits, not locked.
    pub open spec fn empty() -> BalanceView {
        BalanceView {
            total: 0,
            locked: false,
            disputed: Seq::empty(),
            undisputed: Map::empty(),
        }
    }

    /// Funds held by open disputes.
    pub open spec fn held(self) -> int {
        sum_amounts(self.disputed)
    }

    /// Funds that may be withdrawn: all funds but the held ones.
    pub open spec fn available(self) -> int {
        self.total - self.held()
    }

    /// A deposit adds its amount and becomes disputable.
    pub open spec fn deposit(self, tid: TransactionId, amount: Amount) -> BalanceView {
        BalanceView {
            total: self.total + amount,
            locked: self.locked,
            disputed: self.disputed,
            undisputed: self.undisputed.insert(tid, amount),
        }
    }

    /// A withdrawal takes its amount from the available funds, if they suffice.
    pub open spec fn withdraw(self, amount: Amount) -> Result<BalanceView, Rejection> {
        if self.available() < amount {
            Err(Rejection::InsufficientFunds)
        } else {
            Ok(
                BalanceView {
                    total: self.total - amount,
                    locked: self.locked,
                    disputed: self.disputed,
                    undisputed: self.undisputed,
                },
            )
        }
    }

    /// A dispute moves an undisputed deposit to the disputed ones.
    pub open spec fn dispute(self, tid: TransactionId) -> Result<BalanceView, Rejection> {
        if self.undisputed.contains_key(tid) {
            Ok(
                BalanceView {
                    total: self.total,
                    locked: self.locked,
                    disputed: self.disputed.push((tid, self.undisputed[tid])),
                    undisputed: self.undisputed.remove(tid),
                },
            )
        } else {
            Err(Rejection::UnknownDeposit)
        }
    }

    /// A resolution moves the first dispute of the transaction back to the
    /// undisputed deposits.
    pub open spec fn resolve(self, tid: TransactionId) -> Result<BalanceView, Rejection> {
        match first_dispute(self.disputed, tid) {
            Some(i) => Ok(
                BalanceView {
                    total: self.total,
                    locked: self.locked,
                    disputed: swap_remove_at(self.disputed, i),
                    undisputed: self.undisputed.insert(tid, self.disputed[i].1),
                },
            ),
            None => Err(Rejection::UnknownDispute),
        }
    }

    /// A chargeback drops the first dispute of the transaction, takes its
    /// amount from the funds and locks the account.
    pub open spec fn chargeback(self, tid: TransactionId) -> Result<BalanceView, Rejection> {
        match first_dispute(self.disputed, tid) {
            Some(i) => Ok(
                BalanceView {
                    total: self.total - self.disputed[i].1,
                    locked: true,
                    disputed: swap_remove_at(self.disputed, i),
                    undisputed: self.undisputed,
                },
            ),
            None => Err(Rejection::UnknownDispute),
        }
    }
}

/// Each deposit is held at most once: the disputed transaction ids are
/// pairwise distinct, and none of them is also an undisputed deposit.
pub open spec fn held_at_most_once(b: BalanceView) -> bool {
    &&& forall|i: int, j: int|
        0 <= i < j < b.disputed.len() ==> b.disputed[i].0 != b.disputed[j].0
    &&& forall|i: int| 0 <= i < b.disputed.len() ==> !b.undisputed.contains_key(#[trigger] b.disputed[i].0)
}

/// The abstract state of an engine: the accounts by client.
pub type Accounts = Map<ClientId, BalanceView>;

/// The account of `cid`, or a fresh one where there is none yet.
pub open spec fn account_or_empty(m: Accounts, cid: ClientId) -> BalanceView {
    if m.contains_key(cid) {
        m[cid]
    } else {
        BalanceView::empty()
    }
}

/// What a transaction does to an unlocked account of its client.
pub open spec fn apply_to_account(b: BalanceView, tx: Transaction) -> Result<BalanceView, Rejection> {
    match tx {
        Transaction::Deposit { transaction_id, amount, .. } => Ok(b.deposit(transaction_id, amount)),
        Transaction::Withdrawal { amount, .. } => b.withdraw(amount),
        Transaction::Dispute { transaction_id, .. } => b.dispute(transaction_id),
        Transaction::Resolve { transaction_id, .. } => b.resolve(transaction_id),
        Transaction::Chargeback { transaction_id, .. } => b.chargeback(transaction_id),
    }
}

/// What the engine does with one transaction: the accounts afterwards, and
/// whether the transaction was applied or why it was refused.
///
/// A deposit opens the account when there is none. Any other transaction
/// needs an existing account. A locked account refuses everything. A refused
/// transaction changes nothing.
pub open spec fn step(m: Accounts, tx: Transaction) -> (Accounts, Result<(), Rejection>) {
    let cid = tx.client();
    match tx {
        Transaction::Deposit { transaction_id, amount, .. } => {
            let b = account_or_empty(m, cid);
            if b.locked {
                (m, Err(Rejection::FrozenAccount))
            } else {
                (m.insert(cid, b.deposit(transaction_id, amount)), Ok(()))
            }
        },
        _ => {
            if !m.contains_key(cid) {
                (m, Err(Rejection::UnknownAccount))
            } else if m[cid].locked {
                (m, Err(Rejection::FrozenAccount))
            } else {
                match apply_to_account(m[cid], tx) {
                    Ok(b) => (m.insert(cid, b), Ok(())),
                    Err(e) => (m, Err(e)),
                }
            }
        },
    }
}

/// The new total balance that `tx` would store fits in an `Amount`
/// (where it would be stored at all).
pub open spec fn step_fits(m: Accounts, tx: Transaction) -> bool {
    let next = step(m, tx);
    next.1 is Ok && next.0.contains_key(tx.client()) ==> in_amount_range(
        next.0[tx.client()].total,
    )
}

/// The sum grows by the amount of a pushed dispute.
pub proof fn lemma_sum_push(s: Seq<Disputed>, x: Disputed)
    ensures
        sum_amounts(s.push(x)) == sum_amounts(s) + x.1,
{
    assert(s.push(x).drop_last() =~= s);
}

/// Replacing one element changes the sum by the difference of the amounts.
pub proof fn lemma_sum_update(s: Seq<Disputed>, i: int, v: Disputed)
    requires
        0 <= i < s.len(),
    ensures
        sum_amounts(s.update(i, v)) == sum_amounts(s) - s[i].1 + v.1,
    decreases s.len(),
{
    if i == s.len() - 1 {
        assert(s.update(i, v).drop_last() =~= s.drop_last());
    } else {
        lemma_sum_update(s.drop_last(), i, v);
        assert(s.update(i, v).drop_last() =~= s.drop_last().update(i, v));
    }
}

/// Removing a dispute lowers the sum by its amount.
pub proof fn lemma_sum_swap_remove(s: Seq<Disputed>, i: int)
    requires
        0 <= i < s.len(),
    ensures
        sum_amounts(swap_remove_at(s, i)) == sum_amounts(s) - s[i].1,
{
    let t = s.update(i, s.last());
    lemma_sum_update(s, i, s.last());
    assert(t.last() == s.last());
}

/// Removing position `i` by a swap removes exactly the element at `i`,
/// counted with multiplicity.
pub proof fn lemma_swap_remove_multiset(s: Seq<Disputed>, i: int)
    requires
        0 <= i < s.len(),
    ensures
        swap_remove_at(s, i).to_multiset() =~= s.to_multiset().remove(s[i]),
{
    broadcast use vstd::seq_lib::group_to_multiset_ensures;
    broadcast use vstd::multiset::group_multiset_axioms;
    broadcast use vstd::seq_lib::to_multiset_update;

    let u = s.update(i, s.last());
    let n = s.len() - 1;
    assert(u.drop_last() =~= u.remove(n));
    assert(u[n] == s.last());
    assert(u.to_multiset() == s.to_multiset().insert(s.last()).remove(s[i]));
    assert(u.remove(n).to_multiset() == u.to_multiset().remove(u[n]));
    assert(s.to_multiset().count(s[i]) > 0) by {
        assert(s.contains(s[i]));
    }
    assert(u.remove(n).to_multiset() =~= s.to_multiset().remove(s[i]));
}

/// The first position of a transaction is the one that `first_dispute` names.
pub proof fn lemma_first_dispute_is(s: Seq<Disputed>, tid: TransactionId, i: int)
    requires
        is_first_dispute(s, tid, i),
    ensures
        first_dispute(s, tid) == Some(i),
{
    let k = choose|k: int| is_first_dispute(s, tid, k);
    assert(is_first_dispute(s, tid, k));
    if k < i {
        assert(s[k].0 != tid);
    } else if i < k {
        assert(s[i].0 != tid);
    }
}

/// A sequence that holds a transaction has a first position of it.
pub proof fn lemma_first_dispute_found(s: Seq<Disputed>, tid: TransactionId)
    ensures
        first_dispute(s, tid) is Some <==> has_dispute(s, tid),
        first_dispute(s, tid) matches Some(i) ==> is_first_dispute(s, tid, i),
    decreases s.len(),
{
    if has_dispute(s, tid) {
        let w = choose|w: int| 0 <= w < s.len() && s[w].0 == tid;
        if s.len() > 0 && s[0].0 == tid {
            lemma_first_dispute_is(s, tid, 0);
        } else {
            let t = s.drop_first();
            assert(t[w - 1].0 == tid);
            lemma_first_dispute_found(t, tid);
            let j = first_dispute(t, tid)->0;
            assert forall|k: int| 0 <= k < j + 1 implies s[k].0 != tid by {
                if k > 0 {
                    assert(s[k] == t[k - 1]);
                }
            }
            lemma_first_dispute_is(s, tid, j + 1);
        }
    } else {
        if exists|i: int| is_first_dispute(s, tid, i) {
            let i = choose|i: int| is_first_dispute(s, tid, i);
            assert(s[i].0 == tid);
        }
    }
}

} // verus!
