//! Client balances and the engine that applies transactions to them.
use vstd::prelude::*;

use std::collections::hash_map::Entry;
use std::collections::HashMap;
use vstd::std_specs::iter::IteratorSpec;

use crate::model::{
    account_or_empty, first_dispute, in_amount_range, lemma_first_dispute_found,
    lemma_first_dispute_is, step, step_fits, sum_amounts, Accounts, BalanceView, Disputed,
};
use crate::types::{Amount, ClientId, Rejection, Transaction, TransactionId};

verus! {

broadcast use vstd::std_specs::hash::group_hash_axioms;

/// The account of one client. Held and available funds are not stored: they
/// follow from the total and the disputed deposits, so they cannot drift
/// apart.
pub struct Balance {
    total_balance: Amount,
    is_locked: bool,
    disputed_deposits: Vec<(TransactionId, Amount)>,
    undisputed_deposits: HashMap<TransactionId, Amount>,
}

impl View for Balance {
    type V = BalanceView;

    closed spec fn view(&self) -> BalanceView {
        BalanceView {
            total: self.total_balance as int,
            locked: self.is_locked,
            disputed: self.disputed_deposits@,
            undisputed: self.undisputed_deposits@,
        }
    }
}

/// The funds of one client as reported, in ten-thousandths.
#[derive(Debug, Clone, Copy, PartialEq, Eq)]
pub struct BalanceReportRecord {
    pub client: ClientId,
    pub available: i128,
    pub held: i128,
    pub total: Amount,
    pub locked: bool,
}

/// `r` reports account `b` of client `cid`.
pub open spec fn reports(r: BalanceReportRecord, cid: ClientId, b: BalanceView) -> bool {
    &&& r.client == cid
    &&& r.available == b.available()
    &&& r.held == b.held()
    &&& r.total == b.total
    &&& r.locked == b.locked
}

/// What the balance operations hand back, next to the new balance.
pub open spec fn settle(b: BalanceView, res: Result<BalanceView, Rejection>) -> (
    BalanceView,
    Result<(), Rejection>,
) {
    match res {
        Ok(n) => (n, Ok(())),
        Err(e) => (b, Err(e)),
    }
}

impl Balance {
    /// A fresh account: no funds, no deposits, not locked.
    pub fn new() -> (balance: Self)
        ensures
            balance@ == BalanceView::empty(),
    {
        Balance {
            total_balance: 0,
            is_locked: false,
            disputed_deposits: Vec::new(),
            undisputed_deposits: HashMap::new(),
        }
    }

    /// Funds that may be withdrawn: the total less the held funds.
    fn available_funds(&self) -> (available: i128)
        ensures
            available == self@.available(),
    {
        let held = self.held_funds();
        let count = self.disputed_deposits.len();
        proof {
            self.lemma_held_bounds();
            assert(count == self.disputed_deposits@.len());
        }
        self.total_balance as i128 - held
    }

    /// The sum of the disputed deposits stays within the bounds that their
    /// number allows.
    proof fn lemma_held_bounds(&self)
        ensures
            -(self.disputed_deposits@.len() as int) * 0x8000_0000_0000_0000 <= self@.held(),
            self@.held() <= (self.disputed_deposits@.len() as int) * 0x7fff_ffff_ffff_ffff,
    {
        lemma_sum_bounds(self.disputed_deposits@);
    }

    /// Funds held by open disputes: the sum of the disputed deposits.
    fn held_funds(&self) -> (held: i128)
        ensures
            held == self@.held(),
    {
        let n = self.disputed_deposits.len();
        let mut acc: i128 = 0;
        let mut i: usize = 0;
        while i < n
            invariant
                n == self.disputed_deposits@.len(),
                0 <= i <= n,
                acc == sum_amounts(self.disputed_deposits@.take(i as int)),
                -(i as int) * 0x8000_0000_0000_0000 <= acc <= (i as int) * 0x7fff_ffff_ffff_ffff,
            decreases n - i,
        {
            let (_, amount) = self.disputed_deposits[i];
            assert(self.disputed_deposits@.take(i + 1).drop_last() =~= self.disputed_deposits@.take(
                i as int,
            ));
            acc = acc + amount as i128;
            i = i + 1;
        }
        assert(self.disputed_deposits@.take(n as int) =~= self.disputed_deposits@);
        acc
    }

    /// The report of this account for client `client_id`.
    pub fn as_report(&self, client_id: ClientId) -> (record: BalanceReportRecord)
        ensures
            reports(record, client_id, self@),
    {
        BalanceReportRecord {
            client: client_id,
            available: self.available_funds(),
            held: self.held_funds(),
            total: self.total_balance,
            locked: self.is_locked,
        }
    }
}

/// The sum of a list of disputes is bounded by its length.
proof fn lemma_sum_bounds(s: Seq<Disputed>)
    ensures
        -(s.len() as int) * 0x8000_0000_0000_0000 <= sum_amounts(s) <= (s.len() as int)
            * 0x7fff_ffff_ffff_ffff,
    decreases s.len(),
{
    if s.len() > 0 {
        lemma_sum_bounds(s.drop_last());
    }
}

/// The first position of `disputed` that holds `transaction_id`.
fn position_of_dispute(disputed: &Vec<(TransactionId, Amount)>, transaction_id: TransactionId) -> (pos:
    Option<usize>)
    ensures
        match pos {
            Some(i) => first_dispute(disputed@, transaction_id) == Some(i as int),
            None => first_dispute(disputed@, transaction_id) is None,
        },
{
    let n = disputed.len();
    let mut i: usize = 0;
    while i < n
        invariant
            n == disputed@.len(),
            0 <= i <= n,
            forall|j: int| 0 <= j < i ==> disputed@[j].0 != transaction_id,
        decreases n - i,
    {
        if disputed[i].0 == transaction_id {
            proof {
                lemma_first_dispute_is(disputed@, transaction_id, i as int);
            }
            return Some(i);
        }
        i = i + 1;
    }
    proof {
        lemma_first_dispute_found(disputed@, transaction_id);
    }
    None
}

/// Takes `amount` from the account if its available funds suffice.
fn process_withdrawal(balance: &mut Balance, amount: Amount) -> (result: Result<(), Rejection>)
    requires
        old(balance)@.withdraw(amount) matches Ok(b) ==> in_amount_range(b.total),
    ensures
        (final(balance)@, result) == settle(old(balance)@, old(balance)@.withdraw(amount)),
{
    if balance.available_funds() < amount as i128 {
        return Err(Rejection::InsufficientFunds);
    }
    balance.total_balance = balance.total_balance - amount;
    Ok(())
}

/// Moves the undisputed deposit `transaction_id` to the disputed ones.
fn process_dispute(balance: &mut Balance, transaction_id: TransactionId) -> (result: Result<
    (),
    Rejection,
>)
    ensures
        (final(balance)@, result) == settle(old(balance)@, old(balance)@.dispute(transaction_id)),
{
    match balance.undisputed_deposits.remove(&transaction_id) {
        Some(deposit) => {
            balance.disputed_deposits.push((transaction_id, deposit));
            Ok(())
        },
        None => Err(Rejection::UnknownDeposit),
    }
}

/// Moves the first dispute of `transaction_id` back to the undisputed deposits.
fn process_resolve(balance: &mut Balance, transaction_id: TransactionId) -> (result: Result<
    (),
    Rejection,
>)
    ensures
        (final(balance)@, result) == settle(old(balance)@, old(balance)@.resolve(transaction_id)),
{
    match position_of_dispute(&balance.disputed_deposits, transaction_id) {
        Some(pos) => {
            let (_, amount) = balance.disputed_deposits.swap_remove(pos);
            balance.undisputed_deposits.insert(transaction_id, amount);
            Ok(())
        },
        None => Err(Rejection::UnknownDispute),
    }
}

/// Drops the first dispute of `transaction_id`, takes its amount from the
/// total and locks the account.
fn process_chargeback(balance: &mut Balance, transaction_id: TransactionId) -> (result: Result<
    (),
    Rejection,
>)
    requires
        old(balance)@.chargeback(transaction_id) matches Ok(b) ==> in_amount_range(b.total),
    ensures
        (final(balance)@, result) == settle(
            old(balance)@,
            old(balance)@.chargeback(transaction_id),
        ),
{
    match position_of_dispute(&balance.disputed_deposits, transaction_id) {
        Some(pos) => {
            let (_, amount) = balance.disputed_deposits.swap_remove(pos);
            balance.total_balance = balance.total_balance - amount;
            balance.is_locked = true;
            Ok(())
        },
        None => Err(Rejection::UnknownDispute),
    }
}

/// A transaction that needs an existing, unlocked account, without its
/// client and transaction id.
enum BalanceOp {
    Withdrawal(Amount),
    Dispute,
    Resolve,
    Chargeback,
}

impl BalanceOp {
    /// What the operation does to an unlocked account.
    spec fn spec_apply(self, b: BalanceView, transaction_id: TransactionId) -> Result<
        BalanceView,
        Rejection,
    > {
        match self {
            BalanceOp::Withdrawal(amount) => b.withdraw(amount),
            BalanceOp::Dispute => b.dispute(transaction_id),
            BalanceOp::Resolve => b.resolve(transaction_id),
            BalanceOp::Chargeback => b.chargeback(transaction_id),
        }
    }
}

/// Applies the transactions of many clients, one account per client.
pub struct Engine {
    balances: HashMap<ClientId, Balance>,
}

impl View for Engine {
    type V = Accounts;

    closed spec fn view(&self) -> Accounts {
        self.balances@.map_values(|b: Balance| b@)
    }
}

impl Engine {
    /// An engine without accounts.
    pub fn new() -> (engine: Self)
        ensures
            engine@ == Map::<ClientId, BalanceView>::empty(),
    {
        let engine = Engine { balances: HashMap::new() };
        assert(engine@ =~= Map::<ClientId, BalanceView>::empty());
        engine
    }

    /// One record per account, in no particular order.
    pub fn report(&self) -> (records: Vec<BalanceReportRecord>)
        ensures
            records@.len() == self@.dom().len(),
            forall|i: int|
                0 <= i < records@.len() ==> self@.contains_key(#[trigger] records@[i].client)
                    && reports(records@[i], records@[i].client, self@[records@[i].client]),
            forall|i: int, j: int|
                0 <= i < j < records@.len() ==> records@[i].client != records@[j].client,
            forall|c: ClientId|
                self@.contains_key(c) ==> exists|i: int|
                    0 <= i < records@.len() && #[trigger] records@[i].client == c,
    {
        let mut records: Vec<BalanceReportRecord> = Vec::new();
        let ghost pairs = vstd::std_specs::hash::spec_hash_map_iter(&self.balances).remaining();
        assert(self@.dom() =~= self.balances@.dom());
        for (client_id, balance) in it: self.balances.iter()
            invariant
                it.seq() == pairs,
                pairs.len() == self@.dom().len(),
                pairs.no_duplicates(),
                records@.len() == it.index(),
                forall|i: int|
                    0 <= i < records@.len() ==> reports(
                        #[trigger] records@[i],
                        *pairs[i].0,
                        (*pairs[i].1)@,
                    ),
                forall|i: int, j: int|
                    0 <= i < j < records@.len() ==> records@[i].client != records@[j].client,
        {
            proof {
                let k = it.index();
                assert forall|i: int| 0 <= i < k implies records@[i].client != *client_id by {
                    assert(pairs[i] != pairs[k]);
                    assert(self.balances@.contains_key(*pairs[i].0));
                    assert(self.balances@.contains_key(*pairs[k].0));
                }
            }
            records.push(balance.as_report(*client_id));
        }
        assert forall|c: ClientId| self@.contains_key(c) implies exists|i: int|
            0 <= i < records@.len() && #[trigger] records@[i].client == c by {
            assert(self.balances@.contains_key(c));
            assert(pairs.contains((&c, &self.balances@[c])));
            let idx = choose|idx: int| 0 <= idx < pairs.len() && pairs[idx] == (&c, &self.balances@[c]);
            assert(records@[idx].client == c);
        }
        records
    }

    /// Whether the total balance that `transaction` would store fits in an
    /// `Amount`, that is, whether `process_transaction` may be called with it.
    pub fn total_stays_in_range(&self, transaction: &Transaction) -> (fits: bool)
        ensures
            fits == step_fits(self@, *transaction),
    {
        proof {
            self.lemma_totals_in_range();
        }
        match *transaction {
            Transaction::Deposit { client_id, amount, .. } => match self.balances.get(&client_id) {
                Some(balance) => balance.is_locked || balance.total_balance.checked_add(
                    amount,
                ).is_some(),
                None => true,
            },
            Transaction::Withdrawal { client_id, amount, .. } => match self.balances.get(
                &client_id,
            ) {
                Some(balance) => balance.is_locked || balance.available_funds() < amount as i128
                    || balance.total_balance.checked_sub(amount).is_some(),
                None => true,
            },
            Transaction::Dispute { .. } => true,
            Transaction::Resolve { .. } => true,
            Transaction::Chargeback { client_id, transaction_id } => match self.balances.get(
                &client_id,
            ) {
                Some(balance) => {
                    if balance.is_locked {
                        true
                    } else {
                        match position_of_dispute(&balance.disputed_deposits, transaction_id) {
                            Some(pos) => balance.total_balance.checked_sub(
                                balance.disputed_deposits[pos].1,
                            ).is_some(),
                            None => true,
                        }
                    }
                },
                None => true,
            },
        }
    }

    /// Every account total is an `Amount`.
    proof fn lemma_totals_in_range(&self)
        ensures
            forall|c: ClientId| #[trigger]
                self@.contains_key(c) ==> in_amount_range(self@[c].total),
    {
        assert forall|c: ClientId| #[trigger] self@.contains_key(c) implies in_amount_range(
            self@[c].total,
        ) by {
            assert(self.balances@.contains_key(c));
            assert(self@[c] == self.balances@[c]@);
        }
    }

    /// Applies one transaction: `step` says what becomes of the accounts and
    /// what is answered. The new total of the account must fit in an `Amount`.
    pub fn process_transaction(&mut self, transaction: Transaction) -> (result: Result<
        (),
        Rejection,
    >)
        requires
            step_fits(old(self)@, transaction),
        ensures
            final(self)@ == step(old(self)@, transaction).0,
            result == step(old(self)@, transaction).1,
    {
        match transaction {
            Transaction::Deposit { transaction_id, client_id, amount } => {
                self.process_deposit(client_id, transaction_id, amount)
            },
            Transaction::Withdrawal { transaction_id, client_id, amount } => {
                self.with_unlocked_balance(client_id, transaction_id, BalanceOp::Withdrawal(amount))
            },
            Transaction::Dispute { transaction_id, client_id } => {
                self.with_unlocked_balance(client_id, transaction_id, BalanceOp::Dispute)
            },
            Transaction::Resolve { transaction_id, client_id } => {
                self.with_unlocked_balance(client_id, transaction_id, BalanceOp::Resolve)
            },
            Transaction::Chargeback { transaction_id, client_id } => {
                self.with_unlocked_balance(client_id, transaction_id, BalanceOp::Chargeback)
            },
        }
    }

    /// Credits a deposit, opening the account if there is none; refused on a
    /// locked account.
    fn process_deposit(
        &mut self,
        client_id: ClientId,
        transaction_id: TransactionId,
        amount: Amount,
    ) -> (result: Result<(), Rejection>)
        requires
            !account_or_empty(old(self)@, client_id).locked ==> in_amount_range(
                account_or_empty(old(self)@, client_id).total + amount,
            ),
        ensures
            final(self)@ == step(
                old(self)@,
                Transaction::Deposit { transaction_id, client_id, amount },
            ).0,
            result == step(old(self)@, Transaction::Deposit { transaction_id, client_id, amount }).1,
    {
        let ghost old_balances = self.balances@;
        let balance = self.balances.entry(client_id).or_insert(Balance::new());
        if balance.is_locked {
            proof {
                assert(old_balances.contains_key(client_id));
            }
            assert(self.balances@ =~= old_balances.insert(client_id, old_balances[client_id]));
            assert(self@ =~= old(self)@);
            return Err(Rejection::FrozenAccount);
        }
        balance.total_balance = balance.total_balance + amount;
        balance.undisputed_deposits.insert(transaction_id, amount);
        assert(self@ =~= old(self)@.insert(
            client_id,
            account_or_empty(old(self)@, client_id).deposit(transaction_id, amount),
        ));
        Ok(())
    }

    /// Applies `op` to the account of `client_id` when it exists and is not
    /// locked; otherwise refuses it and changes nothing.
    fn with_unlocked_balance(
        &mut self,
        client_id: ClientId,
        transaction_id: TransactionId,
        op: BalanceOp,
    ) -> (result: Result<(), Rejection>)
        requires
            old(self)@.contains_key(client_id) && !old(self)@[client_id].locked
                ==> (op.spec_apply(old(self)@[client_id], transaction_id) matches Ok(b)
                ==> in_amount_range(b.total)),
        ensures
            !old(self)@.contains_key(client_id) ==> final(self)@ == old(self)@ && result == Err::<
                (),
                Rejection,
            >(Rejection::UnknownAccount),
            old(self)@.contains_key(client_id) && old(self)@[client_id].locked ==> final(self)@
                == old(self)@ && result == Err::<(), Rejection>(Rejection::FrozenAccount),
            old(self)@.contains_key(client_id) && !old(self)@[client_id].locked ==> match op.spec_apply(
                old(self)@[client_id],
                transaction_id,
            ) {
                Ok(b) => final(self)@ == old(self)@.insert(client_id, b) && result == Ok::<
                    (),
                    Rejection,
                >(()),
                Err(e) => final(self)@ == old(self)@ && result == Err::<(), Rejection>(e),
            },
    {
        let ghost old_balances = self.balances@;
        match self.balances.entry(client_id) {
            Entry::Occupied(mut occupied) => {
                let balance = occupied.get_mut();
                if balance.is_locked {
                    assert(self.balances@ =~= old_balances.insert(
                        client_id,
                        old_balances[client_id],
                    ));
                    assert(self@ =~= old(self)@);
                    return Err(Rejection::FrozenAccount);
                }
                let result = match op {
                    BalanceOp::Withdrawal(amount) => process_withdrawal(balance, amount),
                    BalanceOp::Dispute => process_dispute(balance, transaction_id),
                    BalanceOp::Resolve => process_resolve(balance, transaction_id),
                    BalanceOp::Chargeback => process_chargeback(balance, transaction_id),
                };
                let ghost before = old(self)@[client_id];
                assert(self@ =~= old(self)@.insert(
                    client_id,
                    settle(before, op.spec_apply(before, transaction_id)).0,
                ));
                proof {
                    if result is Err {
                        assert(old(self)@.insert(client_id, old(self)@[client_id]) =~= old(self)@);
                    }
                }
                result
            },
            Entry::Vacant(_) => {
                assert(self.balances@ =~= old_balances);
                assert(self@ =~= old(self)@);
                Err(Rejection::UnknownAccount)
            },
        }
    }
}

} // verus!
