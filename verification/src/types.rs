use vstd::prelude::*;
use vstd::string::StringExecFns;

verus! {

/// Identifier of a transaction, as given by the input.
pub type TransactionId = u32;

/// Identifier of a client account.
pub type ClientId = u16;

/// An amount of money in ten-thousandths of a currency unit:
/// `1.2324` is stored as `12324`.
pub type Amount = i64;

/// A transaction as the engine processes it.
#[derive(Debug, Clone, Copy, PartialEq, Eq, Structural)]
pub enum Transaction {
    Deposit { transaction_id: TransactionId, client_id: ClientId, amount: Amount },
    Withdrawal { transaction_id: TransactionId, client_id: ClientId, amount: Amount },
    Dispute { transaction_id: TransactionId, client_id: ClientId },
    Resolve { transaction_id: TransactionId, client_id: ClientId },
    Chargeback { transaction_id: TransactionId, client_id: ClientId },
}

impl Transaction {
    /// The client whose account the transaction refers to.
    pub open spec fn client(self) -> ClientId {
        match self {
            Transaction::Deposit { client_id, .. } => client_id,
            Transaction::Withdrawal { client_id, .. } => client_id,
            Transaction::Dispute { client_id, .. } => client_id,
            Transaction::Resolve { client_id, .. } => client_id,
            Transaction::Chargeback { client_id, .. } => client_id,
        }
    }
}

impl Transaction {
    /// The transaction id the transaction carries.
    pub open spec fn id(self) -> TransactionId {
        match self {
            Transaction::Deposit { transaction_id, .. } => transaction_id,
            Transaction::Withdrawal { transaction_id, .. } => transaction_id,
            Transaction::Dispute { transaction_id, .. } => transaction_id,
            Transaction::Resolve { transaction_id, .. } => transaction_id,
            Transaction::Chargeback { transaction_id, .. } => transaction_id,
        }
    }

    /// The amount of a deposit or a withdrawal; nothing for the others.
    pub open spec fn amount(self) -> Option<Amount> {
        match self {
            Transaction::Deposit { amount, .. } => Some(amount),
            Transaction::Withdrawal { amount, .. } => Some(amount),
            _ => None,
        }
    }

    /// The name of the kind of transaction, as the input writes it.
    pub open spec fn kind_name(self) -> Seq<char> {
        match self {
            Transaction::Deposit { .. } => "deposit"@,
            Transaction::Withdrawal { .. } => "withdrawal"@,
            Transaction::Dispute { .. } => "dispute"@,
            Transaction::Resolve { .. } => "resolve"@,
            Transaction::Chargeback { .. } => "chargeback"@,
        }
    }
}

/// Why the engine refused a transaction.
#[derive(Debug, Clone, Copy, PartialEq, Eq, Structural)]
pub enum Rejection {
    /// The account is locked after a chargeback.
    FrozenAccount,
    /// No account exists for the client.
    UnknownAccount,
    /// The available funds are less than the withdrawal.
    InsufficientFunds,
    /// No undisputed deposit has the transaction id.
    UnknownDeposit,
    /// No open dispute has the transaction id.
    UnknownDispute,
}

/// One input record before it is checked: the kind of transaction as text,
/// the client, the transaction id and the optional amount, already counted
/// in ten-thousandths.
pub struct RawTransaction {
    pub tx_type: String,
    pub client: ClientId,
    pub tx: TransactionId,
    pub amount: Option<Amount>,
}

/// What `into_transaction` gives for a record: the transaction, or the
/// message that explains why the record is refused.
pub open spec fn spec_into_transaction(raw: RawTransaction) -> Result<Transaction, Seq<char>> {
    let kind = raw.tx_type@;
    if kind == "deposit"@ {
        match raw.amount {
            Some(amount) => Ok(
                Transaction::Deposit { transaction_id: raw.tx, client_id: raw.client, amount },
            ),
            None => Err("Amount is required for deposit"@),
        }
    } else if kind == "withdrawal"@ {
        match raw.amount {
            Some(amount) => Ok(
                Transaction::Withdrawal { transaction_id: raw.tx, client_id: raw.client, amount },
            ),
            None => Err("Amount is required for withdrawal"@),
        }
    } else if kind == "dispute"@ {
        Ok(Transaction::Dispute { transaction_id: raw.tx, client_id: raw.client })
    } else if kind == "resolve"@ {
        Ok(Transaction::Resolve { transaction_id: raw.tx, client_id: raw.client })
    } else if kind == "chargeback"@ {
        Ok(Transaction::Chargeback { transaction_id: raw.tx, client_id: raw.client })
    } else {
        Err("Unknown transaction type: "@ + kind)
    }
}

impl RawTransaction {
    /// Turns the record into a transaction. Deposits and withdrawals need an
    /// amount; disputes, resolutions and chargebacks ignore it. Any other
    /// kind is refused.
    pub fn into_transaction(self) -> (result: Result<Transaction, String>)
        ensures
            match (result, spec_into_transaction(self)) {
                (Ok(t), Ok(u)) => t == u,
                (Err(msg), Err(m)) => msg@ == m,
                _ => false,
            },
    {
        let kind = self.tx_type;
        if kind == String::from_str("deposit") {
            match self.amount {
                Some(amount) => Ok(
                    Transaction::Deposit { transaction_id: self.tx, client_id: self.client, amount },
                ),
                None => Err(String::from_str("Amount is required for deposit")),
            }
        } else if kind == String::from_str("withdrawal") {
            match self.amount {
                Some(amount) => Ok(
                    Transaction::Withdrawal {
                        transaction_id: self.tx,
                        client_id: self.client,
                        amount,
                    },
                ),
                None => Err(String::from_str("Amount is required for withdrawal")),
            }
        } else if kind == String::from_str("dispute") {
            Ok(Transaction::Dispute { transaction_id: self.tx, client_id: self.client })
        } else if kind == String::from_str("resolve") {
            Ok(Transaction::Resolve { transaction_id: self.tx, client_id: self.client })
        } else if kind == String::from_str("chargeback") {
            Ok(Transaction::Chargeback { transaction_id: self.tx, client_id: self.client })
        } else {
            let mut msg = String::from_str("Unknown transaction type: ");
            msg.append(kind.as_str());
            Err(msg)
        }
    }
}

} // verus!
