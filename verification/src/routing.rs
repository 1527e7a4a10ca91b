//! Which engine handles a transaction when the clients are split between
//! several engines.
use vstd::prelude::*;

use crate::types::Transaction;

verus! {

/// The engine, among `engine_count`, that handles `transaction`: the one
/// numbered by its client id modulo the number of engines. Every transaction
/// of a client goes to the same engine, since it depends on the client alone.
pub fn route_transaction(transaction: &Transaction, engine_count: usize) -> (engine_index: usize)
    requires
        engine_count > 0,
    ensures
        engine_index == transaction.client() as int % engine_count as int,
        engine_index < engine_count,
{
    let client_id = match *transaction {
        Transaction::Deposit { client_id, .. }
        | Transaction::Withdrawal { client_id, .. }
        | Transaction::Dispute { client_id, .. }
        | Transaction::Resolve { client_id, .. }
        | Transaction::Chargeback { client_id, .. } => client_id,
    };
    (client_id as usize) % engine_count
}

} // verus!
