use rex::engine::Engine;
use rex::types::Transaction;

/// An amount in ten-thousandths, in currency units.
fn money(v: impl Into<i128>) -> f64 {
    v.into() as f64 / 10000.0
}

fn create_deposit(client_id: u16, transaction_id: u32, amount: i64) -> Transaction {
    Transaction::Deposit {
        client_id,
        transaction_id,
        amount,
    }
}

fn create_withdrawal(client_id: u16, transaction_id: u32, amount: i64) -> Transaction {
    Transaction::Withdrawal {
        client_id,
        transaction_id,
        amount,
    }
}

fn create_dispute(client_id: u16, transaction_id: u32) -> Transaction {
    Transaction::Dispute {
        client_id,
        transaction_id,
    }
}

fn create_resolve(client_id: u16, transaction_id: u32) -> Transaction {
    Transaction::Resolve {
        client_id,
        transaction_id,
    }
}

fn create_chargeback(client_id: u16, transaction_id: u32) -> Transaction {
    Transaction::Chargeback {
        client_id,
        transaction_id,
    }
}

#[test]
fn test_three_deposits_one_disputed() {
    let mut engine = Engine::new();
    let client_id = 1;

    // 3 deposits: $100, $200, $300
    let _ = engine.process_transaction(create_deposit(client_id, 1, 1000000));
    let _ = engine.process_transaction(create_deposit(client_id, 2, 2000000));
    let _ = engine.process_transaction(create_deposit(client_id, 3, 3000000));

    // Dispute deposit #2 ($200)
    let _ = engine.process_transaction(create_dispute(client_id, 2));

    let report = engine.report();
    assert_eq!(report.len(), 1);
    let record = &report[0];
    assert_eq!(record.client, client_id);
    assert_eq!(money(record.total), 600.0); // $100 + $200 + $300
    assert_eq!(money(record.held), 200.0); // $200 held (disputed)
    assert_eq!(money(record.available), 400.0); // $600 - $200
    assert!(!record.locked);
}

#[test]
fn test_three_deposits_one_disputed_and_resolved() {
    let mut engine = Engine::new();
    let client_id = 1;

    // 3 deposits: $100, $200, $300
    let _ = engine.process_transaction(create_deposit(client_id, 1, 1000000));
    let _ = engine.process_transaction(create_deposit(client_id, 2, 2000000));
    let _ = engine.process_transaction(create_deposit(client_id, 3, 3000000));

    // Dispute deposit #2 ($200)
    let _ = engine.process_transaction(create_dispute(client_id, 2));

    let report = engine.report();
    assert_eq!(money(report[0].held), 200.0);
    assert_eq!(money(report[0].available), 400.0);

    // Resolve deposit #2
    let _ = engine.process_transaction(create_resolve(client_id, 2));

    let report = engine.report();
    assert_eq!(report.len(), 1);
    let record = &report[0];
    assert_eq!(record.client, client_id);
    assert_eq!(money(record.total), 600.0); // $100 + $200 + $300
    assert_eq!(money(record.held), 0.0); // resolved, no held funds
    assert_eq!(money(record.available), 600.0); // all available again
    assert!(!record.locked);
}

#[test]
fn test_three_deposits_one_disputed_and_chargeback() {
    let mut engine = Engine::new();
    let client_id = 1;

    // 3 deposits: $100, $200, $300
    let _ = engine.process_transaction(create_deposit(client_id, 1, 1000000));
    let _ = engine.process_transaction(create_deposit(client_id, 2, 2000000));
    let _ = engine.process_transaction(create_deposit(client_id, 3, 3000000));

    // Dispute deposit #2 ($200)
    let _ = engine.process_transaction(create_dispute(client_id, 2));

    let report = engine.report();
    assert_eq!(money(report[0].held), 200.0);

    // Chargeback deposit #2
    let _ = engine.process_transaction(create_chargeback(client_id, 2));

    let report = engine.report();
    assert_eq!(report.len(), 1);
    let record = &report[0];
    assert_eq!(record.client, client_id);
    assert_eq!(money(record.total), 400.0); // $600 - $200 chargeback
    assert_eq!(money(record.held), 0.0); // removed from held
    assert_eq!(money(record.available), 400.0); // $400 - $0
    assert!(record.locked); // locked after chargeback
}

#[test]
fn test_three_deposits_all_disputed_and_chargeback() {
    let mut engine = Engine::new();
    let client_id = 1;

    // 3 deposits: $100, $200, $300
    let _ = engine.process_transaction(create_deposit(client_id, 1, 1000000));
    let _ = engine.process_transaction(create_deposit(client_id, 2, 2000000));
    let _ = engine.process_transaction(create_deposit(client_id, 3, 3000000));

    // Dispute all 3
    let _ = engine.process_transaction(create_dispute(client_id, 1));
    let _ = engine.process_transaction(create_dispute(client_id, 2));
    let _ = engine.process_transaction(create_dispute(client_id, 3));

    let report = engine.report();
    assert_eq!(money(report[0].total), 600.0);
    assert_eq!(money(report[0].held), 600.0);
    assert_eq!(money(report[0].available), 0.0);

    // Chargeback all 3 - only the first one succeeds because account locks after first chargeback
    let _ = engine.process_transaction(create_chargeback(client_id, 1));
    let _ = engine.process_transaction(create_chargeback(client_id, 2)); // blocked (account locked)
    let _ = engine.process_transaction(create_chargeback(client_id, 3)); // blocked (account locked)

    let report = engine.report();
    assert_eq!(report.len(), 1);
    let record = &report[0];
    assert_eq!(record.client, client_id);
    assert_eq!(money(record.total), 500.0); // $600 - $100 (only first chargeback succeeds)
    assert_eq!(money(record.held), 500.0); // tx 2 ($200) and tx 3 ($300) still disputed
    assert_eq!(money(record.available), 0.0); // $500 - $500
    assert!(record.locked); // locked after first chargeback
}

#[test]
fn test_three_deposits_withdraw_all_then_dispute() {
    let mut engine = Engine::new();
    let client_id = 1;

    // 3 deposits: $100, $200, $300
    let _ = engine.process_transaction(create_deposit(client_id, 1, 1000000));
    let _ = engine.process_transaction(create_deposit(client_id, 2, 2000000));
    let _ = engine.process_transaction(create_deposit(client_id, 3, 3000000));

    // Withdraw entire balance ($600)
    let _ = engine.process_transaction(create_withdrawal(client_id, 4, 6000000));

    let report = engine.report();
    assert_eq!(money(report[0].total), 0.0);
    assert_eq!(money(report[0].available), 0.0);

    // Dispute deposit #2 ($200)
    let _ = engine.process_transaction(create_dispute(client_id, 2));

    let report = engine.report();
    assert_eq!(report.len(), 1);
    let record = &report[0];
    assert_eq!(record.client, client_id);
    assert_eq!(money(record.total), 0.0); // total unchanged
    assert_eq!(money(record.held), 200.0); // $200 now held
    assert_eq!(money(record.available), -200.0); // $0 - $200 = negative available
    assert!(!record.locked);
}

#[test]
fn test_three_deposits_withdraw_all_then_dispute_and_chargeback() {
    let mut engine = Engine::new();
    let client_id = 1;

    // 3 deposits: $100, $200, $300
    let _ = engine.process_transaction(create_deposit(client_id, 1, 1000000));
    let _ = engine.process_transaction(create_deposit(client_id, 2, 2000000));
    let _ = engine.process_transaction(create_deposit(client_id, 3, 3000000));

    // Withdraw entire balance ($600)
    let _ = engine.process_transaction(create_withdrawal(client_id, 4, 6000000));

    let report = engine.report();
    assert_eq!(money(report[0].total), 0.0);
    assert_eq!(money(report[0].available), 0.0);

    // Dispute deposit #2 ($200)
    let _ = engine.process_transaction(create_dispute(client_id, 2));

    let report = engine.report();
    assert_eq!(money(report[0].held), 200.0);
    assert_eq!(money(report[0].available), -200.0);

    // Chargeback deposit #2
    let _ = engine.process_transaction(create_chargeback(client_id, 2));

    let report = engine.report();
    assert_eq!(report.len(), 1);
    let record = &report[0];
    assert_eq!(record.client, client_id);
    assert_eq!(money(record.total), -200.0); // $0 - $200 chargeback
    assert_eq!(money(record.held), 0.0); // removed from held
    assert_eq!(money(record.available), -200.0); // -$200 - $0
    assert!(record.locked); // locked after chargeback
}

#[test]
fn test_locked_account_cannot_receive_deposit() {
    let mut engine = Engine::new();
    let client_id = 1;

    // Make a deposit and lock the account via chargeback
    let _ = engine.process_transaction(create_deposit(client_id, 1, 1000000)); // $100
    let _ = engine.process_transaction(create_dispute(client_id, 1));
    let _ = engine.process_transaction(create_chargeback(client_id, 1));

    let report = engine.report();
    assert!(report[0].locked); // account is now locked
    assert_eq!(money(report[0].total), 0.0); // chargeback removed the $100

    // Try to deposit on locked account
    let _ = engine.process_transaction(create_deposit(client_id, 2, 500000)); // $50

    let report = engine.report();
    // Deposit should be blocked on locked account
    assert_eq!(money(report[0].total), 0.0); // total should remain $0
    assert!(report[0].locked);
}

#[test]
fn test_locked_account_cannot_withdraw() {
    let mut engine = Engine::new();
    let client_id = 1;

    // Make deposits
    let _ = engine.process_transaction(create_deposit(client_id, 1, 1000000)); // $100
    let _ = engine.process_transaction(create_deposit(client_id, 2, 2000000)); // $200

    // Lock the account via dispute + chargeback on tx#1
    let _ = engine.process_transaction(create_dispute(client_id, 1));
    let _ = engine.process_transaction(create_chargeback(client_id, 1));

    let report = engine.report();
    assert!(report[0].locked); // account is now locked
    assert_eq!(money(report[0].total), 200.0); // $300 - $100 chargeback = $200

    // Try to withdraw on locked account
    let _ = engine.process_transaction(create_withdrawal(client_id, 3, 1000000)); // withdraw $100

    let report = engine.report();
    // Withdrawal should be blocked on locked account
    assert_eq!(money(report[0].total), 200.0); // total should remain $200
    assert!(report[0].locked);
}

#[test]
fn test_withdrawal_larger_than_available_funds_rejected() {
    let mut engine = Engine::new();
    let client_id = 1;

    // Deposit $100
    let _ = engine.process_transaction(create_deposit(client_id, 1, 1000000));

    let report = engine.report();
    assert_eq!(money(report[0].total), 100.0);
    assert_eq!(money(report[0].available), 100.0);

    // Try to withdraw $200 (more than available)
    let _ = engine.process_transaction(create_withdrawal(client_id, 2, 2000000));

    let report = engine.report();
    // Withdrawal should be rejected, balance unchanged
    assert_eq!(money(report[0].total), 100.0);
    assert_eq!(money(report[0].available), 100.0);
}

#[test]
fn test_withdrawal_allowed_with_held_funds_if_available_sufficient() {
    let mut engine = Engine::new();
    let client_id = 1;

    // 3 deposits: $100, $200, $300
    let _ = engine.process_transaction(create_deposit(client_id, 1, 1000000));
    let _ = engine.process_transaction(create_deposit(client_id, 2, 2000000));
    let _ = engine.process_transaction(create_deposit(client_id, 3, 3000000));

    // Dispute deposit #3 ($300) → held = $300, available = $300
    let _ = engine.process_transaction(create_dispute(client_id, 3));

    let report = engine.report();
    assert_eq!(money(report[0].total), 600.0);
    assert_eq!(money(report[0].held), 300.0);
    assert_eq!(money(report[0].available), 300.0);

    // Withdraw $200 (less than available $300, even though total is $600)
    let _ = engine.process_transaction(create_withdrawal(client_id, 4, 2000000));

    let report = engine.report();
    assert_eq!(money(report[0].total), 400.0); // $600 - $200 withdrawal
    assert_eq!(money(report[0].held), 300.0); // held unchanged
    assert_eq!(money(report[0].available), 100.0); // $400 - $300 held
}

#[test]
fn test_withdrawal_exactly_available_funds_allowed() {
    let mut engine = Engine::new();
    let client_id = 1;

    // 2 deposits: $100, $200
    let _ = engine.process_transaction(create_deposit(client_id, 1, 1000000));
    let _ = engine.process_transaction(create_deposit(client_id, 2, 2000000));

    // Dispute deposit #2 ($200) → held = $200, available = $100
    let _ = engine.process_transaction(create_dispute(client_id, 2));

    let report = engine.report();
    assert_eq!(money(report[0].total), 300.0);
    assert_eq!(money(report[0].held), 200.0);
    assert_eq!(money(report[0].available), 100.0);

    // Withdraw exactly $100 (equal to available)
    let _ = engine.process_transaction(create_withdrawal(client_id, 3, 1000000));

    let report = engine.report();
    assert_eq!(money(report[0].total), 200.0); // $300 - $100 withdrawal
    assert_eq!(money(report[0].held), 200.0); // held unchanged
    assert_eq!(money(report[0].available), 0.0); // $200 - $200 held
}
