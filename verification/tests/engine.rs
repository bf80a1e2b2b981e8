use accounts::amount::Amount;
use accounts::engine::Engine;
use accounts::error::LedgerError;
use accounts::model::{Account, Action, Transaction};

fn whole(value: i32) -> Option<Amount> {
    Some(Amount::from_whole(value))
}

fn record(action: Action, client_id: u16, id: u32, amount: Option<Amount>) -> Transaction {
    Transaction { action, client_id, id, amount, is_under_dispute: false, failed: false }
}

fn balances(engine: &Engine, client: u16) -> (i64, i64, i64, bool) {
    let account = engine.accounts.get(&client).unwrap();
    (account.available.units(), account.held.units(), account.total.units(), account.locked)
}

fn assert_balanced(engine: &Engine) {
    for account in engine.accounts.values() {
        assert_eq!(account.total.units(), account.available.units() + account.held.units());
    }
}

#[test]
fn deposit() {
    let mut engine = Engine::new();
    let entry = Transaction {
        action: Action::Deposit,
        client_id: 1,
        id: 1,
        amount: Some(Amount::from_whole(10)),
        is_under_dispute: false,
        failed: false,
    };

    engine.process(entry).unwrap();

    let account = engine.accounts.get(&1).unwrap();

    assert_eq!(account.available, Amount::from_whole(10));
    assert_eq!(account.total, Amount::from_whole(10));
    assert_eq!(account.held, Amount::from_whole(0));
    assert!(!account.locked);
}

#[test]
fn withdraw() {
    let mut engine = Engine::new();
    let entries = vec![
        Transaction {
            action: Action::Deposit,
            client_id: 1,
            id: 1,
            amount: Some(Amount::from_whole(10)),
            is_under_dispute: false,
            failed: false,
        },
        Transaction {
            action: Action::Withdrawal,
            client_id: 1,
            id: 2,
            amount: Some(Amount::from_whole(5)),
            is_under_dispute: false,
            failed: false,
        },
    ];

    for entry in entries {
        engine.process(entry).unwrap();
    }

    let account = engine.accounts.get(&1).unwrap();

    assert_eq!(account.available, Amount::from_whole(5));
    assert_eq!(account.total, Amount::from_whole(5));
    assert_eq!(account.held, Amount::from_whole(0));
    assert!(!account.locked);
}

#[test]
fn dispute() {
    let mut engine = Engine::new();
    let entries = vec![
        Transaction {
            action: Action::Deposit,
            client_id: 1,
            id: 1,
            amount: Some(Amount::from_whole(10)),
            is_under_dispute: false,
            failed: false,
        },
        Transaction {
            action: Action::Dispute,
            client_id: 1,
            id: 1,
            amount: None,
            is_under_dispute: false,
            failed: false,
        },
    ];

    for entry in entries {
        engine.process(entry).unwrap();
    }

    let account = engine.accounts.get(&1).unwrap();

    assert_eq!(account.available, Amount::from_whole(0));
    assert_eq!(account.held, Amount::from_whole(10));
    assert_eq!(account.total, Amount::from_whole(10));
    assert!(!account.locked);

    let transaction = engine.transactions.get(&1).unwrap();

    assert!(transaction.is_under_dispute);
}

#[test]
fn resolve() {
    let mut engine = Engine::new();
    let entries = vec![
        Transaction {
            action: Action::Deposit,
            client_id: 1,
            id: 1,
            amount: Some(Amount::from_whole(10)),
            is_under_dispute: false,
            failed: false,
        },
        Transaction {
            action: Action::Dispute,
            client_id: 1,
            id: 1,
            amount: None,
            is_under_dispute: false,
            failed: false,
        },
        Transaction {
            action: Action::Resolve,
            client_id: 1,
            id: 1,
            amount: None,
            is_under_dispute: false,
            failed: false,
        },
    ];

    for entry in entries {
        engine.process(entry).unwrap();
    }

    let account = engine.accounts.get(&1).unwrap();

    assert_eq!(account.available, Amount::from_whole(10));
    assert_eq!(account.total, Amount::from_whole(10));
    assert_eq!(account.held, Amount::from_whole(0));
    assert!(!account.locked);

    let transaction = engine.transactions.get(&1).unwrap();

    assert!(!transaction.is_under_dispute);
}

#[test]
fn chargeback() {
    let mut engine = Engine::new();
    let entries = vec![
        Transaction {
            action: Action::Deposit,
            client_id: 1,
            id: 1,
            amount: Some(Amount::from_whole(10)),
            is_under_dispute: false,
            failed: false,
        },
        Transaction {
            action: Action::Dispute,
            client_id: 1,
            id: 1,
            amount: None,
            is_under_dispute: false,
            failed: false,
        },
        Transaction {
            action: Action::Chargeback,
            client_id: 1,
            id: 1,
            amount: None,
            is_under_dispute: false,
            failed: false,
        },
    ];

    for entry in entries {
        engine.process(entry).unwrap();
    }

    let account = engine.accounts.get(&1).unwrap();

    assert_eq!(account.available, Amount::from_whole(0));
    assert_eq!(account.held, Amount::from_whole(0));
    assert_eq!(account.total, Amount::from_whole(0));
    assert!(account.locked);

    let transaction = engine.transactions.get(&1).unwrap();

    assert!(!transaction.is_under_dispute);
}

#[test]
fn withdraw_more_than_available() {
    let mut engine = Engine::new();
    let entries = vec![
        Transaction {
            action: Action::Deposit,
            client_id: 1,
            id: 1,
            amount: Some(Amount::from_whole(10)),
            is_under_dispute: false,
            failed: false,
        },
        Transaction {
            action: Action::Withdrawal,
            client_id: 1,
            id: 2,
            amount: Some(Amount::from_whole(15)),
            is_under_dispute: false,
            failed: false,
        },
    ];

    for entry in entries {
        engine.process(entry).unwrap();
    }

    let account = engine.accounts.get(&1).unwrap();

    assert_eq!(account.available, Amount::from_whole(10));
    assert_eq!(account.total, Amount::from_whole(10));
    assert_eq!(account.held, Amount::from_whole(0));
    assert!(!account.locked);

    let transaction = engine.transactions.get(&2).unwrap();

    assert!(transaction.failed);
}

#[test]
fn new_engine_is_empty() {
    let engine = Engine::new();
    assert!(engine.accounts.is_empty());
    assert!(engine.transactions.is_empty());
    let engine = Engine::default();
    assert!(engine.accounts.is_empty());
    assert!(engine.transactions.is_empty());
}

#[test]
fn deposit_is_stored_under_its_id() {
    let mut engine = Engine::new();
    engine.process(record(Action::Deposit, 7, 42, whole(3))).unwrap();
    assert_eq!(engine.transactions.len(), 1);
    assert_eq!(
        engine.transactions.get(&42),
        Some(&record(Action::Deposit, 7, 42, whole(3)))
    );
    assert_eq!(engine.accounts.get(&7).unwrap().id, 7);
}

#[test]
fn stored_record_starts_undisputed_and_not_failed() {
    let mut engine = Engine::new();
    let mut entry = record(Action::Deposit, 1, 1, whole(10));
    entry.is_under_dispute = true;
    entry.failed = true;
    engine.process(entry).unwrap();
    let stored = engine.transactions.get(&1).unwrap();
    assert!(!stored.is_under_dispute);
    assert!(!stored.failed);

    let mut entry = record(Action::Withdrawal, 1, 2, whole(4));
    entry.is_under_dispute = true;
    entry.failed = true;
    engine.process(entry).unwrap();
    let stored = engine.transactions.get(&2).unwrap();
    assert!(!stored.is_under_dispute);
    assert!(!stored.failed);
    assert_eq!(balances(&engine, 1), (60_000, 0, 60_000, false));
}

#[test]
fn withdrawal_of_all_that_is_available_succeeds() {
    let mut engine = Engine::new();
    engine.process(record(Action::Deposit, 1, 1, whole(10))).unwrap();
    engine.process(record(Action::Withdrawal, 1, 2, whole(10))).unwrap();
    assert_eq!(balances(&engine, 1), (0, 0, 0, false));
    assert!(!engine.transactions.get(&2).unwrap().failed);
}

#[test]
fn withdrawal_of_one_unit_too_many_fails() {
    let mut engine = Engine::new();
    engine.process(record(Action::Deposit, 1, 1, whole(10))).unwrap();
    let amount = Amount::from_units(100_001);
    engine.process(record(Action::Withdrawal, 1, 2, amount)).unwrap();
    assert_eq!(balances(&engine, 1), (100_000, 0, 100_000, false));
    assert!(engine.transactions.get(&2).unwrap().failed);
}

#[test]
fn withdrawal_from_unknown_client_opens_the_account_and_fails() {
    let mut engine = Engine::new();
    engine.process(record(Action::Withdrawal, 3, 1, whole(1))).unwrap();
    assert_eq!(balances(&engine, 3), (0, 0, 0, false));
    assert!(engine.transactions.get(&1).unwrap().failed);
}

#[test]
fn negative_amounts_are_applied_as_they_stand() {
    let mut engine = Engine::new();
    engine.process(record(Action::Deposit, 1, 1, whole(-3))).unwrap();
    assert_eq!(balances(&engine, 1), (-30_000, 0, -30_000, false));
    engine.process(record(Action::Withdrawal, 1, 2, whole(-5))).unwrap();
    assert_eq!(balances(&engine, 1), (20_000, 0, 20_000, false));
    assert!(!engine.transactions.get(&2).unwrap().failed);
}

#[test]
fn deposit_without_amount_ends_the_run() {
    let mut engine = Engine::new();
    let result = engine.process(record(Action::Deposit, 1, 1, None));
    assert_eq!(result, Err(LedgerError::DepositWithoutAmount));
    assert_eq!(balances(&engine, 1), (0, 0, 0, false));
    assert!(engine.transactions.is_empty());
}

#[test]
fn withdrawal_without_amount_ends_the_run() {
    let mut engine = Engine::new();
    engine.process(record(Action::Deposit, 1, 1, whole(10))).unwrap();
    let result = engine.process(record(Action::Withdrawal, 1, 2, None));
    assert_eq!(result, Err(LedgerError::WithdrawWithoutAmount));
    assert_eq!(balances(&engine, 1), (100_000, 0, 100_000, false));
    assert!(engine.transactions.get(&2).is_none());
}

#[test]
fn zero_amount_is_not_a_missing_amount() {
    let mut engine = Engine::new();
    assert_eq!(engine.process(record(Action::Deposit, 1, 1, whole(0))), Ok(()));
    assert_eq!(engine.process(record(Action::Withdrawal, 1, 2, whole(0))), Ok(()));
    assert_eq!(balances(&engine, 1), (0, 0, 0, false));
    assert!(!engine.transactions.get(&2).unwrap().failed);
}

#[test]
fn dispute_of_stored_record_without_amount_ends_the_run() {
    let mut engine = Engine::new();
    engine.process(record(Action::Deposit, 1, 1, whole(10))).unwrap();
    engine.transactions.insert(9, record(Action::Deposit, 1, 9, None));
    let result = engine.process(record(Action::Dispute, 1, 9, None));
    assert_eq!(result, Err(LedgerError::DisputeWithoutAmount));
    assert!(engine.transactions.get(&9).unwrap().is_under_dispute);
    assert_eq!(balances(&engine, 1), (100_000, 0, 100_000, false));
}

#[test]
fn resolve_of_stored_record_without_amount_ends_the_run() {
    let mut engine = Engine::new();
    engine.process(record(Action::Deposit, 1, 1, whole(10))).unwrap();
    let mut stored = record(Action::Deposit, 1, 9, None);
    stored.is_under_dispute = true;
    engine.transactions.insert(9, stored);
    let result = engine.process(record(Action::Resolve, 1, 9, None));
    assert_eq!(result, Err(LedgerError::ResolveWithoutAmount));
    assert!(!engine.transactions.get(&9).unwrap().is_under_dispute);
    assert_eq!(balances(&engine, 1), (100_000, 0, 100_000, false));
}

#[test]
fn chargeback_of_stored_record_without_amount_ends_the_run() {
    let mut engine = Engine::new();
    engine.process(record(Action::Deposit, 1, 1, whole(10))).unwrap();
    let mut stored = record(Action::Deposit, 1, 9, None);
    stored.is_under_dispute = true;
    engine.transactions.insert(9, stored);
    let result = engine.process(record(Action::Chargeback, 1, 9, None));
    assert_eq!(result, Err(LedgerError::DisputeWithoutAmount));
    assert!(!engine.transactions.get(&9).unwrap().is_under_dispute);
    assert_eq!(balances(&engine, 1), (100_000, 0, 100_000, false));
}

#[test]
fn deposit_beyond_the_range_ends_the_run_and_changes_nothing() {
    let mut engine = Engine::new();
    let most = Amount::from_units(i64::MAX);
    engine.process(record(Action::Deposit, 1, 1, most)).unwrap();
    let result = engine.process(record(Action::Deposit, 1, 2, Amount::from_units(1)));
    assert_eq!(result, Err(LedgerError::Overflow));
    assert_eq!(balances(&engine, 1), (i64::MAX, 0, i64::MAX, false));
    assert!(engine.transactions.get(&2).is_none());
}

#[test]
fn deposit_that_only_the_total_cannot_hold_ends_the_run() {
    let mut engine = Engine::new();
    let most = Amount::from_units(i64::MAX);
    engine.process(record(Action::Deposit, 1, 1, most)).unwrap();
    engine.process(record(Action::Dispute, 1, 1, None)).unwrap();
    assert_eq!(balances(&engine, 1), (0, i64::MAX, i64::MAX, false));
    engine.process(record(Action::Deposit, 1, 2, most)).unwrap_err();
    assert_eq!(balances(&engine, 1), (0, i64::MAX, i64::MAX, false));
}

#[test]
fn withdrawal_beyond_the_range_ends_the_run() {
    let mut engine = Engine::new();
    let least = Amount::from_units(-i64::MAX);
    engine.process(record(Action::Deposit, 1, 1, Amount::from_units(5))).unwrap();
    let result = engine.process(record(Action::Withdrawal, 1, 2, least));
    assert_eq!(result, Err(LedgerError::Overflow));
    assert_eq!(balances(&engine, 1), (5, 0, 5, false));
    assert!(engine.transactions.get(&2).is_none());
}

#[test]
fn dispute_beyond_the_range_ends_the_run_and_leaves_the_mark_unset() {
    let mut engine = Engine::new();
    let most = Amount::from_units(i64::MAX);
    engine.process(record(Action::Deposit, 1, 1, most)).unwrap();
    engine.process(record(Action::Dispute, 1, 1, None)).unwrap();
    engine.process(record(Action::Deposit, 1, 2, Amount::from_units(-5))).unwrap();
    engine.process(record(Action::Deposit, 1, 3, Amount::from_units(5))).unwrap();
    assert_eq!(balances(&engine, 1), (0, i64::MAX, i64::MAX, false));
    let result = engine.process(record(Action::Dispute, 1, 3, None));
    assert_eq!(result, Err(LedgerError::Overflow));
    assert_eq!(balances(&engine, 1), (0, i64::MAX, i64::MAX, false));
    assert!(engine.transactions.get(&1).unwrap().is_under_dispute);
    assert!(!engine.transactions.get(&3).unwrap().is_under_dispute);

    let mut engine = Engine::new();
    engine.process(record(Action::Deposit, 1, 1, most)).unwrap();
    engine.process(record(Action::Withdrawal, 1, 2, most)).unwrap();
    engine.process(record(Action::Deposit, 1, 3, Amount::from_units(-2))).unwrap();
    engine.process(record(Action::Dispute, 1, 1, None)).unwrap_err();
    assert_eq!(balances(&engine, 1), (-2, 0, -2, false));
    assert!(!engine.transactions.get(&1).unwrap().is_under_dispute);
}

#[test]
fn dispute_of_unknown_transaction_is_ignored() {
    let mut engine = Engine::new();
    engine.process(record(Action::Deposit, 1, 1, whole(10))).unwrap();
    assert_eq!(engine.process(record(Action::Dispute, 1, 5, None)), Ok(()));
    assert_eq!(engine.process(record(Action::Resolve, 1, 5, None)), Ok(()));
    assert_eq!(engine.process(record(Action::Chargeback, 1, 5, None)), Ok(()));
    assert_eq!(balances(&engine, 1), (100_000, 0, 100_000, false));
    assert_eq!(engine.transactions.len(), 1);
    assert!(!engine.transactions.get(&1).unwrap().is_under_dispute);
}

#[test]
fn control_record_for_unknown_client_opens_an_empty_account() {
    let mut engine = Engine::new();
    assert_eq!(engine.process(record(Action::Chargeback, 4, 5, None)), Ok(()));
    assert_eq!(balances(&engine, 4), (0, 0, 0, false));
    assert_eq!(engine.accounts.len(), 1);
    assert!(engine.transactions.is_empty());
}

#[test]
fn dispute_by_another_client_is_ignored() {
    let mut engine = Engine::new();
    engine.process(record(Action::Deposit, 1, 1, whole(10))).unwrap();
    assert_eq!(engine.process(record(Action::Dispute, 2, 1, None)), Ok(()));
    assert_eq!(balances(&engine, 1), (100_000, 0, 100_000, false));
    assert_eq!(balances(&engine, 2), (0, 0, 0, false));
    assert!(!engine.transactions.get(&1).unwrap().is_under_dispute);

    engine.process(record(Action::Dispute, 1, 1, None)).unwrap();
    assert_eq!(engine.process(record(Action::Resolve, 2, 1, None)), Ok(()));
    assert_eq!(engine.process(record(Action::Chargeback, 2, 1, None)), Ok(()));
    assert_eq!(balances(&engine, 1), (0, 100_000, 100_000, false));
    assert_eq!(balances(&engine, 2), (0, 0, 0, false));
    assert!(engine.transactions.get(&1).unwrap().is_under_dispute);
}

#[test]
fn resolve_and_chargeback_need_an_open_dispute() {
    let mut engine = Engine::new();
    engine.process(record(Action::Deposit, 1, 1, whole(10))).unwrap();
    assert_eq!(engine.process(record(Action::Resolve, 1, 1, None)), Ok(()));
    assert_eq!(engine.process(record(Action::Chargeback, 1, 1, None)), Ok(()));
    assert_eq!(balances(&engine, 1), (100_000, 0, 100_000, false));

    engine.process(record(Action::Dispute, 1, 1, None)).unwrap();
    engine.process(record(Action::Resolve, 1, 1, None)).unwrap();
    assert_eq!(engine.process(record(Action::Chargeback, 1, 1, None)), Ok(()));
    assert_eq!(balances(&engine, 1), (100_000, 0, 100_000, false));
}

#[test]
fn dispute_of_a_disputed_transaction_is_ignored() {
    let mut engine = Engine::new();
    engine.process(record(Action::Deposit, 1, 1, whole(10))).unwrap();
    engine.process(record(Action::Dispute, 1, 1, None)).unwrap();
    assert_eq!(engine.process(record(Action::Dispute, 1, 1, None)), Ok(()));
    assert_eq!(balances(&engine, 1), (0, 100_000, 100_000, false));
    assert!(engine.transactions.get(&1).unwrap().is_under_dispute);
    assert_eq!(engine.transactions.len(), 1);

    engine.process(record(Action::Resolve, 1, 1, None)).unwrap();
    assert_eq!(balances(&engine, 1), (100_000, 0, 100_000, false));
    assert!(!engine.transactions.get(&1).unwrap().is_under_dispute);
}

#[test]
fn dispute_after_a_resolve_freezes_again() {
    let mut engine = Engine::new();
    engine.process(record(Action::Deposit, 1, 1, whole(10))).unwrap();
    engine.process(record(Action::Dispute, 1, 1, None)).unwrap();
    engine.process(record(Action::Resolve, 1, 1, None)).unwrap();
    engine.process(record(Action::Dispute, 1, 1, None)).unwrap();
    assert_eq!(balances(&engine, 1), (0, 100_000, 100_000, false));
    assert!(engine.transactions.get(&1).unwrap().is_under_dispute);
}

#[test]
fn dispute_of_a_disputed_record_without_amount_is_ignored() {
    let mut engine = Engine::new();
    engine.process(record(Action::Deposit, 1, 1, whole(10))).unwrap();
    let mut stored = record(Action::Deposit, 1, 9, None);
    stored.is_under_dispute = true;
    engine.transactions.insert(9, stored);
    assert_eq!(engine.process(record(Action::Dispute, 1, 9, None)), Ok(()));
    assert!(engine.transactions.get(&9).unwrap().is_under_dispute);
    assert_eq!(balances(&engine, 1), (100_000, 0, 100_000, false));
}

#[test]
fn dispute_of_a_withdrawal_moves_the_negated_amount() {
    let mut engine = Engine::new();
    engine.process(record(Action::Deposit, 1, 1, whole(10))).unwrap();
    engine.process(record(Action::Withdrawal, 1, 2, whole(4))).unwrap();
    engine.process(record(Action::Dispute, 1, 2, None)).unwrap();
    assert_eq!(balances(&engine, 1), (100_000, -40_000, 60_000, false));
    assert!(engine.transactions.get(&2).unwrap().is_under_dispute);

    engine.process(record(Action::Resolve, 1, 2, None)).unwrap();
    assert_eq!(balances(&engine, 1), (60_000, 0, 60_000, false));

    engine.process(record(Action::Dispute, 1, 2, None)).unwrap();
    engine.process(record(Action::Chargeback, 1, 2, None)).unwrap();
    assert_eq!(balances(&engine, 1), (100_000, 0, 100_000, true));
}

#[test]
fn dispute_of_a_failed_withdrawal_still_moves_its_amount() {
    let mut engine = Engine::new();
    engine.process(record(Action::Deposit, 1, 1, whole(10))).unwrap();
    engine.process(record(Action::Withdrawal, 1, 2, whole(15))).unwrap();
    engine.process(record(Action::Dispute, 1, 2, None)).unwrap();
    assert_eq!(balances(&engine, 1), (250_000, -150_000, 100_000, false));
    assert!(engine.transactions.get(&2).unwrap().failed);
}

#[test]
fn locked_account_stays_locked() {
    let mut engine = Engine::new();
    engine.process(record(Action::Deposit, 1, 1, whole(10))).unwrap();
    engine.process(record(Action::Dispute, 1, 1, None)).unwrap();
    engine.process(record(Action::Chargeback, 1, 1, None)).unwrap();
    let later = vec![
        record(Action::Deposit, 1, 2, whole(7)),
        record(Action::Withdrawal, 1, 3, whole(2)),
        record(Action::Dispute, 1, 2, None),
        record(Action::Resolve, 1, 2, None),
        record(Action::Dispute, 1, 3, None),
        record(Action::Chargeback, 1, 3, None),
        record(Action::Deposit, 2, 4, whole(1)),
    ];
    for entry in later {
        engine.process(entry).unwrap();
        assert!(engine.accounts.get(&1).unwrap().locked);
    }
    assert_eq!(balances(&engine, 1), (70_000, 0, 70_000, true));
    assert_eq!(balances(&engine, 2), (10_000, 0, 10_000, false));
}

#[test]
fn total_is_available_and_held_after_every_record() {
    let mut engine = Engine::new();
    let entries = vec![
        record(Action::Deposit, 1, 1, whole(10)),
        record(Action::Deposit, 2, 2, whole(20)),
        record(Action::Withdrawal, 1, 3, whole(3)),
        record(Action::Dispute, 1, 1, None),
        record(Action::Withdrawal, 1, 4, whole(1)),
        record(Action::Dispute, 2, 2, None),
        record(Action::Resolve, 1, 1, None),
        record(Action::Chargeback, 2, 2, None),
        record(Action::Dispute, 1, 3, None),
        record(Action::Dispute, 3, 1, None),
        record(Action::Deposit, 2, 5, Amount::from_units(12_345)),
        record(Action::Chargeback, 1, 3, None),
    ];
    for entry in entries {
        engine.process(entry).unwrap();
        assert_balanced(&engine);
    }
    assert_eq!(balances(&engine, 1), (100_000, 0, 100_000, true));
    assert_eq!(balances(&engine, 2), (12_345, 0, 12_345, true));
    assert_eq!(balances(&engine, 3), (0, 0, 0, false));
}

#[test]
fn resolve_restores_the_account_as_it_was_before_the_dispute() {
    let mut engine = Engine::new();
    engine.process(record(Action::Deposit, 1, 1, whole(10))).unwrap();
    engine.process(record(Action::Deposit, 1, 2, Amount::from_units(33_333))).unwrap();
    let before = *engine.accounts.get(&1).unwrap();
    engine.process(record(Action::Dispute, 1, 2, None)).unwrap();
    let between = *engine.accounts.get(&1).unwrap();
    assert_eq!(between.total, before.total);
    assert_eq!(between.available.units(), 100_000);
    assert_eq!(between.held.units(), 33_333);
    engine.process(record(Action::Resolve, 1, 2, None)).unwrap();
    assert_eq!(*engine.accounts.get(&1).unwrap(), before);
    assert!(!engine.transactions.get(&2).unwrap().is_under_dispute);
}

#[test]
fn later_record_with_the_same_id_replaces_the_stored_one() {
    let mut engine = Engine::new();
    engine.process(record(Action::Deposit, 1, 1, whole(10))).unwrap();
    engine.process(record(Action::Deposit, 2, 1, whole(4))).unwrap();
    assert_eq!(engine.transactions.len(), 1);
    assert_eq!(engine.transactions.get(&1).unwrap().client_id, 2);
    engine.process(record(Action::Dispute, 1, 1, None)).unwrap();
    assert_eq!(balances(&engine, 1), (100_000, 0, 100_000, false));
    engine.process(record(Action::Dispute, 2, 1, None)).unwrap();
    assert_eq!(balances(&engine, 2), (0, 40_000, 40_000, false));
}

#[test]
fn account_is_found_by_the_id_it_carries() {
    let mut engine = Engine::new();
    engine.accounts.insert(1, Account::new(8));
    engine.process(record(Action::Deposit, 1, 1, whole(10))).unwrap();
    assert_eq!(engine.process(record(Action::Dispute, 1, 1, None)), Ok(()));
    assert_eq!(balances(&engine, 1), (100_000, 0, 100_000, false));
    assert!(!engine.transactions.get(&1).unwrap().is_under_dispute);
}

#[test]
fn record_that_moves_nothing_never_ends_the_run() {
    let mut engine = Engine::new();
    let most = Amount::from_units(i64::MAX);
    engine.process(record(Action::Deposit, 1, 1, most)).unwrap();
    engine.process(record(Action::Dispute, 1, 1, None)).unwrap();
    assert_eq!(engine.process(record(Action::Dispute, 1, 1, None)), Ok(()));
    assert_eq!(engine.process(record(Action::Dispute, 1, 8, None)), Ok(()));
    assert_eq!(engine.process(record(Action::Resolve, 1, 8, None)), Ok(()));
    assert_eq!(engine.process(record(Action::Chargeback, 1, 8, None)), Ok(()));
    assert_eq!(engine.process(record(Action::Withdrawal, 1, 2, Amount::from_units(1))), Ok(()));
    assert_eq!(balances(&engine, 1), (0, i64::MAX, i64::MAX, false));
    assert!(engine.transactions.get(&2).unwrap().failed);
}

#[test]
fn accounts_stand_under_the_ids_they_carry() {
    let mut engine = Engine::new();
    let entries = vec![
        record(Action::Deposit, 3, 1, whole(1)),
        record(Action::Withdrawal, 9, 2, whole(1)),
        record(Action::Dispute, 4, 1, None),
        record(Action::Chargeback, u16::MAX, 7, None),
    ];
    for entry in entries {
        engine.process(entry).unwrap();
        for (client, account) in engine.accounts.iter() {
            assert_eq!(*client, account.id);
        }
    }
    assert_eq!(engine.accounts.len(), 4);
}
