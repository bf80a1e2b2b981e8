//! What holds of the ledger whatever the records are.

use vstd::prelude::*;
use crate::amount::representable;
use crate::error::LedgerError;
use crate::ledger::{Ledger, Outcome};
use crate::model::{AccountModel, Action, TransactionModel};

verus! {

/// Each of the five movements leaves an account balanced that it found
/// balanced.
pub proof fn lemma_movements_keep_balance(account: AccountModel, amount: int)
    requires
        account.balanced(),
    ensures
        account.deposit(amount).balanced(),
        account.withdraw(amount).balanced(),
        account.dispute(amount).balanced(),
        account.resolve(amount).balanced(),
        account.chargeback(amount).balanced(),
{
}

/// A fresh account is balanced, and after one deposit it has the amount
/// available, holds nothing and is not locked.
pub proof fn lemma_first_deposit(id: u16, amount: int)
    ensures
        AccountModel::fresh(id).balanced(),
        AccountModel::fresh(id).deposit(amount) == (AccountModel {
            id,
            available: amount,
            held: 0,
            total: amount,
            locked: false,
        }),
{
}

/// Releasing an amount undoes freezing it, and a withdrawal undoes a
/// deposit.
pub proof fn lemma_movements_undone(account: AccountModel, amount: int)
    ensures
        account.dispute(amount).resolve(amount) == account,
        account.deposit(amount).withdraw(amount) == account,
        account.dispute(amount).total == account.total,
{
}

/// A record leaves every account balanced that it found balanced, whether
/// balances are bounded or not.
pub proof fn lemma_step_keeps_balance(ledger: Ledger, entry: TransactionModel)
    requires
        ledger.balanced(),
    ensures
        ledger.step(entry).ledger.balanced(),
        ledger.bounded_step(entry).ledger.balanced(),
{
    let opened = ledger.open_account(entry.client_id);
    assert(opened.balanced());
}

/// After any sequence of records every account's total is what it has
/// available and held together, from whatever balanced ledger the run
/// starts.
pub proof fn lemma_run_keeps_balance(ledger: Ledger, entries: Seq<TransactionModel>)
    requires
        ledger.balanced(),
    ensures
        ledger.run(entries).balanced(),
    decreases entries.len(),
{
    if entries.len() > 0 {
        lemma_step_keeps_balance(ledger, entries[0]);
        let outcome = ledger.bounded_step(entries[0]);
        if outcome.result.is_ok() {
            lemma_run_keeps_balance(outcome.ledger, entries.drop_first());
        }
    }
}

/// After any sequence of records applied to a new ledger, every account's
/// total is what it has available and held together.
pub proof fn lemma_run_from_empty_is_balanced(entries: Seq<TransactionModel>)
    ensures
        Ledger::empty().run(entries).balanced(),
{
    lemma_run_keeps_balance(Ledger::empty(), entries);
}

/// A record changes no account but that of the client it names, and
/// removes none.
pub proof fn lemma_step_keeps_other_accounts(ledger: Ledger, entry: TransactionModel)
    ensures
        ledger.other_accounts_kept_by(ledger.step(entry).ledger, entry.client_id),
        ledger.other_accounts_kept_by(ledger.bounded_step(entry).ledger, entry.client_id),
        ledger.step(entry).ledger.accounts.contains_key(entry.client_id),
        ledger.bounded_step(entry).ledger.accounts.contains_key(entry.client_id),
{
}

/// A deposit to a client without an account gives that client an unlocked
/// account that has the amount available and nothing held.
pub proof fn lemma_deposit_to_fresh_account(ledger: Ledger, entry: TransactionModel, amount: int)
    requires
        entry.action == Action::Deposit,
        entry.amount == Some(amount),
        !ledger.accounts.contains_key(entry.client_id),
    ensures
        ledger.step(entry).result.is_ok(),
        ledger.step(entry).ledger.accounts[entry.client_id] == (AccountModel {
            id: entry.client_id,
            available: amount,
            held: 0,
            total: amount,
            locked: false,
        }),
        representable(amount) ==> ledger.bounded_step(entry) == ledger.step(entry),
{
}

/// A withdrawal of no more than is available takes its amount from what is
/// available and from the total, and is stored as not failed.
pub proof fn lemma_withdrawal_within_funds(ledger: Ledger, entry: TransactionModel, amount: int)
    requires
        entry.action == Action::Withdrawal,
        entry.amount == Some(amount),
        amount <= ledger.account_of(entry.client_id).available,
    ensures
        ledger.step(entry).result.is_ok(),
        ledger.step(entry).ledger.accounts[entry.client_id] == (AccountModel {
            available: ledger.account_of(entry.client_id).available - amount,
            total: ledger.account_of(entry.client_id).total - amount,
            ..ledger.account_of(entry.client_id)
        }),
        ledger.step(entry).ledger.transactions.contains_key(entry.id),
        !ledger.step(entry).ledger.transactions[entry.id].failed,
        ledger.step(entry).ledger.accounts[entry.client_id].representable()
            ==> ledger.bounded_step(entry) == ledger.step(entry),
{
}

/// A withdrawal of more than is available changes no account and is stored
/// as failed, without ending the run.
pub proof fn lemma_withdrawal_beyond_funds(ledger: Ledger, entry: TransactionModel, amount: int)
    requires
        entry.action == Action::Withdrawal,
        entry.amount == Some(amount),
        amount > ledger.account_of(entry.client_id).available,
    ensures
        ledger.step(entry).result.is_ok(),
        ledger.step(entry).ledger.accounts == ledger.open_account(entry.client_id).accounts,
        ledger.step(entry).ledger.transactions.contains_key(entry.id),
        ledger.step(entry).ledger.transactions[entry.id].failed,
        ledger.account_of(entry.client_id).representable() ==> ledger.bounded_step(entry)
            == ledger.step(entry),
{
}

/// Whether `entry` names a stored deposit of `amount` that the account of
/// `entry`'s client owns.
pub open spec fn names_owned_deposit(ledger: Ledger, entry: TransactionModel, amount: int) -> bool {
    &&& ledger.owns_target(entry)
    &&& ledger.transactions[entry.id].action == Action::Deposit
    &&& ledger.transactions[entry.id].amount == Some(amount)
}

/// A dispute of a stored deposit that is not under dispute moves the
/// deposit's amount from what is available to what is held, leaves the
/// total and the lock as they were, and marks the deposit as under dispute.
pub proof fn lemma_dispute_of_deposit(ledger: Ledger, entry: TransactionModel, amount: int)
    requires
        entry.action == Action::Dispute,
        names_owned_deposit(ledger, entry, amount),
        !ledger.transactions[entry.id].is_under_dispute,
    ensures
        ledger.step(entry).result.is_ok(),
        ledger.step(entry).ledger.accounts[entry.client_id] == (AccountModel {
            available: ledger.accounts[entry.client_id].available - amount,
            held: ledger.accounts[entry.client_id].held + amount,
            ..ledger.accounts[entry.client_id]
        }),
        ledger.step(entry).ledger.transactions[entry.id] == (TransactionModel {
            is_under_dispute: true,
            ..ledger.transactions[entry.id]
        }),
        ledger.step(entry).ledger.accounts[entry.client_id].representable()
            ==> ledger.bounded_step(entry) == ledger.step(entry),
{
}

/// A dispute and then a resolve of a stored deposit that was not under
/// dispute leave the client's account as it was before the dispute and the
/// deposit not under dispute. The total is the same before, between and
/// after.
pub proof fn lemma_resolve_undoes_dispute(
    ledger: Ledger,
    dispute: TransactionModel,
    resolve: TransactionModel,
    amount: int,
)
    requires
        dispute.action == Action::Dispute,
        resolve.action == Action::Resolve,
        resolve.client_id == dispute.client_id,
        resolve.id == dispute.id,
        names_owned_deposit(ledger, dispute, amount),
        !ledger.transactions[dispute.id].is_under_dispute,
    ensures
        ledger.step(dispute).result.is_ok(),
        ledger.step(dispute).ledger.step(resolve).result.is_ok(),
        ledger.step(dispute).ledger.accounts[dispute.client_id].total
            == ledger.accounts[dispute.client_id].total,
        ledger.step(dispute).ledger.step(resolve).ledger.accounts[dispute.client_id]
            == ledger.accounts[dispute.client_id],
        ledger.step(dispute).ledger.step(resolve).ledger.transactions[dispute.id]
            == (TransactionModel { is_under_dispute: false, ..ledger.transactions[dispute.id] }),
        ledger.step(dispute).ledger.accounts[dispute.client_id].representable()
            && ledger.accounts[dispute.client_id].representable() ==> ledger.bounded_step(
            dispute,
        ).ledger.bounded_step(resolve) == ledger.step(dispute).ledger.step(resolve),
{
}

/// A chargeback of a stored deposit that is under dispute takes the
/// deposit's amount from what is held and from the total, locks the
/// account, and clears the deposit's mark.
pub proof fn lemma_chargeback_of_disputed_deposit(
    ledger: Ledger,
    entry: TransactionModel,
    amount: int,
)
    requires
        entry.action == Action::Chargeback,
        names_owned_deposit(ledger, entry, amount),
        ledger.transactions[entry.id].is_under_dispute,
    ensures
        ledger.step(entry).result.is_ok(),
        ledger.step(entry).ledger.accounts[entry.client_id] == (AccountModel {
            held: ledger.accounts[entry.client_id].held - amount,
            total: ledger.accounts[entry.client_id].total - amount,
            locked: true,
            ..ledger.accounts[entry.client_id]
        }),
        ledger.step(entry).ledger.transactions[entry.id] == (TransactionModel {
            is_under_dispute: false,
            ..ledger.transactions[entry.id]
        }),
        ledger.step(entry).ledger.accounts[entry.client_id].representable()
            ==> ledger.bounded_step(entry) == ledger.step(entry),
{
}

/// No record unlocks an account.
pub proof fn lemma_step_keeps_locks(ledger: Ledger, entry: TransactionModel)
    ensures
        ledger.locks_kept_by(ledger.step(entry).ledger),
        ledger.locks_kept_by(ledger.bounded_step(entry).ledger),
{
}

/// An account that is locked stays locked through any sequence of records.
pub proof fn lemma_run_keeps_locks(ledger: Ledger, entries: Seq<TransactionModel>)
    ensures
        ledger.locks_kept_by(ledger.run(entries)),
    decreases entries.len(),
{
    if entries.len() > 0 {
        lemma_step_keeps_locks(ledger, entries[0]);
        let outcome = ledger.bounded_step(entries[0]);
        if outcome.result.is_ok() {
            lemma_run_keeps_locks(outcome.ledger, entries.drop_first());
        }
    }
}

/// A dispute, a resolve or a chargeback that names a transaction id that
/// the ledger does not hold changes nothing and does not end the run. The
/// one thing it leaves behind is the account of its client, opened as for
/// any record.
pub proof fn lemma_unknown_target_is_ignored(ledger: Ledger, entry: TransactionModel)
    requires
        entry.action == Action::Dispute || entry.action == Action::Resolve || entry.action
            == Action::Chargeback,
        !ledger.transactions.contains_key(entry.id),
    ensures
        ledger.step(entry) == (Outcome {
            ledger: ledger.open_account(entry.client_id),
            result: Ok(()),
        }),
        ledger.account_of(entry.client_id).representable() ==> ledger.bounded_step(entry)
            == ledger.step(entry),
{
}

/// A dispute, a resolve or a chargeback by a client whose account does not
/// own the transaction it names changes nothing. So does a resolve or a
/// chargeback of a transaction that is not under dispute, and a dispute of
/// one that is. None of them ends the run.
pub proof fn lemma_misplaced_record_is_ignored(ledger: Ledger, entry: TransactionModel)
    requires
        ledger.transactions.contains_key(entry.id),
        ({
            ||| (entry.action == Action::Dispute || entry.action == Action::Resolve || entry.action
                == Action::Chargeback) && ledger.transactions[entry.id].client_id
                != ledger.account_of(entry.client_id).id
            ||| (entry.action == Action::Resolve || entry.action == Action::Chargeback)
                && !ledger.transactions[entry.id].is_under_dispute
            ||| entry.action == Action::Dispute && ledger.transactions[entry.id].is_under_dispute
        }),
    ensures
        ledger.step(entry) == (Outcome {
            ledger: ledger.open_account(entry.client_id),
            result: Ok(()),
        }),
        ledger.account_of(entry.client_id).representable() ==> ledger.bounded_step(entry)
            == ledger.step(entry),
{
}

/// No record moves an account to another id, nor opens one under an id
/// that it does not carry.
pub proof fn lemma_step_keeps_keys(ledger: Ledger, entry: TransactionModel)
    requires
        ledger.keyed(),
    ensures
        ledger.step(entry).ledger.keyed(),
        ledger.bounded_step(entry).ledger.keyed(),
{
    let opened = ledger.open_account(entry.client_id);
    assert(opened.keyed());
}

/// Through any sequence of records every account stands under the id that
/// it carries, where that held at the start: as it does of a new ledger.
pub proof fn lemma_run_keeps_keys(ledger: Ledger, entries: Seq<TransactionModel>)
    requires
        ledger.keyed(),
    ensures
        ledger.run(entries).keyed(),
        Ledger::empty().keyed(),
    decreases entries.len(),
{
    if entries.len() > 0 {
        lemma_step_keeps_keys(ledger, entries[0]);
        let outcome = ledger.bounded_step(entries[0]);
        if outcome.result.is_ok() {
            lemma_run_keeps_keys(outcome.ledger, entries.drop_first());
        }
    }
}

/// Where every account stands under its own id, the account of a record's
/// client owns the stored transaction that the record names exactly when
/// that transaction is of the same client.
pub proof fn lemma_owner_is_client(ledger: Ledger, entry: TransactionModel)
    requires
        ledger.keyed(),
    ensures
        ledger.open_account(entry.client_id).owns_target(entry) == (
        ledger.transactions.contains_key(entry.id) && ledger.transactions[entry.id].client_id
            == entry.client_id),
{
}

/// With bounded balances a record does all that it does without bounds, or
/// it ends the run with nothing done but the client's account opened. The
/// second happens exactly when a balance of that account would leave the
/// range.
pub proof fn lemma_bounded_step_is_all_or_nothing(ledger: Ledger, entry: TransactionModel)
    ensures
        ledger.step(entry).ledger.accounts[entry.client_id].representable()
            ==> ledger.bounded_step(entry) == ledger.step(entry),
        !ledger.step(entry).ledger.accounts[entry.client_id].representable()
            ==> ledger.bounded_step(entry) == (Outcome {
            ledger: ledger.open_account(entry.client_id),
            result: Err(LedgerError::Overflow),
        }),
        ledger.account_of(entry.client_id).representable() ==> ledger.bounded_step(
            entry,
        ).ledger.accounts[entry.client_id].representable(),
{
}

/// Where every account stands under its own id, a client's dispute of a
/// stored deposit of that client that is not under dispute moves the
/// deposit's amount from what the client has available to what is held,
/// and marks the deposit. With bounded balances it does so where the two
/// new balances are in range, and else ends the run.
pub proof fn lemma_dispute_by_owner(ledger: Ledger, entry: TransactionModel, amount: int)
    requires
        ledger.keyed(),
        entry.action == Action::Dispute,
        ledger.transactions.contains_key(entry.id),
        ledger.transactions[entry.id].action == Action::Deposit,
        ledger.transactions[entry.id].amount == Some(amount),
        ledger.transactions[entry.id].client_id == entry.client_id,
        !ledger.transactions[entry.id].is_under_dispute,
        ledger.account_of(entry.client_id).representable(),
    ensures
        ledger.step(entry) == (Outcome {
            ledger: ledger.open_account(entry.client_id).with_transaction(
                entry.id,
                TransactionModel { is_under_dispute: true, ..ledger.transactions[entry.id] },
            ).with_account(
                entry.client_id,
                AccountModel {
                    available: ledger.account_of(entry.client_id).available - amount,
                    held: ledger.account_of(entry.client_id).held + amount,
                    ..ledger.account_of(entry.client_id)
                },
            ),
            result: Ok(()),
        }),
        ledger.bounded_step(entry) == (if representable(
            ledger.account_of(entry.client_id).available - amount,
        ) && representable(ledger.account_of(entry.client_id).held + amount) {
            ledger.step(entry)
        } else {
            Outcome {
                ledger: ledger.open_account(entry.client_id),
                result: Err(LedgerError::Overflow),
            }
        }),
{
}

/// With bounded balances a withdrawal does one of three things. One of
/// more than is available is stored as failed and moves nothing. One of no
/// more is taken from what is available and from the total and stored as
/// not failed, where both new balances are in range. Where they are not,
/// the run ends and nothing is stored.
pub proof fn lemma_withdrawal_with_bounds(ledger: Ledger, entry: TransactionModel, amount: int)
    requires
        entry.action == Action::Withdrawal,
        entry.amount == Some(amount),
        ledger.account_of(entry.client_id).representable(),
    ensures
        ledger.bounded_step(entry) == ({
            let opened = ledger.open_account(entry.client_id);
            let account = ledger.account_of(entry.client_id);
            let stored = TransactionModel { is_under_dispute: false, failed: false, ..entry };
            if amount > account.available {
                Outcome {
                    ledger: opened.with_transaction(
                        entry.id,
                        TransactionModel { failed: true, ..stored },
                    ),
                    result: Ok(()),
                }
            } else if representable(account.available - amount) && representable(
                account.total - amount,
            ) {
                Outcome {
                    ledger: opened.with_account(
                        entry.client_id,
                        AccountModel {
                            available: account.available - amount,
                            total: account.total - amount,
                            ..account
                        },
                    ).with_transaction(entry.id, stored),
                    result: Ok(()),
                }
            } else {
                Outcome { ledger: opened, result: Err(LedgerError::Overflow) }
            }
        }),
{
}

/// With bounded balances a chargeback of a stored deposit that is under
/// dispute takes the deposit's amount from what is held and from the
/// total, locks the account and clears the mark, where both new balances
/// are in range. Where they are not, the run ends with nothing done.
pub proof fn lemma_chargeback_with_bounds(ledger: Ledger, entry: TransactionModel, amount: int)
    requires
        entry.action == Action::Chargeback,
        names_owned_deposit(ledger, entry, amount),
        ledger.transactions[entry.id].is_under_dispute,
        ledger.accounts[entry.client_id].representable(),
    ensures
        ledger.bounded_step(entry) == ({
            let account = ledger.accounts[entry.client_id];
            if representable(account.held - amount) && representable(account.total - amount) {
                Outcome {
                    ledger: ledger.with_transaction(
                        entry.id,
                        TransactionModel {
                            is_under_dispute: false,
                            ..ledger.transactions[entry.id]
                        },
                    ).with_account(
                        entry.client_id,
                        AccountModel {
                            held: account.held - amount,
                            total: account.total - amount,
                            locked: true,
                            ..account
                        },
                    ),
                    result: Ok(()),
                }
            } else {
                Outcome { ledger, result: Err(LedgerError::Overflow) }
            }
        }),
{
}

/// A record ends the run only for one of three reasons: a deposit or a
/// withdrawal has no amount, the stored transaction that it moves has none,
/// or a balance leaves the range that an account can hold.
pub proof fn lemma_reasons_to_stop(ledger: Ledger, entry: TransactionModel)
    ensures
        (entry.action == Action::Deposit || entry.action == Action::Withdrawal) ==> (
        ledger.step(entry).result.is_err() <==> entry.amount.is_none()),
        ledger.step(entry).result != Err::<(), LedgerError>(LedgerError::Overflow),
        ledger.bounded_step(entry).result == Err::<(), LedgerError>(LedgerError::Overflow)
            <==> !ledger.step(entry).ledger.accounts[entry.client_id].representable(),
{
}

} // verus!
