//! Transaction records and client accounts, each with its mathematical model.

use vstd::prelude::*;
use vstd::string::StrSliceExecFns;
use crate::amount::{representable, units_of, Amount};

verus! {

/// What a record asks the ledger to do.
#[derive(Clone, Copy, Debug, PartialEq, Eq, Structural)]
pub enum Action {
    Deposit,
    Withdrawal,
    Dispute,
    Resolve,
    Chargeback,
}

/// The letter `c` in lower case where it is an upper-case letter of ASCII,
/// and `c` itself where it is not.
pub open spec fn lowered(c: char) -> char {
    if 'A' <= c <= 'Z' {
        ((c as u8) + 32) as u8 as char
    } else {
        c
    }
}

/// `text` with each of its letters in lower case.
pub open spec fn lowered_text(text: Seq<char>) -> Seq<char> {
    text.map_values(|c: char| lowered(c))
}

fn lower(c: char) -> (result: char)
    ensures
        result == lowered(c),
{
    if 'A' <= c && c <= 'Z' {
        let code: u8 = c as u8;
        (code + 32) as char
    } else {
        c
    }
}

/// Whether `name`, in lower case, is `word`.
fn reads_as(name: &str, word: &str) -> (result: bool)
    ensures
        result == (lowered_text(name@) == word@),
{
    let length: usize = name.unicode_len();
    if length != word.unicode_len() {
        return false;
    }
    let mut at: usize = 0;
    while at < length
        invariant
            length == name@.len(),
            length == word@.len(),
            at <= length,
            forall|i: int| 0 <= i < at ==> lowered(#[trigger] name@[i]) == word@[i],
        decreases length - at,
    {
        if lower(name.get_char(at)) != word.get_char(at) {
            assert(lowered_text(name@)[at as int] != word@[at as int]);
            return false;
        }
        at += 1;
    }
    assert(lowered_text(name@) =~= word@);
    true
}

impl Action {
    /// The name of the action as records write it.
    pub open spec fn name(self) -> Seq<char> {
        match self {
            Action::Deposit => "deposit"@,
            Action::Withdrawal => "withdrawal"@,
            Action::Dispute => "dispute"@,
            Action::Resolve => "resolve"@,
            Action::Chargeback => "chargeback"@,
        }
    }

    /// The action that `text` names, whatever the case of its letters.
    pub open spec fn named(text: Seq<char>) -> Option<Action> {
        let lower = lowered_text(text);
        if lower == Action::Deposit.name() {
            Some(Action::Deposit)
        } else if lower == Action::Withdrawal.name() {
            Some(Action::Withdrawal)
        } else if lower == Action::Dispute.name() {
            Some(Action::Dispute)
        } else if lower == Action::Resolve.name() {
            Some(Action::Resolve)
        } else if lower == Action::Chargeback.name() {
            Some(Action::Chargeback)
        } else {
            None
        }
    }

    /// The action that `name` names, whatever the case of its letters, or
    /// `None` where it names none.
    pub fn from_name(name: &str) -> (result: Option<Action>)
        ensures
            result == Action::named(name@),
    {
        if reads_as(name, "deposit") {
            Some(Action::Deposit)
        } else if reads_as(name, "withdrawal") {
            Some(Action::Withdrawal)
        } else if reads_as(name, "dispute") {
            Some(Action::Dispute)
        } else if reads_as(name, "resolve") {
            Some(Action::Resolve)
        } else if reads_as(name, "chargeback") {
            Some(Action::Chargeback)
        } else {
            None
        }
    }
}

/// One record of the input stream, and, for a deposit or a withdrawal, the
/// entry that the ledger keeps of it.
#[derive(Clone, Copy, Debug, PartialEq, Eq)]
pub struct Transaction {
    pub action: Action,
    pub client_id: u16,
    pub id: u32,
    /// Present on a deposit or a withdrawal; a record without one is told
    /// apart from a record of zero.
    pub amount: Option<Amount>,
    pub is_under_dispute: bool,
    /// Set on a withdrawal that asked for more than was available.
    pub failed: bool,
}

/// A transaction with its amount as an unbounded number of units.
pub struct TransactionModel {
    pub action: Action,
    pub client_id: u16,
    pub id: u32,
    pub amount: Option<int>,
    pub is_under_dispute: bool,
    pub failed: bool,
}

impl TransactionModel {
    pub open spec fn is_withdrawal(self) -> bool {
        self.action == Action::Withdrawal
    }

    /// The amount as a dispute moves it: a withdrawal counts with the
    /// opposite sign, every other record as it stands.
    pub open spec fn amount_with_sign(self) -> Option<int> {
        match self.amount {
            Some(amount) => Some(
                if self.is_withdrawal() {
                    -amount
                } else {
                    amount
                },
            ),
            None => None,
        }
    }
}

impl View for Transaction {
    type V = TransactionModel;

    open spec fn view(&self) -> TransactionModel {
        TransactionModel {
            action: self.action,
            client_id: self.client_id,
            id: self.id,
            amount: units_of(self.amount),
            is_under_dispute: self.is_under_dispute,
            failed: self.failed,
        }
    }
}

impl Transaction {
    pub fn is_withdrawal(&self) -> (result: bool)
        ensures
            result == self@.is_withdrawal(),
    {
        self.action == Action::Withdrawal
    }

    /// The amount as a dispute moves it, or `None` where the record has no
    /// amount.
    pub fn amount_with_sign(&self) -> (result: Option<Amount>)
        ensures
            units_of(result) == self@.amount_with_sign(),
    {
        match self.amount {
            Some(amount) => if self.is_withdrawal() {
                Some(amount.negated())
            } else {
                Some(amount)
            },
            None => None,
        }
    }
}

/// The balance of one client.
#[derive(Clone, Copy, Debug, PartialEq, Eq)]
pub struct Account {
    pub id: u16,
    /// Funds that can be withdrawn.
    pub available: Amount,
    /// Funds frozen by open disputes.
    pub held: Amount,
    pub total: Amount,
    /// Set by a chargeback, and never cleared.
    pub locked: bool,
}

/// An account with its balances as unbounded numbers of units.
pub struct AccountModel {
    pub id: u16,
    pub available: int,
    pub held: int,
    pub total: int,
    pub locked: bool,
}

impl AccountModel {
    /// The account of a client of whom nothing is known yet.
    pub open spec fn fresh(id: u16) -> AccountModel {
        AccountModel { id, available: 0, held: 0, total: 0, locked: false }
    }

    /// The total is what is available and what is held together.
    pub open spec fn balanced(self) -> bool {
        self.total == self.available + self.held
    }

    /// Whether an [`Account`] can hold all three balances.
    pub open spec fn representable(self) -> bool {
        &&& representable(self.available)
        &&& representable(self.held)
        &&& representable(self.total)
    }

    pub open spec fn deposit(self, amount: int) -> AccountModel {
        AccountModel {
            available: self.available + amount,
            total: self.total + amount,
            ..self
        }
    }

    pub open spec fn withdraw(self, amount: int) -> AccountModel {
        AccountModel {
            available: self.available - amount,
            total: self.total - amount,
            ..self
        }
    }

    pub open spec fn dispute(self, amount: int) -> AccountModel {
        AccountModel {
            available: self.available - amount,
            held: self.held + amount,
            ..self
        }
    }

    pub open spec fn resolve(self, amount: int) -> AccountModel {
        AccountModel {
            available: self.available + amount,
            held: self.held - amount,
            ..self
        }
    }

    pub open spec fn chargeback(self, amount: int) -> AccountModel {
        AccountModel {
            held: self.held - amount,
            total: self.total - amount,
            locked: true,
            ..self
        }
    }
}

impl View for Account {
    type V = AccountModel;

    open spec fn view(&self) -> AccountModel {
        AccountModel {
            id: self.id,
            available: self.available@,
            held: self.held@,
            total: self.total@,
            locked: self.locked,
        }
    }
}

impl Account {
    /// An empty, unlocked account for client `id`.
    pub fn new(id: u16) -> (result: Account)
        ensures
            result@ == AccountModel::fresh(id),
    {
        Account {
            id,
            available: Amount::zero(),
            held: Amount::zero(),
            total: Amount::zero(),
            locked: false,
        }
    }

    /// Adds `amount` to what is available.
    pub fn deposit(&mut self, amount: Amount)
        requires
            representable(old(self).available@ + amount@),
            representable(old(self).total@ + amount@),
        ensures
            final(self)@ == old(self)@.deposit(amount@),
    {
        self.available = self.available.checked_add(amount).unwrap();
        self.total = self.total.checked_add(amount).unwrap();
    }

    /// Takes `amount` from what is available.
    pub fn withdraw(&mut self, amount: Amount)
        requires
            representable(old(self).available@ - amount@),
            representable(old(self).total@ - amount@),
        ensures
            final(self)@ == old(self)@.withdraw(amount@),
    {
        self.available = self.available.checked_sub(amount).unwrap();
        self.total = self.total.checked_sub(amount).unwrap();
    }

    /// Freezes `amount`: it leaves what is available and is held.
    pub fn dispute(&mut self, amount: Amount)
        requires
            representable(old(self).available@ - amount@),
            representable(old(self).held@ + amount@),
        ensures
            final(self)@ == old(self)@.dispute(amount@),
    {
        self.available = self.available.checked_sub(amount).unwrap();
        self.held = self.held.checked_add(amount).unwrap();
    }

    /// Releases `amount`: it is no longer held and is available again.
    pub fn resolve(&mut self, amount: Amount)
        requires
            representable(old(self).available@ + amount@),
            representable(old(self).held@ - amount@),
        ensures
            final(self)@ == old(self)@.resolve(amount@),
    {
        self.available = self.available.checked_add(amount).unwrap();
        self.held = self.held.checked_sub(amount).unwrap();
    }

    /// Gives `amount` back: it leaves what is held, and the account is
    /// locked.
    pub fn chargeback(&mut self, amount: Amount)
        requires
            representable(old(self).held@ - amount@),
            representable(old(self).total@ - amount@),
        ensures
            final(self)@ == old(self)@.chargeback(amount@),
    {
        self.held = self.held.checked_sub(amount).unwrap();
        self.total = self.total.checked_sub(amount).unwrap();
        self.locked = true;
    }
}

} // verus!
