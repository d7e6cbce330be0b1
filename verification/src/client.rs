//! The per-client account: three running balances, a permanent lock, and the
//! stored deposit and withdrawal records that disputes refer to.
//!
//! Each operation is specified against [`AccountModel`], the mathematical
//! state of an account, by a total spec-level transition function; the
//! executable methods are proved to follow those transitions exactly and to
//! keep the balance-sheet invariant `total == available + held`.

use crate::money::Money;
use crate::transaction::Transaction;
use crate::transaction::TransactionModel;
use crate::Error;
use std::collections::BTreeMap;
use vstd::prelude::*;

verus! {

broadcast use
    crate::money::lemma_money_fits,
    vstd::laws_cmp::group_laws_cmp,
    vstd::std_specs::btree::group_btree_axioms,
;

/// The mathematical state of an account: unbounded-integer balances, the
/// lock flag, and the stored transactions by id.
#[verifier::ext_equal]
pub struct AccountModel {
    pub client_id: u16,
    pub available: int,
    pub held: int,
    pub total: int,
    pub locked: bool,
    pub transactions: Map<u32, TransactionModel>,
}

impl AccountModel {
    /// The balance-sheet invariant: the total is exactly the available
    /// funds plus the held funds.
    pub open spec fn balanced(self) -> bool {
        self.total == self.available + self.held
    }

    /// The state of a newly created account: all balances zero, unlocked,
    /// no stored transaction.
    pub open spec fn fresh(client_id: u16) -> AccountModel {
        AccountModel {
            client_id,
            available: 0,
            held: 0,
            total: 0,
            locked: false,
            transactions: Map::empty(),
        }
    }
}

/// What a deposit does to an account: on a locked account it is rejected and
/// nothing changes; otherwise the record is stored undisputed and the amount
/// is added to both the available and the total funds.
pub open spec fn spec_deposit(a: AccountModel, transaction_id: u32, amount: int) -> (
    AccountModel,
    Result<(), Error>,
) {
    if a.locked {
        (a, Err(Error::LockedAccount(a.client_id)))
    } else {
        (
            AccountModel {
                available: a.available + amount,
                total: a.total + amount,
                transactions: a.transactions.insert(
                    transaction_id,
                    TransactionModel { transaction_id, amount, disputed: false },
                ),
                ..a
            },
            Ok(()),
        )
    }
}

/// What a withdrawal does to an account: rejected on a locked account, and
/// rejected without any change when the available funds fall short of the
/// amount; otherwise the record is stored undisputed and the amount is taken
/// from both the available and the total funds.
pub open spec fn spec_withdrawal(a: AccountModel, transaction_id: u32, amount: int) -> (
    AccountModel,
    Result<(), Error>,
) {
    if a.locked {
        (a, Err(Error::LockedAccount(a.client_id)))
    } else if a.available < amount {
        (a, Err(Error::NotEnoughCredit(a.client_id)))
    } else {
        (
            AccountModel {
                available: a.available - amount,
                total: a.total - amount,
                transactions: a.transactions.insert(
                    transaction_id,
                    TransactionModel { transaction_id, amount, disputed: false },
                ),
                ..a
            },
            Ok(()),
        )
    }
}

/// What a dispute does to an account: rejected on a locked account, and
/// rejected when the transaction id is unknown; otherwise the record is
/// marked disputed and its amount moves from the available funds to the
/// held funds. The prior dispute flag is not consulted: disputing an
/// already-disputed transaction applies the shift again, and only a resolve
/// or chargeback in between releases it.
pub open spec fn spec_dispute(a: AccountModel, transaction_id: u32) -> (
    AccountModel,
    Result<(), Error>,
) {
    if a.locked {
        (a, Err(Error::LockedAccount(a.client_id)))
    } else if !a.transactions.contains_key(transaction_id) {
        (a, Err(Error::TransactionDoesNotExist(a.client_id, transaction_id)))
    } else {
        let t = a.transactions[transaction_id];
        (
            AccountModel {
                available: a.available - t.amount,
                held: a.held + t.amount,
                transactions: a.transactions.insert(
                    transaction_id,
                    TransactionModel { disputed: true, ..t },
                ),
                ..a
            },
            Ok(()),
        )
    }
}

/// What a resolve does to an account: rejected on a locked account, when the
/// transaction id is unknown, or when the transaction is not under dispute;
/// otherwise the dispute flag is cleared and the amount moves back from the
/// held funds to the available funds.
pub open spec fn spec_resolve(a: AccountModel, transaction_id: u32) -> (
    AccountModel,
    Result<(), Error>,
) {
    if a.locked {
        (a, Err(Error::LockedAccount(a.client_id)))
    } else if !a.transactions.contains_key(transaction_id) {
        (a, Err(Error::TransactionDoesNotExist(a.client_id, transaction_id)))
    } else if !a.transactions[transaction_id].disputed {
        (a, Err(Error::TransactionNotDisputed(transaction_id, a.client_id)))
    } else {
        let t = a.transactions[transaction_id];
        (
            AccountModel {
                available: a.available + t.amount,
                held: a.held - t.amount,
                transactions: a.transactions.insert(
                    transaction_id,
                    TransactionModel { disputed: false, ..t },
                ),
                ..a
            },
            Ok(()),
        )
    }
}

/// What a chargeback does to an account: rejected on a locked account, when
/// the transaction id is unknown, or when the transaction is not under
/// dispute; otherwise the dispute flag is cleared, the amount leaves both
/// the held funds and the total (it is not returned to the available funds),
/// and the account is locked for good.
pub open spec fn spec_chargeback(a: AccountModel, transaction_id: u32) -> (
    AccountModel,
    Result<(), Error>,
) {
    if a.locked {
        (a, Err(Error::LockedAccount(a.client_id)))
    } else if !a.transactions.contains_key(transaction_id) {
        (a, Err(Error::TransactionDoesNotExist(a.client_id, transaction_id)))
    } else if !a.transactions[transaction_id].disputed {
        (a, Err(Error::TransactionNotDisputed(transaction_id, a.client_id)))
    } else {
        let t = a.transactions[transaction_id];
        (
            AccountModel {
                held: a.held - t.amount,
                total: a.total - t.amount,
                locked: true,
                transactions: a.transactions.insert(
                    transaction_id,
                    TransactionModel { disputed: false, ..t },
                ),
                ..a
            },
            Ok(()),
        )
    }
}

/// A deposit's arithmetic stays within the fixed-point range.
pub open spec fn deposit_fits(a: AccountModel, amount: int) -> bool {
    !a.locked ==> {
        &&& i64::MIN <= a.available + amount <= i64::MAX
        &&& i64::MIN <= a.total + amount <= i64::MAX
    }
}

/// A dispute's arithmetic stays within the fixed-point range.
pub open spec fn dispute_fits(a: AccountModel, transaction_id: u32) -> bool {
    (!a.locked && a.transactions.contains_key(transaction_id)) ==> {
        let amt = a.transactions[transaction_id].amount;
        &&& i64::MIN <= a.held + amt <= i64::MAX
        &&& i64::MIN <= a.available - amt <= i64::MAX
    }
}

/// A resolve's arithmetic stays within the fixed-point range.
pub open spec fn resolve_fits(a: AccountModel, transaction_id: u32) -> bool {
    (!a.locked && a.transactions.contains_key(transaction_id)
        && a.transactions[transaction_id].disputed) ==> {
        let amt = a.transactions[transaction_id].amount;
        &&& i64::MIN <= a.held - amt <= i64::MAX
        &&& i64::MIN <= a.available + amt <= i64::MAX
    }
}

/// A chargeback's arithmetic stays within the fixed-point range.
pub open spec fn chargeback_fits(a: AccountModel, transaction_id: u32) -> bool {
    (!a.locked && a.transactions.contains_key(transaction_id)
        && a.transactions[transaction_id].disputed) ==> {
        let amt = a.transactions[transaction_id].amount;
        &&& i64::MIN <= a.held - amt <= i64::MAX
        &&& i64::MIN <= a.total - amt <= i64::MAX
    }
}

/// The stored transactions of an account, seen mathematically.
pub open spec fn transactions_view(m: Map<u32, Transaction>) -> Map<u32, TransactionModel> {
    m.map_values(|t: Transaction| t@)
}

proof fn lemma_transactions_view_insert(m: Map<u32, Transaction>, k: u32, t: Transaction)
    ensures
        transactions_view(m.insert(k, t)) =~= transactions_view(m).insert(k, t@),
{
}

/// A frozen account rejects every operation: each of the five transitions
/// leaves the state unchanged and answers `LockedAccount` with the
/// account's client id.
pub proof fn lemma_locked_rejects_all(a: AccountModel, transaction_id: u32, amount: int)
    requires
        a.locked,
    ensures
        spec_deposit(a, transaction_id, amount) == (
            a,
            Err::<(), Error>(Error::LockedAccount(a.client_id)),
        ),
        spec_withdrawal(a, transaction_id, amount) == (
            a,
            Err::<(), Error>(Error::LockedAccount(a.client_id)),
        ),
        spec_dispute(a, transaction_id) == (a, Err::<(), Error>(Error::LockedAccount(a.client_id))),
        spec_resolve(a, transaction_id) == (a, Err::<(), Error>(Error::LockedAccount(a.client_id))),
        spec_chargeback(a, transaction_id) == (
            a,
            Err::<(), Error>(Error::LockedAccount(a.client_id)),
        ),
{
}

/// No operation ever unlocks an account: once `locked` holds it holds after
/// every transition.
pub proof fn lemma_lock_is_permanent(a: AccountModel, transaction_id: u32, amount: int)
    requires
        a.locked,
    ensures
        spec_deposit(a, transaction_id, amount).0.locked,
        spec_withdrawal(a, transaction_id, amount).0.locked,
        spec_dispute(a, transaction_id).0.locked,
        spec_resolve(a, transaction_id).0.locked,
        spec_chargeback(a, transaction_id).0.locked,
{
}

/// A successful resolve clears the dispute flag, so resolving or charging
/// back the same transaction again, without a new dispute, is rejected with
/// `TransactionNotDisputed` and changes nothing.
pub proof fn lemma_resolve_clears_dispute(a: AccountModel, transaction_id: u32)
    requires
        spec_resolve(a, transaction_id).1 is Ok,
    ensures
        ({
            let b = spec_resolve(a, transaction_id).0;
            &&& spec_resolve(b, transaction_id) == (
                b,
                Err::<(), Error>(Error::TransactionNotDisputed(transaction_id, b.client_id)),
            )
            &&& spec_chargeback(b, transaction_id) == (
                b,
                Err::<(), Error>(Error::TransactionNotDisputed(transaction_id, b.client_id)),
            )
        }),
{
}

/// A successful chargeback clears the dispute flag and freezes the account,
/// so resolving or charging back the same transaction again is rejected and
/// changes nothing; the answer is `LockedAccount`, because the lock check
/// comes before the dispute check.
pub proof fn lemma_chargeback_locks(a: AccountModel, transaction_id: u32)
    requires
        spec_chargeback(a, transaction_id).1 is Ok,
    ensures
        ({
            let b = spec_chargeback(a, transaction_id).0;
            &&& b.locked
            &&& spec_resolve(b, transaction_id) == (
                b,
                Err::<(), Error>(Error::LockedAccount(b.client_id)),
            )
            &&& spec_chargeback(b, transaction_id) == (
                b,
                Err::<(), Error>(Error::LockedAccount(b.client_id)),
            )
        }),
{
}

/// Disputing a stored transaction and then resolving it succeeds and
/// restores the available, held and total funds exactly.
pub proof fn lemma_dispute_resolve_round_trip(a: AccountModel, transaction_id: u32)
    requires
        !a.locked,
        a.transactions.contains_key(transaction_id),
    ensures
        ({
            let b = spec_dispute(a, transaction_id).0;
            let c = spec_resolve(b, transaction_id).0;
            &&& spec_dispute(a, transaction_id).1 is Ok
            &&& spec_resolve(b, transaction_id).1 is Ok
            &&& c.available == a.available
            &&& c.held == a.held
            &&& c.total == a.total
            &&& c.locked == a.locked
        }),
{
}

/// Depositing an amount, disputing that deposit, and then resolving it
/// succeeds throughout and restores the available and held funds to their
/// values just after the deposit.
pub proof fn lemma_deposit_dispute_resolve_round_trip(
    a: AccountModel,
    transaction_id: u32,
    amount: int,
)
    requires
        !a.locked,
    ensures
        ({
            let b = spec_deposit(a, transaction_id, amount).0;
            let c = spec_dispute(b, transaction_id).0;
            let d = spec_resolve(c, transaction_id).0;
            &&& spec_deposit(a, transaction_id, amount).1 is Ok
            &&& spec_dispute(b, transaction_id).1 is Ok
            &&& spec_resolve(c, transaction_id).1 is Ok
            &&& d.available == b.available
            &&& d.held == b.held
            &&& d.available == a.available + amount
            &&& d.held == a.held
            &&& d.total == a.total + amount
        }),
{
}

/// One client's account: the running balances, the permanent lock, and the
/// deposit and withdrawal records that disputes may refer to.
#[derive(Debug)]
pub struct Client {
    client_id: u16,
    available_amount: Money,
    held_amount: Money,
    total_amount: Money,
    locked: bool,
    transactions: BTreeMap<u32, Transaction>,
}

impl View for Client {
    type V = AccountModel;

    closed spec fn view(&self) -> AccountModel {
        AccountModel {
            client_id: self.client_id,
            available: self.available_amount@,
            held: self.held_amount@,
            total: self.total_amount@,
            locked: self.locked,
            transactions: transactions_view(self.transactions@),
        }
    }
}

impl Client {
    /// A fresh, unlocked account for this client with all balances zero.
    pub fn new(id: u16) -> (c: Self)
        ensures
            c@ == AccountModel::fresh(id),
            c@.balanced(),
    {
        let c = Client {
            client_id: id,
            available_amount: Money::zero(),
            held_amount: Money::zero(),
            total_amount: Money::zero(),
            locked: false,
            transactions: BTreeMap::new(),
        };
        proof {
            assert(c@ =~= AccountModel::fresh(id));
        }
        c
    }

    /// Credit the account: store the record and add the amount to the
    /// available and total funds, exactly as [`spec_deposit`] says.
    pub fn deposit(&mut self, transaction_id: u32, amount: Money) -> (r: Result<(), Error>)
        requires
            old(self)@.balanced(),
            amount@ >= 0,
            deposit_fits(old(self)@, amount@),
        ensures
            final(self)@ == spec_deposit(old(self)@, transaction_id, amount@).0,
            r == spec_deposit(old(self)@, transaction_id, amount@).1,
            final(self)@.balanced(),
    {
        if self.locked {
            return Err(Error::LockedAccount(self.client_id));
        }
        let ghost pre = self.transactions@;
        let t = Transaction::new(transaction_id, amount);
        self.transactions.insert(transaction_id, t);
        self.total_amount = self.total_amount.plus(amount);
        self.available_amount = self.available_amount.plus(amount);
        proof {
            lemma_transactions_view_insert(pre, transaction_id, t);
            assert(self@ =~= spec_deposit(old(self)@, transaction_id, amount@).0);
        }
        Ok(())
    }

    /// Debit the account if the available funds cover the amount: store the
    /// record and take the amount from the available and total funds,
    /// exactly as [`spec_withdrawal`] says.
    pub fn withdrawal(&mut self, transaction_id: u32, amount: Money) -> (r: Result<(), Error>)
        requires
            old(self)@.balanced(),
            amount@ >= 0,
        ensures
            final(self)@ == spec_withdrawal(old(self)@, transaction_id, amount@).0,
            r == spec_withdrawal(old(self)@, transaction_id, amount@).1,
            final(self)@.balanced(),
    {
        if self.locked {
            return Err(Error::LockedAccount(self.client_id));
        }
        if self.available_amount.less_than(amount) {
            return Err(Error::NotEnoughCredit(self.client_id));
        }
        let ghost pre = self.transactions@;
        let t = Transaction::new(transaction_id, amount);
        self.transactions.insert(transaction_id, t);
        self.total_amount = self.total_amount.minus(amount);
        self.available_amount = self.available_amount.minus(amount);
        proof {
            lemma_transactions_view_insert(pre, transaction_id, t);
            assert(self@ =~= spec_withdrawal(old(self)@, transaction_id, amount@).0);
        }
        Ok(())
    }

    /// Open a dispute against a stored transaction: mark it disputed and
    /// move its amount from the available to the held funds, exactly as
    /// [`spec_dispute`] says.
    pub fn dispute(&mut self, transaction_id: u32) -> (r: Result<(), Error>)
        requires
            old(self)@.balanced(),
            dispute_fits(old(self)@, transaction_id),
        ensures
            final(self)@ == spec_dispute(old(self)@, transaction_id).0,
            r == spec_dispute(old(self)@, transaction_id).1,
            final(self)@.balanced(),
    {
        if self.locked {
            return Err(Error::LockedAccount(self.client_id));
        }
        let found = self.transactions.get(&transaction_id);
        match found {
            Some(t_ref) => {
                let mut t = *t_ref;
                let ghost pre = self.transactions@;
                t.set_dispute_status(true);
                let amount = t.get_amount();
                self.transactions.insert(transaction_id, t);
                self.held_amount = self.held_amount.plus(amount);
                self.available_amount = self.available_amount.minus(amount);
                proof {
                    lemma_transactions_view_insert(pre, transaction_id, t);
                    assert(self@ =~= spec_dispute(old(self)@, transaction_id).0);
                }
                Ok(())
            },
            None => Err(Error::TransactionDoesNotExist(self.client_id, transaction_id)),
        }
    }

    /// Close a dispute in the client's favour: clear the dispute flag and
    /// move the amount back from the held to the available funds, exactly
    /// as [`spec_resolve`] says.
    pub fn resolve(&mut self, transaction_id: u32) -> (r: Result<(), Error>)
        requires
            old(self)@.balanced(),
            resolve_fits(old(self)@, transaction_id),
        ensures
            final(self)@ == spec_resolve(old(self)@, transaction_id).0,
            r == spec_resolve(old(self)@, transaction_id).1,
            final(self)@.balanced(),
    {
        if self.locked {
            return Err(Error::LockedAccount(self.client_id));
        }
        let found = self.transactions.get(&transaction_id);
        match found {
            Some(t_ref) => {
                let mut t = *t_ref;
                if !t.get_dispute_status() {
                    return Err(Error::TransactionNotDisputed(transaction_id, self.client_id));
                }
                let ghost pre = self.transactions@;
                t.set_dispute_status(false);
                let amount = t.get_amount();
                self.transactions.insert(transaction_id, t);
                self.held_amount = self.held_amount.minus(amount);
                self.available_amount = self.available_amount.plus(amount);
                proof {
                    lemma_transactions_view_insert(pre, transaction_id, t);
                    assert(self@ =~= spec_resolve(old(self)@, transaction_id).0);
                }
                Ok(())
            },
            None => Err(Error::TransactionDoesNotExist(self.client_id, transaction_id)),
        }
    }

    /// Confirm a dispute against the client: clear the dispute flag, remove
    /// the amount from the held and total funds for good, and freeze the
    /// account permanently, exactly as [`spec_chargeback`] says.
    pub fn chargeback(&mut self, transaction_id: u32) -> (r: Result<(), Error>)
        requires
            old(self)@.balanced(),
            chargeback_fits(old(self)@, transaction_id),
        ensures
            final(self)@ == spec_chargeback(old(self)@, transaction_id).0,
            r == spec_chargeback(old(self)@, transaction_id).1,
            final(self)@.balanced(),
    {
        if self.locked {
            return Err(Error::LockedAccount(self.client_id));
        }
        let found = self.transactions.get(&transaction_id);
        match found {
            Some(t_ref) => {
                let mut t = *t_ref;
                if !t.get_dispute_status() {
                    return Err(Error::TransactionNotDisputed(transaction_id, self.client_id));
                }
                let ghost pre = self.transactions@;
                t.set_dispute_status(false);
                let amount = t.get_amount();
                self.transactions.insert(transaction_id, t);
                self.held_amount = self.held_amount.minus(amount);
                self.total_amount = self.total_amount.minus(amount);
                self.locked = true;
                proof {
                    lemma_transactions_view_insert(pre, transaction_id, t);
                    assert(self@ =~= spec_chargeback(old(self)@, transaction_id).0);
                }
                Ok(())
            },
            None => Err(Error::TransactionDoesNotExist(self.client_id, transaction_id)),
        }
    }

    /// The id of the client that owns this account.
    pub fn client_id(&self) -> (id: u16)
        ensures
            id == self@.client_id,
    {
        self.client_id
    }

    /// The funds the client may spend or withdraw now.
    pub fn available(&self) -> (m: Money)
        ensures
            m@ == self@.available,
    {
        self.available_amount
    }

    /// The funds frozen by open disputes.
    pub fn held(&self) -> (m: Money)
        ensures
            m@ == self@.held,
    {
        self.held_amount
    }

    /// The total funds: available plus held.
    pub fn total(&self) -> (m: Money)
        ensures
            m@ == self@.total,
    {
        self.total_amount
    }

    /// Is the account frozen?
    pub fn is_locked(&self) -> (b: bool)
        ensures
            b == self@.locked,
    {
        self.locked
    }

    /// Look up a stored transaction by id.
    pub fn get_transaction(&self, transaction_id: u32) -> (r: Option<Transaction>)
        ensures
            match r {
                Some(t) => self@.transactions.contains_key(transaction_id) && t@
                    == self@.transactions[transaction_id],
                None => !self@.transactions.contains_key(transaction_id),
            },
    {
        match self.transactions.get(&transaction_id) {
            Some(t) => Some(*t),
            None => None,
        }
    }

    /// Freeze the account by hand, as a chargeback would; nothing else
    /// changes, and no later operation will succeed.
    pub fn lock(&mut self)
        ensures
            final(self)@ == (AccountModel { locked: true, ..old(self)@ }),
    {
        self.locked = true;
    }
}

} // verus!
