//! The account pool: a fixed, indexable collection of account slots with
//! runtime borrow flags, per-slot touched flags, and the transaction-wide
//! signed resize delta.
use vstd::prelude::*;
use crate::account::{Account, AccountView, MAX_PERMITTED_DATA_LENGTH,
    MAX_PERMITTED_ACCOUNTS_DATA_ALLOCATIONS_PER_TRANSACTION};
use crate::errors::InstructionError;

verus! {

/// Mathematical image of a [`TransactionAccounts`] pool.
#[verifier::ext_equal]
pub ghost struct PoolView {
    pub accounts: Seq<AccountView>,
    pub borrowed: Seq<bool>,
    pub touched: Seq<bool>,
    pub resize_delta: i64,
    pub initial_lens: Seq<int>,
}

/// Signed sum, across all slots, of current minus initial data length.
pub open spec fn delta_sum(accounts: Seq<AccountView>, initial_lens: Seq<int>) -> int
    decreases accounts.len(),
{
    if accounts.len() == 0 {
        0
    } else {
        delta_sum(accounts.drop_last(), initial_lens.drop_last())
            + (accounts.last().data.len() - initial_lens[accounts.len() - 1])
    }
}

impl PoolView {
    /// Pool well-formedness: consistent slot counts small enough for
    /// sixteen-bit indices, every data length within the per-account maximum,
    /// and the recorded resize delta equal to the actual signed sum of
    /// current minus initial data lengths, within the transaction budget.
    pub open spec fn wf(self) -> bool {
        &&& self.borrowed.len() == self.accounts.len()
        &&& self.touched.len() == self.accounts.len()
        &&& self.initial_lens.len() == self.accounts.len()
        &&& self.accounts.len() <= 0xFFFF
        &&& forall|i: int| 0 <= i < self.accounts.len()
            ==> #[trigger] self.accounts[i].data.len() <= MAX_PERMITTED_DATA_LENGTH
        &&& forall|i: int| 0 <= i < self.initial_lens.len()
            ==> 0 <= #[trigger] self.initial_lens[i] <= MAX_PERMITTED_DATA_LENGTH
        &&& self.resize_delta == delta_sum(self.accounts, self.initial_lens)
        &&& self.resize_delta <= MAX_PERMITTED_ACCOUNTS_DATA_ALLOCATIONS_PER_TRANSACTION
    }
}

/// The signed sum is bounded by the slot count times the per-account maximum
/// when every term is.
pub proof fn lemma_delta_sum_bounds(accounts: Seq<AccountView>, initial_lens: Seq<int>)
    requires
        initial_lens.len() == accounts.len(),
        forall|i: int| 0 <= i < accounts.len()
            ==> #[trigger] accounts[i].data.len() <= MAX_PERMITTED_DATA_LENGTH,
        forall|i: int| 0 <= i < initial_lens.len()
            ==> 0 <= #[trigger] initial_lens[i] <= MAX_PERMITTED_DATA_LENGTH,
    ensures
        -(accounts.len() * MAX_PERMITTED_DATA_LENGTH)
            <= delta_sum(accounts, initial_lens)
            <= accounts.len() * MAX_PERMITTED_DATA_LENGTH,
    decreases accounts.len(),
{
    if accounts.len() > 0 {
        lemma_delta_sum_bounds(accounts.drop_last(), initial_lens.drop_last());
        assert((accounts.len() - 1) * MAX_PERMITTED_DATA_LENGTH + MAX_PERMITTED_DATA_LENGTH
            == accounts.len() * MAX_PERMITTED_DATA_LENGTH) by (nonlinear_arith);
    }
}

/// Replacing the account in one slot moves the signed sum by the change in
/// that slot's data length.
pub proof fn lemma_delta_sum_update(
    accounts: Seq<AccountView>,
    initial_lens: Seq<int>,
    i: int,
    a: AccountView,
)
    requires
        initial_lens.len() == accounts.len(),
        0 <= i < accounts.len(),
    ensures
        delta_sum(accounts.update(i, a), initial_lens)
            == delta_sum(accounts, initial_lens) + a.data.len() - accounts[i].data.len(),
    decreases accounts.len(),
{
    let updated = accounts.update(i, a);
    if i == accounts.len() - 1 {
        assert(updated.drop_last() =~= accounts.drop_last());
    } else {
        assert(updated.drop_last() =~= accounts.drop_last().update(i, a));
        lemma_delta_sum_update(accounts.drop_last(), initial_lens.drop_last(), i, a);
    }
}

/// Loaded accounts shared between the runtime and the programs it invokes.
pub struct TransactionAccounts {
    pub accounts: Vec<Account>,
    pub borrowed: Vec<bool>,
    pub touched: Vec<bool>,
    pub resize_delta: i64,
    pub initial_lens: Ghost<Seq<int>>,
}

impl View for TransactionAccounts {
    type V = PoolView;

    open spec fn view(&self) -> PoolView {
        PoolView {
            accounts: self.accounts@.map_values(|a: Account| a@),
            borrowed: self.borrowed@,
            touched: self.touched@,
            resize_delta: self.resize_delta,
            initial_lens: self.initial_lens@,
        }
    }
}

/// Outcome of requesting a shared slot view: fails on a slot with an
/// outstanding exclusive borrow, or on an out-of-range index.
pub open spec fn spec_try_borrow_result(p: PoolView, index: u16) -> Result<(), InstructionError> {
    if index >= p.accounts.len() {
        Err(InstructionError::MissingAccount)
    } else if p.borrowed[index as int] {
        Err(InstructionError::AccountBorrowFailed)
    } else {
        Ok(())
    }
}

/// Whether a new exclusive borrow of the slot would be granted.
pub open spec fn spec_can_borrow_exclusive(p: PoolView, index: u16) -> bool {
    index < p.accounts.len() && !p.borrowed[index as int]
}

/// Outcome of the resize gate for a data length change on one account.
pub open spec fn spec_pool_can_resize(p: PoolView, old_len: int, new_len: int) -> Result<
    (),
    InstructionError,
> {
    if new_len > MAX_PERMITTED_DATA_LENGTH {
        Err(InstructionError::InvalidRealloc)
    } else if p.resize_delta + new_len - old_len
        > MAX_PERMITTED_ACCOUNTS_DATA_ALLOCATIONS_PER_TRANSACTION {
        Err(InstructionError::MaxAccountsDataAllocationsExceeded)
    } else {
        Ok(())
    }
}

impl TransactionAccounts {
    /// Number of slots.
    pub fn len(&self) -> (r: usize)
        ensures
            r == self@.accounts.len(),
    {
        self.accounts.len()
    }

    /// Sets the touched flag of the slot, or errs on an out-of-range index.
    pub fn touch(&mut self, index: u16) -> (r: Result<(), InstructionError>)
        requires
            old(self)@.touched.len() == old(self)@.accounts.len(),
        ensures
            (index as int) < old(self)@.accounts.len() ==> {
                &&& r == Ok::<(), InstructionError>(())
                &&& final(self)@ == (PoolView {
                    touched: old(self)@.touched.update(index as int, true),
                    ..old(self)@
                })
            },
            (index as int) >= old(self)@.accounts.len() ==> {
                &&& r == Err::<(), InstructionError>(InstructionError::NotEnoughAccountKeys)
                &&& final(self)@ == old(self)@
            },
    {
        if (index as usize) < self.touched.len() {
            self.touched.set(index as usize, true);
            proof {
                assert(self@ =~= (PoolView {
                    touched: old(self)@.touched.update(index as int, true),
                    ..old(self)@
                }));
            }
            Ok(())
        } else {
            Err(InstructionError::NotEnoughAccountKeys)
        }
    }

    /// Adds the data length change to the transaction-wide resize delta.
    pub(crate) fn update_accounts_resize_delta(&mut self, old_len: usize, new_len: usize) -> (r:
        Result<(), InstructionError>)
        requires
            old(self)@.wf(),
            old_len <= MAX_PERMITTED_DATA_LENGTH,
            new_len <= MAX_PERMITTED_DATA_LENGTH,
        ensures
            r == Ok::<(), InstructionError>(()),
            final(self)@.resize_delta == old(self)@.resize_delta + new_len - old_len,
            final(self)@ == (PoolView { resize_delta: final(self)@.resize_delta, ..old(self)@ }),
    {
        proof {
            lemma_delta_sum_bounds(self@.accounts, self@.initial_lens);
            assert(self@.accounts.len() * MAX_PERMITTED_DATA_LENGTH
                <= 0xFFFF * MAX_PERMITTED_DATA_LENGTH) by (nonlinear_arith)
                requires self@.accounts.len() <= 0xFFFF;
        }
        let change = (new_len as i64) - (old_len as i64);
        self.resize_delta = self.resize_delta + change;
        Ok(())
    }

    /// Decides whether one account's data may go from `old_len` to `new_len`:
    /// the new length must stay within the per-account maximum and the growth
    /// within the remaining per-transaction budget.
    pub(crate) fn can_data_be_resized(&self, old_len: usize, new_len: usize) -> (r: Result<
        (),
        InstructionError,
    >)
        requires
            self@.wf(),
            old_len <= MAX_PERMITTED_DATA_LENGTH,
        ensures
            r == spec_pool_can_resize(self@, old_len as int, new_len as int),
    {
        if new_len > MAX_PERMITTED_DATA_LENGTH as usize {
            return Err(InstructionError::InvalidRealloc);
        }
        proof {
            lemma_delta_sum_bounds(self@.accounts, self@.initial_lens);
            assert(self@.accounts.len() * MAX_PERMITTED_DATA_LENGTH
                <= 0xFFFF * MAX_PERMITTED_DATA_LENGTH) by (nonlinear_arith)
                requires self@.accounts.len() <= 0xFFFF;
        }
        let length_delta = (new_len as i64) - (old_len as i64);
        if self.resize_delta + length_delta
            > MAX_PERMITTED_ACCOUNTS_DATA_ALLOCATIONS_PER_TRANSACTION {
            return Err(InstructionError::MaxAccountsDataAllocationsExceeded);
        }
        Ok(())
    }

    /// Hands out a copy of the slot's account, as a shared view would, or
    /// fails on an outstanding exclusive borrow or an out-of-range index.
    pub fn try_borrow(&self, index: u16) -> (r: Result<Account, InstructionError>)
        requires
            self@.borrowed.len() == self@.accounts.len(),
        ensures
            match r {
                Ok(a) => spec_try_borrow_result(self@, index) == Ok::<(), InstructionError>(())
                    && a@ == self@.accounts[index as int],
                Err(e) => spec_try_borrow_result(self@, index)
                    == Err::<(), InstructionError>(e),
            },
    {
        if (index as usize) >= self.accounts.len() {
            return Err(InstructionError::MissingAccount);
        }
        if self.borrowed[index as usize] {
            return Err(InstructionError::AccountBorrowFailed);
        }
        Ok(self.accounts[index as usize].clone())
    }
}

} // verus!
