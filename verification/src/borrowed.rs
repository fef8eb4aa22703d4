//! A scoped handle on one exclusively borrowed pool slot; every account
//! mutation passes through its rule gates.
use vstd::prelude::*;
use crate::account::{AccountView, MAX_PERMITTED_DATA_LENGTH};
use crate::context::{CtxView, TransactionContext};
use crate::errors::InstructionError;
use crate::instruction::{FrameView, IndexOfAccount, InstructionContext, slice_to_vec};
use crate::keys::Pubkey;
use crate::pool::{PoolView, lemma_delta_sum_update, spec_pool_can_resize};
use crate::rent::spec_rent_is_exempt;

verus! {

/// The key of the frame's last program account, if the frame has program
/// accounts and the index is in range; the current program by convention.
pub open spec fn spec_last_program_key(f: FrameView, v: CtxView) -> Option<Seq<u8>> {
    if f.program_accounts.len() == 0 {
        None
    } else if f.program_accounts.last() as int >= v.keys.len() {
        None
    } else {
        Some(v.keys[f.program_accounts.last() as int])
    }
}

/// An exclusive borrow of one account, together with the permissions the
/// borrowing instruction granted it. The permission fields are fixed at
/// borrow time from the frame the borrow was taken through.
#[derive(Debug)]
pub struct BorrowedAccount {
    pub index_in_transaction: IndexOfAccount,
    /// Position among the frame's instruction accounts; absent for program
    /// accounts, which carry no permissions.
    pub index_in_instruction_accounts: Option<IndexOfAccount>,
    pub signer: bool,
    pub writable: bool,
    /// The key of the current program of the borrowing frame, if any.
    pub last_program_key: Option<Pubkey>,
}

impl BorrowedAccount {
    /// The handle refers to an existing slot whose exclusive borrow it
    /// holds.
    pub open spec fn valid(self, v: CtxView) -> bool {
        &&& (self.index_in_transaction as int) < v.pool.accounts.len()
        &&& v.pool.borrowed[self.index_in_transaction as int]
    }

    /// The account this handle refers to.
    pub open spec fn acct(self, v: CtxView) -> AccountView {
        v.pool.accounts[self.index_in_transaction as int]
    }

    /// Whether the account's owner is the current program of the borrowing
    /// frame.
    pub open spec fn spec_is_owned_by_current_program(self, v: CtxView) -> bool {
        match self.last_program_key {
            Some(k) => self.acct(v).owner == k@,
            None => false,
        }
    }

    /// Whether the legacy executable checks apply and the account is
    /// executable; always false while those checks are removed.
    pub open spec fn spec_is_executable_internal(self, v: CtxView) -> bool {
        !v.executable_checks_removed && self.acct(v).executable
    }

    /// Whether the account's data may be mutated at all by the current
    /// program.
    pub open spec fn spec_can_data_be_changed(self, v: CtxView) -> Result<(), InstructionError> {
        if self.spec_is_executable_internal(v) {
            Err(InstructionError::ExecutableDataModified)
        } else if !self.writable {
            Err(InstructionError::ReadonlyDataModified)
        } else if !self.spec_is_owned_by_current_program(v) {
            Err(InstructionError::ExternalAccountDataModified)
        } else {
            Ok(())
        }
    }

    /// Whether the account's data may take the given length: only the owner
    /// may change the length, the pool budget must allow it, and the data
    /// must be changeable.
    pub open spec fn spec_can_data_be_resized(self, v: CtxView, new_len: int) -> Result<
        (),
        InstructionError,
    > {
        let old_len = self.acct(v).data.len() as int;
        if new_len != old_len && !self.spec_is_owned_by_current_program(v) {
            Err(InstructionError::AccountDataSizeChanged)
        } else {
            match spec_pool_can_resize(v.pool, old_len, new_len) {
                Err(e) => Err(e),
                Ok(()) => self.spec_can_data_be_changed(v),
            }
        }
    }

    /// The context after the slot's account is replaced and the slot marked
    /// touched.
    pub open spec fn spec_with_account(self, v: CtxView, a: AccountView) -> CtxView {
        CtxView {
            pool: PoolView {
                accounts: v.pool.accounts.update(self.index_in_transaction as int, a),
                touched: v.pool.touched.update(self.index_in_transaction as int, true),
                ..v.pool
            },
            ..v
        }
    }

    /// The context after the slot's account is replaced, the slot marked
    /// touched, and the resize delta moved by the data length change.
    pub open spec fn spec_with_resized_account(self, v: CtxView, a: AccountView) -> CtxView {
        CtxView {
            pool: PoolView {
                accounts: v.pool.accounts.update(self.index_in_transaction as int, a),
                touched: v.pool.touched.update(self.index_in_transaction as int, true),
                resize_delta: (v.pool.resize_delta + a.data.len()
                    - self.acct(v).data.len()) as i64,
                ..v.pool
            },
            ..v
        }
    }
}

impl InstructionContext {
    /// The key of the last program account of this instruction.
    pub fn get_last_program_key<'a>(&self, transaction_context: &'a TransactionContext) -> (r:
        Result<&'a Pubkey, InstructionError>)
        ensures
            match r {
                Ok(k) => spec_last_program_key(self@, transaction_context@) == Some(k@),
                Err(e) => spec_last_program_key(self@, transaction_context@) is None
                    && e == InstructionError::NotEnoughAccountKeys,
            },
    {
        if self.program_accounts.len() == 0 {
            return Err(InstructionError::NotEnoughAccountKeys);
        }
        let index_in_transaction = self.program_accounts[self.program_accounts.len() - 1];
        transaction_context.get_key_of_account_at_index(index_in_transaction)
    }

    /// Takes the slot's exclusive borrow and builds the handle, recording
    /// the permissions of the instruction account position it was borrowed
    /// through, if any.
    fn try_borrow_account(
        &self,
        transaction_context: &mut TransactionContext,
        index_in_transaction: IndexOfAccount,
        index_in_instruction: Option<IndexOfAccount>,
    ) -> (r: Result<BorrowedAccount, InstructionError>)
        requires
            old(transaction_context).inv(),
            index_in_instruction matches Some(j) ==> (j as int) < self@.instruction_accounts.len()
                && self@.instruction_accounts[j as int].index_in_transaction
                    == index_in_transaction,
        ensures
            final(transaction_context).inv(),
            match r {
                Ok(h) => {
                    &&& (index_in_transaction as int)
                        < old(transaction_context)@.pool.accounts.len()
                    &&& !old(transaction_context)@.pool.borrowed[index_in_transaction as int]
                    &&& final(transaction_context)@ == (CtxView {
                        pool: PoolView {
                            borrowed: old(transaction_context)@.pool.borrowed.update(
                                index_in_transaction as int,
                                true,
                            ),
                            ..old(transaction_context)@.pool
                        },
                        ..old(transaction_context)@
                    })
                    &&& h.valid(final(transaction_context)@)
                    &&& h.index_in_transaction == index_in_transaction
                    &&& h.index_in_instruction_accounts == index_in_instruction
                    &&& h.signer == match index_in_instruction {
                        Some(j) => self@.instruction_accounts[j as int].is_signer,
                        None => false,
                    }
                    &&& h.writable == match index_in_instruction {
                        Some(j) => self@.instruction_accounts[j as int].is_writable,
                        None => false,
                    }
                    &&& match h.last_program_key {
                        Some(k) => spec_last_program_key(self@, old(transaction_context)@)
                            == Some(k@),
                        None => spec_last_program_key(self@, old(transaction_context)@) is None,
                    }
                },
                Err(e) => {
                    &&& final(transaction_context)@ == old(transaction_context)@
                    &&& e == if (index_in_transaction as int)
                        >= old(transaction_context)@.pool.accounts.len() {
                        InstructionError::MissingAccount
                    } else {
                        InstructionError::AccountBorrowFailed
                    }
                    &&& ((index_in_transaction as int)
                        >= old(transaction_context)@.pool.accounts.len()
                        || old(transaction_context)@.pool.borrowed[index_in_transaction as int])
                },
            },
    {
        if (index_in_transaction as usize) >= transaction_context.accounts.accounts.len() {
            return Err(InstructionError::MissingAccount);
        }
        if transaction_context.accounts.borrowed[index_in_transaction as usize] {
            return Err(InstructionError::AccountBorrowFailed);
        }
        let signer = match index_in_instruction {
            Some(j) => self.instruction_accounts[j as usize].is_signer,
            None => false,
        };
        let writable = match index_in_instruction {
            Some(j) => self.instruction_accounts[j as usize].is_writable,
            None => false,
        };
        let last_program_key = match self.get_last_program_key(&*transaction_context) {
            Ok(k) => Some(*k),
            Err(_) => None,
        };
        transaction_context.accounts.borrowed.set(index_in_transaction as usize, true);
        proof {
            assert(transaction_context@ =~= (CtxView {
                pool: PoolView {
                    borrowed: old(transaction_context)@.pool.borrowed.update(
                        index_in_transaction as int,
                        true,
                    ),
                    ..old(transaction_context)@.pool
                },
                ..old(transaction_context)@
            }));
        }
        Ok(BorrowedAccount {
            index_in_transaction,
            index_in_instruction_accounts: index_in_instruction,
            signer,
            writable,
            last_program_key,
        })
    }

    /// Borrows a program account of this instruction; the handle carries no
    /// instruction-account permissions.
    pub fn try_borrow_program_account(
        &self,
        transaction_context: &mut TransactionContext,
        program_account_index: IndexOfAccount,
    ) -> (r: Result<BorrowedAccount, InstructionError>)
        requires
            old(transaction_context).inv(),
        ensures
            final(transaction_context).inv(),
            (program_account_index as int) >= self@.program_accounts.len() ==> {
                &&& r == Err::<BorrowedAccount, InstructionError>(
                    InstructionError::NotEnoughAccountKeys,
                )
                &&& final(transaction_context)@ == old(transaction_context)@
            },
            (program_account_index as int) < self@.program_accounts.len() ==> {
                let idx = self@.program_accounts[program_account_index as int];
                match r {
                    Ok(h) => {
                        &&& (idx as int) < old(transaction_context)@.pool.accounts.len()
                        &&& !old(transaction_context)@.pool.borrowed[idx as int]
                        &&& final(transaction_context)@ == (CtxView {
                            pool: PoolView {
                                borrowed: old(transaction_context)@.pool.borrowed.update(
                                    idx as int,
                                    true,
                                ),
                                ..old(transaction_context)@.pool
                            },
                            ..old(transaction_context)@
                        })
                        &&& h.valid(final(transaction_context)@)
                        &&& h.index_in_transaction == idx
                        &&& h.index_in_instruction_accounts is None
                        &&& !h.signer
                        &&& !h.writable
                        &&& match h.last_program_key {
                            Some(k) => spec_last_program_key(self@, old(transaction_context)@)
                                == Some(k@),
                            None => spec_last_program_key(
                                self@,
                                old(transaction_context)@,
                            ) is None,
                        }
                    },
                    Err(e) => {
                        &&& final(transaction_context)@ == old(transaction_context)@
                        &&& e == if (idx as int)
                            >= old(transaction_context)@.pool.accounts.len() {
                            InstructionError::MissingAccount
                        } else {
                            InstructionError::AccountBorrowFailed
                        }
                        &&& ((idx as int) >= old(transaction_context)@.pool.accounts.len()
                            || old(transaction_context)@.pool.borrowed[idx as int])
                    },
                }
            },
    {
        let index_in_transaction = match self.get_index_of_program_account_in_transaction(
            program_account_index,
        ) {
            Ok(i) => i,
            Err(e) => {
                return Err(e);
            },
        };
        self.try_borrow_account(transaction_context, index_in_transaction, None)
    }

    /// Borrows the last program account of this instruction: the current
    /// program.
    pub fn try_borrow_last_program_account(
        &self,
        transaction_context: &mut TransactionContext,
    ) -> (r: Result<BorrowedAccount, InstructionError>)
        requires
            old(transaction_context).inv(),
            self@.bounded(),
        ensures
            final(transaction_context).inv(),
            self@.program_accounts.len() == 0 ==> {
                &&& r == Err::<BorrowedAccount, InstructionError>(
                    InstructionError::NotEnoughAccountKeys,
                )
                &&& final(transaction_context)@ == old(transaction_context)@
            },
            self@.program_accounts.len() > 0 ==> {
                let idx = self@.program_accounts.last();
                match r {
                    Ok(h) => {
                        &&& (idx as int) < old(transaction_context)@.pool.accounts.len()
                        &&& !old(transaction_context)@.pool.borrowed[idx as int]
                        &&& final(transaction_context)@ == (CtxView {
                            pool: PoolView {
                                borrowed: old(transaction_context)@.pool.borrowed.update(
                                    idx as int,
                                    true,
                                ),
                                ..old(transaction_context)@.pool
                            },
                            ..old(transaction_context)@
                        })
                        &&& h.valid(final(transaction_context)@)
                        &&& h.index_in_transaction == idx
                        &&& h.index_in_instruction_accounts is None
                        &&& !h.signer
                        &&& !h.writable
                    },
                    Err(e) => {
                        &&& final(transaction_context)@ == old(transaction_context)@
                        &&& ((idx as int) >= old(transaction_context)@.pool.accounts.len()
                            || old(transaction_context)@.pool.borrowed[idx as int])
                    },
                }
            },
    {
        let count = self.get_number_of_program_accounts();
        let last = if count > 0 {
            count - 1
        } else {
            0
        };
        self.try_borrow_program_account(transaction_context, last)
    }

    /// Borrows an instruction account of this instruction; the handle
    /// carries the account's signer and writable permissions.
    pub fn try_borrow_instruction_account(
        &self,
        transaction_context: &mut TransactionContext,
        instruction_account_index: IndexOfAccount,
    ) -> (r: Result<BorrowedAccount, InstructionError>)
        requires
            old(transaction_context).inv(),
        ensures
            final(transaction_context).inv(),
            (instruction_account_index as int) >= self@.instruction_accounts.len() ==> {
                &&& r == Err::<BorrowedAccount, InstructionError>(
                    InstructionError::NotEnoughAccountKeys,
                )
                &&& final(transaction_context)@ == old(transaction_context)@
            },
            (instruction_account_index as int) < self@.instruction_accounts.len() ==> {
                let ia = self@.instruction_accounts[instruction_account_index as int];
                match r {
                    Ok(h) => {
                        &&& (ia.index_in_transaction as int)
                            < old(transaction_context)@.pool.accounts.len()
                        &&& !old(transaction_context)@.pool.borrowed[
                            ia.index_in_transaction as int]
                        &&& final(transaction_context)@ == (CtxView {
                            pool: PoolView {
                                borrowed: old(transaction_context)@.pool.borrowed.update(
                                    ia.index_in_transaction as int,
                                    true,
                                ),
                                ..old(transaction_context)@.pool
                            },
                            ..old(transaction_context)@
                        })
                        &&& h.valid(final(transaction_context)@)
                        &&& h.index_in_transaction == ia.index_in_transaction
                        &&& h.index_in_instruction_accounts == Some(instruction_account_index)
                        &&& h.signer == ia.is_signer
                        &&& h.writable == ia.is_writable
                        &&& match h.last_program_key {
                            Some(k) => spec_last_program_key(self@, old(transaction_context)@)
                                == Some(k@),
                            None => spec_last_program_key(
                                self@,
                                old(transaction_context)@,
                            ) is None,
                        }
                    },
                    Err(e) => {
                        &&& final(transaction_context)@ == old(transaction_context)@
                        &&& e == if (ia.index_in_transaction as int)
                            >= old(transaction_context)@.pool.accounts.len() {
                            InstructionError::MissingAccount
                        } else {
                            InstructionError::AccountBorrowFailed
                        }
                        &&& ((ia.index_in_transaction as int)
                            >= old(transaction_context)@.pool.accounts.len()
                            || old(transaction_context)@.pool.borrowed[
                                ia.index_in_transaction as int])
                    },
                }
            },
    {
        let index_in_transaction = match self.get_index_of_instruction_account_in_transaction(
            instruction_account_index,
        ) {
            Ok(i) => i,
            Err(e) => {
                return Err(e);
            },
        };
        self.try_borrow_account(
            transaction_context,
            index_in_transaction,
            Some(instruction_account_index),
        )
    }
}

/// First position among the frame's program accounts whose transaction
/// index is in range and carries the given key.
pub open spec fn spec_find_program_account(
    progs: Seq<u16>,
    keys: Seq<Seq<u8>>,
    key: Seq<u8>,
) -> Option<int>
    decreases progs.len(),
{
    if progs.len() == 0 {
        None
    } else if (progs[0] as int) < keys.len() && keys[progs[0] as int] == key {
        Some(0)
    } else {
        match spec_find_program_account(progs.drop_first(), keys, key) {
            None => None,
            Some(p) => Some(p + 1),
        }
    }
}

/// First position among the frame's instruction accounts whose transaction
/// index is in range and carries the given key.
pub open spec fn spec_find_instruction_account(
    iaccs: Seq<crate::instruction::InstructionAccount>,
    keys: Seq<Seq<u8>>,
    key: Seq<u8>,
) -> Option<int>
    decreases iaccs.len(),
{
    if iaccs.len() == 0 {
        None
    } else if (iaccs[0].index_in_transaction as int) < keys.len()
        && keys[iaccs[0].index_in_transaction as int] == key {
        Some(0)
    } else {
        match spec_find_instruction_account(iaccs.drop_first(), keys, key) {
            None => None,
            Some(p) => Some(p + 1),
        }
    }
}

/// The keys with their first occurrences kept and every repetition
/// dropped.
pub open spec fn dedup_keys(keys: Seq<Seq<u8>>) -> Seq<Seq<u8>>
    decreases keys.len(),
{
    if keys.len() == 0 {
        Seq::empty()
    } else {
        let rest = dedup_keys(keys.drop_last());
        if rest.contains(keys.last()) {
            rest
        } else {
            rest.push(keys.last())
        }
    }
}

/// Keys, in order and with repetitions, of the signer instruction accounts
/// from position `i` on; fails on the first signer whose transaction index
/// is out of range.
pub open spec fn spec_signers_from(
    iaccs: Seq<crate::instruction::InstructionAccount>,
    keys: Seq<Seq<u8>>,
    i: int,
) -> Result<Seq<Seq<u8>>, InstructionError>
    decreases iaccs.len() - i,
{
    if i < 0 || i >= iaccs.len() {
        Ok(Seq::empty())
    } else if !iaccs[i].is_signer {
        spec_signers_from(iaccs, keys, i + 1)
    } else if iaccs[i].index_in_transaction as int >= keys.len() {
        Err(InstructionError::NotEnoughAccountKeys)
    } else {
        match spec_signers_from(iaccs, keys, i + 1) {
            Err(e) => Err(e),
            Ok(rest) => Ok(seq![keys[iaccs[i].index_in_transaction as int]] + rest),
        }
    }
}

impl InstructionContext {
    /// Searches the frame's program accounts for the given key; first match.
    pub fn find_index_of_program_account(
        &self,
        transaction_context: &TransactionContext,
        pubkey: &Pubkey,
    ) -> (r: Option<IndexOfAccount>)
        requires
            self@.bounded(),
        ensures
            match spec_find_program_account(
                self@.program_accounts,
                transaction_context@.keys,
                pubkey@,
            ) {
                None => r is None,
                Some(p) => r == Some(p as u16),
            },
    {
        let ghost progs = self@.program_accounts;
        let ghost keys = transaction_context@.keys;
        proof {
            assert(progs.skip(0) =~= progs);
        }
        let mut i: usize = 0;
        while i < self.program_accounts.len()
            invariant
                i <= progs.len(),
                progs.len() <= 0xFFFF,
                progs == self@.program_accounts,
                keys == transaction_context@.keys,
                spec_find_program_account(progs, keys, pubkey@)
                    == match spec_find_program_account(progs.skip(i as int), keys, pubkey@) {
                    None => None::<int>,
                    Some(p) => Some(p + i),
                },
            decreases progs.len() - i,
        {
            proof {
                assert(progs.skip(i as int)[0] == progs[i as int]);
                assert(progs.skip(i as int).drop_first() =~= progs.skip(i + 1));
            }
            let index_in_transaction = self.program_accounts[i];
            if (index_in_transaction as usize) < transaction_context.account_keys.len() {
                if transaction_context.account_keys[index_in_transaction as usize].key_eq(pubkey) {
                    return Some(i as u16);
                }
            }
            i += 1;
        }
        proof {
            assert(progs.skip(i as int).len() == 0);
        }
        None
    }

    /// Searches the frame's instruction accounts for the given key; first
    /// match.
    pub fn find_index_of_instruction_account(
        &self,
        transaction_context: &TransactionContext,
        pubkey: &Pubkey,
    ) -> (r: Option<IndexOfAccount>)
        requires
            self@.bounded(),
        ensures
            match spec_find_instruction_account(
                self@.instruction_accounts,
                transaction_context@.keys,
                pubkey@,
            ) {
                None => r is None,
                Some(p) => r == Some(p as u16),
            },
    {
        let ghost iaccs = self@.instruction_accounts;
        let ghost keys = transaction_context@.keys;
        proof {
            assert(iaccs.skip(0) =~= iaccs);
        }
        let mut i: usize = 0;
        while i < self.instruction_accounts.len()
            invariant
                i <= iaccs.len(),
                iaccs.len() <= 0xFFFF,
                iaccs == self@.instruction_accounts,
                keys == transaction_context@.keys,
                spec_find_instruction_account(iaccs, keys, pubkey@)
                    == match spec_find_instruction_account(iaccs.skip(i as int), keys, pubkey@) {
                    None => None::<int>,
                    Some(p) => Some(p + i),
                },
            decreases iaccs.len() - i,
        {
            proof {
                assert(iaccs.skip(i as int)[0] == iaccs[i as int]);
                assert(iaccs.skip(i as int).drop_first() =~= iaccs.skip(i + 1));
            }
            let index_in_transaction = self.instruction_accounts[i].index_in_transaction;
            if (index_in_transaction as usize) < transaction_context.account_keys.len() {
                if transaction_context.account_keys[index_in_transaction as usize].key_eq(pubkey) {
                    return Some(i as u16);
                }
            }
            i += 1;
        }
        proof {
            assert(iaccs.skip(i as int).len() == 0);
        }
        None
    }

    /// The set of keys of the signer instruction accounts of this
    /// instruction: in order of first occurrence, each key once.
    pub fn get_signers(&self, transaction_context: &TransactionContext) -> (r: Result<
        Vec<Pubkey>,
        InstructionError,
    >)
        requires
            self@.bounded(),
        ensures
            match r {
                Ok(signers) => match spec_signers_from(
                    self@.instruction_accounts,
                    transaction_context@.keys,
                    0,
                ) {
                    Ok(all) => signers@.map_values(|k: Pubkey| k@) == dedup_keys(all),
                    Err(_) => false,
                },
                Err(e) => spec_signers_from(
                    self@.instruction_accounts,
                    transaction_context@.keys,
                    0,
                ) == Err::<Seq<Seq<u8>>, InstructionError>(e),
            },
    {
        let ghost iaccs = self@.instruction_accounts;
        let ghost keys = transaction_context@.keys;
        let ghost mut collected = Seq::<Seq<u8>>::empty();
        let mut result: Vec<Pubkey> = Vec::new();
        let mut i: usize = 0;
        proof {
            assert(result@.map_values(|k: Pubkey| k@) =~= dedup_keys(collected));
        }
        while i < self.instruction_accounts.len()
            invariant
                i <= iaccs.len(),
                iaccs.len() <= 0xFFFF,
                iaccs == self@.instruction_accounts,
                keys == transaction_context@.keys,
                result@.map_values(|k: Pubkey| k@) == dedup_keys(collected),
                spec_signers_from(iaccs, keys, 0) == match spec_signers_from(
                    iaccs,
                    keys,
                    i as int,
                ) {
                    Err(e) => Err::<Seq<Seq<u8>>, InstructionError>(e),
                    Ok(rest) => Ok::<Seq<Seq<u8>>, InstructionError>(collected + rest),
                },
            decreases iaccs.len() - i,
        {
            let ia = self.instruction_accounts[i];
            if ia.is_signer {
                if (ia.index_in_transaction as usize) >= transaction_context.account_keys.len() {
                    return Err(InstructionError::NotEnoughAccountKeys);
                }
                let key = transaction_context.account_keys[ia.index_in_transaction as usize];
                let ghost mapped_before = result@.map_values(|k: Pubkey| k@);
                if !contains_key(&result, &key) {
                    result.push(key);
                    proof {
                        assert(result@.map_values(|k: Pubkey| k@) =~= mapped_before.push(key@));
                    }
                }
                proof {
                    assert(collected.push(key@).drop_last() =~= collected);
                    match spec_signers_from(iaccs, keys, i + 1) {
                        Err(_) => {},
                        Ok(rest) => {
                            assert(collected.push(key@) + rest =~= collected + (seq![
                                key@,
                            ] + rest));
                        },
                    }
                }
                proof {
                    collected = collected.push(key@);
                }
            }
            i += 1;
        }
        proof {
            assert(spec_signers_from(iaccs, keys, i as int)
                == Ok::<Seq<Seq<u8>>, InstructionError>(Seq::empty()));
            assert(collected + Seq::<Seq<u8>>::empty() =~= collected);
        }
        Ok(result)
    }
}

/// Whether any key of the vector equals the given key bytewise.
fn contains_key(keys: &Vec<Pubkey>, key: &Pubkey) -> (r: bool)
    ensures
        r == keys@.map_values(|k: Pubkey| k@).contains(key@),
{
    let ghost mapped = keys@.map_values(|k: Pubkey| k@);
    let mut i: usize = 0;
    while i < keys.len()
        invariant
            i <= keys@.len(),
            mapped == keys@.map_values(|k: Pubkey| k@),
            forall|j: int| 0 <= j < i ==> mapped[j] != key@,
        decreases keys@.len() - i,
    {
        if keys[i].key_eq(key) {
            proof {
                assert(mapped[i as int] == key@);
            }
            return true;
        }
        i += 1;
    }
    proof {
        assert(!mapped.contains(key@)) by {
            if mapped.contains(key@) {
                let j = choose|j: int| 0 <= j < mapped.len() && mapped[j] == key@;
                assert(mapped[j] != key@);
            }
        }
    }
    false
}

impl BorrowedAccount {
    /// Returns the slot's exclusive borrow.
    pub fn release(self, transaction_context: &mut TransactionContext)
        requires
            old(transaction_context).inv(),
            self.valid(old(transaction_context)@),
        ensures
            final(transaction_context).inv(),
            final(transaction_context)@ == (CtxView {
                pool: PoolView {
                    borrowed: old(transaction_context)@.pool.borrowed.update(
                        self.index_in_transaction as int,
                        false,
                    ),
                    ..old(transaction_context)@.pool
                },
                ..old(transaction_context)@
            }),
    {
        transaction_context.accounts.borrowed.set(self.index_in_transaction as usize, false);
        proof {
            assert(transaction_context@ =~= (CtxView {
                pool: PoolView {
                    borrowed: old(transaction_context)@.pool.borrowed.update(
                        self.index_in_transaction as int,
                        false,
                    ),
                    ..old(transaction_context)@.pool
                },
                ..old(transaction_context)@
            }));
        }
    }

    /// The transaction-wide index of this account.
    pub fn get_index_in_transaction(&self) -> (r: IndexOfAccount)
        ensures
            r == self.index_in_transaction,
    {
        self.index_in_transaction
    }

    /// The key of this account.
    pub fn get_key<'a>(&self, transaction_context: &'a TransactionContext) -> (r: &'a Pubkey)
        requires
            transaction_context.inv(),
            self.valid(transaction_context@),
        ensures
            r@ == transaction_context@.keys[self.index_in_transaction as int],
    {
        &transaction_context.account_keys[self.index_in_transaction as usize]
    }

    /// The owner of this account.
    pub fn get_owner<'a>(&self, transaction_context: &'a TransactionContext) -> (r: &'a Pubkey)
        requires
            self.valid(transaction_context@),
        ensures
            r@ == self.acct(transaction_context@).owner,
    {
        &transaction_context.accounts.accounts[self.index_in_transaction as usize].owner
    }

    /// The lamport balance of this account.
    pub fn get_lamports(&self, transaction_context: &TransactionContext) -> (r: u64)
        requires
            self.valid(transaction_context@),
        ensures
            r == self.acct(transaction_context@).lamports,
    {
        transaction_context.accounts.accounts[self.index_in_transaction as usize].lamports
    }

    /// A read-only view of the account data.
    pub fn get_data<'a>(&self, transaction_context: &'a TransactionContext) -> (r: &'a Vec<u8>)
        requires
            self.valid(transaction_context@),
        ensures
            r@ == self.acct(transaction_context@).data,
    {
        &transaction_context.accounts.accounts[self.index_in_transaction as usize].data
    }

    /// The rent epoch of this account.
    pub fn get_rent_epoch(&self, transaction_context: &TransactionContext) -> (r: u64)
        requires
            self.valid(transaction_context@),
        ensures
            r == self.acct(transaction_context@).rent_epoch,
    {
        transaction_context.accounts.accounts[self.index_in_transaction as usize].rent_epoch
    }

    /// The raw executable flag of this account.
    pub fn is_executable(&self, transaction_context: &TransactionContext) -> (r: bool)
        requires
            self.valid(transaction_context@),
        ensures
            r == self.acct(transaction_context@).executable,
    {
        transaction_context.accounts.accounts[self.index_in_transaction as usize].executable
    }

    /// Whether this borrow was taken through a signer instruction account.
    pub fn is_signer(&self) -> (r: bool)
        ensures
            r == self.signer,
    {
        self.signer
    }

    /// Whether this borrow was taken through a writable instruction account.
    pub fn is_writable(&self) -> (r: bool)
        ensures
            r == self.writable,
    {
        self.writable
    }

    /// Whether the account's owner is the current program.
    pub fn is_owned_by_current_program(&self, transaction_context: &TransactionContext) -> (r:
        bool)
        requires
            self.valid(transaction_context@),
        ensures
            r == self.spec_is_owned_by_current_program(transaction_context@),
    {
        match &self.last_program_key {
            Some(k) => k.key_eq(
                &transaction_context.accounts.accounts[self.index_in_transaction as usize].owner,
            ),
            None => false,
        }
    }

    /// Whether the legacy executable checks apply to this account.
    fn is_executable_internal(&self, transaction_context: &TransactionContext) -> (r: bool)
        requires
            self.valid(transaction_context@),
        ensures
            r == self.spec_is_executable_internal(transaction_context@),
    {
        !transaction_context.remove_accounts_executable_flag_checks
            && transaction_context.accounts.accounts[self.index_in_transaction as usize].executable
    }

    /// Errs when the account data may not be mutated by the current program.
    pub fn can_data_be_changed(&self, transaction_context: &TransactionContext) -> (r: Result<
        (),
        InstructionError,
    >)
        requires
            self.valid(transaction_context@),
        ensures
            r == self.spec_can_data_be_changed(transaction_context@),
    {
        if self.is_executable_internal(transaction_context) {
            return Err(InstructionError::ExecutableDataModified);
        }
        if !self.writable {
            return Err(InstructionError::ReadonlyDataModified);
        }
        if !self.is_owned_by_current_program(transaction_context) {
            return Err(InstructionError::ExternalAccountDataModified);
        }
        Ok(())
    }

    /// Outcome of a lamport overwrite: a foreign account may not lose
    /// lamports, a read-only account may not change balance, nor may an
    /// executable one under the legacy checks.
    pub open spec fn spec_set_lamports_result(self, v: CtxView, lamports: u64) -> Result<
        (),
        InstructionError,
    > {
        if !self.spec_is_owned_by_current_program(v) && lamports < self.acct(v).lamports {
            Err(InstructionError::ExternalAccountLamportSpend)
        } else if !self.writable {
            Err(InstructionError::ReadonlyLamportChange)
        } else if self.spec_is_executable_internal(v) {
            Err(InstructionError::ExecutableLamportChange)
        } else {
            Ok(())
        }
    }

    /// State after a lamport overwrite: on success with a changed balance
    /// the slot is touched and overwritten; an unchanged balance is a no-op.
    pub open spec fn spec_set_lamports_state(self, v: CtxView, lamports: u64) -> CtxView {
        if self.spec_set_lamports_result(v, lamports) is Ok && self.acct(v).lamports != lamports {
            self.spec_with_account(v, AccountView { lamports, ..self.acct(v) })
        } else {
            v
        }
    }

    /// Overwrites the lamport balance through the rule gates.
    pub fn set_lamports(&self, transaction_context: &mut TransactionContext, lamports: u64) -> (r:
        Result<(), InstructionError>)
        requires
            old(transaction_context).inv(),
            self.valid(old(transaction_context)@),
        ensures
            final(transaction_context).inv(),
            self.valid(final(transaction_context)@),
            r == self.spec_set_lamports_result(old(transaction_context)@, lamports),
            final(transaction_context)@ == self.spec_set_lamports_state(
                old(transaction_context)@,
                lamports,
            ),
    {
        let ghost v0 = transaction_context@;
        let idx = self.index_in_transaction as usize;
        let current = transaction_context.accounts.accounts[idx].lamports;
        if !self.is_owned_by_current_program(transaction_context) && lamports < current {
            return Err(InstructionError::ExternalAccountLamportSpend);
        }
        if !self.writable {
            return Err(InstructionError::ReadonlyLamportChange);
        }
        if self.is_executable_internal(transaction_context) {
            return Err(InstructionError::ExecutableLamportChange);
        }
        if current == lamports {
            return Ok(());
        }
        let _ = transaction_context.accounts.touch(self.index_in_transaction);
        let slot = &mut transaction_context.accounts.accounts[idx];
        slot.lamports = lamports;
        proof {
            self.lemma_same_len_update(v0, transaction_context@);
            assert(transaction_context@ =~~= self.spec_set_lamports_state(v0, lamports));
        }
        Ok(())
    }

    /// Adds lamports, failing on overflow, then overwrites through the
    /// gates.
    pub fn checked_add_lamports(
        &self,
        transaction_context: &mut TransactionContext,
        lamports: u64,
    ) -> (r: Result<(), InstructionError>)
        requires
            old(transaction_context).inv(),
            self.valid(old(transaction_context)@),
        ensures
            final(transaction_context).inv(),
            self.valid(final(transaction_context)@),
            self.acct(old(transaction_context)@).lamports + lamports > u64::MAX ==> {
                &&& r == Err::<(), InstructionError>(InstructionError::ArithmeticOverflow)
                &&& final(transaction_context)@ == old(transaction_context)@
            },
            self.acct(old(transaction_context)@).lamports + lamports <= u64::MAX ==> {
                let sum = (self.acct(old(transaction_context)@).lamports + lamports) as u64;
                &&& r == self.spec_set_lamports_result(old(transaction_context)@, sum)
                &&& final(transaction_context)@ == self.spec_set_lamports_state(
                    old(transaction_context)@,
                    sum,
                )
            },
    {
        let current = self.get_lamports(transaction_context);
        match current.checked_add(lamports) {
            Some(sum) => self.set_lamports(transaction_context, sum),
            None => Err(InstructionError::ArithmeticOverflow),
        }
    }

    /// Subtracts lamports, failing on underflow, then overwrites through the
    /// gates.
    pub fn checked_sub_lamports(
        &self,
        transaction_context: &mut TransactionContext,
        lamports: u64,
    ) -> (r: Result<(), InstructionError>)
        requires
            old(transaction_context).inv(),
            self.valid(old(transaction_context)@),
        ensures
            final(transaction_context).inv(),
            self.valid(final(transaction_context)@),
            self.acct(old(transaction_context)@).lamports < lamports ==> {
                &&& r == Err::<(), InstructionError>(InstructionError::ArithmeticOverflow)
                &&& final(transaction_context)@ == old(transaction_context)@
            },
            self.acct(old(transaction_context)@).lamports >= lamports ==> {
                let diff = (self.acct(old(transaction_context)@).lamports - lamports) as u64;
                &&& r == self.spec_set_lamports_result(old(transaction_context)@, diff)
                &&& final(transaction_context)@ == self.spec_set_lamports_state(
                    old(transaction_context)@,
                    diff,
                )
            },
    {
        let current = self.get_lamports(transaction_context);
        match current.checked_sub(lamports) {
            Some(diff) => self.set_lamports(transaction_context, diff),
            None => Err(InstructionError::ArithmeticOverflow),
        }
    }

    /// Outcome of an owner change: only the current program may assign a new
    /// owner, only on a writable, non-executable account whose data is
    /// zero-initialized or empty.
    pub open spec fn spec_set_owner_result(self, v: CtxView) -> Result<(), InstructionError> {
        if !self.spec_is_owned_by_current_program(v) {
            Err(InstructionError::ModifiedProgramId)
        } else if !self.writable {
            Err(InstructionError::ModifiedProgramId)
        } else if self.spec_is_executable_internal(v) {
            Err(InstructionError::ModifiedProgramId)
        } else if !(forall|i: int| 0 <= i < self.acct(v).data.len()
            ==> self.acct(v).data[i] == 0u8) {
            Err(InstructionError::ModifiedProgramId)
        } else {
            Ok(())
        }
    }

    /// State after an owner change: on success with a different owner the
    /// slot is touched and the owner overwritten; the same owner is a no-op.
    pub open spec fn spec_set_owner_state(self, v: CtxView, pubkey: Seq<u8>) -> CtxView {
        if self.spec_set_owner_result(v) is Ok && self.acct(v).owner != pubkey {
            self.spec_with_account(v, AccountView { owner: pubkey, ..self.acct(v) })
        } else {
            v
        }
    }

    /// Assigns a new owner through the rule gates.
    pub fn set_owner(&self, transaction_context: &mut TransactionContext, pubkey: &Pubkey) -> (r:
        Result<(), InstructionError>)
        requires
            old(transaction_context).inv(),
            self.valid(old(transaction_context)@),
        ensures
            final(transaction_context).inv(),
            self.valid(final(transaction_context)@),
            r == self.spec_set_owner_result(old(transaction_context)@),
            final(transaction_context)@ == self.spec_set_owner_state(
                old(transaction_context)@,
                pubkey@,
            ),
    {
        let ghost v0 = transaction_context@;
        let idx = self.index_in_transaction as usize;
        if !self.is_owned_by_current_program(transaction_context) {
            return Err(InstructionError::ModifiedProgramId);
        }
        if !self.writable {
            return Err(InstructionError::ModifiedProgramId);
        }
        if self.is_executable_internal(transaction_context) {
            return Err(InstructionError::ModifiedProgramId);
        }
        if !crate::account::is_zeroed(
            transaction_context.accounts.accounts[idx].data.as_slice(),
        ) {
            return Err(InstructionError::ModifiedProgramId);
        }
        if transaction_context.accounts.accounts[idx].owner.key_eq(pubkey) {
            return Ok(());
        }
        let _ = transaction_context.accounts.touch(self.index_in_transaction);
        let slot = &mut transaction_context.accounts.accounts[idx];
        slot.owner = *pubkey;
        proof {
            self.lemma_same_len_update(v0, transaction_context@);
            assert(transaction_context@ =~~= self.spec_set_owner_state(v0, pubkey@));
        }
        Ok(())
    }

    /// Outcome of an executable-flag change, given the rent-exemption
    /// decision at the current balance and data length: the account must be
    /// rent exempt, owned by the current program, writable, and the flag may
    /// not be cleared under the legacy checks.
    pub open spec fn spec_set_executable_result(
        self,
        v: CtxView,
        rent_exempt: bool,
        is_executable: bool,
    ) -> Result<(), InstructionError> {
        if !rent_exempt {
            Err(InstructionError::ExecutableAccountNotRentExempt)
        } else if !self.spec_is_owned_by_current_program(v) {
            Err(InstructionError::ExecutableModified)
        } else if !self.writable {
            Err(InstructionError::ExecutableModified)
        } else if self.spec_is_executable_internal(v) && !is_executable {
            Err(InstructionError::ExecutableModified)
        } else {
            Ok(())
        }
    }

    /// State after an executable-flag change: on success with a different
    /// flag the slot is touched and the flag overwritten; the same flag is a
    /// no-op.
    pub open spec fn spec_set_executable_state(
        self,
        v: CtxView,
        rent_exempt: bool,
        is_executable: bool,
    ) -> CtxView {
        if self.spec_set_executable_result(v, rent_exempt, is_executable) is Ok
            && self.acct(v).executable != is_executable {
            self.spec_with_account(v, AccountView { executable: is_executable, ..self.acct(v) })
        } else {
            v
        }
    }

    /// Whether the current balance would keep the account rent exempt at
    /// the given data length, under the context's rent schedule.
    pub fn is_rent_exempt_at_data_length(
        &self,
        transaction_context: &TransactionContext,
        data_length: usize,
    ) -> (r: bool)
        requires
            self.valid(transaction_context@),
        ensures
            r == spec_rent_is_exempt(
                transaction_context@.rent,
                self.acct(transaction_context@).lamports,
                data_length as int,
            ),
    {
        transaction_context.rent.is_exempt(self.get_lamports(transaction_context), data_length)
    }

    /// Overwrites the executable flag through the rule gates, with the
    /// rent-exemption decision supplied by the caller.
    pub fn set_executable_given_rent_exemption(
        &self,
        transaction_context: &mut TransactionContext,
        rent_exempt: bool,
        is_executable: bool,
    ) -> (r: Result<(), InstructionError>)
        requires
            old(transaction_context).inv(),
            self.valid(old(transaction_context)@),
        ensures
            final(transaction_context).inv(),
            self.valid(final(transaction_context)@),
            r == self.spec_set_executable_result(
                old(transaction_context)@,
                rent_exempt,
                is_executable,
            ),
            final(transaction_context)@ == self.spec_set_executable_state(
                old(transaction_context)@,
                rent_exempt,
                is_executable,
            ),
    {
        let ghost v0 = transaction_context@;
        let idx = self.index_in_transaction as usize;
        if !rent_exempt {
            return Err(InstructionError::ExecutableAccountNotRentExempt);
        }
        if !self.is_owned_by_current_program(transaction_context) {
            return Err(InstructionError::ExecutableModified);
        }
        if !self.writable {
            return Err(InstructionError::ExecutableModified);
        }
        if self.is_executable_internal(transaction_context) && !is_executable {
            return Err(InstructionError::ExecutableModified);
        }
        if transaction_context.accounts.accounts[idx].executable == is_executable {
            return Ok(());
        }
        let _ = transaction_context.accounts.touch(self.index_in_transaction);
        let slot = &mut transaction_context.accounts.accounts[idx];
        slot.executable = is_executable;
        proof {
            self.lemma_same_len_update(v0, transaction_context@);
            assert(transaction_context@ =~~= self.spec_set_executable_state(
                v0,
                rent_exempt,
                is_executable,
            ));
        }
        Ok(())
    }

    /// Whether the account is rent exempt at its current balance and data
    /// length, as `set_executable` requires.
    pub open spec fn spec_rent_exempt_now(self, v: CtxView) -> bool {
        spec_rent_is_exempt(v.rent, self.acct(v).lamports, self.acct(v).data.len() as int)
    }

    /// Overwrites the executable flag, letting the rent schedule decide
    /// exemption at the current balance and data length.
    pub fn set_executable(
        &self,
        transaction_context: &mut TransactionContext,
        is_executable: bool,
    ) -> (r: Result<(), InstructionError>)
        requires
            old(transaction_context).inv(),
            self.valid(old(transaction_context)@),
        ensures
            final(transaction_context).inv(),
            self.valid(final(transaction_context)@),
            r == self.spec_set_executable_result(
                old(transaction_context)@,
                self.spec_rent_exempt_now(old(transaction_context)@),
                is_executable,
            ),
            final(transaction_context)@ == self.spec_set_executable_state(
                old(transaction_context)@,
                self.spec_rent_exempt_now(old(transaction_context)@),
                is_executable,
            ),
    {
        let data_length = transaction_context.accounts.accounts[
            self.index_in_transaction as usize].data.len();
        let rent_exempt = self.is_rent_exempt_at_data_length(transaction_context, data_length);
        self.set_executable_given_rent_exemption(transaction_context, rent_exempt, is_executable)
    }

    /// The data after being replaced by the given bytes.
    pub open spec fn spec_set_data_state(self, v: CtxView, data: Seq<u8>) -> CtxView {
        if self.spec_can_data_be_resized(v, data.len() as int) is Ok {
            self.spec_with_resized_account(v, AccountView { data, ..self.acct(v) })
        } else {
            v
        }
    }

    /// Replaces the account data and size with the given bytes through the
    /// resize gates. The slot is touched even when the bytes are unchanged.
    pub fn set_data_from_slice(
        &self,
        transaction_context: &mut TransactionContext,
        data: &[u8],
    ) -> (r: Result<(), InstructionError>)
        requires
            old(transaction_context).inv(),
            self.valid(old(transaction_context)@),
        ensures
            final(transaction_context).inv(),
            self.valid(final(transaction_context)@),
            r == self.spec_can_data_be_resized(old(transaction_context)@, data@.len() as int),
            final(transaction_context)@ == self.spec_set_data_state(
                old(transaction_context)@,
                data@,
            ),
    {
        let new_data = slice_to_vec(data);
        self.set_data(transaction_context, new_data)
    }

    /// Replaces the account data and size with the given vector through the
    /// resize gates. The slot is touched even when the bytes are unchanged.
    pub fn set_data(&self, transaction_context: &mut TransactionContext, data: Vec<u8>) -> (r:
        Result<(), InstructionError>)
        requires
            old(transaction_context).inv(),
            self.valid(old(transaction_context)@),
        ensures
            final(transaction_context).inv(),
            self.valid(final(transaction_context)@),
            r == self.spec_can_data_be_resized(old(transaction_context)@, data@.len() as int),
            final(transaction_context)@ == self.spec_set_data_state(
                old(transaction_context)@,
                data@,
            ),
    {
        let ghost v0 = transaction_context@;
        let idx = self.index_in_transaction as usize;
        match self.can_data_be_resized(transaction_context, data.len()) {
            Ok(()) => {},
            Err(e) => {
                return Err(e);
            },
        }
        let _ = transaction_context.accounts.touch(self.index_in_transaction);
        let old_len = transaction_context.accounts.accounts[idx].data.len();
        let new_len = data.len();
        let _ = transaction_context.accounts.update_accounts_resize_delta(old_len, new_len);
        let slot = &mut transaction_context.accounts.accounts[idx];
        slot.data = data;
        proof {
            self.lemma_resized_update(v0, transaction_context@);
            assert(transaction_context@ =~~= self.spec_set_data_state(v0, data@));
        }
        Ok(())
    }

    /// The data resized to `n` bytes: truncated at the end, or zero-filled
    /// at the end when extended.
    pub open spec fn spec_resized_data(data: Seq<u8>, n: int) -> Seq<u8> {
        Seq::new(n as nat, |i: int| if i < data.len() { data[i] } else { 0u8 })
    }

    /// State after a length change: on success with a different length the
    /// slot is touched, the delta moved, and the data truncated or
    /// zero-extended; the same length is a no-op.
    pub open spec fn spec_set_data_length_state(self, v: CtxView, new_length: int) -> CtxView {
        if self.spec_can_data_be_resized(v, new_length) is Ok
            && self.acct(v).data.len() != new_length {
            self.spec_with_resized_account(
                v,
                AccountView {
                    data: Self::spec_resized_data(self.acct(v).data, new_length),
                    ..self.acct(v)
                },
            )
        } else {
            v
        }
    }

    /// Resizes the account data through the resize gates, zero-filling at
    /// the end when extending and truncating at the end otherwise.
    pub fn set_data_length(
        &self,
        transaction_context: &mut TransactionContext,
        new_length: usize,
    ) -> (r: Result<(), InstructionError>)
        requires
            old(transaction_context).inv(),
            self.valid(old(transaction_context)@),
        ensures
            final(transaction_context).inv(),
            self.valid(final(transaction_context)@),
            r == self.spec_can_data_be_resized(old(transaction_context)@, new_length as int),
            final(transaction_context)@ == self.spec_set_data_length_state(
                old(transaction_context)@,
                new_length as int,
            ),
    {
        let ghost v0 = transaction_context@;
        let idx = self.index_in_transaction as usize;
        match self.can_data_be_resized(transaction_context, new_length) {
            Ok(()) => {},
            Err(e) => {
                return Err(e);
            },
        }
        let old_len = transaction_context.accounts.accounts[idx].data.len();
        if old_len == new_length {
            return Ok(());
        }
        let _ = transaction_context.accounts.touch(self.index_in_transaction);
        let _ = transaction_context.accounts.update_accounts_resize_delta(old_len, new_length);
        let slot = &mut transaction_context.accounts.accounts[idx];
        slot.data.resize(new_length, 0u8);
        proof {
            assert(transaction_context@.pool.accounts[idx as int].data
                =~= Self::spec_resized_data(v0.pool.accounts[idx as int].data, new_length as int));
            self.lemma_resized_update(v0, transaction_context@);
            assert(transaction_context@ =~~= self.spec_set_data_length_state(
                v0,
                new_length as int,
            ));
        }
        Ok(())
    }

    /// The length an append would reach, saturating at the machine limit as
    /// the gates then refuse it.
    pub open spec fn spec_extended_len(self, v: CtxView, add: int) -> int {
        if self.acct(v).data.len() + add > usize::MAX {
            usize::MAX as int
        } else {
            self.acct(v).data.len() + add
        }
    }

    /// Outcome of an append: an empty slice succeeds before any gate is
    /// consulted; otherwise the resize gates decide at the extended length.
    pub open spec fn spec_extend_result(self, v: CtxView, data: Seq<u8>) -> Result<
        (),
        InstructionError,
    > {
        if data.len() == 0 {
            Ok(())
        } else {
            self.spec_can_data_be_resized(v, self.spec_extended_len(v, data.len() as int))
        }
    }

    /// State after an append: an empty slice is a no-op; otherwise, on
    /// success, the slot is touched, the delta moved, and the bytes
    /// appended.
    pub open spec fn spec_extend_state(self, v: CtxView, data: Seq<u8>) -> CtxView {
        if data.len() == 0 {
            v
        } else if self.spec_can_data_be_resized(
            v,
            self.spec_extended_len(v, data.len() as int),
        ) is Ok {
            self.spec_with_resized_account(
                v,
                AccountView { data: self.acct(v).data + data, ..self.acct(v) },
            )
        } else {
            v
        }
    }

    /// Appends the slice to the account data: an empty slice is accepted
    /// unconditionally; anything else passes the resize gates.
    pub fn extend_from_slice(
        &self,
        transaction_context: &mut TransactionContext,
        data: &[u8],
    ) -> (r: Result<(), InstructionError>)
        requires
            old(transaction_context).inv(),
            self.valid(old(transaction_context)@),
        ensures
            final(transaction_context).inv(),
            self.valid(final(transaction_context)@),
            r == self.spec_extend_result(old(transaction_context)@, data@),
            final(transaction_context)@ == self.spec_extend_state(
                old(transaction_context)@,
                data@,
            ),
    {
        let ghost v0 = transaction_context@;
        let idx = self.index_in_transaction as usize;
        if data.len() == 0 {
            return Ok(());
        }
        let old_len = transaction_context.accounts.accounts[idx].data.len();
        let new_len = old_len.saturating_add(data.len());
        match self.can_data_be_resized(transaction_context, new_len) {
            Ok(()) => {},
            Err(e) => {
                return Err(e);
            },
        }
        let _ = transaction_context.accounts.touch(self.index_in_transaction);
        let _ = transaction_context.accounts.update_accounts_resize_delta(old_len, new_len);
        let mut new_data = crate::account::clone_bytes(
            &transaction_context.accounts.accounts[idx].data,
        );
        let mut i: usize = 0;
        proof {
            assert(new_data@ =~= v0.pool.accounts[idx as int].data + data@.take(0));
        }
        while i < data.len()
            invariant
                i <= data@.len(),
                (idx as int) < v0.pool.accounts.len(),
                new_data@ == v0.pool.accounts[idx as int].data + data@.take(i as int),
            decreases data@.len() - i,
        {
            new_data.push(data[i]);
            proof {
                assert(new_data@ =~= v0.pool.accounts[idx as int].data + data@.take(i + 1));
            }
            i += 1;
        }
        let slot = &mut transaction_context.accounts.accounts[idx];
        slot.data = new_data;
        proof {
            assert(data@.take(data@.len() as int) =~= data@);
            self.lemma_resized_update(v0, transaction_context@);
            assert(transaction_context@ =~~= self.spec_extend_state(v0, data@));
        }
        Ok(())
    }

    /// Replacing the handle's slot without changing its data length keeps
    /// the pool's signed sum, so the whole context stays well formed.
    proof fn lemma_same_len_update(self, v0: CtxView, v1: CtxView)
        requires
            v0.wf(),
            self.valid(v0),
            v1.pool.accounts.len() == v0.pool.accounts.len(),
            forall|j: int| 0 <= j < v0.pool.accounts.len() && j != self.index_in_transaction as int
                ==> #[trigger] v1.pool.accounts[j] == v0.pool.accounts[j],
            v1.pool.accounts[self.index_in_transaction as int].data.len()
                == v0.pool.accounts[self.index_in_transaction as int].data.len(),
            v1.pool.borrowed == v0.pool.borrowed,
            v1.pool.touched == v0.pool.touched.update(self.index_in_transaction as int, true),
            v1.pool.resize_delta == v0.pool.resize_delta,
            v1.pool.initial_lens == v0.pool.initial_lens,
            v1.keys == v0.keys,
            v1.stack == v0.stack,
            v1.trace == v0.trace,
            v1.stack_capacity == v0.stack_capacity,
            v1.trace_capacity == v0.trace_capacity,
            v1.top_level_instruction_index == v0.top_level_instruction_index,
        ensures
            v1.wf(),
            self.valid(v1),
    {
        assert(v1.pool.accounts =~= v0.pool.accounts.update(
            self.index_in_transaction as int,
            v1.pool.accounts[self.index_in_transaction as int],
        ));
        lemma_delta_sum_update(
            v0.pool.accounts,
            v0.pool.initial_lens,
            self.index_in_transaction as int,
            v1.pool.accounts[self.index_in_transaction as int],
        );
    }

    /// Replacing the handle's slot with data within the per-account maximum
    /// and the budget, while moving the delta by the length change, keeps
    /// the whole context well formed.
    proof fn lemma_resized_update(self, v0: CtxView, v1: CtxView)
        requires
            v0.wf(),
            self.valid(v0),
            v1.pool.accounts.len() == v0.pool.accounts.len(),
            forall|j: int| 0 <= j < v0.pool.accounts.len() && j != self.index_in_transaction as int
                ==> #[trigger] v1.pool.accounts[j] == v0.pool.accounts[j],
            v1.pool.accounts[self.index_in_transaction as int].data.len()
                <= MAX_PERMITTED_DATA_LENGTH,
            v1.pool.borrowed == v0.pool.borrowed,
            v1.pool.touched == v0.pool.touched.update(self.index_in_transaction as int, true),
            v1.pool.resize_delta == v0.pool.resize_delta
                + v1.pool.accounts[self.index_in_transaction as int].data.len()
                - v0.pool.accounts[self.index_in_transaction as int].data.len(),
            v1.pool.resize_delta
                <= crate::account::MAX_PERMITTED_ACCOUNTS_DATA_ALLOCATIONS_PER_TRANSACTION,
            v1.pool.initial_lens == v0.pool.initial_lens,
            v1.keys == v0.keys,
            v1.stack == v0.stack,
            v1.trace == v0.trace,
            v1.stack_capacity == v0.stack_capacity,
            v1.trace_capacity == v0.trace_capacity,
            v1.top_level_instruction_index == v0.top_level_instruction_index,
        ensures
            v1.wf(),
            self.valid(v1),
    {
        assert(v1.pool.accounts =~= v0.pool.accounts.update(
            self.index_in_transaction as int,
            v1.pool.accounts[self.index_in_transaction as int],
        ));
        lemma_delta_sum_update(
            v0.pool.accounts,
            v0.pool.initial_lens,
            self.index_in_transaction as int,
            v1.pool.accounts[self.index_in_transaction as int],
        );
    }

    /// Errs when the account data may not take the given length.
    pub fn can_data_be_resized(
        &self,
        transaction_context: &TransactionContext,
        new_len: usize,
    ) -> (r: Result<(), InstructionError>)
        requires
            transaction_context.inv(),
            self.valid(transaction_context@),
        ensures
            r == self.spec_can_data_be_resized(transaction_context@, new_len as int),
    {
        let old_len = transaction_context.accounts.accounts[
            self.index_in_transaction as usize].data.len();
        if new_len != old_len && !self.is_owned_by_current_program(transaction_context) {
            return Err(InstructionError::AccountDataSizeChanged);
        }
        match transaction_context.accounts.can_data_be_resized(old_len, new_len) {
            Ok(()) => {},
            Err(e) => {
                return Err(e);
            },
        }
        self.can_data_be_changed(transaction_context)
    }
}

} // verus!
