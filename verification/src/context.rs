//! The transaction context: account keys, the shared account pool, the
//! instruction trace and stack, return data, and the push/pop protocol.
use vstd::prelude::*;
use crate::account::{Account, MAX_PERMITTED_DATA_LENGTH};
use crate::errors::InstructionError;
use crate::instruction::{FrameView, IndexOfAccount, InstructionAccount, InstructionContext};
use crate::keys::Pubkey;
use crate::pool::{PoolView, TransactionAccounts, delta_sum, lemma_delta_sum_update};
use crate::rent::{RentSchedule, RentView};

verus! {

/// Return data recorded by the most recent `set_return_data`.
#[derive(Debug)]
pub struct TransactionReturnData {
    pub program_id: Pubkey,
    pub data: Vec<u8>,
}

impl Default for TransactionReturnData {
    /// No return data, attributed to the all-zero program id.
    fn default() -> (r: TransactionReturnData)
        ensures
            r.program_id@ == Seq::<u8>::new(32, |i: int| 0u8),
            r.data@ == Seq::<u8>::empty(),
    {
        let r = TransactionReturnData { program_id: Pubkey::default(), data: Vec::new() };
        proof {
            assert(r.data@ =~= Seq::<u8>::empty());
        }
        r
    }
}

/// Mathematical image of a [`TransactionContext`].
#[verifier::ext_equal]
pub ghost struct CtxView {
    pub keys: Seq<Seq<u8>>,
    pub pool: PoolView,
    pub stack_capacity: usize,
    pub trace_capacity: usize,
    pub stack: Seq<usize>,
    pub trace: Seq<FrameView>,
    pub top_level_instruction_index: usize,
    pub return_data_program_id: Seq<u8>,
    pub return_data: Seq<u8>,
    pub executable_checks_removed: bool,
    pub rent: RentView,
    pub instructions_key: Seq<u8>,
    pub sysvar_owner_key: Seq<u8>,
}

impl CtxView {
    /// Context well-formedness: one key per pool slot, a trace that always
    /// keeps one pre-reserved tail frame and never exceeds its capacity by
    /// more, a stack of indices of frozen trace frames whose recorded nesting
    /// levels equal their stack positions, frames short enough for
    /// sixteen-bit indices, and a top-level counter bounded by the number of
    /// completed frames.
    pub open spec fn wf(self) -> bool {
        &&& self.pool.wf()
        &&& self.keys.len() == self.pool.accounts.len()
        &&& 1 <= self.trace.len() <= self.trace_capacity + 1
        &&& self.stack.len() <= self.stack_capacity
        &&& forall|i: int| 0 <= i < self.stack.len()
            ==> #[trigger] self.stack[i] < self.trace.len() - 1
        &&& forall|i: int| 0 <= i < self.stack.len()
            ==> #[trigger] self.trace[self.stack[i] as int].nesting_level == i
        &&& forall|i: int| 0 <= i < self.trace.len() ==> (#[trigger] self.trace[i]).bounded()
        &&& self.top_level_instruction_index + self.stack.len() <= self.trace.len() - 1
    }
}

/// First position whose key equals `key`.
pub open spec fn spec_find_first_key(keys: Seq<Seq<u8>>, key: Seq<u8>) -> Option<int>
    decreases keys.len(),
{
    if keys.len() == 0 {
        None
    } else if keys[0] == key {
        Some(0)
    } else {
        match spec_find_first_key(keys.drop_first(), key) {
            None => None,
            Some(p) => Some(p + 1),
        }
    }
}

/// A found first position is in range and carries the key.
pub proof fn lemma_find_first_key_bounds(keys: Seq<Seq<u8>>, key: Seq<u8>)
    requires
        spec_find_first_key(keys, key) is Some,
    ensures
        0 <= spec_find_first_key(keys, key).unwrap() < keys.len(),
        keys[spec_find_first_key(keys, key).unwrap()] == key,
    decreases keys.len(),
{
    if keys.len() > 0 && keys[0] != key {
        lemma_find_first_key_bounds(keys.drop_first(), key);
        assert(keys.drop_first()[spec_find_first_key(keys.drop_first(), key).unwrap()]
            == keys[spec_find_first_key(keys, key).unwrap()]);
    }
}

/// Last position whose key equals `key`.
pub open spec fn spec_find_last_key(keys: Seq<Seq<u8>>, key: Seq<u8>) -> Option<int>
    decreases keys.len(),
{
    if keys.len() == 0 {
        None
    } else if keys.last() == key {
        Some(keys.len() - 1)
    } else {
        spec_find_last_key(keys.drop_last(), key)
    }
}

/// Loaded transaction shared between the runtime and invoked programs,
/// valid for the entire duration of a transaction being processed.
pub struct TransactionContext {
    pub account_keys: Vec<Pubkey>,
    pub accounts: TransactionAccounts,
    pub instruction_stack_capacity: usize,
    pub instruction_trace_capacity: usize,
    pub instruction_stack: Vec<usize>,
    pub instruction_trace: Vec<InstructionContext>,
    pub top_level_instruction_index: usize,
    pub return_data: TransactionReturnData,
    pub remove_accounts_executable_flag_checks: bool,
    pub rent: RentSchedule,
    pub instructions_sysvar_key: Pubkey,
    pub sysvar_owner_key: Pubkey,
}

impl View for TransactionContext {
    type V = CtxView;

    open spec fn view(&self) -> CtxView {
        CtxView {
            keys: self.account_keys@.map_values(|k: Pubkey| k@),
            pool: self.accounts@,
            stack_capacity: self.instruction_stack_capacity,
            trace_capacity: self.instruction_trace_capacity,
            stack: self.instruction_stack@,
            trace: self.instruction_trace@.map_values(|f: InstructionContext| f@),
            top_level_instruction_index: self.top_level_instruction_index,
            return_data_program_id: self.return_data.program_id@,
            return_data: self.return_data.data@,
            executable_checks_removed: self.remove_accounts_executable_flag_checks,
            rent: self.rent@,
            instructions_key: self.instructions_sysvar_key@,
            sysvar_owner_key: self.sysvar_owner_key@,
        }
    }
}

/// A zero signed sum when every slot still has its initial data length.
proof fn lemma_delta_sum_zero(accounts: Seq<crate::account::AccountView>, initial_lens: Seq<int>)
    requires
        initial_lens.len() == accounts.len(),
        forall|i: int| 0 <= i < accounts.len()
            ==> #[trigger] initial_lens[i] == accounts[i].data.len(),
    ensures
        delta_sum(accounts, initial_lens) == 0,
    decreases accounts.len(),
{
    if accounts.len() > 0 {
        lemma_delta_sum_zero(accounts.drop_last(), initial_lens.drop_last());
    }
}

impl TransactionContext {
    /// Context well-formedness, as established by `new` and preserved by
    /// every operation.
    pub open spec fn inv(&self) -> bool {
        self@.wf()
    }

    /// Constructs a new context over the given `(key, account)` pairs.
    ///
    /// The account count must fit the sixteen-bit index type, and every
    /// account must start within the per-account data maximum.
    pub fn new(
        transaction_accounts: Vec<(Pubkey, Account)>,
        rent: RentSchedule,
        instruction_stack_capacity: usize,
        instruction_trace_capacity: usize,
    ) -> (r: TransactionContext)
        requires
            transaction_accounts@.len() <= 0xFFFF,
            forall|i: int| 0 <= i < transaction_accounts@.len()
                ==> (#[trigger] transaction_accounts@[i].1)@.data.len()
                    <= MAX_PERMITTED_DATA_LENGTH,
        ensures
            r.inv(),
            r@.keys.len() == transaction_accounts@.len(),
            forall|i: int| 0 <= i < transaction_accounts@.len() ==> {
                &&& r@.keys[i] == (#[trigger] transaction_accounts@[i].0)@
                &&& r@.pool.accounts[i] == transaction_accounts@[i].1@
                &&& !r@.pool.borrowed[i]
                &&& !r@.pool.touched[i]
                &&& r@.pool.initial_lens[i] == transaction_accounts@[i].1@.data.len()
            },
            r@.pool.resize_delta == 0,
            r@.stack_capacity == instruction_stack_capacity,
            r@.trace_capacity == instruction_trace_capacity,
            r@.stack == Seq::<usize>::empty(),
            r@.trace == seq![FrameView::empty()],
            r@.top_level_instruction_index == 0,
            r@.return_data_program_id == Seq::<u8>::new(32, |i: int| 0u8),
            r@.return_data == Seq::<u8>::empty(),
            r@.executable_checks_removed == true,
            r@.rent == rent@,
            r@.instructions_key == crate::env::spec_instructions_sysvar_id(),
            r@.sysvar_owner_key == crate::env::spec_sysvar_owner_id(),
    {
        let ghost orig = transaction_accounts@;
        let mut rest = transaction_accounts;
        let mut account_keys: Vec<Pubkey> = Vec::new();
        let mut accounts: Vec<Account> = Vec::new();
        let mut borrowed: Vec<bool> = Vec::new();
        let mut touched: Vec<bool> = Vec::new();
        while rest.len() > 0
            invariant
                account_keys@.len() + rest@.len() == orig.len(),
                accounts@.len() == account_keys@.len(),
                borrowed@.len() == account_keys@.len(),
                touched@.len() == account_keys@.len(),
                forall|i: int| 0 <= i < rest@.len()
                    ==> #[trigger] rest@[i] == orig[account_keys@.len() + i],
                forall|i: int| 0 <= i < account_keys@.len()
                    ==> #[trigger] account_keys@[i]@ == orig[i].0@,
                forall|i: int| 0 <= i < accounts@.len()
                    ==> #[trigger] accounts@[i]@ == orig[i].1@,
                forall|i: int| 0 <= i < borrowed@.len() ==> #[trigger] borrowed@[i] == false,
                forall|i: int| 0 <= i < touched@.len() ==> #[trigger] touched@[i] == false,
            decreases rest@.len(),
        {
            let (key, account) = rest.remove(0);
            account_keys.push(key);
            accounts.push(account);
            borrowed.push(false);
            touched.push(false);
        }
        let ghost gkeys = account_keys@;
        let ghost gaccts = accounts@;
        let ghost initial_lens = accounts@.map_values(|a: Account| a@.data.len() as int);
        let pool = TransactionAccounts {
            accounts,
            borrowed,
            touched,
            resize_delta: 0,
            initial_lens: Ghost(initial_lens),
        };
        let mut instruction_trace: Vec<InstructionContext> = Vec::new();
        instruction_trace.push(InstructionContext::default());
        let r = TransactionContext {
            account_keys,
            accounts: pool,
            instruction_stack_capacity,
            instruction_trace_capacity,
            instruction_stack: Vec::new(),
            instruction_trace,
            top_level_instruction_index: 0,
            return_data: TransactionReturnData::default(),
            remove_accounts_executable_flag_checks: true,
            rent,
            instructions_sysvar_key: crate::env::instructions_sysvar_id(),
            sysvar_owner_key: crate::env::sysvar_owner_id(),
        };
        proof {
            assert forall|i: int| 0 <= i < r@.pool.accounts.len() implies {
                &&& #[trigger] r@.pool.accounts[i].data.len() <= MAX_PERMITTED_DATA_LENGTH
                &&& r@.pool.initial_lens[i] == r@.pool.accounts[i].data.len()
            } by {
                assert(r@.pool.accounts[i] == gaccts[i]@);
                assert(gaccts[i]@ == orig[i].1@);
                assert(orig[i].1@.data.len() <= MAX_PERMITTED_DATA_LENGTH);
            }
            lemma_delta_sum_zero(r@.pool.accounts, r@.pool.initial_lens);
            assert(r@.stack =~= Seq::<usize>::empty());
            assert(r@.trace =~= seq![FrameView::empty()]);
            assert(r@.trace[0].bounded());
        }
        r
    }

    /// Switches the legacy executable-flag checks on or off. They default to
    /// off (removed).
    pub fn set_remove_accounts_executable_flag_checks(&mut self, enabled: bool)
        ensures
            final(self)@ == (CtxView { executable_checks_removed: enabled, ..old(self)@ }),
    {
        self.remove_accounts_executable_flag_checks = enabled;
        proof {
            assert(self@ =~= (CtxView { executable_checks_removed: enabled, ..old(self)@ }));
        }
    }

    /// The account pool.
    pub fn accounts(&self) -> (r: &TransactionAccounts)
        ensures
            r@ == self@.pool,
    {
        &self.accounts
    }

    /// Total number of accounts loaded in this transaction.
    pub fn get_number_of_accounts(&self) -> (r: IndexOfAccount)
        requires
            self.inv(),
        ensures
            r == self@.keys.len(),
    {
        self.account_keys.len() as IndexOfAccount
    }

    /// The key of the account at the given transaction-wide index.
    pub fn get_key_of_account_at_index(&self, index_in_transaction: IndexOfAccount) -> (r: Result<
        &Pubkey,
        InstructionError,
    >)
        ensures
            match r {
                Ok(k) => index_in_transaction < self@.keys.len()
                    && k@ == self@.keys[index_in_transaction as int],
                Err(e) => index_in_transaction >= self@.keys.len()
                    && e == InstructionError::NotEnoughAccountKeys,
            },
    {
        if (index_in_transaction as usize) < self.account_keys.len() {
            Ok(&self.account_keys[index_in_transaction as usize])
        } else {
            Err(InstructionError::NotEnoughAccountKeys)
        }
    }

    /// The account at the given transaction-wide index.
    pub fn get_account_at_index(&self, index_in_transaction: IndexOfAccount) -> (r: Result<
        &Account,
        InstructionError,
    >)
        ensures
            match r {
                Ok(a) => index_in_transaction < self@.pool.accounts.len()
                    && a@ == self@.pool.accounts[index_in_transaction as int],
                Err(e) => index_in_transaction >= self@.pool.accounts.len()
                    && e == InstructionError::NotEnoughAccountKeys,
            },
    {
        if (index_in_transaction as usize) < self.accounts.accounts.len() {
            Ok(&self.accounts.accounts[index_in_transaction as usize])
        } else {
            Err(InstructionError::NotEnoughAccountKeys)
        }
    }

    /// First occurrence of the key among the account keys.
    pub fn find_index_of_account(&self, pubkey: &Pubkey) -> (r: Option<IndexOfAccount>)
        requires
            self.inv(),
        ensures
            match spec_find_first_key(self@.keys, pubkey@) {
                None => r is None,
                Some(p) => r == Some(p as u16),
            },
    {
        let ghost keys = self@.keys;
        proof {
            assert(keys.skip(0) =~= keys);
        }
        let mut i: usize = 0;
        while i < self.account_keys.len()
            invariant
                self.inv(),
                i <= keys.len(),
                keys.len() <= 0xFFFF,
                keys == self@.keys,
                spec_find_first_key(keys, pubkey@) == match spec_find_first_key(
                    keys.skip(i as int),
                    pubkey@,
                ) {
                    None => None::<int>,
                    Some(p) => Some(p + i),
                },
            decreases keys.len() - i,
        {
            proof {
                assert(keys.skip(i as int)[0] == keys[i as int]);
                assert(keys.skip(i as int).drop_first() =~= keys.skip(i + 1));
            }
            if self.account_keys[i].key_eq(pubkey) {
                return Some(i as u16);
            }
            i += 1;
        }
        proof {
            assert(keys.skip(i as int).len() == 0);
        }
        None
    }

    /// Last occurrence of the key among the account keys: the same key may
    /// appear both as a regular account and as the current program, and the
    /// current program is conventionally loaded last.
    pub fn find_index_of_program_account(&self, pubkey: &Pubkey) -> (r: Option<IndexOfAccount>)
        requires
            self.inv(),
        ensures
            match spec_find_last_key(self@.keys, pubkey@) {
                None => r is None,
                Some(p) => r == Some(p as u16),
            },
    {
        let ghost keys = self@.keys;
        let mut i: usize = self.account_keys.len();
        proof {
            assert(keys.take(i as int) =~= keys);
        }
        while i > 0
            invariant
                self.inv(),
                i <= keys.len(),
                keys.len() <= 0xFFFF,
                keys == self@.keys,
                spec_find_last_key(keys, pubkey@) == spec_find_last_key(
                    keys.take(i as int),
                    pubkey@,
                ),
            decreases i,
        {
            i -= 1;
            proof {
                assert(keys.take(i + 1).last() == keys[i as int]);
                assert(keys.take(i + 1).drop_last() =~= keys.take(i as int));
            }
            if self.account_keys[i].key_eq(pubkey) {
                return Some(i as u16);
            }
        }
        None
    }

    /// The maximum length of the instruction trace.
    pub fn get_instruction_trace_capacity(&self) -> (r: usize)
        ensures
            r == self@.trace_capacity,
    {
        self.instruction_trace_capacity
    }

    /// The number of frames ever pushed, not counting the pre-reserved empty
    /// tail frame.
    pub fn get_instruction_trace_length(&self) -> (r: usize)
        requires
            self.inv(),
        ensures
            r == self@.trace.len() - 1,
    {
        self.instruction_trace.len() - 1
    }

    /// The frame at the given position in the trace.
    pub fn get_instruction_context_at_index_in_trace(&self, index_in_trace: usize) -> (r: Result<
        &InstructionContext,
        InstructionError,
    >)
        ensures
            match r {
                Ok(f) => index_in_trace < self@.trace.len()
                    && f@ == self@.trace[index_in_trace as int],
                Err(e) => index_in_trace >= self@.trace.len() && e == InstructionError::CallDepth,
            },
    {
        if index_in_trace < self.instruction_trace.len() {
            Ok(&self.instruction_trace[index_in_trace])
        } else {
            Err(InstructionError::CallDepth)
        }
    }

    /// The frame at the given nesting level of the live stack.
    pub fn get_instruction_context_at_nesting_level(&self, nesting_level: usize) -> (r: Result<
        &InstructionContext,
        InstructionError,
    >)
        requires
            self.inv(),
        ensures
            match r {
                Ok(f) => nesting_level < self@.stack.len()
                    && f@ == self@.trace[self@.stack[nesting_level as int] as int],
                Err(e) => nesting_level >= self@.stack.len() && e == InstructionError::CallDepth,
            },
    {
        if nesting_level < self.instruction_stack.len() {
            let index_in_trace = self.instruction_stack[nesting_level];
            self.get_instruction_context_at_index_in_trace(index_in_trace)
        } else {
            Err(InstructionError::CallDepth)
        }
    }

    /// The maximum height of the instruction stack.
    pub fn get_instruction_stack_capacity(&self) -> (r: usize)
        ensures
            r == self@.stack_capacity,
    {
        self.instruction_stack_capacity
    }

    /// Current instruction stack height; a top-level instruction runs at
    /// height one.
    pub fn get_instruction_context_stack_height(&self) -> (r: usize)
        ensures
            r == self@.stack.len(),
    {
        self.instruction_stack.len()
    }

    /// The frame currently on top of the stack.
    pub fn get_current_instruction_context(&self) -> (r: Result<
        &InstructionContext,
        InstructionError,
    >)
        requires
            self.inv(),
        ensures
            match r {
                Ok(f) => self@.stack.len() > 0
                    && f@ == self@.trace[self@.stack.last() as int],
                Err(e) => self@.stack.len() == 0 && e == InstructionError::CallDepth,
            },
    {
        if self.instruction_stack.len() == 0 {
            return Err(InstructionError::CallDepth);
        }
        self.get_instruction_context_at_nesting_level(self.instruction_stack.len() - 1)
    }

    /// The pre-reserved tail frame that the next push will freeze.
    pub fn get_next_instruction_context(&self) -> (r: Result<
        &InstructionContext,
        InstructionError,
    >)
        requires
            self.inv(),
        ensures
            match r {
                Ok(f) => f@ == self@.trace.last(),
                Err(_) => false,
            },
    {
        Ok(&self.instruction_trace[self.instruction_trace.len() - 1])
    }

    /// Fills in the pre-reserved tail frame for the next invocation.
    pub fn configure_next_instruction_context(
        &mut self,
        program_accounts: Vec<IndexOfAccount>,
        instruction_accounts: Vec<InstructionAccount>,
        instruction_data: &[u8],
    )
        requires
            old(self).inv(),
            program_accounts@.len() <= 0xFFFF,
            instruction_accounts@.len() <= 0xFFFF,
        ensures
            final(self).inv(),
            final(self)@ == (CtxView {
                trace: old(self)@.trace.update(
                    old(self)@.trace.len() - 1,
                    FrameView {
                        program_accounts: program_accounts@,
                        instruction_accounts: instruction_accounts@,
                        instruction_data: instruction_data@,
                        ..old(self)@.trace.last()
                    },
                ),
                ..old(self)@
            }),
    {
        let tail = self.instruction_trace.len() - 1;
        let frame = &mut self.instruction_trace[tail];
        frame.configure(program_accounts, instruction_accounts, instruction_data);
        proof {
            assert(self@.trace =~= old(self)@.trace.update(
                old(self)@.trace.len() - 1,
                FrameView {
                    program_accounts: program_accounts@,
                    instruction_accounts: instruction_accounts@,
                    instruction_data: instruction_data@,
                    ..old(self)@.trace.last()
                },
            ));
            assert(self@ =~= (CtxView {
                trace: self@.trace,
                ..old(self)@
            }));
        }
    }

    /// The most recently recorded return data.
    pub fn get_return_data(&self) -> (r: &TransactionReturnData)
        ensures
            r.program_id@ == self@.return_data_program_id,
            r.data@ == self@.return_data,
    {
        &self.return_data
    }

    /// Overwrites the recorded return data; the latest write wins.
    pub fn set_return_data(&mut self, program_id: Pubkey, data: Vec<u8>) -> (r: Result<
        (),
        InstructionError,
    >)
        ensures
            r == Ok::<(), InstructionError>(()),
            final(self)@ == (CtxView {
                return_data_program_id: program_id@,
                return_data: data@,
                ..old(self)@
            }),
    {
        self.return_data = TransactionReturnData { program_id, data };
        proof {
            assert(self@ =~= (CtxView {
                return_data_program_id: program_id@,
                return_data: data@,
                ..old(self)@
            }));
        }
        Ok(())
    }

    /// The transaction-wide signed resize delta.
    pub fn accounts_resize_delta(&self) -> (r: Result<i64, InstructionError>)
        ensures
            r == Ok::<i64, InstructionError>(self@.pool.resize_delta),
    {
        Ok(self.accounts.resize_delta)
    }
}

/// Partial lamport sum of the instruction accounts from position `i` on,
/// with `acc` already accumulated. Duplicate entries are skipped; an
/// out-of-range transaction index, an outstanding exclusive borrow, or an
/// overflowing addition stops the sum with the matching error.
pub open spec fn lamport_sum_from(
    pool: PoolView,
    iaccs: Seq<InstructionAccount>,
    i: int,
    acc: u128,
) -> Result<u128, InstructionError>
    decreases iaccs.len() - i,
{
    if i < 0 || i >= iaccs.len() {
        Ok(acc)
    } else {
        let ia = iaccs[i];
        if ia.index_in_callee as int != i {
            lamport_sum_from(pool, iaccs, i + 1, acc)
        } else if ia.index_in_transaction as int >= pool.accounts.len() {
            Err(InstructionError::NotEnoughAccountKeys)
        } else if pool.borrowed[ia.index_in_transaction as int] {
            Err(InstructionError::AccountBorrowOutstanding)
        } else if acc + pool.accounts[ia.index_in_transaction as int].lamports > u128::MAX {
            Err(InstructionError::ArithmeticOverflow)
        } else {
            lamport_sum_from(
                pool,
                iaccs,
                i + 1,
                (acc + pool.accounts[ia.index_in_transaction as int].lamports) as u128,
            )
        }
    }
}

/// Sum, as a 128-bit value, of the lamports of each instruction account
/// whose duplicate marker names itself (first occurrences only).
pub open spec fn spec_lamport_sum(pool: PoolView, iaccs: Seq<InstructionAccount>) -> Result<
    u128,
    InstructionError,
> {
    lamport_sum_from(pool, iaccs, 0, 0)
}

/// The lamport sums computed at the start of a push: the callee sum over the
/// pre-reserved tail frame, after checking that the caller frame's current
/// sum still matches its recorded snapshot.
pub open spec fn spec_push_sums(v: CtxView) -> Result<u128, InstructionError> {
    let tail = v.trace.last();
    match spec_lamport_sum(v.pool, tail.instruction_accounts) {
        Err(e) => Err(e),
        Ok(callee_sum) => if v.stack.len() > 0 {
            let caller = v.trace[v.stack.last() as int];
            match spec_lamport_sum(v.pool, caller.instruction_accounts) {
                Err(e) => Err(e),
                Ok(current) => if caller.lamport_sum != current {
                    Err(InstructionError::UnbalancedInstruction)
                } else {
                    Ok(callee_sum)
                },
            }
        } else {
            Ok(callee_sum)
        },
    }
}

/// Outcome of the instructions-sysvar maintenance step of a push: nothing to
/// do when no account carries the sysvar key; otherwise the account must be
/// unborrowed, owned by the sysvar registry, and at least two bytes long.
pub open spec fn spec_sysvar_write_result(v: CtxView) -> Result<(), InstructionError> {
    match spec_find_first_key(v.keys, v.instructions_key) {
        None => Ok(()),
        Some(i) => if v.pool.borrowed[i] {
            Err(InstructionError::AccountBorrowFailed)
        } else if v.pool.accounts[i].owner != v.sysvar_owner_key {
            Err(InstructionError::InvalidAccountOwner)
        } else if v.pool.accounts[i].data.len() < 2 {
            Err(InstructionError::AccountDataTooSmall)
        } else {
            Ok(())
        },
    }
}

/// State after the instructions-sysvar maintenance step: on success the
/// current top-level instruction index, reduced to sixteen bits, is written
/// little-endian into the last two bytes of the sysvar account's data.
pub open spec fn spec_sysvar_write_state(v: CtxView) -> CtxView {
    match spec_find_first_key(v.keys, v.instructions_key) {
        None => v,
        Some(i) => if v.pool.borrowed[i] || v.pool.accounts[i].owner != v.sysvar_owner_key
            || v.pool.accounts[i].data.len() < 2 {
            v
        } else {
            let a = v.pool.accounts[i];
            let idx16 = v.top_level_instruction_index as u16;
            let new_data = a.data.update(a.data.len() - 2, (idx16 % 256) as u8).update(
                a.data.len() - 1,
                (idx16 / 256) as u8,
            );
            CtxView {
                pool: PoolView {
                    accounts: v.pool.accounts.update(
                        i,
                        crate::account::AccountView { data: new_data, ..a },
                    ),
                    ..v.pool
                },
                ..v
            }
        },
    }
}

/// Result of a push: the staged failures in protocol order, else the sysvar
/// maintenance outcome.
pub open spec fn spec_push_result(v: CtxView) -> Result<(), InstructionError> {
    match spec_push_sums(v) {
        Err(e) => Err(e),
        Ok(_) => if v.trace.len() - 1 >= v.trace_capacity {
            Err(InstructionError::MaxInstructionTraceLengthExceeded)
        } else if v.stack.len() >= v.stack_capacity {
            Err(InstructionError::CallDepth)
        } else {
            spec_sysvar_write_result(v)
        },
    }
}

/// State after a push, staged exactly as the protocol performs it: on a sum
/// or balance failure nothing changes; after those, the tail frame's nesting
/// level and lamport sum are written even when a later stage fails; the
/// trace gains a new empty tail before the stack depth is checked; the
/// frozen frame's index lands on the stack; finally the sysvar step runs.
pub open spec fn spec_push_state(v: CtxView) -> CtxView {
    match spec_push_sums(v) {
        Err(_) => v,
        Ok(callee_sum) => {
            let tail = v.trace.last();
            let v1 = CtxView {
                trace: v.trace.update(
                    v.trace.len() - 1,
                    FrameView {
                        nesting_level: v.stack.len() as usize,
                        lamport_sum: callee_sum,
                        ..tail
                    },
                ),
                ..v
            };
            if v.trace.len() - 1 >= v.trace_capacity {
                v1
            } else {
                let v2 = CtxView { trace: v1.trace.push(FrameView::empty()), ..v1 };
                if v.stack.len() >= v.stack_capacity {
                    v2
                } else {
                    let v3 = CtxView {
                        stack: v2.stack.push((v.trace.len() - 1) as usize),
                        ..v2
                    };
                    spec_sysvar_write_state(v3)
                }
            }
        },
    }
}

/// First failure among the frame's program accounts from position `i` on: an
/// out-of-range index or an outstanding exclusive borrow.
pub open spec fn spec_prog_check(pool: PoolView, progs: Seq<u16>, i: int) -> Option<
    InstructionError,
>
    decreases progs.len() - i,
{
    if i < 0 || i >= progs.len() {
        None
    } else if progs[i] as int >= pool.accounts.len() {
        Some(InstructionError::NotEnoughAccountKeys)
    } else if pool.borrowed[progs[i] as int] {
        Some(InstructionError::AccountBorrowOutstanding)
    } else {
        spec_prog_check(pool, progs, i + 1)
    }
}

/// The consistency check a pop performs before unwinding: all program
/// accounts of the current frame must be unborrowed, the lamport sum must be
/// recomputable, and the answer says whether it differs from the snapshot.
pub open spec fn spec_pop_detect(v: CtxView) -> Result<bool, InstructionError> {
    let frame = v.trace[v.stack.last() as int];
    match spec_prog_check(v.pool, frame.program_accounts, 0) {
        Some(e) => Err(e),
        None => match spec_lamport_sum(v.pool, frame.instruction_accounts) {
            Err(e) => Err(e),
            Ok(s) => Ok(frame.lamport_sum != s),
        },
    }
}

/// Result of a pop: empty-stack failure, a check failure, an imbalance, or
/// success.
pub open spec fn spec_pop_result(v: CtxView) -> Result<(), InstructionError> {
    if v.stack.len() == 0 {
        Err(InstructionError::CallDepth)
    } else {
        match spec_pop_detect(v) {
            Err(e) => Err(e),
            Ok(true) => Err(InstructionError::UnbalancedInstruction),
            Ok(false) => Ok(()),
        }
    }
}

/// State after a pop: unless the stack was empty, the top entry always
/// leaves the stack — even on an imbalance — and the top-level instruction
/// counter grows by one, saturating, when the stack empties.
pub open spec fn spec_pop_state(v: CtxView) -> CtxView {
    if v.stack.len() == 0 {
        v
    } else {
        let stack2 = v.stack.drop_last();
        let top_level = if stack2.len() == 0 {
            if v.top_level_instruction_index < usize::MAX {
                (v.top_level_instruction_index + 1) as usize
            } else {
                usize::MAX
            }
        } else {
            v.top_level_instruction_index
        };
        CtxView { stack: stack2, top_level_instruction_index: top_level, ..v }
    }
}

impl TransactionContext {
    /// Sum of all lamports of the frame's first-occurrence instruction
    /// accounts, taken through transient shared borrows.
    fn instruction_accounts_lamport_sum(&self, index_in_trace: usize) -> (r: Result<
        u128,
        InstructionError,
    >)
        requires
            self.inv(),
            index_in_trace < self@.trace.len(),
        ensures
            r == spec_lamport_sum(self@.pool, self@.trace[index_in_trace as int].instruction_accounts),
    {
        let ghost iaccs = self@.trace[index_in_trace as int].instruction_accounts;
        let ghost pool = self@.pool;
        let n = self.instruction_trace[index_in_trace].instruction_accounts.len();
        let mut sum: u128 = 0;
        let mut i: usize = 0;
        while i < n
            invariant
                self.inv(),
                index_in_trace < self@.trace.len(),
                iaccs == self@.trace[index_in_trace as int].instruction_accounts,
                pool == self@.pool,
                n == iaccs.len(),
                i <= n,
                lamport_sum_from(pool, iaccs, 0, 0) == lamport_sum_from(pool, iaccs, i as int, sum),
            decreases n - i,
        {
            let ia = self.instruction_trace[index_in_trace].instruction_accounts[i];
            if (ia.index_in_callee as usize) == i {
                let t = ia.index_in_transaction as usize;
                if t >= self.accounts.accounts.len() {
                    return Err(InstructionError::NotEnoughAccountKeys);
                }
                if self.accounts.borrowed[t] {
                    return Err(InstructionError::AccountBorrowOutstanding);
                }
                let lam = self.accounts.accounts[t].lamports as u128;
                if sum > u128::MAX - lam {
                    return Err(InstructionError::ArithmeticOverflow);
                }
                sum = sum + lam;
            }
            i += 1;
        }
        Ok(sum)
    }

    /// Pushes the configured tail frame onto the stack, freezing it into the
    /// trace, and maintains the instructions sysvar.
    pub fn push(&mut self) -> (r: Result<(), InstructionError>)
        requires
            old(self).inv(),
        ensures
            final(self).inv(),
            final(self)@ == spec_push_state(old(self)@),
            r == spec_push_result(old(self)@),
    {
        let ghost v0 = self@;
        let tail_index = self.instruction_trace.len() - 1;
        proof {
            assert(v0.trace[tail_index as int] == v0.trace.last());
        }
        let callee_sum = match self.instruction_accounts_lamport_sum(tail_index) {
            Ok(s) => s,
            Err(e) => {
                return Err(e);
            },
        };
        let nesting_level = self.instruction_stack.len();
        if self.instruction_stack.len() > 0 {
            let caller_trace_index = self.instruction_stack[self.instruction_stack.len() - 1];
            proof {
                assert(v0.stack.last() == v0.stack[v0.stack.len() - 1]);
            }
            let recorded = self.instruction_trace[caller_trace_index]
                .instruction_accounts_lamport_sum;
            let current = match self.instruction_accounts_lamport_sum(caller_trace_index) {
                Ok(s) => s,
                Err(e) => {
                    return Err(e);
                },
            };
            if recorded != current {
                return Err(InstructionError::UnbalancedInstruction);
            }
        }
        {
            let tail_frame = &mut self.instruction_trace[tail_index];
            tail_frame.nesting_level = nesting_level;
            tail_frame.instruction_accounts_lamport_sum = callee_sum;
        }
        let ghost v1 = spec_push_state_v1(v0, callee_sum);
        proof {
            assert(self@.trace =~= v1.trace);
            assert(self@ =~= v1);
            assert(self.inv());
        }
        let index_in_trace = self.instruction_trace.len() - 1;
        if index_in_trace >= self.instruction_trace_capacity {
            return Err(InstructionError::MaxInstructionTraceLengthExceeded);
        }
        self.instruction_trace.push(InstructionContext::default());
        let ghost v2 = CtxView { trace: v1.trace.push(FrameView::empty()), ..v1 };
        proof {
            assert(self@.trace =~= v2.trace);
            assert(self@ =~= v2);
            assert forall|i: int| 0 <= i < self@.stack.len()
                implies #[trigger] self@.stack[i] < self@.trace.len() - 1
                    && self@.trace[self@.stack[i] as int].nesting_level == i by {
                assert(v0.stack[i] < v0.trace.len() - 1);
            }
            assert(self.inv());
        }
        if nesting_level >= self.instruction_stack_capacity {
            return Err(InstructionError::CallDepth);
        }
        self.instruction_stack.push(index_in_trace);
        let ghost v3 = CtxView { stack: v2.stack.push(index_in_trace), ..v2 };
        proof {
            assert(self@ =~= v3);
            assert forall|i: int| 0 <= i < self@.stack.len()
                implies #[trigger] self@.stack[i] < self@.trace.len() - 1
                    && self@.trace[self@.stack[i] as int].nesting_level == i by {
                if i < v0.stack.len() {
                    assert(v0.stack[i] < v0.trace.len() - 1);
                } else {
                    assert(self@.stack[i] == index_in_trace);
                }
            }
            assert(self.inv());
        }
        let key = self.instructions_sysvar_key;
        match self.find_index_of_account(&key) {
            None => {
                proof {
                    assert(self@ == spec_push_state(v0));
                }
                Ok(())
            },
            Some(index_in_transaction) => {
                proof {
                    lemma_find_first_key_bounds(v3.keys, v3.instructions_key);
                }
                let t = index_in_transaction as usize;
                if self.accounts.borrowed[t] {
                    return Err(InstructionError::AccountBorrowFailed);
                }
                if !self.accounts.accounts[t].owner.key_eq(&self.sysvar_owner_key) {
                    return Err(InstructionError::InvalidAccountOwner);
                }
                let idx16 = #[verifier::truncate] (self.top_level_instruction_index as u16);
                let slot = &mut self.accounts.accounts[t];
                let ghost a = v3.pool.accounts[t as int];
                let res = crate::env::store_current_index_checked(&mut slot.data, idx16);
                proof {
                    assert(self@.pool.accounts[t as int].data.len() == a.data.len());
                    lemma_delta_sum_update(
                        v3.pool.accounts,
                        v3.pool.initial_lens,
                        t as int,
                        self@.pool.accounts[t as int],
                    );
                    assert(self@.pool.accounts =~= v3.pool.accounts.update(
                        t as int,
                        self@.pool.accounts[t as int],
                    ));
                    assert(self.inv());
                }
                match res {
                    Ok(_) => {
                        proof {
                            assert(self@.pool.accounts[t as int].data =~= a.data.update(
                                a.data.len() - 2,
                                (idx16 % 256) as u8,
                            ).update(a.data.len() - 1, (idx16 / 256) as u8));
                            assert(self@.pool.accounts[t as int] =~= (
                            crate::account::AccountView {
                                data: self@.pool.accounts[t as int].data,
                                ..a
                            }));
                            assert(spec_sysvar_write_state(v3).pool.accounts
                                =~~= self@.pool.accounts);
                            assert(self@ =~~= spec_push_state(v0));
                        }
                        Ok(())
                    },
                    Err(e) => {
                        proof {
                            assert(self@.pool.accounts =~~= v3.pool.accounts);
                            assert(self@ =~~= spec_push_state(v0));
                        }
                        Err(e)
                    },
                }
            },
        }
    }

    /// Pops the current frame. The stack always unwinds — even when the
    /// lamport sums no longer balance — and the top-level instruction
    /// counter advances when the stack empties.
    pub fn pop(&mut self) -> (r: Result<(), InstructionError>)
        requires
            old(self).inv(),
        ensures
            final(self).inv(),
            final(self)@ == spec_pop_state(old(self)@),
            r == spec_pop_result(old(self)@),
    {
        if self.instruction_stack.len() == 0 {
            return Err(InstructionError::CallDepth);
        }
        let ghost v0 = self@;
        let top_index = self.instruction_stack[self.instruction_stack.len() - 1];
        proof {
            assert(v0.stack.last() == v0.stack[v0.stack.len() - 1]);
        }
        let detected = self.pop_detect(top_index);
        // The trace length bounds the top-level counter, so the increment
        // below cannot overflow.
        let trace_len: usize = self.instruction_trace.len();
        proof {
            assert(self@.top_level_instruction_index + self@.stack.len() <= trace_len - 1);
        }
        let _ = self.instruction_stack.pop();
        if self.instruction_stack.len() == 0 {
            self.top_level_instruction_index = self.top_level_instruction_index + 1;
        }
        proof {
            assert(self@.stack =~= v0.stack.drop_last());
            assert(self@ =~= spec_pop_state(v0));
            assert(self.inv());
        }
        match detected {
            Err(e) => Err(e),
            Ok(true) => Err(InstructionError::UnbalancedInstruction),
            Ok(false) => Ok(()),
        }
    }

    /// The borrow and balance check a pop performs on the frame it unwinds.
    fn pop_detect(&self, index_in_trace: usize) -> (r: Result<bool, InstructionError>)
        requires
            self.inv(),
            self@.stack.len() > 0,
            index_in_trace == self@.stack.last(),
        ensures
            r == spec_pop_detect(self@),
    {
        proof {
            assert(self@.stack.last() == self@.stack[self@.stack.len() - 1]);
            assert(self@.stack[self@.stack.len() - 1] < self@.trace.len() - 1);
        }
        let ghost progs = self@.trace[index_in_trace as int].program_accounts;
        let ghost pool = self@.pool;
        let n = self.instruction_trace[index_in_trace].program_accounts.len();
        let mut i: usize = 0;
        while i < n
            invariant
                self.inv(),
                self@.stack.len() > 0,
                index_in_trace == self@.stack.last(),
                index_in_trace < self@.trace.len(),
                progs == self@.trace[index_in_trace as int].program_accounts,
                pool == self@.pool,
                n == progs.len(),
                i <= n,
                spec_prog_check(pool, progs, 0) == spec_prog_check(pool, progs, i as int),
            decreases n - i,
        {
            let p = self.instruction_trace[index_in_trace].program_accounts[i];
            if (p as usize) >= self.accounts.accounts.len() {
                proof {
                    assert(spec_prog_check(pool, progs, i as int)
                        == Some(InstructionError::NotEnoughAccountKeys));
                }
                return Err(InstructionError::NotEnoughAccountKeys);
            }
            if self.accounts.borrowed[p as usize] {
                proof {
                    assert(spec_prog_check(pool, progs, i as int)
                        == Some(InstructionError::AccountBorrowOutstanding));
                }
                return Err(InstructionError::AccountBorrowOutstanding);
            }
            i += 1;
        }
        let sum = match self.instruction_accounts_lamport_sum(index_in_trace) {
            Ok(s) => s,
            Err(e) => {
                return Err(e);
            },
        };
        let recorded = self.instruction_trace[index_in_trace].instruction_accounts_lamport_sum;
        Ok(recorded != sum)
    }
}

/// The context image after the tail frame's nesting level and lamport sum
/// have been written, the first mutation a successful push performs.
pub open spec fn spec_push_state_v1(v: CtxView, callee_sum: u128) -> CtxView {
    CtxView {
        trace: v.trace.update(
            v.trace.len() - 1,
            FrameView {
                nesting_level: v.stack.len() as usize,
                lamport_sum: callee_sum,
                ..v.trace.last()
            },
        ),
        ..v
    }
}

} // verus!
