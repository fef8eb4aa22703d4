//! Deconstruction of a finished context into what the runtime writes back.
use vstd::prelude::*;
use crate::account::Account;
use crate::context::{TransactionContext, TransactionReturnData};
use crate::errors::InstructionError;
use crate::keys::Pubkey;

verus! {

/// Number of true entries in a sequence of flags.
pub open spec fn count_true(flags: Seq<bool>) -> int
    decreases flags.len(),
{
    if flags.len() == 0 {
        0
    } else {
        count_true(flags.drop_last()) + if flags.last() {
            1int
        } else {
            0int
        }
    }
}

/// Everything that needs to be recorded from a transaction context after
/// execution: the accounts in original order, the final return data, how
/// many slots were touched, and the final resize delta.
pub struct ExecutionRecord {
    pub accounts: Vec<(Pubkey, Account)>,
    pub return_data: TransactionReturnData,
    pub touched_account_count: u64,
    pub accounts_resize_delta: i64,
}

impl ExecutionRecord {
    /// Deconstructs a context into the record the runtime writes back.
    pub fn from_context(context: TransactionContext) -> (r: ExecutionRecord)
        requires
            context.inv(),
        ensures
            r.accounts@.len() == context@.keys.len(),
            forall|i: int| 0 <= i < r.accounts@.len() ==> {
                &&& (#[trigger] r.accounts@[i].0)@ == context@.keys[i]
                &&& r.accounts@[i].1@ == context@.pool.accounts[i]
            },
            r.return_data.program_id@ == context@.return_data_program_id,
            r.return_data.data@ == context@.return_data,
            r.touched_account_count == count_true(context@.pool.touched),
            r.accounts_resize_delta == context@.pool.resize_delta,
    {
        let ghost v = context@;
        let TransactionContext { account_keys, accounts: pool, return_data, .. } = context;
        let keys = account_keys;
        let mut rest = pool.accounts;
        let touched = pool.touched;
        let resize_delta = pool.resize_delta;
        let mut pairs: Vec<(Pubkey, Account)> = Vec::new();
        while rest.len() > 0
            invariant
                pairs@.len() + rest@.len() == v.pool.accounts.len(),
                keys@.len() == v.pool.accounts.len(),
                forall|i: int| 0 <= i < keys@.len() ==> #[trigger] keys@[i]@ == v.keys[i],
                forall|i: int| 0 <= i < rest@.len()
                    ==> #[trigger] rest@[i]@ == v.pool.accounts[pairs@.len() + i],
                forall|i: int| 0 <= i < pairs@.len() ==> {
                    &&& (#[trigger] pairs@[i].0)@ == v.keys[i]
                    &&& pairs@[i].1@ == v.pool.accounts[i]
                },
            decreases rest@.len(),
        {
            let account = rest.remove(0);
            let key = keys[pairs.len()];
            pairs.push((key, account));
        }
        let mut touched_account_count: u64 = 0;
        let mut i: usize = 0;
        proof {
            assert(touched@.take(0) =~= Seq::<bool>::empty());
        }
        while i < touched.len()
            invariant
                i <= touched@.len(),
                touched@.len() <= 0xFFFF,
                touched@ == v.pool.touched,
                touched_account_count == count_true(touched@.take(i as int)),
                touched_account_count <= i,
            decreases touched@.len() - i,
        {
            if touched[i] {
                touched_account_count = touched_account_count + 1;
            }
            proof {
                assert(touched@.take(i + 1).drop_last() =~= touched@.take(i as int));
                assert(touched@.take(i + 1).last() == touched@[i as int]);
            }
            i += 1;
        }
        proof {
            assert(touched@.take(touched@.len() as int) =~= touched@);
        }
        ExecutionRecord {
            accounts: pairs,
            return_data,
            touched_account_count,
            accounts_resize_delta: resize_delta,
        }
    }
}

impl TransactionContext {
    /// Deconstructs the context into its accounts alone; refused while the
    /// instruction stack is not empty.
    pub fn deconstruct_without_keys(self) -> (r: Result<Vec<Account>, InstructionError>)
        ensures
            self@.stack.len() > 0 ==> r == Err::<Vec<Account>, InstructionError>(
                InstructionError::CallDepth,
            ),
            self@.stack.len() == 0 ==> match r {
                Ok(accounts) => accounts@.len() == self@.pool.accounts.len() && forall|i: int|
                    0 <= i < accounts@.len()
                        ==> (#[trigger] accounts@[i])@ == self@.pool.accounts[i],
                Err(_) => false,
            },
    {
        if self.instruction_stack.len() > 0 {
            return Err(InstructionError::CallDepth);
        }
        Ok(self.accounts.accounts)
    }
}

} // verus!
