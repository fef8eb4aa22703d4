use transaction_context::{
    Account, ExecutionRecord, InstructionAccount, InstructionError, Pubkey, RentSchedule,
    TransactionContext,
};

const PROGRAM_KEY: [u8; 32] = [3u8; 32];

fn plain_account(lamports: u64) -> Account {
    Account {
        lamports,
        data: vec![],
        owner: Pubkey::new_from_array([2u8; 32]),
        executable: false,
        rent_epoch: 0,
    }
}

fn single_account_context(lamports: u64, stack_cap: usize, trace_cap: usize) -> TransactionContext {
    let mut ctx = TransactionContext::new(
        vec![(Pubkey::new_from_array([1u8; 32]), plain_account(lamports))],
        RentSchedule::default(),
        stack_cap,
        trace_cap,
    );
    ctx.configure_next_instruction_context(
        vec![],
        vec![InstructionAccount::new(0, 0, true, true)],
        &[],
    );
    ctx
}

#[test]
fn unbalanced_instruction_still_pops() {
    let mut ctx = single_account_context(100, 2, 2);
    assert_eq!(ctx.push(), Ok(()));
    let frame = ctx.get_current_instruction_context().unwrap().clone();
    let acct = frame.try_borrow_instruction_account(&mut ctx, 0).unwrap();
    assert_eq!(acct.set_lamports(&mut ctx, 200), Ok(()));
    acct.release(&mut ctx);
    assert_eq!(ctx.pop(), Err(InstructionError::UnbalancedInstruction));
    assert_eq!(ctx.get_instruction_context_stack_height(), 0);
}

#[test]
fn balanced_instruction_pops_clean() {
    let mut ctx = single_account_context(100, 2, 2);
    assert_eq!(ctx.push(), Ok(()));
    assert_eq!(ctx.pop(), Ok(()));
    assert_eq!(ctx.get_instruction_context_stack_height(), 0);
}

#[test]
fn pop_on_empty_stack_is_call_depth() {
    let mut ctx = single_account_context(100, 2, 2);
    assert_eq!(ctx.pop(), Err(InstructionError::CallDepth));
}

#[test]
fn push_to_full_stack_is_call_depth() {
    let mut ctx = single_account_context(100, 1, 4);
    assert_eq!(ctx.push(), Ok(()));
    ctx.configure_next_instruction_context(vec![], vec![], &[]);
    assert_eq!(ctx.push(), Err(InstructionError::CallDepth));
    assert_eq!(ctx.get_instruction_context_stack_height(), 1);
}

#[test]
fn push_to_full_trace_is_trace_length_exceeded() {
    let mut ctx = single_account_context(100, 4, 1);
    assert_eq!(ctx.push(), Ok(()));
    ctx.configure_next_instruction_context(vec![], vec![], &[]);
    assert_eq!(ctx.push(), Err(InstructionError::MaxInstructionTraceLengthExceeded));
    assert_eq!(ctx.get_instruction_trace_length(), 1);
}

#[test]
fn trace_length_never_decreases() {
    let mut ctx = single_account_context(100, 4, 8);
    let mut last = ctx.get_instruction_trace_length();
    assert_eq!(ctx.push(), Ok(()));
    assert!(ctx.get_instruction_trace_length() >= last);
    last = ctx.get_instruction_trace_length();
    assert_eq!(ctx.pop(), Ok(()));
    assert!(ctx.get_instruction_trace_length() >= last);
    last = ctx.get_instruction_trace_length();
    ctx.configure_next_instruction_context(vec![], vec![], &[]);
    assert_eq!(ctx.push(), Ok(()));
    assert!(ctx.get_instruction_trace_length() >= last);
}

#[test]
fn matching_pop_restores_stack_height() {
    let mut ctx = single_account_context(100, 4, 8);
    let before = ctx.get_instruction_context_stack_height();
    assert_eq!(ctx.push(), Ok(()));
    assert_eq!(ctx.get_instruction_context_stack_height(), before + 1);
    ctx.configure_next_instruction_context(vec![], vec![], &[]);
    assert_eq!(ctx.push(), Ok(()));
    assert_eq!(ctx.get_instruction_context_stack_height(), before + 2);
    assert_eq!(ctx.pop(), Ok(()));
    assert_eq!(ctx.get_instruction_context_stack_height(), before + 1);
    assert_eq!(ctx.pop(), Ok(()));
    assert_eq!(ctx.get_instruction_context_stack_height(), before);
}

#[test]
fn two_exclusive_borrows_of_one_slot_cannot_both_succeed() {
    let mut ctx = single_account_context(100, 2, 2);
    assert_eq!(ctx.push(), Ok(()));
    let frame = ctx.get_current_instruction_context().unwrap().clone();
    let first = frame.try_borrow_instruction_account(&mut ctx, 0).unwrap();
    assert_eq!(
        frame.try_borrow_instruction_account(&mut ctx, 0).unwrap_err(),
        InstructionError::AccountBorrowFailed,
    );
    first.release(&mut ctx);
    let again = frame.try_borrow_instruction_account(&mut ctx, 0).unwrap();
    again.release(&mut ctx);
}

#[test]
fn outstanding_borrow_blocks_pop() {
    let mut ctx = single_account_context(100, 2, 2);
    assert_eq!(ctx.push(), Ok(()));
    let frame = ctx.get_current_instruction_context().unwrap().clone();
    let acct = frame.try_borrow_instruction_account(&mut ctx, 0).unwrap();
    assert_eq!(ctx.pop(), Err(InstructionError::AccountBorrowOutstanding));
    acct.release(&mut ctx);
}

#[test]
fn duplicate_accounts_are_counted_once_and_may_balance_each_other() {
    let mut ctx = TransactionContext::new(
        vec![
            (
                Pubkey::new_from_array([1u8; 32]),
                Account {
                    lamports: 100,
                    data: vec![],
                    owner: Pubkey::new_from_array(PROGRAM_KEY),
                    executable: false,
                    rent_epoch: 0,
                },
            ),
            (Pubkey::new_from_array(PROGRAM_KEY), Account::default()),
        ],
        RentSchedule::default(),
        2,
        2,
    );
    ctx.configure_next_instruction_context(
        vec![1],
        vec![
            InstructionAccount::new(0, 0, false, true),
            InstructionAccount::new(0, 0, false, true),
        ],
        &[],
    );
    assert_eq!(ctx.push(), Ok(()));
    let frame = ctx.get_current_instruction_context().unwrap().clone();
    // The lamport snapshot counts the duplicated account exactly once.
    assert_eq!(frame.instruction_accounts_lamport_sum, 100);
    assert_eq!(frame.is_instruction_account_duplicate(0), Ok(None));
    assert_eq!(frame.is_instruction_account_duplicate(1), Ok(Some(0)));

    let first = frame.try_borrow_instruction_account(&mut ctx, 0).unwrap();
    assert_eq!(first.checked_add_lamports(&mut ctx, 50), Ok(()));
    first.release(&mut ctx);
    let second = frame.try_borrow_instruction_account(&mut ctx, 1).unwrap();
    assert_eq!(second.checked_sub_lamports(&mut ctx, 50), Ok(()));
    second.release(&mut ctx);
    assert_eq!(ctx.pop(), Ok(()));
}

#[test]
fn get_signers_returns_each_key_once() {
    let mut ctx = TransactionContext::new(
        vec![
            (Pubkey::new_from_array([1u8; 32]), plain_account(10)),
            (Pubkey::new_from_array([5u8; 32]), plain_account(20)),
        ],
        RentSchedule::default(),
        2,
        2,
    );
    ctx.configure_next_instruction_context(
        vec![],
        vec![
            InstructionAccount::new(0, 0, true, false),
            InstructionAccount::new(1, 1, true, false),
            InstructionAccount::new(0, 0, true, false),
        ],
        &[],
    );
    assert_eq!(ctx.push(), Ok(()));
    let frame = ctx.get_current_instruction_context().unwrap().clone();
    let signers = frame.get_signers(&ctx).unwrap();
    assert_eq!(signers.len(), 2);
    assert_eq!(signers[0].to_bytes(), [1u8; 32]);
    assert_eq!(signers[1].to_bytes(), [5u8; 32]);
}

#[test]
fn top_level_index_advances_once_per_top_level_pop() {
    let sysvar_owner = Pubkey::new_from_array(solana_sdk_ids::sysvar::id().to_bytes());
    let sysvar = Account {
        lamports: 1_000_000,
        data: vec![0, 0],
        owner: sysvar_owner,
        executable: false,
        rent_epoch: 0,
    };
    let mut ctx = TransactionContext::new(
        vec![
            (Pubkey::new_from_array([1u8; 32]), plain_account(10)),
            (
                Pubkey::new_from_array(solana_instructions_sysvar::id().to_bytes()),
                sysvar,
            ),
        ],
        RentSchedule::default(),
        4,
        8,
    );
    for round in 0u8..3 {
        ctx.configure_next_instruction_context(vec![], vec![], &[]);
        assert_eq!(ctx.push(), Ok(()));
        assert_eq!(ctx.get_account_at_index(1).unwrap().data, vec![round, 0]);
        // A nested frame does not advance the top-level counter.
        ctx.configure_next_instruction_context(vec![], vec![], &[]);
        assert_eq!(ctx.push(), Ok(()));
        assert_eq!(ctx.get_account_at_index(1).unwrap().data, vec![round, 0]);
        assert_eq!(ctx.pop(), Ok(()));
        assert_eq!(ctx.pop(), Ok(()));
    }
}

#[test]
fn frame_queries_translate_indices() {
    let mut ctx = TransactionContext::new(
        vec![
            (Pubkey::new_from_array([1u8; 32]), plain_account(10)),
            (Pubkey::new_from_array([5u8; 32]), plain_account(20)),
            (Pubkey::new_from_array(PROGRAM_KEY), Account::default()),
        ],
        RentSchedule::default(),
        2,
        2,
    );
    ctx.configure_next_instruction_context(
        vec![2],
        vec![
            InstructionAccount::new(1, 0, true, false),
            InstructionAccount::new(0, 1, false, true),
        ],
        &[7, 8],
    );
    assert_eq!(ctx.push(), Ok(()));
    let frame = ctx.get_current_instruction_context().unwrap().clone();
    assert_eq!(frame.get_number_of_program_accounts(), 1);
    assert_eq!(frame.get_number_of_instruction_accounts(), 2);
    assert_eq!(frame.check_number_of_instruction_accounts(2), Ok(()));
    assert_eq!(
        frame.check_number_of_instruction_accounts(3),
        Err(InstructionError::NotEnoughAccountKeys),
    );
    assert_eq!(frame.get_instruction_data(), &[7, 8]);
    assert_eq!(frame.get_stack_height(), 1);
    assert_eq!(frame.get_index_of_program_account_in_transaction(0), Ok(2));
    assert_eq!(
        frame.get_index_of_program_account_in_transaction(1),
        Err(InstructionError::NotEnoughAccountKeys),
    );
    assert_eq!(frame.get_index_of_instruction_account_in_transaction(0), Ok(1));
    assert_eq!(frame.get_index_of_account_in_instruction(0), Ok(1));
    assert_eq!(
        frame.get_index_of_account_in_instruction(7),
        Err(InstructionError::MissingAccount),
    );
    assert_eq!(frame.is_instruction_account_signer(0), Ok(true));
    assert_eq!(frame.is_instruction_account_writable(0), Ok(false));
    assert_eq!(
        frame.get_last_program_key(&ctx).unwrap().to_bytes(),
        PROGRAM_KEY,
    );
    assert_eq!(
        frame.find_index_of_program_account(&ctx, &Pubkey::new_from_array(PROGRAM_KEY)),
        Some(0),
    );
    assert_eq!(
        frame.find_index_of_instruction_account(&ctx, &Pubkey::new_from_array([5u8; 32])),
        Some(0),
    );
    let signers = frame.get_signers(&ctx).unwrap();
    assert_eq!(signers.len(), 1);
    assert_eq!(signers[0].to_bytes(), [5u8; 32]);
    assert_eq!(frame.instruction_accounts().len(), 2);
}

#[test]
fn context_key_lookups() {
    let ctx = TransactionContext::new(
        vec![
            (Pubkey::new_from_array([1u8; 32]), plain_account(10)),
            (Pubkey::new_from_array([5u8; 32]), plain_account(20)),
            (Pubkey::new_from_array([1u8; 32]), plain_account(30)),
        ],
        RentSchedule::default(),
        2,
        2,
    );
    assert_eq!(ctx.get_number_of_accounts(), 3);
    assert_eq!(ctx.find_index_of_account(&Pubkey::new_from_array([1u8; 32])), Some(0));
    assert_eq!(ctx.find_index_of_program_account(&Pubkey::new_from_array([1u8; 32])), Some(2));
    assert_eq!(ctx.find_index_of_account(&Pubkey::new_from_array([9u8; 32])), None);
    assert_eq!(
        ctx.get_key_of_account_at_index(1).unwrap().to_bytes(),
        [5u8; 32],
    );
    assert_eq!(
        ctx.get_key_of_account_at_index(3).unwrap_err(),
        InstructionError::NotEnoughAccountKeys,
    );
    assert_eq!(ctx.get_instruction_stack_capacity(), 2);
    assert_eq!(ctx.get_instruction_trace_capacity(), 2);
}

#[test]
fn return_data_latest_write_wins() {
    let mut ctx = single_account_context(100, 2, 2);
    let program_id = Pubkey::new_from_array([6u8; 32]);
    assert_eq!(ctx.set_return_data(program_id, vec![1, 2]), Ok(()));
    assert_eq!(ctx.set_return_data(program_id, vec![3]), Ok(()));
    let rd = ctx.get_return_data();
    assert_eq!(rd.program_id.to_bytes(), [6u8; 32]);
    assert_eq!(rd.data, vec![3]);
}

#[test]
fn execution_record_reports_final_state() {
    let mut ctx = TransactionContext::new(
        vec![
            (
                Pubkey::new_from_array([1u8; 32]),
                Account {
                    lamports: 100,
                    data: vec![],
                    owner: Pubkey::new_from_array(PROGRAM_KEY),
                    executable: false,
                    rent_epoch: 0,
                },
            ),
            (Pubkey::new_from_array(PROGRAM_KEY), Account::default()),
        ],
        RentSchedule::default(),
        2,
        2,
    );
    ctx.configure_next_instruction_context(
        vec![1],
        vec![InstructionAccount::new(0, 0, true, true)],
        &[],
    );
    assert_eq!(ctx.push(), Ok(()));
    let frame = ctx.get_current_instruction_context().unwrap().clone();
    let acct = frame.try_borrow_instruction_account(&mut ctx, 0).unwrap();
    assert_eq!(acct.checked_add_lamports(&mut ctx, 1), Ok(()));
    assert_eq!(acct.checked_sub_lamports(&mut ctx, 1), Ok(()));
    acct.release(&mut ctx);
    assert_eq!(ctx.pop(), Ok(()));
    let record = ExecutionRecord::from_context(ctx);
    assert_eq!(record.accounts.len(), 2);
    assert_eq!(record.accounts[0].0.to_bytes(), [1u8; 32]);
    assert_eq!(record.accounts[0].1.lamports, 100);
    assert_eq!(record.touched_account_count, 1);
    assert_eq!(record.accounts_resize_delta, 0);
}

#[test]
fn instruction_account_flags_round_trip() {
    let mut ia = InstructionAccount::new(4, 2, false, true);
    assert_eq!(ia.index_in_transaction, 4);
    assert_eq!(ia.index_in_callee, 2);
    assert!(!ia.is_signer());
    assert!(ia.is_writable());
    ia.set_is_signer(true);
    ia.set_is_writable(false);
    assert!(ia.is_signer());
    assert!(!ia.is_writable());
}

#[test]
fn pool_shared_borrow_follows_exclusive_borrows() {
    let mut ctx = single_account_context(100, 2, 2);
    assert_eq!(ctx.push(), Ok(()));
    let copy = ctx.accounts().try_borrow(0).unwrap();
    assert_eq!(copy.lamports, 100);
    assert_eq!(
        ctx.accounts().try_borrow(9).unwrap_err(),
        InstructionError::MissingAccount,
    );
    let frame = ctx.get_current_instruction_context().unwrap().clone();
    let handle = frame.try_borrow_instruction_account(&mut ctx, 0).unwrap();
    assert_eq!(
        ctx.accounts().try_borrow(0).unwrap_err(),
        InstructionError::AccountBorrowFailed,
    );
    handle.release(&mut ctx);
}

#[test]
fn program_account_borrows_carry_no_permissions() {
    let mut ctx = TransactionContext::new(
        vec![
            (Pubkey::new_from_array([1u8; 32]), plain_account(10)),
            (Pubkey::new_from_array(PROGRAM_KEY), Account::default()),
        ],
        RentSchedule::default(),
        2,
        2,
    );
    ctx.configure_next_instruction_context(
        vec![1],
        vec![InstructionAccount::new(0, 0, true, true)],
        &[],
    );
    assert_eq!(ctx.push(), Ok(()));
    let frame = ctx.get_current_instruction_context().unwrap().clone();
    let program = frame.try_borrow_last_program_account(&mut ctx).unwrap();
    assert_eq!(program.get_index_in_transaction(), 1);
    assert!(!program.is_writable());
    assert!(!program.is_signer());
    assert_eq!(program.get_key(&ctx).to_bytes(), PROGRAM_KEY);
    assert_eq!(
        program.set_lamports(&mut ctx, 1),
        Err(InstructionError::ReadonlyLamportChange),
    );
    program.release(&mut ctx);
    let same = frame.try_borrow_program_account(&mut ctx, 0).unwrap();
    assert_eq!(same.get_index_in_transaction(), 1);
    same.release(&mut ctx);
    assert_eq!(
        frame.try_borrow_program_account(&mut ctx, 3).unwrap_err(),
        InstructionError::NotEnoughAccountKeys,
    );
}

#[test]
fn nesting_level_queries_follow_the_stack() {
    let mut ctx = single_account_context(100, 4, 8);
    assert_eq!(ctx.push(), Ok(()));
    ctx.configure_next_instruction_context(vec![], vec![], &[2]);
    assert_eq!(ctx.push(), Ok(()));
    let outer = ctx.get_instruction_context_at_nesting_level(0).unwrap();
    assert_eq!(outer.get_stack_height(), 1);
    let inner = ctx.get_instruction_context_at_nesting_level(1).unwrap();
    assert_eq!(inner.get_stack_height(), 2);
    assert_eq!(inner.get_instruction_data(), &[2]);
    assert_eq!(
        ctx.get_instruction_context_at_nesting_level(2).unwrap_err(),
        InstructionError::CallDepth,
    );
    let next = ctx.get_next_instruction_context().unwrap();
    assert_eq!(next.get_number_of_instruction_accounts(), 0);
    assert_eq!(
        ctx.get_instruction_context_at_index_in_trace(1).unwrap().get_stack_height(),
        2,
    );
}

#[test]
fn set_data_replaces_contents_and_length() {
    let mut ctx = TransactionContext::new(
        vec![
            (
                Pubkey::new_from_array([1u8; 32]),
                Account {
                    lamports: 5,
                    data: vec![1, 2, 3],
                    owner: Pubkey::new_from_array(PROGRAM_KEY),
                    executable: false,
                    rent_epoch: 0,
                },
            ),
            (Pubkey::new_from_array(PROGRAM_KEY), Account::default()),
        ],
        RentSchedule::default(),
        2,
        2,
    );
    ctx.configure_next_instruction_context(
        vec![1],
        vec![InstructionAccount::new(0, 0, false, true)],
        &[],
    );
    assert_eq!(ctx.push(), Ok(()));
    let frame = ctx.get_current_instruction_context().unwrap().clone();
    let acct = frame.try_borrow_instruction_account(&mut ctx, 0).unwrap();
    assert_eq!(acct.set_data(&mut ctx, vec![9]), Ok(()));
    assert_eq!(acct.get_data(&ctx), &vec![9]);
    assert_eq!(ctx.accounts_resize_delta().unwrap(), -2);
    acct.release(&mut ctx);
}

#[test]
fn deconstruct_without_keys_requires_empty_stack() {
    let mut ctx = single_account_context(100, 2, 2);
    assert_eq!(ctx.push(), Ok(()));
    assert_eq!(ctx.deconstruct_without_keys().unwrap_err(), InstructionError::CallDepth);

    let mut ctx = single_account_context(100, 2, 2);
    assert_eq!(ctx.push(), Ok(()));
    assert_eq!(ctx.pop(), Ok(()));
    let accounts = ctx.deconstruct_without_keys().unwrap();
    assert_eq!(accounts.len(), 1);
    assert_eq!(accounts[0].lamports, 100);
}
