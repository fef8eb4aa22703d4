use transaction_context::{
    Account, AccountRegion, BorrowedAccount, InstructionAccount, InstructionError, Pubkey,
    RentSchedule, TransactionContext, MAX_PERMITTED_DATA_LENGTH,
};

const PROGRAM_KEY: [u8; 32] = [3u8; 32];

fn owned_account(lamports: u64, data: Vec<u8>) -> Account {
    Account {
        lamports,
        data,
        owner: Pubkey::new_from_array(PROGRAM_KEY),
        executable: false,
        rent_epoch: 0,
    }
}

/// One data account owned by the current program, plus the program account,
/// with the frame configured and pushed.
fn owned_setup(lamports: u64, data: Vec<u8>) -> TransactionContext {
    let mut ctx = TransactionContext::new(
        vec![
            (Pubkey::new_from_array([1u8; 32]), owned_account(lamports, data)),
            (Pubkey::new_from_array(PROGRAM_KEY), Account::default()),
        ],
        RentSchedule::default(),
        4,
        4,
    );
    ctx.configure_next_instruction_context(
        vec![1],
        vec![InstructionAccount::new(0, 0, true, true)],
        &[],
    );
    assert_eq!(ctx.push(), Ok(()));
    ctx
}

fn borrow_first(ctx: &mut TransactionContext) -> BorrowedAccount {
    let frame = ctx.get_current_instruction_context().unwrap().clone();
    frame.try_borrow_instruction_account(ctx, 0).unwrap()
}

#[test]
fn set_data_from_slice_then_get_data_round_trips() {
    let mut ctx = owned_setup(10, vec![]);
    let acct = borrow_first(&mut ctx);
    assert_eq!(acct.set_data_from_slice(&mut ctx, &[1, 2, 3]), Ok(()));
    assert_eq!(acct.get_data(&ctx), &vec![1, 2, 3]);
    acct.release(&mut ctx);
}

#[test]
fn second_identical_set_data_length_is_a_no_op() {
    let mut ctx = owned_setup(10, vec![]);
    let acct = borrow_first(&mut ctx);
    assert_eq!(acct.set_data_length(&mut ctx, 5), Ok(()));
    let delta_after_first = ctx.accounts_resize_delta().unwrap();
    assert_eq!(delta_after_first, 5);
    assert_eq!(acct.set_data_length(&mut ctx, 5), Ok(()));
    assert_eq!(ctx.accounts_resize_delta().unwrap(), delta_after_first);
    assert_eq!(acct.get_data(&ctx).len(), 5);
    acct.release(&mut ctx);
}

#[test]
fn unchanged_overwrites_do_not_touch() {
    let mut ctx = owned_setup(1_000_000_000, vec![]);
    let acct = borrow_first(&mut ctx);
    assert_eq!(acct.set_lamports(&mut ctx, 1_000_000_000), Ok(()));
    assert_eq!(acct.set_owner(&mut ctx, &Pubkey::new_from_array(PROGRAM_KEY)), Ok(()));
    assert_eq!(acct.set_executable(&mut ctx, false), Ok(()));
    acct.release(&mut ctx);
    assert_eq!(ctx.pop(), Ok(()));
    let record = transaction_context::ExecutionRecord::from_context(ctx);
    assert_eq!(record.touched_account_count, 0);
    assert_eq!(record.accounts_resize_delta, 0);
}

#[test]
fn set_data_length_beyond_maximum_is_invalid_realloc() {
    let max = MAX_PERMITTED_DATA_LENGTH as usize;
    let mut ctx = owned_setup(10, vec![]);
    let acct = borrow_first(&mut ctx);
    assert_eq!(acct.set_data_length(&mut ctx, max + 1), Err(InstructionError::InvalidRealloc));
    assert_eq!(acct.get_data(&ctx).len(), 0);
    acct.release(&mut ctx);
}

#[test]
fn data_growth_budget_is_enforced() {
    let max = MAX_PERMITTED_DATA_LENGTH as usize;
    let mut ctx = TransactionContext::new(
        vec![
            (Pubkey::new_from_array([1u8; 32]), owned_account(10, vec![])),
            (Pubkey::new_from_array([2u8; 32]), owned_account(10, vec![])),
            (Pubkey::new_from_array([4u8; 32]), owned_account(10, vec![])),
            (Pubkey::new_from_array(PROGRAM_KEY), Account::default()),
        ],
        RentSchedule::default(),
        4,
        4,
    );
    ctx.configure_next_instruction_context(
        vec![3],
        vec![
            InstructionAccount::new(0, 0, false, true),
            InstructionAccount::new(1, 1, false, true),
            InstructionAccount::new(2, 2, false, true),
        ],
        &[],
    );
    assert_eq!(ctx.push(), Ok(()));
    let frame = ctx.get_current_instruction_context().unwrap().clone();

    // First account: grow to the per-account maximum, then one past it.
    let a = frame.try_borrow_instruction_account(&mut ctx, 0).unwrap();
    assert_eq!(a.set_data_length(&mut ctx, max), Ok(()));
    assert_eq!(a.set_data_length(&mut ctx, max + 1), Err(InstructionError::InvalidRealloc));
    assert_eq!(a.get_data(&ctx).len(), max);
    a.release(&mut ctx);

    // Second account: the budget still covers exactly one more maximum.
    let b = frame.try_borrow_instruction_account(&mut ctx, 1).unwrap();
    assert_eq!(b.set_data_length(&mut ctx, max), Ok(()));
    b.release(&mut ctx);

    // Third account: the budget is spent, even one byte is refused while
    // the per-account limit is nowhere near.
    let c = frame.try_borrow_instruction_account(&mut ctx, 2).unwrap();
    assert_eq!(
        c.set_data_length(&mut ctx, 1),
        Err(InstructionError::MaxAccountsDataAllocationsExceeded),
    );
    c.release(&mut ctx);
}

#[test]
fn resize_delta_matches_length_changes() {
    let mut ctx = owned_setup(10, vec![9, 9, 9, 9]);
    let acct = borrow_first(&mut ctx);
    assert_eq!(acct.set_data_length(&mut ctx, 10), Ok(()));
    assert_eq!(ctx.accounts_resize_delta().unwrap(), 6);
    assert_eq!(acct.set_data_length(&mut ctx, 1), Ok(()));
    assert_eq!(ctx.accounts_resize_delta().unwrap(), -3);
    assert_eq!(acct.set_data_from_slice(&mut ctx, &[1, 2]), Ok(()));
    assert_eq!(ctx.accounts_resize_delta().unwrap(), -2);
    acct.release(&mut ctx);
}

#[test]
fn extend_from_slice_appends() {
    let mut ctx = owned_setup(10, vec![1, 2]);
    let acct = borrow_first(&mut ctx);
    assert_eq!(acct.extend_from_slice(&mut ctx, &[3, 4]), Ok(()));
    assert_eq!(acct.get_data(&ctx), &vec![1, 2, 3, 4]);
    assert_eq!(acct.extend_from_slice(&mut ctx, &[]), Ok(()));
    assert_eq!(acct.get_data(&ctx), &vec![1, 2, 3, 4]);
    assert_eq!(ctx.accounts_resize_delta().unwrap(), 2);
    acct.release(&mut ctx);
}

#[test]
fn zero_extension_on_grow() {
    let mut ctx = owned_setup(10, vec![5]);
    let acct = borrow_first(&mut ctx);
    assert_eq!(acct.set_data_length(&mut ctx, 3), Ok(()));
    assert_eq!(acct.get_data(&ctx), &vec![5, 0, 0]);
    acct.release(&mut ctx);
}

#[test]
fn lamport_rules_for_foreign_accounts() {
    // The account is writable but owned by someone else: gains are fine,
    // spends are not.
    let foreign_owner = Pubkey::new_from_array([8u8; 32]);
    let mut ctx = TransactionContext::new(
        vec![
            (
                Pubkey::new_from_array([1u8; 32]),
                Account { lamports: 100, data: vec![], owner: foreign_owner, executable: false, rent_epoch: 0 },
            ),
            (Pubkey::new_from_array(PROGRAM_KEY), Account::default()),
        ],
        RentSchedule::default(),
        4,
        4,
    );
    ctx.configure_next_instruction_context(
        vec![1],
        vec![InstructionAccount::new(0, 0, false, true)],
        &[],
    );
    assert_eq!(ctx.push(), Ok(()));
    let acct = borrow_first(&mut ctx);
    assert_eq!(
        acct.set_lamports(&mut ctx, 99),
        Err(InstructionError::ExternalAccountLamportSpend),
    );
    assert_eq!(acct.checked_add_lamports(&mut ctx, 50), Ok(()));
    assert_eq!(acct.get_lamports(&ctx), 150);
    assert_eq!(
        acct.checked_add_lamports(&mut ctx, u64::MAX),
        Err(InstructionError::ArithmeticOverflow),
    );
    assert_eq!(
        acct.checked_sub_lamports(&mut ctx, 151),
        Err(InstructionError::ArithmeticOverflow),
    );
    assert_eq!(
        acct.set_data_from_slice(&mut ctx, &[]),
        Err(InstructionError::ExternalAccountDataModified),
    );
    assert_eq!(
        acct.set_data_length(&mut ctx, 4),
        Err(InstructionError::AccountDataSizeChanged),
    );
    assert_eq!(acct.set_owner(&mut ctx, &foreign_owner), Err(InstructionError::ModifiedProgramId));
    acct.release(&mut ctx);
}

#[test]
fn readonly_accounts_reject_changes() {
    let mut ctx = TransactionContext::new(
        vec![
            (Pubkey::new_from_array([1u8; 32]), owned_account(100, vec![])),
            (Pubkey::new_from_array(PROGRAM_KEY), Account::default()),
        ],
        RentSchedule::default(),
        4,
        4,
    );
    ctx.configure_next_instruction_context(
        vec![1],
        vec![InstructionAccount::new(0, 0, false, false)],
        &[],
    );
    assert_eq!(ctx.push(), Ok(()));
    let acct = borrow_first(&mut ctx);
    assert!(!acct.is_writable());
    assert_eq!(acct.set_lamports(&mut ctx, 5), Err(InstructionError::ReadonlyLamportChange));
    assert_eq!(
        acct.set_data_from_slice(&mut ctx, &[]),
        Err(InstructionError::ReadonlyDataModified),
    );
    // Appending nothing is a no-op before any permission gate is consulted.
    assert_eq!(acct.extend_from_slice(&mut ctx, &[]), Ok(()));
    assert_eq!(
        acct.extend_from_slice(&mut ctx, &[1]),
        Err(InstructionError::ReadonlyDataModified),
    );
    acct.release(&mut ctx);
}

#[test]
fn legacy_executable_checks_apply_when_enabled() {
    let mut ctx = TransactionContext::new(
        vec![
            (
                Pubkey::new_from_array([1u8; 32]),
                Account {
                    lamports: 1_000_000_000,
                    data: vec![],
                    owner: Pubkey::new_from_array(PROGRAM_KEY),
                    executable: true,
                    rent_epoch: 0,
                },
            ),
            (Pubkey::new_from_array(PROGRAM_KEY), Account::default()),
        ],
        RentSchedule::default(),
        4,
        4,
    );
    ctx.set_remove_accounts_executable_flag_checks(false);
    ctx.configure_next_instruction_context(
        vec![1],
        vec![InstructionAccount::new(0, 0, false, true)],
        &[],
    );
    assert_eq!(ctx.push(), Ok(()));
    let acct = borrow_first(&mut ctx);
    assert_eq!(acct.set_lamports(&mut ctx, 5), Err(InstructionError::ExecutableLamportChange));
    assert_eq!(
        acct.set_data_from_slice(&mut ctx, &[]),
        Err(InstructionError::ExecutableDataModified),
    );
    assert_eq!(acct.set_executable(&mut ctx, false), Err(InstructionError::ExecutableModified));
    acct.release(&mut ctx);
}

#[test]
fn set_executable_requires_rent_exemption() {
    let mut ctx = owned_setup(0, vec![1]);
    let acct = borrow_first(&mut ctx);
    assert_eq!(
        acct.set_executable(&mut ctx, true),
        Err(InstructionError::ExecutableAccountNotRentExempt),
    );
    acct.release(&mut ctx);
}

#[test]
fn set_executable_with_sufficient_balance() {
    let lamports = RentSchedule::default().minimum_balance(1).unwrap();
    let mut ctx = owned_setup(lamports, vec![1]);
    let acct = borrow_first(&mut ctx);
    assert_eq!(acct.set_executable(&mut ctx, true), Ok(()));
    assert!(acct.is_executable(&ctx));
    acct.release(&mut ctx);
}

#[test]
fn set_owner_requires_zeroed_data() {
    let new_owner = Pubkey::new_from_array([9u8; 32]);
    let mut ctx = owned_setup(10, vec![1]);
    let acct = borrow_first(&mut ctx);
    assert_eq!(acct.set_owner(&mut ctx, &new_owner), Err(InstructionError::ModifiedProgramId));
    acct.release(&mut ctx);

    let mut ctx = owned_setup(10, vec![0, 0]);
    let acct = borrow_first(&mut ctx);
    assert_eq!(acct.set_owner(&mut ctx, &new_owner), Ok(()));
    assert_eq!(acct.get_owner(&ctx).to_bytes(), [9u8; 32]);
    acct.release(&mut ctx);
}

#[test]
fn access_violation_store_grows_account() {
    let mut ctx = owned_setup(10, vec![0; 10]);
    let mut region = AccountRegion {
        vm_addr: 0x1000,
        len: 10,
        writable: false,
        access_violation_handler_payload: Some(0),
    };
    ctx.handle_access_violation(&mut region, 200, true, 0x1000, 100);
    assert_eq!(region.len, 200);
    assert!(region.writable);
    assert_eq!(ctx.get_account_at_index(0).unwrap().data.len(), 200);
    assert_eq!(ctx.accounts_resize_delta().unwrap(), 190);
}

#[test]
fn access_violation_ignores_loads_and_foreign_regions() {
    let mut ctx = owned_setup(10, vec![0; 10]);
    let mut region = AccountRegion {
        vm_addr: 0x1000,
        len: 10,
        writable: false,
        access_violation_handler_payload: Some(0),
    };
    ctx.handle_access_violation(&mut region, 200, false, 0x1000, 100);
    assert!(!region.writable);
    assert_eq!(region.len, 10);

    let mut plain = AccountRegion {
        vm_addr: 0x1000,
        len: 10,
        writable: false,
        access_violation_handler_payload: None,
    };
    ctx.handle_access_violation(&mut plain, 200, true, 0x1000, 100);
    assert!(!plain.writable);
    assert_eq!(ctx.get_account_at_index(0).unwrap().data.len(), 10);

    // An access past the reserved address space is the machine's own fault
    // to raise.
    ctx.handle_access_violation(&mut region, 50, true, 0x1000, 100);
    assert!(!region.writable);
    assert_eq!(ctx.get_account_at_index(0).unwrap().data.len(), 10);
}

#[test]
fn is_zeroed_checks_every_byte() {
    assert!(transaction_context::is_zeroed(&[]));
    assert!(transaction_context::is_zeroed(&[0, 0, 0]));
    assert!(!transaction_context::is_zeroed(&[0, 1, 0]));
}
