use transaction_context::{Account, InstructionError, Pubkey, RentSchedule, TransactionContext};

fn instructions_key() -> Pubkey {
    Pubkey::new_from_array(solana_instructions_sysvar::id().to_bytes())
}

fn sysvar_owner_key() -> Pubkey {
    Pubkey::new_from_array(solana_sdk_ids::sysvar::id().to_bytes())
}

fn account(lamports: u64, data: Vec<u8>, owner: Pubkey) -> Account {
    Account { lamports, data, owner, executable: false, rent_epoch: 0 }
}

fn build_transaction_context(sysvar_account: Account) -> TransactionContext {
    TransactionContext::new(
        vec![
            (Pubkey::new_from_array([41u8; 32]), Account::default()),
            (instructions_key(), sysvar_account),
        ],
        RentSchedule::default(),
        /* max_instruction_stack_depth */ 2,
        /* max_instruction_trace_length */ 2,
    )
}

#[test]
fn test_instructions_sysvar_store_index_checked() {
    let correct_space = 2;
    let rent_exempt_lamports = RentSchedule::default().minimum_balance(correct_space).unwrap();

    // First try it with the wrong owner.
    let wrong_owner = Pubkey::new_from_array([7u8; 32]);
    let acct = account(rent_exempt_lamports, vec![0; correct_space], wrong_owner);
    assert_eq!(
        build_transaction_context(acct).push(),
        Err(InstructionError::InvalidAccountOwner),
    );

    // Now with the wrong data length.
    let acct = account(rent_exempt_lamports, vec![], sysvar_owner_key());
    assert_eq!(
        build_transaction_context(acct).push(),
        Err(InstructionError::AccountDataTooSmall),
    );

    // Finally provide the correct account setup.
    let acct = account(rent_exempt_lamports, vec![0; correct_space], sysvar_owner_key());
    assert_eq!(build_transaction_context(acct).push(), Ok(()));
}

#[test]
fn sysvar_write_overwrites_previous_bytes() {
    // The sysvar writer must actually store the little-endian index: start
    // from nonzero bytes and watch them become the index zero.
    let acct = account(1_000_000, vec![7, 9], sysvar_owner_key());
    let mut ctx = build_transaction_context(acct);
    assert_eq!(ctx.push(), Ok(()));
    assert_eq!(ctx.get_account_at_index(1).unwrap().data, vec![0, 0]);
}

#[test]
fn sysvar_write_records_top_level_index() {
    // After one completed top-level instruction the next push stores index
    // one, little-endian, in the trailing two bytes.
    let acct = account(1_000_000, vec![0, 0, 0], sysvar_owner_key());
    let mut ctx = TransactionContext::new(
        vec![
            (Pubkey::new_from_array([41u8; 32]), Account::default()),
            (instructions_key(), acct),
        ],
        RentSchedule::default(),
        4,
        4,
    );
    assert_eq!(ctx.push(), Ok(()));
    assert_eq!(ctx.pop(), Ok(()));
    assert_eq!(ctx.push(), Ok(()));
    assert_eq!(ctx.get_account_at_index(1).unwrap().data, vec![0, 1, 0]);
}

#[test]
fn well_known_addresses_match_runtime_ids() {
    // The byte values the library's contracts pin for the two well-known
    // addresses must be exactly what the runtime crates define.
    let instructions_id_bytes: [u8; 32] = [
        6, 167, 213, 23, 24, 123, 209, 102, 53, 218, 212, 4, 85, 253, 194, 192, 193, 36, 198,
        143, 33, 86, 117, 165, 219, 186, 203, 95, 8, 0, 0, 0,
    ];
    let sysvar_owner_bytes: [u8; 32] = [
        6, 167, 213, 23, 24, 117, 247, 41, 199, 61, 147, 64, 143, 33, 97, 32, 6, 126, 216, 140,
        118, 224, 140, 40, 127, 193, 148, 96, 0, 0, 0, 0,
    ];
    assert_eq!(solana_instructions_sysvar::id().to_bytes(), instructions_id_bytes);
    assert_eq!(solana_sdk_ids::sysvar::id().to_bytes(), sysvar_owner_bytes);
}

#[test]
fn push_without_sysvar_account_skips_maintenance() {
    let mut ctx = TransactionContext::new(
        vec![(Pubkey::new_from_array([41u8; 32]), Account::default())],
        RentSchedule::default(),
        2,
        2,
    );
    assert_eq!(ctx.push(), Ok(()));
    assert_eq!(ctx.get_instruction_context_stack_height(), 1);
}
