//! The context's boundary with the runtime environment: the general
//! (floating-point) rent formula and the instructions-sysvar writer, both
//! supplied by outside crates and relied upon through the contracts stated
//! here.
use vstd::prelude::*;
use crate::errors::InstructionError;
use crate::keys::Pubkey;

verus! {

/// The minimum balance the runtime's general rent formula yields for a
/// schedule whose threshold is neither of the two well-known encodings; a
/// function of the arguments alone.
pub uninterp spec fn general_rent_minimum(
    lamports_per_byte: u64,
    exemption_threshold: Seq<u8>,
    data_len: int,
) -> u64;

/// Relies on solana_rent::Rent::minimum_balance_unchecked for the general
/// exemption-threshold formula, which scales the integer storage cost by
/// the threshold in floating point. The threshold must be neither of the
/// two well-known encodings, so the call takes the floating-point branch,
/// whose only integer arithmetic is the storage-cost product the bound
/// keeps within sixty-four bits; the final float-to-integer conversion
/// saturates.
#[verifier::external_body]
#[allow(deprecated)]
pub(crate) fn general_rent_minimum_balance(
    lamports_per_byte: u64,
    exemption_threshold: [u8; 8],
    data_len: usize,
) -> (r: u64)
    requires
        exemption_threshold@ != crate::rent::spec_simple_threshold(),
        exemption_threshold@ != crate::rent::spec_doubled_threshold(),
        128 + data_len <= u64::MAX,
        (128 + data_len) * lamports_per_byte <= u64::MAX,
    ensures
        r == general_rent_minimum(lamports_per_byte, exemption_threshold@, data_len as int),
{
    let rent = solana_rent::Rent { lamports_per_byte, exemption_threshold, burn_percent: 0 };
    rent.minimum_balance_unchecked(data_len)
}

/// The 32 bytes of the well-known instructions-sysvar address, whose
/// base58 form is Sysvar1nstructions1111111111111111111111111.
pub open spec fn spec_instructions_sysvar_id() -> Seq<u8> {
    seq![
        6u8, 167u8, 213u8, 23u8, 24u8, 123u8, 209u8, 102u8, 53u8, 218u8, 212u8, 4u8, 85u8,
        253u8, 194u8, 192u8, 193u8, 36u8, 198u8, 143u8, 33u8, 86u8, 117u8, 165u8, 219u8, 186u8,
        203u8, 95u8, 8u8, 0u8, 0u8, 0u8,
    ]
}

/// The 32 bytes of the well-known address that owns every sysvar account,
/// whose base58 form is Sysvar1111111111111111111111111111111111111.
pub open spec fn spec_sysvar_owner_id() -> Seq<u8> {
    seq![
        6u8, 167u8, 213u8, 23u8, 24u8, 117u8, 247u8, 41u8, 199u8, 61u8, 147u8, 64u8, 143u8,
        33u8, 97u8, 32u8, 6u8, 126u8, 216u8, 140u8, 118u8, 224u8, 140u8, 40u8, 127u8, 193u8,
        148u8, 96u8, 0u8, 0u8, 0u8, 0u8,
    ]
}

/// Relies on solana_sdk_ids::sysvar::instructions::id (re-exported by
/// solana_instructions_sysvar) for the well-known address of the
/// instructions sysvar account.
#[verifier::external_body]
pub(crate) fn instructions_sysvar_id() -> (r: Pubkey)
    ensures
        r@ == spec_instructions_sysvar_id(),
{
    Pubkey { bytes: solana_instructions_sysvar::id().to_bytes() }
}

/// Relies on solana_sdk_ids::sysvar::id for the well-known address that
/// owns every sysvar account.
#[verifier::external_body]
pub(crate) fn sysvar_owner_id() -> (r: Pubkey)
    ensures
        r@ == spec_sysvar_owner_id(),
{
    Pubkey { bytes: solana_sdk_ids::sysvar::id().to_bytes() }
}

/// Relies on solana_instructions_sysvar::store_current_index_checked: writes
/// the index as two little-endian bytes into the last two bytes of `data`,
/// and fails without writing when `data` is shorter than two bytes (the only
/// error it returns).
#[verifier::external_body]
pub(crate) fn store_current_index_checked(data: &mut Vec<u8>, instruction_index: u16) -> (r:
    Result<(), InstructionError>)
    ensures
        old(data)@.len() < 2 ==> {
            &&& r == Err::<(), InstructionError>(InstructionError::AccountDataTooSmall)
            &&& final(data)@ == old(data)@
        },
        old(data)@.len() >= 2 ==> {
            &&& r == Ok::<(), InstructionError>(())
            &&& final(data)@ == old(data)@
                .update(old(data)@.len() - 2, (instruction_index % 256) as u8)
                .update(old(data)@.len() - 1, (instruction_index / 256) as u8)
        },
{
    solana_instructions_sysvar::store_current_index_checked(
        data.as_mut_slice(),
        instruction_index,
    ).map_err(|_| InstructionError::AccountDataTooSmall)
}

} // verus!
