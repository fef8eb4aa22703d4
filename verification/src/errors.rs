//! Error kinds returned by every fallible operation of the transaction context.
use vstd::prelude::*;

verus! {

/// Why a context or account operation was refused.
///
/// These are plain kinds, propagated as return values; callers decide how to
/// recover. The set mirrors the runtime's instruction-error taxonomy.
#[derive(Clone, Copy, Debug, PartialEq, Eq, Structural)]
pub enum InstructionError {
    /// An "impossible" internal failure, treated as a bug.
    GenericError,
    /// An index into the transaction's accounts was out of range.
    NotEnoughAccountKeys,
    /// An account lookup found no matching slot.
    MissingAccount,
    /// The instruction stack was full on push, or empty on pop.
    CallDepth,
    /// The instruction trace was full on push.
    MaxInstructionTraceLengthExceeded,
    /// A borrow conflicted with an outstanding exclusive borrow.
    AccountBorrowFailed,
    /// A borrow was still outstanding at a consistency check point.
    AccountBorrowOutstanding,
    /// The lamport sum of a frame changed across its boundary.
    UnbalancedInstruction,
    /// Lamports of a read-only account would change.
    ReadonlyLamportChange,
    /// Lamports of an account not owned by the current program would decrease.
    ExternalAccountLamportSpend,
    /// Data of a read-only account would change.
    ReadonlyDataModified,
    /// Data of an account not owned by the current program would change.
    ExternalAccountDataModified,
    /// The owner change was refused.
    ModifiedProgramId,
    /// Lamports of an executable account would change.
    ExecutableLamportChange,
    /// Data of an executable account would change.
    ExecutableDataModified,
    /// The executable flag change was refused.
    ExecutableModified,
    /// The account is not rent exempt, so it cannot become executable.
    ExecutableAccountNotRentExempt,
    /// The requested data length exceeds the per-account maximum.
    InvalidRealloc,
    /// The requested growth exceeds the per-transaction allocation budget.
    MaxAccountsDataAllocationsExceeded,
    /// The data length would change under a program that does not own it.
    AccountDataSizeChanged,
    /// The account data is too short for the requested write.
    AccountDataTooSmall,
    /// The account data could not be deserialized.
    InvalidAccountData,
    /// A checked arithmetic operation overflowed or underflowed.
    ArithmeticOverflow,
    /// The instructions sysvar account has the wrong owner.
    InvalidAccountOwner,
}

} // verus!
