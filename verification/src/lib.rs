//! A verified transaction execution context for a blockchain runtime.
//!
//! The context mediates access to a fixed pool of loaded accounts across a
//! nested sequence of program invocations within one transaction: a trace and
//! stack of instruction frames, runtime borrow checking of account slots,
//! permission gates on every account mutation, a per-transaction data growth
//! budget, and lamport-sum conservation across frame boundaries.

pub mod account;
pub mod borrowed;
pub mod context;
pub mod env;
pub mod errors;
pub mod handler;
pub mod instruction;
pub mod keys;
pub mod laws;
pub mod pool;
pub mod record;
pub mod rent;

pub use account::Account;
pub use account::is_zeroed;
pub use account::MAX_PERMITTED_ACCOUNTS_DATA_ALLOCATIONS_PER_TRANSACTION;
pub use account::MAX_PERMITTED_DATA_LENGTH;
pub use borrowed::BorrowedAccount;
pub use context::TransactionContext;
pub use context::TransactionReturnData;
pub use errors::InstructionError;
pub use handler::AccountRegion;
pub use instruction::IndexOfAccount;
pub use instruction::InstructionAccount;
pub use instruction::InstructionContext;
pub use keys::Pubkey;
pub use pool::TransactionAccounts;
pub use record::ExecutionRecord;
pub use rent::RentSchedule;
