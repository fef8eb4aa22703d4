//! One instruction frame: the accounts it sees, with what permissions, and
//! the program(s) it invokes.
use vstd::prelude::*;
use crate::errors::InstructionError;

verus! {

/// Index of an account inside the transaction or inside an instruction.
pub type IndexOfAccount = u16;

/// Account metadata that varies between instructions.
#[derive(Clone, Copy, Debug, Eq, PartialEq, Structural)]
pub struct InstructionAccount {
    /// Points to the account and its key in the transaction context.
    pub index_in_transaction: IndexOfAccount,
    /// Points to the first occurrence of the same account in this
    /// instruction's account list (excluding program accounts).
    pub index_in_callee: IndexOfAccount,
    /// Whether this account is supposed to sign.
    pub is_signer: bool,
    /// Whether this account is allowed to become writable.
    pub is_writable: bool,
}

impl InstructionAccount {
    /// Builds the metadata for one instruction account.
    pub fn new(
        index_in_transaction: IndexOfAccount,
        index_in_callee: IndexOfAccount,
        is_signer: bool,
        is_writable: bool,
    ) -> (r: InstructionAccount)
        ensures
            r == (InstructionAccount { index_in_transaction, index_in_callee, is_signer, is_writable }),
    {
        InstructionAccount { index_in_transaction, index_in_callee, is_signer, is_writable }
    }

    /// Whether this account is supposed to sign.
    pub fn is_signer(&self) -> (r: bool)
        ensures
            r == self.is_signer,
    {
        self.is_signer
    }

    /// Whether this account is allowed to become writable.
    pub fn is_writable(&self) -> (r: bool)
        ensures
            r == self.is_writable,
    {
        self.is_writable
    }

    /// Overwrites the signer flag.
    pub fn set_is_signer(&mut self, value: bool)
        ensures
            *final(self) == (InstructionAccount { is_signer: value, ..*old(self) }),
    {
        self.is_signer = value;
    }

    /// Overwrites the writable flag.
    pub fn set_is_writable(&mut self, value: bool)
        ensures
            *final(self) == (InstructionAccount { is_writable: value, ..*old(self) }),
    {
        self.is_writable = value;
    }
}

/// The duplicate-marker discipline that a correctly configured instruction
/// account list obeys: the first occurrence of each transaction index names
/// its own position in `index_in_callee`, and every later occurrence names
/// the position of that first occurrence.
pub open spec fn duplicates_well_formed(accounts: Seq<InstructionAccount>) -> bool {
    forall|i: int| 0 <= i < accounts.len() ==> {
        let k = (#[trigger] accounts[i]).index_in_callee as int;
        if forall|j: int| 0 <= j < i
            ==> (#[trigger] accounts[j]).index_in_transaction != accounts[i].index_in_transaction {
            k == i
        } else {
            &&& 0 <= k < i
            &&& accounts[k].index_in_transaction == accounts[i].index_in_transaction
            &&& accounts[k].index_in_callee as int == k
        }
    }
}

/// Mathematical image of an [`InstructionContext`].
#[verifier::ext_equal]
pub ghost struct FrameView {
    pub nesting_level: usize,
    pub lamport_sum: u128,
    pub program_accounts: Seq<u16>,
    pub instruction_accounts: Seq<InstructionAccount>,
    pub instruction_data: Seq<u8>,
}

impl FrameView {
    /// The image of a freshly pre-reserved, still empty frame.
    pub open spec fn empty() -> FrameView {
        FrameView {
            nesting_level: 0,
            lamport_sum: 0,
            program_accounts: Seq::empty(),
            instruction_accounts: Seq::empty(),
            instruction_data: Seq::empty(),
        }
    }

    /// Index lists short enough that sixteen-bit positions cover them.
    pub open spec fn bounded(self) -> bool {
        &&& self.program_accounts.len() <= 0xFFFF
        &&& self.instruction_accounts.len() <= 0xFFFF
    }
}

/// One invocation: program accounts, instruction accounts with permissions,
/// payload bytes, nesting level, and the lamport-sum snapshot taken at push.
#[derive(Debug)]
pub struct InstructionContext {
    pub nesting_level: usize,
    pub instruction_accounts_lamport_sum: u128,
    pub program_accounts: Vec<IndexOfAccount>,
    pub instruction_accounts: Vec<InstructionAccount>,
    pub instruction_data: Vec<u8>,
}

impl View for InstructionContext {
    type V = FrameView;

    open spec fn view(&self) -> FrameView {
        FrameView {
            nesting_level: self.nesting_level,
            lamport_sum: self.instruction_accounts_lamport_sum,
            program_accounts: self.program_accounts@,
            instruction_accounts: self.instruction_accounts@,
            instruction_data: self.instruction_data@,
        }
    }
}

/// Copies a byte slice into a fresh vector.
pub fn slice_to_vec(s: &[u8]) -> (r: Vec<u8>)
    ensures
        r@ == s@,
{
    let mut r: Vec<u8> = Vec::new();
    let mut i: usize = 0;
    while i < s.len()
        invariant
            i <= s@.len(),
            r@ == s@.take(i as int),
        decreases s@.len() - i,
    {
        r.push(s[i]);
        proof {
            assert(r@ =~= s@.take(i + 1));
        }
        i += 1;
    }
    proof {
        assert(s@.take(i as int) =~= s@);
    }
    r
}

/// Copies a vector of transaction-wide indices.
fn clone_indices(v: &Vec<u16>) -> (r: Vec<u16>)
    ensures
        r@ == v@,
{
    let r = v.clone();
    proof {
        assert(r@ =~= v@);
    }
    r
}

/// Copies a vector of instruction-account metadata.
fn clone_instruction_accounts(v: &Vec<InstructionAccount>) -> (r: Vec<InstructionAccount>)
    ensures
        r@ == v@,
{
    let r = v.clone();
    proof {
        assert(r@ =~= v@);
    }
    r
}

impl Clone for InstructionContext {
    /// Copies the frame.
    fn clone(&self) -> (r: Self)
        ensures
            r@ == self@,
    {
        InstructionContext {
            nesting_level: self.nesting_level,
            instruction_accounts_lamport_sum: self.instruction_accounts_lamport_sum,
            program_accounts: clone_indices(&self.program_accounts),
            instruction_accounts: clone_instruction_accounts(&self.instruction_accounts),
            instruction_data: crate::account::clone_bytes(&self.instruction_data),
        }
    }
}

impl Default for InstructionContext {
    /// An empty frame, as pre-reserved for the next invocation.
    fn default() -> (r: InstructionContext)
        ensures
            r@ == FrameView::empty(),
    {
        let r = InstructionContext {
            nesting_level: 0,
            instruction_accounts_lamport_sum: 0,
            program_accounts: Vec::new(),
            instruction_accounts: Vec::new(),
            instruction_data: Vec::new(),
        };
        proof {
            assert(r@ =~= FrameView::empty());
        }
        r
    }
}

impl InstructionContext {
    /// Fills in the frame before it is pushed. The duplicate markers in
    /// `instruction_accounts` are the caller's responsibility; they are not
    /// validated here.
    pub fn configure(
        &mut self,
        program_accounts: Vec<IndexOfAccount>,
        instruction_accounts: Vec<InstructionAccount>,
        instruction_data: &[u8],
    )
        requires
            program_accounts@.len() <= 0xFFFF,
            instruction_accounts@.len() <= 0xFFFF,
        ensures
            final(self)@ == (FrameView {
                program_accounts: program_accounts@,
                instruction_accounts: instruction_accounts@,
                instruction_data: instruction_data@,
                ..old(self)@
            }),
    {
        self.program_accounts = program_accounts;
        self.instruction_accounts = instruction_accounts;
        self.instruction_data = slice_to_vec(instruction_data);
        proof {
            assert(self@ =~= (FrameView {
                program_accounts: self.program_accounts@,
                instruction_accounts: self.instruction_accounts@,
                instruction_data: self.instruction_data@,
                ..old(self)@
            }));
        }
    }

    /// How many frames were on the stack after this one was pushed: the
    /// number of nested parent instructions plus one.
    pub fn get_stack_height(&self) -> (r: usize)
        ensures
            r == if self@.nesting_level < usize::MAX {
                self@.nesting_level + 1
            } else {
                usize::MAX as int
            },
    {
        if self.nesting_level < usize::MAX {
            self.nesting_level + 1
        } else {
            usize::MAX
        }
    }

    /// Number of program accounts.
    pub fn get_number_of_program_accounts(&self) -> (r: IndexOfAccount)
        requires
            self@.bounded(),
        ensures
            r == self@.program_accounts.len(),
    {
        self.program_accounts.len() as IndexOfAccount
    }

    /// Number of instruction accounts (program accounts not counted).
    pub fn get_number_of_instruction_accounts(&self) -> (r: IndexOfAccount)
        requires
            self@.bounded(),
        ensures
            r == self@.instruction_accounts.len(),
    {
        self.instruction_accounts.len() as IndexOfAccount
    }

    /// Errs unless at least `expected_at_least` instruction accounts were
    /// supplied to this instruction.
    pub fn check_number_of_instruction_accounts(
        &self,
        expected_at_least: IndexOfAccount,
    ) -> (r: Result<(), InstructionError>)
        requires
            self@.bounded(),
        ensures
            r == if self@.instruction_accounts.len() < expected_at_least {
                Err::<(), InstructionError>(InstructionError::NotEnoughAccountKeys)
            } else {
                Ok::<(), InstructionError>(())
            },
    {
        if self.get_number_of_instruction_accounts() < expected_at_least {
            Err(InstructionError::NotEnoughAccountKeys)
        } else {
            Ok(())
        }
    }

    /// The payload handed to the program.
    pub fn get_instruction_data(&self) -> (r: &[u8])
        ensures
            r@ == self@.instruction_data,
    {
        self.instruction_data.as_slice()
    }

    /// Translates an instruction-wide program account index into a
    /// transaction-wide index.
    pub fn get_index_of_program_account_in_transaction(
        &self,
        program_account_index: IndexOfAccount,
    ) -> (r: Result<IndexOfAccount, InstructionError>)
        ensures
            r == if program_account_index < self@.program_accounts.len() {
                Ok::<u16, InstructionError>(self@.program_accounts[program_account_index as int])
            } else {
                Err::<u16, InstructionError>(InstructionError::NotEnoughAccountKeys)
            },
    {
        if (program_account_index as usize) < self.program_accounts.len() {
            Ok(self.program_accounts[program_account_index as usize])
        } else {
            Err(InstructionError::NotEnoughAccountKeys)
        }
    }

    /// Translates an instruction-wide instruction account index into a
    /// transaction-wide index.
    pub fn get_index_of_instruction_account_in_transaction(
        &self,
        instruction_account_index: IndexOfAccount,
    ) -> (r: Result<IndexOfAccount, InstructionError>)
        ensures
            r == if instruction_account_index < self@.instruction_accounts.len() {
                Ok::<u16, InstructionError>(
                    self@.instruction_accounts[instruction_account_index as int].index_in_transaction,
                )
            } else {
                Err::<u16, InstructionError>(InstructionError::NotEnoughAccountKeys)
            },
    {
        if (instruction_account_index as usize) < self.instruction_accounts.len() {
            Ok(self.instruction_accounts[instruction_account_index as usize].index_in_transaction)
        } else {
            Err(InstructionError::NotEnoughAccountKeys)
        }
    }

    /// First position within the instruction accounts that refers to the
    /// given transaction-wide index.
    pub open spec fn spec_position_of_transaction_index(
        accounts: Seq<InstructionAccount>,
        index_in_transaction: u16,
    ) -> Option<int>
        decreases accounts.len(),
    {
        if accounts.len() == 0 {
            None
        } else if accounts[0].index_in_transaction == index_in_transaction {
            Some(0)
        } else {
            match Self::spec_position_of_transaction_index(
                accounts.drop_first(),
                index_in_transaction,
            ) {
                None => None,
                Some(p) => Some(p + 1),
            }
        }
    }

    /// Reverse lookup: the position of a transaction-wide index within this
    /// instruction's accounts.
    pub fn get_index_of_account_in_instruction(
        &self,
        index_in_transaction: IndexOfAccount,
    ) -> (r: Result<IndexOfAccount, InstructionError>)
        requires
            self@.bounded(),
        ensures
            r == match Self::spec_position_of_transaction_index(
                self@.instruction_accounts,
                index_in_transaction,
            ) {
                Some(p) => Ok::<u16, InstructionError>(p as u16),
                None => Err::<u16, InstructionError>(InstructionError::MissingAccount),
            },
    {
        let ghost accs = self@.instruction_accounts;
        proof {
            assert(accs.skip(0) =~= accs);
        }
        let mut i: usize = 0;
        while i < self.instruction_accounts.len()
            invariant
                i <= accs.len(),
                accs.len() <= 0xFFFF,
                accs == self@.instruction_accounts,
                Self::spec_position_of_transaction_index(accs, index_in_transaction)
                    == match Self::spec_position_of_transaction_index(
                        accs.skip(i as int),
                        index_in_transaction,
                    ) {
                        None => None::<int>,
                        Some(p) => Some(p + i),
                    },
            decreases accs.len() - i,
        {
            proof {
                assert(accs.skip(i as int)[0] == accs[i as int]);
                assert(accs.skip(i as int).drop_first() =~= accs.skip(i + 1));
            }
            if self.instruction_accounts[i].index_in_transaction == index_in_transaction {
                return Ok(i as u16);
            }
            i += 1;
        }
        proof {
            assert(accs.skip(i as int).len() == 0);
        }
        Err(InstructionError::MissingAccount)
    }

    /// `None` if the account at this position is the first occurrence of its
    /// transaction index, `Some(first_position)` if it is a duplicate. The
    /// answer trusts the configured `index_in_callee` markers.
    pub fn is_instruction_account_duplicate(
        &self,
        instruction_account_index: IndexOfAccount,
    ) -> (r: Result<Option<IndexOfAccount>, InstructionError>)
        ensures
            r == if instruction_account_index < self@.instruction_accounts.len() {
                let k = self@.instruction_accounts[instruction_account_index as int].index_in_callee;
                if k == instruction_account_index {
                    Ok::<Option<u16>, InstructionError>(None)
                } else {
                    Ok::<Option<u16>, InstructionError>(Some(k))
                }
            } else {
                Err::<Option<u16>, InstructionError>(InstructionError::NotEnoughAccountKeys)
            },
    {
        if (instruction_account_index as usize) < self.instruction_accounts.len() {
            let index_in_callee =
                self.instruction_accounts[instruction_account_index as usize].index_in_callee;
            if index_in_callee == instruction_account_index {
                Ok(None)
            } else {
                Ok(Some(index_in_callee))
            }
        } else {
            Err(InstructionError::NotEnoughAccountKeys)
        }
    }

    /// Whether the instruction account at the given position is a signer.
    pub fn is_instruction_account_signer(
        &self,
        instruction_account_index: IndexOfAccount,
    ) -> (r: Result<bool, InstructionError>)
        ensures
            r == if instruction_account_index < self@.instruction_accounts.len() {
                Ok::<bool, InstructionError>(
                    self@.instruction_accounts[instruction_account_index as int].is_signer,
                )
            } else {
                Err::<bool, InstructionError>(InstructionError::MissingAccount)
            },
    {
        if (instruction_account_index as usize) < self.instruction_accounts.len() {
            Ok(self.instruction_accounts[instruction_account_index as usize].is_signer())
        } else {
            Err(InstructionError::MissingAccount)
        }
    }

    /// Whether the instruction account at the given position is writable.
    pub fn is_instruction_account_writable(
        &self,
        instruction_account_index: IndexOfAccount,
    ) -> (r: Result<bool, InstructionError>)
        ensures
            r == if instruction_account_index < self@.instruction_accounts.len() {
                Ok::<bool, InstructionError>(
                    self@.instruction_accounts[instruction_account_index as int].is_writable,
                )
            } else {
                Err::<bool, InstructionError>(InstructionError::MissingAccount)
            },
    {
        if (instruction_account_index as usize) < self.instruction_accounts.len() {
            Ok(self.instruction_accounts[instruction_account_index as usize].is_writable())
        } else {
            Err(InstructionError::MissingAccount)
        }
    }

    /// The instruction accounts of this frame.
    pub fn instruction_accounts(&self) -> (r: &Vec<InstructionAccount>)
        ensures
            r@ == self@.instruction_accounts,
    {
        &self.instruction_accounts
    }
}

} // verus!
