//! The account value held in one pool slot.
use vstd::prelude::*;
use crate::keys::Pubkey;

verus! {

/// The largest data length an account may have.
pub const MAX_PERMITTED_DATA_LENGTH: u64 = 10485760;

/// The largest total data growth permitted within one transaction.
pub const MAX_PERMITTED_ACCOUNTS_DATA_ALLOCATIONS_PER_TRANSACTION: i64 = 20971520;

/// Mathematical image of an [`Account`].
#[verifier::ext_equal]
pub ghost struct AccountView {
    pub lamports: u64,
    pub data: Seq<u8>,
    pub owner: Seq<u8>,
    pub executable: bool,
    pub rent_epoch: u64,
}

/// An addressable, owned byte blob with a lamport balance.
#[derive(Debug)]
pub struct Account {
    pub lamports: u64,
    pub data: Vec<u8>,
    pub owner: Pubkey,
    pub executable: bool,
    pub rent_epoch: u64,
}

impl View for Account {
    type V = AccountView;

    open spec fn view(&self) -> AccountView {
        AccountView {
            lamports: self.lamports,
            data: self.data@,
            owner: self.owner@,
            executable: self.executable,
            rent_epoch: self.rent_epoch,
        }
    }
}

/// Whether every byte of the buffer is zero.
pub fn is_zeroed(buf: &[u8]) -> (r: bool)
    ensures
        r == (forall|i: int| 0 <= i < buf@.len() ==> buf@[i] == 0u8),
{
    let mut i: usize = 0;
    while i < buf.len()
        invariant
            i <= buf@.len(),
            forall|j: int| 0 <= j < i ==> buf@[j] == 0u8,
        decreases buf@.len() - i,
    {
        if buf[i] != 0 {
            return false;
        }
        i += 1;
    }
    true
}

/// Copies a byte vector, element for element.
pub fn clone_bytes(v: &Vec<u8>) -> (r: Vec<u8>)
    ensures
        r@ == v@,
{
    let r = v.clone();
    proof {
        assert(r@ =~= v@);
    }
    r
}

impl Clone for Account {
    /// Copies the account value.
    fn clone(&self) -> (r: Self)
        ensures
            r@ == self@,
    {
        Account {
            lamports: self.lamports,
            data: clone_bytes(&self.data),
            owner: self.owner,
            executable: self.executable,
            rent_epoch: self.rent_epoch,
        }
    }
}

impl Default for Account {
    /// An account with no lamports, no data, and the all-zero owner.
    fn default() -> (r: Account)
        ensures
            r@.lamports == 0,
            r@.data == Seq::<u8>::empty(),
            r@.owner == Seq::<u8>::new(32, |i: int| 0u8),
            r@.executable == false,
            r@.rent_epoch == 0,
    {
        let r = Account {
            lamports: 0,
            data: Vec::new(),
            owner: Pubkey::default(),
            executable: false,
            rent_epoch: 0,
        };
        proof {
            assert(r@.data =~= Seq::<u8>::empty());
        }
        r
    }
}

} // verus!
