//! The grow-on-fault path: when a guest program stores past the materialized
//! length of a writable account region, the context may grow the account on
//! the spot, within the per-account maximum and the remaining transaction
//! budget. The embedder wires this decision procedure into the virtual
//! machine's memory subsystem and rebinds the region's host pointer itself.
use vstd::prelude::*;
use crate::account::{AccountView, MAX_PERMITTED_DATA_LENGTH,
    MAX_PERMITTED_ACCOUNTS_DATA_ALLOCATIONS_PER_TRANSACTION};
use crate::borrowed::BorrowedAccount;
use crate::context::{CtxView, TransactionContext};
use crate::pool::{PoolView, lemma_delta_sum_bounds, lemma_delta_sum_update};

verus! {

/// What the handler reads and writes of one virtual-machine memory region.
pub struct AccountRegion {
    /// Start of the region in the guest address space.
    pub vm_addr: u64,
    /// Currently materialized length of the region.
    pub len: u64,
    /// Whether the region is mapped writable.
    pub writable: bool,
    /// The transaction-wide account index for writable account regions;
    /// absent for any other region.
    pub access_violation_handler_payload: Option<u16>,
}

/// Length of the requested access measured from the region start,
/// saturating as the guest address arithmetic does.
pub open spec fn spec_requested_length(region_vm_addr: u64, vm_addr: u64, len: u64) -> int {
    let end = if vm_addr + len > u64::MAX {
        u64::MAX as int
    } else {
        vm_addr + len
    };
    if end < region_vm_addr {
        0
    } else {
        end - region_vm_addr
    }
}

/// Whether the handler reaches the account at all: a store, on a region
/// carrying an account index, within the reserved address space, naming an
/// existing slot that is not exclusively borrowed.
pub open spec fn spec_violation_reaches_account(
    v: CtxView,
    region: AccountRegion,
    address_space_reserved_for_account: u64,
    is_store: bool,
    vm_addr: u64,
    len: u64,
) -> bool {
    &&& is_store
    &&& region.access_violation_handler_payload is Some
    &&& spec_requested_length(region.vm_addr, vm_addr, len)
        <= address_space_reserved_for_account
    &&& (region.access_violation_handler_payload.unwrap() as int) < v.pool.accounts.len()
    &&& !v.pool.borrowed[region.access_violation_handler_payload.unwrap() as int]
}

/// The length the account grows (or shrinks) to when the requested access
/// runs past the region: the reserved address space, capped by the
/// per-account maximum and by the current length plus the remaining
/// transaction budget.
pub open spec fn spec_violation_new_len(
    v: CtxView,
    index: u16,
    address_space_reserved_for_account: u64,
) -> int {
    let old_len = v.pool.accounts[index as int].data.len() as int;
    let remaining = if v.pool.resize_delta
        >= MAX_PERMITTED_ACCOUNTS_DATA_ALLOCATIONS_PER_TRANSACTION {
        0
    } else {
        MAX_PERMITTED_ACCOUNTS_DATA_ALLOCATIONS_PER_TRANSACTION - v.pool.resize_delta
    };
    let cap = if address_space_reserved_for_account > MAX_PERMITTED_DATA_LENGTH {
        MAX_PERMITTED_DATA_LENGTH as int
    } else {
        address_space_reserved_for_account as int
    };
    if cap > old_len + remaining {
        old_len + remaining
    } else {
        cap
    }
}

impl TransactionContext {
    /// Handles one access violation from the virtual machine's memory
    /// subsystem. Loads, regions without an account payload, accesses past
    /// the reserved address space, and any internal inconsistency are
    /// ignored silently; the machine then raises its own fault. Otherwise
    /// the slot is marked touched, the account is grown to fit the access
    /// when needed, and the region is made writable.
    pub fn handle_access_violation(
        &mut self,
        region: &mut AccountRegion,
        address_space_reserved_for_account: u64,
        is_store: bool,
        vm_addr: u64,
        len: u64,
    )
        requires
            old(self).inv(),
        ensures
            final(self).inv(),
            !spec_violation_reaches_account(
                old(self)@,
                *old(region),
                address_space_reserved_for_account,
                is_store,
                vm_addr,
                len,
            ) ==> final(self)@ == old(self)@ && *final(region) == *old(region),
            spec_violation_reaches_account(
                old(self)@,
                *old(region),
                address_space_reserved_for_account,
                is_store,
                vm_addr,
                len,
            ) ==> {
                let index = old(region).access_violation_handler_payload.unwrap();
                let requested = spec_requested_length(old(region).vm_addr, vm_addr, len);
                let touched = (CtxView {
                    pool: PoolView {
                        touched: old(self)@.pool.touched.update(index as int, true),
                        ..old(self)@.pool
                    },
                    ..old(self)@
                });
                if requested <= old(region).len {
                    &&& final(self)@ == touched
                    &&& *final(region) == (AccountRegion { writable: true, ..*old(region) })
                } else {
                    let old_len = old(self)@.pool.accounts[index as int].data.len() as int;
                    let new_len = spec_violation_new_len(
                        old(self)@,
                        index,
                        address_space_reserved_for_account,
                    );
                    let a = old(self)@.pool.accounts[index as int];
                    &&& final(self)@ == (CtxView {
                        pool: PoolView {
                            accounts: touched.pool.accounts.update(
                                index as int,
                                AccountView {
                                    data: BorrowedAccount::spec_resized_data(a.data, new_len),
                                    ..a
                                },
                            ),
                            resize_delta: (old(self)@.pool.resize_delta + new_len
                                - old_len) as i64,
                            ..touched.pool
                        },
                        ..touched
                    })
                    &&& *final(region) == (AccountRegion {
                        len: new_len as u64,
                        writable: true,
                        ..*old(region)
                    })
                }
            },
    {
        let ghost v0 = self@;
        if !is_store {
            return;
        }
        let index = match region.access_violation_handler_payload {
            Some(i) => i,
            None => {
                return;
            },
        };
        let requested_length = vm_addr.saturating_add(len).saturating_sub(region.vm_addr);
        if requested_length > address_space_reserved_for_account {
            return;
        }
        if (index as usize) >= self.accounts.accounts.len() {
            return;
        }
        if self.accounts.borrowed[index as usize] {
            return;
        }
        let _ = self.accounts.touch(index);
        if requested_length > region.len {
            proof {
                lemma_delta_sum_bounds(v0.pool.accounts, v0.pool.initial_lens);
                assert(v0.pool.accounts.len() * MAX_PERMITTED_DATA_LENGTH
                    <= 0xFFFF * MAX_PERMITTED_DATA_LENGTH) by (nonlinear_arith)
                    requires v0.pool.accounts.len() <= 0xFFFF;
            }
            let remaining = (MAX_PERMITTED_ACCOUNTS_DATA_ALLOCATIONS_PER_TRANSACTION
                - self.accounts.resize_delta) as u64;
            let old_len = self.accounts.accounts[index as usize].data.len();
            let cap = if address_space_reserved_for_account > MAX_PERMITTED_DATA_LENGTH {
                MAX_PERMITTED_DATA_LENGTH
            } else {
                address_space_reserved_for_account
            };
            let grow_cap = (old_len as u64) + remaining;
            let new_len_u64 = if cap > grow_cap {
                grow_cap
            } else {
                cap
            };
            let new_len = new_len_u64 as usize;
            let _ = self.accounts.update_accounts_resize_delta(old_len, new_len);
            let slot = &mut self.accounts.accounts[index as usize];
            slot.data.resize(new_len, 0u8);
            proof {
                let i = index as int;
                assert(self@.pool.accounts[i].data =~= BorrowedAccount::spec_resized_data(
                    v0.pool.accounts[i].data,
                    new_len as int,
                ));
                assert(self@.pool.accounts =~= v0.pool.accounts.update(
                    i,
                    self@.pool.accounts[i],
                ));
                lemma_delta_sum_update(
                    v0.pool.accounts,
                    v0.pool.initial_lens,
                    i,
                    self@.pool.accounts[i],
                );
                assert(self.inv());
            }
            region.len = new_len as u64;
        }
        region.writable = true;
    }
}

} // verus!
