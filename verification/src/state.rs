//! The records that the protocol keeps on the ledger.

use vstd::prelude::*;
use crate::address::Address;

verus! {

/// The protocol's own record: who may register pools.
#[derive(Clone, Copy, Debug, PartialEq, Eq)]
pub struct State {
    pub bump: u8,
    pub authority: Address,
}

/// The record of one pool. There is one per asset. `pool_token` holds the
/// deposited asset and `voucher_mint` issues the vouchers; `borrowing` is set
/// from the moment a loan leaves the pool until it is repaid.
#[derive(Clone, Copy, Debug, PartialEq, Eq)]
pub struct Pool {
    pub bump: u8,
    pub borrowing: bool,
    pub token_mint: Address,
    pub pool_token: Address,
    pub voucher_mint: Address,
}

impl State {
    /// The record that names `authority`.
    pub fn new(bump: u8, authority: Address) -> (s: State)
        ensures
            s == (State { bump, authority }),
    {
        State { bump, authority }
    }
}

impl Pool {
    /// A pool for `token_mint` with no loan outstanding.
    pub fn new(bump: u8, token_mint: Address, pool_token: Address, voucher_mint: Address) -> (p:
        Pool)
        ensures
            p == (Pool { bump, borrowing: false, token_mint, pool_token, voucher_mint }),
    {
        Pool { bump, borrowing: false, token_mint, pool_token, voucher_mint }
    }

    /// This pool with its loan flag set to `borrowing`.
    pub open spec fn with_borrowing(self, borrowing: bool) -> Pool {
        Pool { borrowing, ..self }
    }
}

} // verus!
