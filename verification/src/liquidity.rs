//! Deposits and withdrawals: the asset goes into the pool against vouchers,
//! one for one, and comes out against them.

use vstd::prelude::*;
use crate::address::Address;
use crate::state::Pool;
use crate::token::Burn;
use crate::token::Holdings;
use crate::token::MintTo;
use crate::token::TokenError;
use crate::token::Transfer;

verus! {

/// What `deposit` is called with: the address of the protocol's state record,
/// which signs for both token operations, the pool, the account that pays the
/// asset and the account that receives the vouchers.
#[derive(Clone, Copy, Debug, PartialEq, Eq)]
pub struct Deposit {
    pub state: Address,
    pub pool: Pool,
    pub user_token: Address,
    pub user_voucher: Address,
}

/// What `withdraw` is called with: the address of the protocol's state
/// record, which signs for both token operations, the pool, the account that
/// receives the asset and the account whose vouchers are redeemed.
#[derive(Clone, Copy, Debug, PartialEq, Eq)]
pub struct Withdraw {
    pub state: Address,
    pub pool: Pool,
    pub user_token: Address,
    pub user_voucher: Address,
}

/// One deposit or withdrawal that was asked for.
pub enum Movement {
    Deposit(Deposit, u64),
    Withdraw(Withdraw, u64),
}

/// The two token operations of a deposit, in the order in which they are
/// made: the asset goes to the pool, then the vouchers are issued.
pub open spec fn deposit_operations(ctx: Deposit, amount: u64) -> (Transfer, MintTo) {
    (
        Transfer {
            from: ctx.user_token,
            to: ctx.pool.pool_token,
            authority: ctx.state,
            amount,
        },
        MintTo {
            mint: ctx.pool.voucher_mint,
            to: ctx.user_voucher,
            authority: ctx.state,
            amount,
        },
    )
}

/// The two token operations of a withdrawal, in the order in which they are
/// made: the vouchers are destroyed, then the asset leaves the pool.
pub open spec fn withdraw_operations(ctx: Withdraw, amount: u64) -> (Burn, Transfer) {
    (
        Burn {
            mint: ctx.pool.voucher_mint,
            from: ctx.user_voucher,
            authority: ctx.state,
            amount,
        },
        Transfer {
            from: ctx.pool.pool_token,
            to: ctx.user_token,
            authority: ctx.state,
            amount,
        },
    )
}

/// The holdings after a deposit, or the reason for which the token ledger
/// refuses it.
pub open spec fn after_deposit(before: Holdings, ctx: Deposit, amount: u64) -> Result<
    Holdings,
    TokenError,
> {
    match before.transfer(deposit_operations(ctx, amount).0) {
        Ok(paid) => paid.mint_to(deposit_operations(ctx, amount).1),
        Err(e) => Err(e),
    }
}

/// The holdings after a withdrawal, or the reason for which the token ledger
/// refuses it.
pub open spec fn after_withdraw(before: Holdings, ctx: Withdraw, amount: u64) -> Result<
    Holdings,
    TokenError,
> {
    match before.burn(withdraw_operations(ctx, amount).0) {
        Ok(redeemed) => redeemed.transfer(withdraw_operations(ctx, amount).1),
        Err(e) => Err(e),
    }
}

/// The holdings after one deposit or withdrawal.
pub open spec fn after_movement(before: Holdings, movement: Movement) -> Result<
    Holdings,
    TokenError,
> {
    match movement {
        Movement::Deposit(ctx, amount) => after_deposit(before, ctx, amount),
        Movement::Withdraw(ctx, amount) => after_withdraw(before, ctx, amount),
    }
}

/// The holdings after a run of deposits and withdrawals, each in a
/// transaction of its own: one that the token ledger refuses is void and
/// leaves the holdings as they were.
pub open spec fn after_all(before: Holdings, movements: Seq<Movement>) -> Holdings
    decreases movements.len(),
{
    if movements.len() == 0 {
        before
    } else {
        let so_far = after_all(before, movements.drop_last());
        match after_movement(so_far, movements.last()) {
            Ok(after) => after,
            Err(_) => so_far,
        }
    }
}

/// What the deposits among `movements` that were carried out put into pools
/// whose vouchers `mint` issues.
pub open spec fn deposited(before: Holdings, movements: Seq<Movement>, mint: Address) -> nat
    decreases movements.len(),
{
    if movements.len() == 0 {
        0
    } else {
        let so_far = after_all(before, movements.drop_last());
        deposited(before, movements.drop_last(), mint) + match movements.last() {
            Movement::Deposit(ctx, amount) if ctx.pool.voucher_mint == mint && after_deposit(
                so_far,
                ctx,
                amount,
            ) is Ok => amount as nat,
            _ => 0,
        }
    }
}

/// What the withdrawals among `movements` that were carried out took out of
/// pools whose vouchers `mint` issues.
pub open spec fn withdrawn(before: Holdings, movements: Seq<Movement>, mint: Address) -> nat
    decreases movements.len(),
{
    if movements.len() == 0 {
        0
    } else {
        let so_far = after_all(before, movements.drop_last());
        withdrawn(before, movements.drop_last(), mint) + match movements.last() {
            Movement::Withdraw(ctx, amount) if ctx.pool.voucher_mint == mint && after_withdraw(
                so_far,
                ctx,
                amount,
            ) is Ok => amount as nat,
            _ => 0,
        }
    }
}

/// Takes `amount` of the asset into the pool and issues as many vouchers.
/// The result holds the two token operations to make, in this order: the
/// transfer of the asset from the depositor to the pool, then the issue of
/// the vouchers to the depositor. Where the token ledger refuses either, the
/// transaction is void.
pub fn deposit(ctx: &Deposit, amount: u64) -> (operations: (Transfer, MintTo))
    ensures
        operations == deposit_operations(*ctx, amount),
{
    (
        Transfer {
            from: ctx.user_token,
            to: ctx.pool.pool_token,
            authority: ctx.state,
            amount,
        },
        MintTo {
            mint: ctx.pool.voucher_mint,
            to: ctx.user_voucher,
            authority: ctx.state,
            amount,
        },
    )
}

/// Redeems `amount` vouchers for as much of the asset. The result holds the
/// two token operations to make, in this order: the burn of the vouchers,
/// then the transfer of the asset from the pool to their holder. Where the
/// token ledger refuses either, the transaction is void.
pub fn withdraw(ctx: &Withdraw, amount: u64) -> (operations: (Burn, Transfer))
    ensures
        operations == withdraw_operations(*ctx, amount),
{
    (
        Burn {
            mint: ctx.pool.voucher_mint,
            from: ctx.user_voucher,
            authority: ctx.state,
            amount,
        },
        Transfer {
            from: ctx.pool.pool_token,
            to: ctx.user_token,
            authority: ctx.state,
            amount,
        },
    )
}

/// A deposit is refused for want of funds exactly where the depositor holds
/// less than the amount. With the funds there, only a balance or a supply
/// that would pass 64 bits can stop it.
pub proof fn lemma_deposit_funded(before: Holdings, ctx: Deposit, amount: u64)
    ensures
        amount <= before.balances[ctx.user_token] ==> after_deposit(before, ctx, amount) is Ok
            || after_deposit(before, ctx, amount) == Err::<Holdings, TokenError>(
            TokenError::Overflow,
        ),
        amount > before.balances[ctx.user_token] ==> after_deposit(before, ctx, amount) == Err::<
            Holdings,
            TokenError,
        >(TokenError::InsufficientFunds),
{
}

/// A deposit followed by the withdrawal of the same amount, by the same
/// accounts from the same pool, leaves every balance and every supply as it
/// was: the depositor's asset, the pool's asset, the vouchers.
pub proof fn lemma_deposit_withdraw_round_trip(
    before: Holdings,
    put: Deposit,
    take: Withdraw,
    amount: u64,
)
    requires
        before.total(),
        take.state == put.state,
        take.pool == put.pool,
        take.user_token == put.user_token,
        take.user_voucher == put.user_voucher,
        after_deposit(before, put, amount) is Ok,
    ensures
        amount <= before.balances[put.user_token],
        after_withdraw(after_deposit(before, put, amount)->Ok_0, take, amount) == Ok::<
            Holdings,
            TokenError,
        >(before),
{
    let paid = before.transfer(deposit_operations(put, amount).0)->Ok_0;
    let issued = after_deposit(before, put, amount)->Ok_0;
    let redeemed = issued.burn(withdraw_operations(take, amount).0)->Ok_0;
    let back = redeemed.transfer(withdraw_operations(take, amount).1)->Ok_0;
    assert(back =~= before);
}

/// Vouchers are conserved: after any run of deposits and withdrawals, the
/// supply of a pool's vouchers is what it was before, plus what was deposited
/// into the pool, less what was withdrawn from it. A pool whose vouchers were
/// never issued before holds exactly the deposits less the withdrawals.
pub proof fn lemma_voucher_conservation(before: Holdings, movements: Seq<Movement>, mint: Address)
    requires
        before.total(),
    ensures
        after_all(before, movements).total(),
        after_all(before, movements).supplies[mint] + withdrawn(before, movements, mint)
            == before.supplies[mint] + deposited(before, movements, mint),
        before.supplies[mint] == 0 ==> after_all(before, movements).supplies[mint] == deposited(
            before,
            movements,
            mint,
        ) - withdrawn(before, movements, mint),
    decreases movements.len(),
{
    if movements.len() > 0 {
        lemma_voucher_conservation(before, movements.drop_last(), mint);
    }
}

} // verus!
