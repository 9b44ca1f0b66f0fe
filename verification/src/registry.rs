//! Setting the protocol up: its authority, and one pool for each asset.

use vstd::prelude::*;
use crate::address::Address;
use crate::error::AdobeError;
use crate::state::Pool;
use crate::state::State;

verus! {

/// What `initialize` is called with: the caller, the place of the protocol's
/// state record with what it holds so far, and the bump of that place.
#[derive(Clone, Copy, Debug, PartialEq, Eq)]
pub struct Initialize {
    pub authority: Address,
    pub state: Option<State>,
    pub bump: u8,
}

/// What `add_pool` is called with: the caller, the protocol's state record,
/// the asset, the place of the asset's pool record with what it holds so far,
/// the token account and the voucher mint that were made for the pool, and the
/// bump of the pool's place.
#[derive(Clone, Copy, Debug, PartialEq, Eq)]
pub struct AddPool {
    pub authority: Address,
    pub state: State,
    pub token_mint: Address,
    pub pool: Option<Pool>,
    pub pool_token: Address,
    pub voucher_mint: Address,
    pub bump: u8,
}

/// Makes the caller the authority of the protocol. This happens once: where
/// the state record exists already, the call is refused with
/// `AlreadyInitialized` and nothing changes.
pub fn initialize(ctx: &mut Initialize) -> (r: Result<(), AdobeError>)
    ensures
        old(ctx).state is None ==> r is Ok && *final(ctx) == (Initialize {
            state: Some(State { bump: old(ctx).bump, authority: old(ctx).authority }),
            ..*old(ctx)
        }),
        old(ctx).state is Some ==> r == Err::<(), AdobeError>(AdobeError::AlreadyInitialized)
            && *final(ctx) == *old(ctx),
{
    if ctx.state.is_some() {
        return Err(AdobeError::AlreadyInitialized);
    }
    ctx.state = Some(State::new(ctx.bump, ctx.authority));
    Ok(())
}

/// Registers the pool of an asset, with no loan outstanding. Only the
/// authority of the protocol may do so: any other caller is refused with
/// `Unauthorized`. An asset has one pool: where its pool record exists
/// already, the authority is refused with `AlreadyExists`. On refusal nothing
/// changes.
pub fn add_pool(ctx: &mut AddPool) -> (r: Result<(), AdobeError>)
    ensures
        old(ctx).authority != old(ctx).state.authority ==> r == Err::<(), AdobeError>(
            AdobeError::Unauthorized,
        ),
        old(ctx).authority == old(ctx).state.authority && old(ctx).pool is Some ==> r == Err::<
            (),
            AdobeError,
        >(AdobeError::AlreadyExists),
        old(ctx).authority == old(ctx).state.authority && old(ctx).pool is None ==> r is Ok,
        r is Ok ==> *final(ctx) == (AddPool {
            pool: Some(
                Pool {
                    bump: old(ctx).bump,
                    borrowing: false,
                    token_mint: old(ctx).token_mint,
                    pool_token: old(ctx).pool_token,
                    voucher_mint: old(ctx).voucher_mint,
                },
            ),
            ..*old(ctx)
        }),
        r is Err ==> *final(ctx) == *old(ctx),
{
    if !ctx.authority.same(&ctx.state.authority) {
        return Err(AdobeError::Unauthorized);
    }
    if ctx.pool.is_some() {
        return Err(AdobeError::AlreadyExists);
    }
    ctx.pool = Some(Pool::new(ctx.bump, ctx.token_mint, ctx.pool_token, ctx.voucher_mint));
    Ok(())
}

} // verus!
