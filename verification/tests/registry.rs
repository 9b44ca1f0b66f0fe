use adobe::address::Address;
use adobe::error::AdobeError;
use adobe::registry::add_pool;
use adobe::registry::initialize;
use adobe::registry::AddPool;
use adobe::registry::Initialize;
use adobe::state::Pool;
use adobe::state::State;

fn admin() -> Address {
    Address::new([1; 32])
}

fn a_request(caller: Address, pool: Option<Pool>) -> AddPool {
    AddPool {
        authority: caller,
        state: State::new(254, admin()),
        token_mint: Address::new([2; 32]),
        pool,
        pool_token: Address::new([3; 32]),
        voucher_mint: Address::new([4; 32]),
        bump: 253,
    }
}

#[test]
fn initialize_makes_the_caller_the_authority() {
    let mut ctx = Initialize { authority: admin(), state: None, bump: 254 };
    assert_eq!(initialize(&mut ctx), Ok(()));
    assert_eq!(ctx.state, Some(State { bump: 254, authority: admin() }));
    assert_eq!(ctx.authority, admin());
    assert_eq!(ctx.bump, 254);
}

#[test]
fn initialize_happens_once() {
    let mut ctx = Initialize { authority: admin(), state: None, bump: 254 };
    initialize(&mut ctx).unwrap();
    let taken = ctx;
    let mut again = Initialize { authority: Address::new([9; 32]), state: ctx.state, bump: 1 };
    let before = again;
    assert_eq!(initialize(&mut again), Err(AdobeError::AlreadyInitialized));
    assert_eq!(again, before);
    assert_eq!(again.state, taken.state);
    assert_eq!(initialize(&mut ctx), Err(AdobeError::AlreadyInitialized));
    assert_eq!(ctx, taken);
}

#[test]
fn add_pool_registers_an_idle_pool() {
    let mut ctx = a_request(admin(), None);
    let before = ctx;
    assert_eq!(add_pool(&mut ctx), Ok(()));
    assert_eq!(
        ctx.pool,
        Some(Pool {
            bump: 253,
            borrowing: false,
            token_mint: Address::new([2; 32]),
            pool_token: Address::new([3; 32]),
            voucher_mint: Address::new([4; 32]),
        })
    );
    assert_eq!(ctx, AddPool { pool: ctx.pool, ..before });
}

#[test]
fn add_pool_is_for_the_authority_only() {
    let mut ctx = a_request(Address::new([9; 32]), None);
    let before = ctx;
    assert_eq!(add_pool(&mut ctx), Err(AdobeError::Unauthorized));
    assert_eq!(ctx, before);
    assert_eq!(ctx.pool, None);
}

#[test]
fn add_pool_refuses_a_second_pool_for_an_asset() {
    let mut ctx = a_request(admin(), None);
    add_pool(&mut ctx).unwrap();
    let mut lending = ctx;
    lending.pool = Some(Pool { borrowing: true, ..ctx.pool.unwrap() });
    lending.pool_token = Address::new([7; 32]);
    let before = lending;
    assert_eq!(add_pool(&mut lending), Err(AdobeError::AlreadyExists));
    assert_eq!(lending, before);
}

#[test]
fn add_pool_looks_at_the_caller_first() {
    let mut ctx = a_request(admin(), None);
    add_pool(&mut ctx).unwrap();
    let mut stranger = a_request(Address::new([9; 32]), ctx.pool);
    assert_eq!(add_pool(&mut stranger), Err(AdobeError::Unauthorized));
}

#[test]
fn new_pool_has_no_loan() {
    let pool = Pool::new(7, Address::new([2; 32]), Address::new([3; 32]), Address::new([4; 32]));
    assert!(!pool.borrowing);
    assert_eq!(pool.bump, 7);
    assert_eq!(pool.token_mint, Address::new([2; 32]));
    assert_eq!(pool.pool_token, Address::new([3; 32]));
    assert_eq!(pool.voucher_mint, Address::new([4; 32]));
}
