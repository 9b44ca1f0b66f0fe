use adobe::address::Address;
use adobe::liquidity::deposit;
use adobe::liquidity::withdraw;
use adobe::liquidity::Deposit;
use adobe::liquidity::Withdraw;
use adobe::state::Pool;
use adobe::token::Burn;
use adobe::token::Ledger;
use adobe::token::MintTo;
use adobe::token::TokenError;
use adobe::token::Transfer;

fn key(byte: u8) -> Address {
    Address::new([byte; 32])
}

fn the_pool() -> Pool {
    Pool::new(255, key(10), key(11), key(12))
}

fn put(user: u8) -> Deposit {
    Deposit { state: key(1), pool: the_pool(), user_token: key(user), user_voucher: key(user + 1) }
}

fn take(user: u8) -> Withdraw {
    Withdraw { state: key(1), pool: the_pool(), user_token: key(user), user_voucher: key(user + 1) }
}

fn funded(user: u8, amount: u64) -> Ledger {
    let mut ledger = Ledger::new();
    ledger.mint_to(&MintTo { mint: key(10), to: key(user), authority: key(99), amount }).unwrap();
    ledger
}

fn run_deposit(ledger: &mut Ledger, ctx: &Deposit, amount: u64) -> Result<(), TokenError> {
    let before = ledger.clone();
    let (pay, issue) = deposit(ctx, amount);
    let done = ledger.transfer(&pay).and_then(|_| ledger.mint_to(&issue));
    if done.is_err() {
        *ledger = before;
    }
    done
}

fn run_withdraw(ledger: &mut Ledger, ctx: &Withdraw, amount: u64) -> Result<(), TokenError> {
    let before = ledger.clone();
    let (redeem, pay) = withdraw(ctx, amount);
    let done = ledger.burn(&redeem).and_then(|_| ledger.transfer(&pay));
    if done.is_err() {
        *ledger = before;
    }
    done
}

#[test]
fn deposit_pays_the_pool_then_issues_vouchers() {
    let (pay, issue) = deposit(&put(20), 100);
    assert_eq!(pay, Transfer { from: key(20), to: key(11), authority: key(1), amount: 100 });
    assert_eq!(issue, MintTo { mint: key(12), to: key(21), authority: key(1), amount: 100 });
}

#[test]
fn withdraw_burns_vouchers_then_pays_out() {
    let (redeem, pay) = withdraw(&take(20), 100);
    assert_eq!(redeem, Burn { mint: key(12), from: key(21), authority: key(1), amount: 100 });
    assert_eq!(pay, Transfer { from: key(11), to: key(20), authority: key(1), amount: 100 });
}

#[test]
fn deposit_moves_the_asset_and_issues_one_for_one() {
    let mut ledger = funded(20, 500);
    run_deposit(&mut ledger, &put(20), 120).unwrap();
    assert_eq!(ledger.balance(&key(20)), 380);
    assert_eq!(ledger.balance(&key(11)), 120);
    assert_eq!(ledger.balance(&key(21)), 120);
    assert_eq!(ledger.supply(&key(12)), 120);
    assert_eq!(ledger.supply(&key(10)), 500);
}

#[test]
fn deposit_withdraw_round_trip() {
    for amount in [0u64, 1, 120, 499, 500] {
        let mut ledger = funded(20, 500);
        run_deposit(&mut ledger, &put(30), 0).unwrap();
        run_deposit(&mut ledger, &put(20), amount).unwrap();
        run_withdraw(&mut ledger, &take(20), amount).unwrap();
        assert_eq!(ledger.balance(&key(20)), 500);
        assert_eq!(ledger.balance(&key(11)), 0);
        assert_eq!(ledger.balance(&key(21)), 0);
        assert_eq!(ledger.supply(&key(12)), 0);
    }
}

#[test]
fn round_trip_leaves_a_stocked_pool_as_it_was() {
    let mut ledger = funded(20, 500);
    ledger.mint_to(&MintTo { mint: key(10), to: key(30), authority: key(99), amount: 70 }).unwrap();
    run_deposit(&mut ledger, &put(30), 70).unwrap();
    run_deposit(&mut ledger, &put(20), 200).unwrap();
    assert_eq!(ledger.balance(&key(11)), 270);
    run_withdraw(&mut ledger, &take(20), 200).unwrap();
    assert_eq!(ledger.balance(&key(20)), 500);
    assert_eq!(ledger.balance(&key(11)), 70);
    assert_eq!(ledger.balance(&key(31)), 70);
    assert_eq!(ledger.supply(&key(12)), 70);
}

#[test]
fn deposit_beyond_the_balance_is_refused() {
    let mut ledger = funded(20, 500);
    assert_eq!(run_deposit(&mut ledger, &put(20), 501), Err(TokenError::InsufficientFunds));
    assert_eq!(ledger.balance(&key(20)), 500);
    assert_eq!(ledger.balance(&key(11)), 0);
    assert_eq!(ledger.supply(&key(12)), 0);
}

#[test]
fn deposit_is_void_where_the_vouchers_cannot_be_issued() {
    let mut ledger = funded(20, 500);
    ledger
        .mint_to(&MintTo { mint: key(12), to: key(40), authority: key(1), amount: u64::MAX })
        .unwrap();
    assert_eq!(run_deposit(&mut ledger, &put(20), 1), Err(TokenError::Overflow));
    assert_eq!(ledger.balance(&key(20)), 500);
    assert_eq!(ledger.balance(&key(11)), 0);
    assert_eq!(ledger.balance(&key(21)), 0);
}

#[test]
fn withdraw_needs_the_vouchers() {
    let mut ledger = funded(20, 500);
    run_deposit(&mut ledger, &put(20), 100).unwrap();
    assert_eq!(run_withdraw(&mut ledger, &take(20), 101), Err(TokenError::InsufficientFunds));
    assert_eq!(run_withdraw(&mut ledger, &take(30), 1), Err(TokenError::InsufficientFunds));
    assert_eq!(ledger.balance(&key(11)), 100);
    assert_eq!(ledger.balance(&key(21)), 100);
    assert_eq!(ledger.supply(&key(12)), 100);
}

#[test]
fn withdraw_is_void_where_the_pool_is_lent_out() {
    let mut ledger = funded(20, 500);
    run_deposit(&mut ledger, &put(20), 100).unwrap();
    // a loan has taken part of the pool
    ledger
        .transfer(&Transfer { from: key(11), to: key(50), authority: key(1), amount: 60 })
        .unwrap();
    assert_eq!(run_withdraw(&mut ledger, &take(20), 100), Err(TokenError::InsufficientFunds));
    assert_eq!(ledger.balance(&key(21)), 100);
    assert_eq!(ledger.supply(&key(12)), 100);
    assert_eq!(run_withdraw(&mut ledger, &take(20), 40), Ok(()));
    assert_eq!(ledger.balance(&key(21)), 60);
}

#[test]
fn voucher_conservation() {
    let mut ledger = funded(20, 500);
    ledger.mint_to(&MintTo { mint: key(10), to: key(30), authority: key(99), amount: 90 }).unwrap();
    let mut deposits: u64 = 0;
    let mut withdrawals: u64 = 0;
    let steps: [(bool, u8, u64); 8] = [
        (true, 20, 100),
        (true, 30, 90),
        (false, 20, 30),
        (true, 20, 400),
        (false, 30, 90),
        (false, 20, 0),
        (true, 30, 50),
        (false, 20, 470),
    ];
    for (is_deposit, user, amount) in steps {
        if is_deposit {
            run_deposit(&mut ledger, &put(user), amount).unwrap();
            deposits += amount;
        } else {
            run_withdraw(&mut ledger, &take(user), amount).unwrap();
            withdrawals += amount;
        }
        assert_eq!(ledger.supply(&key(12)), deposits - withdrawals);
        assert_eq!(ledger.balance(&key(11)), deposits - withdrawals);
        assert_eq!(
            ledger.balance(&key(21)) + ledger.balance(&key(31)),
            deposits - withdrawals
        );
    }
    assert_eq!(deposits, 640);
    assert_eq!(withdrawals, 590);
    assert_eq!(ledger.supply(&key(12)), 50);
}

#[test]
fn refused_movements_leave_the_supply_alone() {
    let mut ledger = funded(20, 500);
    run_deposit(&mut ledger, &put(20), 100).unwrap();
    assert!(run_deposit(&mut ledger, &put(20), 401).is_err());
    assert!(run_withdraw(&mut ledger, &take(20), 101).is_err());
    assert_eq!(ledger.supply(&key(12)), 100);
}
