//! Loans that one transaction takes and repays.
//!
//! A borrow is granted only where the ledger's record of the running
//! transaction shows, after the borrow, a repayment of the same amount to the
//! same pool. The ledger commits a transaction whole or not at all, so a loan
//! that was granted is repaid.

use vstd::prelude::*;
use crate::address::Address;
use crate::error::AdobeError;
use crate::instruction::Instruction;
use crate::instruction::InstructionView;
use crate::state::Pool;
use crate::sysvar::InstructionsSysvar;
use crate::sysvar::INSTRUCTION_LIMIT;
use crate::token::Holdings;
use crate::token::TokenError;
use crate::token::Transfer;

verus! {

/// What an instruction means to a loan of some amount from some pool.
#[derive(Clone, Copy, Debug, PartialEq, Eq, Structural)]
pub enum Verdict {
    /// It is no repayment to the pool.
    Unrelated,
    /// It repays the pool the amount of the loan.
    Repays,
    /// It repays the pool, but not the amount of the loan.
    WrongAmount,
}

/// What `borrow` is called with: the protocol's own identity, the address of
/// its state record, which signs for the pool's tokens, the pool with its
/// address, the account that receives the loan, and the ledger's record of
/// the running transaction.
#[derive(Clone, Debug, PartialEq, Eq)]
pub struct Borrow {
    pub program_id: Address,
    pub state: Address,
    pub pool_key: Address,
    pub pool: Pool,
    pub user_token: Address,
    pub instructions: InstructionsSysvar,
}

/// What `repay` is called with: the protocol's own identity, the payer, who
/// signs for the payment, the pool, the account that pays, and the ledger's
/// record of the running transaction.
#[derive(Clone, Debug, PartialEq, Eq)]
pub struct Repay {
    pub program_id: Address,
    pub user: Address,
    pub pool: Pool,
    pub user_token: Address,
    pub instructions: InstructionsSysvar,
}

/// What `ixn` means to a loan of `amount` from `pool`, made by `program`. A
/// repayment to the pool whose payload is too short to hold an amount counts
/// as one of the wrong amount.
pub open spec fn judge(ixn: InstructionView, program: Address, pool: Address, amount: u64)
    -> Verdict {
    if !ixn.repays_pool(program, pool) {
        Verdict::Unrelated
    } else if ixn.amount() == Some(amount) {
        Verdict::Repays
    } else {
        Verdict::WrongAmount
    }
}

/// The position of the running instruction, where the record shows it and it
/// invokes `program` itself. Where it invokes another program, this call was
/// made from within that program's instruction.
pub open spec fn top_level(tx: InstructionsSysvar, program: Address) -> Result<nat, AdobeError> {
    match tx.current() {
        None => Err(AdobeError::IntrospectionFailed),
        Some(index) => match tx.at(index as nat) {
            None => Err(AdobeError::IntrospectionFailed),
            Some(ixn) => if ixn.program_id == program {
                Ok(index as nat)
            } else {
                Err(AdobeError::NestedInvocationRejected)
            },
        },
    }
}

/// Whether the instructions from position `from` on repay a loan of `amount`
/// from `pool`. The first repayment to the pool decides: instructions before
/// it are passed over, and nothing after it is looked at.
pub open spec fn scan(
    tx: InstructionsSysvar,
    from: nat,
    program: Address,
    pool: Address,
    amount: u64,
) -> Result<(), AdobeError>
    decreases INSTRUCTION_LIMIT - from,
{
    match tx.at(from) {
        None => Err(AdobeError::NoMatchingRepayment),
        Some(ixn) => match judge(ixn, program, pool, amount) {
            Verdict::Unrelated => scan(tx, from + 1, program, pool, amount),
            Verdict::Repays => Ok(()),
            Verdict::WrongAmount => Err(AdobeError::RepaymentAmountMismatch),
        },
    }
}

/// What a borrow of `amount` comes to: the transfer that pays the loan out,
/// or the reason for which it is refused.
pub open spec fn borrow_outcome(ctx: Borrow, amount: u64) -> Result<Transfer, AdobeError> {
    if ctx.pool.borrowing {
        Err(AdobeError::AlreadyBorrowing)
    } else {
        match top_level(ctx.instructions, ctx.program_id) {
            Err(e) => Err(e),
            Ok(current) => match scan(
                ctx.instructions,
                current + 1,
                ctx.program_id,
                ctx.pool_key,
                amount,
            ) {
                Err(e) => Err(e),
                Ok(_) => Ok(
                    Transfer {
                        from: ctx.pool.pool_token,
                        to: ctx.user_token,
                        authority: ctx.state,
                        amount,
                    },
                ),
            },
        }
    }
}

/// What a repayment of `amount` comes to: the transfer that pays the pool, or
/// the reason for which it is refused.
pub open spec fn repay_outcome(ctx: Repay, amount: u64) -> Result<Transfer, AdobeError> {
    match top_level(ctx.instructions, ctx.program_id) {
        Err(e) => Err(e),
        Ok(_) => Ok(
            Transfer {
                from: ctx.user_token,
                to: ctx.pool.pool_token,
                authority: ctx.user,
                amount,
            },
        ),
    }
}

/// Instructions that are no repayment to the pool are passed over, whatever
/// else they are: where none from `from` up to `upto` repays the pool, the
/// search from `from` comes to what the search from `upto` comes to.
pub proof fn lemma_scan_passes_over(
    tx: InstructionsSysvar,
    from: nat,
    upto: nat,
    program: Address,
    pool: Address,
    amount: u64,
)
    requires
        from <= upto,
        forall|i: nat|
            from <= i < upto ==> (#[trigger] tx.at(i) matches Some(ixn) && !ixn.repays_pool(
                program,
                pool,
            )),
    ensures
        scan(tx, from, program, pool, amount) == scan(tx, upto, program, pool, amount),
    decreases upto - from,
{
    if from < upto {
        assert(tx.at(from) is Some);
        lemma_scan_passes_over(tx, from + 1, upto, program, pool, amount);
    }
}

/// The first repayment to the pool decides: with the right amount the search
/// succeeds, with any other amount it fails with `RepaymentAmountMismatch`,
/// whatever follows.
pub proof fn lemma_scan_first_repayment(
    tx: InstructionsSysvar,
    from: nat,
    first: nat,
    program: Address,
    pool: Address,
    amount: u64,
)
    requires
        from <= first,
        forall|i: nat|
            from <= i < first ==> (#[trigger] tx.at(i) matches Some(ixn) && !ixn.repays_pool(
                program,
                pool,
            )),
        tx.at(first) matches Some(ixn) && ixn.repays_pool(program, pool),
    ensures
        tx.at(first)->0.amount() == Some(amount) ==> scan(tx, from, program, pool, amount) is Ok,
        tx.at(first)->0.amount() != Some(amount) ==> scan(tx, from, program, pool, amount) == Err::<
            (),
            AdobeError,
        >(AdobeError::RepaymentAmountMismatch),
{
    lemma_scan_passes_over(tx, from, first, program, pool, amount);
}

/// A loan is granted only against its repayment: where the search from
/// `from` succeeds, the transaction holds, at some position from `from` on,
/// a repayment of the amount to the pool, and every instruction before it is
/// there and is no repayment to the pool. The result is that position.
pub proof fn lemma_scan_granted(
    tx: InstructionsSysvar,
    from: nat,
    program: Address,
    pool: Address,
    amount: u64,
) -> (first: nat)
    requires
        scan(tx, from, program, pool, amount) is Ok,
    ensures
        from <= first < INSTRUCTION_LIMIT,
        tx.at(first) matches Some(ixn) && ixn.repays_pool(program, pool) && ixn.amount() == Some(
            amount,
        ),
        forall|i: nat|
            from <= i < first ==> (#[trigger] tx.at(i) matches Some(ixn) && !ixn.repays_pool(
                program,
                pool,
            )),
    decreases INSTRUCTION_LIMIT - from,
{
    if judge(tx.at(from)->0, program, pool, amount) == Verdict::Repays {
        from
    } else {
        lemma_scan_granted(tx, from + 1, program, pool, amount)
    }
}

/// Without a later repayment to the pool there is no loan: where no
/// instruction from `from` on repays the pool, the search fails with
/// `NoMatchingRepayment`.
pub proof fn lemma_scan_without_repayment(
    tx: InstructionsSysvar,
    from: nat,
    program: Address,
    pool: Address,
    amount: u64,
)
    requires
        forall|i: nat|
            from <= i ==> (#[trigger] tx.at(i) matches Some(ixn) ==> !ixn.repays_pool(
                program,
                pool,
            )),
    ensures
        scan(tx, from, program, pool, amount) == Err::<(), AdobeError>(
            AdobeError::NoMatchingRepayment,
        ),
    decreases INSTRUCTION_LIMIT - from,
{
    if tx.at(from) is Some {
        lemma_scan_without_repayment(tx, from + 1, program, pool, amount);
    }
}

/// A repayment to one pool is none to another.
pub proof fn lemma_other_pool_unrelated(
    ixn: InstructionView,
    program: Address,
    pool: Address,
    other: Address,
    amount: u64,
)
    requires
        ixn.repays_pool(program, other),
        other != pool,
    ensures
        judge(ixn, program, pool, amount) == Verdict::Unrelated,
{
}

/// An instruction to another program is no repayment, whatever it holds.
pub proof fn lemma_other_program_unrelated(
    ixn: InstructionView,
    program: Address,
    pool: Address,
    amount: u64,
)
    requires
        ixn.program_id != program,
    ensures
        judge(ixn, program, pool, amount) == Verdict::Unrelated,
{
}

/// No loan without its repayment: where a borrow is granted, the pool had no
/// loan outstanding, the borrow is an instruction of the transaction itself,
/// and a later instruction of the transaction, again the protocol's own,
/// repays the pool the same amount. The result is the position of that
/// repayment.
pub proof fn lemma_borrow_granted(ctx: Borrow, amount: u64) -> (repayment: nat)
    requires
        borrow_outcome(ctx, amount) is Ok,
    ensures
        !ctx.pool.borrowing,
        top_level(ctx.instructions, ctx.program_id) matches Ok(current) && current < repayment,
        ctx.instructions.at(repayment) matches Some(ixn) && ixn.repays_pool(
            ctx.program_id,
            ctx.pool_key,
        ) && ixn.amount() == Some(amount),
{
    let current = top_level(ctx.instructions, ctx.program_id)->Ok_0;
    lemma_scan_granted(ctx.instructions, current + 1, ctx.program_id, ctx.pool_key, amount)
}

/// While a loan is outstanding the pool lends no more: after a borrow that
/// was granted, any borrow from the same pool is refused with
/// `AlreadyBorrowing`, until a repayment clears the pool.
pub proof fn lemma_second_borrow_refused(first: Borrow, amount: u64, second: Borrow, again: u64)
    requires
        borrow_outcome(first, amount) is Ok,
        second.pool == first.pool.with_borrowing(true),
    ensures
        borrow_outcome(second, again) == Err::<Transfer, AdobeError>(
            AdobeError::AlreadyBorrowing,
        ),
{
}

/// A borrow made from within another program's instruction is refused with
/// `NestedInvocationRejected`, whatever the rest of the transaction holds.
pub proof fn lemma_nested_borrow_refused(ctx: Borrow, amount: u64)
    requires
        !ctx.pool.borrowing,
        ctx.instructions.current() matches Some(index) && ctx.instructions.at(index as nat)
            matches Some(ixn) && ixn.program_id != ctx.program_id,
    ensures
        borrow_outcome(ctx, amount) == Err::<Transfer, AdobeError>(
            AdobeError::NestedInvocationRejected,
        ),
{
}

/// A repayment made from within another program's instruction is refused
/// with `NestedInvocationRejected`.
pub proof fn lemma_nested_repay_refused(ctx: Repay, amount: u64)
    requires
        ctx.instructions.current() matches Some(index) && ctx.instructions.at(index as nat)
            matches Some(ixn) && ixn.program_id != ctx.program_id,
    ensures
        repay_outcome(ctx, amount) == Err::<Transfer, AdobeError>(
            AdobeError::NestedInvocationRejected,
        ),
{
}

/// A loan that is repaid leaves the token ledger as it was: after the
/// transfer that pays the loan out and the one that pays the pool, from the
/// account that received the loan, every balance is what it was before.
pub proof fn lemma_repaid_loan_restores_holdings(
    before: Holdings,
    lend: Borrow,
    settle: Repay,
    amount: u64,
)
    requires
        before.total(),
        settle.pool.pool_token == lend.pool.pool_token,
        settle.user_token == lend.user_token,
        borrow_outcome(lend, amount) matches Ok(paid_out) && before.transfer(paid_out) is Ok,
        repay_outcome(settle, amount) is Ok,
    ensures
        before.transfer(borrow_outcome(lend, amount)->Ok_0)->Ok_0.transfer(
            repay_outcome(settle, amount)->Ok_0,
        ) == Ok::<Holdings, TokenError>(before),
{
    let lent = before.transfer(borrow_outcome(lend, amount)->Ok_0)->Ok_0;
    let settled = lent.transfer(repay_outcome(settle, amount)->Ok_0)->Ok_0;
    assert(settled =~= before);
}

/// Judges one instruction against a loan of `amount` from `pool`.
pub fn judge_instruction(ixn: &Instruction, program: &Address, pool: &Address, amount: u64) -> (v:
    Verdict)
    ensures
        v == judge(ixn@, *program, *pool, amount),
{
    if !ixn.repays_pool(program, pool) {
        return Verdict::Unrelated;
    }
    match ixn.amount() {
        Some(repaid) => if repaid == amount {
            Verdict::Repays
        } else {
            Verdict::WrongAmount
        },
        None => Verdict::WrongAmount,
    }
}

/// Finds the running instruction and checks that it invokes `program`.
pub fn require_top_level(tx: &InstructionsSysvar, program: &Address) -> (r: Result<
    usize,
    AdobeError,
>)
    ensures
        r matches Ok(index) ==> top_level(*tx, *program) == Ok::<nat, AdobeError>(index as nat),
        r matches Err(e) ==> top_level(*tx, *program) == Err::<nat, AdobeError>(e),
{
    let index = match tx.current_index() {
        Some(index) => index as usize,
        None => { return Err(AdobeError::IntrospectionFailed); },
    };
    match tx.instruction_at(index) {
        Some(ixn) => if ixn.program_id.same(program) {
            Ok(index)
        } else {
            Err(AdobeError::NestedInvocationRejected)
        },
        None => Err(AdobeError::IntrospectionFailed),
    }
}

/// Looks from position `from` on for the repayment of a loan of `amount` from
/// `pool`.
pub fn find_repayment(
    tx: &InstructionsSysvar,
    from: usize,
    program: &Address,
    pool: &Address,
    amount: u64,
) -> (r: Result<(), AdobeError>)
    ensures
        r == scan(*tx, from as nat, *program, *pool, amount),
{
    let mut i = from;
    loop
        invariant
            from <= i,
            scan(*tx, from as nat, *program, *pool, amount) == scan(
                *tx,
                i as nat,
                *program,
                *pool,
                amount,
            ),
        decreases INSTRUCTION_LIMIT - i,
    {
        match tx.instruction_at(i) {
            None => { return Err(AdobeError::NoMatchingRepayment); },
            Some(ixn) => match judge_instruction(&ixn, program, pool, amount) {
                Verdict::Repays => { return Ok(()); },
                Verdict::WrongAmount => { return Err(AdobeError::RepaymentAmountMismatch); },
                Verdict::Unrelated => { i += 1; },
            },
        }
    }
}

/// Lends `amount` from the pool. The loan is refused while the pool has
/// another one outstanding, where the call does not come from an instruction
/// of the transaction itself, and where no later instruction of the
/// transaction repays the pool this amount. On success the pool is marked as
/// lending, and the result is the transfer that pays the loan out, signed by
/// the protocol's state record. On refusal nothing changes.
pub fn borrow(ctx: &mut Borrow, amount: u64) -> (r: Result<Transfer, AdobeError>)
    ensures
        r == borrow_outcome(*old(ctx), amount),
        r is Ok ==> *final(ctx) == (Borrow {
            pool: old(ctx).pool.with_borrowing(true),
            ..*old(ctx)
        }),
        r is Err ==> *final(ctx) == *old(ctx),
{
    if ctx.pool.borrowing {
        return Err(AdobeError::AlreadyBorrowing);
    }
    let current = match require_top_level(&ctx.instructions, &ctx.program_id) {
        Ok(index) => index,
        Err(e) => { return Err(e); },
    };
    match find_repayment(&ctx.instructions, current + 1, &ctx.program_id, &ctx.pool_key, amount) {
        Ok(_) => {},
        Err(e) => { return Err(e); },
    }
    ctx.pool.borrowing = true;
    Ok(
        Transfer {
            from: ctx.pool.pool_token,
            to: ctx.user_token,
            authority: ctx.state,
            amount,
        },
    )
}

/// Takes a repayment of `amount` to the pool. It is refused where the call
/// does not come from an instruction of the transaction itself. On success
/// the pool is marked as not lending, and the result is the transfer that
/// pays the pool, signed by the payer. On refusal nothing changes.
pub fn repay(ctx: &mut Repay, amount: u64) -> (r: Result<Transfer, AdobeError>)
    ensures
        r == repay_outcome(*old(ctx), amount),
        r is Ok ==> *final(ctx) == (Repay {
            pool: old(ctx).pool.with_borrowing(false),
            ..*old(ctx)
        }),
        r is Err ==> *final(ctx) == *old(ctx),
{
    match require_top_level(&ctx.instructions, &ctx.program_id) {
        Ok(_) => {},
        Err(e) => { return Err(e); },
    }
    ctx.pool.borrowing = false;
    Ok(
        Transfer {
            from: ctx.user_token,
            to: ctx.pool.pool_token,
            authority: ctx.user,
            amount,
        },
    )
}

} // verus!
