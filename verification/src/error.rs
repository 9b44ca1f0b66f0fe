//! Why an operation is refused.

use vstd::prelude::*;

verus! {

/// The reason for which an operation of the protocol is refused. Any of them
/// voids the whole transaction.
#[derive(Clone, Copy, Debug, PartialEq, Eq, Structural)]
pub enum AdobeError {
    /// The caller is not the authority of the protocol.
    Unauthorized,
    /// The asset already has a pool.
    AlreadyExists,
    /// The protocol already has its authority.
    AlreadyInitialized,
    /// The pool has a loan that is not repaid yet.
    AlreadyBorrowing,
    /// A borrow or a repayment was invoked from within another program's
    /// instruction.
    NestedInvocationRejected,
    /// No later instruction of the transaction repays the pool.
    NoMatchingRepayment,
    /// The next repayment to the pool is of another amount.
    RepaymentAmountMismatch,
    /// The ledger's record of the transaction does not show the running
    /// instruction.
    IntrospectionFailed,
}

} // verus!
