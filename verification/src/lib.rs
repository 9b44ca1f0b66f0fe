//! Flash-loan pools over a token ledger: deposits back redeemable vouchers,
//! and a borrow is granted only when the same transaction repays it later.

pub mod address;
pub mod error;
pub mod instruction;
pub mod liquidity;
pub mod loan;
pub mod registry;
pub mod state;
pub mod sysvar;
pub mod token;

pub use address::Address;
pub use error::AdobeError;
pub use liquidity::deposit;
pub use liquidity::withdraw;
pub use liquidity::Deposit;
pub use liquidity::Withdraw;
pub use loan::borrow;
pub use loan::repay;
pub use loan::Borrow;
pub use loan::Repay;
pub use registry::add_pool;
pub use registry::initialize;
pub use registry::AddPool;
pub use registry::Initialize;
pub use state::Pool;
pub use state::State;
