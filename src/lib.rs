//! A constant-product market maker: pool records, request decoding, account
//! checks, the fee-adjusted swap quote and the plan of transfers that settles
//! each request, with every step proved.

mod error;
pub mod instruction;
pub mod key;
pub mod le;
pub mod ledger;
pub mod math;
pub mod ops;
pub mod pool;
pub mod processor;
pub mod token_args;

pub use error::AmmError;
pub use instruction::AmmInstruction;
pub use ops::SwapOutcome;
pub use pool::{Pool, POOL_LEN};
pub use processor::{
    process_instruction, AccountSnapshot, Outcome, RequestAccounts, Settlement, Transfer,
};
pub use token_args::CreateTokenArgs;
