//! A constant-product market maker for a pair of tokens, without fees: the pool
//! record, the integer arithmetic of minting, burning and swapping, and the four
//! operations on a pool as transitions over plain balances.
pub mod engine;
pub mod error;
pub mod init_pool;
pub mod laws;
pub mod liquidity;
pub mod math;
pub mod state;
pub mod swap;

pub use error::ErrorCode;
pub use init_pool::handler as initialize_pool;
pub use liquidity::{add_liquidity, remove_liquidity, LiquidityOperation};
pub use state::{PoolState, Pubkey};
pub use swap::{swap, Direction, Swap};
