//! A constant product market maker for one pair of tokens.
//!
//! The contract's calls are answered by [`LyraSwap`], from what the ledger
//! holds, with a [`Plan`] of the effects to carry out and the outcome for the
//! caller. Carrying effects out on a ledger is left to the user of the library.

pub mod address;
pub mod call_laws;
pub mod contract;
pub mod contract_laws;
pub mod effects;
pub mod error;
pub mod math;
pub mod pool;
pub mod pool_laws;

pub use address::{Address, AddressKind};
pub use contract::{read_state, LyraSwap, LP_DECIMALS};
pub use effects::{
    Effect, FeeUpdatedEvent, LiquidityAdded, LiquidityAddedEvent, LiquidityRemoved,
    LiquidityRemovedEvent, Plan, SwapExactInEvent,
};
pub use error::Error;
pub use math::integer_sqrt;
pub use pool::{PoolState, BPS_DENOMINATOR, MAX_FEE_BPS};
