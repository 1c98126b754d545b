//! What a call asks of the ledger around it.

use vstd::prelude::*;

use crate::address::Address;
use crate::error::Error;
use crate::pool::PoolState;

verus! {

/// The owner changed the swap fee.
#[derive(Copy, Clone, Debug, PartialEq, Eq)]
pub struct FeeUpdatedEvent {
    pub owner: Address,
    pub old_fee_bps: u32,
    pub new_fee_bps: u32,
}

/// A provider paid liquidity in.
#[derive(Copy, Clone, Debug, PartialEq, Eq)]
pub struct LiquidityAddedEvent {
    pub provider: Address,
    pub amount_0: i128,
    pub amount_1: i128,
    pub lp_minted: i128,
    pub total_lp: i128,
}

/// A deposit, to be announced with the liquidity tokens in circulation after
/// it.
#[derive(Copy, Clone, Debug, PartialEq, Eq)]
pub struct LiquidityAdded {
    pub provider: Address,
    pub amount_0: i128,
    pub amount_1: i128,
    pub lp_minted: i128,
}

impl LiquidityAdded {
    /// The announcement, given the liquidity tokens in circulation.
    pub fn event(&self, total_lp: i128) -> (event: LiquidityAddedEvent)
        ensures
            event == (LiquidityAddedEvent {
                provider: self.provider,
                amount_0: self.amount_0,
                amount_1: self.amount_1,
                lp_minted: self.lp_minted,
                total_lp,
            }),
    {
        LiquidityAddedEvent {
            provider: self.provider,
            amount_0: self.amount_0,
            amount_1: self.amount_1,
            lp_minted: self.lp_minted,
            total_lp,
        }
    }
}

/// A provider took liquidity out.
#[derive(Copy, Clone, Debug, PartialEq, Eq)]
pub struct LiquidityRemovedEvent {
    pub provider: Address,
    pub amount_0: i128,
    pub amount_1: i128,
    pub lp_burned: i128,
    pub total_lp: i128,
}

/// A withdrawal, to be announced with the liquidity tokens in circulation
/// after it.
#[derive(Copy, Clone, Debug, PartialEq, Eq)]
pub struct LiquidityRemoved {
    pub provider: Address,
    pub amount_0: i128,
    pub amount_1: i128,
    pub lp_burned: i128,
}

impl LiquidityRemoved {
    /// The announcement, given the liquidity tokens in circulation.
    pub fn event(&self, total_lp: i128) -> (event: LiquidityRemovedEvent)
        ensures
            event == (LiquidityRemovedEvent {
                provider: self.provider,
                amount_0: self.amount_0,
                amount_1: self.amount_1,
                lp_burned: self.lp_burned,
                total_lp,
            }),
    {
        LiquidityRemovedEvent {
            provider: self.provider,
            amount_0: self.amount_0,
            amount_1: self.amount_1,
            lp_burned: self.lp_burned,
            total_lp,
        }
    }
}

/// A trader swapped an exact amount in.
#[derive(Copy, Clone, Debug, PartialEq, Eq)]
pub struct SwapExactInEvent {
    pub token_in: Address,
    pub token_out: Address,
    pub trader: Address,
    pub amount_in: i128,
    pub amount_out: i128,
    pub fee_bps: u32,
}

/// One thing to be done on the ledger.
#[derive(Debug, PartialEq, Eq)]
pub enum Effect {
    /// Stop the call unless this address has authorized it.
    RequireAuth(Address),
    /// Stop the call unless the contract has an owner who has authorized it.
    RequireOwnerAuth,
    /// Make this the stored state of the pool.
    StoreState(PoolState),
    /// Describe the liquidity token.
    SetMetadata { decimals: u32, name: Vec<u8>, symbol: Vec<u8> },
    /// Make this address the owner of the contract.
    SetOwner(Address),
    /// Create liquidity tokens for an address.
    MintLp { to: Address, amount: i128 },
    /// Destroy liquidity tokens of an address, which has to authorize it.
    BurnLp { from: Address, amount: i128 },
    /// Move an amount of a token from one address to another.
    Transfer { token: Address, from: Address, to: Address, amount: i128 },
    /// Announce a change of the fee.
    PublishFeeUpdated(FeeUpdatedEvent),
    /// Read how many liquidity tokens are in circulation at this point, and
    /// announce liquidity paid in with that number.
    PublishLiquidityAdded(LiquidityAdded),
    /// Read how many liquidity tokens are in circulation at this point, and
    /// announce liquidity taken out with that number.
    PublishLiquidityRemoved(LiquidityRemoved),
    /// Announce a swap.
    PublishSwapExactIn(SwapExactInEvent),
}

/// The answer to a call: the effects to carry out, in this order, and then
/// what to hand the caller. An error undoes the effects before it.
#[derive(Debug, PartialEq, Eq)]
pub struct Plan<T> {
    pub effects: Vec<Effect>,
    pub outcome: Result<T, Error>,
}

} // verus!
