//! The calls that the contract answers.
//!
//! Each that may change the ledger takes what the ledger holds at the time of
//! the call and answers with a plan: every effect on the ledger, in order, and
//! the value or error for the caller. The announcement of a deposit or a
//! withdrawal is the last effect of its plan, and is completed with the supply
//! of liquidity tokens that is read when it is carried out.

use vstd::prelude::*;

use crate::address::Address;
use crate::effects::{
    Effect, FeeUpdatedEvent, LiquidityAdded, LiquidityRemoved, Plan, SwapExactInEvent,
};
use crate::error::Error;
use crate::pool::{PoolState, MAX_FEE_BPS};
#[allow(unused_imports)]
use crate::pool::{
    after_swap, deposit_terms, swap_terms, token_out, with_reserves_changed, withdrawal_terms,
};

verus! {

/// The decimals of the liquidity token.
pub const LP_DECIMALS: u32 = 7;

/// A constant product market maker for one pair of tokens.
pub struct LyraSwap;

/// The stored state, or the error of a contract that was never set up.
pub open spec fn initialized(stored: Option<PoolState>) -> Result<PoolState, Error> {
    match stored {
        Some(pool) => Ok(pool),
        None => Err(Error::NotInitialized),
    }
}

/// The stored state, or `NotInitialized` where there is none.
pub fn read_state(stored: Option<PoolState>) -> (state: Result<PoolState, Error>)
    ensures
        state == initialized(stored),
{
    stored.ok_or(Error::NotInitialized)
}

// ---------------------------------------------------------------------------
// Setting the contract up
// ---------------------------------------------------------------------------

/// Why a contract cannot be set up with these arguments, if it cannot.
pub open spec fn setup_refusal(
    has_state: bool,
    token_a: Address,
    token_b: Address,
    fee_bps: u32,
) -> Option<Error> {
    if has_state {
        Some(Error::AlreadyInitialized)
    } else if token_a == token_b {
        Some(Error::IdenticalTokens)
    } else if fee_bps > MAX_FEE_BPS {
        Some(Error::InvalidFee)
    } else {
        None
    }
}

/// What setting the contract up asks of the ledger.
pub open spec fn constructor_effects(
    has_state: bool,
    token_a: Address,
    token_b: Address,
    fee_bps: u32,
    owner: Address,
    token_name: Vec<u8>,
    token_symbol: Vec<u8>,
) -> Seq<Effect> {
    match setup_refusal(has_state, token_a, token_b, fee_bps) {
        Some(_) => seq![],
        None => seq![
            Effect::StoreState(PoolState::opened(token_a, token_b, fee_bps)),
            Effect::SetMetadata { decimals: LP_DECIMALS, name: token_name, symbol: token_symbol },
            Effect::SetOwner(owner),
        ],
    }
}

impl LyraSwap {
    /// Sets the contract up as the pool of two tokens, given in any order.
    ///
    /// `has_state` says whether the contract already stores a pool. The caller
    /// is stopped with the error of a plan that has one.
    pub fn __constructor(
        has_state: bool,
        token_a: Address,
        token_b: Address,
        fee_bps: u32,
        owner: Address,
        token_name: Vec<u8>,
        token_symbol: Vec<u8>,
    ) -> (plan: Plan<()>)
        ensures
            plan.outcome == match setup_refusal(has_state, token_a, token_b, fee_bps) {
                Some(e) => Err(e),
                None => Ok(()),
            },
            plan.effects@ == constructor_effects(
                has_state,
                token_a,
                token_b,
                fee_bps,
                owner,
                token_name,
                token_symbol,
            ),
    {
        if has_state {
            return Plan { effects: vec![], outcome: Err(Error::AlreadyInitialized) };
        }
        match PoolState::open_pool(token_a, token_b, fee_bps) {
            Err(e) => Plan { effects: vec![], outcome: Err(e) },
            Ok(state) => Plan {
                effects: vec![
                    Effect::StoreState(state),
                    Effect::SetMetadata {
                        decimals: LP_DECIMALS,
                        name: token_name,
                        symbol: token_symbol,
                    },
                    Effect::SetOwner(owner),
                ],
                outcome: Ok(()),
            },
        }
    }

    /// The state of the pool.
    pub fn get_state(stored: Option<PoolState>) -> (state: Result<PoolState, Error>)
        ensures
            state == initialized(stored),
    {
        read_state(stored)
    }
}

// ---------------------------------------------------------------------------
// The fee
// ---------------------------------------------------------------------------

/// The pool with its fee changed to `new_fee_bps`, or why the change is
/// refused.
pub open spec fn fee_decision(stored: Option<PoolState>, new_fee_bps: u32) -> Result<
    PoolState,
    Error,
> {
    match stored {
        None => Err(Error::NotInitialized),
        Some(pool) => if new_fee_bps > MAX_FEE_BPS {
            Err(Error::InvalidFee)
        } else {
            Ok(PoolState { fee_bps: new_fee_bps, ..pool })
        },
    }
}

/// What the fee change answers.
pub open spec fn set_fee_outcome(stored: Option<PoolState>, new_fee_bps: u32) -> Result<(), Error> {
    match fee_decision(stored, new_fee_bps) {
        Err(e) => Err(e),
        Ok(_) => Ok(()),
    }
}

/// What the fee change asks of the ledger.
pub open spec fn set_fee_effects(
    stored: Option<PoolState>,
    caller: Address,
    new_fee_bps: u32,
) -> Seq<Effect> {
    match fee_decision(stored, new_fee_bps) {
        Err(_) => seq![Effect::RequireOwnerAuth],
        Ok(state) => seq![
            Effect::RequireOwnerAuth,
            Effect::StoreState(state),
            Effect::PublishFeeUpdated(
                FeeUpdatedEvent {
                    owner: caller,
                    old_fee_bps: stored->Some_0.fee_bps,
                    new_fee_bps,
                },
            ),
        ],
    }
}

impl LyraSwap {
    /// Changes the swap fee. Only the owner of the contract may do so; the
    /// announcement names `caller`.
    pub fn set_fee(stored: Option<PoolState>, caller: Address, new_fee_bps: u32) -> (plan: Plan<()>)
        ensures
            plan.outcome == set_fee_outcome(stored, new_fee_bps),
            plan.effects@ == set_fee_effects(stored, caller, new_fee_bps),
    {
        let state = match read_state(stored) {
            Ok(state) => state,
            Err(e) => {
                return Plan { effects: vec![Effect::RequireOwnerAuth], outcome: Err(e) };
            },
        };
        if new_fee_bps > MAX_FEE_BPS {
            return Plan {
                effects: vec![Effect::RequireOwnerAuth],
                outcome: Err(Error::InvalidFee),
            };
        }
        let event = FeeUpdatedEvent { owner: caller, old_fee_bps: state.fee_bps, new_fee_bps };
        Plan {
            effects: vec![
                Effect::RequireOwnerAuth,
                Effect::StoreState(PoolState { fee_bps: new_fee_bps, ..state }),
                Effect::PublishFeeUpdated(event),
            ],
            outcome: Ok(()),
        }
    }
}

// ---------------------------------------------------------------------------
// Liquidity in
// ---------------------------------------------------------------------------

/// The terms of a deposit into the stored pool, or why it is refused before
/// anything moves.
pub open spec fn deposit_decision(
    stored: Option<PoolState>,
    total_lp: i128,
    amount_0_opt: i128,
    amount_1_opt: i128,
) -> Result<(i128, i128, i128), Error> {
    match stored {
        None => Err(Error::NotInitialized),
        Some(pool) => deposit_terms(
            pool,
            total_lp as int,
            amount_0_opt as int,
            amount_1_opt as int,
        ),
    }
}

/// Liquidity tokens to the provider, and the two amounts to the contract.
pub open spec fn deposit_movements(
    pool: PoolState,
    contract: Address,
    provider: Address,
    terms: (i128, i128, i128),
) -> Seq<Effect> {
    seq![
        Effect::RequireAuth(provider),
        Effect::MintLp { to: provider, amount: terms.2 },
        Effect::Transfer { token: pool.token_0, from: provider, to: contract, amount: terms.0 },
        Effect::Transfer { token: pool.token_1, from: provider, to: contract, amount: terms.1 },
    ]
}

/// What a deposit answers: the amounts taken and the liquidity tokens minted.
pub open spec fn add_liquidity_outcome(
    stored: Option<PoolState>,
    total_lp: i128,
    amount_0_opt: i128,
    amount_1_opt: i128,
) -> Result<(i128, i128, i128), Error> {
    match deposit_decision(stored, total_lp, amount_0_opt, amount_1_opt) {
        Err(e) => Err(e),
        Ok(terms) => match with_reserves_changed(stored->Some_0, terms.0 as int, terms.1 as int) {
            Err(e) => Err(e),
            Ok(_) => Ok(terms),
        },
    }
}

/// What a deposit asks of the ledger. The new reserves are computed, and may
/// turn out not to fit, only after the tokens have moved. A deposit that is
/// granted is announced last.
pub open spec fn add_liquidity_effects(
    stored: Option<PoolState>,
    total_lp: i128,
    contract: Address,
    provider: Address,
    amount_0_opt: i128,
    amount_1_opt: i128,
) -> Seq<Effect> {
    match deposit_decision(stored, total_lp, amount_0_opt, amount_1_opt) {
        Err(_) => seq![Effect::RequireAuth(provider)],
        Ok(terms) => {
            let moved = deposit_movements(stored->Some_0, contract, provider, terms);
            match with_reserves_changed(stored->Some_0, terms.0 as int, terms.1 as int) {
                Err(_) => moved,
                Ok(state) => moved.push(Effect::StoreState(state)).push(
                    Effect::PublishLiquidityAdded(
                        LiquidityAdded {
                            provider,
                            amount_0: terms.0,
                            amount_1: terms.1,
                            lp_minted: terms.2,
                        },
                    ),
                ),
            }
        },
    }
}

impl LyraSwap {
    /// Pays liquidity in: at most the two amounts offered, in the proportion
    /// of the reserves, for liquidity tokens.
    ///
    /// `contract` is the address of this contract, and `total_lp` the
    /// liquidity tokens in circulation. The outcome gives the amounts taken
    /// and the liquidity tokens minted.
    pub fn add_liquidity(
        stored: Option<PoolState>,
        total_lp: i128,
        contract: Address,
        provider: Address,
        amount_0_opt: i128,
        amount_1_opt: i128,
    ) -> (plan: Plan<(i128, i128, i128)>)
        ensures
            plan.outcome == add_liquidity_outcome(stored, total_lp, amount_0_opt, amount_1_opt),
            plan.effects@ == add_liquidity_effects(
                stored,
                total_lp,
                contract,
                provider,
                amount_0_opt,
                amount_1_opt,
            ),
    {
        let mut effects: Vec<Effect> = vec![Effect::RequireAuth(provider)];
        let pool = match read_state(stored) {
            Ok(pool) => pool,
            Err(e) => {
                return Plan { effects, outcome: Err(e) };
            },
        };
        let (amount_0, amount_1, lp_minted): (i128, i128, i128) = match pool.quote_deposit(
            total_lp,
            amount_0_opt,
            amount_1_opt,
        ) {
            Ok(terms) => terms,
            Err(e) => {
                return Plan { effects, outcome: Err(e) };
            },
        };
        effects.push(Effect::MintLp { to: provider, amount: lp_minted });
        effects.push(
            Effect::Transfer {
                token: pool.token_0,
                from: provider,
                to: contract,
                amount: amount_0,
            },
        );
        effects.push(
            Effect::Transfer {
                token: pool.token_1,
                from: provider,
                to: contract,
                amount: amount_1,
            },
        );
        match pool.deposit(amount_0, amount_1) {
            Err(e) => Plan { effects, outcome: Err(e) },
            Ok(state) => {
                effects.push(Effect::StoreState(state));
                effects.push(
                    Effect::PublishLiquidityAdded(
                        LiquidityAdded { provider, amount_0, amount_1, lp_minted },
                    ),
                );
                Plan { effects, outcome: Ok((amount_0, amount_1, lp_minted)) }
            },
        }
    }
}

// ---------------------------------------------------------------------------
// Liquidity out
// ---------------------------------------------------------------------------

/// The amounts that a withdrawal from the stored pool pays, or why it is
/// refused before anything moves.
pub open spec fn withdrawal_decision(
    stored: Option<PoolState>,
    user_lp: i128,
    total_lp: i128,
    lp_amount: i128,
    min_amount_0: i128,
    min_amount_1: i128,
) -> Result<(i128, i128), Error> {
    match stored {
        None => Err(Error::NotInitialized),
        Some(pool) => if lp_amount <= 0 {
            Err(Error::InvalidAmount)
        } else if user_lp < lp_amount {
            Err(Error::InsufficientLpBalance)
        } else {
            match withdrawal_terms(pool, total_lp as int, lp_amount as int) {
                Err(e) => Err(e),
                Ok((amount_0, amount_1)) => if amount_0 < min_amount_0 || amount_1 < min_amount_1 {
                    Err(Error::SlippageExceeded)
                } else {
                    Ok((amount_0, amount_1))
                },
            }
        },
    }
}

/// The liquidity tokens of the provider destroyed, and the two amounts to the
/// provider.
pub open spec fn withdrawal_movements(
    pool: PoolState,
    contract: Address,
    provider: Address,
    lp_amount: i128,
    amounts: (i128, i128),
) -> Seq<Effect> {
    seq![
        Effect::BurnLp { from: provider, amount: lp_amount },
        Effect::Transfer { token: pool.token_0, from: contract, to: provider, amount: amounts.0 },
        Effect::Transfer { token: pool.token_1, from: contract, to: provider, amount: amounts.1 },
    ]
}

/// What a withdrawal answers: the amounts paid out.
pub open spec fn remove_liquidity_outcome(
    stored: Option<PoolState>,
    user_lp: i128,
    total_lp: i128,
    lp_amount: i128,
    min_amount_0: i128,
    min_amount_1: i128,
) -> Result<(i128, i128), Error> {
    match withdrawal_decision(stored, user_lp, total_lp, lp_amount, min_amount_0, min_amount_1) {
        Err(e) => Err(e),
        Ok(amounts) => match with_reserves_changed(stored->Some_0, -amounts.0, -amounts.1) {
            Err(e) => Err(e),
            Ok(_) => Ok(amounts),
        },
    }
}

/// What a withdrawal asks of the ledger. The new reserves are computed, and
/// may turn out not to fit, only after the tokens have moved. A withdrawal that
/// is granted is announced last.
pub open spec fn remove_liquidity_effects(
    stored: Option<PoolState>,
    user_lp: i128,
    total_lp: i128,
    contract: Address,
    provider: Address,
    lp_amount: i128,
    min_amount_0: i128,
    min_amount_1: i128,
) -> Seq<Effect> {
    match withdrawal_decision(stored, user_lp, total_lp, lp_amount, min_amount_0, min_amount_1) {
        Err(_) => seq![],
        Ok(amounts) => {
            let moved = withdrawal_movements(
                stored->Some_0,
                contract,
                provider,
                lp_amount,
                amounts,
            );
            match with_reserves_changed(stored->Some_0, -amounts.0, -amounts.1) {
                Err(_) => moved,
                Ok(state) => moved.push(Effect::StoreState(state)).push(
                    Effect::PublishLiquidityRemoved(
                        LiquidityRemoved {
                            provider,
                            amount_0: amounts.0,
                            amount_1: amounts.1,
                            lp_burned: lp_amount,
                        },
                    ),
                ),
            }
        },
    }
}

impl LyraSwap {
    /// Takes liquidity out: the share of either reserve that `lp_amount` of
    /// the liquidity tokens in circulation are, if it is at least what the
    /// provider asks for.
    ///
    /// `contract` is the address of this contract, `user_lp` what the provider
    /// holds of the liquidity token, and `total_lp` what is in circulation.
    pub fn remove_liquidity(
        stored: Option<PoolState>,
        user_lp: i128,
        total_lp: i128,
        contract: Address,
        provider: Address,
        lp_amount: i128,
        min_amount_0: i128,
        min_amount_1: i128,
    ) -> (plan: Plan<(i128, i128)>)
        ensures
            plan.outcome == remove_liquidity_outcome(
                stored,
                user_lp,
                total_lp,
                lp_amount,
                min_amount_0,
                min_amount_1,
            ),
            plan.effects@ == remove_liquidity_effects(
                stored,
                user_lp,
                total_lp,
                contract,
                provider,
                lp_amount,
                min_amount_0,
                min_amount_1,
            ),
    {
        let mut effects: Vec<Effect> = vec![];
        let pool = match read_state(stored) {
            Ok(pool) => pool,
            Err(e) => {
                return Plan { effects, outcome: Err(e) };
            },
        };
        if lp_amount <= 0 {
            return Plan { effects, outcome: Err(Error::InvalidAmount) };
        }
        if user_lp < lp_amount {
            return Plan { effects, outcome: Err(Error::InsufficientLpBalance) };
        }
        let (amount_0, amount_1): (i128, i128) = match pool.quote_withdrawal(total_lp, lp_amount) {
            Ok(amounts) => amounts,
            Err(e) => {
                return Plan { effects, outcome: Err(e) };
            },
        };
        if amount_0 < min_amount_0 || amount_1 < min_amount_1 {
            return Plan { effects, outcome: Err(Error::SlippageExceeded) };
        }
        effects.push(Effect::BurnLp { from: provider, amount: lp_amount });
        effects.push(
            Effect::Transfer {
                token: pool.token_0,
                from: contract,
                to: provider,
                amount: amount_0,
            },
        );
        effects.push(
            Effect::Transfer {
                token: pool.token_1,
                from: contract,
                to: provider,
                amount: amount_1,
            },
        );
        match pool.withdraw(amount_0, amount_1) {
            Err(e) => Plan { effects, outcome: Err(e) },
            Ok(state) => {
                effects.push(Effect::StoreState(state));
                effects.push(
                    Effect::PublishLiquidityRemoved(
                        LiquidityRemoved { provider, amount_0, amount_1, lp_burned: lp_amount },
                    ),
                );
                Plan { effects, outcome: Ok((amount_0, amount_1)) }
            },
        }
    }
}

// ---------------------------------------------------------------------------
// Swaps
// ---------------------------------------------------------------------------

/// What a swap against the stored pool pays, or why it is refused before
/// anything moves.
pub open spec fn swap_decision(
    stored: Option<PoolState>,
    token_in: Address,
    amount_in: i128,
    min_amount_out: i128,
) -> Result<i128, Error> {
    match stored {
        None => Err(Error::NotInitialized),
        Some(pool) => match swap_terms(pool, token_in, amount_in as int) {
            Err(e) => Err(e),
            Ok(amount_out) => if amount_out < min_amount_out {
                Err(Error::SlippageExceeded)
            } else {
                Ok(amount_out)
            },
        },
    }
}

/// The amount in to the contract, and the amount out to the trader.
pub open spec fn swap_movements(
    pool: PoolState,
    contract: Address,
    trader: Address,
    token_in: Address,
    amount_in: i128,
    amount_out: i128,
) -> Seq<Effect> {
    seq![
        Effect::RequireAuth(trader),
        Effect::Transfer { token: token_in, from: trader, to: contract, amount: amount_in },
        Effect::Transfer {
            token: token_out(pool, token_in),
            from: contract,
            to: trader,
            amount: amount_out,
        },
    ]
}

/// What a swap answers: the amount paid out.
pub open spec fn swap_exact_in_outcome(
    stored: Option<PoolState>,
    token_in: Address,
    amount_in: i128,
    min_amount_out: i128,
) -> Result<i128, Error> {
    match swap_decision(stored, token_in, amount_in, min_amount_out) {
        Err(e) => Err(e),
        Ok(amount_out) => match after_swap(
            stored->Some_0,
            token_in,
            amount_in as int,
            amount_out as int,
        ) {
            Err(e) => Err(e),
            Ok(_) => Ok(amount_out),
        },
    }
}

/// What a swap asks of the ledger. The new reserves are computed, and may turn
/// out not to fit, only after the tokens have moved.
pub open spec fn swap_exact_in_effects(
    stored: Option<PoolState>,
    contract: Address,
    trader: Address,
    token_in: Address,
    amount_in: i128,
    min_amount_out: i128,
) -> Seq<Effect> {
    match swap_decision(stored, token_in, amount_in, min_amount_out) {
        Err(_) => seq![Effect::RequireAuth(trader)],
        Ok(amount_out) => {
            let pool = stored->Some_0;
            let moved = swap_movements(pool, contract, trader, token_in, amount_in, amount_out);
            match after_swap(pool, token_in, amount_in as int, amount_out as int) {
                Err(_) => moved,
                Ok(state) => moved.push(Effect::StoreState(state)).push(
                    Effect::PublishSwapExactIn(
                        SwapExactInEvent {
                            token_in,
                            token_out: token_out(pool, token_in),
                            trader,
                            amount_in,
                            amount_out,
                            fee_bps: pool.fee_bps,
                        },
                    ),
                ),
            }
        },
    }
}

impl LyraSwap {
    /// Swaps exactly `amount_in` of one token of the pool for as much of the
    /// other as the constant product rule pays after the fee, if that is at
    /// least `min_amount_out`. `contract` is the address of this contract.
    pub fn swap_exact_in(
        stored: Option<PoolState>,
        contract: Address,
        trader: Address,
        token_in: Address,
        amount_in: i128,
        min_amount_out: i128,
    ) -> (plan: Plan<i128>)
        ensures
            plan.outcome == swap_exact_in_outcome(stored, token_in, amount_in, min_amount_out),
            plan.effects@ == swap_exact_in_effects(
                stored,
                contract,
                trader,
                token_in,
                amount_in,
                min_amount_out,
            ),
    {
        let mut effects: Vec<Effect> = vec![Effect::RequireAuth(trader)];
        let pool = match read_state(stored) {
            Ok(pool) => pool,
            Err(e) => {
                return Plan { effects, outcome: Err(e) };
            },
        };
        let amount_out: i128 = match pool.quote_swap(&token_in, amount_in) {
            Ok(amount_out) => amount_out,
            Err(e) => {
                return Plan { effects, outcome: Err(e) };
            },
        };
        if amount_out < min_amount_out {
            return Plan { effects, outcome: Err(Error::SlippageExceeded) };
        }
        let paid_token = pool.counterpart(&token_in);
        effects.push(
            Effect::Transfer { token: token_in, from: trader, to: contract, amount: amount_in },
        );
        effects.push(
            Effect::Transfer { token: paid_token, from: contract, to: trader, amount: amount_out },
        );
        match pool.swap(&token_in, amount_in, amount_out) {
            Err(e) => Plan { effects, outcome: Err(e) },
            Ok(state) => {
                effects.push(Effect::StoreState(state));
                effects.push(
                    Effect::PublishSwapExactIn(
                        SwapExactInEvent {
                            token_in,
                            token_out: paid_token,
                            trader,
                            amount_in,
                            amount_out,
                            fee_bps: state.fee_bps,
                        },
                    ),
                );
                Plan { effects, outcome: Ok(amount_out) }
            },
        }
    }
}

} // verus!
