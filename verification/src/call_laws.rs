//! What the pool and the contract hand back, in terms of what they are handed.
//!
//! The laws speak of whatever a call hands back, and say what that must be in
//! plain arithmetic on the arguments and the fields of the pool. Where a number
//! is the result of a division, they say of which number it is the result, or
//! hold for any number that is.

use vstd::prelude::*;

use crate::address::{law_addresses_are_totally_ordered, Address};
use crate::contract::{read_state, LyraSwap};
use crate::effects::{
    Effect, FeeUpdatedEvent, LiquidityAdded, LiquidityAddedEvent, LiquidityRemoved,
    LiquidityRemovedEvent, Plan, SwapExactInEvent,
};
use crate::error::Error;
use crate::math::{
    fits, law_quotient, lemma_at_most_quotient, lemma_quotient_bounds, lemma_rounded_down,
    quotient, rounds_to,
};
use crate::pool::PoolState;
use crate::pool_laws::{lemma_matching, lemma_root_of_product, lemma_share_of_reserve};

verus! {

// ---------------------------------------------------------------------------
// Setting up
// ---------------------------------------------------------------------------

/// A pool can be opened for two different tokens and a fee of at most three
/// percent. It is empty, charges exactly that fee, and trades exactly those
/// tokens, the one that comes first in the order of addresses first.
pub proof fn law_open_pool(
    token_a: Address,
    token_b: Address,
    fee_bps: u32,
    opened: Result<PoolState, Error>,
)
    requires
        call_ensures(PoolState::open_pool, (token_a, token_b, fee_bps), opened),
    ensures
        opened is Ok <==> token_a != token_b && fee_bps <= 300,
        opened == Err::<PoolState, Error>(Error::IdenticalTokens) <==> token_a == token_b,
        opened == Err::<PoolState, Error>(Error::InvalidFee) <==> token_a != token_b && fee_bps
            > 300,
        opened matches Ok(pool) ==> {
            &&& pool.fee_bps == fee_bps
            &&& pool.reserve_0 == 0
            &&& pool.reserve_1 == 0
            &&& pool.token_0.precedes(pool.token_1)
            &&& (pool.token_0 == token_a && pool.token_1 == token_b) || (pool.token_0 == token_b
                && pool.token_1 == token_a)
        },
{
    law_addresses_are_totally_ordered(token_a, token_b, token_a);
}

/// A contract is set up once, with two different tokens and a fee of at most
/// three percent. That stores the opened pool, describes the liquidity token
/// with seven decimals and the name and symbol given, and makes the owner given
/// the owner. A contract that is not set up is left alone.
pub proof fn law_constructor(
    has_state: bool,
    token_a: Address,
    token_b: Address,
    fee_bps: u32,
    owner: Address,
    token_name: Vec<u8>,
    token_symbol: Vec<u8>,
    plan: Plan<()>,
)
    requires
        call_ensures(
            LyraSwap::__constructor,
            (has_state, token_a, token_b, fee_bps, owner, token_name, token_symbol),
            plan,
        ),
    ensures
        plan.outcome is Ok <==> !has_state && token_a != token_b && fee_bps <= 300,
        plan.outcome == Err::<(), Error>(Error::AlreadyInitialized) <==> has_state,
        plan.outcome == Err::<(), Error>(Error::IdenticalTokens) <==> !has_state && token_a
            == token_b,
        plan.outcome == Err::<(), Error>(Error::InvalidFee) <==> !has_state && token_a != token_b
            && fee_bps > 300,
        plan.outcome is Err ==> plan.effects@.len() == 0,
        plan.outcome is Ok ==> {
            &&& plan.effects@.len() == 3
            &&& plan.effects@[0] matches Effect::StoreState(pool) && {
                &&& pool.fee_bps == fee_bps
                &&& pool.reserve_0 == 0
                &&& pool.reserve_1 == 0
                &&& pool.token_0.precedes(pool.token_1)
                &&& (pool.token_0 == token_a && pool.token_1 == token_b) || (pool.token_0
                    == token_b && pool.token_1 == token_a)
            }
            &&& plan.effects@[1] == Effect::SetMetadata {
                decimals: 7,
                name: token_name,
                symbol: token_symbol,
            }
            &&& plan.effects@[2] == Effect::SetOwner(owner)
        },
{
    law_addresses_are_totally_ordered(token_a, token_b, token_a);
}

/// The state that is read is the state that is stored.
pub proof fn law_stored_state_is_read(
    stored: Option<PoolState>,
    state: Result<PoolState, Error>,
    shown: Result<PoolState, Error>,
)
    requires
        call_ensures(read_state, (stored,), state),
        call_ensures(LyraSwap::get_state, (stored,), shown),
    ensures
        stored matches Some(pool) ==> state == Ok::<PoolState, Error>(pool),
        stored is None ==> state == Err::<PoolState, Error>(Error::NotInitialized),
        shown == state,
{
}

/// A contract that was never set up refuses every call as not initialized, and
/// asks for no more than the authorization that comes first.
pub proof fn law_calls_before_setup(
    user_lp: i128,
    total_lp: i128,
    contract: Address,
    caller: Address,
    token_in: Address,
    new_fee_bps: u32,
    amount: i128,
    bound_0: i128,
    bound_1: i128,
    fee_change: Plan<()>,
    deposit: Plan<(i128, i128, i128)>,
    withdrawal: Plan<(i128, i128)>,
    swap: Plan<i128>,
)
    requires
        call_ensures(LyraSwap::set_fee, (None, caller, new_fee_bps), fee_change),
        call_ensures(
            LyraSwap::add_liquidity,
            (None, total_lp, contract, caller, bound_0, bound_1),
            deposit,
        ),
        call_ensures(
            LyraSwap::remove_liquidity,
            (None, user_lp, total_lp, contract, caller, amount, bound_0, bound_1),
            withdrawal,
        ),
        call_ensures(
            LyraSwap::swap_exact_in,
            (None, contract, caller, token_in, amount, bound_0),
            swap,
        ),
    ensures
        fee_change.outcome == Err::<(), Error>(Error::NotInitialized),
        fee_change.effects@ == seq![Effect::RequireOwnerAuth],
        deposit.outcome == Err::<(i128, i128, i128), Error>(Error::NotInitialized),
        deposit.effects@ == seq![Effect::RequireAuth(caller)],
        withdrawal.outcome == Err::<(i128, i128), Error>(Error::NotInitialized),
        withdrawal.effects@ == Seq::<Effect>::empty(),
        swap.outcome == Err::<i128, Error>(Error::NotInitialized),
        swap.effects@ == seq![Effect::RequireAuth(caller)],
{
}

// ---------------------------------------------------------------------------
// The fee
// ---------------------------------------------------------------------------

/// Once the contract is set up, every fee of at most three percent can be set,
/// whatever the fee was. The owner's authorization comes first; then the pool
/// is stored with the new fee and nothing else changed, and the old and the new
/// fee are announced.
pub proof fn law_set_fee(pool: PoolState, caller: Address, new_fee_bps: u32, plan: Plan<()>)
    requires
        call_ensures(LyraSwap::set_fee, (Some(pool), caller, new_fee_bps), plan),
    ensures
        plan.outcome is Ok <==> new_fee_bps <= 300,
        plan.outcome matches Err(e) ==> e == Error::InvalidFee && plan.effects@ == seq![
            Effect::RequireOwnerAuth,
        ],
        plan.outcome is Ok ==> plan.effects@ == seq![
            Effect::RequireOwnerAuth,
            Effect::StoreState(
                PoolState {
                    token_0: pool.token_0,
                    token_1: pool.token_1,
                    reserve_0: pool.reserve_0,
                    reserve_1: pool.reserve_1,
                    fee_bps: new_fee_bps,
                },
            ),
            Effect::PublishFeeUpdated(
                FeeUpdatedEvent { owner: caller, old_fee_bps: pool.fee_bps, new_fee_bps },
            ),
        ],
{
}

// ---------------------------------------------------------------------------
// Reserves
// ---------------------------------------------------------------------------

/// A deposit adds each amount to the reserve of its token, a withdrawal takes
/// it off, and neither changes anything else. Either is refused exactly where a
/// reserve would not fit.
pub proof fn law_reserves_follow_liquidity(
    pool: PoolState,
    amount_0: i128,
    amount_1: i128,
    grown: Result<PoolState, Error>,
    shrunk: Result<PoolState, Error>,
)
    requires
        call_ensures(PoolState::deposit, (&pool, amount_0, amount_1), grown),
        call_ensures(PoolState::withdraw, (&pool, amount_0, amount_1), shrunk),
    ensures
        grown is Ok <==> fits(pool.reserve_0 + amount_0) && fits(pool.reserve_1 + amount_1),
        grown matches Err(e) ==> e == Error::ArithmeticOverflow,
        grown matches Ok(next) ==> {
            &&& next.reserve_0 == pool.reserve_0 + amount_0
            &&& next.reserve_1 == pool.reserve_1 + amount_1
            &&& next.token_0 == pool.token_0
            &&& next.token_1 == pool.token_1
            &&& next.fee_bps == pool.fee_bps
        },
        shrunk is Ok <==> fits(pool.reserve_0 - amount_0) && fits(pool.reserve_1 - amount_1),
        shrunk matches Err(e) ==> e == Error::ArithmeticOverflow,
        shrunk matches Ok(next) ==> {
            &&& next.reserve_0 == pool.reserve_0 - amount_0
            &&& next.reserve_1 == pool.reserve_1 - amount_1
            &&& next.token_0 == pool.token_0
            &&& next.token_1 == pool.token_1
            &&& next.fee_bps == pool.fee_bps
        },
{
}

/// A swap adds what is paid in to the reserve of the token paid in, takes what
/// is paid out off the other, and changes nothing else. It is refused exactly
/// where a reserve would not fit. What comes out is the token that does not go
/// in.
pub proof fn law_reserves_follow_swap(
    pool: PoolState,
    token_in: Address,
    amount_in: i128,
    amount_out: i128,
    other: Address,
    swapped: Result<PoolState, Error>,
)
    requires
        token_in == pool.token_0 || token_in == pool.token_1,
        call_ensures(PoolState::counterpart, (&pool, &token_in), other),
        call_ensures(PoolState::swap, (&pool, &token_in, amount_in, amount_out), swapped),
    ensures
        token_in == pool.token_0 ==> {
            &&& other == pool.token_1
            &&& swapped is Ok <==> fits(pool.reserve_0 + amount_in) && fits(
                pool.reserve_1 - amount_out,
            )
            &&& swapped matches Ok(next) ==> next.reserve_0 == pool.reserve_0 + amount_in
                && next.reserve_1 == pool.reserve_1 - amount_out
        },
        token_in != pool.token_0 ==> {
            &&& other == pool.token_0
            &&& swapped is Ok <==> fits(pool.reserve_1 + amount_in) && fits(
                pool.reserve_0 - amount_out,
            )
            &&& swapped matches Ok(next) ==> next.reserve_1 == pool.reserve_1 + amount_in
                && next.reserve_0 == pool.reserve_0 - amount_out
        },
        swapped matches Err(e) ==> e == Error::ArithmeticOverflow,
        swapped matches Ok(next) ==> next.token_0 == pool.token_0 && next.token_1 == pool.token_1
            && next.fee_bps == pool.fee_bps,
{
}

// ---------------------------------------------------------------------------
// Liquidity in
// ---------------------------------------------------------------------------

/// An offer is an invalid amount exactly where one side of it is nothing.
pub proof fn law_quote_of_invalid_offer(
    pool: PoolState,
    total_lp: i128,
    offer_0: i128,
    offer_1: i128,
    terms: Result<(i128, i128, i128), Error>,
)
    requires
        call_ensures(PoolState::quote_deposit, (&pool, total_lp, offer_0, offer_1), terms),
    ensures
        terms == Err::<(i128, i128, i128), Error>(Error::InvalidAmount) <==> offer_0 <= 0
            || offer_1 <= 0,
{
}

/// While no liquidity token is in circulation, an offer is taken whole, for the
/// square root of the product of its sides, rounded down, unless that product
/// does not fit.
pub proof fn law_quote_of_first_deposit(
    pool: PoolState,
    offer_0: i128,
    offer_1: i128,
    terms: Result<(i128, i128, i128), Error>,
)
    requires
        0 < offer_0,
        0 < offer_1,
        call_ensures(PoolState::quote_deposit, (&pool, 0i128, offer_0, offer_1), terms),
    ensures
        terms is Ok <==> fits(offer_0 * offer_1),
        terms matches Err(e) ==> e == Error::ArithmeticOverflow,
        terms matches Ok((amount_0, amount_1, lp_minted)) ==> {
            &&& amount_0 == offer_0
            &&& amount_1 == offer_1
            &&& 0 < lp_minted
            &&& lp_minted * lp_minted <= offer_0 * offer_1 < (lp_minted + 1) * (lp_minted + 1)
        },
{
    lemma_root_of_product(offer_0 as int, offer_1 as int);
}

/// The amounts that a pool with these reserves takes of an offer. Either the
/// first side whole, and of the second the most that does not exceed its
/// proportion, where that much of it is offered; or the second side whole, and
/// of the first the most that does not exceed its proportion.
pub open spec fn in_proportion(
    reserve_0: int,
    reserve_1: int,
    offer_0: int,
    offer_1: int,
    amount_0: int,
    amount_1: int,
) -> bool {
    if offer_0 * reserve_1 < (offer_1 + 1) * reserve_0 {
        amount_0 == offer_0 && amount_1 * reserve_0 <= offer_0 * reserve_1 < (amount_1 + 1)
            * reserve_0
    } else {
        amount_1 == offer_1 && amount_0 * reserve_1 <= offer_1 * reserve_0 < (amount_0 + 1)
            * reserve_1
    }
}

/// `lp` is the most liquidity tokens that can be given for the two amounts
/// without making those in circulation worth less of either reserve.
pub open spec fn most_without_dilution(
    reserve_0: int,
    reserve_1: int,
    total_lp: int,
    amount_0: int,
    amount_1: int,
    lp: int,
) -> bool {
    &&& lp * reserve_0 <= amount_0 * total_lp
    &&& lp * reserve_1 <= amount_1 * total_lp
    &&& (lp + 1) * reserve_0 > amount_0 * total_lp || (lp + 1) * reserve_1 > amount_1 * total_lp
}

/// In a pool with liquidity, an offer is taken in proportion, for the most
/// liquidity tokens that do not dilute. It is refused where a product that this
/// takes does not fit, and otherwise only where it is not worth a liquidity
/// token.
pub proof fn law_quote_deposit(
    pool: PoolState,
    total_lp: i128,
    offer_0: i128,
    offer_1: i128,
    amount_0: i128,
    amount_1: i128,
    lp: int,
    terms: Result<(i128, i128, i128), Error>,
)
    requires
        0 < pool.reserve_0,
        0 < pool.reserve_1,
        0 < total_lp,
        0 < offer_0,
        0 < offer_1,
        in_proportion(
            pool.reserve_0 as int,
            pool.reserve_1 as int,
            offer_0 as int,
            offer_1 as int,
            amount_0 as int,
            amount_1 as int,
        ),
        most_without_dilution(
            pool.reserve_0 as int,
            pool.reserve_1 as int,
            total_lp as int,
            amount_0 as int,
            amount_1 as int,
            lp,
        ),
        call_ensures(PoolState::quote_deposit, (&pool, total_lp, offer_0, offer_1), terms),
    ensures
        0 <= amount_0 <= offer_0,
        0 <= amount_1 <= offer_1,
        ({
            let all_fit = fits(offer_0 * pool.reserve_1) && (offer_0 * pool.reserve_1 >= (offer_1
                + 1) * pool.reserve_0 ==> fits(offer_1 * pool.reserve_0)) && fits(
                amount_0 * total_lp,
            ) && fits(amount_1 * total_lp);
            &&& terms == Err::<(i128, i128, i128), Error>(Error::ArithmeticOverflow) <==> !all_fit
            &&& terms == Err::<(i128, i128, i128), Error>(Error::ZeroLiquidity) <==> all_fit && lp
                == 0
            &&& terms is Ok <==> all_fit && lp > 0
        }),
        terms matches Ok(granted) ==> granted.0 == amount_0 && granted.1 == amount_1 && granted.2
            == lp,
{
    let r0 = pool.reserve_0 as int;
    let r1 = pool.reserve_1 as int;
    let t = total_lp as int;
    lemma_matching(r0, r1, offer_0 as int, offer_1 as int);
    lemma_quotient_bounds(offer_0 * r1, r0);
    lemma_quotient_bounds(offer_1 * r0, r1);
    if offer_0 * r1 < (offer_1 + 1) * r0 {
        lemma_rounded_down(offer_0 * r1, r0, amount_1 as int);
    } else {
        lemma_rounded_down(offer_1 * r0, r1, amount_0 as int);
    }
    lemma_products_are_natural(amount_0 as int, amount_1 as int, t);
    lemma_least_share(r0, r1, amount_0 * t, amount_1 * t, lp);
    lemma_quotient_bounds(amount_0 * t, r0);
    lemma_quotient_bounds(amount_1 * t, r1);
}

proof fn lemma_products_are_natural(x: int, y: int, t: int)
    by (nonlinear_arith)
    requires
        0 <= x,
        0 <= y,
        0 <= t,
    ensures
        0 <= x * t,
        0 <= y * t,
{
}

/// The most that either side allows is the lesser of the two quotients.
proof fn lemma_least_share(r0: int, r1: int, worth_0: int, worth_1: int, lp: int)
    requires
        0 < r0,
        0 < r1,
        0 <= worth_0,
        0 <= worth_1,
    ensures
        ({
            let share_0 = quotient(worth_0, r0);
            let share_1 = quotient(worth_1, r1);
            (lp * r0 <= worth_0 && lp * r1 <= worth_1 && ((lp + 1) * r0 > worth_0 || (lp + 1) * r1
                > worth_1)) <==> lp == if share_0 <= share_1 { share_0 } else { share_1 }
        }),
{
    let share_0 = quotient(worth_0, r0);
    let share_1 = quotient(worth_1, r1);
    lemma_quotient_bounds(worth_0, r0);
    lemma_quotient_bounds(worth_1, r1);
    lemma_at_most_quotient(worth_0, r0, share_0, lp);
    lemma_at_most_quotient(worth_0, r0, share_0, lp + 1);
    lemma_at_most_quotient(worth_1, r1, share_1, lp);
    lemma_at_most_quotient(worth_1, r1, share_1, lp + 1);
}

/// With liquidity tokens in circulation and an empty reserve there is no
/// proportion to keep.
pub proof fn law_quote_without_reserves(
    pool: PoolState,
    total_lp: i128,
    offer_0: i128,
    offer_1: i128,
    terms: Result<(i128, i128, i128), Error>,
)
    requires
        pool.reserve_0 == 0 || pool.reserve_1 == 0,
        total_lp != 0,
        0 < offer_0,
        0 < offer_1,
        call_ensures(PoolState::quote_deposit, (&pool, total_lp, offer_0, offer_1), terms),
    ensures
        terms == Err::<(i128, i128, i128), Error>(Error::ArithmeticOverflow),
{
    if pool.reserve_0 != 0 {
        assert(offer_0 * pool.reserve_1 == 0) by (nonlinear_arith)
            requires
                pool.reserve_1 == 0,
        ;
        law_quotient(0, pool.reserve_0 as int);
        assert(rounds_to(0, pool.reserve_0 as int, 0));
    }
}

/// What an offer is answered whatever a pool holds, reserves and liquidity
/// tokens below zero included. Every quotient is rounded towards zero.
pub proof fn law_quote_deposit_in_any_state(
    pool: PoolState,
    total_lp: i128,
    offer_0: i128,
    offer_1: i128,
    wanted_0: int,
    wanted_1: int,
    share_0: int,
    share_1: int,
    terms: Result<(i128, i128, i128), Error>,
)
    requires
        total_lp != 0,
        0 < offer_0,
        0 < offer_1,
        rounds_to(offer_0 * pool.reserve_1, pool.reserve_0 as int, wanted_1),
        rounds_to(offer_1 * pool.reserve_0, pool.reserve_1 as int, wanted_0),
        rounds_to(
            (if wanted_1 <= offer_1 { offer_0 as int } else { wanted_0 }) * total_lp,
            pool.reserve_0 as int,
            share_0,
        ),
        rounds_to(
            (if wanted_1 <= offer_1 { wanted_1 } else { offer_1 as int }) * total_lp,
            pool.reserve_1 as int,
            share_1,
        ),
        call_ensures(PoolState::quote_deposit, (&pool, total_lp, offer_0, offer_1), terms),
    ensures
        ({
            let amount_0 = if wanted_1 <= offer_1 { offer_0 as int } else { wanted_0 };
            let amount_1 = if wanted_1 <= offer_1 { wanted_1 } else { offer_1 as int };
            let all_fit = fits(offer_0 * pool.reserve_1) && fits(wanted_1) && (offer_1 < wanted_1
                ==> fits(offer_1 * pool.reserve_0) && fits(wanted_0)) && fits(amount_0 * total_lp)
                && fits(amount_1 * total_lp) && fits(share_0) && fits(share_1);
            &&& terms == Err::<(i128, i128, i128), Error>(Error::ArithmeticOverflow) <==> !all_fit
            &&& terms == Err::<(i128, i128, i128), Error>(Error::ZeroLiquidity) <==> all_fit && (
            share_0 <= 0 || share_1 <= 0)
            &&& terms is Ok <==> all_fit && share_0 > 0 && share_1 > 0
            &&& terms matches Ok((taken_0, taken_1, lp_minted)) ==> {
                &&& taken_0 == amount_0
                &&& taken_1 == amount_1
                &&& lp_minted <= share_0
                &&& lp_minted <= share_1
                &&& lp_minted == share_0 || lp_minted == share_1
            }
        }),
{
    let r0 = pool.reserve_0 as int;
    let r1 = pool.reserve_1 as int;
    law_quotient(offer_0 * r1, r0);
    law_quotient(offer_1 * r0, r1);
    let amount_0 = if wanted_1 <= offer_1 { offer_0 as int } else { wanted_0 };
    let amount_1 = if wanted_1 <= offer_1 { wanted_1 } else { offer_1 as int };
    law_quotient(amount_0 * total_lp, r0);
    law_quotient(amount_1 * total_lp, r1);
}

/// A deposit is answered on the terms quoted for it. It is authorized by the
/// provider; then the liquidity tokens are minted to the provider, either amount
/// goes from the provider to the contract, the pool is stored with either
/// amount added to its reserve, and the deposit is announced. Where a reserve
/// would not fit, the call fails after the transfers.
pub proof fn law_add_liquidity(
    pool: PoolState,
    total_lp: i128,
    contract: Address,
    provider: Address,
    offer_0: i128,
    offer_1: i128,
    terms: Result<(i128, i128, i128), Error>,
    plan: Plan<(i128, i128, i128)>,
)
    requires
        call_ensures(PoolState::quote_deposit, (&pool, total_lp, offer_0, offer_1), terms),
        call_ensures(
            LyraSwap::add_liquidity,
            (Some(pool), total_lp, contract, provider, offer_0, offer_1),
            plan,
        ),
    ensures
        terms is Err ==> plan.outcome == terms && plan.effects@ == seq![
            Effect::RequireAuth(provider),
        ],
        terms matches Ok((amount_0, amount_1, lp_minted)) ==> {
            let moved = seq![
                Effect::RequireAuth(provider),
                Effect::MintLp { to: provider, amount: lp_minted },
                Effect::Transfer {
                    token: pool.token_0,
                    from: provider,
                    to: contract,
                    amount: amount_0,
                },
                Effect::Transfer {
                    token: pool.token_1,
                    from: provider,
                    to: contract,
                    amount: amount_1,
                },
            ];
            if fits(pool.reserve_0 + amount_0) && fits(pool.reserve_1 + amount_1) {
                &&& plan.outcome == terms
                &&& plan.effects@ == moved + seq![
                    Effect::StoreState(
                        PoolState {
                            token_0: pool.token_0,
                            token_1: pool.token_1,
                            reserve_0: (pool.reserve_0 + amount_0) as i128,
                            reserve_1: (pool.reserve_1 + amount_1) as i128,
                            fee_bps: pool.fee_bps,
                        },
                    ),
                    Effect::PublishLiquidityAdded(
                        LiquidityAdded { provider, amount_0, amount_1, lp_minted },
                    ),
                ]
            } else {
                &&& plan.outcome == Err::<(i128, i128, i128), Error>(Error::ArithmeticOverflow)
                &&& plan.effects@ == moved
            }
        },
{
}

/// A deposit that is granted into a pool with liquidity takes the offer in
/// proportion and mints the most liquidity tokens that do not dilute, at least
/// one. The first deposit takes the offer whole and mints the square root of
/// the product of its sides, rounded down.
pub proof fn law_granted_deposit(
    pool: PoolState,
    total_lp: i128,
    contract: Address,
    provider: Address,
    offer_0: i128,
    offer_1: i128,
    plan: Plan<(i128, i128, i128)>,
)
    requires
        call_ensures(
            LyraSwap::add_liquidity,
            (Some(pool), total_lp, contract, provider, offer_0, offer_1),
            plan,
        ),
        plan.outcome is Ok,
    ensures
        0 < offer_0,
        0 < offer_1,
        ({
            let (amount_0, amount_1, lp_minted) = plan.outcome->Ok_0;
            &&& 0 < lp_minted
            &&& total_lp == 0 ==> {
                &&& amount_0 == offer_0
                &&& amount_1 == offer_1
                &&& lp_minted * lp_minted <= offer_0 * offer_1 < (lp_minted + 1) * (lp_minted + 1)
            }
            &&& 0 < total_lp && 0 < pool.reserve_0 && 0 < pool.reserve_1 ==> {
                &&& 0 < amount_0 <= offer_0
                &&& 0 < amount_1 <= offer_1
                &&& in_proportion(
                    pool.reserve_0 as int,
                    pool.reserve_1 as int,
                    offer_0 as int,
                    offer_1 as int,
                    amount_0 as int,
                    amount_1 as int,
                )
                &&& most_without_dilution(
                    pool.reserve_0 as int,
                    pool.reserve_1 as int,
                    total_lp as int,
                    amount_0 as int,
                    amount_1 as int,
                    lp_minted as int,
                )
            }
        }),
{
    let (amount_0, amount_1, lp_minted) = plan.outcome->Ok_0;
    if total_lp == 0 {
        lemma_root_of_product(offer_0 as int, offer_1 as int);
    } else if 0 < total_lp && 0 < pool.reserve_0 && 0 < pool.reserve_1 {
        let r0 = pool.reserve_0 as int;
        let r1 = pool.reserve_1 as int;
        let t = total_lp as int;
        lemma_matching(r0, r1, offer_0 as int, offer_1 as int);
        lemma_quotient_bounds(offer_0 * r1, r0);
        lemma_quotient_bounds(offer_1 * r0, r1);
        lemma_products_are_natural(amount_0 as int, amount_1 as int, t);
        lemma_least_share(r0, r1, amount_0 * t, amount_1 * t, lp_minted as int);
        assert(0 < amount_0 && 0 < amount_1) by (nonlinear_arith)
            requires
                lp_minted * r0 <= amount_0 * t,
                lp_minted * r1 <= amount_1 * t,
                0 < lp_minted,
                0 < r0,
                0 < r1,
                0 < t,
        ;
    }
}

// ---------------------------------------------------------------------------
// Liquidity out
// ---------------------------------------------------------------------------

/// Liquidity tokens are worth their share of either reserve, rounded towards
/// zero, whatever the pool holds. There is no answer where none are in
/// circulation, or where a product or a share does not fit.
pub proof fn law_quote_withdrawal(
    pool: PoolState,
    total_lp: i128,
    lp_amount: i128,
    share_0: int,
    share_1: int,
    terms: Result<(i128, i128), Error>,
)
    requires
        total_lp != 0 ==> rounds_to(lp_amount * pool.reserve_0, total_lp as int, share_0),
        total_lp != 0 ==> rounds_to(lp_amount * pool.reserve_1, total_lp as int, share_1),
        call_ensures(PoolState::quote_withdrawal, (&pool, total_lp, lp_amount), terms),
    ensures
        terms is Ok <==> total_lp != 0 && fits(lp_amount * pool.reserve_0) && fits(
            lp_amount * pool.reserve_1,
        ) && fits(share_0) && fits(share_1),
        terms matches Ok((amount_0, amount_1)) ==> amount_0 == share_0 && amount_1 == share_1,
        terms matches Err(e) ==> e == Error::ArithmeticOverflow,
{
    if total_lp != 0 {
        law_quotient(lp_amount * pool.reserve_0, total_lp as int);
        law_quotient(lp_amount * pool.reserve_1, total_lp as int);
    }
}

/// A withdrawal is refused as an invalid amount exactly where it turns nothing
/// in, and for want of liquidity tokens exactly where the provider holds fewer.
/// Neither asks anything of the ledger.
pub proof fn law_invalid_withdrawal(
    pool: PoolState,
    user_lp: i128,
    total_lp: i128,
    contract: Address,
    provider: Address,
    lp_amount: i128,
    min_amount_0: i128,
    min_amount_1: i128,
    plan: Plan<(i128, i128)>,
)
    requires
        call_ensures(
            LyraSwap::remove_liquidity,
            (
                Some(pool),
                user_lp,
                total_lp,
                contract,
                provider,
                lp_amount,
                min_amount_0,
                min_amount_1,
            ),
            plan,
        ),
    ensures
        plan.outcome == Err::<(i128, i128), Error>(Error::InvalidAmount) <==> lp_amount <= 0,
        plan.outcome == Err::<(i128, i128), Error>(Error::InsufficientLpBalance) <==> 0 < lp_amount
            && user_lp < lp_amount,
        lp_amount <= 0 || user_lp < lp_amount ==> plan.effects@ == Seq::<Effect>::empty(),
{
}

/// What a provider who holds the liquidity tokens is answered, whatever the
/// pool holds. The share of each token is held against the minimum for that
/// token, and against nothing else. Where both suffice, the liquidity tokens
/// are burnt, either share goes from the contract to the provider, the pool is
/// stored with either share taken off its reserve, and the withdrawal is
/// announced. Where a reserve would not fit, the call fails after the
/// transfers.
pub proof fn law_remove_liquidity(
    pool: PoolState,
    user_lp: i128,
    total_lp: i128,
    contract: Address,
    provider: Address,
    lp_amount: i128,
    min_amount_0: i128,
    min_amount_1: i128,
    share_0: int,
    share_1: int,
    plan: Plan<(i128, i128)>,
)
    requires
        0 < lp_amount <= user_lp,
        total_lp != 0 ==> rounds_to(lp_amount * pool.reserve_0, total_lp as int, share_0),
        total_lp != 0 ==> rounds_to(lp_amount * pool.reserve_1, total_lp as int, share_1),
        call_ensures(
            LyraSwap::remove_liquidity,
            (
                Some(pool),
                user_lp,
                total_lp,
                contract,
                provider,
                lp_amount,
                min_amount_0,
                min_amount_1,
            ),
            plan,
        ),
    ensures
        ({
            let worth_something = total_lp != 0 && fits(lp_amount * pool.reserve_0) && fits(
                lp_amount * pool.reserve_1,
            ) && fits(share_0) && fits(share_1);
            let moved = seq![
                Effect::BurnLp { from: provider, amount: lp_amount },
                Effect::Transfer {
                    token: pool.token_0,
                    from: contract,
                    to: provider,
                    amount: share_0 as i128,
                },
                Effect::Transfer {
                    token: pool.token_1,
                    from: contract,
                    to: provider,
                    amount: share_1 as i128,
                },
            ];
            if !worth_something {
                &&& plan.outcome == Err::<(i128, i128), Error>(Error::ArithmeticOverflow)
                &&& plan.effects@ == Seq::<Effect>::empty()
            } else if share_0 < min_amount_0 || share_1 < min_amount_1 {
                &&& plan.outcome == Err::<(i128, i128), Error>(Error::SlippageExceeded)
                &&& plan.effects@ == Seq::<Effect>::empty()
            } else if !fits(pool.reserve_0 - share_0) || !fits(pool.reserve_1 - share_1) {
                &&& plan.outcome == Err::<(i128, i128), Error>(Error::ArithmeticOverflow)
                &&& plan.effects@ == moved
            } else {
                &&& plan.outcome == Ok::<(i128, i128), Error>((share_0 as i128, share_1 as i128))
                &&& plan.effects@ == moved + seq![
                    Effect::StoreState(
                        PoolState {
                            token_0: pool.token_0,
                            token_1: pool.token_1,
                            reserve_0: (pool.reserve_0 - share_0) as i128,
                            reserve_1: (pool.reserve_1 - share_1) as i128,
                            fee_bps: pool.fee_bps,
                        },
                    ),
                    Effect::PublishLiquidityRemoved(
                        LiquidityRemoved {
                            provider,
                            amount_0: share_0 as i128,
                            amount_1: share_1 as i128,
                            lp_burned: lp_amount,
                        },
                    ),
                ]
            }
        }),
{
    if total_lp != 0 {
        law_quotient(lp_amount * pool.reserve_0, total_lp as int);
        law_quotient(lp_amount * pool.reserve_1, total_lp as int);
    }
}

/// A provider who turns in liquidity tokens that they hold and that are in
/// circulation gets exactly their share of either reserve, rounded down, if and
/// only if that meets the minimum asked for of each token. Slippage is the only
/// other answer, where the products fit.
pub proof fn law_withdrawal_is_granted_by_its_minimums(
    pool: PoolState,
    user_lp: i128,
    total_lp: i128,
    contract: Address,
    provider: Address,
    lp_amount: i128,
    min_amount_0: i128,
    min_amount_1: i128,
    plan: Plan<(i128, i128)>,
)
    requires
        0 <= pool.reserve_0,
        0 <= pool.reserve_1,
        0 < lp_amount <= user_lp <= total_lp,
        fits(lp_amount * pool.reserve_0),
        fits(lp_amount * pool.reserve_1),
        call_ensures(
            LyraSwap::remove_liquidity,
            (
                Some(pool),
                user_lp,
                total_lp,
                contract,
                provider,
                lp_amount,
                min_amount_0,
                min_amount_1,
            ),
            plan,
        ),
    ensures
        plan.outcome is Ok <==> min_amount_0 * total_lp <= lp_amount * pool.reserve_0
            && min_amount_1 * total_lp <= lp_amount * pool.reserve_1,
        plan.outcome matches Err(e) ==> e == Error::SlippageExceeded,
        plan.outcome matches Ok((amount_0, amount_1)) ==> {
            &&& amount_0 * total_lp <= lp_amount * pool.reserve_0 < (amount_0 + 1) * total_lp
            &&& amount_1 * total_lp <= lp_amount * pool.reserve_1 < (amount_1 + 1) * total_lp
        },
{
    let t = total_lp as int;
    let lp = lp_amount as int;
    lemma_share_of_reserve(pool.reserve_0 as int, t, lp);
    lemma_share_of_reserve(pool.reserve_1 as int, t, lp);
    let share_0 = quotient(lp * pool.reserve_0, t);
    let share_1 = quotient(lp * pool.reserve_1, t);
    lemma_at_most_quotient(lp * pool.reserve_0, t, share_0, min_amount_0 as int);
    lemma_at_most_quotient(lp * pool.reserve_1, t, share_1, min_amount_1 as int);
}

// ---------------------------------------------------------------------------
// Swaps
// ---------------------------------------------------------------------------

/// A swap is an invalid amount exactly where nothing is paid in, or a token
/// that is not the pool's; and lacks liquidity exactly where the pool has
/// nothing of the other token.
pub proof fn law_invalid_swap(
    pool: PoolState,
    contract: Address,
    trader: Address,
    token_in: Address,
    amount_in: i128,
    min_amount_out: i128,
    quoted: Result<i128, Error>,
    plan: Plan<i128>,
)
    requires
        call_ensures(PoolState::quote_swap, (&pool, &token_in, amount_in), quoted),
        call_ensures(
            LyraSwap::swap_exact_in,
            (Some(pool), contract, trader, token_in, amount_in, min_amount_out),
            plan,
        ),
    ensures
        ({
            let invalid = amount_in <= 0 || (token_in != pool.token_0 && token_in != pool.token_1);
            let dry = if token_in == pool.token_0 {
                pool.reserve_1 <= 0
            } else {
                pool.reserve_0 <= 0
            };
            &&& quoted == Err::<i128, Error>(Error::InvalidAmount) <==> invalid
            &&& plan.outcome == Err::<i128, Error>(Error::InvalidAmount) <==> invalid
            &&& quoted == Err::<i128, Error>(Error::InsufficientLiquidity) <==> !invalid && dry
            &&& plan.outcome == Err::<i128, Error>(Error::InsufficientLiquidity) <==> !invalid
                && dry
            &&& invalid || dry ==> plan.effects@ == seq![Effect::RequireAuth(trader)]
        }),
{
}

/// What a swap of one of the pool's tokens is answered, whatever the pool
/// holds. The amount after the fee is paid out of the other reserve in the
/// proportion of it to what the reserve paid into comes to, rounded towards
/// zero, and that is held against the minimum. Where it suffices, the amount in
/// goes from the trader to the contract, the amount out of the other token from
/// the contract to the trader, the pool is stored with both reserves changed
/// accordingly, and the swap is announced. Where a reserve would not fit, the
/// call fails after the transfers.
pub proof fn law_swap_exact_in(
    pool: PoolState,
    contract: Address,
    trader: Address,
    token_in: Address,
    amount_in: i128,
    min_amount_out: i128,
    paid: int,
    quoted: Result<i128, Error>,
    plan: Plan<i128>,
)
    requires
        0 < amount_in,
        token_in == pool.token_0 || token_in == pool.token_1,
        token_in == pool.token_0 ==> 0 < pool.reserve_1,
        token_in != pool.token_0 ==> 0 < pool.reserve_0,
        ({
            let (reserve_in, reserve_out) = if token_in == pool.token_0 {
                (pool.reserve_0, pool.reserve_1)
            } else {
                (pool.reserve_1, pool.reserve_0)
            };
            let after_fee = amount_in * (10_000 - pool.fee_bps);
            reserve_in * 10_000 + after_fee != 0 ==> rounds_to(
                after_fee * reserve_out,
                reserve_in * 10_000 + after_fee,
                paid,
            )
        }),
        call_ensures(PoolState::quote_swap, (&pool, &token_in, amount_in), quoted),
        call_ensures(
            LyraSwap::swap_exact_in,
            (Some(pool), contract, trader, token_in, amount_in, min_amount_out),
            plan,
        ),
    ensures
        ({
            let (reserve_in, reserve_out) = if token_in == pool.token_0 {
                (pool.reserve_0, pool.reserve_1)
            } else {
                (pool.reserve_1, pool.reserve_0)
            };
            let token_out = if token_in == pool.token_0 { pool.token_1 } else { pool.token_0 };
            let after_fee = amount_in * (10_000 - pool.fee_bps);
            let computable = fits(after_fee) && fits(after_fee * reserve_out) && fits(
                reserve_in * 10_000,
            ) && fits(reserve_in * 10_000 + after_fee) && reserve_in * 10_000 + after_fee != 0
                && fits(paid);
            let moved = seq![
                Effect::RequireAuth(trader),
                Effect::Transfer { token: token_in, from: trader, to: contract, amount: amount_in },
                Effect::Transfer {
                    token: token_out,
                    from: contract,
                    to: trader,
                    amount: paid as i128,
                },
            ];
            let next_in = reserve_in + amount_in;
            let next_out = reserve_out - paid;
            &&& quoted == if computable {
                Ok::<i128, Error>(paid as i128)
            } else {
                Err::<i128, Error>(Error::ArithmeticOverflow)
            }
            &&& if !computable {
                &&& plan.outcome == Err::<i128, Error>(Error::ArithmeticOverflow)
                &&& plan.effects@ == seq![Effect::RequireAuth(trader)]
            } else if paid < min_amount_out {
                &&& plan.outcome == Err::<i128, Error>(Error::SlippageExceeded)
                &&& plan.effects@ == seq![Effect::RequireAuth(trader)]
            } else if !fits(next_in) || !fits(next_out) {
                &&& plan.outcome == Err::<i128, Error>(Error::ArithmeticOverflow)
                &&& plan.effects@ == moved
            } else {
                &&& plan.outcome == Ok::<i128, Error>(paid as i128)
                &&& plan.effects@ == moved + seq![
                    Effect::StoreState(
                        PoolState {
                            token_0: pool.token_0,
                            token_1: pool.token_1,
                            reserve_0: (if token_in == pool.token_0 { next_in } else { next_out }) as i128,
                            reserve_1: (if token_in == pool.token_0 { next_out } else { next_in }) as i128,
                            fee_bps: pool.fee_bps,
                        },
                    ),
                    Effect::PublishSwapExactIn(
                        SwapExactInEvent {
                            token_in,
                            token_out,
                            trader,
                            amount_in,
                            amount_out: paid as i128,
                            fee_bps: pool.fee_bps,
                        },
                    ),
                ]
            }
        }),
{
    let (reserve_in, reserve_out) = if token_in == pool.token_0 {
        (pool.reserve_0, pool.reserve_1)
    } else {
        (pool.reserve_1, pool.reserve_0)
    };
    let after_fee = amount_in * (10_000 - pool.fee_bps);
    if reserve_in * 10_000 + after_fee != 0 {
        law_quotient(after_fee * reserve_out, reserve_in * 10_000 + after_fee);
    }
}

/// A swap in a pool with liquidity pays the most that the constant product rule
/// allows after the fee, if and only if that is at least the minimum asked for.
/// Slippage is the only other answer, where the products fit.
pub proof fn law_swap_is_granted_by_its_minimum(
    pool: PoolState,
    contract: Address,
    trader: Address,
    token_in: Address,
    amount_in: i128,
    min_amount_out: i128,
    plan: Plan<i128>,
)
    requires
        0 < pool.reserve_0,
        0 < pool.reserve_1,
        pool.fee_bps <= 300,
        0 < amount_in,
        token_in == pool.token_0 || token_in == pool.token_1,
        ({
            let (reserve_in, reserve_out) = if token_in == pool.token_0 {
                (pool.reserve_0, pool.reserve_1)
            } else {
                (pool.reserve_1, pool.reserve_0)
            };
            let after_fee = amount_in * (10_000 - pool.fee_bps);
            fits(after_fee * reserve_out) && fits(reserve_in * 10_000 + after_fee)
        }),
        call_ensures(
            LyraSwap::swap_exact_in,
            (Some(pool), contract, trader, token_in, amount_in, min_amount_out),
            plan,
        ),
    ensures
        ({
            let (reserve_in, reserve_out) = if token_in == pool.token_0 {
                (pool.reserve_0, pool.reserve_1)
            } else {
                (pool.reserve_1, pool.reserve_0)
            };
            let after_fee = amount_in * (10_000 - pool.fee_bps);
            let whole = reserve_in * 10_000 + after_fee;
            &&& plan.outcome is Ok <==> min_amount_out * whole <= after_fee * reserve_out
            &&& plan.outcome matches Err(e) ==> e == Error::SlippageExceeded
            &&& plan.outcome matches Ok(amount_out) ==> amount_out * whole <= after_fee
                * reserve_out < (amount_out + 1) * whole
        }),
{
    let (reserve_in, reserve_out) = if token_in == pool.token_0 {
        (pool.reserve_0, pool.reserve_1)
    } else {
        (pool.reserve_1, pool.reserve_0)
    };
    let multiplier = 10_000 - pool.fee_bps;
    let after_fee = amount_in * multiplier;
    let whole = reserve_in * 10_000 + after_fee;
    assert(amount_in <= after_fee && 0 < after_fee * reserve_out && after_fee <= after_fee
        * reserve_out) by (nonlinear_arith)
        requires
            after_fee == amount_in * multiplier,
            0 < amount_in,
            1 <= multiplier,
            0 < reserve_out,
    ;
    let paid = quotient(after_fee * reserve_out, whole);
    lemma_quotient_bounds(after_fee * reserve_out, whole);
    assert(paid < reserve_out) by (nonlinear_arith)
        requires
            paid * whole <= after_fee * reserve_out,
            after_fee < whole,
            0 < after_fee,
            0 < reserve_out,
    ;
    lemma_at_most_quotient(after_fee * reserve_out, whole, paid, min_amount_out as int);
}

// ---------------------------------------------------------------------------
// Announcements
// ---------------------------------------------------------------------------

/// The announcement of a deposit or a withdrawal says what was moved, by whom,
/// and how many liquidity tokens are in circulation at that point.
pub proof fn law_announcements_say_what_happened(
    added: LiquidityAdded,
    removed: LiquidityRemoved,
    total_lp: i128,
    of_added: LiquidityAddedEvent,
    of_removed: LiquidityRemovedEvent,
)
    requires
        call_ensures(LiquidityAdded::event, (&added, total_lp), of_added),
        call_ensures(LiquidityRemoved::event, (&removed, total_lp), of_removed),
    ensures
        of_added.provider == added.provider,
        of_added.amount_0 == added.amount_0,
        of_added.amount_1 == added.amount_1,
        of_added.lp_minted == added.lp_minted,
        of_added.total_lp == total_lp,
        of_removed.provider == removed.provider,
        of_removed.amount_0 == removed.amount_0,
        of_removed.amount_1 == removed.amount_1,
        of_removed.lp_burned == removed.lp_burned,
        of_removed.total_lp == total_lp,
{
}

} // verus!
