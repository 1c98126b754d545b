//! The pool itself: what it holds, on which terms liquidity enters and leaves
//! it, what a swap pays out, and how each of these moves the reserves.

use vstd::prelude::*;

use crate::address::Address;
use crate::error::Error;
use crate::math::{
    checked_difference, checked_division, checked_product, checked_sum, integer_sqrt, mul_div,
};
#[allow(unused_imports)]
use crate::math::{
    checked, checked_quotient, checked_ratio, fits, floor_sqrt, is_floor_sqrt,
    lemma_floor_sqrt_unique,
};

verus! {

/// Basis points in the whole.
pub const BPS_DENOMINATOR: i128 = 10_000;

/// The highest swap fee a pool may charge, in basis points.
pub const MAX_FEE_BPS: u32 = 300;

/// A pool of two tokens, ordered by address, and the fee it charges.
#[derive(Copy, Clone, Debug, PartialEq, Eq)]
pub struct PoolState {
    pub token_0: Address,
    pub token_1: Address,
    pub reserve_0: i128,
    pub reserve_1: i128,
    pub fee_bps: u32,
}

impl PoolState {
    /// What holds of every pool: its tokens are in order, its fee is within
    /// the limit, and its reserves are both empty or both filled.
    pub open spec fn wf(self) -> bool {
        &&& self.token_0.precedes(self.token_1)
        &&& self.fee_bps <= MAX_FEE_BPS
        &&& 0 <= self.reserve_0
        &&& 0 <= self.reserve_1
        &&& (self.reserve_0 == 0 <==> self.reserve_1 == 0)
    }

    /// Liquidity tokens are only in circulation where the pool has reserves
    /// for them.
    pub open spec fn backs(self, total_lp: int) -> bool {
        &&& 0 <= total_lp
        &&& 0 < total_lp ==> 0 < self.reserve_0 && 0 < self.reserve_1
    }

    /// The pool of `token_a` and `token_b` as it is opened: empty, its tokens
    /// in order.
    pub open spec fn opened(token_a: Address, token_b: Address, fee_bps: u32) -> PoolState {
        PoolState {
            token_0: if token_a.precedes(token_b) { token_a } else { token_b },
            token_1: if token_a.precedes(token_b) { token_b } else { token_a },
            reserve_0: 0,
            reserve_1: 0,
            fee_bps,
        }
    }

    /// Opens a pool of two tokens, given in any order.
    pub fn open_pool(token_a: Address, token_b: Address, fee_bps: u32) -> (pool: Result<PoolState, Error>)
        ensures
            pool == if token_a == token_b {
                Err(Error::IdenticalTokens)
            } else if fee_bps > MAX_FEE_BPS {
                Err(Error::InvalidFee)
            } else {
                Ok(PoolState::opened(token_a, token_b, fee_bps))
            },
    {
        if token_a == token_b {
            return Err(Error::IdenticalTokens);
        }
        if fee_bps > MAX_FEE_BPS {
            return Err(Error::InvalidFee);
        }
        let (token_0, token_1) = if token_a < token_b {
            (token_a, token_b)
        } else {
            (token_b, token_a)
        };
        Ok(PoolState { token_0, token_1, reserve_0: 0, reserve_1: 0, fee_bps })
    }
}

// ---------------------------------------------------------------------------
// Liquidity in
// ---------------------------------------------------------------------------

/// How much of an offer a filled pool takes: all of one side, and of the other
/// as much as keeps the proportion of the reserves.
pub open spec fn matched_amounts(pool: PoolState, offer_0: int, offer_1: int) -> Result<
    (i128, i128),
    Error,
> {
    match checked_ratio(offer_0, pool.reserve_1 as int, pool.reserve_0 as int) {
        Err(e) => Err(e),
        Ok(wanted_1) => if offer_1 >= wanted_1 {
            Ok((offer_0 as i128, wanted_1))
        } else {
            match checked_ratio(offer_1, pool.reserve_0 as int, pool.reserve_1 as int) {
                Err(e) => Err(e),
                Ok(wanted_0) => Ok((wanted_0, offer_1 as i128)),
            }
        },
    }
}

/// How many liquidity tokens a filled pool gives for the two amounts: the
/// lesser of the shares that they are of its reserves.
pub open spec fn shares_for(pool: PoolState, total_lp: int, amount_0: int, amount_1: int) -> Result<
    i128,
    Error,
> {
    match (
        checked_ratio(amount_0, total_lp, pool.reserve_0 as int),
        checked_ratio(amount_1, total_lp, pool.reserve_1 as int),
    ) {
        (Ok(share_0), Ok(share_1)) => {
            let lp_minted = if share_0 <= share_1 { share_0 } else { share_1 };
            if lp_minted <= 0 {
                Err(Error::ZeroLiquidity)
            } else {
                Ok(lp_minted)
            }
        },
        _ => Err(Error::ArithmeticOverflow),
    }
}

/// The terms on which the pool takes in an offer, as the amounts taken of each
/// token and the liquidity tokens given for them. While no liquidity token is
/// in circulation the whole offer is taken, for the floor of the square root
/// of the product of its sides.
pub open spec fn deposit_terms(pool: PoolState, total_lp: int, offer_0: int, offer_1: int) -> Result<
    (i128, i128, i128),
    Error,
> {
    if offer_0 <= 0 || offer_1 <= 0 {
        Err(Error::InvalidAmount)
    } else if total_lp == 0 {
        if fits(offer_0 * offer_1) {
            Ok((offer_0 as i128, offer_1 as i128, floor_sqrt(offer_0 * offer_1) as i128))
        } else {
            Err(Error::ArithmeticOverflow)
        }
    } else {
        match matched_amounts(pool, offer_0, offer_1) {
            Err(e) => Err(e),
            Ok((amount_0, amount_1)) => match shares_for(
                pool,
                total_lp,
                amount_0 as int,
                amount_1 as int,
            ) {
                Err(e) => Err(e),
                Ok(lp_minted) => Ok((amount_0, amount_1, lp_minted)),
            },
        }
    }
}

/// The pool after its reserves changed by `change_0` and `change_1`.
pub open spec fn with_reserves_changed(pool: PoolState, change_0: int, change_1: int) -> Result<
    PoolState,
    Error,
> {
    if fits(pool.reserve_0 + change_0) && fits(pool.reserve_1 + change_1) {
        Ok(
            PoolState {
                reserve_0: (pool.reserve_0 + change_0) as i128,
                reserve_1: (pool.reserve_1 + change_1) as i128,
                ..pool
            },
        )
    } else {
        Err(Error::ArithmeticOverflow)
    }
}

impl PoolState {
    fn match_amounts(&self, offer_0: i128, offer_1: i128) -> (amounts: Result<(i128, i128), Error>)
        ensures
            amounts == matched_amounts(*self, offer_0 as int, offer_1 as int),
    {
        let wanted_1: i128 = mul_div(offer_0, self.reserve_1, self.reserve_0)?;
        if offer_1 >= wanted_1 {
            Ok((offer_0, wanted_1))
        } else {
            let wanted_0: i128 = mul_div(offer_1, self.reserve_0, self.reserve_1)?;
            Ok((wanted_0, offer_1))
        }
    }

    fn shares(&self, total_lp: i128, amount_0: i128, amount_1: i128) -> (shares: Result<i128, Error>)
        ensures
            shares == shares_for(*self, total_lp as int, amount_0 as int, amount_1 as int),
    {
        let share_0: i128 = mul_div(amount_0, total_lp, self.reserve_0)?;
        let share_1: i128 = mul_div(amount_1, total_lp, self.reserve_1)?;
        let lp_minted: i128 = if share_0 <= share_1 { share_0 } else { share_1 };
        if lp_minted <= 0 {
            return Err(Error::ZeroLiquidity);
        }
        Ok(lp_minted)
    }

    /// The amounts that the pool takes of an offer, and the liquidity tokens
    /// that it gives for them while `total_lp` are in circulation.
    pub fn quote_deposit(&self, total_lp: i128, offer_0: i128, offer_1: i128) -> (terms: Result<
        (i128, i128, i128),
        Error,
    >)
        ensures
            terms == deposit_terms(*self, total_lp as int, offer_0 as int, offer_1 as int),
    {
        if offer_0 <= 0 || offer_1 <= 0 {
            return Err(Error::InvalidAmount);
        }
        if total_lp == 0 {
            let product: i128 = checked_product(offer_0, offer_1)?;
            proof {
                assert(product >= 1) by (nonlinear_arith)
                    requires
                        offer_0 >= 1,
                        offer_1 >= 1,
                        product == offer_0 * offer_1,
                ;
            }
            let lp_minted: i128 = integer_sqrt(product)?;
            assert(lp_minted >= 1) by (nonlinear_arith)
                requires
                    product >= 1,
                    is_floor_sqrt(product as int, lp_minted as int),
            ;
            if lp_minted == 0 {
                return Err(Error::ZeroLiquidity);
            }
            Ok((offer_0, offer_1, lp_minted))
        } else {
            let (amount_0, amount_1) = self.match_amounts(offer_0, offer_1)?;
            let lp_minted: i128 = self.shares(total_lp, amount_0, amount_1)?;
            Ok((amount_0, amount_1, lp_minted))
        }
    }

    /// The pool once the two amounts have been paid in.
    pub fn deposit(&self, amount_0: i128, amount_1: i128) -> (pool: Result<PoolState, Error>)
        ensures
            pool == with_reserves_changed(*self, amount_0 as int, amount_1 as int),
    {
        let reserve_0: i128 = checked_sum(self.reserve_0, amount_0)?;
        let reserve_1: i128 = checked_sum(self.reserve_1, amount_1)?;
        Ok(PoolState { reserve_0, reserve_1, ..*self })
    }
}

// ---------------------------------------------------------------------------
// Liquidity out
// ---------------------------------------------------------------------------

/// What `lp_amount` of `total_lp` liquidity tokens are worth: that share of
/// either reserve, rounded down.
pub open spec fn withdrawal_terms(pool: PoolState, total_lp: int, lp_amount: int) -> Result<
    (i128, i128),
    Error,
> {
    match (
        checked_ratio(lp_amount, pool.reserve_0 as int, total_lp),
        checked_ratio(lp_amount, pool.reserve_1 as int, total_lp),
    ) {
        (Ok(amount_0), Ok(amount_1)) => Ok((amount_0, amount_1)),
        _ => Err(Error::ArithmeticOverflow),
    }
}

impl PoolState {
    /// What `lp_amount` liquidity tokens are worth while `total_lp` are in
    /// circulation.
    pub fn quote_withdrawal(&self, total_lp: i128, lp_amount: i128) -> (terms: Result<
        (i128, i128),
        Error,
    >)
        ensures
            terms == withdrawal_terms(*self, total_lp as int, lp_amount as int),
    {
        let amount_0: i128 = mul_div(lp_amount, self.reserve_0, total_lp)?;
        let amount_1: i128 = mul_div(lp_amount, self.reserve_1, total_lp)?;
        Ok((amount_0, amount_1))
    }

    /// The pool once the two amounts have been paid out.
    pub fn withdraw(&self, amount_0: i128, amount_1: i128) -> (pool: Result<PoolState, Error>)
        ensures
            pool == with_reserves_changed(*self, -amount_0, -amount_1),
    {
        let reserve_0: i128 = checked_difference(self.reserve_0, amount_0)?;
        let reserve_1: i128 = checked_difference(self.reserve_1, amount_1)?;
        Ok(PoolState { reserve_0, reserve_1, ..*self })
    }
}

// ---------------------------------------------------------------------------
// Swaps
// ---------------------------------------------------------------------------

/// The reserves that a swap of `token_in` pays into and is paid from, if the
/// token is one of the pool's.
pub open spec fn swap_sides(pool: PoolState, token_in: Address) -> Option<(i128, i128)> {
    if token_in == pool.token_0 {
        Some((pool.reserve_0, pool.reserve_1))
    } else if token_in == pool.token_1 {
        Some((pool.reserve_1, pool.reserve_0))
    } else {
        None
    }
}

/// The token that a swap of `token_in` pays out.
pub open spec fn token_out(pool: PoolState, token_in: Address) -> Address {
    if token_in == pool.token_0 {
        pool.token_1
    } else {
        pool.token_0
    }
}

/// What the constant product rule pays for `amount_in` after the fee, rounded
/// towards zero, where every step of the computation fits.
pub open spec fn constant_product_output(
    reserve_in: int,
    reserve_out: int,
    fee_bps: int,
    amount_in: int,
) -> Result<i128, Error> {
    let after_fee = amount_in * (BPS_DENOMINATOR - fee_bps);
    let numerator = after_fee * reserve_out;
    let denominator = reserve_in * BPS_DENOMINATOR + after_fee;
    if fits(after_fee) && fits(numerator) && fits(reserve_in * BPS_DENOMINATOR) && fits(denominator) {
        checked_quotient(numerator, denominator)
    } else {
        Err(Error::ArithmeticOverflow)
    }
}

/// What the pool pays for `amount_in` of `token_in`.
pub open spec fn swap_terms(pool: PoolState, token_in: Address, amount_in: int) -> Result<
    i128,
    Error,
> {
    if amount_in <= 0 {
        Err(Error::InvalidAmount)
    } else {
        match swap_sides(pool, token_in) {
            None => Err(Error::InvalidAmount),
            Some((reserve_in, reserve_out)) => if reserve_out <= 0 {
                Err(Error::InsufficientLiquidity)
            } else {
                constant_product_output(
                    reserve_in as int,
                    reserve_out as int,
                    pool.fee_bps as int,
                    amount_in,
                )
            },
        }
    }
}

/// The pool after a swap of `amount_in` of `token_in` for `amount_out` of its
/// other token.
pub open spec fn after_swap(pool: PoolState, token_in: Address, amount_in: int, amount_out: int) -> Result<
    PoolState,
    Error,
> {
    if token_in == pool.token_0 {
        with_reserves_changed(pool, amount_in, -amount_out)
    } else {
        with_reserves_changed(pool, -amount_out, amount_in)
    }
}

impl PoolState {
    /// The token that comes out where `token_in` goes in.
    pub fn counterpart(&self, token_in: &Address) -> (other: Address)
        ensures
            other == token_out(*self, *token_in),
    {
        if *token_in == self.token_0 {
            self.token_1
        } else {
            self.token_0
        }
    }

    /// What the pool pays for `amount_in` of `token_in`.
    pub fn quote_swap(&self, token_in: &Address, amount_in: i128) -> (amount_out: Result<i128, Error>)
        ensures
            amount_out == swap_terms(*self, *token_in, amount_in as int),
    {
        if amount_in <= 0 {
            return Err(Error::InvalidAmount);
        }
        let (reserve_in, reserve_out): (i128, i128) = if *token_in == self.token_0 {
            (self.reserve_0, self.reserve_1)
        } else if *token_in == self.token_1 {
            (self.reserve_1, self.reserve_0)
        } else {
            return Err(Error::InvalidAmount);
        };
        if reserve_out <= 0 {
            return Err(Error::InsufficientLiquidity);
        }
        let fee_multiplier: i128 = checked_difference(BPS_DENOMINATOR, self.fee_bps as i128)?;
        let after_fee: i128 = checked_product(amount_in, fee_multiplier)?;
        let numerator: i128 = checked_product(after_fee, reserve_out)?;
        let scaled_reserve: i128 = checked_product(reserve_in, BPS_DENOMINATOR)?;
        let denominator: i128 = checked_sum(scaled_reserve, after_fee)?;
        checked_division(numerator, denominator)
    }

    /// The pool once `amount_in` of `token_in` has been paid in and
    /// `amount_out` of its other token has been paid out.
    pub fn swap(&self, token_in: &Address, amount_in: i128, amount_out: i128) -> (pool: Result<
        PoolState,
        Error,
    >)
        ensures
            pool == after_swap(*self, *token_in, amount_in as int, amount_out as int),
    {
        if *token_in == self.token_0 {
            let reserve_0: i128 = checked_sum(self.reserve_0, amount_in)?;
            let reserve_1: i128 = checked_difference(self.reserve_1, amount_out)?;
            Ok(PoolState { reserve_0, reserve_1, ..*self })
        } else {
            let reserve_1: i128 = checked_sum(self.reserve_1, amount_in)?;
            let reserve_0: i128 = checked_difference(self.reserve_0, amount_out)?;
            Ok(PoolState { reserve_0, reserve_1, ..*self })
        }
    }
}

} // verus!
