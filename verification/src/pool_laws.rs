//! What holds of the pool whatever is asked of it.

use vstd::prelude::*;

use crate::address::{law_addresses_are_totally_ordered, Address};
use crate::contract::fee_decision;
use crate::error::Error;
use crate::math::{
    fits, floor_sqrt, is_floor_sqrt, law_floor_sqrt, lemma_at_most_quotient,
    lemma_quotient_bounds, lemma_quotient_is_largest, quotient,
};
use crate::pool::{
    after_swap, constant_product_output, deposit_terms, matched_amounts, shares_for, swap_sides,
    swap_terms, token_out, with_reserves_changed, withdrawal_terms, PoolState, BPS_DENOMINATOR,
    MAX_FEE_BPS,
};

verus! {

// ---------------------------------------------------------------------------
// Setting up
// ---------------------------------------------------------------------------

/// A pool that is opened is a valid pool, backs the liquidity tokens that are
/// not there yet, and does not depend on the order in which its tokens are
/// named.
pub proof fn law_opened_pool(token_a: Address, token_b: Address, fee_bps: u32)
    requires
        token_a != token_b,
        fee_bps <= MAX_FEE_BPS,
    ensures
        PoolState::opened(token_a, token_b, fee_bps).wf(),
        PoolState::opened(token_a, token_b, fee_bps).backs(0),
        PoolState::opened(token_a, token_b, fee_bps) == PoolState::opened(
            token_b,
            token_a,
            fee_bps,
        ),
{
    law_addresses_are_totally_ordered(token_a, token_b, token_a);
}

/// A fee change that is granted changes the fee and nothing else, and keeps
/// the pool valid.
pub proof fn law_fee_change(pool: PoolState, total_lp: int, new_fee_bps: u32)
    requires
        pool.wf(),
        pool.backs(total_lp),
        fee_decision(Some(pool), new_fee_bps) is Ok,
    ensures
        fee_decision(Some(pool), new_fee_bps)->Ok_0.wf(),
        fee_decision(Some(pool), new_fee_bps)->Ok_0.backs(total_lp),
        fee_decision(Some(pool), new_fee_bps)->Ok_0 == (PoolState { fee_bps: new_fee_bps, ..pool }),
{
}

// ---------------------------------------------------------------------------
// Liquidity in
// ---------------------------------------------------------------------------

/// What keeps the proportion of the reserves to either side of an offer, in
/// numbers: where the second side falls short of what the first calls for, the
/// first exceeds what the second calls for. Whether it does can be told from
/// the products.
pub(crate) proof fn lemma_matching(reserve_0: int, reserve_1: int, offer_0: int, offer_1: int)
    requires
        0 < reserve_0,
        0 < reserve_1,
        0 < offer_0,
        0 < offer_1,
    ensures
        ({
            let wanted_1 = quotient(offer_0 * reserve_1, reserve_0);
            let wanted_0 = quotient(offer_1 * reserve_0, reserve_1);
            &&& 0 <= wanted_1 <= offer_0 * reserve_1
            &&& 0 <= wanted_0 <= offer_1 * reserve_0
            &&& offer_1 < wanted_1 ==> wanted_0 < offer_0
            &&& offer_1 < wanted_1 <==> (offer_1 + 1) * reserve_0 <= offer_0 * reserve_1
        }),
{
    assert(offer_0 * reserve_1 >= 0 && offer_1 * reserve_0 >= 0) by (nonlinear_arith)
        requires
            0 < reserve_0,
            0 < reserve_1,
            0 < offer_0,
            0 < offer_1,
    ;
    let wanted_1 = quotient(offer_0 * reserve_1, reserve_0);
    let wanted_0 = quotient(offer_1 * reserve_0, reserve_1);
    lemma_quotient_bounds(offer_0 * reserve_1, reserve_0);
    lemma_quotient_bounds(offer_1 * reserve_0, reserve_1);
    lemma_at_most_quotient(offer_0 * reserve_1, reserve_0, wanted_1, offer_1 + 1);
    if offer_1 < wanted_1 {
        assert(wanted_0 < offer_0) by (nonlinear_arith)
            requires
                wanted_0 * reserve_1 <= offer_1 * reserve_0,
                offer_1 < wanted_1,
                wanted_1 * reserve_0 <= offer_0 * reserve_1,
                0 < reserve_0,
                0 < reserve_1,
        ;
    }
}

/// What the terms of a deposit into a pool with liquidity mean in numbers.
proof fn lemma_proportional_terms(pool: PoolState, total_lp: int, offer_0: int, offer_1: int)
    requires
        pool.reserve_0 > 0,
        pool.reserve_1 > 0,
        total_lp > 0,
        fits(offer_0),
        fits(offer_1),
        deposit_terms(pool, total_lp, offer_0, offer_1) is Ok,
    ensures
        ({
            let (amount_0, amount_1, lp_minted) = deposit_terms(
                pool,
                total_lp,
                offer_0,
                offer_1,
            )->Ok_0;
            &&& 0 < amount_0 <= offer_0
            &&& 0 < amount_1 <= offer_1
            &&& 0 < lp_minted
            &&& lp_minted * pool.reserve_0 <= amount_0 * total_lp
            &&& lp_minted * pool.reserve_1 <= amount_1 * total_lp
        }),
{
    let r0 = pool.reserve_0 as int;
    let r1 = pool.reserve_1 as int;
    let (x, y) = matched_amounts(pool, offer_0, offer_1)->Ok_0;
    let lp = shares_for(pool, total_lp, x as int, y as int)->Ok_0;

    // The amounts taken are within the offer.
    lemma_matching(r0, r1, offer_0, offer_1);
    assert(0 <= x <= offer_0 && 0 <= y <= offer_1);

    // The shares are within the amounts' parts of the reserves.
    assert(x * total_lp >= 0 && y * total_lp >= 0) by (nonlinear_arith)
        requires
            x >= 0,
            y >= 0,
            total_lp >= 0,
    ;
    let share_0 = quotient(x * total_lp, r0);
    let share_1 = quotient(y * total_lp, r1);
    lemma_quotient_bounds(x * total_lp, r0);
    lemma_quotient_bounds(y * total_lp, r1);
    assert(0 < lp <= share_0 && lp <= share_1);
    assert(lp * r0 <= share_0 * r0 && lp * r1 <= share_1 * r1) by (nonlinear_arith)
        requires
            lp <= share_0,
            lp <= share_1,
            r0 > 0,
            r1 > 0,
    ;
    assert(x > 0 && y > 0) by (nonlinear_arith)
        requires
            lp > 0,
            lp * r0 <= x * total_lp,
            lp * r1 <= y * total_lp,
            r0 > 0,
            r1 > 0,
            total_lp > 0,
            x >= 0,
            y >= 0,
    ;
}

/// The square root of the product of two amounts, in numbers.
pub(crate) proof fn lemma_root_of_product(offer_0: int, offer_1: int)
    requires
        0 < offer_0,
        0 < offer_1,
    ensures
        ({
            let root = floor_sqrt(offer_0 * offer_1);
            &&& 1 <= root <= offer_0 * offer_1
            &&& root * root <= offer_0 * offer_1 < (root + 1) * (root + 1)
        }),
{
    let product = offer_0 * offer_1;
    assert(product >= 1) by (nonlinear_arith)
        requires
            offer_0 >= 1,
            offer_1 >= 1,
            product == offer_0 * offer_1,
    ;
    law_floor_sqrt(product);
    let root = floor_sqrt(product);
    assert(1 <= root <= product) by (nonlinear_arith)
        requires
            0 <= root,
            root * root <= product < (root + 1) * (root + 1),
            product >= 1,
    ;
}

/// The first deposit takes the whole offer, and mints the square root of the
/// product of its sides, rounded down, which is never nothing.
pub proof fn law_first_deposit(pool: PoolState, offer_0: int, offer_1: int)
    requires
        0 < offer_0,
        0 < offer_1,
        fits(offer_0),
        fits(offer_1),
        fits(offer_0 * offer_1),
    ensures
        deposit_terms(pool, 0, offer_0, offer_1) matches Ok((amount_0, amount_1, lp_minted))
            && amount_0 == offer_0 && amount_1 == offer_1 && 0 < lp_minted && is_floor_sqrt(
            offer_0 * offer_1,
            lp_minted as int,
        ),
{
    lemma_root_of_product(offer_0, offer_1);
}

/// A deposit never takes more than was offered, takes and gives something of
/// everything, and leaves a valid pool that backs the liquidity tokens in
/// circulation.
pub proof fn law_deposit_keeps_pool_valid(
    pool: PoolState,
    total_lp: int,
    offer_0: int,
    offer_1: int,
)
    requires
        pool.wf(),
        pool.backs(total_lp),
        fits(offer_0),
        fits(offer_1),
        deposit_terms(pool, total_lp, offer_0, offer_1) is Ok,
    ensures
        ({
            let (amount_0, amount_1, lp_minted) = deposit_terms(
                pool,
                total_lp,
                offer_0,
                offer_1,
            )->Ok_0;
            &&& 0 < amount_0 <= offer_0
            &&& 0 < amount_1 <= offer_1
            &&& 0 < lp_minted
            &&& with_reserves_changed(pool, amount_0 as int, amount_1 as int) matches Ok(next)
                ==> next.wf() && next.backs(total_lp + lp_minted)
        }),
{
    if total_lp == 0 {
        law_first_deposit(pool, offer_0, offer_1);
    } else {
        lemma_proportional_terms(pool, total_lp, offer_0, offer_1);
    }
}

/// A deposit into a pool with liquidity takes one side of the offer whole, and
/// of the other what keeps the proportion of the reserves, rounded down: the
/// first side whole where the second suffices for it, and otherwise the second
/// whole and less than the first.
pub proof fn law_deposit_is_proportional(
    pool: PoolState,
    total_lp: int,
    offer_0: int,
    offer_1: int,
)
    requires
        pool.wf(),
        pool.backs(total_lp),
        total_lp > 0,
        fits(offer_0),
        fits(offer_1),
        deposit_terms(pool, total_lp, offer_0, offer_1) is Ok,
    ensures
        ({
            let (amount_0, amount_1, _) = deposit_terms(pool, total_lp, offer_0, offer_1)->Ok_0;
            let wanted_1 = quotient(offer_0 * pool.reserve_1, pool.reserve_0 as int);
            let wanted_0 = quotient(offer_1 * pool.reserve_0, pool.reserve_1 as int);
            if offer_1 >= wanted_1 {
                amount_0 == offer_0 && amount_1 == wanted_1
            } else {
                amount_1 == offer_1 && amount_0 == wanted_0 && amount_0 < offer_0
            }
        }),
{
    lemma_matching(pool.reserve_0 as int, pool.reserve_1 as int, offer_0, offer_1);
}

/// A deposit into a pool with liquidity is granted wherever the products that
/// it takes fit, unless it is too small to be worth a liquidity token.
pub proof fn law_deposit_is_granted(pool: PoolState, total_lp: int, offer_0: int, offer_1: int)
    requires
        pool.wf(),
        pool.backs(total_lp),
        total_lp > 0,
        0 < offer_0,
        0 < offer_1,
        fits(offer_0),
        fits(offer_1),
        fits(offer_0 * pool.reserve_1),
        fits(offer_1 * pool.reserve_0),
        fits(offer_0 * total_lp),
        fits(offer_1 * total_lp),
    ensures
        deposit_terms(pool, total_lp, offer_0, offer_1) is Ok || deposit_terms(
            pool,
            total_lp,
            offer_0,
            offer_1,
        ) == Err::<(i128, i128, i128), Error>(Error::ZeroLiquidity),
{
    let r0 = pool.reserve_0 as int;
    let r1 = pool.reserve_1 as int;
    lemma_matching(r0, r1, offer_0, offer_1);
    let (x, y) = matched_amounts(pool, offer_0, offer_1)->Ok_0;
    assert(0 <= x * total_lp <= offer_0 * total_lp && 0 <= y * total_lp <= offer_1 * total_lp)
        by (nonlinear_arith)
        requires
            0 <= x <= offer_0,
            0 <= y <= offer_1,
            total_lp > 0,
    ;
    lemma_quotient_bounds(x * total_lp, r0);
    lemma_quotient_bounds(y * total_lp, r1);
}

/// A deposit does not dilute: what a liquidity token is worth of either
/// reserve is no less after it than before.
pub proof fn law_deposit_does_not_dilute(
    pool: PoolState,
    total_lp: int,
    offer_0: int,
    offer_1: int,
)
    requires
        pool.wf(),
        pool.backs(total_lp),
        total_lp > 0,
        fits(offer_0),
        fits(offer_1),
        deposit_terms(pool, total_lp, offer_0, offer_1) is Ok,
    ensures
        ({
            let (amount_0, amount_1, lp_minted) = deposit_terms(
                pool,
                total_lp,
                offer_0,
                offer_1,
            )->Ok_0;
            &&& (pool.reserve_0 + amount_0) * total_lp >= pool.reserve_0 * (total_lp + lp_minted)
            &&& (pool.reserve_1 + amount_1) * total_lp >= pool.reserve_1 * (total_lp + lp_minted)
        }),
{
    lemma_proportional_terms(pool, total_lp, offer_0, offer_1);
    let (amount_0, amount_1, lp_minted) = deposit_terms(pool, total_lp, offer_0, offer_1)->Ok_0;
    lemma_no_dilution_in(pool.reserve_0 as int, amount_0 as int, lp_minted as int, total_lp);
    lemma_no_dilution_in(pool.reserve_1 as int, amount_1 as int, lp_minted as int, total_lp);
}

proof fn lemma_no_dilution_in(reserve: int, amount: int, lp: int, total_lp: int)
    by (nonlinear_arith)
    requires
        lp * reserve <= amount * total_lp,
    ensures
        (reserve + amount) * total_lp >= reserve * (total_lp + lp),
{
}

// ---------------------------------------------------------------------------
// Liquidity out
// ---------------------------------------------------------------------------

/// The part of one reserve that a share is worth, in numbers.
pub(crate) proof fn lemma_share_of_reserve(reserve: int, total_lp: int, lp_amount: int)
    requires
        0 <= reserve,
        0 < lp_amount <= total_lp,
    ensures
        ({
            let amount = quotient(lp_amount * reserve, total_lp);
            &&& 0 <= amount <= reserve
            &&& amount * total_lp <= lp_amount * reserve < (amount + 1) * total_lp
            &&& lp_amount < total_lp && 0 < reserve ==> amount < reserve
            &&& lp_amount == total_lp ==> amount == reserve
        }),
{
    let amount = quotient(lp_amount * reserve, total_lp);
    assert(lp_amount * reserve >= 0) by (nonlinear_arith)
        requires
            lp_amount >= 0,
            reserve >= 0,
    ;
    lemma_quotient_bounds(lp_amount * reserve, total_lp);
    assert(amount <= reserve) by (nonlinear_arith)
        requires
            amount * total_lp <= lp_amount * reserve,
            lp_amount <= total_lp,
            0 < total_lp,
            0 <= reserve,
    ;
    if lp_amount < total_lp && 0 < reserve {
        assert(amount < reserve) by (nonlinear_arith)
            requires
                amount * total_lp <= lp_amount * reserve,
                lp_amount < total_lp,
                0 < total_lp,
                0 < reserve,
        ;
    }
    if lp_amount == total_lp {
        assert(reserve * total_lp <= lp_amount * reserve) by (nonlinear_arith)
            requires
                lp_amount == total_lp,
        ;
        lemma_quotient_is_largest(lp_amount * reserve, total_lp, reserve);
    }
}

proof fn lemma_withdrawal_terms(pool: PoolState, total_lp: int, lp_amount: int)
    requires
        pool.wf(),
        0 < lp_amount <= total_lp,
        withdrawal_terms(pool, total_lp, lp_amount) is Ok,
    ensures
        ({
            let (amount_0, amount_1) = withdrawal_terms(pool, total_lp, lp_amount)->Ok_0;
            &&& amount_0 == quotient(lp_amount * pool.reserve_0, total_lp)
            &&& amount_1 == quotient(lp_amount * pool.reserve_1, total_lp)
        }),
{
    lemma_share_of_reserve(pool.reserve_0 as int, total_lp, lp_amount);
    lemma_share_of_reserve(pool.reserve_1 as int, total_lp, lp_amount);
}

/// A withdrawal of liquidity tokens in circulation never pays more than the
/// reserves, can always be settled, and leaves a valid pool that backs the
/// liquidity tokens that are left.
pub proof fn law_withdrawal_keeps_pool_valid(pool: PoolState, total_lp: int, lp_amount: int)
    requires
        pool.wf(),
        pool.backs(total_lp),
        0 < lp_amount <= total_lp,
        withdrawal_terms(pool, total_lp, lp_amount) is Ok,
    ensures
        ({
            let (amount_0, amount_1) = withdrawal_terms(pool, total_lp, lp_amount)->Ok_0;
            &&& 0 <= amount_0 <= pool.reserve_0
            &&& 0 <= amount_1 <= pool.reserve_1
            &&& with_reserves_changed(pool, -amount_0, -amount_1) matches Ok(next) && next.wf()
                && next.backs(total_lp - lp_amount)
        }),
{
    lemma_withdrawal_terms(pool, total_lp, lp_amount);
    lemma_share_of_reserve(pool.reserve_0 as int, total_lp, lp_amount);
    lemma_share_of_reserve(pool.reserve_1 as int, total_lp, lp_amount);
}

/// A withdrawal of liquidity tokens in circulation is granted wherever the
/// products that it takes fit.
pub proof fn law_withdrawal_is_granted(pool: PoolState, total_lp: int, lp_amount: int)
    requires
        pool.wf(),
        0 < lp_amount <= total_lp,
        fits(lp_amount * pool.reserve_0),
        fits(lp_amount * pool.reserve_1),
    ensures
        withdrawal_terms(pool, total_lp, lp_amount) is Ok,
{
    lemma_share_of_reserve(pool.reserve_0 as int, total_lp, lp_amount);
    lemma_share_of_reserve(pool.reserve_1 as int, total_lp, lp_amount);
}

/// A withdrawal does not dilute: what a liquidity token that stays is worth of
/// either reserve is no less after it than before.
pub proof fn law_withdrawal_does_not_dilute(pool: PoolState, total_lp: int, lp_amount: int)
    requires
        pool.wf(),
        pool.backs(total_lp),
        0 < lp_amount <= total_lp,
        withdrawal_terms(pool, total_lp, lp_amount) is Ok,
    ensures
        ({
            let (amount_0, amount_1) = withdrawal_terms(pool, total_lp, lp_amount)->Ok_0;
            &&& (pool.reserve_0 - amount_0) * total_lp >= pool.reserve_0 * (total_lp - lp_amount)
            &&& (pool.reserve_1 - amount_1) * total_lp >= pool.reserve_1 * (total_lp - lp_amount)
        }),
{
    lemma_withdrawal_terms(pool, total_lp, lp_amount);
    lemma_share_of_reserve(pool.reserve_0 as int, total_lp, lp_amount);
    lemma_share_of_reserve(pool.reserve_1 as int, total_lp, lp_amount);
    let (amount_0, amount_1) = withdrawal_terms(pool, total_lp, lp_amount)->Ok_0;
    lemma_no_dilution_out(pool.reserve_0 as int, amount_0 as int, lp_amount, total_lp);
    lemma_no_dilution_out(pool.reserve_1 as int, amount_1 as int, lp_amount, total_lp);
}

proof fn lemma_no_dilution_out(reserve: int, amount: int, lp: int, total_lp: int)
    by (nonlinear_arith)
    requires
        amount * total_lp <= lp * reserve,
    ensures
        (reserve - amount) * total_lp >= reserve * (total_lp - lp),
{
}

/// Whoever withdraws all liquidity tokens in circulation gets both reserves.
pub proof fn law_full_withdrawal_empties_pool(pool: PoolState, total_lp: int)
    requires
        pool.wf(),
        0 < total_lp,
        withdrawal_terms(pool, total_lp, total_lp) is Ok,
    ensures
        withdrawal_terms(pool, total_lp, total_lp)->Ok_0 == (pool.reserve_0, pool.reserve_1),
{
    lemma_withdrawal_terms(pool, total_lp, total_lp);
    lemma_share_of_reserve(pool.reserve_0 as int, total_lp, total_lp);
    lemma_share_of_reserve(pool.reserve_1 as int, total_lp, total_lp);
}

/// The part of one reserve that two shares are worth one after the other is no
/// more than what they are worth together.
proof fn lemma_shares_in_parts(reserve: int, total_lp: int, first: int, second: int)
    requires
        0 <= reserve,
        0 < first,
        0 < second,
        first + second <= total_lp,
    ensures
        ({
            let paid = quotient(first * reserve, total_lp);
            paid + quotient(second * (reserve - paid), total_lp - first) <= quotient(
                (first + second) * reserve,
                total_lp,
            )
        }),
{
    let paid = quotient(first * reserve, total_lp);
    let left = total_lp - first;
    let then_paid = quotient(second * (reserve - paid), left);
    lemma_share_of_reserve(reserve, total_lp, first);
    lemma_share_of_reserve(reserve - paid, left, second);
    // What rounding kept in the pool the first time.
    let kept = first * reserve - paid * total_lp;
    assert(then_paid * total_lp <= second * reserve + kept) by (nonlinear_arith)
        requires
            then_paid * left <= second * (reserve - paid),
            left == total_lp - first,
            kept == first * reserve - paid * total_lp,
            0 <= kept,
            0 < second <= left,
            0 < total_lp,
    {
        assert((reserve - paid) * total_lp == left * reserve + kept);
        assert((then_paid * left) * total_lp <= (second * (reserve - paid)) * total_lp);
        assert((second * (reserve - paid)) * total_lp == second * ((reserve - paid) * total_lp));
        assert(second * (left * reserve + kept) == left * (second * reserve) + second * kept);
        assert(second * kept <= left * kept);
        assert(left * (then_paid * total_lp) <= left * (second * reserve + kept));
    }
    assert((paid + then_paid) * total_lp <= (first + second) * reserve) by (nonlinear_arith)
        requires
            then_paid * total_lp <= second * reserve + kept,
            kept == first * reserve - paid * total_lp,
    ;
    assert((first + second) * reserve >= 0) by (nonlinear_arith)
        requires
            0 <= reserve,
            0 < first + second,
    ;
    lemma_quotient_is_largest((first + second) * reserve, total_lp, paid + then_paid);
}

/// Withdrawing in parts never pays more of either token than withdrawing the
/// same liquidity tokens at once.
pub proof fn law_withdrawal_in_parts_pays_no_more(
    pool: PoolState,
    total_lp: int,
    first: int,
    second: int,
)
    requires
        0 <= pool.reserve_0,
        0 <= pool.reserve_1,
        0 < first,
        0 < second,
        first + second <= total_lp,
        withdrawal_terms(pool, total_lp, first) is Ok,
        withdrawal_terms(pool, total_lp, first + second) is Ok,
    ensures
        ({
            let paid = withdrawal_terms(pool, total_lp, first)->Ok_0;
            let at_once = withdrawal_terms(pool, total_lp, first + second)->Ok_0;
            with_reserves_changed(pool, -paid.0, -paid.1) matches Ok(next) && (withdrawal_terms(
                next,
                total_lp - first,
                second,
            ) matches Ok(then_paid) ==> paid.0 + then_paid.0 <= at_once.0 && paid.1 + then_paid.1
                <= at_once.1)
        }),
{
    let r0 = pool.reserve_0 as int;
    let r1 = pool.reserve_1 as int;
    lemma_share_of_reserve(r0, total_lp, first);
    lemma_share_of_reserve(r1, total_lp, first);
    lemma_share_of_reserve(r0, total_lp, first + second);
    lemma_share_of_reserve(r1, total_lp, first + second);
    let paid = withdrawal_terms(pool, total_lp, first)->Ok_0;
    lemma_share_of_reserve(r0 - paid.0, total_lp - first, second);
    lemma_share_of_reserve(r1 - paid.1, total_lp - first, second);
    lemma_shares_in_parts(r0, total_lp, first, second);
    lemma_shares_in_parts(r1, total_lp, first, second);
}

/// Paying liquidity in and taking it straight out again never gains: of either
/// token no more comes out than went in, and exactly what went in where the
/// pool was empty. A pool whose liquidity tokens were
/// all destroyed while it kept its reserves is left out: what it holds goes to
/// the next provider.
pub proof fn law_deposit_then_withdrawal_gains_nothing(
    pool: PoolState,
    total_lp: int,
    offer_0: int,
    offer_1: int,
)
    requires
        pool.wf(),
        pool.backs(total_lp),
        total_lp == 0 ==> pool.reserve_0 == 0,
        fits(offer_0),
        fits(offer_1),
        deposit_terms(pool, total_lp, offer_0, offer_1) is Ok,
    ensures
        ({
            let (amount_0, amount_1, lp_minted) = deposit_terms(
                pool,
                total_lp,
                offer_0,
                offer_1,
            )->Ok_0;
            with_reserves_changed(pool, amount_0 as int, amount_1 as int) matches Ok(next) ==> (
            withdrawal_terms(next, total_lp + lp_minted, lp_minted as int) matches Ok(back)
                ==> back.0 <= amount_0 && back.1 <= amount_1 && (total_lp == 0 ==> back == (
            amount_0,
            amount_1,
        )))
        }),
{
    law_deposit_keeps_pool_valid(pool, total_lp, offer_0, offer_1);
    let (amount_0, amount_1, lp_minted) = deposit_terms(pool, total_lp, offer_0, offer_1)->Ok_0;
    let changed = with_reserves_changed(pool, amount_0 as int, amount_1 as int);
    if changed is Ok && withdrawal_terms(changed->Ok_0, total_lp + lp_minted, lp_minted as int) is Ok {
        let next = changed->Ok_0;
        lemma_withdrawal_terms(next, total_lp + lp_minted, lp_minted as int);
        if total_lp == 0 {
            law_full_withdrawal_empties_pool(next, lp_minted as int);
        } else {
            lemma_proportional_terms(pool, total_lp, offer_0, offer_1);
            lemma_no_gain(pool.reserve_0 as int, amount_0 as int, lp_minted as int, total_lp);
            lemma_no_gain(pool.reserve_1 as int, amount_1 as int, lp_minted as int, total_lp);
        }
    }
}

proof fn lemma_no_gain(reserve: int, amount: int, lp: int, total_lp: int)
    requires
        0 <= reserve,
        0 <= amount,
        0 < lp,
        0 < total_lp,
        lp * reserve <= amount * total_lp,
    ensures
        quotient(lp * (reserve + amount), total_lp + lp) <= amount,
{
    let back = quotient(lp * (reserve + amount), total_lp + lp);
    assert(lp * (reserve + amount) >= 0) by (nonlinear_arith)
        requires
            0 <= reserve,
            0 <= amount,
            0 < lp,
    ;
    lemma_quotient_bounds(lp * (reserve + amount), total_lp + lp);
    assert(back <= amount) by (nonlinear_arith)
        requires
            back * (total_lp + lp) <= lp * (reserve + amount),
            lp * reserve <= amount * total_lp,
            0 < total_lp + lp,
    ;
}

// ---------------------------------------------------------------------------
// Swaps
// ---------------------------------------------------------------------------

/// What the constant product rule pays, in numbers: less than the reserve, and
/// no more than the growth of the other side makes up for.
proof fn lemma_constant_product_output(
    reserve_in: int,
    reserve_out: int,
    fee_bps: int,
    amount_in: int,
)
    requires
        0 < reserve_in,
        0 < reserve_out,
        0 <= fee_bps <= MAX_FEE_BPS,
        0 < amount_in,
        constant_product_output(reserve_in, reserve_out, fee_bps, amount_in) is Ok,
    ensures
        ({
            let out = constant_product_output(
                reserve_in,
                reserve_out,
                fee_bps,
                amount_in,
            )->Ok_0 as int;
            let after_fee = amount_in * (BPS_DENOMINATOR - fee_bps);
            let denominator = reserve_in * BPS_DENOMINATOR + after_fee;
            &&& 0 < after_fee <= amount_in * BPS_DENOMINATOR
            &&& 0 < denominator
            &&& 0 <= after_fee * reserve_out
            &&& out == quotient(after_fee * reserve_out, denominator)
            &&& out * denominator <= after_fee * reserve_out
            &&& 0 <= out < reserve_out
            &&& fits(reserve_in + amount_in)
            &&& (reserve_in + amount_in) * (reserve_out - out) >= reserve_in * reserve_out
        }),
{
    let after_fee = amount_in * (BPS_DENOMINATOR - fee_bps);
    let denominator = reserve_in * BPS_DENOMINATOR + after_fee;
    let numerator = after_fee * reserve_out;
    let out = quotient(numerator, denominator);
    assert(0 < after_fee <= amount_in * BPS_DENOMINATOR && amount_in <= after_fee) by (nonlinear_arith)
        requires
            after_fee == amount_in * (BPS_DENOMINATOR - fee_bps),
            0 < amount_in,
            0 <= fee_bps <= 300,
            BPS_DENOMINATOR == 10_000,
    ;
    assert(0 <= numerator) by (nonlinear_arith)
        requires
            numerator == after_fee * reserve_out,
            0 < after_fee,
            0 < reserve_out,
    ;
    lemma_quotient_bounds(numerator, denominator);
    assert(out < reserve_out) by (nonlinear_arith)
        requires
            out * denominator <= after_fee * reserve_out,
            denominator > after_fee,
            0 < after_fee,
            0 < reserve_out,
    ;
    lemma_product_kept(reserve_in, reserve_out, amount_in, after_fee, out);
}

proof fn lemma_product_kept(
    reserve_in: int,
    reserve_out: int,
    amount_in: int,
    after_fee: int,
    out: int,
)
    requires
        0 <= out <= reserve_out,
        after_fee <= amount_in * 10_000,
        out * (reserve_in * 10_000 + after_fee) <= after_fee * reserve_out,
    ensures
        (reserve_in + amount_in) * (reserve_out - out) >= reserve_in * reserve_out,
{
    let left = reserve_out - out;
    assert(out * (reserve_in * 10_000) <= after_fee * left) by (nonlinear_arith)
        requires
            left == reserve_out - out,
            out * (reserve_in * 10_000 + after_fee) <= after_fee * reserve_out,
    ;
    assert(after_fee * left <= (amount_in * 10_000) * left) by (nonlinear_arith)
        requires
            0 <= left,
            after_fee <= amount_in * 10_000,
    ;
    assert(out * reserve_in <= amount_in * left) by (nonlinear_arith)
        requires
            out * (reserve_in * 10_000) <= (amount_in * 10_000) * left,
    ;
    assert((reserve_in + amount_in) * left >= reserve_in * reserve_out) by (nonlinear_arith)
        requires
            left == reserve_out - out,
            out * reserve_in <= amount_in * left,
    ;
}

/// A swap that is granted always leaves something of the token that it pays,
/// can always be settled, and leaves a valid pool that backs the liquidity
/// tokens in circulation.
pub proof fn law_swap_keeps_pool_valid(
    pool: PoolState,
    total_lp: int,
    token_in: Address,
    amount_in: int,
)
    requires
        pool.wf(),
        pool.backs(total_lp),
        swap_terms(pool, token_in, amount_in) is Ok,
    ensures
        ({
            let out = swap_terms(pool, token_in, amount_in)->Ok_0;
            &&& 0 <= out < swap_sides(pool, token_in)->Some_0.1
            &&& after_swap(pool, token_in, amount_in, out as int) matches Ok(next) && next.wf()
                && next.backs(total_lp)
        }),
{
    let (reserve_in, reserve_out) = swap_sides(pool, token_in)->Some_0;
    lemma_constant_product_output(
        reserve_in as int,
        reserve_out as int,
        pool.fee_bps as int,
        amount_in,
    );
}

/// A swap of a token of a pool with liquidity is granted wherever the products
/// that it takes fit.
pub proof fn law_swap_is_granted(pool: PoolState, token_in: Address, amount_in: int)
    requires
        pool.wf(),
        pool.reserve_0 > 0,
        token_in == pool.token_0 || token_in == pool.token_1,
        0 < amount_in,
        fits(amount_in * (BPS_DENOMINATOR - pool.fee_bps) * swap_sides(pool, token_in)->Some_0.1),
        fits(
            swap_sides(pool, token_in)->Some_0.0 * BPS_DENOMINATOR + amount_in * (BPS_DENOMINATOR
                - pool.fee_bps),
        ),
    ensures
        swap_terms(pool, token_in, amount_in) is Ok,
{
    let (reserve_in, reserve_out) = swap_sides(pool, token_in)->Some_0;
    let multiplier = BPS_DENOMINATOR - pool.fee_bps;
    let after_fee = amount_in * multiplier;
    assert(0 < after_fee && 0 < after_fee * reserve_out) by (nonlinear_arith)
        requires
            after_fee == amount_in * multiplier,
            0 < amount_in,
            0 < multiplier,
            0 < reserve_out,
    ;
    lemma_quotient_bounds(after_fee * reserve_out, reserve_in * BPS_DENOMINATOR + after_fee);
}

/// A swap never lowers the product of the reserves.
pub proof fn law_swap_never_lowers_product(pool: PoolState, token_in: Address, amount_in: int)
    requires
        pool.wf(),
        swap_terms(pool, token_in, amount_in) is Ok,
    ensures
        ({
            let out = swap_terms(pool, token_in, amount_in)->Ok_0;
            after_swap(pool, token_in, amount_in, out as int) matches Ok(next) && next.reserve_0
                * next.reserve_1 >= pool.reserve_0 * pool.reserve_1
        }),
{
    let (reserve_in, reserve_out) = swap_sides(pool, token_in)->Some_0;
    let out = swap_terms(pool, token_in, amount_in)->Ok_0;
    lemma_constant_product_output(
        reserve_in as int,
        reserve_out as int,
        pool.fee_bps as int,
        amount_in,
    );
    if token_in != pool.token_0 {
        let new_in = reserve_in + amount_in;
        let new_out = reserve_out - out;
        assert(new_in * new_out == new_out * new_in && reserve_in * reserve_out == reserve_out
            * reserve_in) by (nonlinear_arith);
    }
}

/// Swapping there and back never gains: what comes back is no more than what
/// went in.
pub proof fn law_swap_round_trip_gains_nothing(pool: PoolState, token_in: Address, amount_in: int)
    requires
        pool.wf(),
        swap_terms(pool, token_in, amount_in) is Ok,
    ensures
        ({
            let out = swap_terms(pool, token_in, amount_in)->Ok_0;
            let next = after_swap(pool, token_in, amount_in, out as int)->Ok_0;
            swap_terms(next, token_out(pool, token_in), out as int) matches Ok(back) ==> back
                <= amount_in
        }),
{
    law_swap_keeps_pool_valid(pool, 0, token_in, amount_in);
    law_addresses_are_totally_ordered(pool.token_0, pool.token_1, pool.token_0);
    let (reserve_in, reserve_out) = swap_sides(pool, token_in)->Some_0;
    let out = swap_terms(pool, token_in, amount_in)->Ok_0 as int;
    let next = after_swap(pool, token_in, amount_in, out)->Ok_0;
    let returned = swap_terms(next, token_out(pool, token_in), out);
    if returned is Ok {
        let back = returned->Ok_0 as int;
        lemma_constant_product_output(
            reserve_in as int,
            reserve_out as int,
            pool.fee_bps as int,
            amount_in,
        );
        lemma_constant_product_output(
            reserve_out - out,
            reserve_in + amount_in,
            pool.fee_bps as int,
            out,
        );
        assert(back <= amount_in) by (nonlinear_arith)
            requires
                (reserve_in + amount_in) * (reserve_out - out) >= reserve_in * reserve_out,
                (reserve_out - out + out) * (reserve_in + amount_in - back) >= (reserve_out - out)
                    * (reserve_in + amount_in),
                reserve_out > 0,
        ;
    }
}

/// Swapping in parts never pays more than swapping the same amount at once.
pub proof fn law_swap_in_parts_pays_no_more(
    pool: PoolState,
    token_in: Address,
    first: int,
    second: int,
)
    requires
        pool.wf(),
        0 < second,
        swap_terms(pool, token_in, first) is Ok,
        swap_terms(pool, token_in, first + second) is Ok,
    ensures
        ({
            let out = swap_terms(pool, token_in, first)->Ok_0;
            after_swap(pool, token_in, first, out as int) matches Ok(next) && (swap_terms(
                next,
                token_in,
                second,
            ) matches Ok(then_out) ==> out + then_out <= swap_terms(
                pool,
                token_in,
                first + second,
            )->Ok_0)
        }),
{
    law_swap_keeps_pool_valid(pool, 0, token_in, first);
    let (reserve_in, reserve_out) = swap_sides(pool, token_in)->Some_0;
    let fee = pool.fee_bps as int;
    let out = swap_terms(pool, token_in, first)->Ok_0 as int;
    let next = after_swap(pool, token_in, first, out)->Ok_0;
    if swap_terms(next, token_in, second) is Ok {
        let then_out = swap_terms(next, token_in, second)->Ok_0 as int;
        lemma_constant_product_output(reserve_in as int, reserve_out as int, fee, first);
        lemma_constant_product_output(reserve_in + first, reserve_out - out, fee, second);
        lemma_constant_product_output(reserve_in as int, reserve_out as int, fee, first + second);
        let multiplier = BPS_DENOMINATOR - fee;
        let base = reserve_in * BPS_DENOMINATOR;
        let x = first * multiplier;
        let y = second * multiplier;
        assert((first + second) * multiplier == x + y) by (nonlinear_arith)
            requires
                x == first * multiplier,
                y == second * multiplier,
        ;
        assert(then_out * (base + x + y) <= y * (reserve_out - out)) by (nonlinear_arith)
            requires
                then_out * ((reserve_in + first) * BPS_DENOMINATOR + y) <= y * (reserve_out - out),
                base == reserve_in * BPS_DENOMINATOR,
                x <= first * BPS_DENOMINATOR,
                0 <= then_out,
        ;
        assert((out + then_out) * (base + (x + y)) <= (x + y) * reserve_out) by (nonlinear_arith)
            requires
                then_out * (base + x + y) <= y * (reserve_out - out),
                out * (base + x) <= x * reserve_out,
        ;
        lemma_quotient_is_largest((x + y) * reserve_out, base + (x + y), out + then_out);
    }
}

/// Paying more in never pays less out, and neither does a lower fee.
pub proof fn law_swap_output_is_monotone(
    pool: PoolState,
    cheaper: PoolState,
    token_in: Address,
    amount_in: int,
    more_in: int,
)
    requires
        pool.wf(),
        cheaper.wf(),
        cheaper == (PoolState { fee_bps: cheaper.fee_bps, ..pool }),
        cheaper.fee_bps <= pool.fee_bps,
        amount_in <= more_in,
        swap_terms(pool, token_in, amount_in) is Ok,
        swap_terms(cheaper, token_in, more_in) is Ok,
    ensures
        swap_terms(pool, token_in, amount_in)->Ok_0 <= swap_terms(cheaper, token_in, more_in)->Ok_0,
{
    let (reserve_in, reserve_out) = swap_sides(pool, token_in)->Some_0;
    let fee = pool.fee_bps as int;
    let lower_fee = cheaper.fee_bps as int;
    let out = swap_terms(pool, token_in, amount_in)->Ok_0 as int;
    lemma_constant_product_output(reserve_in as int, reserve_out as int, fee, amount_in);
    lemma_constant_product_output(reserve_in as int, reserve_out as int, lower_fee, more_in);
    let base = reserve_in * BPS_DENOMINATOR;
    let x = amount_in * (BPS_DENOMINATOR - fee);
    let y = more_in * (BPS_DENOMINATOR - lower_fee);
    assert(x <= y) by (nonlinear_arith)
        requires
            x == amount_in * (BPS_DENOMINATOR - fee),
            y == more_in * (BPS_DENOMINATOR - lower_fee),
            0 < amount_in <= more_in,
            0 <= lower_fee <= fee <= BPS_DENOMINATOR,
    ;
    assert(out * (base + y) <= y * reserve_out) by (nonlinear_arith)
        requires
            out * (base + x) <= x * reserve_out,
            x <= y,
            0 <= out <= reserve_out,
    ;
    lemma_quotient_is_largest(y * reserve_out, base + y, out);
}

} // verus!
