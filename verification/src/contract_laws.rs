//! What holds of the calls that the contract answers, taken one by one and in
//! any sequence.

use vstd::prelude::*;

use crate::address::{law_addresses_are_totally_ordered, Address};
use crate::contract::{
    add_liquidity_effects, add_liquidity_outcome, constructor_effects, fee_decision,
    remove_liquidity_effects, remove_liquidity_outcome, set_fee_effects, set_fee_outcome,
    setup_refusal, swap_exact_in_effects, swap_exact_in_outcome,
};
use crate::effects::{
    Effect, FeeUpdatedEvent, LiquidityAdded, LiquidityRemoved, SwapExactInEvent,
};
use crate::error::Error;
use crate::math::fits;
use crate::pool::{
    after_swap, deposit_terms, swap_terms, token_out, with_reserves_changed, withdrawal_terms,
    PoolState,
};
use crate::pool_laws::{
    law_deposit_does_not_dilute, law_deposit_keeps_pool_valid, law_swap_keeps_pool_valid,
    law_swap_never_lowers_product, law_withdrawal_does_not_dilute,
    law_withdrawal_in_parts_pays_no_more, law_withdrawal_keeps_pool_valid,
};

verus! {

// ---------------------------------------------------------------------------
// Refusals
// ---------------------------------------------------------------------------

/// None of the effects changes the stored pool.
pub open spec fn stores_nothing(effects: Seq<Effect>) -> bool {
    forall|i: int| 0 <= i < effects.len() ==> !(#[trigger] effects[i] is StoreState)
}

/// Exactly one of the effects stores a pool, and it is `pool`.
pub open spec fn stores_only(effects: Seq<Effect>, pool: PoolState) -> bool {
    &&& effects.contains(Effect::StoreState(pool))
    &&& forall|i: int, j: int|
        0 <= i < effects.len() && 0 <= j < effects.len() && (#[trigger] effects[i] is StoreState)
            && (#[trigger] effects[j] is StoreState) ==> i == j
}

/// A set-up that is refused asks nothing of the ledger; one that is granted
/// stores the opened pool, once.
pub proof fn law_constructor_stores_iff_granted(
    has_state: bool,
    token_a: Address,
    token_b: Address,
    fee_bps: u32,
    owner: Address,
    token_name: Vec<u8>,
    token_symbol: Vec<u8>,
)
    ensures
        ({
            let effects = constructor_effects(
                has_state,
                token_a,
                token_b,
                fee_bps,
                owner,
                token_name,
                token_symbol,
            );
            if setup_refusal(has_state, token_a, token_b, fee_bps) is Some {
                effects.len() == 0
            } else {
                stores_only(effects, PoolState::opened(token_a, token_b, fee_bps))
            }
        }),
{
    let effects = constructor_effects(
        has_state,
        token_a,
        token_b,
        fee_bps,
        owner,
        token_name,
        token_symbol,
    );
    if setup_refusal(has_state, token_a, token_b, fee_bps) is None {
        assert(effects[0] == Effect::StoreState(PoolState::opened(token_a, token_b, fee_bps)));
    }
}

/// A fee change that is refused leaves the stored pool alone; one that is
/// granted stores the changed pool, once.
pub proof fn law_set_fee_stores_iff_granted(
    stored: Option<PoolState>,
    caller: Address,
    new_fee_bps: u32,
)
    ensures
        ({
            let effects = set_fee_effects(stored, caller, new_fee_bps);
            match set_fee_outcome(stored, new_fee_bps) {
                Err(_) => stores_nothing(effects),
                Ok(_) => stores_only(effects, fee_decision(stored, new_fee_bps)->Ok_0),
            }
        }),
{
    let effects = set_fee_effects(stored, caller, new_fee_bps);
    if set_fee_outcome(stored, new_fee_bps) is Ok {
        assert(effects[1] == Effect::StoreState(fee_decision(stored, new_fee_bps)->Ok_0));
    }
}

/// A deposit that is refused leaves the stored pool alone; one that is granted
/// stores the pool with the amounts added, once.
pub proof fn law_add_liquidity_stores_iff_granted(
    stored: Option<PoolState>,
    total_lp: i128,
    contract: Address,
    provider: Address,
    amount_0_opt: i128,
    amount_1_opt: i128,
)
    ensures
        ({
            let effects = add_liquidity_effects(
                stored,
                total_lp,
                contract,
                provider,
                amount_0_opt,
                amount_1_opt,
            );
            match add_liquidity_outcome(stored, total_lp, amount_0_opt, amount_1_opt) {
                Err(_) => stores_nothing(effects),
                Ok((amount_0, amount_1, _)) => stores_only(
                    effects,
                    with_reserves_changed(
                        stored->Some_0,
                        amount_0 as int,
                        amount_1 as int,
                    )->Ok_0,
                ),
            }
        }),
{
    let effects = add_liquidity_effects(
        stored,
        total_lp,
        contract,
        provider,
        amount_0_opt,
        amount_1_opt,
    );
    if add_liquidity_outcome(stored, total_lp, amount_0_opt, amount_1_opt) is Ok {
        assert(effects[4] is StoreState);
    }
}

/// A withdrawal that is refused leaves the stored pool alone; one that is
/// granted stores the pool with the amounts taken off, once.
pub proof fn law_remove_liquidity_stores_iff_granted(
    stored: Option<PoolState>,
    user_lp: i128,
    total_lp: i128,
    contract: Address,
    provider: Address,
    lp_amount: i128,
    min_amount_0: i128,
    min_amount_1: i128,
)
    ensures
        ({
            let effects = remove_liquidity_effects(
                stored,
                user_lp,
                total_lp,
                contract,
                provider,
                lp_amount,
                min_amount_0,
                min_amount_1,
            );
            match remove_liquidity_outcome(
                stored,
                user_lp,
                total_lp,
                lp_amount,
                min_amount_0,
                min_amount_1,
            ) {
                Err(_) => stores_nothing(effects),
                Ok((amount_0, amount_1)) => stores_only(
                    effects,
                    with_reserves_changed(stored->Some_0, -amount_0, -amount_1)->Ok_0,
                ),
            }
        }),
{
    let effects = remove_liquidity_effects(
        stored,
        user_lp,
        total_lp,
        contract,
        provider,
        lp_amount,
        min_amount_0,
        min_amount_1,
    );
    if remove_liquidity_outcome(
        stored,
        user_lp,
        total_lp,
        lp_amount,
        min_amount_0,
        min_amount_1,
    ) is Ok {
        assert(effects[3] is StoreState);
    }
}

/// A swap that is refused leaves the stored pool alone; one that is granted
/// stores the pool after the swap, once.
pub proof fn law_swap_exact_in_stores_iff_granted(
    stored: Option<PoolState>,
    contract: Address,
    trader: Address,
    token_in: Address,
    amount_in: i128,
    min_amount_out: i128,
)
    ensures
        ({
            let effects = swap_exact_in_effects(
                stored,
                contract,
                trader,
                token_in,
                amount_in,
                min_amount_out,
            );
            match swap_exact_in_outcome(stored, token_in, amount_in, min_amount_out) {
                Err(_) => stores_nothing(effects),
                Ok(amount_out) => stores_only(
                    effects,
                    after_swap(
                        stored->Some_0,
                        token_in,
                        amount_in as int,
                        amount_out as int,
                    )->Ok_0,
                ),
            }
        }),
{
    let effects = swap_exact_in_effects(
        stored,
        contract,
        trader,
        token_in,
        amount_in,
        min_amount_out,
    );
    if swap_exact_in_outcome(stored, token_in, amount_in, min_amount_out) is Ok {
        assert(effects[3] is StoreState);
    }
}

// ---------------------------------------------------------------------------
// Announcements
// ---------------------------------------------------------------------------

/// The effect announces something.
pub open spec fn is_announcement(effect: Effect) -> bool {
    ||| effect is PublishFeeUpdated
    ||| effect is PublishLiquidityAdded
    ||| effect is PublishLiquidityRemoved
    ||| effect is PublishSwapExactIn
}

/// None of the effects announces anything.
pub open spec fn announces_nothing(effects: Seq<Effect>) -> bool {
    forall|i: int| 0 <= i < effects.len() ==> !is_announcement(#[trigger] effects[i])
}

/// The last of the effects is `announcement`, and no other announces anything.
pub open spec fn announces_last(effects: Seq<Effect>, announcement: Effect) -> bool {
    &&& effects.len() > 0
    &&& effects.last() == announcement
    &&& is_announcement(announcement)
    &&& announces_nothing(effects.drop_last())
}

/// A fee change is announced where it is granted, once and last, and nowhere
/// else.
pub proof fn law_set_fee_announces_iff_granted(
    stored: Option<PoolState>,
    caller: Address,
    new_fee_bps: u32,
)
    ensures
        ({
            let effects = set_fee_effects(stored, caller, new_fee_bps);
            match set_fee_outcome(stored, new_fee_bps) {
                Err(_) => announces_nothing(effects),
                Ok(_) => announces_last(
                    effects,
                    Effect::PublishFeeUpdated(
                        FeeUpdatedEvent {
                            owner: caller,
                            old_fee_bps: stored->Some_0.fee_bps,
                            new_fee_bps,
                        },
                    ),
                ),
            }
        }),
{
}

/// A deposit is announced where it is granted, once and last, with what it
/// answers, and nowhere else.
pub proof fn law_add_liquidity_announces_iff_granted(
    stored: Option<PoolState>,
    total_lp: i128,
    contract: Address,
    provider: Address,
    amount_0_opt: i128,
    amount_1_opt: i128,
)
    ensures
        ({
            let effects = add_liquidity_effects(
                stored,
                total_lp,
                contract,
                provider,
                amount_0_opt,
                amount_1_opt,
            );
            match add_liquidity_outcome(stored, total_lp, amount_0_opt, amount_1_opt) {
                Err(_) => announces_nothing(effects),
                Ok((amount_0, amount_1, lp_minted)) => announces_last(
                    effects,
                    Effect::PublishLiquidityAdded(
                        LiquidityAdded { provider, amount_0, amount_1, lp_minted },
                    ),
                ),
            }
        }),
{
}

/// A withdrawal is announced where it is granted, once and last, with what it
/// answers, and nowhere else.
pub proof fn law_remove_liquidity_announces_iff_granted(
    stored: Option<PoolState>,
    user_lp: i128,
    total_lp: i128,
    contract: Address,
    provider: Address,
    lp_amount: i128,
    min_amount_0: i128,
    min_amount_1: i128,
)
    ensures
        ({
            let effects = remove_liquidity_effects(
                stored,
                user_lp,
                total_lp,
                contract,
                provider,
                lp_amount,
                min_amount_0,
                min_amount_1,
            );
            match remove_liquidity_outcome(
                stored,
                user_lp,
                total_lp,
                lp_amount,
                min_amount_0,
                min_amount_1,
            ) {
                Err(_) => announces_nothing(effects),
                Ok((amount_0, amount_1)) => announces_last(
                    effects,
                    Effect::PublishLiquidityRemoved(
                        LiquidityRemoved { provider, amount_0, amount_1, lp_burned: lp_amount },
                    ),
                ),
            }
        }),
{
}

/// A swap is announced where it is granted, once and last, with what it
/// answers, and nowhere else.
pub proof fn law_swap_exact_in_announces_iff_granted(
    stored: Option<PoolState>,
    contract: Address,
    trader: Address,
    token_in: Address,
    amount_in: i128,
    min_amount_out: i128,
)
    ensures
        ({
            let effects = swap_exact_in_effects(
                stored,
                contract,
                trader,
                token_in,
                amount_in,
                min_amount_out,
            );
            match swap_exact_in_outcome(stored, token_in, amount_in, min_amount_out) {
                Err(_) => announces_nothing(effects),
                Ok(amount_out) => announces_last(
                    effects,
                    Effect::PublishSwapExactIn(
                        SwapExactInEvent {
                            token_in,
                            token_out: token_out(stored->Some_0, token_in),
                            trader,
                            amount_in,
                            amount_out,
                            fee_bps: stored->Some_0.fee_bps,
                        },
                    ),
                ),
            }
        }),
{
}

// ---------------------------------------------------------------------------
// What the caller is promised
// ---------------------------------------------------------------------------

/// A swap that is granted pays at least what the trader asked for.
pub proof fn law_swap_pays_the_minimum(
    stored: Option<PoolState>,
    token_in: Address,
    amount_in: i128,
    min_amount_out: i128,
)
    ensures
        swap_exact_in_outcome(stored, token_in, amount_in, min_amount_out) matches Ok(amount_out)
            ==> amount_out >= min_amount_out,
{
}

/// A withdrawal that is granted pays at least what the provider asked for.
pub proof fn law_withdrawal_pays_the_minimum(
    stored: Option<PoolState>,
    user_lp: i128,
    total_lp: i128,
    lp_amount: i128,
    min_amount_0: i128,
    min_amount_1: i128,
)
    ensures
        remove_liquidity_outcome(
            stored,
            user_lp,
            total_lp,
            lp_amount,
            min_amount_0,
            min_amount_1,
        ) matches Ok((amount_0, amount_1)) ==> amount_0 >= min_amount_0 && amount_1
            >= min_amount_1,
{
}

/// A provider who withdraws in two calls never gets more of either token than
/// in one call for the same liquidity tokens, whatever minimums are asked for.
/// Nobody holds more liquidity tokens than there are.
pub proof fn law_remove_liquidity_in_parts_pays_no_more(
    pool: PoolState,
    user_lp: i128,
    total_lp: i128,
    first: i128,
    second: i128,
    first_minimums: (i128, i128),
    second_minimums: (i128, i128),
    minimums: (i128, i128),
)
    requires
        0 <= pool.reserve_0,
        0 <= pool.reserve_1,
        user_lp <= total_lp,
        fits(first + second),
    ensures
        remove_liquidity_outcome(
            Some(pool),
            user_lp,
            total_lp,
            first,
            first_minimums.0,
            first_minimums.1,
        ) matches Ok(paid) ==> remove_liquidity_outcome(
            Some(with_reserves_changed(pool, -paid.0, -paid.1)->Ok_0),
            (user_lp - first) as i128,
            (total_lp - first) as i128,
            second,
            second_minimums.0,
            second_minimums.1,
        ) matches Ok(then_paid) ==> remove_liquidity_outcome(
            Some(pool),
            user_lp,
            total_lp,
            (first + second) as i128,
            minimums.0,
            minimums.1,
        ) matches Ok(at_once) ==> paid.0 + then_paid.0 <= at_once.0 && paid.1 + then_paid.1
            <= at_once.1,
{
    if 0 < first && 0 < second && first + second <= user_lp && withdrawal_terms(
        pool,
        total_lp as int,
        first as int,
    ) is Ok && withdrawal_terms(pool, total_lp as int, first + second) is Ok {
        law_withdrawal_in_parts_pays_no_more(pool, total_lp as int, first as int, second as int);
    }
}

/// A contract that was never set up refuses every call as not initialized.
pub proof fn law_nothing_works_before_setup(
    total_lp: i128,
    user_lp: i128,
    token_in: Address,
    amount_0: i128,
    amount_1: i128,
    new_fee_bps: u32,
)
    ensures
        set_fee_outcome(None, new_fee_bps) == Err::<(), Error>(Error::NotInitialized),
        add_liquidity_outcome(None, total_lp, amount_0, amount_1) == Err::<
            (i128, i128, i128),
            Error,
        >(Error::NotInitialized),
        remove_liquidity_outcome(None, user_lp, total_lp, amount_0, amount_0, amount_1) == Err::<
            (i128, i128),
            Error,
        >(Error::NotInitialized),
        swap_exact_in_outcome(None, token_in, amount_0, amount_1) == Err::<i128, Error>(
            Error::NotInitialized,
        ),
{
}

/// Every transfer of someone else's tokens comes after a demand for their
/// authorization.
pub open spec fn transfers_are_authorized(effects: Seq<Effect>, contract: Address) -> bool {
    forall|i: int|
        0 <= i < effects.len() ==> (#[trigger] effects[i] matches Effect::Transfer { from, .. }
            ==> from == contract || exists|j: int|
            0 <= j < i && #[trigger] effects[j] == Effect::RequireAuth(from))
}

/// No call moves tokens of anyone but the contract without their authorization.
pub proof fn law_transfers_are_authorized(
    stored: Option<PoolState>,
    user_lp: i128,
    total_lp: i128,
    contract: Address,
    caller: Address,
    token_in: Address,
    amount: i128,
    bound_0: i128,
    bound_1: i128,
)
    ensures
        transfers_are_authorized(
            add_liquidity_effects(stored, total_lp, contract, caller, bound_0, bound_1),
            contract,
        ),
        transfers_are_authorized(
            remove_liquidity_effects(
                stored,
                user_lp,
                total_lp,
                contract,
                caller,
                amount,
                bound_0,
                bound_1,
            ),
            contract,
        ),
        transfers_are_authorized(
            swap_exact_in_effects(stored, contract, caller, token_in, amount, bound_0),
            contract,
        ),
{
    let added = add_liquidity_effects(stored, total_lp, contract, caller, bound_0, bound_1);
    assert(added[0] == Effect::RequireAuth(caller));
    let swapped = swap_exact_in_effects(stored, contract, caller, token_in, amount, bound_0);
    assert(swapped[0] == Effect::RequireAuth(caller));
}

/// Only the owner can change the fee: the demand for the owner's authorization
/// comes first, whatever the call goes on to do.
pub proof fn law_fee_change_needs_owner(
    stored: Option<PoolState>,
    caller: Address,
    new_fee_bps: u32,
)
    ensures
        set_fee_effects(stored, caller, new_fee_bps).len() > 0,
        set_fee_effects(stored, caller, new_fee_bps)[0] == Effect::RequireOwnerAuth,
{
}

// ---------------------------------------------------------------------------
// Accounting
// ---------------------------------------------------------------------------

/// How much of `token` an effect brings to `account`, less what it takes away.
pub open spec fn received(effect: Effect, token: Address, account: Address) -> int {
    match effect {
        Effect::Transfer { token: moved, from, to, amount } => if moved != token || from == to {
            0
        } else if to == account {
            amount as int
        } else if from == account {
            -amount
        } else {
            0
        },
        _ => 0,
    }
}

/// How many liquidity tokens an effect creates, less those it destroys.
pub open spec fn issued(effect: Effect) -> int {
    match effect {
        Effect::MintLp { amount, .. } => amount as int,
        Effect::BurnLp { amount, .. } => -amount,
        _ => 0,
    }
}

/// What `measure` gives for the effects, added up.
pub open spec fn sum_over(effects: Seq<Effect>, measure: spec_fn(Effect) -> int) -> int
    decreases effects.len(),
{
    if effects.len() == 0 {
        0
    } else {
        sum_over(effects.drop_last(), measure) + measure(effects.last())
    }
}

/// How much of `token` the effects bring to `account` in all.
pub open spec fn net_received(effects: Seq<Effect>, token: Address, account: Address) -> int {
    sum_over(effects, |effect: Effect| received(effect, token, account))
}

/// How many liquidity tokens the effects create in all.
pub open spec fn net_issued(effects: Seq<Effect>) -> int {
    sum_over(effects, |effect: Effect| issued(effect))
}

spec fn measure_at(effects: Seq<Effect>, measure: spec_fn(Effect) -> int, i: int) -> int {
    if i < effects.len() {
        measure(effects[i])
    } else {
        0
    }
}

proof fn lemma_sum_over_unfolded(effects: Seq<Effect>, measure: spec_fn(Effect) -> int)
    requires
        effects.len() <= 6,
    ensures
        sum_over(effects, measure) == measure_at(effects, measure, 0) + measure_at(
            effects,
            measure,
            1,
        ) + measure_at(effects, measure, 2) + measure_at(effects, measure, 3) + measure_at(
            effects,
            measure,
            4,
        ) + measure_at(effects, measure, 5),
    decreases effects.len(),
{
    if effects.len() > 0 {
        lemma_sum_over_unfolded(effects.drop_last(), measure);
    }
}

proof fn lemma_net_received_unfolded(effects: Seq<Effect>, token: Address, account: Address)
    requires
        effects.len() <= 6,
    ensures
        ({
            let measure = |effect: Effect| received(effect, token, account);
            net_received(effects, token, account) == measure_at(effects, measure, 0) + measure_at(
                effects,
                measure,
                1,
            ) + measure_at(effects, measure, 2) + measure_at(effects, measure, 3) + measure_at(
                effects,
                measure,
                4,
            ) + measure_at(effects, measure, 5)
        }),
{
    lemma_sum_over_unfolded(effects, |effect: Effect| received(effect, token, account));
}

/// Setting the contract up and a fee change issue no liquidity tokens.
pub proof fn law_setup_and_set_fee_issue_nothing(
    has_state: bool,
    token_a: Address,
    token_b: Address,
    fee_bps: u32,
    owner: Address,
    token_name: Vec<u8>,
    token_symbol: Vec<u8>,
    stored: Option<PoolState>,
    caller: Address,
    new_fee_bps: u32,
)
    ensures
        net_issued(
            constructor_effects(
                has_state,
                token_a,
                token_b,
                fee_bps,
                owner,
                token_name,
                token_symbol,
            ),
        ) == 0,
        net_issued(set_fee_effects(stored, caller, new_fee_bps)) == 0,
{
    let measure = |effect: Effect| issued(effect);
    lemma_sum_over_unfolded(
        constructor_effects(
            has_state,
            token_a,
            token_b,
            fee_bps,
            owner,
            token_name,
            token_symbol,
        ),
        measure,
    );
    lemma_sum_over_unfolded(set_fee_effects(stored, caller, new_fee_bps), measure);
}

/// A deposit that is granted issues exactly the liquidity tokens that it
/// answers.
pub proof fn law_add_liquidity_issues_what_it_answers(
    stored: Option<PoolState>,
    total_lp: i128,
    contract: Address,
    provider: Address,
    amount_0_opt: i128,
    amount_1_opt: i128,
)
    ensures
        add_liquidity_outcome(stored, total_lp, amount_0_opt, amount_1_opt) matches Ok((_, _, lp_minted))
            ==> net_issued(
            add_liquidity_effects(
                stored,
                total_lp,
                contract,
                provider,
                amount_0_opt,
                amount_1_opt,
            ),
        ) == lp_minted,
{
    lemma_sum_over_unfolded(
        add_liquidity_effects(stored, total_lp, contract, provider, amount_0_opt, amount_1_opt),
        |effect: Effect| issued(effect),
    );
}

/// A withdrawal that is granted destroys exactly the liquidity tokens that are
/// turned in.
pub proof fn law_remove_liquidity_destroys_what_is_turned_in(
    stored: Option<PoolState>,
    user_lp: i128,
    total_lp: i128,
    contract: Address,
    provider: Address,
    lp_amount: i128,
    min_amount_0: i128,
    min_amount_1: i128,
)
    ensures
        remove_liquidity_outcome(
            stored,
            user_lp,
            total_lp,
            lp_amount,
            min_amount_0,
            min_amount_1,
        ) is Ok ==> net_issued(
            remove_liquidity_effects(
                stored,
                user_lp,
                total_lp,
                contract,
                provider,
                lp_amount,
                min_amount_0,
                min_amount_1,
            ),
        ) == -lp_amount,
{
    lemma_sum_over_unfolded(
        remove_liquidity_effects(
            stored,
            user_lp,
            total_lp,
            contract,
            provider,
            lp_amount,
            min_amount_0,
            min_amount_1,
        ),
        |effect: Effect| issued(effect),
    );
}

/// A swap issues no liquidity tokens.
pub proof fn law_swap_exact_in_issues_nothing(
    stored: Option<PoolState>,
    contract: Address,
    trader: Address,
    token_in: Address,
    amount_in: i128,
    min_amount_out: i128,
)
    ensures
        net_issued(
            swap_exact_in_effects(
                stored,
                contract,
                trader,
                token_in,
                amount_in,
                min_amount_out,
            ),
        ) == 0,
{
    lemma_sum_over_unfolded(
        swap_exact_in_effects(stored, contract, trader, token_in, amount_in, min_amount_out),
        |effect: Effect| issued(effect),
    );
}

/// The reserves that a deposit stores grew by exactly what it brought to the
/// contract of either token.
pub proof fn law_add_liquidity_accounts(
    pool: PoolState,
    total_lp: i128,
    contract: Address,
    provider: Address,
    amount_0_opt: i128,
    amount_1_opt: i128,
)
    requires
        pool.wf(),
        provider != contract,
        add_liquidity_outcome(Some(pool), total_lp, amount_0_opt, amount_1_opt) is Ok,
    ensures
        ({
            let effects = add_liquidity_effects(
                Some(pool),
                total_lp,
                contract,
                provider,
                amount_0_opt,
                amount_1_opt,
            );
            with_reserves_changed(
                pool,
                net_received(effects, pool.token_0, contract),
                net_received(effects, pool.token_1, contract),
            ) matches Ok(next) && stores_only(effects, next)
        }),
{
    law_addresses_are_totally_ordered(pool.token_0, pool.token_1, pool.token_0);
    law_add_liquidity_stores_iff_granted(
        Some(pool),
        total_lp,
        contract,
        provider,
        amount_0_opt,
        amount_1_opt,
    );
    let effects = add_liquidity_effects(
        Some(pool),
        total_lp,
        contract,
        provider,
        amount_0_opt,
        amount_1_opt,
    );
    lemma_net_received_unfolded(effects, pool.token_0, contract);
    lemma_net_received_unfolded(effects, pool.token_1, contract);
}

/// The reserves that a withdrawal stores fell by exactly what it took from the
/// contract of either token.
pub proof fn law_remove_liquidity_accounts(
    pool: PoolState,
    user_lp: i128,
    total_lp: i128,
    contract: Address,
    provider: Address,
    lp_amount: i128,
    min_amount_0: i128,
    min_amount_1: i128,
)
    requires
        pool.wf(),
        provider != contract,
        remove_liquidity_outcome(
            Some(pool),
            user_lp,
            total_lp,
            lp_amount,
            min_amount_0,
            min_amount_1,
        ) is Ok,
    ensures
        ({
            let effects = remove_liquidity_effects(
                Some(pool),
                user_lp,
                total_lp,
                contract,
                provider,
                lp_amount,
                min_amount_0,
                min_amount_1,
            );
            with_reserves_changed(
                pool,
                net_received(effects, pool.token_0, contract),
                net_received(effects, pool.token_1, contract),
            ) matches Ok(next) && stores_only(effects, next)
        }),
{
    law_addresses_are_totally_ordered(pool.token_0, pool.token_1, pool.token_0);
    law_remove_liquidity_stores_iff_granted(
        Some(pool),
        user_lp,
        total_lp,
        contract,
        provider,
        lp_amount,
        min_amount_0,
        min_amount_1,
    );
    let effects = remove_liquidity_effects(
        Some(pool),
        user_lp,
        total_lp,
        contract,
        provider,
        lp_amount,
        min_amount_0,
        min_amount_1,
    );
    lemma_net_received_unfolded(effects, pool.token_0, contract);
    lemma_net_received_unfolded(effects, pool.token_1, contract);
}

/// The reserves that a swap stores changed by exactly what it brought to the
/// contract, and took from it, of either token.
pub proof fn law_swap_exact_in_accounts(
    pool: PoolState,
    contract: Address,
    trader: Address,
    token_in: Address,
    amount_in: i128,
    min_amount_out: i128,
)
    requires
        pool.wf(),
        trader != contract,
        swap_exact_in_outcome(Some(pool), token_in, amount_in, min_amount_out) is Ok,
    ensures
        ({
            let effects = swap_exact_in_effects(
                Some(pool),
                contract,
                trader,
                token_in,
                amount_in,
                min_amount_out,
            );
            with_reserves_changed(
                pool,
                net_received(effects, pool.token_0, contract),
                net_received(effects, pool.token_1, contract),
            ) matches Ok(next) && stores_only(effects, next)
        }),
{
    law_addresses_are_totally_ordered(pool.token_0, pool.token_1, pool.token_0);
    law_swap_exact_in_stores_iff_granted(
        Some(pool),
        contract,
        trader,
        token_in,
        amount_in,
        min_amount_out,
    );
    let effects = swap_exact_in_effects(
        Some(pool),
        contract,
        trader,
        token_in,
        amount_in,
        min_amount_out,
    );
    lemma_net_received_unfolded(effects, pool.token_0, contract);
    lemma_net_received_unfolded(effects, pool.token_1, contract);
}

// ---------------------------------------------------------------------------
// Histories
// ---------------------------------------------------------------------------

/// Something that can happen to a pool and to the liquidity tokens in
/// circulation.
pub enum Happening {
    /// The owner asks for another fee.
    FeeChange { caller: Address, new_fee_bps: u32 },
    /// A provider offers liquidity.
    Deposit { provider: Address, offer_0: i128, offer_1: i128 },
    /// A provider who holds `user_lp` liquidity tokens turns some of them in.
    Withdrawal {
        provider: Address,
        user_lp: i128,
        lp_amount: i128,
        min_amount_0: i128,
        min_amount_1: i128,
    },
    /// A trader pays in one of the tokens.
    Swap { trader: Address, token_in: Address, amount_in: i128, min_amount_out: i128 },
    /// A holder destroys liquidity tokens without turning them in.
    Destruction { lp_amount: i128 },
}

/// Whether it comes to pass. The contract has to grant it, the supply of
/// liquidity tokens has to fit, and nobody holds or destroys more of them than
/// there are. The authorizations and transfers that the contract asks for are
/// taken to succeed: a call that one of them stops is as if it had not been
/// made.
pub open spec fn comes_to_pass(pool: PoolState, total_lp: i128, happening: Happening) -> bool {
    match happening {
        Happening::FeeChange { caller, new_fee_bps } => set_fee_outcome(
            Some(pool),
            new_fee_bps,
        ) is Ok,
        Happening::Deposit { provider, offer_0, offer_1 } => add_liquidity_outcome(
            Some(pool),
            total_lp,
            offer_0,
            offer_1,
        ) matches Ok((_, _, lp_minted)) && fits(total_lp + lp_minted),
        Happening::Withdrawal { provider, user_lp, lp_amount, min_amount_0, min_amount_1 } => {
            user_lp <= total_lp && remove_liquidity_outcome(
                Some(pool),
                user_lp,
                total_lp,
                lp_amount,
                min_amount_0,
                min_amount_1,
            ) is Ok
        },
        Happening::Swap { trader, token_in, amount_in, min_amount_out } => swap_exact_in_outcome(
            Some(pool),
            token_in,
            amount_in,
            min_amount_out,
        ) is Ok,
        Happening::Destruction { lp_amount } => 0 <= lp_amount <= total_lp,
    }
}

/// The pool and the liquidity tokens in circulation after it: as before where
/// it does not come to pass.
pub open spec fn after(pool: PoolState, total_lp: i128, happening: Happening) -> (PoolState, i128) {
    if !comes_to_pass(pool, total_lp, happening) {
        (pool, total_lp)
    } else {
        match happening {
            Happening::FeeChange { caller, new_fee_bps } => (
                fee_decision(Some(pool), new_fee_bps)->Ok_0,
                total_lp,
            ),
            Happening::Deposit { provider, offer_0, offer_1 } => {
                let (amount_0, amount_1, lp_minted) = add_liquidity_outcome(
                    Some(pool),
                    total_lp,
                    offer_0,
                    offer_1,
                )->Ok_0;
                (
                    with_reserves_changed(pool, amount_0 as int, amount_1 as int)->Ok_0,
                    (total_lp + lp_minted) as i128,
                )
            },
            Happening::Withdrawal { provider, user_lp, lp_amount, min_amount_0, min_amount_1 } => {
                let (amount_0, amount_1) = remove_liquidity_outcome(
                    Some(pool),
                    user_lp,
                    total_lp,
                    lp_amount,
                    min_amount_0,
                    min_amount_1,
                )->Ok_0;
                (
                    with_reserves_changed(pool, -amount_0, -amount_1)->Ok_0,
                    (total_lp - lp_amount) as i128,
                )
            },
            Happening::Swap { trader, token_in, amount_in, min_amount_out } => {
                let amount_out = swap_exact_in_outcome(
                    Some(pool),
                    token_in,
                    amount_in,
                    min_amount_out,
                )->Ok_0;
                (after_swap(pool, token_in, amount_in as int, amount_out as int)->Ok_0, total_lp)
            },
            Happening::Destruction { lp_amount } => (pool, (total_lp - lp_amount) as i128),
        }
    }
}

/// The effects of the contract's answer that stay on the ledger: none where it
/// does not come to pass, and none where the contract is not called.
pub open spec fn lasting_effects(
    contract: Address,
    pool: PoolState,
    total_lp: i128,
    happening: Happening,
) -> Seq<Effect> {
    if !comes_to_pass(pool, total_lp, happening) {
        seq![]
    } else {
        match happening {
            Happening::FeeChange { caller, new_fee_bps } => set_fee_effects(
                Some(pool),
                caller,
                new_fee_bps,
            ),
            Happening::Deposit { provider, offer_0, offer_1 } => add_liquidity_effects(
                Some(pool),
                total_lp,
                contract,
                provider,
                offer_0,
                offer_1,
            ),
            Happening::Withdrawal { provider, user_lp, lp_amount, min_amount_0, min_amount_1 } => {
                remove_liquidity_effects(
                    Some(pool),
                    user_lp,
                    total_lp,
                    contract,
                    provider,
                    lp_amount,
                    min_amount_0,
                    min_amount_1,
                )
            },
            Happening::Swap { trader, token_in, amount_in, min_amount_out } => {
                swap_exact_in_effects(
                    Some(pool),
                    contract,
                    trader,
                    token_in,
                    amount_in,
                    min_amount_out,
                )
            },
            Happening::Destruction { lp_amount } => seq![],
        }
    }
}

/// The liquidity tokens that are destroyed without the contract being called.
pub open spec fn destroyed(pool: PoolState, total_lp: i128, happening: Happening) -> int {
    match happening {
        Happening::Destruction { lp_amount } => if comes_to_pass(pool, total_lp, happening) {
            lp_amount as int
        } else {
            0
        },
        _ => 0,
    }
}

/// The contract itself is not the one who pays in or is paid.
pub open spec fn between_others(contract: Address, happening: Happening) -> bool {
    match happening {
        Happening::Deposit { provider, .. } => provider != contract,
        Happening::Withdrawal { provider, .. } => provider != contract,
        Happening::Swap { trader, .. } => trader != contract,
        _ => true,
    }
}

/// The pool and the supply of liquidity tokens follow the effects: the pool is
/// the one that they store, or as before where there are none, and the supply
/// changes by what they issue, less what is destroyed without the contract.
pub proof fn law_happening_follows_effects(
    contract: Address,
    pool: PoolState,
    total_lp: i128,
    happening: Happening,
)
    ensures
        ({
            let effects = lasting_effects(contract, pool, total_lp, happening);
            let (next, next_lp) = after(pool, total_lp, happening);
            &&& if effects.len() == 0 {
                next == pool
            } else {
                stores_only(effects, next)
            }
            &&& next_lp == total_lp + net_issued(effects) - destroyed(pool, total_lp, happening)
        }),
{
    let effects = lasting_effects(contract, pool, total_lp, happening);
    lemma_sum_over_unfolded(effects, |effect: Effect| issued(effect));
    if comes_to_pass(pool, total_lp, happening) {
        match happening {
            Happening::FeeChange { caller, new_fee_bps } => {
                law_set_fee_stores_iff_granted(Some(pool), caller, new_fee_bps);
            },
            Happening::Deposit { provider, offer_0, offer_1 } => {
                law_add_liquidity_stores_iff_granted(
                    Some(pool),
                    total_lp,
                    contract,
                    provider,
                    offer_0,
                    offer_1,
                );
            },
            Happening::Withdrawal { provider, user_lp, lp_amount, min_amount_0, min_amount_1 } => {
                law_remove_liquidity_stores_iff_granted(
                    Some(pool),
                    user_lp,
                    total_lp,
                    contract,
                    provider,
                    lp_amount,
                    min_amount_0,
                    min_amount_1,
                );
            },
            Happening::Swap { trader, token_in, amount_in, min_amount_out } => {
                law_swap_exact_in_stores_iff_granted(
                    Some(pool),
                    contract,
                    trader,
                    token_in,
                    amount_in,
                    min_amount_out,
                );
            },
            Happening::Destruction { lp_amount } => {},
        }
    }
}

/// The reserves change by exactly what the effects bring to the contract of
/// either token.
pub proof fn law_happening_accounts(
    contract: Address,
    pool: PoolState,
    total_lp: i128,
    happening: Happening,
)
    requires
        pool.wf(),
        between_others(contract, happening),
    ensures
        ({
            let effects = lasting_effects(contract, pool, total_lp, happening);
            let next = after(pool, total_lp, happening).0;
            &&& next.reserve_0 == pool.reserve_0 + net_received(effects, pool.token_0, contract)
            &&& next.reserve_1 == pool.reserve_1 + net_received(effects, pool.token_1, contract)
        }),
{
    let effects = lasting_effects(contract, pool, total_lp, happening);
    law_addresses_are_totally_ordered(pool.token_0, pool.token_1, pool.token_0);
    lemma_net_received_unfolded(effects, pool.token_0, contract);
    lemma_net_received_unfolded(effects, pool.token_1, contract);
}

/// Whatever happens to a valid pool that backs its liquidity tokens, it stays
/// one. This is why its divisors are never zero while liquidity tokens are in
/// circulation.
pub proof fn law_pool_stays_valid(pool: PoolState, total_lp: i128, happening: Happening)
    requires
        pool.wf(),
        pool.backs(total_lp as int),
    ensures
        after(pool, total_lp, happening).0.wf(),
        after(pool, total_lp, happening).0.backs(after(pool, total_lp, happening).1 as int),
{
    let total = total_lp as int;
    match happening {
        Happening::FeeChange { .. } => {},
        Happening::Deposit { provider, offer_0, offer_1 } => {
            if deposit_terms(pool, total, offer_0 as int, offer_1 as int) is Ok {
                law_deposit_keeps_pool_valid(pool, total, offer_0 as int, offer_1 as int);
            }
        },
        Happening::Withdrawal { provider, user_lp, lp_amount, min_amount_0, min_amount_1 } => {
            if 0 < lp_amount <= total && withdrawal_terms(pool, total, lp_amount as int) is Ok {
                law_withdrawal_keeps_pool_valid(pool, total, lp_amount as int);
            }
        },
        Happening::Swap { trader, token_in, amount_in, min_amount_out } => {
            if swap_terms(pool, token_in, amount_in as int) is Ok {
                law_swap_keeps_pool_valid(pool, total, token_in, amount_in as int);
            }
        },
        Happening::Destruction { lp_amount } => {},
    }
}

/// The tokens of a pool are set when it is opened.
pub proof fn law_tokens_never_change(pool: PoolState, total_lp: i128, happening: Happening)
    ensures
        after(pool, total_lp, happening).0.token_0 == pool.token_0,
        after(pool, total_lp, happening).0.token_1 == pool.token_1,
{
}

/// Only a fee change changes the fee.
pub proof fn law_fee_changes_only_by_fee_change(
    pool: PoolState,
    total_lp: i128,
    happening: Happening,
)
    requires
        !(happening is FeeChange),
    ensures
        after(pool, total_lp, happening).0.fee_bps == pool.fee_bps,
{
}

/// A liquidity token never loses value: its part of the product of the
/// reserves, by the square of what is in circulation, never falls, as long as
/// liquidity tokens are in circulation before and after.
pub proof fn law_liquidity_token_keeps_value(
    pool: PoolState,
    total_lp: i128,
    happening: Happening,
)
    requires
        pool.wf(),
        pool.backs(total_lp as int),
        total_lp > 0,
        after(pool, total_lp, happening).1 > 0,
    ensures
        ({
            let (next, next_lp) = after(pool, total_lp, happening);
            (next.reserve_0 * total_lp) * (next.reserve_1 * total_lp) >= (pool.reserve_0 * next_lp)
                * (pool.reserve_1 * next_lp)
        }),
{
    let total = total_lp as int;
    let next = after(pool, total_lp, happening).0;
    let next_lp = after(pool, total_lp, happening).1 as int;
    let a = pool.reserve_0 as int;
    let b = pool.reserve_1 as int;
    let c = next.reserve_0 as int;
    let d = next.reserve_1 as int;
    law_pool_stays_valid(pool, total_lp, happening);
    match happening {
        Happening::Deposit { provider, offer_0, offer_1 } => {
            if deposit_terms(pool, total, offer_0 as int, offer_1 as int) is Ok {
                law_deposit_does_not_dilute(pool, total, offer_0 as int, offer_1 as int);
            }
            lemma_value_by_reserves(a, b, c, d, total, next_lp);
        },
        Happening::Withdrawal { provider, user_lp, lp_amount, min_amount_0, min_amount_1 } => {
            if 0 < lp_amount <= total && withdrawal_terms(pool, total, lp_amount as int) is Ok {
                law_withdrawal_does_not_dilute(pool, total, lp_amount as int);
            }
            lemma_value_by_reserves(a, b, c, d, total, next_lp);
        },
        Happening::Swap { trader, token_in, amount_in, min_amount_out } => {
            if swap_terms(pool, token_in, amount_in as int) is Ok {
                law_swap_never_lowers_product(pool, token_in, amount_in as int);
            }
            lemma_value_by_product(a, b, c, d, total);
        },
        _ => {
            assert(a * total >= a * next_lp && b * total >= b * next_lp) by (nonlinear_arith)
                requires
                    a >= 0,
                    b >= 0,
                    total >= next_lp,
            ;
            lemma_value_by_reserves(a, b, c, d, total, next_lp);
        },
    }
}

proof fn lemma_value_by_reserves(a: int, b: int, c: int, d: int, total: int, next_lp: int)
    by (nonlinear_arith)
    requires
        0 <= a,
        0 <= b,
        0 < next_lp,
        c * total >= a * next_lp,
        d * total >= b * next_lp,
    ensures
        (c * total) * (d * total) >= (a * next_lp) * (b * next_lp),
{
    assert(a * next_lp >= 0);
    assert(b * next_lp >= 0);
}

proof fn lemma_value_by_product(a: int, b: int, c: int, d: int, total: int)
    by (nonlinear_arith)
    requires
        c * d >= a * b,
    ensures
        (c * total) * (d * total) >= (a * total) * (b * total),
{
    assert((c * total) * (d * total) == (c * d) * (total * total));
    assert((a * total) * (b * total) == (a * b) * (total * total));
    assert(total * total >= 0);
}

/// The pool and the liquidity tokens after a sequence of happenings.
pub open spec fn after_all(pool: PoolState, total_lp: i128, happenings: Seq<Happening>) -> (
    PoolState,
    i128,
)
    decreases happenings.len(),
{
    if happenings.len() == 0 {
        (pool, total_lp)
    } else {
        let (last_pool, last_lp) = after_all(pool, total_lp, happenings.drop_last());
        after(last_pool, last_lp, happenings.last())
    }
}

/// The effects that stay on the ledger after a sequence of happenings, in
/// order.
pub open spec fn all_lasting_effects(
    contract: Address,
    pool: PoolState,
    total_lp: i128,
    happenings: Seq<Happening>,
) -> Seq<Effect>
    decreases happenings.len(),
{
    if happenings.len() == 0 {
        seq![]
    } else {
        let (last_pool, last_lp) = after_all(pool, total_lp, happenings.drop_last());
        all_lasting_effects(contract, pool, total_lp, happenings.drop_last()) + lasting_effects(
            contract,
            last_pool,
            last_lp,
            happenings.last(),
        )
    }
}

/// The liquidity tokens destroyed in a sequence of happenings without the
/// contract being called.
pub open spec fn all_destroyed(
    pool: PoolState,
    total_lp: i128,
    happenings: Seq<Happening>,
) -> int
    decreases happenings.len(),
{
    if happenings.len() == 0 {
        0
    } else {
        let (last_pool, last_lp) = after_all(pool, total_lp, happenings.drop_last());
        all_destroyed(pool, total_lp, happenings.drop_last()) + destroyed(
            last_pool,
            last_lp,
            happenings.last(),
        )
    }
}

proof fn lemma_sum_over_concat(
    first: Seq<Effect>,
    second: Seq<Effect>,
    measure: spec_fn(Effect) -> int,
)
    ensures
        sum_over(first + second, measure) == sum_over(first, measure) + sum_over(second, measure),
    decreases second.len(),
{
    if second.len() == 0 {
        assert(first + second =~= first);
    } else {
        lemma_sum_over_concat(first, second.drop_last(), measure);
        assert((first + second).drop_last() =~= first + second.drop_last());
    }
}

/// From its opening on, whatever has happened to it, a pool is valid, backs
/// its liquidity tokens, and is the pool of the tokens that it was opened for.
pub proof fn law_every_history_is_valid(
    token_a: Address,
    token_b: Address,
    fee_bps: u32,
    happenings: Seq<Happening>,
)
    requires
        setup_refusal(false, token_a, token_b, fee_bps) is None,
    ensures
        ({
            let opened = PoolState::opened(token_a, token_b, fee_bps);
            let (pool, total_lp) = after_all(opened, 0, happenings);
            &&& pool.wf()
            &&& pool.backs(total_lp as int)
            &&& pool.token_0 == opened.token_0
            &&& pool.token_1 == opened.token_1
        }),
    decreases happenings.len(),
{
    let opened = PoolState::opened(token_a, token_b, fee_bps);
    if happenings.len() == 0 {
        law_addresses_are_totally_ordered(token_a, token_b, token_a);
    } else {
        law_every_history_is_valid(token_a, token_b, fee_bps, happenings.drop_last());
        let (pool, total_lp) = after_all(opened, 0, happenings.drop_last());
        law_pool_stays_valid(pool, total_lp, happenings.last());
        law_tokens_never_change(pool, total_lp, happenings.last());
    }
}

/// The supply of liquidity tokens after any history is what it was, and what
/// the effects have issued, less what was destroyed without the contract.
pub proof fn law_supply_is_what_effects_issued(
    contract: Address,
    pool: PoolState,
    total_lp: i128,
    happenings: Seq<Happening>,
)
    ensures
        after_all(pool, total_lp, happenings).1 == total_lp + net_issued(
            all_lasting_effects(contract, pool, total_lp, happenings),
        ) - all_destroyed(pool, total_lp, happenings),
    decreases happenings.len(),
{
    if happenings.len() > 0 {
        let before = happenings.drop_last();
        law_supply_is_what_effects_issued(contract, pool, total_lp, before);
        let (last_pool, last_lp) = after_all(pool, total_lp, before);
        law_happening_follows_effects(contract, last_pool, last_lp, happenings.last());
        lemma_sum_over_concat(
            all_lasting_effects(contract, pool, total_lp, before),
            lasting_effects(contract, last_pool, last_lp, happenings.last()),
            |effect: Effect| issued(effect),
        );
    }
}

/// The reserves after any history since the opening are what the effects have
/// brought to the contract of either token.
pub proof fn law_reserves_are_what_effects_brought(
    contract: Address,
    token_a: Address,
    token_b: Address,
    fee_bps: u32,
    happenings: Seq<Happening>,
)
    requires
        setup_refusal(false, token_a, token_b, fee_bps) is None,
        forall|i: int|
            0 <= i < happenings.len() ==> between_others(contract, #[trigger] happenings[i]),
    ensures
        ({
            let opened = PoolState::opened(token_a, token_b, fee_bps);
            let pool = after_all(opened, 0, happenings).0;
            let effects = all_lasting_effects(contract, opened, 0, happenings);
            &&& pool.reserve_0 == net_received(effects, pool.token_0, contract)
            &&& pool.reserve_1 == net_received(effects, pool.token_1, contract)
        }),
    decreases happenings.len(),
{
    let opened = PoolState::opened(token_a, token_b, fee_bps);
    if happenings.len() > 0 {
        let before = happenings.drop_last();
        law_reserves_are_what_effects_brought(contract, token_a, token_b, fee_bps, before);
        law_every_history_is_valid(token_a, token_b, fee_bps, before);
        let (pool, total_lp) = after_all(opened, 0, before);
        law_tokens_never_change(pool, total_lp, happenings.last());
        law_happening_accounts(contract, pool, total_lp, happenings.last());
        let earlier = all_lasting_effects(contract, opened, 0, before);
        let latest = lasting_effects(contract, pool, total_lp, happenings.last());
        lemma_sum_over_concat(
            earlier,
            latest,
            |effect: Effect| received(effect, pool.token_0, contract),
        );
        lemma_sum_over_concat(
            earlier,
            latest,
            |effect: Effect| received(effect, pool.token_1, contract),
        );
    }
}

} // verus!
