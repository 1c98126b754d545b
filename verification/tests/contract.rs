use std::collections::HashMap;

use lyraswap::{
    Address, AddressKind, Effect, Error, FeeUpdatedEvent, LiquidityAdded, LiquidityAddedEvent,
    LiquidityRemoved, LiquidityRemovedEvent, LyraSwap, PoolState, SwapExactInEvent,
};

/// A ledger on which every authorization is granted.
struct Ledger {
    contract: Address,
    state: Option<PoolState>,
    owner: Option<Address>,
    metadata: Option<(u32, Vec<u8>, Vec<u8>)>,
    total_lp: i128,
    lp: HashMap<[u8; 32], i128>,
    tokens: HashMap<([u8; 32], [u8; 32]), i128>,
    authorized: Vec<Address>,
    owner_checks: u32,
    published: Vec<Published>,
}

#[derive(Debug, PartialEq)]
enum Published {
    FeeUpdated(FeeUpdatedEvent),
    LiquidityAdded(LiquidityAddedEvent),
    LiquidityRemoved(LiquidityRemovedEvent),
    SwapExactIn(SwapExactInEvent),
}

impl Ledger {
    fn new() -> Ledger {
        Ledger {
            contract: address(200),
            state: None,
            owner: None,
            metadata: None,
            total_lp: 0,
            lp: HashMap::new(),
            tokens: HashMap::new(),
            authorized: Vec::new(),
            owner_checks: 0,
            published: Vec::new(),
        }
    }

    fn mint(&mut self, token: &Address, to: &Address, amount: i128) {
        *self.tokens.entry((token.key, to.key)).or_insert(0) += amount;
    }

    fn tokens_of(&self, token: &Address, who: &Address) -> i128 {
        *self.tokens.get(&(token.key, who.key)).unwrap_or(&0)
    }

    fn lp_of(&self, who: &Address) -> i128 {
        *self.lp.get(&who.key).unwrap_or(&0)
    }

    fn carry_out(&mut self, effects: Vec<Effect>) {
        for effect in effects {
            match effect {
                Effect::RequireAuth(who) => self.authorized.push(who),
                Effect::RequireOwnerAuth => {
                    assert!(self.owner.is_some());
                    self.owner_checks += 1;
                }
                Effect::StoreState(state) => self.state = Some(state),
                Effect::SetMetadata { decimals, name, symbol } => {
                    self.metadata = Some((decimals, name, symbol))
                }
                Effect::SetOwner(owner) => self.owner = Some(owner),
                Effect::MintLp { to, amount } => {
                    self.total_lp += amount;
                    *self.lp.entry(to.key).or_insert(0) += amount;
                }
                Effect::BurnLp { from, amount } => {
                    assert!(self.lp_of(&from) >= amount);
                    self.total_lp -= amount;
                    *self.lp.entry(from.key).or_insert(0) -= amount;
                }
                Effect::Transfer { token, from, to, amount } => {
                    assert!(self.tokens_of(&token, &from) >= amount);
                    *self.tokens.entry((token.key, from.key)).or_insert(0) -= amount;
                    *self.tokens.entry((token.key, to.key)).or_insert(0) += amount;
                }
                Effect::PublishFeeUpdated(event) => {
                    self.published.push(Published::FeeUpdated(event))
                }
                Effect::PublishLiquidityAdded(added) => {
                    let event = added.event(self.total_lp);
                    self.published.push(Published::LiquidityAdded(event))
                }
                Effect::PublishLiquidityRemoved(removed) => {
                    let event = removed.event(self.total_lp);
                    self.published.push(Published::LiquidityRemoved(event))
                }
                Effect::PublishSwapExactIn(event) => {
                    self.published.push(Published::SwapExactIn(event))
                }
            }
        }
    }

    fn set_fee(&mut self, caller: &Address, new_fee_bps: u32) -> Result<(), Error> {
        let plan = LyraSwap::set_fee(self.state, *caller, new_fee_bps);
        self.carry_out(plan.effects);
        plan.outcome
    }

    fn add_liquidity(
        &mut self,
        provider: &Address,
        amount_0_opt: i128,
        amount_1_opt: i128,
    ) -> Result<(i128, i128, i128), Error> {
        let plan = LyraSwap::add_liquidity(
            self.state,
            self.total_lp,
            self.contract,
            *provider,
            amount_0_opt,
            amount_1_opt,
        );
        self.carry_out(plan.effects);
        plan.outcome
    }

    fn remove_liquidity(
        &mut self,
        provider: &Address,
        lp_amount: i128,
        min_amount_0: i128,
        min_amount_1: i128,
    ) -> Result<(i128, i128), Error> {
        let plan = LyraSwap::remove_liquidity(
            self.state,
            self.lp_of(provider),
            self.total_lp,
            self.contract,
            *provider,
            lp_amount,
            min_amount_0,
            min_amount_1,
        );
        self.carry_out(plan.effects);
        plan.outcome
    }

    fn swap_exact_in(
        &mut self,
        trader: &Address,
        token_in: &Address,
        amount_in: i128,
        min_amount_out: i128,
    ) -> Result<i128, Error> {
        let plan = LyraSwap::swap_exact_in(
            self.state,
            self.contract,
            *trader,
            *token_in,
            amount_in,
            min_amount_out,
        );
        self.carry_out(plan.effects);
        plan.outcome
    }

    fn get_state(&self) -> PoolState {
        LyraSwap::get_state(self.state).unwrap()
    }
}

fn address(n: u8) -> Address {
    Address { kind: AddressKind::Contract, key: [n; 32] }
}

fn deploy(token_a: &Address, token_b: &Address, fee_bps: u32, owner: &Address) -> Ledger {
    let mut ledger = Ledger::new();
    let plan = LyraSwap::__constructor(
        ledger.state.is_some(),
        *token_a,
        *token_b,
        fee_bps,
        *owner,
        b"Lyra LP Token".to_vec(),
        b"LYRA-LP".to_vec(),
    );
    plan.outcome.unwrap();
    ledger.carry_out(plan.effects);
    ledger
}

#[test]
fn test_pair_constructor() {
    for (token_a, token_b) in [(address(3), address(4)), (address(4), address(3))] {
        let owner = address(1);
        let ledger = deploy(&token_a, &token_b, 30, &owner);
        let state = ledger.get_state();

        assert_eq!(state.fee_bps, 30);
        assert_eq!(state.reserve_0, 0);
        assert_eq!(state.reserve_1, 0);

        if token_a < token_b {
            assert_eq!(state.token_0, token_a);
            assert_eq!(state.token_1, token_b);
        } else {
            assert_eq!(state.token_0, token_b);
            assert_eq!(state.token_1, token_a);
        }
    }
}

#[test]
#[should_panic]
fn test_identical_tokens_fail() {
    let owner = address(1);
    let token_a = address(3);
    deploy(&token_a, &token_a, 30, &owner);
}

#[test]
fn test_add_liquidity_initial() {
    let owner = address(1);
    let provider = address(5);
    let token_a = address(3);
    let token_b = address(4);
    let mut ledger = deploy(&token_a, &token_b, 30, &owner);

    ledger.mint(&token_a, &provider, 10_000);
    ledger.mint(&token_b, &provider, 40_000);

    let (amount_0, amount_1, lp_minted) =
        ledger.add_liquidity(&provider, 10_000, 40_000).unwrap();

    assert_eq!(amount_0, 10_000);
    assert_eq!(amount_1, 40_000);
    assert_eq!(lp_minted, 20_000);

    let state = ledger.get_state();
    assert_eq!(state.reserve_0, amount_0);
    assert_eq!(state.reserve_1, amount_1);
}

#[test]
fn test_remove_liquidity() {
    let owner = address(1);
    let provider = address(5);
    let token_a = address(3);
    let token_b = address(4);
    let mut ledger = deploy(&token_a, &token_b, 30, &owner);

    ledger.mint(&token_a, &provider, 10_000);
    ledger.mint(&token_b, &provider, 40_000);
    ledger.add_liquidity(&provider, 10_000, 40_000).unwrap();

    let lp_amount = 10_000;
    let (withdrawn_0, withdrawn_1) =
        ledger.remove_liquidity(&provider, lp_amount, 4_000, 19_000).unwrap();

    assert_eq!(withdrawn_0, 5_000);
    assert_eq!(withdrawn_1, 20_000);

    let state = ledger.get_state();
    assert_eq!(state.reserve_0, 5_000);
    assert_eq!(state.reserve_1, 20_000);
}

#[test]
fn test_swap_exact_in() {
    for (token_a, token_b) in [(address(3), address(4)), (address(4), address(3))] {
        let owner = address(1);
        let provider = address(5);
        let trader = address(6);
        let mut ledger = deploy(&token_a, &token_b, 30, &owner);

        ledger.mint(&token_a, &provider, 100_000);
        ledger.mint(&token_b, &provider, 100_000);
        ledger.add_liquidity(&provider, 100_000, 100_000).unwrap();

        ledger.mint(&token_a, &trader, 1_000);

        let amount_out = ledger.swap_exact_in(&trader, &token_a, 1_000, 900).unwrap();
        assert!(amount_out >= 900);

        let state = ledger.get_state();
        let expected_reserve_a = 101_000;
        let expected_reserve_b = 100_000 - amount_out;

        if state.token_0 == token_a {
            assert_eq!(state.reserve_0, expected_reserve_a);
            assert_eq!(state.reserve_1, expected_reserve_b);
        } else {
            assert_eq!(state.reserve_1, expected_reserve_a);
            assert_eq!(state.reserve_0, expected_reserve_b);
        }
    }
}

/// A pool of tokens 3 and 4 with a provider's liquidity in it.
fn filled(amount_0: i128, amount_1: i128, fee_bps: u32) -> (Ledger, Address, Address, Address) {
    let token_0 = address(3);
    let token_1 = address(4);
    let provider = address(5);
    let mut ledger = deploy(&token_0, &token_1, fee_bps, &address(1));
    ledger.mint(&token_0, &provider, amount_0);
    ledger.mint(&token_1, &provider, amount_1);
    ledger.add_liquidity(&provider, amount_0, amount_1).unwrap();
    (ledger, token_0, token_1, provider)
}

#[test]
fn constructor_plans_state_metadata_and_owner() {
    let plan = LyraSwap::__constructor(
        false,
        address(9),
        address(2),
        300,
        address(1),
        b"name".to_vec(),
        b"sym".to_vec(),
    );
    assert_eq!(plan.outcome, Ok(()));
    let state = PoolState {
        token_0: address(2),
        token_1: address(9),
        reserve_0: 0,
        reserve_1: 0,
        fee_bps: 300,
    };
    assert_eq!(
        plan.effects,
        vec![
            Effect::StoreState(state),
            Effect::SetMetadata { decimals: 7, name: b"name".to_vec(), symbol: b"sym".to_vec() },
            Effect::SetOwner(address(1)),
        ]
    );
}

#[test]
fn constructor_refusals_come_in_order() {
    let build = |has_state: bool, a: u8, b: u8, fee: u32| {
        LyraSwap::__constructor(
            has_state,
            address(a),
            address(b),
            fee,
            address(1),
            Vec::new(),
            Vec::new(),
        )
    };
    let again = build(true, 3, 3, 301);
    assert_eq!(again.outcome, Err(Error::AlreadyInitialized));
    assert_eq!(again.effects, vec![]);
    let same = build(false, 3, 3, 301);
    assert_eq!(same.outcome, Err(Error::IdenticalTokens));
    assert_eq!(same.effects, vec![]);
    let dear = build(false, 3, 4, 301);
    assert_eq!(dear.outcome, Err(Error::InvalidFee));
    assert_eq!(dear.effects, vec![]);
}

#[test]
fn nothing_works_before_setup() {
    let who = address(5);
    assert_eq!(LyraSwap::get_state(None), Err(Error::NotInitialized));
    let fee = LyraSwap::set_fee(None, who, 10);
    assert_eq!(fee.outcome, Err(Error::NotInitialized));
    assert_eq!(fee.effects, vec![Effect::RequireOwnerAuth]);
    let add = LyraSwap::add_liquidity(None, 0, address(200), who, 0, 0);
    assert_eq!(add.outcome, Err(Error::NotInitialized));
    assert_eq!(add.effects, vec![Effect::RequireAuth(who)]);
    let remove = LyraSwap::remove_liquidity(None, 0, 0, address(200), who, 0, 0, 0);
    assert_eq!(remove.outcome, Err(Error::NotInitialized));
    assert_eq!(remove.effects, vec![]);
    let swap = LyraSwap::swap_exact_in(None, address(200), who, address(3), 0, 0);
    assert_eq!(swap.outcome, Err(Error::NotInitialized));
    assert_eq!(swap.effects, vec![Effect::RequireAuth(who)]);
}

#[test]
fn fee_change_is_stored_and_announced() {
    let (mut ledger, _, _, _) = filled(10_000, 40_000, 30);
    let before = ledger.get_state();
    ledger.published.clear();
    assert_eq!(ledger.set_fee(&address(1), 300), Ok(()));
    assert_eq!(ledger.owner_checks, 1);
    assert_eq!(ledger.get_state(), PoolState { fee_bps: 300, ..before });
    assert_eq!(
        ledger.published,
        vec![Published::FeeUpdated(FeeUpdatedEvent {
            owner: address(1),
            old_fee_bps: 30,
            new_fee_bps: 300,
        })]
    );
    assert_eq!(ledger.set_fee(&address(1), 301), Err(Error::InvalidFee));
    assert_eq!(ledger.owner_checks, 2);
    assert_eq!(ledger.get_state().fee_bps, 300);
}

#[test]
fn deposit_effects_and_announcement() {
    let (ledger, token_0, token_1, provider) = filled(10_000, 40_000, 30);
    assert_eq!(ledger.authorized, vec![provider]);
    assert_eq!(ledger.tokens_of(&token_0, &ledger.contract), 10_000);
    assert_eq!(ledger.tokens_of(&token_1, &ledger.contract), 40_000);
    assert_eq!(ledger.lp_of(&provider), 20_000);
    assert_eq!(
        ledger.published,
        vec![Published::LiquidityAdded(LiquidityAddedEvent {
            provider,
            amount_0: 10_000,
            amount_1: 40_000,
            lp_minted: 20_000,
            total_lp: 20_000,
        })]
    );
    let plan = LyraSwap::add_liquidity(
        ledger.state,
        20_000,
        ledger.contract,
        provider,
        1_000,
        9_000,
    );
    assert_eq!(plan.outcome, Ok((1_000, 4_000, 2_000)));
    let contract = ledger.contract;
    assert_eq!(
        plan.effects,
        vec![
            Effect::RequireAuth(provider),
            Effect::MintLp { to: provider, amount: 2_000 },
            Effect::Transfer { token: token_0, from: provider, to: contract, amount: 1_000 },
            Effect::Transfer { token: token_1, from: provider, to: contract, amount: 4_000 },
            Effect::StoreState(PoolState {
                token_0,
                token_1,
                reserve_0: 11_000,
                reserve_1: 44_000,
                fee_bps: 30,
            }),
            Effect::PublishLiquidityAdded(LiquidityAdded {
                provider,
                amount_0: 1_000,
                amount_1: 4_000,
                lp_minted: 2_000,
            }),
        ]
    );
}

#[test]
fn deposit_keeps_the_proportion_from_either_side() {
    let (mut ledger, token_0, token_1, provider) = filled(10_000, 40_000, 30);
    ledger.mint(&token_0, &provider, 10_000);
    ledger.mint(&token_1, &provider, 10_000);
    assert_eq!(ledger.add_liquidity(&provider, 5_000, 2_002), Ok((500, 2_002, 1_000)));
    assert_eq!(ledger.add_liquidity(&provider, 7, 4_000), Ok((7, 28, 13)));
}

#[test]
fn deposit_takes_the_first_side_whole_where_the_second_suffices() {
    for (offer_1, taken) in [
        (2_001, (500, 2_000, 1_000)),
        (2_000, (500, 2_000, 1_000)),
        (1_999, (499, 1_999, 998)),
    ] {
        let (mut ledger, token_0, token_1, provider) = filled(10_000, 40_000, 30);
        ledger.mint(&token_0, &provider, 500);
        ledger.mint(&token_1, &provider, offer_1);
        assert_eq!(ledger.add_liquidity(&provider, 500, offer_1), Ok(taken));
    }
}

#[test]
fn deposit_refusals() {
    let (mut ledger, _, _, provider) = filled(10_000, 40_000, 30);
    assert_eq!(ledger.add_liquidity(&provider, 0, 10), Err(Error::InvalidAmount));
    assert_eq!(ledger.add_liquidity(&provider, 10, -1), Err(Error::InvalidAmount));
    assert_eq!(ledger.add_liquidity(&provider, i128::MAX, 1), Err(Error::ArithmeticOverflow));
    assert_eq!(ledger.add_liquidity(&provider, 10, 1), Err(Error::ZeroLiquidity));
    assert_eq!(ledger.get_state().reserve_0, 10_000);
    assert_eq!(ledger.total_lp, 20_000);

    let mut empty = deploy(&address(3), &address(4), 30, &address(1));
    assert_eq!(
        empty.add_liquidity(&provider, i128::MAX, 2),
        Err(Error::ArithmeticOverflow)
    );
}

#[test]
fn deposit_that_overflows_a_reserve_is_refused_after_the_transfers() {
    let half = (i128::MAX - 1) / 2;
    let state = PoolState {
        token_0: address(3),
        token_1: address(4),
        reserve_0: i128::MAX - 1,
        reserve_1: half,
        fee_bps: 30,
    };
    let plan = LyraSwap::add_liquidity(Some(state), half, address(200), address(5), 2, 1);
    assert_eq!(plan.outcome, Err(Error::ArithmeticOverflow));
    assert_eq!(plan.effects.len(), 4);
    assert_eq!(plan.effects[1], Effect::MintLp { to: address(5), amount: 1 });
}

#[test]
fn withdrawal_effects_and_announcement() {
    let (mut ledger, token_0, token_1, provider) = filled(10_000, 40_000, 30);
    let contract = ledger.contract;
    let plan = LyraSwap::remove_liquidity(
        ledger.state,
        20_000,
        20_000,
        contract,
        provider,
        5_001,
        0,
        0,
    );
    assert_eq!(plan.outcome, Ok((2_500, 10_002)));
    assert_eq!(
        plan.effects,
        vec![
            Effect::BurnLp { from: provider, amount: 5_001 },
            Effect::Transfer { token: token_0, from: contract, to: provider, amount: 2_500 },
            Effect::Transfer { token: token_1, from: contract, to: provider, amount: 10_002 },
            Effect::StoreState(PoolState {
                token_0,
                token_1,
                reserve_0: 7_500,
                reserve_1: 29_998,
                fee_bps: 30,
            }),
            Effect::PublishLiquidityRemoved(LiquidityRemoved {
                provider,
                amount_0: 2_500,
                amount_1: 10_002,
                lp_burned: 5_001,
            }),
        ]
    );
    ledger.published.clear();
    assert_eq!(ledger.remove_liquidity(&provider, 20_000, 10_000, 40_000), Ok((10_000, 40_000)));
    assert_eq!(ledger.get_state().reserve_0, 0);
    assert_eq!(ledger.get_state().reserve_1, 0);
    assert_eq!(ledger.tokens_of(&token_0, &provider), 10_000);
    assert_eq!(
        ledger.published,
        vec![Published::LiquidityRemoved(LiquidityRemovedEvent {
            provider,
            amount_0: 10_000,
            amount_1: 40_000,
            lp_burned: 20_000,
            total_lp: 0,
        })]
    );
}

#[test]
fn withdrawal_refusals() {
    let (mut ledger, _, _, provider) = filled(10_000, 40_000, 30);
    assert_eq!(ledger.remove_liquidity(&provider, 0, 0, 0), Err(Error::InvalidAmount));
    assert_eq!(
        ledger.remove_liquidity(&provider, 20_001, 0, 0),
        Err(Error::InsufficientLpBalance)
    );
    assert_eq!(
        ledger.remove_liquidity(&provider, 10_000, 5_001, 0),
        Err(Error::SlippageExceeded)
    );
    assert_eq!(
        ledger.remove_liquidity(&provider, 10_000, 0, 20_001),
        Err(Error::SlippageExceeded)
    );
    assert_eq!(ledger.get_state().reserve_0, 10_000);
    let overflow = LyraSwap::remove_liquidity(
        ledger.state,
        i128::MAX,
        i128::MAX,
        ledger.contract,
        provider,
        i128::MAX,
        0,
        0,
    );
    assert_eq!(overflow.outcome, Err(Error::ArithmeticOverflow));
    assert_eq!(overflow.effects, vec![]);
    let no_supply =
        LyraSwap::remove_liquidity(ledger.state, 5, 0, ledger.contract, provider, 5, 0, 0);
    assert_eq!(no_supply.outcome, Err(Error::ArithmeticOverflow));
}

#[test]
fn withdrawal_that_overflows_a_reserve_is_refused_after_the_transfers() {
    let state = PoolState {
        token_0: address(3),
        token_1: address(4),
        reserve_0: i128::MIN,
        reserve_1: 0,
        fee_bps: 30,
    };
    let plan =
        LyraSwap::remove_liquidity(Some(state), 1, -1, address(200), address(5), 1, 0, 0);
    assert_eq!(plan.outcome, Err(Error::ArithmeticOverflow));
    assert_eq!(plan.effects, vec![]);

    let state = PoolState { reserve_0: i128::MIN + 1, ..state };
    let plan =
        LyraSwap::remove_liquidity(Some(state), 1, -1, address(200), address(5), 1, 0, 0);
    assert_eq!(plan.outcome, Err(Error::ArithmeticOverflow));
    assert_eq!(plan.effects.len(), 3);
}

#[test]
fn swap_pays_the_constant_product_after_the_fee() {
    let (mut ledger, token_0, token_1, _) = filled(100_000, 100_000, 30);
    let trader = address(6);
    let contract = ledger.contract;
    let plan =
        LyraSwap::swap_exact_in(ledger.state, contract, trader, token_0, 1_000, 987);
    assert_eq!(plan.outcome, Ok(987));
    assert_eq!(
        plan.effects,
        vec![
            Effect::RequireAuth(trader),
            Effect::Transfer { token: token_0, from: trader, to: contract, amount: 1_000 },
            Effect::Transfer { token: token_1, from: contract, to: trader, amount: 987 },
            Effect::StoreState(PoolState {
                token_0,
                token_1,
                reserve_0: 101_000,
                reserve_1: 99_013,
                fee_bps: 30,
            }),
            Effect::PublishSwapExactIn(SwapExactInEvent {
                token_in: token_0,
                token_out: token_1,
                trader,
                amount_in: 1_000,
                amount_out: 987,
                fee_bps: 30,
            }),
        ]
    );
    ledger.mint(&token_0, &trader, 1_000);
    ledger.published.clear();
    assert_eq!(ledger.swap_exact_in(&trader, &token_0, 1_000, 987), Ok(987));
    assert_eq!(
        ledger.published,
        vec![Published::SwapExactIn(SwapExactInEvent {
            token_in: token_0,
            token_out: token_1,
            trader,
            amount_in: 1_000,
            amount_out: 987,
            fee_bps: 30,
        })]
    );
    // There and back again, the trader has less than before.
    assert_eq!(ledger.swap_exact_in(&trader, &token_1, 987, 0), Ok(993));
    assert!(ledger.get_state().reserve_0 * ledger.get_state().reserve_1 >= 10_000_000_000);
}

#[test]
fn swap_output_follows_amount_and_fee() {
    let quote = |fee: u32, amount_in: i128| {
        let state = PoolState {
            token_0: address(3),
            token_1: address(4),
            reserve_0: 10_000,
            reserve_1: 40_000,
            fee_bps: fee,
        };
        let plan = LyraSwap::swap_exact_in(
            Some(state),
            address(200),
            address(6),
            address(3),
            amount_in,
            0,
        );
        plan.outcome.unwrap()
    };
    assert_eq!(quote(300, 500), 1_850);
    assert_eq!(quote(0, 500), 1_904);
    assert!(quote(300, 501) >= quote(300, 500));
}

#[test]
fn swap_refusals() {
    let (mut ledger, token_0, _, _) = filled(100_000, 100_000, 30);
    let trader = address(6);
    assert_eq!(ledger.swap_exact_in(&trader, &token_0, 0, 0), Err(Error::InvalidAmount));
    assert_eq!(ledger.swap_exact_in(&trader, &address(7), 10, 0), Err(Error::InvalidAmount));
    assert_eq!(
        ledger.swap_exact_in(&trader, &token_0, 1_000, 988),
        Err(Error::SlippageExceeded)
    );
    assert_eq!(
        ledger.swap_exact_in(&trader, &token_0, i128::MAX, 0),
        Err(Error::ArithmeticOverflow)
    );
    assert_eq!(
        ledger.swap_exact_in(&trader, &token_0, i128::MAX / 9_970, 0),
        Err(Error::ArithmeticOverflow)
    );
    assert_eq!(ledger.get_state().reserve_0, 100_000);

    let mut empty = deploy(&address(3), &address(4), 30, &address(1));
    assert_eq!(
        empty.swap_exact_in(&trader, &address(3), 10, 0),
        Err(Error::InsufficientLiquidity)
    );
}

#[test]
fn swap_rounds_towards_zero_whatever_the_stored_fee() {
    let state = PoolState {
        token_0: address(3),
        token_1: address(4),
        reserve_0: 10,
        reserve_1: 10,
        fee_bps: 20_000,
    };
    let plan =
        LyraSwap::swap_exact_in(Some(state), address(200), address(6), address(3), 1, -5);
    assert_eq!(plan.outcome, Ok(-1));
}

#[test]
fn liquidity_tokens_keep_their_value() {
    let (mut ledger, token_0, token_1, provider) = filled(10_000, 40_000, 30);
    let other = address(8);
    for who in [provider, other] {
        ledger.mint(&token_0, &who, 1_000_000);
        ledger.mint(&token_1, &who, 1_000_000);
    }
    let value = |l: &Ledger| {
        let s = l.get_state();
        (s.reserve_0 * s.reserve_1, l.total_lp * l.total_lp)
    };
    let mut before = value(&ledger);
    for step in 0..5 {
        match step {
            0 => {
                ledger.add_liquidity(&other, 333, 7_777).unwrap();
            }
            1 => {
                ledger.swap_exact_in(&other, &token_1, 999, 0).unwrap();
            }
            2 => {
                ledger.remove_liquidity(&other, 100, 0, 0).unwrap();
            }
            3 => {
                ledger.swap_exact_in(&provider, &token_0, 123, 0).unwrap();
            }
            _ => {
                ledger.set_fee(&address(1), 0).unwrap();
            }
        }
        let now = value(&ledger);
        assert!(now.0 * before.1 >= before.0 * now.1);
        let state = ledger.get_state();
        assert_eq!(state.reserve_0, ledger.tokens_of(&token_0, &ledger.contract));
        assert_eq!(state.reserve_1, ledger.tokens_of(&token_1, &ledger.contract));
        before = now;
    }
}

#[test]
fn deposit_then_withdrawal_gains_nothing() {
    let (mut ledger, token_0, token_1, _) = filled(10_007, 39_989, 30);
    let other = address(8);
    ledger.mint(&token_0, &other, 1_000);
    ledger.mint(&token_1, &other, 5_000);
    let (paid_0, paid_1, minted) = ledger.add_liquidity(&other, 1_000, 5_000).unwrap();
    let (back_0, back_1) = ledger.remove_liquidity(&other, minted, 0, 0).unwrap();
    assert!(back_0 <= paid_0 && back_1 <= paid_1);
}

#[test]
fn first_deposit_comes_back_whole() {
    let (mut ledger, _, _, provider) = filled(10_007, 39_989, 30);
    let minted = ledger.lp_of(&provider);
    assert_eq!(ledger.remove_liquidity(&provider, minted, 0, 0), Ok((10_007, 39_989)));
    assert_eq!(ledger.total_lp, 0);
}

#[test]
fn supply_follows_what_is_minted_and_burnt() {
    let (mut ledger, token_0, token_1, provider) = filled(10_000, 40_000, 30);
    assert_eq!(ledger.total_lp, 20_000);
    let other = address(8);
    ledger.mint(&token_0, &other, 2_000);
    ledger.mint(&token_1, &other, 5_000);

    assert_eq!(ledger.add_liquidity(&other, 1_000, 5_000), Ok((1_000, 4_000, 2_000)));
    assert_eq!(ledger.total_lp, 22_000);
    ledger.swap_exact_in(&other, &token_0, 1_000, 0).unwrap();
    assert_eq!(ledger.total_lp, 22_000);
    ledger.set_fee(&address(1), 100).unwrap();
    assert_eq!(ledger.total_lp, 22_000);

    ledger.carry_out(vec![Effect::BurnLp { from: other, amount: 500 }]);
    assert_eq!(ledger.total_lp, 21_500);
    ledger.remove_liquidity(&other, 700, 0, 0).unwrap();
    assert_eq!(ledger.total_lp, 20_800);
    assert!(ledger.remove_liquidity(&other, 801, 0, 0).is_err());
    assert_eq!(ledger.total_lp, 20_800);
    assert_eq!(ledger.lp_of(&provider) + ledger.lp_of(&other), 20_800);

    let state = ledger.get_state();
    assert_eq!((state.token_0, state.token_1), (token_0, token_1));
    assert_eq!(state.reserve_0, ledger.tokens_of(&token_0, &ledger.contract));
    assert_eq!(state.reserve_1, ledger.tokens_of(&token_1, &ledger.contract));
}

#[test]
fn withdrawing_in_parts_pays_no_more() {
    let (mut parts, _, _, provider) = filled(10_007, 39_989, 30);
    let (mut whole, _, _, _) = filled(10_007, 39_989, 30);
    let (u_0, u_1) = parts.remove_liquidity(&provider, 1_234, 0, 0).unwrap();
    let (v_0, v_1) = parts.remove_liquidity(&provider, 4_321, 0, 0).unwrap();
    let (w_0, w_1) = whole.remove_liquidity(&provider, 1_234 + 4_321, 0, 0).unwrap();
    assert_eq!((u_0, u_1), (617, 2_466));
    assert_eq!((w_0, w_1), (2_778, 11_104));
    assert!(u_0 + v_0 <= w_0 && u_1 + v_1 <= w_1);
}

#[test]
fn swapping_in_parts_pays_no_more() {
    let (mut parts, token_0, _, _) = filled(100_000, 100_000, 30);
    let (mut whole, _, _, _) = filled(100_000, 100_000, 30);
    let trader = address(6);
    parts.mint(&token_0, &trader, 2_000);
    whole.mint(&token_0, &trader, 2_000);
    let first = parts.swap_exact_in(&trader, &token_0, 1_000, 0).unwrap();
    let second = parts.swap_exact_in(&trader, &token_0, 1_000, 0).unwrap();
    let at_once = whole.swap_exact_in(&trader, &token_0, 2_000, 0).unwrap();
    assert_eq!((first, second, at_once), (987, 967, 1_955));
    assert!(first + second <= at_once);
}

#[test]
fn refused_calls_announce_nothing() {
    let (mut ledger, token_0, _, provider) = filled(10_000, 40_000, 30);
    ledger.published.clear();
    assert!(ledger.set_fee(&address(1), 301).is_err());
    assert!(ledger.add_liquidity(&provider, 0, 1).is_err());
    assert!(ledger.remove_liquidity(&provider, 20_001, 0, 0).is_err());
    assert!(ledger.swap_exact_in(&provider, &token_0, 10, 1_000).is_err());
    assert_eq!(ledger.published, vec![]);
}
