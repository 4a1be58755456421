use percolator::constants::{ADL_ONE, MAX_VAULT_TVL};
use percolator::{
    InstructionContext, KeeperCrankRequest, LiquidationPolicy, MarketMode,
    PermissionlessProgressOutcome, PermissionlessProgressRequest, ResolveMode,
    ResolvedCloseResult, RiskEngine, RiskError, RiskParams, Side, SideMode, I128, U128,
};

const UNIT: i128 = 1_000_000;
const PRICE: u64 = 1_000_000;
const START: u64 = 100;

fn params() -> RiskParams {
    RiskParams {
        maintenance_margin_bps: 500,
        initial_margin_bps: 1_000,
        max_trading_fee_bps: 100,
        max_accounts: 64,
        liquidation_fee_bps: 100,
        liquidation_fee_cap: U128::new(1_000_000_000),
        min_liquidation_abs: U128::new(0),
        min_nonzero_mm_req: 10,
        min_nonzero_im_req: 20,
        h_min: 0,
        h_max: 100,
        resolve_price_deviation_bps: 1_000,
        max_accrual_dt_slots: 50,
        max_abs_funding_e9_per_slot: 1_000,
        min_funding_lifetime_slots: 1_000_000,
        max_active_positions_per_side: 64,
        max_price_move_bps_per_slot: 4,
    }
}

fn market() -> RiskEngine {
    RiskEngine::new_with_market(params(), START, PRICE)
}

fn funded(capitals: &[u128]) -> RiskEngine {
    let mut e = market();
    for (i, c) in capitals.iter().enumerate() {
        assert_eq!(e.deposit_not_atomic(i as u16, *c, START), Ok(()));
    }
    e
}

fn settle(e: &mut RiskEngine, idx: u16, price: u64, slot: u64) -> Result<(), RiskError> {
    e.settle_account_not_atomic(idx, price, slot, 0, 0, 100, None)
}

fn trade(e: &mut RiskEngine, a: u16, b: u16, size_q: i128) -> Result<(), RiskError> {
    let slot = e.current_slot;
    let price = e.last_oracle_price;
    e.execute_trade_not_atomic(a, b, price, slot, size_q, price, 0, 0, 0, 100, None)
}

/// A market in which account 0 is long one unit against account 1.
fn traded(capital_0: u128, capital_1: u128) -> RiskEngine {
    let mut e = funded(&[capital_0, capital_1]);
    assert_eq!(trade(&mut e, 0, 1, UNIT), Ok(()));
    e
}

/// Moves the price down by as much as each window allows.
fn fall(e: &mut RiskEngine, windows: u64) {
    for _ in 0..windows {
        let p = e.last_oracle_price;
        let next = p - p * 200 / 10_000;
        let slot = e.last_market_slot + 50;
        assert_eq!(e.accrue_market_to(slot, next, 0), Ok(()));
    }
}

#[test]
fn parameters_of_the_tests_are_valid() {
    assert_eq!(RiskEngine::try_validate_params(&params()), Ok(()));
    assert!(RiskEngine::exact_solvency_envelope_ok(&params()));
}

#[test]
fn new_market_is_empty() {
    let e = market();
    assert_eq!(e.vault.get(), 0);
    assert_eq!(e.c_tot.get(), 0);
    assert_eq!(e.count_used(), 0);
    assert_eq!(e.last_oracle_price, PRICE);
    assert_eq!(e.current_slot, START);
    assert_eq!(e.market_mode, MarketMode::Live);
    assert_eq!(e.free_head, 0);
    assert_eq!(e.next_free[0], 1);
    assert_eq!(e.next_free[63], u16::MAX);
    assert_eq!(e.prev_free[0], u16::MAX);
    assert_eq!(e.prev_free[63], 62);
    assert_eq!(e.assert_public_postconditions(), Ok(()));
    let d = RiskEngine::new(params());
    assert_eq!(d.last_oracle_price, 1);
    assert_eq!(d.current_slot, 0);
}

#[test]
fn restarted_market_is_empty_and_sound() {
    let mut e = traded(1_000_000, 1_000_000);
    assert_eq!(e.init_in_place(params(), 7, 5_000), Ok(()));
    assert_eq!(e.vault.get(), 0);
    assert_eq!(e.count_used(), 0);
    assert_eq!(e.current_slot, 7);
    assert_eq!(e.last_oracle_price, 5_000);
    assert_eq!(e.accounts[0].capital.get(), 0);
    assert_eq!(e.assert_public_postconditions(), Ok(()));
}

#[test]
fn refused_restart_changes_nothing() {
    let mut e = funded(&[1_000]);
    let before = e.clone();
    assert_eq!(e.init_in_place(params(), 7, 0), Err(RiskError::Overflow));
    let mut bad = params();
    bad.max_accounts = 0;
    assert_eq!(e.init_in_place(bad, 7, 5_000), Err(RiskError::Overflow));
    assert_eq!(e, before);
}

#[test]
fn deposit_is_credited_in_full() {
    let mut e = funded(&[1_000_000]);
    assert_eq!(e.accounts[0].capital.get(), 1_000_000);
    assert_eq!(e.vault.get(), 1_000_000);
    assert_eq!(e.c_tot.get(), 1_000_000);
    assert!(e.is_used(0));
    assert_eq!(e.count_used(), 1);
    assert_eq!(e.deposit_not_atomic(0, 500, START + 1), Ok(()));
    assert_eq!(e.accounts[0].capital.get(), 1_000_500);
    assert_eq!(e.current_slot, START + 1);
    assert!(e.check_conservation());
}

#[test]
fn deposit_refusals() {
    let mut e = market();
    assert_eq!(e.deposit_not_atomic(0, 0, START), Err(RiskError::InsufficientBalance));
    assert_eq!(e.deposit_not_atomic(64, 5, START), Err(RiskError::AccountNotFound));
    assert_eq!(e.deposit_not_atomic(0, 5, START - 1), Err(RiskError::Overflow));
    assert_eq!(e.deposit_not_atomic(0, MAX_VAULT_TVL + 1, START), Err(RiskError::Overflow));
    assert_eq!(e.deposit_not_atomic(0, MAX_VAULT_TVL, START), Ok(()));
    e.market_mode = MarketMode::Resolved;
    assert_eq!(e.deposit_not_atomic(0, 5, START), Err(RiskError::Unauthorized));
}

#[test]
fn withdrawal_takes_its_amount_from_capital_and_vault() {
    let mut e = funded(&[1_000_000, 300]);
    assert_eq!(e.withdraw_not_atomic(0, 400_000, PRICE, START, 0, 0, 100, None), Ok(()));
    assert_eq!(e.accounts[0].capital.get(), 600_000);
    assert_eq!(e.vault.get(), 600_300);
    assert_eq!(e.c_tot.get(), 600_300);
    assert_eq!(e.accounts[1].capital.get(), 300);
}

#[test]
fn withdrawal_refusals() {
    let mut e = funded(&[1_000]);
    assert_eq!(
        e.clone().withdraw_not_atomic(0, 1_001, PRICE, START, 0, 0, 100, None),
        Err(RiskError::InsufficientBalance)
    );
    assert_eq!(
        e.withdraw_not_atomic(1, 1, PRICE, START, 0, 0, 100, None),
        Err(RiskError::AccountNotFound)
    );
    assert_eq!(
        e.withdraw_not_atomic(0, 1, 0, START, 0, 0, 100, None),
        Err(RiskError::Overflow)
    );
    assert_eq!(
        e.withdraw_not_atomic(0, 1, PRICE, START, 0, 0, 101, None),
        Err(RiskError::Overflow)
    );
    assert_eq!(
        e.withdraw_not_atomic(0, 1, PRICE, START, 0, 0, 100, Some(0)),
        Err(RiskError::Overflow)
    );
}

#[test]
fn withdrawal_leaves_the_initial_margin() {
    let mut e = traded(1_000_000, 1_000_000);
    // One unit at this price needs an initial margin of 100_000.
    assert_eq!(
        e.clone().withdraw_not_atomic(0, 900_001, PRICE, START, 0, 0, 100, None),
        Err(RiskError::Undercollateralized)
    );
    assert_eq!(e.withdraw_not_atomic(0, 900_000, PRICE, START, 0, 0, 100, None), Ok(()));
    assert_eq!(e.accounts[0].capital.get(), 100_000);
}

#[test]
fn trade_opens_both_sides_and_charges_fees() {
    let mut e = funded(&[1_000_000, 1_000_000]);
    let r = e.execute_trade_not_atomic(0, 1, PRICE, START, UNIT, PRICE, 0, 10, 0, 100, None);
    assert_eq!(r, Ok(()));
    assert_eq!(e.try_effective_pos_q(0), Ok(UNIT));
    assert_eq!(e.try_effective_pos_q(1), Ok(-UNIT));
    assert_eq!(e.oi_eff_long_q, 1_000_000);
    assert_eq!(e.oi_eff_short_q, 1_000_000);
    assert_eq!(e.stored_pos_count_long, 1);
    assert_eq!(e.stored_pos_count_short, 1);
    assert_eq!(e.accounts[0].capital.get(), 999_000);
    assert_eq!(e.accounts[1].capital.get(), 999_000);
    assert_eq!(e.insurance_fund.balance.get(), 2_000);
    assert_eq!(e.vault.get(), 2_000_000);
    assert_eq!(e.try_notional(0, PRICE), Ok(1_000_000));
    assert_eq!(e.try_notional(1, PRICE + 1), Ok(1_000_001));
}

#[test]
fn trade_exchanges_execution_profit() {
    let mut e = funded(&[1_000_000, 1_000_000]);
    // Bought 1_000 below the oracle price: a gain of 1_000 for the buyer.
    let r =
        e.execute_trade_not_atomic(0, 1, PRICE, START, UNIT, PRICE - 1_000, 0, 0, 0, 100, None);
    assert_eq!(r, Ok(()));
    assert_eq!(e.accounts[0].pnl, 1_000);
    assert_eq!(e.accounts[0].reserved_pnl, 1_000);
    assert_eq!(e.accounts[1].pnl, 0);
    assert_eq!(e.accounts[1].capital.get(), 999_000);
    assert_eq!(e.pnl_pos_tot, 1_000);
    assert_eq!(e.pnl_matured_pos_tot, 0);
}

#[test]
fn trade_gain_is_no_margin() {
    // 99_000 of capital does not carry one unit, though the trade itself gains 5_000.
    let mut e = funded(&[99_000, 1_000_000]);
    let r =
        e.execute_trade_not_atomic(0, 1, PRICE, START, UNIT, PRICE - 5_000, 0, 0, 0, 100, None);
    assert_eq!(r, Err(RiskError::Undercollateralized));
    let mut f = funded(&[100_000, 1_000_000]);
    let r =
        f.execute_trade_not_atomic(0, 1, PRICE, START, UNIT, PRICE - 5_000, 0, 0, 0, 100, None);
    assert_eq!(r, Ok(()));
}

#[test]
fn trade_refusals() {
    let e = funded(&[1_000_000, 1_000_000]);
    let go = |a: u16, b: u16, size: i128, exec: u64, fee: u64| {
        e.clone().execute_trade_not_atomic(a, b, PRICE, START, size, exec, 0, fee, 0, 100, None)
    };
    assert_eq!(go(0, 1, UNIT, PRICE, 100), Ok(()));
    assert_eq!(go(0, 0, UNIT, PRICE, 0), Err(RiskError::Overflow));
    assert_eq!(go(0, 2, UNIT, PRICE, 0), Err(RiskError::AccountNotFound));
    assert_eq!(go(0, 1, 0, PRICE, 0), Err(RiskError::Overflow));
    assert_eq!(go(0, 1, -UNIT, PRICE, 0), Err(RiskError::Overflow));
    assert_eq!(go(0, 1, UNIT, 0, 0), Err(RiskError::Overflow));
    assert_eq!(go(0, 1, UNIT, PRICE, 101), Err(RiskError::Overflow));
    assert_eq!(go(0, 1, 11 * UNIT, PRICE, 0), Err(RiskError::Undercollateralized));
    let mut r = e.clone();
    r.market_mode = MarketMode::Resolved;
    assert_eq!(trade(&mut r, 0, 1, UNIT), Err(RiskError::Unauthorized));
}

#[test]
fn draining_side_takes_no_new_interest() {
    let mut e = traded(1_000_000, 1_000_000);
    e.side_mode_long = SideMode::DrainOnly;
    assert_eq!(trade(&mut e.clone(), 0, 1, UNIT), Err(RiskError::SideBlocked));
    // Closing is still possible.
    assert_eq!(trade(&mut e, 1, 0, UNIT / 2), Ok(()));
    assert_eq!(e.oi_eff_long_q, 500_000);
}

#[test]
fn accrual_is_bounded_by_the_elapsed_slots() {
    let mut e = traded(1_000_000, 1_000_000);
    let before = e.clone();
    // Within the slot of the last accrual the price does not move.
    assert_eq!(e.accrue_market_to(START, PRICE + 1, 0), Err(RiskError::Overflow));
    // One slot allows four basis points.
    assert_eq!(e.accrue_market_to(START + 1, PRICE + 401, 0), Err(RiskError::Overflow));
    // A window longer than the largest is refused.
    assert_eq!(e.accrue_market_to(START + 51, PRICE + 1, 0), Err(RiskError::Overflow));
    // So is a funding rate above its bound.
    assert_eq!(e.accrue_market_to(START + 1, PRICE, 1_001), Err(RiskError::Overflow));
    assert_eq!(e, before);
    assert_eq!(e.accrue_market_to(START + 1, PRICE + 400, 0), Ok(()));
    assert_eq!(e.adl_coeff_long, 400 * ADL_ONE as i128);
    assert_eq!(e.adl_coeff_short, -400 * ADL_ONE as i128);
    assert_eq!(e.last_oracle_price, PRICE + 400);
    // Four basis points of consumption, in billionths.
    assert_eq!(e.price_move_consumed_bps_this_generation, 4_000_000_000);
}

#[test]
fn unexposed_market_moves_freely() {
    let mut e = funded(&[1_000]);
    assert_eq!(e.accrue_market_to(START, 77, 0), Ok(()));
    assert_eq!(e.last_oracle_price, 77);
    assert_eq!(e.adl_coeff_long, 0);
}

#[test]
fn funding_moves_between_the_sides() {
    let mut e = traded(1_000_000, 1_000_000);
    // 1_000 billionths for 50 slots at a price of 1_000_000: 50 for each unit.
    assert_eq!(e.accrue_market_to(START + 50, PRICE, 1_000), Ok(()));
    assert_eq!(e.f_long_num, -(ADL_ONE as i128) * 1_000_000 * 1_000 * 50);
    assert_eq!(e.f_short_num, (ADL_ONE as i128) * 1_000_000 * 1_000 * 50);
    assert_eq!(settle(&mut e, 0, PRICE, START + 50), Ok(()));
    assert_eq!(settle(&mut e, 1, PRICE, START + 50), Ok(()));
    assert_eq!(e.accounts[0].capital.get(), 999_950);
    assert_eq!(e.accounts[1].pnl, 50);
}

#[test]
fn fresh_profit_waits_and_loss_is_paid_at_once() {
    let mut e = traded(1_000_000, 1_000_000);
    assert_eq!(settle(&mut e, 0, 1_020_000, START + 50), Ok(()));
    assert_eq!(e.accounts[0].pnl, 20_000);
    assert_eq!(e.accounts[0].reserved_pnl, 20_000);
    assert_eq!(e.pnl_pos_tot, 20_000);
    assert_eq!(e.pnl_matured_pos_tot, 0);
    assert_eq!(e.try_released_pos(0), Ok(0));
    assert_eq!(settle(&mut e, 1, 1_020_000, START + 50), Ok(()));
    assert_eq!(e.accounts[1].pnl, 0);
    assert_eq!(e.accounts[1].capital.get(), 980_000);
    // Now the profit is backed and is released on the next touch.
    assert_eq!(settle(&mut e, 0, 1_020_000, START + 50), Ok(()));
    assert_eq!(e.accounts[0].reserved_pnl, 0);
    assert_eq!(e.pnl_matured_pos_tot, 20_000);
    assert_eq!(e.haircut_ratio(), (20_000, 20_000));
    assert_eq!(e.try_effective_matured_pnl(0), Ok(20_000));
}

#[test]
fn reserve_matures_along_a_line() {
    let mut e = traded(1_000_000, 1_000_000);
    assert_eq!(
        e.settle_account_not_atomic(0, 1_020_000, START + 50, 0, 100, 100, None),
        Ok(())
    );
    assert_eq!(e.accounts[0].sched_remaining_q, 20_000);
    assert_eq!(e.accounts[0].sched_horizon, 100);
    // A quarter of the horizon later a quarter is released.
    assert_eq!(
        e.settle_account_not_atomic(0, 1_020_000, START + 75, 0, 100, 100, None),
        Ok(())
    );
    assert_eq!(e.accounts[0].reserved_pnl, 15_000);
    assert_eq!(e.pnl_matured_pos_tot, 5_000);
    // After the horizon all of it is.
    assert_eq!(e.accrue_market_to(START + 120, 1_020_000, 0), Ok(()));
    assert_eq!(
        e.settle_account_not_atomic(0, 1_020_000, START + 150, 0, 100, 100, None),
        Ok(())
    );
    assert_eq!(e.accounts[0].reserved_pnl, 0);
    assert_eq!(e.accounts[0].sched_present, 0);
    assert_eq!(e.pnl_matured_pos_tot, 20_000);
}

#[test]
fn order_of_settlement_does_not_matter() {
    let mut e = traded(1_000_000, 1_000_000);
    assert_eq!(e.accrue_market_to(START + 50, 1_020_000, 0), Ok(()));
    let mut f = e.clone();
    assert_eq!(settle(&mut e, 0, 1_020_000, START + 50), Ok(()));
    assert_eq!(settle(&mut e, 1, 1_020_000, START + 50), Ok(()));
    assert_eq!(settle(&mut f, 1, 1_020_000, START + 50), Ok(()));
    assert_eq!(settle(&mut f, 0, 1_020_000, START + 50), Ok(()));
    assert_eq!(e.accounts[0].pnl, f.accounts[0].pnl);
    assert_eq!(e.accounts[1].pnl, f.accounts[1].pnl);
    assert_eq!(e.accounts[0].capital, f.accounts[0].capital);
    assert_eq!(e.accounts[1].capital, f.accounts[1].capital);
    assert_eq!(e.c_tot, f.c_tot);
}

#[test]
fn settlement_happens_once() {
    let mut e = traded(1_000_000, 1_000_000);
    assert_eq!(settle(&mut e, 1, 1_020_000, START + 50), Ok(()));
    assert_eq!(e.accounts[1].capital.get(), 980_000);
    assert_eq!(settle(&mut e, 1, 1_020_000, START + 50), Ok(()));
    assert_eq!(e.accounts[1].capital.get(), 980_000);
    assert_eq!(e.accounts[1].adl_k_snap, e.adl_coeff_short);
}

#[test]
fn flat_accounts_keep_their_deposits() {
    let mut e = traded(120_000, 1_000_000);
    let slot = e.current_slot;
    assert_eq!(e.deposit_not_atomic(2, 777, slot), Ok(()));
    fall(&mut e, 6);
    let p = e.last_oracle_price;
    let slot = e.current_slot;
    assert_eq!(
        e.liquidate_at_oracle_not_atomic(
            0,
            slot,
            p,
            LiquidationPolicy::FullClose,
            0,
            0,
            100,
            None
        ),
        Ok(true)
    );
    assert_eq!(settle(&mut e, 2, p, slot), Ok(()));
    assert_eq!(e.accounts[2].capital.get(), 777);
    assert_eq!(e.accounts[2].pnl, 0);
}

#[test]
fn healthy_account_is_not_liquidated() {
    let mut e = traded(120_000, 1_000_000);
    fall(&mut e, 1);
    let slot = e.current_slot;
    let r = e.liquidate_at_oracle_not_atomic(
        0,
        slot,
        980_000,
        LiquidationPolicy::FullClose,
        0,
        0,
        100,
        None,
    );
    assert_eq!(r, Ok(false));
    assert_eq!(e.accounts[0].capital.get(), 100_000);
    assert_eq!(e.try_effective_pos_q(0), Ok(UNIT));
}

#[test]
fn liquidation_closes_the_position_and_resets_both_sides() {
    let mut e = traded(120_000, 1_000_000);
    fall(&mut e, 4);
    assert_eq!(e.last_oracle_price, 922_369);
    let slot = e.current_slot;
    let r = e.liquidate_at_oracle_not_atomic(
        0,
        slot,
        922_369,
        LiquidationPolicy::FullClose,
        0,
        0,
        100,
        None,
    );
    assert_eq!(r, Ok(true));
    // 120_000 less a loss of 77_631 and a fee of one percent of 922_369, rounded up.
    assert_eq!(e.accounts[0].capital.get(), 120_000 - 77_631 - 9_224);
    assert_eq!(e.insurance_fund.balance.get(), 9_224);
    assert_eq!(e.try_effective_pos_q(0), Ok(0));
    assert_eq!(e.oi_eff_long_q, 0);
    assert_eq!(e.oi_eff_short_q, 0);
    assert_eq!(e.side_mode_long, SideMode::Normal);
    assert_eq!(e.side_mode_short, SideMode::ResetPending);
    assert_eq!(e.adl_epoch_short, 1);
    assert_eq!(e.adl_mult_short, ADL_ONE);
    assert_eq!(e.adl_coeff_short, 0);
    assert_eq!(e.adl_epoch_start_k_short, 77_631 * ADL_ONE as i128);
    assert_eq!(e.stale_account_count_short, 1);
    assert_eq!(e.accounts[1].position_basis_q, -UNIT);
    // The stale account settles once, and the side reopens.
    assert_eq!(settle(&mut e, 1, 922_369, slot), Ok(()));
    assert_eq!(e.accounts[1].position_basis_q, 0);
    assert_eq!(e.stale_account_count_short, 0);
    assert_eq!(e.side_mode_short, SideMode::Normal);
    let total = e.accounts[1].capital.get() as i128 + e.accounts[1].pnl;
    assert_eq!(total, 1_077_631);
}

#[test]
fn partial_liquidation_heals_the_account() {
    let mut e = traded(120_000, 1_000_000);
    fall(&mut e, 4);
    let slot = e.current_slot;
    let r = e.liquidate_at_oracle_not_atomic(
        0,
        slot,
        922_369,
        LiquidationPolicy::ExactPartial(500_000),
        0,
        0,
        100,
        None,
    );
    assert_eq!(r, Ok(true));
    assert_eq!(e.try_effective_pos_q(0), Ok(500_000));
    // The other side shrinks by the same ratio, without being touched.
    assert_eq!(e.adl_mult_short, ADL_ONE / 2);
    assert_eq!(e.try_effective_pos_q(1), Ok(-500_000));
    assert_eq!(e.accounts[1].position_basis_q, -UNIT);
    assert_eq!(e.oi_eff_long_q, 500_000);
    assert_eq!(e.oi_eff_short_q, 500_000);
    // Fee: one percent of 461_184, rounded up.
    assert_eq!(e.accounts[0].capital.get(), 120_000 - 77_631 - 4_612);
    let r = e.clone().liquidate_at_oracle_not_atomic(
        0,
        slot,
        922_369,
        LiquidationPolicy::FullClose,
        0,
        0,
        100,
        None,
    );
    assert_eq!(r, Ok(false));
}

#[test]
fn bankruptcy_uses_insurance_first() {
    let mut e = traded(110_000, 1_000_000);
    let slot = e.current_slot;
    assert_eq!(e.top_up_insurance_fund(5_000, slot), Ok(()));
    assert_eq!(e.insurance_fund.balance.get(), 5_000);
    fall(&mut e, 6);
    let p = e.last_oracle_price;
    let loss = (PRICE - p) as u128;
    assert!(loss > 110_000);
    let slot = e.current_slot;
    let r = e.liquidate_at_oracle_not_atomic(
        0,
        slot,
        p,
        LiquidationPolicy::FullClose,
        0,
        0,
        100,
        None,
    );
    assert_eq!(r, Ok(true));
    assert_eq!(e.accounts[0].capital.get(), 0);
    assert_eq!(e.accounts[0].pnl, 0);
    let deficit = loss - 110_000;
    if deficit <= 5_000 {
        assert_eq!(e.insurance_fund.balance.get(), 5_000 - deficit);
    } else {
        assert_eq!(e.insurance_fund.balance.get(), 0);
    }
    assert!(e.bankruptcy_hmax_lock_active);
    assert!(e.check_conservation());
}

#[test]
fn keeper_liquidates_candidates_and_sweeps() {
    let mut e = traded(120_000, 1_000_000);
    fall(&mut e, 4);
    let slot = e.current_slot;
    let candidates = [(0u16, Some(LiquidationPolicy::FullClose)), (9u16, None)];
    let r = e.keeper_crank_not_atomic(slot, 922_369, &candidates, 4, 0, 0, 100, None, 8);
    assert_eq!(r.map(|o| o.num_liquidations), Ok(1));
    assert_eq!(e.rr_cursor_position, 8);
    assert_eq!(e.sweep_generation, 0);
    let r = e.keeper_crank_not_atomic(slot, 922_369, &[], 0, 0, 0, 100, None, 60);
    assert_eq!(r.map(|o| o.num_liquidations), Ok(0));
    assert_eq!(e.rr_cursor_position, 0);
    assert_eq!(e.sweep_generation, 1);
    assert_eq!(e.price_move_consumed_bps_this_generation, 0);
}

#[test]
fn keeper_request_runs_the_same_crank() {
    let mut e = traded(120_000, 1_000_000);
    fall(&mut e, 4);
    let slot = e.current_slot;
    let candidates = [(0u16, Some(LiquidationPolicy::FullClose))];
    let req =
        KeeperCrankRequest::full_scan(slot, 922_369, &candidates, 4, 0, 0, 100, None, 8);
    let mut f = e.clone();
    let r = e.keeper_crank_with_request_not_atomic(req);
    let s = f.keeper_crank_not_atomic(slot, 922_369, &candidates, 4, 0, 0, 100, None, 8);
    assert_eq!(r, s);
    assert_eq!(e, f);
    assert_eq!(
        f.keeper_crank_not_atomic(slot, 922_369, &[], 200, 0, 0, 100, None, 100),
        Err(RiskError::Overflow)
    );
}

#[test]
fn crank_catches_the_market_up() {
    let mut e = traded(1_000_000, 1_000_000);
    let before = e.permissionless_progress_rank_for_now(START + 40).unwrap();
    assert_eq!(before.live_catchup_slots, 40);
    let r = e.keeper_crank_not_atomic(START + 40, PRICE, &[], 0, 0, 0, 100, None, 4);
    assert!(r.is_ok());
    let after = e.permissionless_progress_rank_for_now(START + 40).unwrap();
    assert_eq!(after.live_catchup_slots, 0);
    assert!(after.strictly_reduces_from(&before));
    assert!(!before.strictly_reduces_from(&after));
}

#[test]
fn released_profit_converts_to_capital() {
    let mut e = traded(1_000_000, 1_000_000);
    assert_eq!(settle(&mut e, 1, 1_020_000, START + 50), Ok(()));
    assert_eq!(settle(&mut e, 0, 1_020_000, START + 50), Ok(()));
    assert_eq!(e.try_released_pos(0), Ok(20_000));
    let go = |e: &mut RiskEngine, x: u128| {
        e.convert_released_pnl_not_atomic(0, x, 1_020_000, START + 50, 0, 0, 100, None)
    };
    assert_eq!(go(&mut e.clone(), 20_001), Err(RiskError::Overflow));
    assert_eq!(go(&mut e.clone(), 0), Err(RiskError::Overflow));
    assert_eq!(go(&mut e, 15_000), Ok(()));
    assert_eq!(e.accounts[0].capital.get(), 1_015_000);
    assert_eq!(e.accounts[0].pnl, 5_000);
    assert_eq!(e.pnl_matured_pos_tot, 5_000);
    assert_eq!(e.c_tot.get(), 1_995_000);
    assert_eq!(e.vault.get(), 2_000_000);
}

#[test]
fn haircut_scales_profit_to_what_backs_it() {
    let mut e = funded(&[1_000]);
    // 300 of matured profit against 100 of residual.
    e.vault = U128::new(1_100);
    e.accounts[0].pnl = 300;
    e.pnl_pos_tot = 300;
    e.pnl_matured_pos_tot = 300;
    assert_eq!(e.haircut_ratio(), (100, 300));
    assert_eq!(e.try_released_pos(0), Ok(300));
    assert_eq!(e.try_effective_matured_pnl(0), Ok(100));
    e.accounts[0].reserved_pnl = 100;
    assert_eq!(e.try_effective_matured_pnl(0), Ok(66));
    e.pnl_matured_pos_tot = 0;
    assert_eq!(e.haircut_ratio(), (1, 1));
}

#[test]
fn account_closes_when_nothing_is_owed() {
    let mut e = funded(&[1_000, 500]);
    let r = e.close_account_not_atomic(0, START, PRICE, 0, 0, 100, None);
    assert_eq!(r, Ok(1_000));
    assert_eq!(e.vault.get(), 500);
    assert!(!e.is_used(0));
    assert_eq!(e.free_head, 0);
    assert_eq!(e.count_used(), 1);
    // The slot can be taken again.
    assert_eq!(e.deposit_not_atomic(0, 5, START), Ok(()));
    assert_eq!(e.accounts[0].capital.get(), 5);
}

#[test]
fn account_with_position_or_profit_does_not_close() {
    let mut e = traded(1_000_000, 1_000_000);
    assert_eq!(
        e.clone().close_account_not_atomic(0, START, PRICE, 0, 0, 100, None),
        Err(RiskError::Undercollateralized)
    );
    // Profit in warmup.
    assert_eq!(settle(&mut e, 0, 1_020_000, START + 50), Ok(()));
    let slot = e.current_slot;
    assert_eq!(
        e.execute_trade_not_atomic(1, 0, 1_020_000, slot, UNIT, 1_020_000, 0, 0, 100, 100, None),
        Ok(())
    );
    assert_eq!(e.try_effective_pos_q(0), Ok(0));
    assert!(e.accounts[0].reserved_pnl > 0);
    assert_eq!(
        e.close_account_not_atomic(0, slot, 1_020_000, 0, 100, 100, None),
        Err(RiskError::PnlNotWarmedUp)
    );
}

#[test]
fn resolved_market_pays_everyone_out() {
    let mut e = traded(1_000_000, 1_000_000);
    assert_eq!(
        e.resolve_market_not_atomic(ResolveMode::Ordinary, 1_020_000, 1_020_000, START + 50, 0),
        Ok(())
    );
    assert!(e.is_resolved());
    assert_eq!(e.resolved_context(), (1_020_000, START + 50));
    assert!(!e.is_terminal_ready());
    // The winner is reconciled, but waits until everyone is.
    assert_eq!(e.force_close_resolved_not_atomic(0), Ok(ResolvedCloseResult::ProgressOnly));
    assert_eq!(e.accounts[0].pnl, 20_000);
    assert_eq!(
        e.close_resolved_terminal_not_atomic(0),
        Err(RiskError::Unauthorized)
    );
    let before = e.permissionless_progress_rank_for_now(START + 50).unwrap();
    assert_eq!(
        e.force_close_resolved_not_atomic(1),
        Ok(ResolvedCloseResult::Closed(980_000))
    );
    let after = e.permissionless_progress_rank_for_now(START + 50).unwrap();
    assert!(after.strictly_reduces_from(&before));
    assert!(e.is_terminal_ready());
    assert_eq!(
        e.force_close_resolved_not_atomic(0),
        Ok(ResolvedCloseResult::Closed(1_020_000))
    );
    assert_eq!(e.resolved_payout_ready, 1);
    assert_eq!(e.resolved_payout_h_num, 20_000);
    assert_eq!(e.resolved_payout_h_den, 20_000);
    assert_eq!(e.vault.get(), 0);
    assert_eq!(e.count_used(), 0);
    assert_eq!(e.withdraw_resolved_insurance_not_atomic(), Ok(0));
}

#[test]
fn settlement_price_is_held_to_the_band() {
    let mut e = traded(1_000_000, 1_000_000);
    assert_eq!(
        e.clone().resolve_market_not_atomic(
            ResolveMode::Ordinary,
            1_100_001,
            PRICE,
            START,
            0
        ),
        Err(RiskError::Overflow)
    );
    assert_eq!(
        e.clone().resolve_market_not_atomic(ResolveMode::Degenerate, PRICE, PRICE + 1, START, 0),
        Err(RiskError::Overflow)
    );
    assert_eq!(
        e.resolve_market_not_atomic(ResolveMode::Ordinary, 1_100_000, PRICE, START, 0),
        Ok(())
    );
    assert_eq!(e.resolved_k_long_terminal_delta, 100_000 * ADL_ONE as i128);
    assert_eq!(e.resolved_k_short_terminal_delta, -100_000 * ADL_ONE as i128);
    assert_eq!(e.reconcile_resolved_not_atomic(1), Ok(()));
    assert_eq!(e.accounts[1].capital.get(), 900_000);
    assert_eq!(e.reconcile_resolved_not_atomic(0), Ok(()));
    assert_eq!(e.accounts[0].pnl, 100_000);
    // Reconciling again changes nothing.
    let again = e.clone();
    assert_eq!(e.reconcile_resolved_not_atomic(0), Ok(()));
    assert_eq!(e, again);
    assert_eq!(e.close_resolved_terminal_not_atomic(0), Ok(1_100_000));
}

#[test]
fn cursor_closes_accounts_in_turn() {
    let mut e = funded(&[100, 200, 300]);
    assert_eq!(
        e.resolve_market_not_atomic(ResolveMode::Degenerate, PRICE, PRICE, START, 0),
        Ok(())
    );
    assert_eq!(
        e.force_close_resolved_cursor_not_atomic(4),
        Ok(ResolvedCloseResult::Closed(100))
    );
    assert_eq!(e.rr_cursor_position, 1);
    assert_eq!(
        e.force_close_resolved_cursor_with_fee_not_atomic(4, 0),
        Ok(ResolvedCloseResult::Closed(200))
    );
    assert_eq!(
        e.force_close_resolved_cursor_not_atomic(0),
        Err(RiskError::Overflow)
    );
    let req = PermissionlessProgressRequest {
        now_slot: START,
        oracle_price: PRICE,
        authenticated_raw_target_price: 0,
        ordered_candidates: &[],
        account_hint: None,
        max_revalidations: 0,
        max_candidate_inspections: 0,
        funding_rate_e9: 0,
        admit_h_min: 0,
        admit_h_max: 100,
        admit_h_max_consumption_threshold_bps_opt: None,
        rr_touch_limit: 0,
        rr_scan_limit: 0,
        resolved_scan_limit: 64,
        resolved_fee_rate_per_slot: 0,
    };
    assert_eq!(
        e.permissionless_progress_not_atomic(req),
        Ok(PermissionlessProgressOutcome::ResolvedClose(ResolvedCloseResult::Closed(300)))
    );
    assert_eq!(e.vault.get(), 0);
}

#[test]
fn fees_are_charged_once_for_each_slot() {
    let mut e = funded(&[1_000]);
    assert_eq!(e.sync_account_fee_to_slot_not_atomic(0, START + 10, 7), Ok(()));
    assert_eq!(e.accounts[0].capital.get(), 930);
    assert_eq!(e.insurance_fund.balance.get(), 70);
    assert_eq!(e.accounts[0].last_fee_slot, START + 10);
    assert_eq!(e.sync_account_fee_to_slot_not_atomic(0, START + 10, 7), Ok(()));
    assert_eq!(e.accounts[0].capital.get(), 930);
    // What capital cannot pay becomes debt.
    assert_eq!(e.sync_account_fee_to_slot_not_atomic(0, START + 20, 100), Ok(()));
    assert_eq!(e.accounts[0].capital.get(), 0);
    assert_eq!(e.accounts[0].fee_credits.get(), -70);
    assert_eq!(e.insurance_fund.balance.get(), 1_000);
    // Paying in takes at most the debt.
    assert_eq!(e.deposit_fee_credits(0, 100, START + 20), Ok(70));
    assert_eq!(e.accounts[0].fee_credits.get(), 0);
    assert_eq!(e.vault.get(), 1_070);
    assert_eq!(e.insurance_fund.balance.get(), 1_070);
}

#[test]
fn charged_fee_is_accounted_for() {
    let mut e = funded(&[1_000]);
    assert_eq!(e.charge_account_fee_not_atomic(0, 300, START), Ok(()));
    assert_eq!(e.accounts[0].capital.get(), 700);
    assert_eq!(e.insurance_fund.balance.get(), 300);
    assert_eq!(e.c_tot.get(), 700);
    assert_eq!(
        e.charge_account_fee_not_atomic(0, u128::MAX, START),
        Err(RiskError::Overflow)
    );
    assert_eq!(e.clone().charge_fee_to_insurance(0, 900), Ok((700, 900, 0)));
}

#[test]
fn deposit_sweeps_fee_debt_of_a_flat_account() {
    let mut e = funded(&[100]);
    assert_eq!(e.charge_account_fee_not_atomic(0, 150, START), Ok(()));
    assert_eq!(e.accounts[0].fee_credits, I128::new(-50));
    assert_eq!(e.deposit_not_atomic(0, 80, START), Ok(()));
    assert_eq!(e.accounts[0].fee_credits.get(), 0);
    assert_eq!(e.accounts[0].capital.get(), 30);
    assert_eq!(e.insurance_fund.balance.get(), 150);
}

#[test]
fn insurance_moves_only_by_its_own_instructions() {
    let mut e = funded(&[1_000]);
    assert_eq!(e.top_up_insurance_fund(500, START), Ok(()));
    assert_eq!(e.vault.get(), 1_500);
    assert_eq!(e.credit_account_from_insurance_not_atomic(0, 200, START), Ok(()));
    assert_eq!(e.accounts[0].capital.get(), 1_200);
    assert_eq!(e.insurance_fund.balance.get(), 300);
    assert_eq!(e.vault.get(), 1_500);
    assert_eq!(
        e.clone().credit_account_from_insurance_not_atomic(0, 301, START),
        Err(RiskError::InsufficientBalance)
    );
    assert_eq!(e.withdraw_live_insurance_not_atomic(100, START), Ok(()));
    assert_eq!(e.insurance_fund.balance.get(), 200);
    assert_eq!(e.vault.get(), 1_400);
    let mut t = traded(1_000_000, 1_000_000);
    assert_eq!(t.top_up_insurance_fund(5, START), Ok(()));
    assert_eq!(
        t.withdraw_live_insurance_not_atomic(1, START),
        Err(RiskError::Undercollateralized)
    );
}

#[test]
fn refused_top_up_changes_nothing() {
    let mut e = funded(&[1_000]);
    let before = e.clone();
    assert_eq!(e.top_up_insurance_fund(MAX_VAULT_TVL, START), Err(RiskError::Overflow));
    assert_eq!(e.top_up_insurance_fund(1, START - 1), Err(RiskError::Overflow));
    assert_eq!(e, before);
    e.vault = U128::new(999);
    let broken = e.clone();
    assert_eq!(e.top_up_insurance_fund(1, START), Err(RiskError::CorruptState));
    assert_eq!(e, broken);
}

#[test]
fn empty_account_is_reclaimed() {
    let mut e = funded(&[100, 50]);
    assert_eq!(
        e.clone().reclaim_empty_account_not_atomic(0, START),
        Err(RiskError::Undercollateralized)
    );
    assert_eq!(e.charge_account_fee_not_atomic(0, 120, START), Ok(()));
    assert_eq!(e.accounts[0].capital.get(), 0);
    assert_eq!(e.reclaim_empty_account_not_atomic(0, START), Ok(()));
    assert!(!e.is_used(0));
    assert_eq!(e.count_used(), 1);
}

#[test]
fn owner_is_set_once() {
    let mut e = funded(&[100]);
    let key = [7u8; 32];
    assert_eq!(e.set_owner(0, [0u8; 32]), Err(RiskError::Unauthorized));
    assert_eq!(e.set_owner(1, key), Err(RiskError::Unauthorized));
    assert_eq!(e.set_owner(0, key), Ok(()));
    assert_eq!(e.set_owner(0, [8u8; 32]), Err(RiskError::Unauthorized));
    assert_eq!(e.accounts[0].owner, key);
}

#[test]
fn flat_loss_is_paid_by_capital_then_insurance() {
    let mut e = funded(&[100]);
    assert_eq!(e.top_up_insurance_fund(30, START), Ok(()));
    e.accounts[0].pnl = -120;
    e.neg_pnl_account_count = 1;
    assert_eq!(e.settle_flat_negative_pnl_not_atomic(0, START), Ok(()));
    assert_eq!(e.accounts[0].pnl, 0);
    assert_eq!(e.accounts[0].capital.get(), 0);
    assert_eq!(e.insurance_fund.balance.get(), 10);
    assert_eq!(e.neg_pnl_account_count, 0);
    assert!(e.bankruptcy_hmax_lock_active);
}

#[test]
fn bankrupt_close_in_flight_blocks_and_continues() {
    let mut e = traded(1_000_000, 1_000_000);
    assert_eq!(e.ensure_no_active_bankrupt_close(), Ok(()));
    e.loss_weight_sum_short = 1_000_000;
    assert_eq!(
        e.start_active_bankrupt_close_residual(u16::MAX, Side::Short, PRICE, START, 5, 12),
        Ok(())
    );
    assert_eq!(e.ensure_no_active_bankrupt_close(), Err(RiskError::RecoveryRequired));
    assert_eq!(e.validate_active_bankrupt_close_shape(), Ok(()));
    assert_eq!(
        e.clone().sync_account_fee_to_slot_not_atomic(0, START, 1),
        Err(RiskError::RecoveryRequired)
    );
    let before = e.permissionless_progress_rank_for_now(START).unwrap();
    assert_eq!(before.active_close_residual_atoms, 12);
    assert_eq!(e.continue_active_bankrupt_close_not_atomic(START), Ok(true));
    let after = e.permissionless_progress_rank_for_now(START).unwrap();
    assert_eq!(after.active_close_residual_atoms, 0);
    assert!(after.strictly_reduces_from(&before));
    assert_eq!(e.active_close_present, 0);
    // Twelve atoms over a weight of a millionth part of the denominator each.
    assert_eq!(e.b_short_num, 12 * 1_000_000_000_000_000);
    let mut c = InstructionContext::new();
    assert!(c.add_touched(3));
    assert!(c.add_touched(1));
    assert!(c.add_touched(3));
    assert_eq!(c.touched_count, 2);
    assert_eq!(c.touched_accounts[0], 1);
    assert_eq!(c.touched_accounts[1], 3);
}
