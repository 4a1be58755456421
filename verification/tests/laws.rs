use percolator::constants::{ADL_ONE, SOCIAL_LOSS_DEN};
use percolator::{
    LiquidationPolicy, MarketMode, PermissionlessProgressOutcome, PermissionlessProgressRequest,
    RecoveryReason, ResolveMode, ResolvedCloseResult, RiskEngine, RiskError, RiskParams, SideMode,
    U128,
};

const UNIT: i128 = 1_000_000;
const PRICE: u64 = 1_000_000;
const START: u64 = 100;

fn params() -> RiskParams {
    RiskParams {
        maintenance_margin_bps: 500,
        initial_margin_bps: 1_000,
        max_trading_fee_bps: 100,
        max_accounts: 64,
        liquidation_fee_bps: 100,
        liquidation_fee_cap: U128::new(1_000_000_000),
        min_liquidation_abs: U128::new(0),
        min_nonzero_mm_req: 10,
        min_nonzero_im_req: 20,
        h_min: 0,
        h_max: 100,
        resolve_price_deviation_bps: 1_000,
        max_accrual_dt_slots: 50,
        max_abs_funding_e9_per_slot: 1_000,
        min_funding_lifetime_slots: 1_000_000,
        max_active_positions_per_side: 64,
        max_price_move_bps_per_slot: 4,
    }
}

fn funded(capitals: &[u128]) -> RiskEngine {
    let mut e = RiskEngine::new_with_market(params(), START, PRICE);
    for (i, c) in capitals.iter().enumerate() {
        assert_eq!(e.deposit_not_atomic(i as u16, *c, START), Ok(()));
    }
    e
}

fn trade(e: &mut RiskEngine, a: u16, b: u16, size_q: i128) -> Result<(), RiskError> {
    let slot = e.current_slot;
    let price = e.last_oracle_price;
    e.execute_trade_not_atomic(a, b, price, slot, size_q, price, 0, 0, 0, 100, None)
}

fn traded(capital_0: u128, capital_1: u128) -> RiskEngine {
    let mut e = funded(&[capital_0, capital_1]);
    assert_eq!(trade(&mut e, 0, 1, UNIT), Ok(()));
    e
}

fn settle(e: &mut RiskEngine, idx: u16) -> Result<(), RiskError> {
    let slot = e.current_slot;
    let price = e.last_oracle_price;
    e.settle_account_not_atomic(idx, price, slot, 0, 0, 100, None)
}

/// Moves the price down by as much as each window allows.
fn fall(e: &mut RiskEngine, windows: u64) {
    for _ in 0..windows {
        let p = e.last_oracle_price;
        let slot = e.last_market_slot + 50;
        assert_eq!(e.accrue_market_to(slot, p - p * 200 / 10_000, 0), Ok(()));
    }
}

fn liquidate(e: &mut RiskEngine, idx: u16) -> Result<bool, RiskError> {
    let slot = e.current_slot;
    let price = e.last_oracle_price;
    let full = LiquidationPolicy::FullClose;
    e.liquidate_at_oracle_not_atomic(idx, slot, price, full, 0, 0, 100, None)
}

fn progress(now_slot: u64, oracle_price: u64, raw: u64) -> PermissionlessProgressRequest<'static> {
    PermissionlessProgressRequest {
        now_slot,
        oracle_price,
        authenticated_raw_target_price: raw,
        ordered_candidates: &[],
        account_hint: None,
        max_revalidations: 0,
        max_candidate_inspections: 0,
        funding_rate_e9: 0,
        admit_h_min: 0,
        admit_h_max: 100,
        admit_h_max_consumption_threshold_bps_opt: None,
        rr_touch_limit: 4,
        rr_scan_limit: 4,
        resolved_scan_limit: 64,
        resolved_fee_rate_per_slot: 0,
    }
}

#[test]
fn value_is_conserved_along_a_history() {
    let mut e = traded(120_000, 1_000_000);
    let mut paid_in: u128 = 1_120_000;
    let mut paid_out: u128 = 0;
    assert_eq!(e.top_up_insurance_fund(5_000, START), Ok(()));
    paid_in += 5_000;
    fall(&mut e, 6);
    assert_eq!(liquidate(&mut e, 0), Ok(true));
    assert_eq!(settle(&mut e, 1), Ok(()));
    let (slot, price) = (e.current_slot, e.last_oracle_price);
    assert_eq!(e.withdraw_not_atomic(1, 10_000, price, slot, 0, 0, 100, None), Ok(()));
    paid_out += 10_000;
    assert_eq!(e.vault.get(), paid_in - paid_out);
    assert!(e.check_conservation());
    assert_eq!(
        e.resolve_market_not_atomic(ResolveMode::Degenerate, price, price, slot, 0),
        Ok(())
    );
    loop {
        match e.force_close_resolved_cursor_not_atomic(64) {
            Ok(ResolvedCloseResult::Closed(v)) => paid_out += v,
            Ok(ResolvedCloseResult::ProgressOnly) => {}
            Err(err) => panic!("{:?}", err),
        }
        assert_eq!(e.vault.get(), paid_in - paid_out);
        if e.count_used() == 0 {
            break;
        }
    }
    assert_eq!(e.withdraw_resolved_insurance_not_atomic(), Ok(paid_in - paid_out));
    assert_eq!(e.vault.get(), 0);
}

#[test]
fn trade_is_zero_sum() {
    let mut e = funded(&[1_000_000, 1_000_000]);
    let total = |e: &RiskEngine| {
        (0..2).map(|i| e.accounts[i].capital.get() as i128 + e.accounts[i].pnl).sum::<i128>()
    };
    let before = total(&e);
    let size = 1_234_567;
    // The loss is rounded away from zero, and the gain is exactly the loss.
    let r = e.execute_trade_not_atomic(0, 1, PRICE, START, size, PRICE - 7, 0, 0, 0, 100, None);
    assert_eq!(r, Ok(()));
    assert_eq!(e.accounts[0].pnl, 8);
    assert_eq!(total(&e), before);
}

#[test]
fn deposit_survives_the_bankruptcy_of_others() {
    let mut e = traded(110_000, 1_000_000);
    assert_eq!(e.deposit_not_atomic(2, 777, START), Ok(()));
    fall(&mut e, 8);
    let (slot, price) = (e.current_slot, e.last_oracle_price);
    let candidates = [(0u16, Some(LiquidationPolicy::FullClose))];
    let r = e.keeper_crank_not_atomic(slot, price, &candidates, 4, 0, 0, 100, None, 64);
    assert_eq!(r.map(|o| o.num_liquidations), Ok(1));
    assert_eq!(e.accounts[0].capital.get(), 0);
    assert_eq!(e.accounts[2].capital.get(), 777);
    // And it can be withdrawn.
    assert_eq!(e.withdraw_not_atomic(2, 777, price, slot, 0, 0, 100, None), Ok(()));
    assert_eq!(e.accounts[2].capital.get(), 0);
}

#[test]
fn new_account_owes_no_past_fees() {
    let mut e = funded(&[1_000]);
    assert_eq!(e.deposit_not_atomic(1, 1_000, START + 500), Ok(()));
    assert_eq!(e.accounts[1].last_fee_slot, START + 500);
    assert_eq!(e.sync_account_fee_to_slot_not_atomic(1, START + 500, 7), Ok(()));
    assert_eq!(e.accounts[1].capital.get(), 1_000);
    // The older account owes for all of its slots.
    assert_eq!(e.sync_account_fee_to_slot_not_atomic(0, START + 500, 1), Ok(()));
    assert_eq!(e.accounts[0].capital.get(), 500);
}

#[test]
fn fees_add_up_over_the_slots() {
    let mut once = funded(&[1_000]);
    let mut twice = once.clone();
    assert_eq!(once.sync_account_fee_to_slot_not_atomic(0, START + 30, 7), Ok(()));
    assert_eq!(twice.sync_account_fee_to_slot_not_atomic(0, START + 11, 7), Ok(()));
    assert_eq!(twice.sync_account_fee_to_slot_not_atomic(0, START + 30, 7), Ok(()));
    assert_eq!(once, twice);
}

#[test]
fn every_free_slot_can_be_taken() {
    let mut e = funded(&[10, 20, 30]);
    assert_eq!(e.close_account_not_atomic(1, START, PRICE, 0, 0, 100, None), Ok(20));
    for i in [1u16, 63, 17] {
        assert!(!e.is_used(i as usize));
        assert_eq!(e.deposit_not_atomic(i, 5, START), Ok(()));
        assert!(e.is_used(i as usize));
    }
    for i in 3..63u16 {
        if i != 17 {
            assert_eq!(e.deposit_not_atomic(i, 5, START), Ok(()));
        }
    }
    assert_eq!(e.count_used(), 64);
    assert_eq!(e.free_head, u16::MAX);
}

#[test]
fn positions_settle_pro_rata() {
    // Account 1 holds three times the position of account 2.
    let mut e = funded(&[1_000_000, 1_000_000, 1_000_000]);
    assert_eq!(trade(&mut e, 0, 1, 3 * UNIT), Ok(()));
    assert_eq!(trade(&mut e, 0, 2, UNIT), Ok(()));
    fall(&mut e, 1);
    assert_eq!(settle(&mut e, 1), Ok(()));
    assert_eq!(settle(&mut e, 2), Ok(()));
    assert_eq!(e.accounts[1].pnl, 60_000);
    assert_eq!(e.accounts[2].pnl, 20_000);
}

#[test]
fn partial_liquidation_shrinks_all_by_one_ratio() {
    let mut e = funded(&[480_000, 1_000_000, 1_000_000]);
    assert_eq!(trade(&mut e, 0, 1, 3 * UNIT), Ok(()));
    assert_eq!(trade(&mut e, 0, 2, UNIT), Ok(()));
    fall(&mut e, 4);
    let (slot, price) = (e.current_slot, e.last_oracle_price);
    let r = e.liquidate_at_oracle_not_atomic(
        0,
        slot,
        price,
        LiquidationPolicy::ExactPartial(2_000_000),
        0,
        0,
        100,
        None,
    );
    assert_eq!(r, Ok(true));
    assert_eq!(e.adl_mult_short, ADL_ONE / 2);
    assert_eq!(e.try_effective_pos_q(1), Ok(-1_500_000));
    assert_eq!(e.try_effective_pos_q(2), Ok(-500_000));
    assert_eq!(e.oi_eff_short_q, 2_000_000);
    assert_eq!(e.oi_eff_long_q, 2_000_000);
}

#[test]
fn stale_account_settles_and_leaves() {
    let mut e = traded(120_000, 1_000_000);
    fall(&mut e, 4);
    assert_eq!(liquidate(&mut e, 0), Ok(true));
    assert_eq!(e.side_mode_short, SideMode::ResetPending);
    assert_eq!(e.stored_pos_count_short, 1);
    // The side takes no interest until the stale position has settled.
    assert_eq!(e.deposit_not_atomic(2, 1_000_000, e.current_slot), Ok(()));
    assert_eq!(trade(&mut e.clone(), 0, 2, 1_000), Err(RiskError::SideBlocked));
    assert_eq!(settle(&mut e, 1), Ok(()));
    assert_eq!(e.stored_pos_count_short, 0);
    assert_eq!(e.side_mode_short, SideMode::Normal);
    assert_eq!(trade(&mut e, 0, 2, 1_000), Ok(()));
}

#[test]
fn deficit_is_accounted_for() {
    let mut e = traded(110_000, 1_000_000);
    assert_eq!(e.top_up_insurance_fund(1_000, START), Ok(()));
    let weights = e.loss_weight_sum_short;
    fall(&mut e, 7);
    let deficit = (PRICE - e.last_oracle_price) as u128 - 110_000;
    assert!(deficit > 1_000);
    let mut f = e.clone();
    assert_eq!(liquidate(&mut f, 0), Ok(true));
    assert_eq!(f.insurance_fund.balance.get(), 0);
    // What insurance does not cover is booked on the other side or recorded.
    let explicit = f.explicit_unallocated_loss_long.get()
        + f.explicit_unallocated_loss_short.get()
        + f.explicit_unallocated_protocol_loss.get();
    let open = if f.active_close_present != 0 { f.active_close_residual_remaining } else { 0 };
    let booked_scaled = (f.b_epoch_start_short_num - e.b_short_num) * weights
        + f.social_loss_remainder_short_num;
    assert_eq!(
        booked_scaled / SOCIAL_LOSS_DEN + explicit + open,
        deficit - 1_000
    );
}

#[test]
fn payouts_are_scaled_to_what_backs_them() {
    let mut e = funded(&[1_000, 2_000]);
    // 300 and 100 of matured profit against 100 of residual.
    e.vault = U128::new(3_100);
    e.accounts[0].pnl = 300;
    e.accounts[1].pnl = 100;
    e.pnl_pos_tot = 400;
    e.pnl_matured_pos_tot = 400;
    assert_eq!(
        e.resolve_market_not_atomic(ResolveMode::Degenerate, PRICE, PRICE, START, 0),
        Ok(())
    );
    assert_eq!(e.close_resolved_terminal_not_atomic(0), Ok(1_075));
    assert_eq!((e.resolved_payout_h_num, e.resolved_payout_h_den), (100, 400));
    // The ratio is the same for the last account as for the first.
    assert_eq!(e.close_resolved_terminal_not_atomic(1), Ok(2_025));
    assert_eq!((e.resolved_payout_h_num, e.resolved_payout_h_den), (100, 400));
    assert_eq!(e.vault.get(), 0);
}

#[test]
fn terminal_close_charges_its_fee_or_changes_nothing() {
    let mut e = funded(&[1_000]);
    assert_eq!(
        e.resolve_market_not_atomic(ResolveMode::Degenerate, PRICE, PRICE, START + 10, 0),
        Ok(())
    );
    let before = e.clone();
    assert_eq!(
        e.close_resolved_terminal_with_fee_not_atomic(5, 3),
        Err(RiskError::AccountNotFound)
    );
    assert_eq!(e, before);
    assert_eq!(e.close_resolved_terminal_with_fee_not_atomic(0, 3), Ok(970));
    // The last close leaves the fee in the fund, where it can be withdrawn.
    assert_eq!(e.withdraw_resolved_insurance_not_atomic(), Ok(30));
    assert_eq!(e.vault.get(), 0);
}

#[test]
fn paid_loss_backs_the_profit() {
    let mut e = traded(1_000_000, 1_000_000);
    fall(&mut e, 1);
    assert_eq!(settle(&mut e, 1), Ok(()));
    // The winner settles first: nothing backs the profit, so it waits.
    assert_eq!(e.accounts[1].reserved_pnl, 20_000);
    assert_eq!(settle(&mut e, 0), Ok(()));
    assert_eq!(e.accounts[0].capital.get(), 980_000);
    assert_eq!(settle(&mut e, 1), Ok(()));
    assert_eq!(e.accounts[1].reserved_pnl, 0);
    assert_eq!(e.haircut_ratio(), (20_000, 20_000));
}

#[test]
fn crank_progresses_a_live_market() {
    let mut e = traded(1_000_000, 1_000_000);
    let r = e.permissionless_progress_not_atomic(progress(START + 10, PRICE, PRICE));
    assert!(matches!(r, Ok(PermissionlessProgressOutcome::Cranked(_))));
    assert_eq!(e.last_market_slot, START + 10);
    assert_eq!(e.rr_cursor_position, 4);
}

#[test]
fn unreachable_target_settles_the_market_at_its_last_price() {
    // At this price the largest move of a slot is less than one.
    let mut e = RiskEngine::new_with_market(params(), START, 1_000);
    assert_eq!(e.deposit_not_atomic(0, 1_000_000, START), Ok(()));
    assert_eq!(e.deposit_not_atomic(1, 1_000_000, START), Ok(()));
    assert_eq!(trade(&mut e, 0, 1, UNIT), Ok(()));
    assert_eq!(
        e.validate_permissionless_p_last_recovery_reason(
            RecoveryReason::BelowProgressFloor,
            START + 1,
            1_000
        ),
        Err(RiskError::Unauthorized)
    );
    let r = e.permissionless_progress_not_atomic(progress(START + 1, 1_000, 1_100));
    assert_eq!(
        r,
        Ok(PermissionlessProgressOutcome::Recovered(RecoveryReason::BelowProgressFloor))
    );
    assert_eq!(e.market_mode, MarketMode::Resolved);
    assert_eq!(e.resolved_context(), (1_000, START + 1));
}

#[test]
fn recovery_needs_its_reason() {
    let e = traded(1_000_000, 1_000_000);
    let go = |e: &RiskEngine, reason: RecoveryReason| {
        e.clone().permissionless_recovery_resolve_p_last_not_atomic(reason, START, PRICE)
    };
    let no = Err(RiskError::Unauthorized);
    assert_eq!(go(&e, RecoveryReason::BelowProgressFloor), no);
    assert_eq!(go(&e, RecoveryReason::BIndexHeadroomExhausted), no);
    assert_eq!(go(&e, RecoveryReason::ExplicitLossOrDustAuditOverflow), no);
    assert_eq!(go(&e, RecoveryReason::BlockedSegmentHeadroomOrRepresentability), no);
    assert_eq!(go(&e, RecoveryReason::AccountBSettlementCannotProgress), no);
    assert_eq!(go(&e, RecoveryReason::ActiveBankruptCloseCannotProgress), no);
    assert_eq!(go(&e, RecoveryReason::OracleOrTargetUnavailableByAuthenticatedPolicy), no);
    assert_eq!(go(&e, RecoveryReason::CounterOrEpochOverflowDeclaredRecovery), no);
    let mut f = e.clone();
    f.explicit_unallocated_loss_saturated = 1;
    assert_eq!(go(&f, RecoveryReason::ExplicitLossOrDustAuditOverflow), Ok(()));
    let mut g = e.clone();
    g.b_long_num = u128::MAX;
    assert_eq!(go(&g, RecoveryReason::BIndexHeadroomExhausted), Ok(()));
    let mut h = e.clone();
    h.sweep_generation = u64::MAX;
    assert_eq!(go(&h, RecoveryReason::CounterOrEpochOverflowDeclaredRecovery), Ok(()));
    assert_eq!(
        h.clone().permissionless_recovery_resolve_account_b_p_last_not_atomic(0, START),
        no
    );
}

#[test]
fn thin_side_drains_and_starts_over() {
    let mut e = traded(120_000, 1_000_000);
    fall(&mut e, 4);
    let (slot, price) = (e.current_slot, e.last_oracle_price);
    let r = e.liquidate_at_oracle_not_atomic(
        0,
        slot,
        price,
        LiquidationPolicy::ExactPartial(950_000),
        0,
        0,
        100,
        None,
    );
    assert_eq!(r, Ok(true));
    assert_eq!(e.adl_mult_short, ADL_ONE / 20);
    assert_eq!(e.side_mode_short, SideMode::DrainOnly);
    assert_eq!(e.adl_epoch_short, 0);
    // A side that drains takes no new interest.
    assert_eq!(e.deposit_not_atomic(2, 1_000_000, slot), Ok(()));
    assert_eq!(trade(&mut e.clone(), 0, 2, 1_000), Err(RiskError::SideBlocked));
    // Once the rest is gone the side starts over.
    let mut windows = 0;
    while liquidate(&mut e, 0) == Ok(false) {
        assert_eq!(e.side_mode_short, SideMode::DrainOnly);
        assert_eq!(e.adl_epoch_short, 0);
        fall(&mut e, 1);
        windows += 1;
        assert!(windows < 100);
    }
    assert_eq!(e.oi_eff_short_q, 0);
    assert_eq!(e.side_mode_short, SideMode::ResetPending);
    assert_eq!(e.adl_mult_short, ADL_ONE);
    assert_eq!(e.adl_epoch_short, 1);
    assert_eq!(settle(&mut e, 1), Ok(()));
    assert_eq!(e.side_mode_short, SideMode::Normal);
}

#[test]
fn resolution_is_final() {
    let mut e = traded(1_000_000, 1_000_000);
    assert_eq!(
        e.resolve_market_not_atomic(ResolveMode::Ordinary, PRICE, PRICE, START + 5, 0),
        Ok(())
    );
    let no = Err(RiskError::Unauthorized);
    assert_eq!(
        e.resolve_market_not_atomic(ResolveMode::Ordinary, PRICE + 1, PRICE, START + 6, 0),
        no
    );
    assert_eq!(e.deposit_not_atomic(0, 5, START + 6), no);
    assert_eq!(e.accrue_market_to(START + 6, PRICE, 0), no);
    assert_eq!(trade(&mut e, 0, 1, UNIT), no);
    assert_eq!(liquidate(&mut e, 0), Err(RiskError::Unauthorized));
    assert_eq!(e.resolved_context(), (PRICE, START + 5));
    assert_eq!(e.market_mode, MarketMode::Resolved);
}

#[test]
fn time_does_not_run_backwards() {
    let mut e = traded(1_000_000, 1_000_000);
    assert_eq!(e.accrue_market_to(START + 10, PRICE, 0), Ok(()));
    let past = START + 9;
    let no = Err(RiskError::Overflow);
    assert_eq!(e.accrue_market_to(past, PRICE, 0), no);
    assert_eq!(e.deposit_not_atomic(0, 1, past), no);
    assert_eq!(e.withdraw_not_atomic(0, 1, PRICE, past, 0, 0, 100, None), no);
    assert_eq!(e.settle_account_not_atomic(0, PRICE, past, 0, 0, 100, None), no);
    assert_eq!(e.top_up_insurance_fund(1, past), no);
    assert_eq!(e.charge_account_fee_not_atomic(0, 1, past), no);
    assert_eq!(e.current_slot, START + 10);
}

#[test]
fn one_accrual_cannot_bankrupt() {
    let mut e = traded(100_000, 1_000_000);
    fall(&mut e, 2);
    assert_eq!(settle(&mut e, 0), Ok(()));
    assert_eq!(e.accounts[0].capital.get(), 60_400);
    assert!(e.is_above_maintenance_margin(&e.accounts[0], 0, 960_400));
    // The largest fall of one window takes the account below maintenance, but what is
    // left still pays the liquidation fee.
    fall(&mut e, 1);
    assert_eq!(e.last_oracle_price, 941_192);
    assert_eq!(liquidate(&mut e, 0), Ok(true));
    assert_eq!(e.accounts[0].capital.get(), 41_192 - 9_412);
    assert_eq!(e.insurance_fund.balance.get(), 9_412);
    assert!(!e.bankruptcy_hmax_lock_active);
}
