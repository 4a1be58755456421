use percolator::constants::{
    ACTIVE_CLOSE_MAX_RESIDUAL_B_CHUNKS, ACTIVE_CLOSE_PHASE_RESIDUAL_B, ACTIVE_CLOSE_SIDE_LONG,
    ADL_ONE, MAX_ACCOUNTS, SOCIAL_LOSS_DEN,
};
use percolator::wide_math::I256;
use percolator::{
    I128, MarketMode, PermissionlessProgressOutcome, PermissionlessProgressRequest, RecoveryReason,
    ResolveMode, ResolvedCloseResult, RiskEngine, RiskError, RiskParams, U128,
};

const UNIT: i128 = 1_000_000;
const PRICE: u64 = 1_000_000;
const START: u64 = 100;

fn params() -> RiskParams {
    RiskParams {
        maintenance_margin_bps: 500,
        initial_margin_bps: 1_000,
        max_trading_fee_bps: 100,
        max_accounts: 64,
        liquidation_fee_bps: 100,
        liquidation_fee_cap: U128::new(1_000_000_000),
        min_liquidation_abs: U128::new(0),
        min_nonzero_mm_req: 10,
        min_nonzero_im_req: 20,
        h_min: 0,
        h_max: 100,
        resolve_price_deviation_bps: 1_000,
        max_accrual_dt_slots: 50,
        max_abs_funding_e9_per_slot: 1_000,
        min_funding_lifetime_slots: 1_000_000,
        max_active_positions_per_side: 64,
        max_price_move_bps_per_slot: 4,
    }
}

/// A market in which account 0 has bought one unit from account 1.
fn traded() -> RiskEngine {
    let mut e = RiskEngine::new_with_market(params(), START, PRICE);
    assert_eq!(e.deposit_not_atomic(0, 1_000_000, START), Ok(()));
    assert_eq!(e.deposit_not_atomic(1, 1_000_000, START), Ok(()));
    let r = e.execute_trade_not_atomic(0, 1, PRICE, START, UNIT, PRICE, 0, 0, 0, 100, None);
    assert_eq!(r, Ok(()));
    e
}

fn request(now_slot: u64, account_hint: Option<u16>) -> PermissionlessProgressRequest<'static> {
    PermissionlessProgressRequest {
        now_slot,
        oracle_price: PRICE,
        authenticated_raw_target_price: PRICE,
        ordered_candidates: &[],
        account_hint,
        max_revalidations: 0,
        max_candidate_inspections: 0,
        funding_rate_e9: 0,
        admit_h_min: 0,
        admit_h_max: 100,
        admit_h_max_consumption_threshold_bps_opt: None,
        rr_touch_limit: 4,
        rr_scan_limit: 4,
        resolved_scan_limit: 64,
        resolved_fee_rate_per_slot: 0,
    }
}

/// Puts a close of this residual in flight against the long side.
fn with_close(e: &mut RiskEngine, residual: u128, chunks_booked: u64) {
    e.active_close_present = 1;
    e.active_close_phase = ACTIVE_CLOSE_PHASE_RESIDUAL_B;
    e.active_close_account_idx = u16::MAX;
    e.active_close_opp_side = ACTIVE_CLOSE_SIDE_LONG;
    e.active_close_close_price = PRICE;
    e.active_close_close_slot = e.current_slot;
    e.active_close_residual_remaining = residual;
    e.active_close_b_chunks_booked = chunks_booked;
    open_envelope(e);
}

fn open_envelope(e: &mut RiskEngine) {
    e.bankruptcy_hmax_lock_active = true;
    e.stress_envelope_remaining_indices = e.params.max_accounts;
    e.stress_envelope_start_slot = e.current_slot;
    e.stress_envelope_start_generation = e.sweep_generation;
}

/// Gives account 0 the whole loss weight of its side, and a loss of `owed` to settle.
fn owing(owed: u128) -> RiskEngine {
    let mut e = traded();
    e.accounts[0].loss_weight = SOCIAL_LOSS_DEN;
    e.accounts[0].b_epoch_snap = e.accounts[0].adl_epoch_snap;
    e.loss_weight_sum_long = SOCIAL_LOSS_DEN;
    e.b_long_num = owed;
    e
}

#[test]
fn restarted_market_forgets_every_loss() {
    let mut e = traded();
    for i in 0..MAX_ACCOUNTS {
        e.accounts[i].loss_weight = 5 + i as u128;
        e.accounts[i].b_snap = 7;
        e.accounts[i].b_rem = 11;
        e.accounts[i].b_epoch_snap = 13;
    }
    e.b_long_num = 17;
    e.loss_weight_sum_long = 19;
    assert_eq!(e.init_in_place(params(), 2_000, 77), Ok(()));
    for i in 0..MAX_ACCOUNTS {
        let a = e.accounts[i];
        assert_eq!((a.loss_weight, a.b_snap, a.b_rem, a.b_epoch_snap), (0, 0, 0, 0));
        assert_eq!((a.capital.get(), a.pnl, a.position_basis_q), (0, 0, 0));
        assert_eq!(a.adl_a_basis, ADL_ONE);
        assert!(!e.is_used(i));
    }
    assert!(e == RiskEngine::new_with_market(params(), 2_000, 77));
    assert_eq!((e.last_oracle_price, e.fund_px_last), (77, 77));
    assert_eq!((e.current_slot, e.last_market_slot), (2_000, 2_000));
}

#[test]
fn slot_keeps_its_share_of_losses_when_it_is_freed_and_taken() {
    let mut e = RiskEngine::new_with_market(params(), START, PRICE);
    assert_eq!(e.deposit_not_atomic(3, 500, START), Ok(()));
    e.accounts[3].kind = 1;
    e.accounts[3].owner = [9; 32];
    e.accounts[3].loss_weight = 5;
    e.accounts[3].b_snap = 7;
    e.accounts[3].b_rem = 11;
    e.accounts[3].b_epoch_snap = 13;
    let r = e.close_account_not_atomic(3, START, PRICE, 0, 0, 100, None);
    assert_eq!(r, Ok(500));
    assert!(!e.is_used(3));
    let mut kept = RiskEngine::new_with_market(params(), START, PRICE).accounts[3];
    kept.loss_weight = 5;
    kept.b_snap = 7;
    kept.b_rem = 11;
    kept.b_epoch_snap = 13;
    assert_eq!(e.accounts[3], kept);
    assert_eq!(e.materialize_at(3, START + 2), Ok(()));
    kept.last_fee_slot = START + 2;
    assert_eq!(e.accounts[3], kept);
}

#[test]
fn touched_account_is_settled_if_its_share_is_of_the_present_epoch() {
    let mut e = traded();
    assert_eq!(e.accrue_market_to(START + 10, PRICE + 100, 0), Ok(()));
    assert_eq!(e.account_has_unsettled_live_effects(0), Ok(true));
    let touch = |e: &mut RiskEngine| {
        e.settle_account_not_atomic(0, PRICE + 100, START + 10, 0, 0, 100, None)
    };
    assert_eq!(touch(&mut e), Ok(()));
    assert_eq!(e.account_has_unsettled_live_effects(0), Ok(false));
    e.b_long_num = 4;
    assert_eq!(e.account_has_unsettled_live_effects(0), Ok(true));
    e.b_long_num = 0;
    e.adl_epoch_long = 1;
    e.accounts[0].adl_epoch_snap = 1;
    assert_eq!(touch(&mut e), Ok(()));
    assert_eq!(e.account_has_unsettled_live_effects(0), Err(RiskError::CorruptState));
    e.accounts[0].b_epoch_snap = 1;
    assert_eq!(e.account_has_unsettled_live_effects(0), Ok(false));
}

#[test]
fn account_step_settles_what_the_account_owes() {
    let mut e = owing(400);
    let before = e.permissionless_account_progress_rank(0);
    assert_eq!(before.map(|r| r.account_b_remaining_num), Ok(400));
    let r = e.permissionless_progress_not_atomic(request(START, Some(0)));
    assert_eq!(r, Ok(PermissionlessProgressOutcome::AccountBProgress(0)));
    assert_eq!(e.accounts[0].b_snap, 400);
    assert_eq!(e.accounts[0].capital.get(), 999_600);
    assert_eq!(e.accounts[0].pnl, 0);
    assert_eq!(e.accounts[1].capital.get(), 1_000_000);
    let after = e.permissionless_account_progress_rank(0);
    assert_eq!(after.map(|r| r.account_b_remaining_num), Ok(0));
    // Nothing is left to settle, so the same request cranks.
    let again = e.permissionless_progress_not_atomic(request(START, Some(0)));
    assert!(matches!(again, Ok(PermissionlessProgressOutcome::Cranked(_))));
    assert_eq!(e.accounts[0].capital.get(), 999_600);
}

#[test]
fn account_step_carries_the_rest_of_a_division() {
    let mut e = owing(400);
    e.accounts[0].loss_weight = SOCIAL_LOSS_DEN / 3;
    e.loss_weight_sum_long = SOCIAL_LOSS_DEN / 3;
    assert_eq!(
        e.try_permissionless_account_b_progress(0, START, 0, 100, None),
        Ok(true)
    );
    // A third of 400, rounded down, and the rest is kept.
    assert_eq!(e.accounts[0].capital.get(), 1_000_000 - 133);
    assert_eq!(e.accounts[0].b_snap, 400);
    let owed = (SOCIAL_LOSS_DEN / 3) * 400;
    assert_eq!(e.accounts[0].b_rem, owed - 133 * SOCIAL_LOSS_DEN);
}

#[test]
fn close_in_flight_is_continued() {
    let mut e = traded();
    e.loss_weight_sum_long = SOCIAL_LOSS_DEN;
    e.accounts[0].loss_weight = SOCIAL_LOSS_DEN;
    with_close(&mut e, 500, 0);
    let before = e.permissionless_progress_rank_for_now(START).unwrap();
    assert_eq!(before.active_close_residual_atoms, 500);
    let r = e.permissionless_progress_not_atomic(request(START, None));
    assert_eq!(r, Ok(PermissionlessProgressOutcome::ActiveCloseContinued));
    assert_eq!(e.b_long_num, 500);
    assert_eq!(e.active_close_residual_remaining, 0);
    let after = e.permissionless_progress_rank_for_now(START).unwrap();
    assert!(after.strictly_reduces_from(&before));
}

#[test]
fn stuck_close_ends_in_a_resolved_market() {
    let mut e = traded();
    with_close(&mut e, 500, ACTIVE_CLOSE_MAX_RESIDUAL_B_CHUNKS);
    let before = e.permissionless_progress_rank_for_now(START).unwrap();
    let r = e.permissionless_progress_not_atomic(request(START, None));
    assert_eq!(
        r,
        Ok(PermissionlessProgressOutcome::Recovered(
            RecoveryReason::ActiveBankruptCloseCannotProgress
        ))
    );
    assert_eq!(e.market_mode, MarketMode::Resolved);
    assert_eq!(e.active_close_present, 0);
    assert_eq!(e.explicit_unallocated_loss_long.get(), 500);
    assert_eq!(e.resolved_price, PRICE);
    let after = e.permissionless_progress_rank_for_now(START).unwrap();
    assert!(after.strictly_reduces_from(&before));
}

#[test]
fn crank_in_the_same_slot_works_off_the_envelope() {
    let mut e = traded();
    open_envelope(&mut e);
    let before = e.permissionless_progress_rank_for_now(START).unwrap();
    assert_eq!(before.stress_envelope_indices, 64);
    let r = e.permissionless_progress_not_atomic(request(START, None));
    assert!(matches!(r, Ok(PermissionlessProgressOutcome::Cranked(_))));
    // Two of the four slots that the crank goes through are in use.
    let after = e.permissionless_progress_rank_for_now(START).unwrap();
    assert_eq!(after.stress_envelope_indices, 62);
    assert!(after.strictly_reduces_from(&before));
    assert_eq!(e.stress_envelope_start_slot, START);
}

#[test]
fn scan_of_a_resolved_market_closes_one_account_after_the_other() {
    let mut e = traded();
    let r = e.resolve_market_not_atomic(ResolveMode::Degenerate, PRICE, PRICE, START + 7, 0);
    assert_eq!(r, Ok(()));
    let mut before = e.permissionless_progress_rank_for_now(START + 7).unwrap();
    assert!(before.resolved_blocker_units > 0);
    let mut closed = 0;
    while e.count_used() > 0 {
        let r = e.permissionless_progress_not_atomic(request(START + 7, None));
        match r {
            Ok(PermissionlessProgressOutcome::ResolvedClose(ResolvedCloseResult::Closed(v))) => {
                assert_eq!(v, 1_000_000);
                closed += 1;
            }
            Ok(PermissionlessProgressOutcome::ResolvedClose(ResolvedCloseResult::ProgressOnly)) => {}
            other => panic!("{:?}", other),
        }
        let after = e.permissionless_progress_rank_for_now(START + 7).unwrap();
        assert!(after.strictly_reduces_from(&before));
        before = after;
    }
    assert_eq!(closed, 2);
    assert_eq!(before.resolved_blocker_units, 0);
}

#[test]
fn degenerate_resolution_keeps_the_last_price() {
    let mut e = traded();
    // No accrual bound holds back a market that nobody has cranked for long.
    let late = START + 10_000;
    let price = e.last_oracle_price;
    assert_eq!(
        e.resolve_market_not_atomic(ResolveMode::Ordinary, price, price - 1, late, 0),
        Err(RiskError::Overflow)
    );
    assert_eq!(
        e.resolve_market_not_atomic(ResolveMode::Degenerate, price, price, late, 0),
        Ok(())
    );
    assert_eq!((e.resolved_price, e.resolved_slot), (PRICE, late));
}

#[test]
fn close_with_a_rate_of_zero_is_the_close_without_fees() {
    let mut e = traded();
    assert_eq!(
        e.resolve_market_not_atomic(ResolveMode::Degenerate, PRICE, PRICE, START + 9, 0),
        Ok(())
    );
    let mut free = e.clone();
    let mut rated = e.clone();
    let a = free.force_close_resolved_not_atomic(0);
    let b = rated.force_close_resolved_with_fee_not_atomic(0, 0);
    assert_eq!(a, b);
    assert_eq!(a, Ok(ResolvedCloseResult::Closed(1_000_000)));
    assert!(free == rated);
    // An account that stays open has paid its fees up to the settlement.
    let mut free = e.clone();
    let mut rated = e;
    free.accounts[0].pnl = 50;
    free.pnl_pos_tot = 50;
    free.pnl_matured_pos_tot = 50;
    rated.accounts[0].pnl = 50;
    rated.pnl_pos_tot = 50;
    rated.pnl_matured_pos_tot = 50;
    let a = free.force_close_resolved_not_atomic(0);
    let b = rated.force_close_resolved_with_fee_not_atomic(0, 0);
    assert_eq!(a, b);
    assert_eq!(a, Ok(ResolvedCloseResult::ProgressOnly));
    assert_eq!(rated.accounts[0].last_fee_slot, START + 9);
    free.accounts[0].last_fee_slot = START + 9;
    assert!(free == rated);
}

#[test]
fn planned_segment_is_what_accrues() {
    let mut e = traded();
    let (slot, price, rate) = (START + 20, PRICE + 3_000, 900);
    let p = e.plan_accrual_segment(slot, price, rate).unwrap();
    assert_eq!(e.accrue_market_to(slot, price, rate), Ok(()));
    assert_eq!((e.adl_coeff_long, e.adl_coeff_short), (p.k_long, p.k_short));
    assert_eq!((e.f_long_num, e.f_short_num), (p.f_long, p.f_short));
    assert_eq!(e.adl_coeff_long, 3_000 * ADL_ONE as i128);
    assert_eq!(e.adl_coeff_short, -3_000 * ADL_ONE as i128);
    assert!(e.f_long_num < 0 && e.f_short_num > 0);
}

#[test]
fn envelope_total_follows_the_budget_that_it_is_given() {
    let p = params();
    // A third of the notional, rounded up, and one percent of it.
    assert_eq!(
        RiskEngine::solvency_envelope_total_for_notional(&p, 10_000, 1, 3, 0),
        Some(3_334 + 100)
    );
    // The fee is on the notional at the end of the window.
    assert_eq!(
        RiskEngine::solvency_envelope_total_for_notional(&p, 10_000, 0, 1, 5_000),
        Some(150)
    );
    assert_eq!(RiskEngine::solvency_envelope_total_for_notional(&p, 10_000, 1, 0, 0), None);
    assert_eq!(
        RiskEngine::solvency_envelope_total_for_notional(&p, 2, u128::MAX, 1, 0),
        None
    );
    // Maintenance is five percent: a loss of four and a fee of one are covered.
    assert!(RiskEngine::solvency_envelope_holds_for_notional(&p, 10_000, 4, 100, 0));
    assert!(!RiskEngine::solvency_envelope_holds_for_notional(&p, 10_000, 401, 10_000, 0));
    assert_eq!(
        RiskEngine::solvency_envelope_interval_certifies(&p, 10_000, 10_001, 3, 100, 0),
        Some(true)
    );
    assert_eq!(
        RiskEngine::validate_solvency_envelope_range(&p, 10_000, 20_000, 3, 100, 0),
        Ok(())
    );
    assert_eq!(
        RiskEngine::validate_solvency_envelope_range(&p, 10_000, 20_000, 5, 100, 0),
        Err(RiskError::Overflow)
    );
}

#[test]
fn margin_takes_every_buffer() {
    let e = traded();
    let least = I256 { hi: i128::MIN, lo: 0 };
    let most = I256 { hi: i128::MAX, lo: u128::MAX };
    let check = |old: i128, new: i128, buffer: I256| {
        e.enforce_one_side_margin(0, PRICE, &old, &new, buffer, 0, 0)
    };
    // No position left: the shortfall is no worse than any shortfall that fits.
    assert_eq!(check(0, 0, I256::from_i128(-1)), Ok(()));
    assert_eq!(check(0, 0, I256 { hi: i128::MIN, lo: 1 }), Ok(()));
    assert_eq!(check(0, 0, least), Err(RiskError::Undercollateralized));
    // The buffer does not matter to an account that takes more risk.
    assert_eq!(check(0, UNIT, most), Ok(()));
    assert_eq!(check(0, UNIT, least), Ok(()));
    assert_eq!(check(2 * UNIT, UNIT, most), Ok(()));
}

#[test]
fn equity_without_profit_is_the_full_one_where_nothing_backs_it() {
    let mut e = traded();
    e.accounts[0].pnl = 700;
    e.accounts[0].fee_credits = I128::new(-30);
    e.pnl_pos_tot = 700;
    let a = e.accounts[0];
    assert_eq!(e.account_equity_trade_open_no_pos_raw(&a, 0), 999_970);
    assert_eq!(e.account_equity_trade_open_raw(&a, 0, 0), 999_970);
    // Once the vault holds more than capital and insurance, profit counts.
    e.vault = U128::new(e.vault.get() + 350);
    assert_eq!(e.account_equity_trade_open_no_pos_raw(&a, 0), 999_970);
    assert_eq!(e.account_equity_trade_open_raw(&a, 0, 0), 999_970 + 350);
    // The gain of the trade itself does not.
    assert_eq!(e.account_equity_trade_open_raw(&a, 0, 700), 999_970);
}

#[test]
fn conversion_leaves_a_healthy_account() {
    let mut e = RiskEngine::new_with_market(params(), START, PRICE);
    assert_eq!(e.deposit_not_atomic(0, 100, START), Ok(()));
    e.accounts[0].pnl = 1_000;
    e.pnl_pos_tot = 1_000;
    e.pnl_matured_pos_tot = 1_000;
    e.vault = U128::new(600);
    // Half of the profit is backed: two units of profit make one of capital.
    let mut some = e.clone();
    assert_eq!(some.convert_released_pnl_core(0, 400, PRICE), Ok(()));
    assert_eq!(some.accounts[0].capital.get(), 300);
    assert_eq!(some.accounts[0].pnl, 600);
    // A debt beyond capital and profit leaves nothing that may be converted.
    e.accounts[0].fee_credits = I128::new(-1_100);
    assert_eq!(
        e.convert_released_pnl_core(0, 400, PRICE),
        Err(RiskError::Undercollateralized)
    );
}
