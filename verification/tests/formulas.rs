use percolator::constants::{ADL_ONE, MAX_ORACLE_PRICE, SOCIAL_LOSS_DEN};
use percolator::wide_math::{
    ceil_div_positive_checked, div_rem_u256, mul_div_ceil_u128, mul_div_floor_u128, widening_mul,
    I256, U256,
};
use percolator::{
    checked_u128_mul_i128, compute_trade_pnl, Account, InstructionContext, KeeperCrankRequest,
    PermissionlessProgressRank, PermissionlessProgressRequest, ResolvedCloseResult, RiskEngine,
    RiskError, RiskParams, Side, U128,
};

const UNIT: i128 = 1_000_000;
const PRICE: u64 = 1_000_000;
const START: u64 = 100;

fn params() -> RiskParams {
    RiskParams {
        maintenance_margin_bps: 500,
        initial_margin_bps: 1_000,
        max_trading_fee_bps: 100,
        max_accounts: 64,
        liquidation_fee_bps: 100,
        liquidation_fee_cap: U128::new(1_000_000_000),
        min_liquidation_abs: U128::new(0),
        min_nonzero_mm_req: 10,
        min_nonzero_im_req: 20,
        h_min: 0,
        h_max: 100,
        resolve_price_deviation_bps: 1_000,
        max_accrual_dt_slots: 50,
        max_abs_funding_e9_per_slot: 1_000,
        min_funding_lifetime_slots: 1_000_000,
        max_active_positions_per_side: 64,
        max_price_move_bps_per_slot: 4,
    }
}

fn market() -> RiskEngine {
    RiskEngine::new_with_market(params(), START, PRICE)
}

#[test]
fn trade_profit_is_rounded_down() {
    assert_eq!(compute_trade_pnl(UNIT, 5), Ok(5));
    assert_eq!(compute_trade_pnl(1_500_000, 3), Ok(4));
    assert_eq!(compute_trade_pnl(-1_500_000, 3), Ok(-5));
    assert_eq!(compute_trade_pnl(1_500_000, -3), Ok(-5));
    assert_eq!(compute_trade_pnl(-1_500_000, -3), Ok(4));
    assert_eq!(compute_trade_pnl(1, -1), Ok(-1));
    assert_eq!(compute_trade_pnl(0, i128::MIN), Ok(0));
    assert_eq!(compute_trade_pnl(i128::MAX, i128::MAX), Err(RiskError::Overflow));
    assert_eq!(compute_trade_pnl(i128::MAX, UNIT), Ok(i128::MAX));
    assert_eq!(compute_trade_pnl(i128::MAX, UNIT + 1), Err(RiskError::Overflow));
}

#[test]
fn signed_product_is_refused_when_it_does_not_fit() {
    assert_eq!(checked_u128_mul_i128(3, -4), Ok(-12));
    assert_eq!(checked_u128_mul_i128(0, i128::MIN), Ok(0));
    assert_eq!(checked_u128_mul_i128(1, i128::MIN), Err(RiskError::Overflow));
    assert_eq!(checked_u128_mul_i128(1, i128::MIN + 1), Ok(i128::MIN + 1));
    assert_eq!(checked_u128_mul_i128(u128::MAX, 2), Err(RiskError::Overflow));
    assert_eq!(checked_u128_mul_i128(i128::MAX as u128, 1), Ok(i128::MAX));
    assert_eq!(checked_u128_mul_i128(i128::MAX as u128 + 1, 1), Err(RiskError::Overflow));
}

#[test]
fn liquidation_fee_is_floored_and_capped() {
    let mut e = market();
    assert_eq!(e.liquidation_fee(500_000, 922_369), 4_612);
    assert_eq!(e.liquidation_fee(0, 922_369), 0);
    e.params.min_liquidation_abs = U128::new(5_000);
    assert_eq!(e.liquidation_fee(500_000, 922_369), 5_000);
    e.params.liquidation_fee_cap = U128::new(4_000);
    assert_eq!(e.liquidation_fee(500_000, 922_369), 4_000);
}

#[test]
fn risk_notional_is_rounded_up() {
    assert_eq!(RiskEngine::risk_notional_from_eff_q(UNIT, 7), 7);
    assert_eq!(RiskEngine::risk_notional_from_eff_q(-1, 7), 1);
    assert_eq!(RiskEngine::risk_notional_from_eff_q(-1_500_000, 3), 5);
    assert_eq!(RiskEngine::risk_notional_from_eff_q(0, 7), 0);
    assert_eq!(RiskEngine::risk_notional_checked(i128::MIN, u64::MAX), None);
}

#[test]
fn loss_weight_is_rounded_up() {
    assert_eq!(RiskEngine::loss_weight_for_basis(1_000_000, ADL_ONE), Ok(1_000_000));
    assert_eq!(RiskEngine::loss_weight_for_basis(1, 300_000_000_000_000), Ok(4));
    assert_eq!(RiskEngine::loss_weight_for_basis(0, ADL_ONE), Err(RiskError::CorruptState));
    assert_eq!(RiskEngine::loss_weight_for_basis(1, 0), Err(RiskError::CorruptState));
    assert_eq!(RiskEngine::loss_weight_for_basis(u128::MAX, 1), Err(RiskError::Overflow));
}

#[test]
fn loss_against_the_index_carries_its_remainder() {
    let third = SOCIAL_LOSS_DEN / 3;
    assert_eq!(RiskEngine::compute_b_loss_and_rem(1, 0, SOCIAL_LOSS_DEN), Ok((1, 0)));
    assert_eq!(RiskEngine::compute_b_loss_and_rem(2, 5, third), Ok((0, 2 * third + 5)));
    assert_eq!(RiskEngine::compute_b_loss_and_rem(3, 1, third), Ok((1, 0)));
    assert_eq!(RiskEngine::compute_b_loss_and_rem(0, 0, 1), Err(RiskError::CorruptState));
    assert_eq!(
        RiskEngine::compute_b_loss_and_rem(1, SOCIAL_LOSS_DEN, 1),
        Err(RiskError::CorruptState)
    );
}

#[test]
fn account_settles_against_the_index_in_chunks() {
    let mut e = market();
    assert_eq!(e.deposit_not_atomic(0, 1_000_000, START), Ok(()));
    assert_eq!(e.deposit_not_atomic(1, 1_000_000, START), Ok(()));
    assert_eq!(
        e.execute_trade_not_atomic(0, 1, PRICE, START, UNIT, PRICE, 0, 0, 0, 100, None),
        Ok(())
    );
    e.accounts[0].loss_weight = 1_000_000;
    e.accounts[0].b_snap = 0;
    // Ten atoms for the whole weight.
    let target = 10 * SOCIAL_LOSS_DEN / 1_000_000;
    e.b_long_num = target;
    assert_eq!(e.account_has_unsettled_b(0), Ok(true));
    assert_eq!(e.permissionless_account_progress_rank(0).unwrap().account_b_remaining_num, target);
    let whole = e.clone().settle_account_b_chunk_to_target(0, Side::Long, target, 100);
    assert_eq!(whole, Ok((10, true)));
    // In chunks of at most four atoms the same ten are lost.
    let mut lost = 0;
    let mut steps = 0;
    loop {
        let (loss, done) =
            e.settle_account_b_chunk_to_target(0, Side::Long, target, 4).unwrap();
        assert!(loss <= 4);
        lost += loss;
        steps += 1;
        if done {
            break;
        }
    }
    assert_eq!(lost, 10);
    assert!(steps >= 3);
    assert_eq!(e.accounts[0].b_snap, target);
    assert_eq!(e.accounts[0].b_rem, 0);
    assert_eq!(e.account_has_unsettled_b(0), Ok(false));
}

#[test]
fn residual_is_booked_whole() {
    let mut e = market();
    e.loss_weight_sum_short = 3_000_000;
    let mut ctx = InstructionContext::new();
    assert_eq!(
        e.book_bankruptcy_residual_chunk_to_side(&mut ctx, Side::Short, 10, 1_000),
        Ok(10)
    );
    let scaled = 10 * SOCIAL_LOSS_DEN;
    assert_eq!(e.b_short_num, scaled / 3_000_000);
    assert_eq!(e.social_loss_remainder_short_num, scaled % 3_000_000);
    assert_eq!(
        e.b_short_num * 3_000_000 + e.social_loss_remainder_short_num,
        10 * SOCIAL_LOSS_DEN
    );
    // No weight: the loss is recorded as unallocated.
    e.loss_weight_sum_long = 0;
    assert_eq!(
        e.book_bankruptcy_residual_chunk_to_side(&mut ctx, Side::Long, 7, 1_000),
        Ok(7)
    );
    assert_eq!(e.explicit_unallocated_loss_long.get(), 7);
    assert_eq!(e.b_long_num, 0);
}

#[test]
fn wide_arithmetic() {
    let big = widening_mul(u128::MAX, u128::MAX);
    assert_eq!(big.try_into_u128(), None);
    let (q, r) = div_rem_u256(big, U256::from_u128(u128::MAX));
    assert_eq!(q.try_into_u128(), Some(u128::MAX));
    assert!(r.is_zero());
    let (q, r) = div_rem_u256(U256::from_u128(17), U256::from_u128(5));
    assert_eq!((q.try_into_u128(), r.try_into_u128()), (Some(3), Some(2)));
    assert_eq!(big.checked_mul(U256::from_u128(2)), None);
    assert_eq!(big.checked_add(big), None);
    assert_eq!(U256::zero().checked_sub(U256::one()), None);
    assert_eq!(mul_div_floor_u128(7, 10, 4), 17);
    assert_eq!(mul_div_ceil_u128(7, 10, 4), 18);
    assert_eq!(mul_div_floor_u128(u128::MAX, 6, 7), u128::MAX / 7 * 6 + u128::MAX % 7 * 6 / 7);
    let c = ceil_div_positive_checked(U256::from_u128(10), U256::from_u128(4));
    assert_eq!(c.try_into_u128(), Some(3));
    let a = I256::from_i128(-5);
    assert!(a.is_negative());
    assert_eq!(a.checked_add(I256::from_u128(7)).unwrap().try_into_i128(), Some(2));
    assert_eq!(a.checked_sub(I256::from_u128(7)).unwrap().try_into_i128(), Some(-12));
    assert_eq!(I256::from_i128(i128::MIN).try_into_i128(), Some(i128::MIN));
    assert_eq!(I256::from_u128(u128::MAX).try_into_i128(), None);
    assert_eq!(a.abs_u256().try_into_u128(), Some(5));
}

#[test]
fn sweep_scans_from_its_cursor() {
    let mut e = market();
    for i in [1u16, 2, 5] {
        assert_eq!(e.deposit_not_atomic(i, 1_000, START), Ok(()));
    }
    // The scan stops right after the second account in use.
    let o = e.phase2_scan_outcome(64, 2, 64, false, true, false).unwrap();
    assert_eq!((o.inspected, o.touched, o.next_cursor, o.wrapped), (3, 2, 3, false));
    assert_eq!(o.stress_counted_inspected, 0);
    // Or at its own limit.
    let o = e.phase2_scan_outcome(64, 2, 2, true, true, false).unwrap();
    assert_eq!((o.inspected, o.touched, o.next_cursor), (2, 1, 2));
    assert_eq!(o.stress_counted_inspected, 2);
    // At the bound it goes back to the first slot.
    let o = e.phase2_scan_outcome(64, 64, 64, false, true, false).unwrap();
    assert_eq!((o.inspected, o.touched, o.next_cursor, o.wrapped), (64, 3, 0, true));
    // Where it may not, it stops before the last slot.
    let o = e.phase2_scan_outcome(64, 64, 64, true, false, false).unwrap();
    assert_eq!((o.inspected, o.next_cursor, o.wrapped), (63, 63, false));
    assert_eq!(o.stress_counted_inspected, 0);
    e.rr_cursor_position = 64;
    assert_eq!(
        e.phase2_scan_outcome(64, 64, 64, false, true, false).err(),
        Some(RiskError::CorruptState)
    );
}

#[test]
fn progress_rank_is_a_strict_order() {
    let low = PermissionlessProgressRank {
        live_catchup_slots: 1,
        stress_envelope_indices: 9,
        active_close_residual_atoms: 3,
        resolved_blocker_units: 4,
    };
    let mid = PermissionlessProgressRank { active_close_residual_atoms: 4, ..low };
    let high = PermissionlessProgressRank { live_catchup_slots: 2, ..low };
    assert!(low.strictly_reduces_from(&mid));
    assert!(mid.strictly_reduces_from(&high));
    assert!(low.strictly_reduces_from(&high));
    assert!(!low.strictly_reduces_from(&low));
    assert!(!high.strictly_reduces_from(&low));
    let envelope = PermissionlessProgressRank { stress_envelope_indices: 8, ..low };
    assert!(envelope.strictly_reduces_from(&low));
}

#[test]
fn parameter_refusals() {
    let bad = |f: fn(&mut RiskParams)| {
        let mut p = params();
        f(&mut p);
        RiskEngine::try_validate_params(&p)
    };
    assert_eq!(bad(|_| {}), Ok(()));
    assert_eq!(bad(|p| p.max_accounts = 0), Err(RiskError::Overflow));
    assert_eq!(bad(|p| p.max_accounts = 65), Err(RiskError::Overflow));
    assert_eq!(bad(|p| p.maintenance_margin_bps = 1_001), Err(RiskError::Overflow));
    assert_eq!(bad(|p| p.initial_margin_bps = 10_001), Err(RiskError::Overflow));
    assert_eq!(bad(|p| p.max_trading_fee_bps = 10_001), Err(RiskError::Overflow));
    assert_eq!(bad(|p| p.min_nonzero_mm_req = 0), Err(RiskError::Overflow));
    assert_eq!(bad(|p| p.min_nonzero_im_req = 10), Err(RiskError::Overflow));
    assert_eq!(bad(|p| p.h_min = 101), Err(RiskError::Overflow));
    assert_eq!(bad(|p| p.h_max = 0), Err(RiskError::Overflow));
    assert_eq!(bad(|p| p.max_accrual_dt_slots = 0), Err(RiskError::Overflow));
    assert_eq!(bad(|p| p.min_liquidation_abs = U128::new(u128::MAX)), Err(RiskError::Overflow));
    // The largest move of a window, with funding and fee, must fit the maintenance margin.
    assert_eq!(bad(|p| p.max_price_move_bps_per_slot = 8), Err(RiskError::Overflow));
    let mut steep = params();
    steep.max_price_move_bps_per_slot = 8;
    assert!(!RiskEngine::exact_solvency_envelope_ok(&steep));
}

#[test]
fn margin_is_a_share_of_the_notional() {
    let mut e = market();
    assert_eq!(e.deposit_not_atomic(0, 1_000_000, START), Ok(()));
    assert_eq!(e.deposit_not_atomic(1, 1_000_000, START), Ok(()));
    assert_eq!(
        e.execute_trade_not_atomic(0, 1, PRICE, START, UNIT, PRICE, 0, 0, 0, 100, None),
        Ok(())
    );
    let with = |capital: u128| {
        let mut f = e.clone();
        f.accounts[0].capital = U128::new(capital);
        f
    };
    // Five percent of one unit: the account must hold more.
    let f = with(50_000);
    assert!(!f.is_above_maintenance_margin(&f.accounts[0], 0, PRICE));
    let f = with(50_001);
    assert!(f.is_above_maintenance_margin(&f.accounts[0], 0, PRICE));
    // Ten percent: the account must hold as much.
    let f = with(99_999);
    assert!(!f.is_above_initial_margin(&f.accounts[0], 0, PRICE));
    let f = with(100_000);
    assert!(f.is_above_initial_margin(&f.accounts[0], 0, PRICE));
    assert_eq!(f.account_equity_init_net(&f.accounts[0], 0), 100_000);
    assert_eq!(f.try_notional(0, MAX_ORACLE_PRICE + 1), Err(RiskError::Overflow));
}

#[test]
fn used_accounts_are_visited_in_order() {
    let mut e = market();
    for i in [7u16, 3, 40] {
        assert_eq!(e.deposit_not_atomic(i, 10 + i as u128, START), Ok(()));
    }
    let mut seen: Vec<(usize, u128)> = Vec::new();
    e.for_each_used(|i: usize, a: &Account| seen.push((i, a.capital.get())));
    assert_eq!(seen, vec![(3, 13), (7, 17), (40, 50)]);
    assert_eq!(e.count_used(), 3);
    assert!(e.accounts[3].is_user());
    assert!(!e.accounts[3].is_lp());
}

#[test]
fn close_result_tells_payout_from_progress() {
    assert_eq!(ResolvedCloseResult::Closed(5).expect_closed("closed"), 5);
    assert!(!ResolvedCloseResult::Closed(0).is_progress_only());
    assert!(ResolvedCloseResult::ProgressOnly.is_progress_only());
}

#[test]
fn progress_request_keeps_the_crank() {
    let req = KeeperCrankRequest::full_scan(7, PRICE, &[], 3, -2, 1, 100, Some(9), 8);
    assert_eq!(req.rr_touch_limit, 8);
    assert_eq!(req.funding_rate_e9, -2);
    let p = PermissionlessProgressRequest::from_keeper_request(req, 55, Some(4), 6, 2);
    assert_eq!((p.now_slot, p.oracle_price), (7, PRICE));
    assert_eq!(p.authenticated_raw_target_price, 55);
    assert_eq!(p.account_hint, Some(4));
    assert_eq!((p.admit_h_min, p.admit_h_max), (1, 100));
    assert_eq!(p.admit_h_max_consumption_threshold_bps_opt, Some(9));
    assert_eq!(p.rr_scan_limit, req.rr_scan_limit);
    assert_eq!((p.resolved_scan_limit, p.resolved_fee_rate_per_slot), (6, 2));
}

#[test]
fn slot_advances_without_wrapping() {
    let mut e = market();
    e.advance_slot(5);
    assert_eq!(e.current_slot, START + 5);
    e.advance_slot(u64::MAX);
    assert_eq!(e.current_slot, u64::MAX);
}
