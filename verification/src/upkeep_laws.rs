//! What must be settled first, when sides reset, and how a market that is used up ends.

use vstd::prelude::*;

use crate::context::InstructionContext;
use crate::instruction_laws::law_resolution_by_instruction;
use crate::measures::{greater, lesser, size_of};
use crate::side_laws::across;
use crate::types::{
    MarketMode, ReserveMode, ResolveMode, RiskEngine, RiskError, Side, SideMode,
};

verus! {

impl RiskEngine {
    /// Whether account `i` has nothing left to settle.
    pub open spec fn is_settled_at(self, i: int) -> bool {
        self.unsettled_live_spec(self.accounts@[i]) == Ok::<bool, RiskError>(false)
    }
}

/// A trade needs both accounts settled once they have been brought up to date, the one with
/// the lower index first.
pub proof fn law_trade_needs_settled_accounts(
    e: RiskEngine,
    a: int,
    b: int,
    ctx: InstructionContext,
    now_slot: u64,
    price: u64,
    rate: i128,
)
    requires
        e.trade_prepared(a, b, ctx, now_slot, price, rate).2 is Ok,
    ensures
        ({
            let (t, c, _) = e.accrue_and_touch_spec(lesser(a, b), ctx, now_slot, price, rate);
            let u = t.touch_spec(greater(a, b), c).0;
            u.is_settled_at(a) && u.is_settled_at(b)
        }),
{
    reveal(RiskEngine::trade_prepared);
}

/// A conversion needs the account settled once it has been brought up to date.
pub proof fn law_conversion_needs_a_settled_account(
    e: RiskEngine,
    idx: u16,
    x: u128,
    price: u64,
    now_slot: u64,
    rate: i128,
    h_min: u64,
    h_max: u64,
    threshold_opt: Option<u128>,
)
    requires
        e.convert_released_spec(
            idx,
            x,
            price,
            now_slot,
            rate,
            h_min,
            h_max,
            threshold_opt,
        ).1 is Ok,
    ensures
        ({
            let ctx = RiskEngine::admission(h_min, h_max, threshold_opt);
            e.accrue_and_touch_spec(idx as int, ctx, now_slot, price, rate).0.is_settled_at(
                idx as int,
            )
        }),
{
    reveal(RiskEngine::convert_released_spec);
}

/// Closing an account needs it settled once it has been brought up to date.
pub proof fn law_account_close_needs_a_settled_account(
    e: RiskEngine,
    idx: u16,
    now_slot: u64,
    price: u64,
    rate: i128,
    h_min: u64,
    h_max: u64,
    threshold_opt: Option<u128>,
)
    requires
        e.close_account_spec(idx, now_slot, price, rate, h_min, h_max, threshold_opt).1 is Ok,
    ensures
        ({
            let ctx = RiskEngine::admission(h_min, h_max, threshold_opt);
            e.accrue_and_touch_spec(idx as int, ctx, now_slot, price, rate).0.is_settled_at(
                idx as int,
            )
        }),
{
    reveal(RiskEngine::close_account_spec);
}

/// A recurring fee is drawn on a live market only from an account that is settled and has no
/// loss.
pub proof fn law_fee_is_drawn_from_a_settled_account(
    e: RiskEngine,
    idx: u16,
    now_slot: u64,
    rate: u128,
)
    requires
        e.sync_fee_instruction_spec(idx, now_slot, rate).1 is Ok,
        e.market_mode == MarketMode::Live,
        rate > 0,
        e.sync_fee_instruction_spec(idx, now_slot, rate).0.accounts@[idx as int].last_fee_slot
            > e.accounts@[idx as int].last_fee_slot,
    ensures
        e.is_settled_at(idx as int),
        e.accounts@[idx as int].pnl >= 0,
{
    crate::treasury_laws::law_fee_sync_by_instruction(e, idx, now_slot, rate);
    reveal(RiskEngine::sync_fee_instruction_spec);
}

/// Where a mode forbids it profit does not grow, and on a live market profit is never
/// released at once by decree.
pub proof fn law_profit_grows_only_where_it_may(
    e: RiskEngine,
    i: int,
    new_pnl: i128,
    mode: ReserveMode,
    ctx: Option<InstructionContext>,
)
    requires
        e.set_pnl_with_reserve_spec(i, new_pnl, mode, ctx).2 is Ok,
        greater(new_pnl as int, 0) > e.accounts@[i].profit(),
    ensures
        match mode {
            ReserveMode::NoPositiveIncreaseAllowed => false,
            ReserveMode::ImmediateReleaseResolvedOnly => e.market_mode == MarketMode::Resolved,
            ReserveMode::UseAdmissionPair(_, _) => e.market_mode == MarketMode::Live,
        },
        i128::MIN < new_pnl,
        e.market_mode == MarketMode::Live ==> new_pnl
            <= 100_000_000_000_000_000_000_000_000_000_000,
{
    reveal(RiskEngine::set_pnl_with_reserve_spec);
}

/// The lock of a bankruptcy is refused only where the instruction has already used profit
/// that nothing held back; otherwise the lock is set, and the whole market is to be swept
/// anew from the present slot and round on.
pub proof fn law_bankruptcy_locks_the_market(e: RiskEngine, ctx: InstructionContext)
    ensures
        ({
            let (s, c, r) = e.trigger_bankruptcy_hmax_lock_spec(ctx);
            let over = match ctx.admit_h_max_consumption_threshold_bps_opt_shared {
                Some(t) => t <= e.stress_consumed_bps_e9_since_envelope,
                None => false,
            };
            let behind = e.market_mode == MarketMode::Live && e.last_market_slot < e.current_slot
                && (e.oi_eff_long_q != 0 || e.oi_eff_short_q != 0);
            let held_back = over || e.bankruptcy_hmax_lock_active
                || ctx.bankruptcy_hmax_candidate_active || behind;
            &&& r is Err <==> ctx.positive_pnl_usability_mutated && !held_back
            &&& r is Ok ==> {
                &&& s.bankruptcy_hmax_lock_active
                &&& s.stress_envelope_remaining_indices == e.params.max_accounts
                &&& s.stress_envelope_start_slot == e.current_slot
                &&& s.stress_envelope_start_generation == e.sweep_generation
                &&& c.bankruptcy_hmax_candidate_active
                &&& s.accounts == e.accounts
                &&& s.vault == e.vault
            }
        }),
{
}

/// At the end of an instruction interest that no position stands behind is dropped, if it is
/// no more than the dust of the sides without positions: then both sides are due for a
/// reset. Otherwise interest stays, and a side that drains is due once nothing is open.
pub proof fn law_resets_are_scheduled_when_due(e: RiskEngine, ctx: InstructionContext)
    ensures
        ({
            let (s, c, r) = e.schedule_resets_spec(ctx);
            let none_long = e.stored_pos_count_long == 0;
            let none_short = e.stored_pos_count_short == 0;
            let dust_long = if none_long {
                e.phantom_dust_potential_long_q as int
            } else {
                0
            };
            let dust_short = if none_short {
                e.phantom_dust_potential_short_q as int
            } else {
                0
            };
            let over = (none_long || none_short) && (e.oi_eff_long_q != 0 || e.oi_eff_short_q != 0
                || dust_long != 0 || dust_short != 0);
            let fits = e.oi_eff_long_q == e.oi_eff_short_q && e.oi_eff_long_q <= dust_long
                + dust_short;
            &&& r is Ok <==> dust_long + dust_short <= u128::MAX && (over ==> fits)
            &&& r is Ok && over ==> {
                &&& s.oi_eff_long_q == 0 && s.oi_eff_short_q == 0
                &&& c.pending_reset_long && c.pending_reset_short
            }
            &&& r is Ok && !over ==> {
                &&& s == e
                &&& c.pending_reset_long <==> ctx.pending_reset_long || e.side_mode_long
                    == SideMode::DrainOnly && e.oi_eff_long_q == 0
                &&& c.pending_reset_short <==> ctx.pending_reset_short || e.side_mode_short
                    == SideMode::DrainOnly && e.oi_eff_short_q == 0
            }
        }),
{
    reveal(RiskEngine::schedule_resets_spec);
}

/// When a side shrinks, what is known to belong to nobody goes first: that much less of it
/// is left, and never more than is open. What may belong to nobody grows by one for each
/// stored position, for the rounding, and is never more than is open either.
pub proof fn law_shrinking_keeps_track_of_dust(
    e: RiskEngine,
    ctx: InstructionContext,
    side: Side,
    q: u128,
)
    requires
        0 < e.open_on(across(side)),
        q < e.open_on(across(side)),
        e.multiplier_of(across(side)) <= 1_000_000_000_000_000,
        0 < e.multiplier_of(across(side)) * (e.open_on(across(side)) - q) / e.open_on(
            across(side),
        ),
        e.shrink_side(ctx, side, e.open_on(across(side)) as u128, q).2 is Ok,
    ensures
        ({
            let opp = across(side);
            let oi = e.open_on(opp);
            let left = oi - q;
            let s = e.shrink_side(ctx, side, oi as u128, q).0;
            let m = e.multiplier_of(opp);
            let shrunk = m * left / oi;
            let sure = (oi - e.doubtful_on(opp)) * shrunk / m;
            let (certified, potential) = match opp {
                Side::Long => (
                    s.phantom_dust_certified_long_q as int,
                    s.phantom_dust_potential_long_q as int,
                ),
                Side::Short => (
                    s.phantom_dust_certified_short_q as int,
                    s.phantom_dust_potential_short_q as int,
                ),
            };
            &&& certified == lesser(left, greater(e.ownerless_on(opp) - q, 0))
            &&& potential == lesser(left, greater(left - sure, 0) + e.stored_on(opp))
        }),
{
    reveal(RiskEngine::shrink_side);
    let opp = across(side);
    let oi = e.open_on(opp);
    let left = oi - q;
    let m = e.multiplier_of(opp);
    assert(m * left / oi <= m) by (nonlinear_arith)
        requires
            0 <= m,
            0 < left <= oi,
    ;
}

/// A market is recovered on account of a single one only if that account has a share in
/// losses to settle, and even the smallest step of it would lose more than a step may. The
/// market is then settled at its last price.
pub proof fn law_account_recovery_needs_its_reason(e: RiskEngine, i: int, now_slot: u64)
    requires
        e.recover_account_b_spec(i, now_slot).1 is Ok,
    ensures
        ({
            let s = e.recover_account_b_spec(i, now_slot).0;
            let a = e.accounts@[i];
            &&& e.market_mode == MarketMode::Live
            &&& e.current_slot <= now_slot && e.last_market_slot <= now_slot
            &&& e.slot_used(i)
            &&& a.position_basis_q != 0
            &&& a.position_basis_q > 0 && a.adl_epoch_snap == e.adl_epoch_long ==> a.b_snap
                < e.b_long_num
            &&& a.position_basis_q < 0 && a.adl_epoch_snap == e.adl_epoch_short ==> a.b_snap
                < e.b_short_num
            &&& (10_000_000_000_000_000 + 1) * 1_000_000_000_000_000_000_000int <= a.loss_weight
                + a.b_rem
            &&& s.market_mode == MarketMode::Resolved
            &&& s.resolved_price == e.last_oracle_price
            &&& s.resolved_live_price == e.last_oracle_price
            &&& s.resolved_slot == now_slot
        }),
{
    reveal(RiskEngine::recover_account_b_spec);
    reveal(RiskEngine::account_b_stuck_spec);
    reveal(RiskEngine::validate_shape_at_spec);
    let p = e.last_oracle_price;
    law_resolution_by_instruction(e, ResolveMode::Degenerate, p, p, now_slot, 0);
    let a = e.accounts@[i];
    let w = a.loss_weight as int;
    let room = 10_000_000_000_000_001 * 1_000_000_000_000_000_000_000 - 1 - a.b_rem;
    if w > 0 && room >= 0 {
        vstd::arithmetic::div_mod::lemma_fundamental_div_mod(room, w);
        assert(w <= room ==> room / w > 0) by (nonlinear_arith)
            requires
                0 < w,
                room == w * (room / w) + room % w,
                0 <= room % w < w,
        ;
    }
}

/// A close that starts over a residual keeps all that it is to book, and there is only one
/// at a time.
pub proof fn law_started_close_keeps_its_residual(
    e: RiskEngine,
    idx: u16,
    side: Side,
    price: u64,
    slot: u64,
    q: u128,
    residual: u128,
)
    requires
        0 < residual,
        e.start_active_close_spec(idx, side, price, slot, q, residual).1 is Ok,
    ensures
        ({
            let s = e.start_active_close_spec(idx, side, price, slot, q, residual).0;
            &&& e.active_close_present == 0
            &&& 0 < price <= 1_000_000_000_000
            &&& slot <= e.current_slot
            &&& idx == u16::MAX || idx < e.params.max_accounts
            &&& s.active_close_present == 1
            &&& s.active_close_residual_remaining == residual
            &&& s.active_close_residual_booked == 0
            &&& s.active_close_residual_recorded == 0
            &&& s.active_close_b_chunks_booked == 0
            &&& s.active_close_account_idx == idx
            &&& s.active_close_close_price == price
            &&& s.active_close_close_slot == slot
            &&& s.active_close_q_close_q == q
            &&& s.active_close_opp_side == match side {
                Side::Long => 1u8,
                Side::Short => 2u8,
            }
            &&& s.bankruptcy_hmax_lock_active
            &&& s.accounts == e.accounts
        }),
{
}

proof fn lemma_terminal_drain_keeps_settlement(e: RiskEngine, side: Side)
    requires
        e.get_oi_eff(side) == 0,
        e.drain_if_held(side, true).1 is Ok,
    ensures
        e.same_settlement(e.drain_if_held(side, true).0),
{
    reveal(RiskEngine::begin_terminal_reset_spec);
    reveal(RiskEngine::begin_reset_spec);
}

/// A market of which a counter is used up is settled at its last price, with nothing more to
/// gain or lose.
pub proof fn law_exhausted_market_is_settled_at_its_price(e: RiskEngine, now_slot: u64)
    requires
        e.resolve_exhausted_spec(now_slot).1 is Ok,
    ensures
        ({
            let s = e.resolve_exhausted_spec(now_slot).0;
            &&& e.market_mode == MarketMode::Live
            &&& e.active_close_present == 0
            &&& e.current_slot <= now_slot && e.last_market_slot <= now_slot
            &&& s.market_mode == MarketMode::Resolved
            &&& s.resolved_price == e.last_oracle_price
            &&& s.resolved_live_price == e.last_oracle_price
            &&& s.resolved_slot == now_slot
            &&& s.resolved_k_long_terminal_delta == 0
            &&& s.resolved_k_short_terminal_delta == 0
            &&& s.oi_eff_long_q == 0 && s.oi_eff_short_q == 0
            &&& s.accounts == e.accounts
            &&& s.vault == e.vault
            &&& s.c_tot == e.c_tot
            &&& s.insurance_fund == e.insurance_fund
            &&& s.pnl_matured_pos_tot == e.pnl_pos_tot
        }),
{
    reveal(RiskEngine::resolve_exhausted_spec);
    reveal(RiskEngine::resolution_drained);
    let p = e.last_oracle_price;
    let t = (RiskEngine { last_market_slot: now_slot, ..e }).with_resolution(p, p, now_slot, 0, 0);
    lemma_terminal_drain_keeps_settlement(t, Side::Long);
    let u = t.drain_if_held(Side::Long, true).0;
    lemma_terminal_drain_keeps_settlement(u, Side::Short);
}

/// The cursor of the sweep goes behind the window; at the last slot it goes back to the
/// first, one more round is counted at the present slot, and the allowance of price
/// movement starts anew. Within a round neither changes.
pub proof fn law_round_starts_at_the_last_slot(
    e: RiskEngine,
    end: int,
    bound: u64,
    now_slot: u64,
)
    requires
        0 <= end <= u64::MAX,
        e.cursor_advanced(end, bound, now_slot).1 is Ok,
    ensures
        ({
            let s = e.cursor_advanced(end, bound, now_slot).0;
            &&& s.accounts == e.accounts
            &&& if bound <= end {
                &&& s.rr_cursor_position == 0
                &&& s.sweep_generation == e.sweep_generation + 1
                &&& s.last_sweep_generation_advance_slot == now_slot
                &&& s.price_move_consumed_bps_this_generation == 0
            } else {
                &&& s.rr_cursor_position == end
                &&& s.sweep_generation == e.sweep_generation
                &&& s.price_move_consumed_bps_this_generation
                    == e.price_move_consumed_bps_this_generation
            }
        }),
{
    reveal(RiskEngine::advance_sweep_generation_spec);
}

/// Stress is worked off by the slots that are counted, and ends exactly if nothing of it is
/// left, it did not start at this very slot, a whole round was begun and ended since it
/// started, and no close is in flight.
pub proof fn law_stress_ends_when_worked_off(e: RiskEngine, now_slot: u64, counted: u64)
    requires
        e.stress_consumed_bps_e9_since_envelope > 0 || e.bankruptcy_hmax_lock_active,
        counted > 0,
    ensures
        ({
            let s = e.stress_progress_spec(now_slot, counted);
            let left = greater(e.stress_envelope_remaining_indices - counted, 0);
            let ends = {
                &&& left == 0
                &&& e.stress_envelope_start_slot != now_slot
                &&& e.stress_envelope_start_generation != u64::MAX
                &&& e.stress_envelope_start_generation < e.sweep_generation
                &&& e.last_sweep_generation_advance_slot != u64::MAX
                &&& e.stress_envelope_start_slot < e.last_sweep_generation_advance_slot
                &&& e.active_close_present == 0
            };
            &&& s.stress_envelope_remaining_indices == left
            &&& ends ==> s.stress_consumed_bps_e9_since_envelope == 0
                && !s.bankruptcy_hmax_lock_active
            &&& !ends ==> s.stress_consumed_bps_e9_since_envelope
                == e.stress_consumed_bps_e9_since_envelope && s.bankruptcy_hmax_lock_active
                == e.bankruptcy_hmax_lock_active
        }),
{
}

/// A segment of an accrual moves the indices as an accrual does, and counts as stress what
/// the price has moved, up or down, as a share of the price before, and what the funding is,
/// either way. Any stress sets the whole market to be swept anew.
pub proof fn law_segment_is_exact(
    e: RiskEngine,
    slot: u64,
    current: u64,
    start: u64,
    price: u64,
    rate: i128,
)
    requires
        e.public_post() is Ok,
        e.accrue_market_segment_spec(slot, current, start, price, rate).1 is Ok,
    ensures
        ({
            let s = e.accrue_market_segment_spec(slot, current, start, price, rate).0;
            let last = e.last_oracle_price as int;
            let dp = price - last;
            let dt = slot - e.last_market_slot;
            let both = e.oi_eff_long_q != 0 && e.oi_eff_short_q != 0;
            let open = e.oi_eff_long_q != 0 || e.oi_eff_short_q != 0;
            let funding = e.funding_until(slot as int, rate as int);
            let by_price = if open {
                size_of(dp) * 10_000 * 1_000_000_000 / last
            } else {
                0
            };
            let by_funding = if both {
                size_of(rate as int) * dt * 10_000
            } else {
                0
            };
            let stress = lesser(by_price + by_funding, u128::MAX as int);
            &&& e.market_mode == MarketMode::Live
            &&& 0 < price <= 1_000_000_000_000
            &&& size_of(rate as int) <= e.params.max_abs_funding_e9_per_slot
            &&& e.last_market_slot <= slot <= current
            &&& e.current_slot <= current
            &&& start <= current
            &&& s.adl_coeff_long == e.adl_coeff_long + if e.oi_eff_long_q != 0 {
                e.adl_mult_long * dp
            } else {
                0
            }
            &&& s.adl_coeff_short == e.adl_coeff_short - if e.oi_eff_short_q != 0 {
                e.adl_mult_short * dp
            } else {
                0
            }
            &&& s.f_long_num == e.f_long_num - e.adl_mult_long * funding
            &&& s.f_short_num == e.f_short_num + e.adl_mult_short * funding
            &&& s.last_oracle_price == price
            &&& s.last_market_slot == slot
            &&& s.current_slot == current
            &&& s.stress_consumed_bps_e9_since_envelope == lesser(
                e.stress_consumed_bps_e9_since_envelope + stress,
                u128::MAX as int,
            )
            &&& stress > 0 ==> s.stress_envelope_remaining_indices == e.params.max_accounts
                && s.stress_envelope_start_slot == start && s.stress_envelope_start_generation
                == e.sweep_generation
            &&& s.accounts == e.accounts
            &&& s.vault == e.vault
        }),
{
    reveal(RiskEngine::accrue_market_segment_spec);
    reveal(RiskEngine::plan_accrual_segment_spec);
    reveal(RiskEngine::public_post);
    let a = e.adl_mult_long as int;
    let b = e.adl_mult_short as int;
    let p = e.fund_px_last as int;
    let last = e.last_oracle_price as int;
    let dt = slot - e.last_market_slot;
    assert(a * 0 == 0 && b * 0 == 0) by (nonlinear_arith);
    assert(p * rate * 0 == 0) by (nonlinear_arith);
    assert(p * 0 * dt == 0) by (nonlinear_arith);
    assert(0 * dt * 10_000 == 0) by (nonlinear_arith);
    assert(size_of(rate as int) * dt >= 0) by (nonlinear_arith)
        requires
            size_of(rate as int) >= 0,
            dt >= 0,
    ;
    assert(0int / last == 0) by (nonlinear_arith)
        requires
            last > 0,
    ;
    let move_num = size_of(price - last) * 10_000 * 1_000_000_000;
    assert(move_num / last >= 0) by (nonlinear_arith)
        requires
            last > 0,
            move_num >= 0,
    ;
}

} // verus!
