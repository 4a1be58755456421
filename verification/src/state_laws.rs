//! What an accepted market and its accounts are like, read off the stored state.

use vstd::prelude::*;

use crate::constants::MAX_ACCOUNTS;
use crate::envelope::lemma_ceil_by_adding;
use crate::measures::{greater, lesser, size_of, worth_up};
use crate::types::{MarketMode, RiskEngine, RiskParams, SideMode};

verus! {

/// The parameters that a market may run with are in range, one by one.
pub proof fn law_accepted_parameters_are_in_range(p: RiskParams)
    ensures
        p.shape_accepts() <==> {
            let funding = 1_000_000_000_000_000 * 1_000_000_000_000
                * p.max_abs_funding_e9_per_slot;
            &&& 0 < p.max_accounts <= MAX_ACCOUNTS
            &&& 0 < p.max_active_positions_per_side <= p.max_accounts
            &&& p.maintenance_margin_bps <= p.initial_margin_bps
            &&& p.initial_margin_bps <= 10_000
            &&& p.max_trading_fee_bps <= 10_000
            &&& p.liquidation_fee_bps <= 10_000
            &&& 0 < p.min_nonzero_mm_req
            &&& p.min_nonzero_mm_req < p.min_nonzero_im_req
            &&& p.min_liquidation_abs.0 <= p.liquidation_fee_cap.0
            &&& p.liquidation_fee_cap.0 <= 1_000_000_000_000_000_000_000_000_000_000_000_000
            &&& p.h_min <= p.h_max
            &&& 0 < p.h_max
            &&& p.resolve_price_deviation_bps <= 10_000
            &&& 0 < p.max_accrual_dt_slots
            &&& p.max_accrual_dt_slots <= p.min_funding_lifetime_slots
            &&& p.max_abs_funding_e9_per_slot <= 10_000
            &&& 0 < p.max_price_move_bps_per_slot <= 10_000
            &&& funding * p.max_accrual_dt_slots <= i128::MAX
            &&& funding * p.min_funding_lifetime_slots <= i128::MAX
        },
{
}

/// Accepted parameters leave room for the worst of one accrual: for every worth that a
/// position may have, what it needs to be kept covers the largest move of the price, either
/// way, the largest funding, and the fee of the liquidation that follows.
pub proof fn law_accepted_parameters_survive_an_accrual(p: RiskParams, n: int)
    requires
        p.valid(),
        1 <= n <= 100_000_000_000_000_000_000,
    ensures
        ({
            let move_bps = p.max_price_move_bps_per_slot * p.max_accrual_dt_slots;
            let funding = p.max_abs_funding_e9_per_slot * p.max_accrual_dt_slots * 10_000;
            let per_unit = move_bps * 1_000_000_000 + funding;
            let loss = (n * per_unit + 9_999_999_999_999) / 10_000_000_000_000;
            let worth = (n * (10_000 + move_bps) + 9_999) / 10_000;
            let fee = lesser(
                greater(
                    (worth * p.liquidation_fee_bps + 9_999) / 10_000,
                    p.min_liquidation_abs.0 as int,
                ),
                p.liquidation_fee_cap.0 as int,
            );
            loss + fee <= greater(
                n * p.maintenance_margin_bps / 10_000,
                p.min_nonzero_mm_req as int,
            )
        }),
{
    crate::envelope_laws::law_accepted_envelope_covers_every_notional(p, n);
    let move_bps = p.max_price_move_bps_per_slot * p.max_accrual_dt_slots;
    let funding = p.max_abs_funding_e9_per_slot * p.max_accrual_dt_slots * 10_000;
    let per_unit = move_bps * 1_000_000_000 + funding;
    assert(move_bps >= 0 && funding >= 0) by (nonlinear_arith)
        requires
            move_bps == p.max_price_move_bps_per_slot * p.max_accrual_dt_slots,
            funding == p.max_abs_funding_e9_per_slot * p.max_accrual_dt_slots * 10_000,
    ;
    assert(n * per_unit >= 0 && n * (10_000 + move_bps) >= 0) by (nonlinear_arith)
        requires
            n >= 0,
            per_unit >= 0,
            move_bps >= 0,
    ;
    lemma_ceil_by_adding(n * per_unit, 10_000_000_000_000);
    lemma_ceil_by_adding(n * (10_000 + move_bps), 10_000);
    let worth = (n * (10_000 + move_bps) + 9_999) / 10_000;
    assert(worth * p.liquidation_fee_bps >= 0) by (nonlinear_arith)
        requires
            worth >= 0,
    ;
    lemma_ceil_by_adding(worth * p.liquidation_fee_bps, 10_000);
}

/// A market that an instruction leaves behind holds enough for all capital and insurance,
/// has as much open long as short, and keeps within its bounds; its time and prices are
/// set, and it is settled or it is not.
pub proof fn law_left_market_is_in_order(e: RiskEngine)
    requires
        e.public_post() is Ok,
    ensures
        e.c_tot.0 + e.insurance_fund.balance.0 <= e.vault.0,
        e.vault.0 <= 10_000_000_000_000_000,
        e.oi_eff_long_q == e.oi_eff_short_q,
        e.oi_eff_long_q <= 100_000_000_000_000,
        e.adl_mult_long <= 1_000_000_000_000_000,
        e.adl_mult_short <= 1_000_000_000_000_000,
        e.oi_eff_long_q != 0 ==> 0 < e.adl_mult_long && 0 < e.adl_mult_short,
        e.stored_pos_count_long <= e.params.max_active_positions_per_side,
        e.stored_pos_count_short <= e.params.max_active_positions_per_side,
        e.pnl_matured_pos_tot <= e.pnl_pos_tot,
        e.materialized_account_count == e.num_used_accounts,
        e.num_used_accounts <= e.params.max_accounts,
        e.neg_pnl_account_count <= e.num_used_accounts,
        e.rr_cursor_position < e.params.max_accounts,
        0 < e.last_oracle_price <= 1_000_000_000_000,
        0 < e.fund_px_last <= 1_000_000_000_000,
        e.last_market_slot <= e.current_slot,
        e.resolved_payout_h_num <= e.resolved_payout_h_den,
        e.resolved_payout_ready == 0 ==> e.resolved_payout_h_den == 0,
        e.phantom_dust_certified_long_q <= e.phantom_dust_potential_long_q,
        e.phantom_dust_certified_short_q <= e.phantom_dust_potential_short_q,
        e.loss_weight_sum_long <= 1_000_000_000_000_000_000_000,
        e.loss_weight_sum_short <= 1_000_000_000_000_000_000_000,
        e.market_mode == MarketMode::Live ==> e.resolved_price == 0 && e.resolved_slot == 0
            && e.resolved_payout_ready == 0 && e.resolved_k_long_terminal_delta == 0
            && e.resolved_k_short_terminal_delta == 0,
        e.market_mode == MarketMode::Resolved ==> 0 < e.resolved_price && 0
            < e.resolved_live_price && e.current_slot == e.resolved_slot
            && !e.bankruptcy_hmax_lock_active,
        e.params.shape_accepts(),
{
    reveal(RiskEngine::public_post);
}

proof fn lemma_slot_below(e: RiskEngine, i: int, n: int)
    requires
        0 <= i < n,
        e.slots_check(n) is Ok,
    ensures
        e.slot_check(i) is Ok,
    decreases n,
{
    if i < n - 1 {
        lemma_slot_below(e, i, n - 1);
    }
}

/// An account of such a market: its warmup holds no more than its profit, and exactly what
/// the two buckets hold; it is never in credit for fees; its position is bounded in size
/// and in worth, and of the epoch of its side or of the one that a reset has just ended. A
/// free slot is empty.
pub proof fn law_left_account_is_in_order(e: RiskEngine, i: int)
    requires
        e.public_post() is Ok,
        0 <= i < MAX_ACCOUNTS,
    ensures
        ({
            let a = e.accounts@[i];
            let b = a.position_basis_q;
            let sched = if a.sched_present != 0 {
                a.sched_remaining_q as int
            } else {
                0
            };
            let pending = if a.pending_present != 0 {
                a.pending_remaining_q as int
            } else {
                0
            };
            if e.slot_used(i) {
                &&& i < e.params.max_accounts
                &&& sched + pending == a.reserved_pnl
                &&& a.reserved_pnl <= a.profit()
                &&& i128::MIN < a.fee_credits.0 <= 0
                &&& i128::MIN < a.pnl
                &&& a.last_fee_slot <= if e.market_mode == MarketMode::Live {
                    e.current_slot
                } else {
                    e.resolved_slot
                }
                &&& size_of(b as int) <= 100_000_000_000_000
                &&& b != 0 ==> 0 < a.adl_a_basis
                &&& b > 0 ==> a.adl_epoch_snap == e.adl_epoch_long || a.adl_epoch_snap + 1
                    == e.adl_epoch_long && e.side_mode_long == SideMode::ResetPending
                &&& b < 0 ==> a.adl_epoch_snap == e.adl_epoch_short || a.adl_epoch_snap + 1
                    == e.adl_epoch_short && e.side_mode_short == SideMode::ResetPending
                &&& worth_up(e.held(i), e.last_oracle_price as int)
                    <= 100_000_000_000_000_000_000
            } else {
                &&& a.capital.0 == 0
                &&& a.pnl == 0
                &&& b == 0
                &&& a.fee_credits.0 == 0
            }
        }),
{
    reveal(RiskEngine::public_post);
    reveal(RiskEngine::notional_spec);
    lemma_slot_below(e, i, MAX_ACCOUNTS as int);
    crate::margin_laws::law_effective_position_is_what_is_held(e, i, false);
    let p = e.last_oracle_price as int;
    crate::margin_laws::lemma_worth(e.held(i), p);
    if e.held(i) == 0 {
        assert(worth_up(0, p) == 0) by (nonlinear_arith)
            requires
                worth_up(0, p) == (0 * p + 999_999) / 1_000_000,
        ;
    }
}

impl RiskEngine {
    /// Whether the slot of account `i` is in use and it has a position on a side, of an epoch
    /// of that side that is over if `stale` says so.
    pub open spec fn stands_at(self, i: int, long: bool, stale: bool) -> bool {
        let a = self.accounts@[i];
        &&& self.slot_used(i)
        &&& if long {
            &&& a.position_basis_q > 0
            &&& stale ==> a.adl_epoch_snap != self.adl_epoch_long
        } else {
            &&& a.position_basis_q < 0
            &&& stale ==> a.adl_epoch_snap != self.adl_epoch_short
        }
    }

    /// Whether the slot of account `i` is in use and it has a loss.
    pub open spec fn loses_at(self, i: int) -> bool {
        self.slot_used(i) && self.accounts@[i].pnl < 0
    }
}

proof fn lemma_counts_see(e: RiskEngine, n: int)
    requires
        0 <= n <= MAX_ACCOUNTS,
    ensures
        ({
            let c = e.counts_below(n);
            &&& c.used <= n && c.negative <= n && c.stored_long <= n && c.stored_short <= n
                && c.stale_long <= n && c.stale_short <= n
            &&& c.used == 0 <==> forall|i: int| 0 <= i < n ==> !#[trigger] e.slot_used(i)
            &&& c.negative == 0 <==> forall|i: int| 0 <= i < n ==> !#[trigger] e.loses_at(i)
            &&& c.stored_long == 0 <==> forall|i: int|
                0 <= i < n ==> !#[trigger] e.stands_at(i, true, false)
            &&& c.stored_short == 0 <==> forall|i: int|
                0 <= i < n ==> !#[trigger] e.stands_at(i, false, false)
            &&& c.stale_long == 0 <==> forall|i: int|
                0 <= i < n ==> !#[trigger] e.stands_at(i, true, true)
            &&& c.stale_short == 0 <==> forall|i: int|
                0 <= i < n ==> !#[trigger] e.stands_at(i, false, true)
        }),
    decreases n,
{
    if n > 0 {
        lemma_counts_see(e, n - 1);
        let (c, d) = (e.counts_below(n), e.counts_below(n - 1));
        let k = n - 1;
        assert(d.used == 0 && !e.slot_used(k) <==> c.used == 0);
        assert(d.negative == 0 && !e.loses_at(k) <==> c.negative == 0);
        assert(d.stored_long == 0 && !e.stands_at(k, true, false) <==> c.stored_long == 0);
        assert(d.stored_short == 0 && !e.stands_at(k, false, false) <==> c.stored_short == 0);
        assert(d.stale_long == 0 && !e.stands_at(k, true, true) <==> c.stale_long == 0);
        assert(d.stale_short == 0 && !e.stands_at(k, false, true) <==> c.stale_short == 0);
    }
}

/// The counters of such a market see every account: one is zero exactly if no account is
/// what it counts.
pub proof fn law_counters_see_every_account(e: RiskEngine)
    requires
        e.public_post() is Ok,
    ensures
        e.num_used_accounts == 0 <==> forall|i: int|
            0 <= i < MAX_ACCOUNTS ==> !#[trigger] e.slot_used(i),
        e.neg_pnl_account_count == 0 <==> forall|i: int|
            0 <= i < MAX_ACCOUNTS ==> !#[trigger] e.loses_at(i),
        e.stored_pos_count_long == 0 <==> forall|i: int|
            0 <= i < MAX_ACCOUNTS ==> !#[trigger] e.stands_at(i, true, false),
        e.stored_pos_count_short == 0 <==> forall|i: int|
            0 <= i < MAX_ACCOUNTS ==> !#[trigger] e.stands_at(i, false, false),
        e.stale_account_count_long == 0 <==> forall|i: int|
            0 <= i < MAX_ACCOUNTS ==> !#[trigger] e.stands_at(i, true, true),
        e.stale_account_count_short == 0 <==> forall|i: int|
            0 <= i < MAX_ACCOUNTS ==> !#[trigger] e.stands_at(i, false, true),
{
    reveal(RiskEngine::public_post);
    lemma_counts_see(e, MAX_ACCOUNTS as int);
}

} // verus!
