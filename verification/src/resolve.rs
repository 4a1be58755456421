//! Settlement of the market at a final price, and the close of its accounts.

use vstd::prelude::*;

use crate::constants::{MAX_ACCOUNTS, MAX_ORACLE_PRICE, POS_SCALE};
use crate::int128::{I128, U128};
use crate::sides::side_of_i128;
use crate::trade::checked_u128_mul_i128;
use crate::types::{
    MarketMode, ReserveMode, ResolveMode, ResolvedCloseResult, RiskEngine, RiskError, Side,
    SideMode,
};
use crate::wide_math::{abs_i128, div_rem_u256, min_u64, min_u128, widening_mul, I256, U256};

verus! {

impl RiskEngine {
    /// A copy of the engine.
    fn snapshot(&self) -> (r: RiskEngine)
        ensures
            r == *self,
    {
        RiskEngine {
            vault: self.vault,
            insurance_fund: self.insurance_fund,
            params: self.params,
            current_slot: self.current_slot,
            market_mode: self.market_mode,
            resolved_price: self.resolved_price,
            resolved_slot: self.resolved_slot,
            resolved_payout_h_num: self.resolved_payout_h_num,
            resolved_payout_h_den: self.resolved_payout_h_den,
            resolved_payout_ready: self.resolved_payout_ready,
            resolved_k_long_terminal_delta: self.resolved_k_long_terminal_delta,
            resolved_k_short_terminal_delta: self.resolved_k_short_terminal_delta,
            resolved_live_price: self.resolved_live_price,
            c_tot: self.c_tot,
            pnl_pos_tot: self.pnl_pos_tot,
            pnl_matured_pos_tot: self.pnl_matured_pos_tot,
            adl_mult_long: self.adl_mult_long,
            adl_mult_short: self.adl_mult_short,
            adl_coeff_long: self.adl_coeff_long,
            adl_coeff_short: self.adl_coeff_short,
            adl_epoch_long: self.adl_epoch_long,
            adl_epoch_short: self.adl_epoch_short,
            adl_epoch_start_k_long: self.adl_epoch_start_k_long,
            adl_epoch_start_k_short: self.adl_epoch_start_k_short,
            oi_eff_long_q: self.oi_eff_long_q,
            oi_eff_short_q: self.oi_eff_short_q,
            side_mode_long: self.side_mode_long,
            side_mode_short: self.side_mode_short,
            stored_pos_count_long: self.stored_pos_count_long,
            stored_pos_count_short: self.stored_pos_count_short,
            stale_account_count_long: self.stale_account_count_long,
            stale_account_count_short: self.stale_account_count_short,
            phantom_dust_certified_long_q: self.phantom_dust_certified_long_q,
            phantom_dust_certified_short_q: self.phantom_dust_certified_short_q,
            phantom_dust_potential_long_q: self.phantom_dust_potential_long_q,
            phantom_dust_potential_short_q: self.phantom_dust_potential_short_q,
            b_long_num: self.b_long_num,
            b_short_num: self.b_short_num,
            b_epoch_start_long_num: self.b_epoch_start_long_num,
            b_epoch_start_short_num: self.b_epoch_start_short_num,
            loss_weight_sum_long: self.loss_weight_sum_long,
            loss_weight_sum_short: self.loss_weight_sum_short,
            social_loss_remainder_long_num: self.social_loss_remainder_long_num,
            social_loss_remainder_short_num: self.social_loss_remainder_short_num,
            social_loss_dust_long_num: self.social_loss_dust_long_num,
            social_loss_dust_short_num: self.social_loss_dust_short_num,
            explicit_unallocated_loss_long: self.explicit_unallocated_loss_long,
            explicit_unallocated_loss_short: self.explicit_unallocated_loss_short,
            explicit_unallocated_protocol_loss: self.explicit_unallocated_protocol_loss,
            explicit_unallocated_loss_saturated: self.explicit_unallocated_loss_saturated,
            materialized_account_count: self.materialized_account_count,
            neg_pnl_account_count: self.neg_pnl_account_count,
            bankruptcy_hmax_lock_active: self.bankruptcy_hmax_lock_active,
            active_close_present: self.active_close_present,
            active_close_phase: self.active_close_phase,
            active_close_account_idx: self.active_close_account_idx,
            active_close_opp_side: self.active_close_opp_side,
            active_close_close_price: self.active_close_close_price,
            active_close_close_slot: self.active_close_close_slot,
            active_close_q_close_q: self.active_close_q_close_q,
            active_close_residual_remaining: self.active_close_residual_remaining,
            active_close_residual_booked: self.active_close_residual_booked,
            active_close_residual_recorded: self.active_close_residual_recorded,
            active_close_b_chunks_booked: self.active_close_b_chunks_booked,
            rr_cursor_position: self.rr_cursor_position,
            sweep_generation: self.sweep_generation,
            price_move_consumed_bps_this_generation: self.price_move_consumed_bps_this_generation,
            stress_consumed_bps_e9_since_envelope: self.stress_consumed_bps_e9_since_envelope,
            stress_envelope_remaining_indices: self.stress_envelope_remaining_indices,
            stress_envelope_start_slot: self.stress_envelope_start_slot,
            stress_envelope_start_generation: self.stress_envelope_start_generation,
            last_sweep_generation_advance_slot: self.last_sweep_generation_advance_slot,
            oracle_target_price_e6: self.oracle_target_price_e6,
            oracle_target_publish_time: self.oracle_target_publish_time,
            last_oracle_price: self.last_oracle_price,
            fund_px_last: self.fund_px_last,
            last_market_slot: self.last_market_slot,
            f_long_num: self.f_long_num,
            f_short_num: self.f_short_num,
            f_epoch_start_long_num: self.f_epoch_start_long_num,
            f_epoch_start_short_num: self.f_epoch_start_short_num,
            used: self.used,
            num_used_accounts: self.num_used_accounts,
            free_head: self.free_head,
            next_free: self.next_free,
            prev_free: self.prev_free,
            accounts: self.accounts,
        }
    }

    /// Shift of `K` that settlement adds to a side, zero if the side is being reset
    /// or holds no open interest.
    pub open spec fn terminal_shift(self, side: Side, price_diff: int) -> Result<i128, RiskError> {
        if self.get_side_mode(side) == SideMode::ResetPending || self.get_oi_eff(side) == 0 {
            Ok(0)
        } else {
            crate::trade::mul_u128_i128_spec(self.get_a_side(side), price_diff as i128)
        }
    }

    fn compute_terminal_shift(&self, side: Side, price_diff: i128) -> (r: Result<i128, RiskError>)
        ensures
            r == self.terminal_shift(side, price_diff as int),
    {
        if self.get_side_mode(side) == SideMode::ResetPending || self.get_oi_eff(side) == 0 {
            return Ok(0);
        }
        checked_u128_mul_i128(self.get_a_side(side), price_diff)
    }

    /// The engine without the dust of a side that holds no stored position.
    pub open spec fn with_unheld_dust_cleared(self, side: Side) -> RiskEngine {
        if self.get_stored_pos_count(side) == 0 {
            self.with_dust_certified(side, 0).with_dust_potential(side, 0)
        } else {
            self
        }
    }

    fn clear_unheld_dust(&mut self, side: Side)
        ensures
            *final(self) == old(self).with_unheld_dust_cleared(side),
    {
        if self.get_stored_pos_count(side) == 0 {
            self.set_phantom_dust_certified(side, 0);
            self.set_phantom_dust_potential(side, 0);
        }
    }

    /// The engine of a market that is settled at a price: all profit is matured, no
    /// open interest is left, and no stress is.
    pub open spec fn with_resolution(
        self,
        resolved_price: u64,
        live_price: u64,
        now_slot: u64,
        k_long_shift: i128,
        k_short_shift: i128,
    ) -> RiskEngine {
        RiskEngine {
            current_slot: now_slot,
            market_mode: MarketMode::Resolved,
            resolved_price,
            resolved_live_price: live_price,
            resolved_slot: now_slot,
            resolved_k_long_terminal_delta: k_long_shift,
            resolved_k_short_terminal_delta: k_short_shift,
            resolved_payout_h_num: 0,
            resolved_payout_h_den: 0,
            resolved_payout_ready: 0,
            pnl_matured_pos_tot: self.pnl_pos_tot,
            oi_eff_long_q: 0,
            oi_eff_short_q: 0,
            ..self.without_stress_envelope()
        }.with_unheld_dust_cleared(Side::Long).with_unheld_dust_cleared(Side::Short)
    }

    fn enter_resolution(
        &mut self,
        resolved_price: u64,
        live_price: u64,
        now_slot: u64,
        k_long_shift: i128,
        k_short_shift: i128,
    )
        ensures
            *final(self) == old(self).with_resolution(
                resolved_price,
                live_price,
                now_slot,
                k_long_shift,
                k_short_shift,
            ),
    {
        self.current_slot = now_slot;
        self.market_mode = MarketMode::Resolved;
        self.resolved_price = resolved_price;
        self.resolved_live_price = live_price;
        self.resolved_slot = now_slot;
        self.resolved_k_long_terminal_delta = k_long_shift;
        self.resolved_k_short_terminal_delta = k_short_shift;
        self.clear_stress_envelope();
        self.resolved_payout_h_num = 0;
        self.resolved_payout_h_den = 0;
        self.resolved_payout_ready = 0;
        self.pnl_matured_pos_tot = self.pnl_pos_tot;
        self.oi_eff_long_q = 0;
        self.oi_eff_short_q = 0;
        self.clear_unheld_dust(Side::Long);
        self.clear_unheld_dust(Side::Short);
    }

    /// Starts the reset of a side with stored positions. If `terminal` says so, a
    /// side whose epoch cannot advance gets its last reset.
    pub open spec fn drain_if_held(self, side: Side, terminal: bool) -> (RiskEngine, Result<
        (),
        RiskError,
    >) {
        if self.get_side_mode(side) == SideMode::ResetPending || self.get_stored_pos_count(side)
            == 0 {
            (self, Ok(()))
        } else if terminal && self.get_epoch_side(side) == u64::MAX {
            self.begin_terminal_reset_spec(side)
        } else {
            self.begin_reset_spec(side)
        }
    }

    fn drain_held_side(&mut self, side: Side, terminal: bool) -> (r: Result<(), RiskError>)
        ensures
            (*final(self), r) == old(self).drain_if_held(side, terminal),
    {
        if self.get_side_mode(side) == SideMode::ResetPending || self.get_stored_pos_count(side)
            == 0 {
            return Ok(());
        }
        if terminal && self.get_epoch_side(side) == u64::MAX {
            self.begin_terminal_epoch_exhaustion_reset(side)
        } else {
            self.begin_full_drain_reset(side)
        }
    }

    /// Starts the resets of a settled market, and ends the ready ones.
    #[verifier::opaque]
    pub open spec fn resolution_drained(self, terminal: bool) -> (RiskEngine, Result<
        (),
        RiskError,
    >) {
        let (e, r) = self.drain_if_held(Side::Long, terminal);
        if r is Err {
            (e, r)
        } else {
            let (e2, r2) = e.drain_if_held(Side::Short, terminal);
            if r2 is Err {
                (e2, r2)
            } else {
                let e3 = e2.with_ready_sides();
                (e3, e3.public_post())
            }
        }
    }

    fn drain_resolution(&mut self, terminal: bool) -> (r: Result<(), RiskError>)
        ensures
            (*final(self), r) == old(self).resolution_drained(terminal),
            r is Ok ==> final(self).public_post() is Ok,
    {
        reveal(RiskEngine::resolution_drained);
        self.drain_held_side(Side::Long, terminal)?;
        self.drain_held_side(Side::Short, terminal)?;
        self.maybe_finalize_ready_reset_sides();
        self.assert_public_postconditions()
    }

    /// Settles an accrued market at a price.
    #[verifier::opaque]
    pub open spec fn settled_at(self, resolved_price: u64, live_price: u64, now_slot: u64) -> (
        RiskEngine,
        Result<(), RiskError>,
    ) {
        let diff = resolved_price - live_price;
        match self.terminal_shift(Side::Long, diff) {
            Err(err) => (self, Err(err)),
            Ok(long) => match self.terminal_shift(Side::Short, -diff) {
                Err(err) => (self, Err(err)),
                Ok(short) => self.with_resolution(
                    resolved_price,
                    live_price,
                    now_slot,
                    long,
                    short,
                ).resolution_drained(false),
            },
        }
    }

    /// What a settlement of the market accepts.
    pub open spec fn resolve_gate(self, resolved_price: u64, live_price: u64, now_slot: u64)
        -> Result<(), RiskError> {
        if self.market_mode != MarketMode::Live {
            Err(RiskError::Unauthorized)
        } else if self.active_close_present != 0 {
            Err(RiskError::RecoveryRequired)
        } else if now_slot < self.current_slot || now_slot < self.last_market_slot || resolved_price
            == 0 || resolved_price > MAX_ORACLE_PRICE || live_price == 0 || live_price
            > MAX_ORACLE_PRICE {
            Err(RiskError::Overflow)
        } else {
            Ok(())
        }
    }

    /// Whether a settlement price is within the band around the last price.
    pub open spec fn within_band(self, resolved_price: u64) -> bool {
        self.price_distance(resolved_price) * 10_000 <= self.params.resolve_price_deviation_bps
            * self.last_oracle_price
    }

    fn is_within_band(&self, resolved_price: u64) -> (r: bool)
        ensures
            r == self.within_band(resolved_price),
    {
        let diff_abs: u128 = if resolved_price >= self.last_oracle_price {
            (resolved_price - self.last_oracle_price) as u128
        } else {
            (self.last_oracle_price - resolved_price) as u128
        };
        let dev: u64 = self.params.resolve_price_deviation_bps;
        let p_last: u64 = self.last_oracle_price;
        assert(0 <= dev * p_last <= u64::MAX * u64::MAX) by (nonlinear_arith)
            requires
                0 <= dev <= u64::MAX,
                0 <= p_last <= u64::MAX,
        ;
        diff_abs * 10_000 <= dev as u128 * p_last as u128
    }

    /// Settles the market.
    #[verifier::opaque]
    pub open spec fn resolve_market_spec(
        self,
        mode: ResolveMode,
        resolved_price: u64,
        live_price: u64,
        now_slot: u64,
        funding_rate_e9: i128,
    ) -> (RiskEngine, Result<(), RiskError>) {
        let gate = self.resolve_gate(resolved_price, live_price, now_slot);
        if gate is Err {
            (self, gate)
        } else {
            match mode {
                ResolveMode::Degenerate => if live_price != self.last_oracle_price
                    || funding_rate_e9 != 0 {
                    (self, Err(RiskError::Overflow))
                } else {
                    RiskEngine {
                        current_slot: now_slot,
                        last_market_slot: now_slot,
                        ..self
                    }.settled_at(resolved_price, live_price, now_slot)
                },
                ResolveMode::Ordinary => {
                    let (e, r) = self.accrue_market_to_spec(now_slot, live_price, funding_rate_e9);
                    if r is Err {
                        (e, r)
                    } else if !e.within_band(resolved_price) {
                        (e, Err(RiskError::Overflow))
                    } else {
                        e.settled_at(resolved_price, live_price, now_slot)
                    }
                },
            }
        }
    }

    /// Settles the market at a price. The ordinary mode accrues up to the present
    /// slot and holds the price to the band around the live one.
    pub fn resolve_market_not_atomic(
        &mut self,
        resolve_mode: ResolveMode,
        resolved_price: u64,
        live_oracle_price: u64,
        now_slot: u64,
        funding_rate_e9: i128,
    ) -> (r: Result<(), RiskError>)
        ensures
            (*final(self), r) == old(self).resolve_market_spec(
                resolve_mode,
                resolved_price,
                live_oracle_price,
                now_slot,
                funding_rate_e9,
            ),
            r is Ok ==> final(self).public_post() is Ok,
    {
        reveal(RiskEngine::resolve_market_spec);
        if self.market_mode != MarketMode::Live {
            return Err(RiskError::Unauthorized);
        }
        self.ensure_no_active_bankrupt_close()?;
        if now_slot < self.current_slot {
            return Err(RiskError::Overflow);
        }
        if now_slot < self.last_market_slot {
            return Err(RiskError::Overflow);
        }
        if resolved_price == 0 || resolved_price > MAX_ORACLE_PRICE {
            return Err(RiskError::Overflow);
        }
        if live_oracle_price == 0 || live_oracle_price > MAX_ORACLE_PRICE {
            return Err(RiskError::Overflow);
        }
        match resolve_mode {
            ResolveMode::Degenerate => {
                if live_oracle_price != self.last_oracle_price {
                    return Err(RiskError::Overflow);
                }
                if funding_rate_e9 != 0 {
                    return Err(RiskError::Overflow);
                }
                self.current_slot = now_slot;
                self.last_market_slot = now_slot;
            },
            ResolveMode::Ordinary => {
                self.accrue_market_to(now_slot, live_oracle_price, funding_rate_e9)?;
                if !self.is_within_band(resolved_price) {
                    return Err(RiskError::Overflow);
                }
            },
        }
        self.settle_market_at(resolved_price, live_oracle_price, now_slot)
    }

    fn settle_market_at(&mut self, resolved_price: u64, live_price: u64, now_slot: u64) -> (r:
        Result<(), RiskError>)
        ensures
            (*final(self), r) == old(self).settled_at(resolved_price, live_price, now_slot),
            r is Ok ==> final(self).public_post() is Ok,
    {
        reveal(RiskEngine::settled_at);
        let price_diff: i128 = resolved_price as i128 - live_price as i128;
        let k_long: i128 = self.compute_terminal_shift(Side::Long, price_diff)?;
        let k_short: i128 = self.compute_terminal_shift(Side::Short, -price_diff)?;
        self.enter_resolution(resolved_price, live_price, now_slot, k_long, k_short);
        self.drain_resolution(false)
    }

    /// Settles a market of which a counter or an epoch cannot advance, at its last
    /// price.
    #[verifier::opaque]
    pub open spec fn resolve_exhausted_spec(self, now_slot: u64) -> (RiskEngine, Result<
        (),
        RiskError,
    >) {
        let p_last = self.last_oracle_price;
        if self.market_mode != MarketMode::Live {
            (self, Err(RiskError::Unauthorized))
        } else if self.active_close_present != 0 {
            (self, Err(RiskError::RecoveryRequired))
        } else if now_slot < self.current_slot || now_slot < self.last_market_slot {
            (self, Err(RiskError::Overflow))
        } else if p_last == 0 || p_last > MAX_ORACLE_PRICE {
            (self, Err(RiskError::CorruptState))
        } else {
            RiskEngine { last_market_slot: now_slot, ..self }.with_resolution(
                p_last,
                p_last,
                now_slot,
                0,
                0,
            ).resolution_drained(true)
        }
    }

    /// Settles a market of which a counter or an epoch cannot advance, at its last
    /// price.
    pub fn resolve_counter_or_epoch_overflow_recovery_not_atomic(&mut self, now_slot: u64) -> (r:
        Result<(), RiskError>)
        ensures
            (*final(self), r) == old(self).resolve_exhausted_spec(now_slot),
            r is Ok ==> final(self).public_post() is Ok,
    {
        reveal(RiskEngine::resolve_exhausted_spec);
        if self.market_mode != MarketMode::Live {
            return Err(RiskError::Unauthorized);
        }
        self.ensure_no_active_bankrupt_close()?;
        if now_slot < self.current_slot || now_slot < self.last_market_slot {
            return Err(RiskError::Overflow);
        }
        let p_last: u64 = self.last_oracle_price;
        if p_last == 0 || p_last > MAX_ORACLE_PRICE {
            return Err(RiskError::CorruptState);
        }
        self.last_market_slot = now_slot;
        self.enter_resolution(p_last, p_last, now_slot, 0, 0);
        self.drain_resolution(true)
    }

    /// Index `K` at which the positions of a side settle for good.
    pub open spec fn terminal_k(self, side: Side) -> int {
        self.get_k_epoch_start(side) + match side {
            Side::Long => self.resolved_k_long_terminal_delta,
            Side::Short => self.resolved_k_short_terminal_delta,
        }
    }

    /// Profit of account `i` once its position has settled for good.
    pub open spec fn terminal_pnl(self, i: int) -> Result<i128, RiskError> {
        let a = self.accounts@[i];
        let side = crate::sides::some_side(a.position_basis_q);
        let den = a.adl_a_basis * POS_SCALE;
        if a.adl_a_basis == 0 {
            Err(RiskError::CorruptState)
        } else if den > u128::MAX {
            Err(RiskError::Overflow)
        } else if a.adl_epoch_snap + 1 != self.get_epoch_side(side) || self.get_stale_count(side)
            == 0 {
            Err(RiskError::CorruptState)
        } else {
            match RiskEngine::kf_pnl_delta_checked(
                crate::wide_math::abs_int(a.position_basis_q as int),
                self.terminal_k(side) - a.adl_k_snap,
                self.get_f_epoch_start(side) - a.f_snap,
                den,
            ) {
                Err(err) => Err(err),
                Ok(delta) => RiskEngine::to_non_min_i128(a.pnl + delta),
            }
        }
    }

    fn compute_terminal_pnl(&self, idx: usize, side: Side) -> (r: Result<i128, RiskError>)
        requires
            idx < MAX_ACCOUNTS,
            self.accounts@[idx as int].position_basis_q != 0,
            side == crate::sides::some_side(self.accounts@[idx as int].position_basis_q),
        ensures
            r == self.terminal_pnl(idx as int),
    {
        let a = &self.accounts[idx];
        if a.adl_a_basis == 0 {
            return Err(RiskError::CorruptState);
        }
        let den: u128 = a.adl_a_basis.checked_mul(POS_SCALE).ok_or(RiskError::Overflow)?;
        if a.adl_epoch_snap == u64::MAX || a.adl_epoch_snap + 1 != self.get_epoch_side(side) {
            return Err(RiskError::CorruptState);
        }
        if self.get_stale_count(side) == 0 {
            return Err(RiskError::CorruptState);
        }
        let shift: i128 = match side {
            Side::Long => self.resolved_k_long_terminal_delta,
            Side::Short => self.resolved_k_short_terminal_delta,
        };
        let k_terminal = I256::from_i128(self.get_k_epoch_start(side)).checked_add(
            I256::from_i128(shift),
        ).unwrap();
        let f_end = I256::from_i128(self.get_f_epoch_start(side));
        let pnl_delta: i128 = Self::compute_kf_pnl_delta_wide(
            abs_i128(a.position_basis_q),
            a.adl_k_snap,
            k_terminal,
            a.f_snap,
            f_end,
            den,
        )?;
        let new_pnl: i128 = a.pnl.checked_add(pnl_delta).ok_or(RiskError::Overflow)?;
        if new_pnl == i128::MIN {
            return Err(RiskError::Overflow);
        }
        Ok(new_pnl)
    }

    /// Settles the position of account `i` for good and removes it.
    #[verifier::opaque]
    pub open spec fn position_reconciled(self, i: int) -> (RiskEngine, Result<(), RiskError>) {
        let a = self.accounts@[i];
        let side = crate::sides::some_side(a.position_basis_q);
        if a.position_basis_q == 0 {
            (self, Ok(()))
        } else {
            match self.terminal_pnl(i) {
                Err(err) => (self, Err(err)),
                Ok(pnl) => {
                    let (e, r) = if pnl != a.pnl {
                        let (e1, r1) = self.set_pnl_spec(i, pnl);
                        if r1 is Err {
                            (e1, r1)
                        } else {
                            (RiskEngine { pnl_matured_pos_tot: e1.pnl_pos_tot, ..e1 }, r1)
                        }
                    } else {
                        (self, Ok(()))
                    };
                    if r is Err {
                        (e, r)
                    } else {
                        e.with_stale_count(
                            side,
                            (self.get_stale_count(side) - 1) as u64,
                        ).clear_position_basis_q_spec(i)
                    }
                },
            }
        }
    }

    fn reconcile_position(&mut self, idx: usize) -> (r: Result<(), RiskError>)
        requires
            idx < MAX_ACCOUNTS,
        ensures
            (*final(self), r) == old(self).position_reconciled(idx as int),
    {
        reveal(RiskEngine::position_reconciled);
        let side = match side_of_i128(self.accounts[idx].position_basis_q) {
            None => return Ok(()),
            Some(s) => s,
        };
        let new_pnl: i128 = self.compute_terminal_pnl(idx, side)?;
        let stale: u64 = self.get_stale_count(side);
        if new_pnl != self.accounts[idx].pnl {
            self.set_pnl(idx, new_pnl)?;
            self.pnl_matured_pos_tot = self.pnl_pos_tot;
        }
        self.set_stale_count(side, stale - 1);
        self.clear_position_basis_q(idx)
    }

    /// What an instruction on an account of a settled market accepts.
    pub open spec fn resolved_gate(self, i: int) -> Result<(), RiskError> {
        if self.market_mode != MarketMode::Resolved {
            Err(RiskError::Unauthorized)
        } else if self.validate_shape_spec(i) is Err {
            self.validate_shape_spec(i)
        } else if self.current_slot != self.resolved_slot {
            Err(RiskError::CorruptState)
        } else {
            Ok(())
        }
    }

    fn validate_resolved_gate(&self, idx: usize) -> (r: Result<(), RiskError>)
        ensures
            r == self.resolved_gate(idx as int),
    {
        if self.market_mode != MarketMode::Resolved {
            return Err(RiskError::Unauthorized);
        }
        self.validate_touched_account_shape(idx)?;
        if self.current_slot != self.resolved_slot {
            return Err(RiskError::CorruptState);
        }
        Ok(())
    }

    /// The engine with the reserve of account `i` released.
    pub open spec fn with_reserve_released(self, i: int) -> RiskEngine {
        self.with_account(i, self.accounts@[i].without_reserve())
    }

    /// Reconciles account `i` of a settled market.
    #[verifier::opaque]
    pub open spec fn reconcile_spec(self, i: int) -> (RiskEngine, Result<(), RiskError>) {
        let gate = self.resolved_gate(i);
        if gate is Err {
            (self, gate)
        } else {
            let (e, r) = self.with_reserve_released(i).position_reconciled(i);
            if r is Err {
                (e, r)
            } else {
                let (e2, _, r2) = e.settle_losses_spec(i, None);
                if r2 is Err {
                    (e2, r2)
                } else {
                    let (e3, _, r3) = e2.resolve_flat_negative_spec(i, None);
                    if r3 is Err {
                        (e3, r3)
                    } else {
                        let e4 = e3.with_ready_sides();
                        (e4, e4.public_post())
                    }
                }
            }
        }
    }

    /// Reconciles an account of a settled market: its position settles for good, and
    /// its losses are paid or taken over.
    pub fn reconcile_resolved_not_atomic(&mut self, idx: u16) -> (r: Result<(), RiskError>)
        ensures
            (*final(self), r) == old(self).reconcile_spec(idx as int),
            r is Ok ==> final(self).public_post() is Ok,
    {
        reveal(RiskEngine::reconcile_spec);
        let i: usize = idx as usize;
        self.validate_resolved_gate(i)?;
        self.prepare_account_for_resolved_touch(i);
        self.reconcile_position(i)?;
        self.settle_losses(i)?;
        self.resolve_flat_negative(i)?;
        self.maybe_finalize_ready_reset_sides();
        self.assert_public_postconditions()
    }

    /// Whether profit of a settled market can be paid out: no position, no stale
    /// account and no loss is left.
    #[verifier::allow_in_spec]
    pub fn is_terminal_ready(&self) -> bool
        returns
            self.stored_pos_count_long == 0 && self.stored_pos_count_short == 0
                && self.stale_account_count_long == 0 && self.stale_account_count_short == 0
                && self.neg_pnl_account_count == 0,
    {
        if self.stored_pos_count_long != 0 || self.stored_pos_count_short != 0 {
            return false;
        }
        if self.stale_account_count_long != 0 || self.stale_account_count_short != 0 {
            return false;
        }
        if self.neg_pnl_account_count != 0 {
            return false;
        }
        true
    }

    /// The engine with the payout ratio locked: that of the first payout holds for
    /// all.
    pub open spec fn with_payout_locked(self) -> RiskEngine {
        if self.resolved_payout_ready != 0 {
            self
        } else {
            RiskEngine {
                pnl_matured_pos_tot: self.pnl_pos_tot,
                resolved_payout_h_num: crate::wide_math::min_int(
                    self.residual(),
                    self.pnl_pos_tot as int,
                ) as u128,
                resolved_payout_h_den: self.pnl_pos_tot,
                resolved_payout_ready: 1,
                ..self
            }
        }
    }

    fn lock_payout(&mut self)
        ensures
            *final(self) == old(self).with_payout_locked(),
    {
        if self.resolved_payout_ready == 0 {
            let residual: u128 = self.residual_or_zero();
            self.pnl_matured_pos_tot = self.pnl_pos_tot;
            let h_den: u128 = self.pnl_matured_pos_tot;
            let h_num: u128 = min_u128(residual, h_den);
            self.resolved_payout_h_num = h_num;
            self.resolved_payout_h_den = h_den;
            self.resolved_payout_ready = 1;
        }
    }

    /// Profit after the locked payout ratio, rounded down.
    pub open spec fn payout_of(self, profit: int) -> int {
        profit * self.resolved_payout_h_num / (self.resolved_payout_h_den as int)
    }

    /// Turns the profit of account `i` to capital at the locked payout ratio.
    pub open spec fn profit_paid_locked(self, i: int) -> (RiskEngine, Result<(), RiskError>) {
        match self.released_pos_spec(i, false) {
            Err(err) => (self, Err(err)),
            Ok(released) => if released == 0 {
                (self, Ok(()))
            } else if self.resolved_payout_h_den == 0 {
                (self, Err(RiskError::CorruptState))
            } else if self.payout_of(released as int) > u128::MAX {
                (self, Err(RiskError::Overflow))
            } else {
                let (e, _, r) = self.set_pnl_with_reserve_spec(
                    i,
                    0,
                    ReserveMode::NoPositiveIncreaseAllowed,
                    None,
                );
                let cap = e.accounts@[i].capital.get() + self.payout_of(released as int);
                if r is Err {
                    (e, r)
                } else if cap > u128::MAX {
                    (e, Err(RiskError::Overflow))
                } else {
                    e.set_capital_spec(i, cap as u128)
                }
            },
        }
    }

    /// Turns the profit of account `i` to capital at the payout ratio.
    #[verifier::opaque]
    pub open spec fn profit_paid(self, i: int) -> (RiskEngine, Result<(), RiskError>) {
        if self.accounts@[i].pnl <= 0 {
            (self, Ok(()))
        } else {
            let e = self.with_payout_locked();
            if e.accounts@[i].reserved_pnl != 0 {
                (e, Err(RiskError::CorruptState))
            } else {
                e.profit_paid_locked(i)
            }
        }
    }

    fn pay_profit(&mut self, idx: usize) -> (r: Result<(), RiskError>)
        requires
            idx < MAX_ACCOUNTS,
        ensures
            (*final(self), r) == old(self).profit_paid(idx as int),
    {
        reveal(RiskEngine::profit_paid);
        if self.accounts[idx].pnl <= 0 {
            return Ok(());
        }
        self.lock_payout();
        if self.accounts[idx].reserved_pnl != 0 {
            return Err(RiskError::CorruptState);
        }
        let released: u128 = self.released_pos_checked(idx, false)?;
        if released > 0 {
            if self.resolved_payout_h_den == 0 {
                return Err(RiskError::CorruptState);
            }
            let (y_wide, _) = div_rem_u256(
                widening_mul(released, self.resolved_payout_h_num),
                U256::from_u128(self.resolved_payout_h_den),
            );
            let y: u128 = y_wide.try_into_u128().ok_or(RiskError::Overflow)?;
            self.set_pnl_with_reserve(idx, 0, ReserveMode::NoPositiveIncreaseAllowed, None)?;
            let new_cap: u128 = self.accounts[idx].capital.get().checked_add(y).ok_or(
                RiskError::Overflow,
            )?;
            self.set_capital(idx, new_cap)?;
        }
        Ok(())
    }

    /// The engine with the fee debt of account `i` forgiven.
    pub open spec fn with_debt_forgiven(self, i: int) -> RiskEngine {
        if self.accounts@[i].fee_credits.get() < 0 {
            self.with_fee_credits(i, 0)
        } else {
            self
        }
    }

    /// Forgives the fee debt of an account.
    pub fn forgive_debt(&mut self, idx: usize)
        requires
            idx < MAX_ACCOUNTS,
        ensures
            *final(self) == old(self).with_debt_forgiven(idx as int),
    {
        if self.accounts[idx].fee_credits.get() < 0 {
            self.accounts[idx].fee_credits = I128::new(0);
        }
    }

    /// Sweeps fee debt, forgives the rest, pays out the capital of an account, and
    /// frees its slot.
    #[verifier::opaque]
    pub open spec fn terminal_released(self, idx: u16) -> (RiskEngine, Result<u128, RiskError>) {
        let i = idx as int;
        let (e, r) = self.fee_debt_sweep_spec(i);
        if r is Err {
            (e, Err(r->Err_0))
        } else if e.validate_fee_credits_shape_spec(i) is Err {
            (e, Err(e.validate_fee_credits_shape_spec(i)->Err_0))
        } else {
            let e2 = e.with_debt_forgiven(i);
            let capital = e2.accounts@[i].capital.get();
            if capital > e2.vault.get() {
                (e2, Err(RiskError::InsufficientBalance))
            } else {
                let (e3, r3) = RiskEngine {
                    vault: U128((e2.vault.get() - capital) as u128),
                    ..e2
                }.set_capital_spec(i, 0);
                if r3 is Err {
                    (e3, Err(r3->Err_0))
                } else {
                    let (e4, r4) = e3.release_slot(idx);
                    match r4 {
                        Err(err) => (e4, Err(err)),
                        Ok(_) => (e4, Ok(capital)),
                    }
                }
            }
        }
    }

    fn release_terminal(&mut self, idx: u16) -> (r: Result<u128, RiskError>)
        requires
            idx < MAX_ACCOUNTS,
        ensures
            (*final(self), r) == old(self).terminal_released(idx),
            r is Ok ==> final(self).public_post() is Ok,
    {
        reveal(RiskEngine::terminal_released);
        let i: usize = idx as usize;
        self.fee_debt_sweep(i)?;
        self.validate_fee_credits_shape(i)?;
        self.forgive_debt(i);
        let capital: u128 = self.accounts[i].capital.get();
        if capital > self.vault.get() {
            return Err(RiskError::InsufficientBalance);
        }
        self.vault = U128::new(self.vault.get() - capital);
        self.set_capital(i, 0)?;
        self.release_account_slot(idx)?;
        Ok(capital)
    }

    /// What the terminal close of account `i` accepts: it is reconciled, and profit
    /// can be paid out.
    pub open spec fn terminal_gate(self, i: int) -> Result<(), RiskError> {
        let a = self.accounts@[i];
        if self.resolved_gate(i) is Err {
            self.resolved_gate(i)
        } else if a.position_basis_q != 0 || a.pnl < 0 {
            Err(RiskError::Undercollateralized)
        } else if a.pnl > 0 && !self.is_terminal_ready() {
            Err(RiskError::Unauthorized)
        } else {
            Ok(())
        }
    }

    fn validate_terminal_gate(&self, idx: usize) -> (r: Result<(), RiskError>)
        ensures
            r == self.terminal_gate(idx as int),
    {
        self.validate_resolved_gate(idx)?;
        if self.accounts[idx].position_basis_q != 0 {
            return Err(RiskError::Undercollateralized);
        }
        if self.accounts[idx].pnl < 0 {
            return Err(RiskError::Undercollateralized);
        }
        if self.accounts[idx].pnl > 0 && !self.is_terminal_ready() {
            return Err(RiskError::Unauthorized);
        }
        Ok(())
    }

    /// The terminal close of an account that may be closed.
    pub open spec fn terminal_closed(self, idx: u16) -> (RiskEngine, Result<u128, RiskError>) {
        let (e, r) = self.with_reserve_released(idx as int).profit_paid(idx as int);
        if r is Err {
            (e, Err(r->Err_0))
        } else {
            e.terminal_released(idx)
        }
    }

    fn close_terminal(&mut self, idx: u16) -> (r: Result<u128, RiskError>)
        requires
            idx < MAX_ACCOUNTS,
        ensures
            (*final(self), r) == old(self).terminal_closed(idx),
            r is Ok ==> final(self).public_post() is Ok,
    {
        let i: usize = idx as usize;
        self.prepare_account_for_resolved_touch(i);
        self.pay_profit(i)?;
        self.release_terminal(idx)
    }

    /// Closes a reconciled account of a settled market and pays it out.
    #[verifier::opaque]
    pub open spec fn close_terminal_spec(self, idx: u16) -> (RiskEngine, Result<u128, RiskError>) {
        let gate = self.terminal_gate(idx as int);
        if gate is Err {
            (self, Err(gate->Err_0))
        } else {
            self.terminal_closed(idx)
        }
    }

    /// Closes a reconciled account of a settled market and pays it out. Gives the
    /// amount. Fee debt that its capital cannot pay is forgiven.
    pub fn close_resolved_terminal_not_atomic(&mut self, idx: u16) -> (r: Result<u128, RiskError>)
        ensures
            (*final(self), r) == old(self).close_terminal_spec(idx),
            r is Ok ==> final(self).public_post() is Ok,
    {
        reveal(RiskEngine::close_terminal_spec);
        self.validate_terminal_gate(idx as usize)?;
        self.close_terminal(idx)
    }

    /// The terminal close of an account that may be closed, with recurring fees up
    /// to the slot of the settlement.
    pub open spec fn terminal_closed_with_fee(self, idx: u16, rate: u128) -> (RiskEngine, Result<
        u128,
        RiskError,
    >) {
        let (e, r) = self.sync_fee_spec(idx as int, self.resolved_slot, rate);
        if r is Err {
            (e, Err(r->Err_0))
        } else {
            e.terminal_closed(idx)
        }
    }

    fn close_terminal_with_fee(&mut self, idx: u16, fee_rate_per_slot: u128) -> (r: Result<
        u128,
        RiskError,
    >)
        requires
            idx < MAX_ACCOUNTS,
        ensures
            (*final(self), r) == old(self).terminal_closed_with_fee(idx, fee_rate_per_slot),
            r is Ok ==> final(self).public_post() is Ok,
    {
        let anchor: u64 = self.resolved_slot;
        self.sync_account_fee_to_slot(idx as usize, anchor, fee_rate_per_slot)?;
        self.close_terminal(idx)
    }

    /// As `close_terminal_spec`, with recurring fees up to the slot of the
    /// settlement, and all or nothing.
    #[verifier::opaque]
    pub open spec fn close_terminal_with_fee_spec(self, idx: u16, rate: u128) -> (
        RiskEngine,
        Result<u128, RiskError>,
    ) {
        let gate = self.terminal_gate(idx as int);
        if gate is Err {
            (self, Err(gate->Err_0))
        } else {
            let (e, r) = self.terminal_closed_with_fee(idx, rate);
            if r is Err {
                (self, r)
            } else {
                (e, r)
            }
        }
    }

    /// As `close_resolved_terminal_not_atomic`, with recurring fees up to the slot of
    /// the settlement. A refusal leaves the engine as it is.
    pub fn close_resolved_terminal_with_fee_not_atomic(
        &mut self,
        idx: u16,
        fee_rate_per_slot: u128,
    ) -> (r: Result<u128, RiskError>)
        ensures
            (*final(self), r) == old(self).close_terminal_with_fee_spec(idx, fee_rate_per_slot),
            r is Err ==> *final(self) == *old(self),
            r is Ok ==> final(self).public_post() is Ok,
    {
        reveal(RiskEngine::close_terminal_with_fee_spec);
        self.validate_terminal_gate(idx as usize)?;
        let before = self.snapshot();
        let res = self.close_terminal_with_fee(idx, fee_rate_per_slot);
        if res.is_err() {
            *self = before;
        }
        res
    }

    /// Closes a reconciled account if that is due: one with a position left, or with
    /// profit that cannot be paid out yet, stays open.
    pub open spec fn close_if_due(self, idx: u16) -> (RiskEngine, Result<
        ResolvedCloseResult,
        RiskError,
    >) {
        match self.public_post() {
            Err(err) => (self, Err(err)),
            Ok(_) => if self.accounts@[idx as int].pnl > 0 && !self.is_terminal_ready() {
                (self, Ok(ResolvedCloseResult::ProgressOnly))
            } else {
                let (e, r) = self.close_terminal_spec(idx);
                match r {
                    Err(err) => (e, Err(err)),
                    Ok(capital) => (e, Ok(ResolvedCloseResult::Closed(capital))),
                }
            },
        }
    }

    fn close_account_if_due(&mut self, idx: u16) -> (r: Result<ResolvedCloseResult, RiskError>)
        requires
            idx < MAX_ACCOUNTS,
        ensures
            (*final(self), r) == old(self).close_if_due(idx),
            r is Ok ==> final(self).public_post() is Ok,
    {
        self.assert_public_postconditions()?;
        if self.accounts[idx as usize].pnl > 0 && !self.is_terminal_ready() {
            return Ok(ResolvedCloseResult::ProgressOnly);
        }
        let capital: u128 = self.close_resolved_terminal_not_atomic(idx)?;
        Ok(ResolvedCloseResult::Closed(capital))
    }

    /// Reconciles an account of a settled market and closes it if that is due, with
    /// recurring fees at a rate if there is one.
    #[verifier::opaque]
    pub open spec fn force_close_spec(self, idx: u16, rate: Option<u128>) -> (RiskEngine, Result<
        ResolvedCloseResult,
        RiskError,
    >) {
        let i = idx as int;
        let (e, r) = self.reconcile_spec(i);
        if r is Err {
            (e, Err(r->Err_0))
        } else {
            let e2 = e.with_ready_sides();
            if e2.accounts@[i].position_basis_q != 0 {
                (e2, Ok(ResolvedCloseResult::ProgressOnly))
            } else {
                match rate {
                    None => e2.close_if_due(idx),
                    Some(fee_rate) => {
                        let (e3, r3) = e2.sync_fee_spec(i, e2.resolved_slot, fee_rate);
                        if r3 is Err {
                            (e3, Err(r3->Err_0))
                        } else {
                            e3.close_if_due(idx)
                        }
                    },
                }
            }
        }
    }

    /// Reconciles an account of a settled market and closes it if that is due.
    pub fn force_close_resolved_not_atomic(&mut self, idx: u16) -> (r: Result<
        ResolvedCloseResult,
        RiskError,
    >)
        ensures
            (*final(self), r) == old(self).force_close_spec(idx, None),
            r is Ok ==> final(self).public_post() is Ok,
    {
        reveal(RiskEngine::force_close_spec);
        let ghost before = *self;
        self.reconcile_resolved_not_atomic(idx)?;
        proof {
            lemma_reconciled(before, idx as int);
        }
        self.maybe_finalize_ready_reset_sides();
        if self.accounts[idx as usize].position_basis_q != 0 {
            return Ok(ResolvedCloseResult::ProgressOnly);
        }
        self.close_account_if_due(idx)
    }

    /// As `force_close_resolved_not_atomic`, with recurring fees up to the slot of
    /// the settlement.
    pub fn force_close_resolved_with_fee_not_atomic(
        &mut self,
        idx: u16,
        fee_rate_per_slot: u128,
    ) -> (r: Result<ResolvedCloseResult, RiskError>)
        ensures
            (*final(self), r) == old(self).force_close_spec(idx, Some(fee_rate_per_slot)),
            r is Ok ==> final(self).public_post() is Ok,
    {
        reveal(RiskEngine::force_close_spec);
        let ghost before = *self;
        self.reconcile_resolved_not_atomic(idx)?;
        proof {
            lemma_reconciled(before, idx as int);
        }
        self.maybe_finalize_ready_reset_sides();
        if self.accounts[idx as usize].position_basis_q != 0 {
            return Ok(ResolvedCloseResult::ProgressOnly);
        }
        let anchor: u64 = self.resolved_slot;
        self.sync_account_fee_to_slot(idx as usize, anchor, fee_rate_per_slot)?;
        self.close_account_if_due(idx)
    }

    /// Slot behind `cursor`, the first one at the bound.
    pub open spec fn next_cursor(cursor: int, wrap_bound: u64) -> int {
        if cursor + 1 >= wrap_bound {
            0
        } else {
            cursor + 1
        }
    }

    /// The engine with the cursor of the sweep replaced, and what holds of every
    /// state.
    pub open spec fn cursor_stored(self, cursor: int, result: ResolvedCloseResult) -> (
        RiskEngine,
        Result<ResolvedCloseResult, RiskError>,
    ) {
        let e = RiskEngine { rr_cursor_position: cursor as u64, ..self };
        match e.public_post() {
            Err(err) => (e, Err(err)),
            Ok(_) => (e, Ok(result)),
        }
    }

    /// Goes through up to `left` slots from `cursor` on and closes the first account
    /// in use.
    pub open spec fn cursor_close(self, cursor: int, left: int, wrap_bound: u64, rate: u128) -> (
        RiskEngine,
        Result<ResolvedCloseResult, RiskError>,
    )
        decreases left,
    {
        let next = RiskEngine::next_cursor(cursor, wrap_bound);
        if left <= 0 {
            self.cursor_stored(cursor, ResolvedCloseResult::ProgressOnly)
        } else if self.slot_used(cursor) {
            let (e, r) = self.force_close_spec(cursor as u16, Some(rate));
            match r {
                Err(err) => (e, Err(err)),
                Ok(result) => e.cursor_stored(next, result),
            }
        } else {
            self.cursor_close(next, left - 1, wrap_bound, rate)
        }
    }

    /// Closes the next account of a settled market.
    #[verifier::opaque]
    pub open spec fn force_close_cursor_spec(self, scan_limit: u64, rate: u128) -> (
        RiskEngine,
        Result<ResolvedCloseResult, RiskError>,
    ) {
        if self.market_mode != MarketMode::Resolved {
            (self, Err(RiskError::Unauthorized))
        } else if scan_limit == 0 {
            (self, Err(RiskError::Overflow))
        } else if self.public_post() is Err {
            (self, Err(self.public_post()->Err_0))
        } else {
            self.cursor_close(
                self.rr_cursor_position as int,
                crate::wide_math::min_int(scan_limit as int, self.params.max_accounts as int),
                self.params.max_accounts,
                rate,
            )
        }
    }

    /// Goes through slots of a settled market from its cursor on, and reconciles and
    /// closes the first account in use.
    pub fn force_close_resolved_cursor_with_fee_not_atomic(
        &mut self,
        scan_limit: u64,
        fee_rate_per_slot: u128,
    ) -> (r: Result<ResolvedCloseResult, RiskError>)
        ensures
            (*final(self), r) == old(self).force_close_cursor_spec(scan_limit, fee_rate_per_slot),
            r is Ok ==> final(self).public_post() is Ok,
    {
        reveal(RiskEngine::force_close_cursor_spec);
        if self.market_mode != MarketMode::Resolved {
            return Err(RiskError::Unauthorized);
        }
        if scan_limit == 0 {
            return Err(RiskError::Overflow);
        }
        self.assert_public_postconditions()?;
        assert(self.rr_cursor_position < self.params.max_accounts) by {
            reveal(RiskEngine::public_post);
        }
        let wrap_bound: u64 = self.params.max_accounts;
        let scan_cap: u64 = min_u64(scan_limit, wrap_bound);
        let cursor_start: u64 = self.rr_cursor_position;
        self.close_next_from(cursor_start, scan_cap, wrap_bound, fee_rate_per_slot)
    }

    fn close_next_from(
        &mut self,
        cursor_start: u64,
        scan_cap: u64,
        wrap_bound: u64,
        fee_rate_per_slot: u128,
    ) -> (r: Result<ResolvedCloseResult, RiskError>)
        requires
            cursor_start < wrap_bound,
        ensures
            (*final(self), r) == old(self).cursor_close(
                cursor_start as int,
                scan_cap as int,
                wrap_bound,
                fee_rate_per_slot,
            ),
            r is Ok ==> final(self).public_post() is Ok,
    {
        let mut cursor: u64 = cursor_start;
        let mut left: u64 = scan_cap;
        while left > 0
            invariant
                cursor < wrap_bound,
                *self == *old(self),
                old(self).cursor_close(
                    cursor_start as int,
                    scan_cap as int,
                    wrap_bound,
                    fee_rate_per_slot,
                ) == self.cursor_close(cursor as int, left as int, wrap_bound, fee_rate_per_slot),
            decreases left,
        {
            let advanced: u64 = cursor + 1;
            let next: u64 = if advanced == wrap_bound {
                0
            } else {
                advanced
            };
            if cursor < MAX_ACCOUNTS as u64 && self.is_used(cursor as usize) {
                let result = self.force_close_resolved_with_fee_not_atomic(
                    cursor as u16,
                    fee_rate_per_slot,
                )?;
                self.rr_cursor_position = next;
                self.assert_public_postconditions()?;
                return Ok(result);
            }
            cursor = next;
            left = left - 1;
        }
        self.rr_cursor_position = cursor;
        self.assert_public_postconditions()?;
        Ok(ResolvedCloseResult::ProgressOnly)
    }

    /// As `force_close_resolved_cursor_with_fee_not_atomic`, without recurring fees.
    pub fn force_close_resolved_cursor_not_atomic(&mut self, scan_limit: u64) -> (r: Result<
        ResolvedCloseResult,
        RiskError,
    >)
        ensures
            (*final(self), r) == old(self).force_close_cursor_spec(scan_limit, 0),
            r is Ok ==> final(self).public_post() is Ok,
    {
        self.force_close_resolved_cursor_with_fee_not_atomic(scan_limit, 0)
    }
}

/// A reconciled account is one of the market, and no side is left to reopen.
pub proof fn lemma_reconciled(e: RiskEngine, i: int)
    requires
        e.reconcile_spec(i).1 is Ok,
    ensures
        0 <= i < MAX_ACCOUNTS,
        e.reconcile_spec(i).0.with_ready_sides() == e.reconcile_spec(i).0,
{
    reveal(RiskEngine::reconcile_spec);
}

} // verus!
