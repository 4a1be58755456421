//! Stress gates: the consumption threshold, the lock after a bankruptcy, and the
//! envelope of sweeps that a market has to complete before the lock is lifted.

use vstd::prelude::*;

use crate::constants::{MAX_ACCOUNTS, NO_SLOT};
use crate::context::InstructionContext;
use crate::types::{MarketMode, RiskEngine, RiskError, Side, SideMode};
use crate::wide_math::min_u64;

verus! {

impl RiskEngine {
    /// Whether the stress consumption has reached the instruction's threshold.
    #[verifier::allow_in_spec]
    pub fn threshold_stress_gate_active(&self, ctx: &InstructionContext) -> bool
        returns
            (match ctx.admit_h_max_consumption_threshold_bps_opt_shared {
                Some(threshold) => self.stress_consumed_bps_e9_since_envelope >= threshold,
                None => false,
            }),
    {
        match ctx.admit_h_max_consumption_threshold_bps_opt_shared {
            Some(threshold) => self.stress_consumed_bps_e9_since_envelope >= threshold,
            None => false,
        }
    }

    /// Whether an exposed live market has yet to accrue to the present slot.
    #[verifier::allow_in_spec]
    pub fn loss_stale_positive_pnl_lock_active(&self) -> bool
        returns
            (self.market_mode == MarketMode::Live && self.last_market_slot < self.current_slot && (
            self.oi_eff_long_q != 0 || self.oi_eff_short_q != 0)),
    {
        self.market_mode == MarketMode::Live && self.last_market_slot < self.current_slot && (
        self.oi_eff_long_q != 0 || self.oi_eff_short_q != 0)
    }

    /// Whether a live market has something to reconcile first.
    #[verifier::allow_in_spec]
    pub fn live_reconciliation_lock_active(&self) -> bool
        returns
            (self.active_close_present != 0 || self.bankruptcy_hmax_lock_active
                || self.stress_consumed_bps_e9_since_envelope != 0 || self.neg_pnl_account_count
                != 0 || self.loss_stale_positive_pnl_lock_active()),
    {
        self.active_close_present != 0 || self.bankruptcy_hmax_lock_active
            || self.stress_consumed_bps_e9_since_envelope != 0 || self.neg_pnl_account_count != 0
            || self.loss_stale_positive_pnl_lock_active()
    }

    /// Whether account `idx` counts towards the loss weights of a side: it is of the
    /// side's epoch, and the side is not in its terminal reset.
    pub fn account_loss_weight_is_counted_in_side_sum(&self, idx: usize, side: Side) -> (r: bool)
        requires
            idx < MAX_ACCOUNTS,
        ensures
            r == ({
                let a = self.accounts@[idx as int];
                &&& a.b_epoch_snap == self.get_epoch_side(side)
                &&& !(self.market_mode == MarketMode::Resolved && self.get_side_mode(side)
                    == SideMode::ResetPending && self.get_epoch_side(side) == u64::MAX
                    && a.adl_epoch_snap == u64::MAX)
            }),
    {
        let account = &self.accounts[idx];
        if account.b_epoch_snap != self.get_epoch_side(side) {
            return false;
        }
        !(self.market_mode == MarketMode::Resolved && self.get_side_mode(side)
            == SideMode::ResetPending && self.get_epoch_side(side) == u64::MAX
            && account.adl_epoch_snap == self.get_epoch_side(side))
    }

    /// Whether stress is real, and not only guarded against.
    #[verifier::allow_in_spec]
    pub fn real_stress_gate_active(&self, ctx: &InstructionContext) -> bool
        returns
            (self.threshold_stress_gate_active(ctx) || self.bankruptcy_hmax_lock_active
                || ctx.bankruptcy_hmax_candidate_active
                || self.loss_stale_positive_pnl_lock_active()),
    {
        self.threshold_stress_gate_active(ctx) || self.bankruptcy_hmax_lock_active
            || ctx.bankruptcy_hmax_candidate_active || self.loss_stale_positive_pnl_lock_active()
    }

    /// Whether positive profit is held back.
    #[verifier::allow_in_spec]
    pub fn stress_gate_active(&self, ctx: &InstructionContext) -> bool
        returns
            (self.real_stress_gate_active(ctx) || ctx.speculative_hmax_guard_active
                || ctx.partial_b_settlement_active),
    {
        self.real_stress_gate_active(ctx) || ctx.speculative_hmax_guard_active
            || ctx.partial_b_settlement_active
    }

    /// Refuses a position change while losses are not up to date.
    pub fn ensure_loss_current_for_position_change(&self) -> (r: Result<(), RiskError>)
        ensures
            r == if self.loss_stale_positive_pnl_lock_active() {
                Err::<(), RiskError>(RiskError::Undercollateralized)
            } else {
                Ok(())
            },
    {
        if self.loss_stale_positive_pnl_lock_active() {
            return Err(RiskError::Undercollateralized);
        }
        Ok(())
    }

    /// The engine with the bankruptcy lock set and the stress envelope started at
    /// the present slot and generation.
    pub open spec fn with_hmax_lock(self) -> RiskEngine {
        RiskEngine {
            bankruptcy_hmax_lock_active: true,
            stress_envelope_remaining_indices: self.params.max_accounts,
            stress_envelope_start_slot: self.current_slot,
            stress_envelope_start_generation: self.sweep_generation,
            ..self
        }
    }

    /// Sets the bankruptcy lock on behalf of an instruction.
    pub open spec fn trigger_bankruptcy_hmax_lock_spec(self, ctx: InstructionContext) -> (
        RiskEngine,
        InstructionContext,
        Result<(), RiskError>,
    ) {
        if ctx.positive_pnl_usability_mutated && !self.real_stress_gate_active(&ctx) {
            (self, ctx, Err(RiskError::Undercollateralized))
        } else {
            (
                self.with_hmax_lock(),
                InstructionContext {
                    bankruptcy_hmax_candidate_active: true,
                    stress_envelope_restarted: true,
                    ..ctx
                },
                Ok(()),
            )
        }
    }

    /// Sets the bankruptcy lock. Refused if the instruction has already used
    /// positive profit with no stress to hold it back.
    pub fn trigger_bankruptcy_hmax_lock(&mut self, ctx: &mut InstructionContext) -> (r: Result<
        (),
        RiskError,
    >)
        ensures
            (*final(self), *final(ctx), r) == old(self).trigger_bankruptcy_hmax_lock_spec(
                *old(ctx),
            ),
            old(ctx).wf() ==> final(ctx).wf(),
    {
        if ctx.positive_pnl_usability_mutated && !self.real_stress_gate_active(ctx) {
            return Err(RiskError::Undercollateralized);
        }
        ctx.bankruptcy_hmax_candidate_active = true;
        ctx.stress_envelope_restarted = true;
        self.trigger_bankruptcy_hmax_lock_without_context();
        Ok(())
    }

    /// Sets the bankruptcy lock outside of an instruction.
    pub fn trigger_bankruptcy_hmax_lock_without_context(&mut self)
        ensures
            *final(self) == old(self).with_hmax_lock(),
    {
        self.bankruptcy_hmax_lock_active = true;
        self.stress_envelope_remaining_indices = self.params.max_accounts;
        self.stress_envelope_start_slot = self.current_slot;
        self.stress_envelope_start_generation = self.sweep_generation;
    }

    /// Counts a completed sweep.
    pub open spec fn advance_sweep_generation_spec(self, now_slot: u64) -> (RiskEngine, Result<
        (),
        RiskError,
    >) {
        if self.sweep_generation == u64::MAX {
            (self, Err(RiskError::Overflow))
        } else {
            (
                RiskEngine {
                    sweep_generation: (self.sweep_generation + 1) as u64,
                    last_sweep_generation_advance_slot: now_slot,
                    ..self
                },
                Ok(()),
            )
        }
    }

    /// Counts a completed sweep.
    pub fn advance_sweep_generation(&mut self, now_slot: u64) -> (r: Result<(), RiskError>)
        ensures
            (*final(self), r) == old(self).advance_sweep_generation_spec(now_slot),
    {
        self.sweep_generation = self.sweep_generation.checked_add(1).ok_or(RiskError::Overflow)?;
        self.last_sweep_generation_advance_slot = now_slot;
        Ok(())
    }

    /// The engine with no stress envelope and no bankruptcy lock.
    pub open spec fn without_stress_envelope(self) -> RiskEngine {
        RiskEngine {
            stress_consumed_bps_e9_since_envelope: 0,
            stress_envelope_remaining_indices: 0,
            stress_envelope_start_slot: NO_SLOT,
            stress_envelope_start_generation: NO_SLOT,
            bankruptcy_hmax_lock_active: false,
            ..self
        }
    }

    /// Lifts the stress envelope and the bankruptcy lock.
    pub fn clear_stress_envelope(&mut self)
        ensures
            *final(self) == old(self).without_stress_envelope(),
    {
        self.stress_consumed_bps_e9_since_envelope = 0;
        self.stress_envelope_remaining_indices = 0;
        self.stress_envelope_start_slot = NO_SLOT;
        self.stress_envelope_start_generation = NO_SLOT;
        self.bankruptcy_hmax_lock_active = false;
    }

    /// Whether a stress envelope is open.
    pub open spec fn envelope_open(self) -> bool {
        self.stress_consumed_bps_e9_since_envelope > 0 || self.bankruptcy_hmax_lock_active
    }

    /// Whether a sweep has completed since the envelope was opened.
    pub open spec fn swept_since_envelope(self) -> bool {
        &&& self.stress_envelope_start_generation != NO_SLOT
        &&& self.sweep_generation > self.stress_envelope_start_generation
        &&& self.last_sweep_generation_advance_slot != NO_SLOT
        &&& self.last_sweep_generation_advance_slot > self.stress_envelope_start_slot
    }

    /// The engine after `counted` more inspections of an open envelope. The envelope
    /// is lifted when none is left, a sweep has completed since, the slot is a later
    /// one, and no bankrupt close is in flight.
    pub open spec fn stress_progress_spec(self, now_slot: u64, counted: u64) -> RiskEngine {
        if !self.envelope_open() || counted == 0 {
            self
        } else {
            let s = RiskEngine {
                stress_envelope_remaining_indices: (self.stress_envelope_remaining_indices
                    - crate::wide_math::min_int(
                    self.stress_envelope_remaining_indices as int,
                    counted as int,
                )) as u64,
                ..self
            };
            if s.stress_envelope_remaining_indices == 0 && self.stress_envelope_start_slot
                != now_slot && self.swept_since_envelope() && self.active_close_present == 0 {
                s.without_stress_envelope()
            } else {
                s
            }
        }
    }

    /// Counts inspections towards an open stress envelope, and lifts it when it is
    /// complete.
    pub fn apply_stress_envelope_progress(&mut self, now_slot: u64, counted_indices: u64) -> (r:
        Result<(), RiskError>)
        ensures
            r is Ok,
            *final(self) == old(self).stress_progress_spec(now_slot, counted_indices),
    {
        let envelope_active: bool = self.stress_consumed_bps_e9_since_envelope > 0
            || self.bankruptcy_hmax_lock_active;
        if !envelope_active || counted_indices == 0 {
            return Ok(());
        }
        let dec: u64 = min_u64(self.stress_envelope_remaining_indices, counted_indices);
        self.stress_envelope_remaining_indices = self.stress_envelope_remaining_indices - dec;
        let generation_after_stress: bool = self.stress_envelope_start_generation != NO_SLOT
            && self.sweep_generation > self.stress_envelope_start_generation
            && self.last_sweep_generation_advance_slot != NO_SLOT
            && self.last_sweep_generation_advance_slot > self.stress_envelope_start_slot;
        if self.stress_envelope_remaining_indices == 0 && self.stress_envelope_start_slot
            != now_slot && generation_after_stress && self.active_close_present == 0 {
            self.clear_stress_envelope();
        }
        Ok(())
    }

    /// What maturing the scheduled bucket of account `i` would release.
    pub open spec fn warmup_release(self, i: int) -> int {
        let a = self.accounts@[i];
        if a.sched_present == 0 || self.current_slot < a.sched_start_slot || a.sched_horizon == 0 {
            0
        } else {
            let total = a.sched_matured(self.current_slot - a.sched_start_slot);
            if total < a.sched_release_q {
                0
            } else {
                crate::wide_math::min_int(a.sched_remaining_q as int, total - a.sched_release_q)
            }
        }
    }

    /// Whether maturing the reserve of account `i` promotes or releases any of it.
    pub open spec fn warmup_moves(self, i: int) -> bool {
        let a = self.accounts@[i];
        let promoted = self.with_account(i, a.promoted_if_due(self.current_slot));
        &&& a.reserved_pnl != 0
        &&& {
            ||| a.sched_present == 0 && a.pending_present != 0
            ||| promoted.warmup_release(i) > 0
        }
    }

    /// Matures the reserve of account `i`, unless stress holds it back.
    pub open spec fn advance_profit_warmup_with_context_spec(self, i: int, ctx: InstructionContext)
        -> (RiskEngine, InstructionContext, Result<(), RiskError>) {
        let a = self.accounts@[i];
        if !a.reserve_ok(self.params) {
            (self, ctx, Err(RiskError::CorruptState))
        } else if self.stress_gate_active(&ctx) {
            (self, ctx, Ok(()))
        } else {
            let (s, r) = self.advance_profit_warmup_spec(i);
            let c = if self.warmup_moves(i) {
                InstructionContext { positive_pnl_usability_mutated: true, ..ctx }
            } else {
                ctx
            };
            (s, c, r)
        }
    }

    /// Matures the reserve of an account, unless stress holds it back, and records
    /// the use of positive profit.
    pub fn advance_profit_warmup_with_context(
        &mut self,
        idx: usize,
        ctx: &mut InstructionContext,
    ) -> (r: Result<(), RiskError>)
        requires
            idx < MAX_ACCOUNTS,
            old(ctx).wf(),
        ensures
            (*final(self), *final(ctx), r) == old(self).advance_profit_warmup_with_context_spec(
                idx as int,
                *old(ctx),
            ),
            final(ctx).wf(),
    {
        self.validate_reserve_shape(idx)?;
        if self.stress_gate_active(ctx) {
            return Ok(());
        }
        let a = self.accounts[idx];
        if a.reserved_pnl != 0 && (a.sched_present == 0 && a.pending_present != 0
            || self.scheduled_release_is_due(idx)) {
            ctx.mark_positive_pnl_usability();
        }
        self.advance_profit_warmup(idx)
    }

    /// Decides whether the scheduled bucket of an account has matured since its last
    /// release.
    fn scheduled_release_is_due(&self, idx: usize) -> (r: bool)
        requires
            idx < MAX_ACCOUNTS,
            self.accounts@[idx as int].reserve_ok(self.params),
        ensures
            r == (self.warmup_release(idx as int) > 0),
    {
        let a = self.accounts[idx];
        if a.sched_present == 0 || self.current_slot < a.sched_start_slot {
            return false;
        }
        let elapsed: u128 = (self.current_slot - a.sched_start_slot) as u128;
        let total: u128 = if elapsed >= a.sched_horizon as u128 {
            a.sched_anchor_q
        } else {
            proof {
                crate::equity::lemma_share_within(
                    a.sched_anchor_q as int,
                    elapsed as int,
                    a.sched_horizon as int,
                );
            }
            crate::wide_math::mul_div_floor_u128(a.sched_anchor_q, elapsed, a.sched_horizon as u128)
        };
        total > a.sched_release_q
    }
}

} // verus!
