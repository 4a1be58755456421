//! Progress that anyone can ask of the market: cranks, bankrupt closes, account
//! settlement, and recovery of a market that cannot go on.

use vstd::prelude::*;

use crate::constants::{
    MAX_ACCOUNTS, MAX_ORACLE_PRICE, MAX_TOUCHED_PER_INSTRUCTION,
    PUBLIC_ACCOUNT_B_SETTLEMENT_LOSS_ATOMS,
};
use crate::context::InstructionContext;
use crate::sides::side_of_i128;
use crate::types::{
    CrankOutcome, KeeperCrankRequest, LiquidationPolicy, MarketMode,
    PermissionlessAccountProgressRank, PermissionlessProgressOutcome, PermissionlessProgressRank,
    PermissionlessProgressRequest, RecoveryReason, ReserveMode, ResolveMode, RiskEngine,
    RiskError,
};
use crate::wide_math::abs_i128;

verus! {

impl RiskEngine {
    /// Whether a candidate among the first `n` exists.
    pub open spec fn has_candidate(
        self,
        candidates: Seq<(u16, Option<LiquidationPolicy>)>,
        n: int,
    ) -> bool {
        exists|k: int|
            0 <= k < n && k < candidates.len() && #[trigger] self.account_exists(
                candidates[k].0 as int,
            )
    }

    /// Candidates that are looked at, at most.
    pub open spec fn candidate_limit(max_candidate_inspections: u16) -> int {
        crate::wide_math::min_int(
            MAX_TOUCHED_PER_INSTRUCTION as int,
            max_candidate_inspections as int,
        )
    }

    /// Whether a crank could touch an account: a candidate that exists, or a slot of
    /// the sweep.
    pub fn keeper_has_possible_protective_progress(
        &self,
        _now_slot: u64,
        ordered_candidates: &[(u16, Option<LiquidationPolicy>)],
        max_revalidations: u16,
        max_candidate_inspections: u16,
        rr_touch_limit: u64,
        rr_scan_limit: u64,
    ) -> (r: Result<bool, RiskError>)
        ensures
            r == if max_revalidations > 0 && self.has_candidate(
                ordered_candidates@,
                RiskEngine::candidate_limit(max_candidate_inspections),
            ) {
                Ok::<bool, RiskError>(true)
            } else if rr_touch_limit == 0 || rr_scan_limit == 0 {
                Ok(false)
            } else if self.rr_cursor_position >= self.params.max_accounts {
                Err(RiskError::CorruptState)
            } else {
                Ok(true)
            },
    {
        let limit: u16 = if max_candidate_inspections > MAX_TOUCHED_PER_INSTRUCTION as u16 {
            MAX_TOUCHED_PER_INSTRUCTION as u16
        } else {
            max_candidate_inspections
        };
        if max_revalidations > 0 {
            let mut k: usize = 0;
            while k < ordered_candidates.len() && k < limit as usize
                invariant
                    k <= ordered_candidates@.len(),
                    k <= limit,
                    limit == RiskEngine::candidate_limit(max_candidate_inspections),
                    max_revalidations > 0,
                    !self.has_candidate(ordered_candidates@, k as int),
                decreases ordered_candidates@.len() - k,
            {
                let candidate_idx: u16 = ordered_candidates[k].0;
                if self.validate_used_account_slot(candidate_idx as usize).is_ok() {
                    assert(self.account_exists(ordered_candidates@[k as int].0 as int));
                    return Ok(true);
                }
                k = k + 1;
            }
        }
        if rr_touch_limit == 0 || rr_scan_limit == 0 {
            return Ok(false);
        }
        let wrap_bound: u64 = self.params.max_accounts;
        if wrap_bound == 0 || self.rr_cursor_position >= wrap_bound {
            return Err(RiskError::CorruptState);
        }
        Ok(true)
    }

    /// Whether account `i` has a loss beyond its capital.
    pub open spec fn bankruptcy_tail_spec(self, i: int) -> Result<bool, RiskError> {
        let a = self.accounts@[i];
        if self.validate_shape_spec(i) is Err {
            Err(self.validate_shape_spec(i)->Err_0)
        } else {
            Ok(a.capital.get() + a.pnl < 0)
        }
    }

    /// Decides whether an account has a loss beyond its capital.
    pub fn account_has_existing_bankruptcy_tail(&self, idx: usize) -> (r: Result<bool, RiskError>)
        ensures
            r == self.bankruptcy_tail_spec(idx as int),
    {
        self.validate_touched_account_shape(idx)?;
        let pnl: i128 = self.accounts[idx].pnl;
        if pnl >= 0 {
            return Ok(false);
        }
        Ok(self.accounts[idx].capital.get() < abs_i128(pnl))
    }

    /// Looks for a loss beyond capital among the candidates from `k` on.
    pub open spec fn candidate_tail(
        self,
        candidates: Seq<(u16, Option<LiquidationPolicy>)>,
        k: int,
        limit: int,
        attempts_left: int,
    ) -> Result<bool, RiskError>
        decreases candidates.len() - k,
    {
        if k < 0 || k >= candidates.len() || k >= limit || attempts_left <= 0 {
            Ok(false)
        } else if !self.account_exists(candidates[k].0 as int) {
            self.candidate_tail(candidates, k + 1, limit, attempts_left)
        } else {
            match self.bankruptcy_tail_spec(candidates[k].0 as int) {
                Err(err) => Err(err),
                Ok(true) => Ok(true),
                Ok(false) => self.candidate_tail(candidates, k + 1, limit, attempts_left - 1),
            }
        }
    }

    /// Sets the bankruptcy lock if a search found a loss beyond capital.
    pub open spec fn lock_if_found(self, found: Result<bool, RiskError>, ctx: InstructionContext)
        -> (RiskEngine, InstructionContext, Result<(), RiskError>) {
        match found {
            Err(err) => (self, ctx, Err(err)),
            Ok(false) => (self, ctx, Ok(())),
            Ok(true) => self.trigger_bankruptcy_hmax_lock_spec(ctx),
        }
    }

    /// Sets the bankruptcy lock if a candidate has a loss beyond its capital.
    pub fn pretrigger_bankruptcy_hmax_for_candidates(
        &mut self,
        ctx: &mut InstructionContext,
        ordered_candidates: &[(u16, Option<LiquidationPolicy>)],
        max_revalidations: u16,
        max_candidate_inspections: u16,
    ) -> (r: Result<(), RiskError>)
        ensures
            (*final(self), *final(ctx), r) == old(self).lock_if_found(
                if old(self).bankruptcy_hmax_lock_active {
                    Ok(false)
                } else {
                    old(self).candidate_tail(
                        ordered_candidates@,
                        0,
                        RiskEngine::candidate_limit(max_candidate_inspections),
                        max_revalidations as int,
                    )
                },
                *old(ctx),
            ),
            old(ctx).wf() ==> final(ctx).wf(),
    {
        if self.bankruptcy_hmax_lock_active || max_revalidations == 0 {
            return Ok(());
        }
        let limit: u16 = if max_candidate_inspections > MAX_TOUCHED_PER_INSTRUCTION as u16 {
            MAX_TOUCHED_PER_INSTRUCTION as u16
        } else {
            max_candidate_inspections
        };
        let mut k: usize = 0;
        let mut attempts: u16 = 0;
        while k < ordered_candidates.len() && k < limit as usize && attempts < max_revalidations
            invariant
                k <= ordered_candidates@.len(),
                attempts <= max_revalidations,
                limit == RiskEngine::candidate_limit(max_candidate_inspections),
                *self == *old(self),
                *ctx == *old(ctx),
                !self.bankruptcy_hmax_lock_active,
                old(self).candidate_tail(
                    ordered_candidates@,
                    0,
                    RiskEngine::candidate_limit(max_candidate_inspections),
                    max_revalidations as int,
                ) == self.candidate_tail(
                    ordered_candidates@,
                    k as int,
                    limit as int,
                    max_revalidations - attempts,
                ),
            decreases ordered_candidates@.len() - k,
        {
            let idx: usize = ordered_candidates[k].0 as usize;
            k = k + 1;
            if self.validate_used_account_slot(idx).is_err() {
                continue ;
            }
            attempts = attempts + 1;
            if self.account_has_existing_bankruptcy_tail(idx)? {
                return self.trigger_bankruptcy_hmax_lock(ctx);
            }
        }
        Ok(())
    }

    /// Looks for a loss beyond capital among the slots from `i` on.
    pub open spec fn sweep_tail(self, i: int, left: int) -> Result<bool, RiskError>
        decreases left,
    {
        if left <= 0 || i >= self.params.max_accounts {
            Ok(false)
        } else if !self.slot_used(i) {
            self.sweep_tail(i + 1, left - 1)
        } else {
            match self.bankruptcy_tail_spec(i) {
                Err(err) => Err(err),
                Ok(true) => Ok(true),
                Ok(false) => self.sweep_tail(i + 1, left - 1),
            }
        }
    }

    /// Sets the bankruptcy lock if a slot of the sweep has a loss beyond its capital.
    pub fn pretrigger_bankruptcy_hmax_for_phase2(
        &mut self,
        ctx: &mut InstructionContext,
        inspected: u64,
    ) -> (r: Result<(), RiskError>)
        ensures
            (*final(self), *final(ctx), r) == old(self).lock_if_found(
                if old(self).bankruptcy_hmax_lock_active || inspected == 0 {
                    Ok(false)
                } else if old(self).rr_cursor_position >= old(self).params.max_accounts {
                    Err(RiskError::CorruptState)
                } else {
                    old(self).sweep_tail(old(self).rr_cursor_position as int, inspected as int)
                },
                *old(ctx),
            ),
            old(ctx).wf() ==> final(ctx).wf(),
    {
        if self.bankruptcy_hmax_lock_active || inspected == 0 {
            return Ok(());
        }
        let wrap_bound: u64 = self.params.max_accounts;
        if wrap_bound == 0 || self.rr_cursor_position >= wrap_bound {
            return Err(RiskError::CorruptState);
        }
        let mut i: u64 = self.rr_cursor_position;
        let mut replayed: u64 = 0;
        while replayed < inspected && i < wrap_bound
            invariant
                i <= wrap_bound,
                replayed <= inspected,
                wrap_bound == self.params.max_accounts,
                *self == *old(self),
                *ctx == *old(ctx),
                !self.bankruptcy_hmax_lock_active,
                inspected > 0,
                old(self).rr_cursor_position < wrap_bound,
                old(self).sweep_tail(old(self).rr_cursor_position as int, inspected as int)
                    == self.sweep_tail(i as int, inspected - replayed),
            decreases inspected - replayed,
        {
            if i < MAX_ACCOUNTS as u64 && self.is_used(i as usize) {
                if self.account_has_existing_bankruptcy_tail(i as usize)? {
                    return self.trigger_bankruptcy_hmax_lock(ctx);
                }
            }
            i = i + 1;
            replayed = replayed + 1;
        }
        Ok(())
    }

    /// Whether a target lies away from the last price of an exposed market.
    pub open spec fn target_is_away(self, target: u64) -> bool {
        target != 0 && target != self.last_oracle_price && self.exposed_market_has_oi()
    }

    fn is_target_away(&self, target: u64) -> (r: bool)
        ensures
            r == self.target_is_away(target),
    {
        target != 0 && target != self.last_oracle_price && self.exposed_market_has_oi()
    }

    /// Whether the next bounded segment towards a target cannot be represented.
    pub open spec fn segment_blocked(self, now_slot: u64, target: u64) -> Result<(), RiskError> {
        match self.bounded_price_step_spec(now_slot, target) {
            Err(err) => Err(err),
            Ok(price) => if price == self.last_oracle_price {
                Err(RiskError::Unauthorized)
            } else {
                match self.plan_accrual_segment_spec(
                    (self.last_market_slot + self.segment_dt(now_slot)) as u64,
                    price,
                    0,
                ) {
                    Err(err) => if err == RiskError::Overflow {
                        Ok(())
                    } else {
                        Err(err)
                    },
                    Ok(_) => Err(RiskError::Unauthorized),
                }
            },
        }
    }

    /// Accepts a condition.
    pub open spec fn allowed_if(b: bool) -> Result<(), RiskError> {
        if b {
            Ok(())
        } else {
            Err(RiskError::Unauthorized)
        }
    }

    /// Accepts a reason for recovery that the state of the engine shows.
    #[verifier::opaque]
    pub open spec fn recovery_reason_spec(
        self,
        reason: RecoveryReason,
        now_slot: u64,
        target: u64,
    ) -> Result<(), RiskError> {
        if self.market_mode != MarketMode::Live {
            Err(RiskError::Unauthorized)
        } else if now_slot < self.current_slot || now_slot < self.last_market_slot || target
            > MAX_ORACLE_PRICE {
            Err(RiskError::Overflow)
        } else {
            match reason {
                RecoveryReason::BelowProgressFloor => if !self.target_is_away(target) {
                    Err(RiskError::Unauthorized)
                } else {
                    match self.bounded_price_step_cap_abs_spec(now_slot) {
                        Err(err) => Err(err),
                        Ok(cap) => RiskEngine::allowed_if(cap == 0),
                    }
                },
                RecoveryReason::BIndexHeadroomExhausted => RiskEngine::allowed_if(
                    self.b_long_num == u128::MAX || self.b_short_num == u128::MAX,
                ),
                RecoveryReason::BlockedSegmentHeadroomOrRepresentability =>
                if !self.target_is_away(target) {
                    Err(RiskError::Unauthorized)
                } else {
                    match self.bounded_price_step_cap_abs_spec(now_slot) {
                        Err(err) => Err(err),
                        Ok(cap) => if cap == 0 {
                            Err(RiskError::Unauthorized)
                        } else {
                            self.segment_blocked(now_slot, target)
                        },
                    }
                },
                RecoveryReason::AccountBSettlementCannotProgress => Err(RiskError::Unauthorized),
                RecoveryReason::ActiveBankruptCloseCannotProgress => match self.close_is_stuck() {
                    Err(err) => Err(err),
                    Ok(stuck) => RiskEngine::allowed_if(stuck),
                },
                RecoveryReason::OracleOrTargetUnavailableByAuthenticatedPolicy => Err(
                    RiskError::Unauthorized,
                ),
                RecoveryReason::CounterOrEpochOverflowDeclaredRecovery => RiskEngine::allowed_if(
                    self.sweep_generation == u64::MAX || self.adl_epoch_long == u64::MAX
                        || self.adl_epoch_short == u64::MAX,
                ),
                RecoveryReason::ExplicitLossOrDustAuditOverflow => RiskEngine::allowed_if(
                    self.explicit_unallocated_loss_saturated != 0,
                ),
            }
        }
    }

    fn allow_if(b: bool) -> (r: Result<(), RiskError>)
        ensures
            r == RiskEngine::allowed_if(b),
    {
        if b {
            Ok(())
        } else {
            Err(RiskError::Unauthorized)
        }
    }

    fn check_segment_blocked(&self, now_slot: u64, target: u64) -> (r: Result<(), RiskError>)
        requires
            now_slot >= self.last_market_slot,
        ensures
            r == self.segment_blocked(now_slot, target),
    {
        let accrual_slot: u64 = self.bounded_accrual_slot_for_now(now_slot)?;
        let effective_price: u64 = self.bounded_price_step_toward_raw_target(now_slot, target)?;
        if effective_price == self.last_oracle_price {
            return Err(RiskError::Unauthorized);
        }
        match self.plan_accrual_segment(accrual_slot, effective_price, 0) {
            Err(e) => if e == RiskError::Overflow {
                Ok(())
            } else {
                Err(e)
            },
            Ok(_) => Err(RiskError::Unauthorized),
        }
    }

    /// Accepts a reason for recovery that the state of the engine shows.
    pub fn validate_permissionless_p_last_recovery_reason(
        &self,
        reason: RecoveryReason,
        now_slot: u64,
        authenticated_raw_target_price: u64,
    ) -> (r: Result<(), RiskError>)
        ensures
            r == self.recovery_reason_spec(reason, now_slot, authenticated_raw_target_price),
    {
        reveal(RiskEngine::recovery_reason_spec);
        if self.market_mode != MarketMode::Live {
            return Err(RiskError::Unauthorized);
        }
        if now_slot < self.current_slot || now_slot < self.last_market_slot {
            return Err(RiskError::Overflow);
        }
        if authenticated_raw_target_price > MAX_ORACLE_PRICE {
            return Err(RiskError::Overflow);
        }
        match reason {
            RecoveryReason::BelowProgressFloor => {
                if !self.is_target_away(authenticated_raw_target_price) {
                    return Err(RiskError::Unauthorized);
                }
                let cap: u128 = self.bounded_price_step_cap_abs(now_slot)?;
                Self::allow_if(cap == 0)
            },
            RecoveryReason::BIndexHeadroomExhausted => Self::allow_if(
                self.b_long_num == u128::MAX || self.b_short_num == u128::MAX,
            ),
            RecoveryReason::BlockedSegmentHeadroomOrRepresentability => {
                if !self.is_target_away(authenticated_raw_target_price) {
                    return Err(RiskError::Unauthorized);
                }
                let cap: u128 = self.bounded_price_step_cap_abs(now_slot)?;
                if cap == 0 {
                    return Err(RiskError::Unauthorized);
                }
                self.check_segment_blocked(now_slot, authenticated_raw_target_price)
            },
            RecoveryReason::AccountBSettlementCannotProgress => Err(RiskError::Unauthorized),
            RecoveryReason::ActiveBankruptCloseCannotProgress => {
                let stuck: bool = self.active_bankrupt_close_recovery_required()?;
                Self::allow_if(stuck)
            },
            RecoveryReason::OracleOrTargetUnavailableByAuthenticatedPolicy => Err(
                RiskError::Unauthorized,
            ),
            RecoveryReason::CounterOrEpochOverflowDeclaredRecovery => Self::allow_if(
                self.sweep_generation == u64::MAX || self.adl_epoch_long == u64::MAX
                    || self.adl_epoch_short == u64::MAX,
            ),
            RecoveryReason::ExplicitLossOrDustAuditOverflow => Self::allow_if(
                self.explicit_unallocated_loss_saturated != 0,
            ),
        }
    }

    /// Accepts account `i` as one that has no bounded step left towards its `B`
    /// target.
    #[verifier::opaque]
    pub open spec fn account_b_stuck_spec(self, i: int, now_slot: u64) -> Result<(), RiskError> {
        let a = self.accounts@[i];
        if self.market_mode != MarketMode::Live {
            Err(RiskError::Unauthorized)
        } else if now_slot < self.current_slot || now_slot < self.last_market_slot {
            Err(RiskError::Overflow)
        } else if self.validate_shape_spec(i) is Err {
            self.validate_shape_spec(i)
        } else if a.position_basis_q == 0 {
            Err(RiskError::Unauthorized)
        } else {
            match self.b_target_spec(a, crate::sides::some_side(a.position_basis_q)) {
                Err(err) => Err(err),
                Ok(target) => if a.b_snap >= target {
                    Err(RiskError::Unauthorized)
                } else {
                    match RiskEngine::account_b_chunk_spec(
                        a,
                        target,
                        PUBLIC_ACCOUNT_B_SETTLEMENT_LOSS_ATOMS,
                    ) {
                        Err(err) => if RiskEngine::out_of_steps(err) {
                            Ok(())
                        } else {
                            Err(err)
                        },
                        Ok(_) => Err(RiskError::Unauthorized),
                    }
                },
            }
        }
    }

    /// Accepts an account that has no bounded step left towards its `B` target.
    pub fn validate_permissionless_account_b_recovery_reason(
        &self,
        idx: usize,
        now_slot: u64,
    ) -> (r:
        Result<(), RiskError>)
        ensures
            r == self.account_b_stuck_spec(idx as int, now_slot),
    {
        reveal(RiskEngine::account_b_stuck_spec);
        if self.market_mode != MarketMode::Live {
            return Err(RiskError::Unauthorized);
        }
        if now_slot < self.current_slot || now_slot < self.last_market_slot {
            return Err(RiskError::Overflow);
        }
        self.validate_touched_account_shape(idx)?;
        let side = match side_of_i128(self.accounts[idx].position_basis_q) {
            None => return Err(RiskError::Unauthorized),
            Some(s) => s,
        };
        let target: u128 = self.b_target_for_account(idx, side)?;
        if self.accounts[idx].b_snap >= target {
            return Err(RiskError::Unauthorized);
        }
        match self.plan_account_b_chunk_to_target(
            idx,
            target,
            PUBLIC_ACCOUNT_B_SETTLEMENT_LOSS_ATOMS,
        ) {
            Err(e) => if e == RiskError::RecoveryRequired || e == RiskError::Overflow {
                Ok(())
            } else {
                Err(e)
            },
            Ok(_) => Err(RiskError::Unauthorized),
        }
    }

    /// Settles the market at its last price.
    pub open spec fn resolve_at_last(self, now_slot: u64) -> (RiskEngine, Result<(), RiskError>) {
        self.resolve_market_spec(
            ResolveMode::Degenerate,
            self.last_oracle_price,
            self.last_oracle_price,
            now_slot,
            0,
        )
    }

    /// Settles the market at its last price, for a reason.
    #[verifier::opaque]
    pub open spec fn recover_spec(self, reason: RecoveryReason, now_slot: u64, target: u64) -> (
        RiskEngine,
        Result<(), RiskError>,
    ) {
        if self.public_post() is Err {
            (self, self.public_post())
        } else if self.recovery_reason_spec(reason, now_slot, target) is Err {
            (self, self.recovery_reason_spec(reason, now_slot, target))
        } else if reason == RecoveryReason::ActiveBankruptCloseCannotProgress {
            let (e, r) = self.complete_close_spec();
            if r is Err {
                (e, r)
            } else {
                e.resolve_at_last(now_slot)
            }
        } else if reason == RecoveryReason::CounterOrEpochOverflowDeclaredRecovery {
            self.resolve_exhausted_spec(now_slot)
        } else {
            self.resolve_at_last(now_slot)
        }
    }

    /// Settles the market at its last price, for a reason that the state of the
    /// engine shows.
    pub fn permissionless_recovery_resolve_p_last_not_atomic(
        &mut self,
        reason: RecoveryReason,
        now_slot: u64,
        authenticated_raw_target_price: u64,
    ) -> (r: Result<(), RiskError>)
        ensures
            (*final(self), r) == old(self).recover_spec(
                reason,
                now_slot,
                authenticated_raw_target_price,
            ),
            r is Ok ==> final(self).public_post() is Ok,
    {
        reveal(RiskEngine::recover_spec);
        self.assert_public_postconditions()?;
        self.validate_permissionless_p_last_recovery_reason(
            reason,
            now_slot,
            authenticated_raw_target_price,
        )?;
        if reason == RecoveryReason::ActiveBankruptCloseCannotProgress {
            self.complete_active_bankrupt_close_for_recovery()?;
        }
        if reason == RecoveryReason::CounterOrEpochOverflowDeclaredRecovery {
            return self.resolve_counter_or_epoch_overflow_recovery_not_atomic(now_slot);
        }
        let p_last: u64 = self.last_oracle_price;
        self.resolve_market_not_atomic(ResolveMode::Degenerate, p_last, p_last, now_slot, 0)
    }

    /// Settles the market at its last price, since an account has no bounded step
    /// left towards its `B` target.
    #[verifier::opaque]
    pub open spec fn recover_account_b_spec(self, i: int, now_slot: u64) -> (RiskEngine, Result<
        (),
        RiskError,
    >) {
        if self.public_post() is Err {
            (self, self.public_post())
        } else if self.account_b_stuck_spec(i, now_slot) is Err {
            (self, self.account_b_stuck_spec(i, now_slot))
        } else {
            self.resolve_at_last(now_slot)
        }
    }

    /// Settles the market at its last price, since an account has no bounded step
    /// left towards its `B` target.
    pub fn permissionless_recovery_resolve_account_b_p_last_not_atomic(
        &mut self,
        idx: u16,
        now_slot: u64,
    ) -> (r: Result<(), RiskError>)
        ensures
            (*final(self), r) == old(self).recover_account_b_spec(idx as int, now_slot),
            r is Ok ==> final(self).public_post() is Ok,
    {
        reveal(RiskEngine::recover_account_b_spec);
        self.assert_public_postconditions()?;
        self.validate_permissionless_account_b_recovery_reason(idx as usize, now_slot)?;
        let p_last: u64 = self.last_oracle_price;
        self.resolve_market_not_atomic(ResolveMode::Degenerate, p_last, p_last, now_slot, 0)
    }

    /// Settles the market for a reason, if there is that reason.
    pub open spec fn try_recovery(self, reason: RecoveryReason, now_slot: u64, target: u64) -> (
        RiskEngine,
        Result<Option<PermissionlessProgressOutcome>, RiskError>,
    ) {
        match self.recovery_reason_spec(reason, now_slot, target) {
            Err(err) => if err == RiskError::Unauthorized {
                (self, Ok(None))
            } else {
                (self, Err(err))
            },
            Ok(_) => {
                let (e, r) = self.recover_spec(reason, now_slot, target);
                match r {
                    Err(err) => (e, Err(err)),
                    Ok(_) => (e, Ok(Some(PermissionlessProgressOutcome::Recovered(reason)))),
                }
            },
        }
    }

    /// Settles the market for a reason, if there is that reason.
    pub fn try_permissionless_global_recovery(
        &mut self,
        reason: RecoveryReason,
        now_slot: u64,
        authenticated_raw_target_price: u64,
    ) -> (r: Result<Option<PermissionlessProgressOutcome>, RiskError>)
        ensures
            (*final(self), r) == old(self).try_recovery(
                reason,
                now_slot,
                authenticated_raw_target_price,
            ),
            r is Ok && r->Ok_0 is Some ==> final(self).public_post() is Ok,
    {
        match self.validate_permissionless_p_last_recovery_reason(
            reason,
            now_slot,
            authenticated_raw_target_price,
        ) {
            Ok(_) => {
                self.permissionless_recovery_resolve_p_last_not_atomic(
                    reason,
                    now_slot,
                    authenticated_raw_target_price,
                )?;
                Ok(Some(PermissionlessProgressOutcome::Recovered(reason)))
            },
            Err(e) => if e == RiskError::Unauthorized {
                Ok(None)
            } else {
                Err(e)
            },
        }
    }

    /// Whether account `i` can settle a step towards its `B` target.
    pub open spec fn account_b_can_step(self, i: int) -> Result<bool, RiskError> {
        let a = self.accounts@[i];
        match self.validate_shape_spec(i) {
            Err(err) => if err == RiskError::AccountNotFound {
                Ok(false)
            } else {
                Err(err)
            },
            Ok(_) => if a.position_basis_q == 0 {
                Ok(false)
            } else {
                match self.b_target_spec(a, crate::sides::some_side(a.position_basis_q)) {
                    Err(err) => Err(err),
                    Ok(target) => if a.b_snap >= target {
                        Ok(false)
                    } else {
                        match RiskEngine::account_b_chunk_spec(
                            a,
                            target,
                            PUBLIC_ACCOUNT_B_SETTLEMENT_LOSS_ATOMS,
                        ) {
                            Err(err) => if RiskEngine::out_of_steps(err) {
                                Ok(false)
                            } else {
                                Err(err)
                            },
                            Ok(_) => Ok(true),
                        }
                    },
                }
            },
        }
    }

    fn can_account_b_step(&self, idx: usize) -> (r: Result<bool, RiskError>)
        ensures
            r == self.account_b_can_step(idx as int),
    {
        match self.validate_touched_account_shape(idx) {
            Ok(_) => {},
            Err(e) => {
                if e == RiskError::AccountNotFound {
                    return Ok(false);
                }
                return Err(e);
            },
        }
        let side = match side_of_i128(self.accounts[idx].position_basis_q) {
            None => return Ok(false),
            Some(s) => s,
        };
        let target: u128 = self.b_target_for_account(idx, side)?;
        if self.accounts[idx].b_snap >= target {
            return Ok(false);
        }
        match self.plan_account_b_chunk_to_target(
            idx,
            target,
            PUBLIC_ACCOUNT_B_SETTLEMENT_LOSS_ATOMS,
        ) {
            Ok(_) => Ok(true),
            Err(e) => if e == RiskError::RecoveryRequired || e == RiskError::Overflow {
                Ok(false)
            } else {
                Err(e)
            },
        }
    }

    /// What a step of account settlement accepts.
    pub open spec fn account_b_gate(
        self,
        now_slot: u64,
        h_min: u64,
        h_max: u64,
        threshold_opt: Option<u128>,
    ) -> Result<(), RiskError> {
        if !RiskEngine::admission_pair_ok(h_min, h_max, self.params)
            || !RiskEngine::threshold_opt_ok(threshold_opt) {
            Err(RiskError::Overflow)
        } else if self.public_post() is Err {
            self.public_post()
        } else if self.market_mode != MarketMode::Live {
            Err(RiskError::Unauthorized)
        } else if now_slot < self.current_slot || now_slot < self.last_market_slot {
            Err(RiskError::Overflow)
        } else {
            Ok(())
        }
    }

    /// The engine with the next chunk of account `i` settled against `B` and its loss
    /// booked on the account. A chunk that does not reach the target holds positive
    /// profit back for the rest of the instruction.
    #[verifier::opaque]
    pub open spec fn b_chunk_drained(self, i: int, ctx: InstructionContext) -> (
        RiskEngine,
        InstructionContext,
        Result<(), RiskError>,
    ) {
        let a = self.accounts@[i];
        match self.b_target_spec(a, crate::sides::some_side(a.position_basis_q)) {
            Err(err) => (self, ctx, Err(err)),
            Ok(target) => {
                let (e, r) = self.settle_account_b_chunk_spec(
                    i,
                    target,
                    PUBLIC_ACCOUNT_B_SETTLEMENT_LOSS_ATOMS,
                );
                match r {
                    Err(err) => (e, ctx, Err(err)),
                    Ok((loss, reached)) => {
                        let c = InstructionContext {
                            partial_b_settlement_active: ctx.partial_b_settlement_active
                                || !reached,
                            ..ctx
                        };
                        if a.pnl - loss < i128::MIN {
                            (e, c, Err(RiskError::Overflow))
                        } else {
                            let (e2, c2, r2) = e.set_pnl_with_reserve_spec(
                                i,
                                (a.pnl - loss) as i128,
                                ReserveMode::NoPositiveIncreaseAllowed,
                                Some(c),
                            );
                            (e2, c2->0, r2)
                        }
                    },
                }
            },
        }
    }

    fn drain_b_chunk(&mut self, idx: usize, ctx: &mut InstructionContext) -> (r: Result<
        (),
        RiskError,
    >)
        requires
            idx < MAX_ACCOUNTS,
            old(self).accounts@[idx as int].position_basis_q != 0,
            old(ctx).wf(),
        ensures
            (*final(self), *final(ctx), r) == old(self).b_chunk_drained(idx as int, *old(ctx)),
            final(ctx).wf(),
    {
        reveal(RiskEngine::b_chunk_drained);
        let side = match side_of_i128(self.accounts[idx].position_basis_q) {
            None => return Err(RiskError::CorruptState),
            Some(s) => s,
        };
        let target: u128 = self.b_target_for_account(idx, side)?;
        let pnl: i128 = self.accounts[idx].pnl;
        let (loss, reached) = self.settle_account_b_chunk_to_target(
            idx,
            side,
            target,
            PUBLIC_ACCOUNT_B_SETTLEMENT_LOSS_ATOMS,
        )?;
        if !reached {
            ctx.partial_b_settlement_active = true;
        }
        let new_pnl: i128 = pnl.checked_sub(loss as i128).ok_or(RiskError::Overflow)?;
        self.set_pnl_with_reserve(
            idx,
            new_pnl,
            ReserveMode::NoPositiveIncreaseAllowed,
            Some(&mut *ctx),
        )
    }

    /// Settles a chunk of an account towards its `B` target and brings the account up
    /// to date, if it can settle one.
    #[verifier::opaque]
    pub open spec fn account_b_progress_spec(
        self,
        i: int,
        now_slot: u64,
        h_min: u64,
        h_max: u64,
        threshold_opt: Option<u128>,
    ) -> (RiskEngine, Result<bool, RiskError>) {
        let gate = self.account_b_gate(now_slot, h_min, h_max, threshold_opt);
        if gate is Err {
            (self, Err(gate->Err_0))
        } else {
            match self.account_b_can_step(i) {
                Err(err) => (self, Err(err)),
                Ok(false) => (self, Ok(false)),
                Ok(true) => {
                    let (e, c, r) = self.b_chunk_drained(
                        i,
                        RiskEngine::admission(h_min, h_max, threshold_opt),
                    );
                    if r is Err {
                        (e, Err(r->Err_0))
                    } else {
                        let (e2, c2, r2) = e.touch_spec(i, c);
                        if r2 is Err {
                            (e2, Err(r2->Err_0))
                        } else {
                            let (e3, r3) = e2.finish_spec(c2);
                            match r3 {
                                Err(err) => (e3, Err(err)),
                                Ok(_) => (e3, Ok(true)),
                            }
                        }
                    }
                },
            }
        }
    }

    /// Settles a chunk of an account towards its `B` target, books its loss on the
    /// account and brings the account up to date. Gives whether there was a chunk to
    /// settle; if so, the account is closer to its target.
    pub fn try_permissionless_account_b_progress(
        &mut self,
        idx: u16,
        now_slot: u64,
        admit_h_min: u64,
        admit_h_max: u64,
        admit_h_max_consumption_threshold_bps_opt: Option<u128>,
    ) -> (r: Result<bool, RiskError>)
        ensures
            (*final(self), r) == old(self).account_b_progress_spec(
                idx as int,
                now_slot,
                admit_h_min,
                admit_h_max,
                admit_h_max_consumption_threshold_bps_opt,
            ),
            r == Ok::<bool, RiskError>(true) ==> {
                &&& final(self).public_post() is Ok
                &&& idx < MAX_ACCOUNTS
                &&& final(self).accounts@[idx as int].b_snap > old(
                    self,
                ).accounts@[idx as int].b_snap
            },
    {
        reveal(RiskEngine::account_b_progress_spec);
        Self::validate_admission_pair(admit_h_min, admit_h_max, &self.params)?;
        Self::validate_threshold_opt(admit_h_max_consumption_threshold_bps_opt)?;
        self.assert_public_postconditions()?;
        if self.market_mode != MarketMode::Live {
            return Err(RiskError::Unauthorized);
        }
        if now_slot < self.current_slot || now_slot < self.last_market_slot {
            return Err(RiskError::Overflow);
        }
        if !self.can_account_b_step(idx as usize)? {
            return Ok(false);
        }
        let mut ctx = InstructionContext::new_with_admission_and_threshold(
            admit_h_min,
            admit_h_max,
            admit_h_max_consumption_threshold_bps_opt,
        );
        proof {
            crate::progress_laws::law_account_step_makes_progress(
                *old(self),
                idx as int,
                now_slot,
                admit_h_min,
                admit_h_max,
                admit_h_max_consumption_threshold_bps_opt,
            );
        }
        self.drain_b_chunk(idx as usize, &mut ctx)?;
        self.touch_account_live_local(idx as usize, &mut ctx)?;
        self.finish_instruction(&mut ctx)?;
        Ok(true)
    }

    /// Settles an account towards its `B` target, or the market if the account has
    /// no bounded step left.
    #[verifier::opaque]
    pub open spec fn account_b_dispatch_spec(
        self,
        idx: u16,
        now_slot: u64,
        h_min: u64,
        h_max: u64,
        threshold_opt: Option<u128>,
    ) -> (RiskEngine, Result<Option<PermissionlessProgressOutcome>, RiskError>) {
        let (e, r) = self.account_b_progress_spec(
            idx as int,
            now_slot,
            h_min,
            h_max,
            threshold_opt,
        );
        match r {
            Err(err) => (e, Err(err)),
            Ok(true) => (e, Ok(Some(PermissionlessProgressOutcome::AccountBProgress(idx)))),
            Ok(false) => match e.account_b_stuck_spec(idx as int, now_slot) {
                Err(err) => if err == RiskError::Unauthorized || err
                    == RiskError::AccountNotFound {
                    (e, Ok(None))
                } else {
                    (e, Err(err))
                },
                Ok(_) => {
                    let (e2, r2) = e.recover_account_b_spec(idx as int, now_slot);
                    match r2 {
                        Err(err) => (e2, Err(err)),
                        Ok(_) => (
                            e2,
                            Ok(Some(PermissionlessProgressOutcome::AccountBRecovered(idx))),
                        ),
                    }
                },
            },
        }
    }

    /// Settles an account towards its `B` target, or the market if the account has
    /// no bounded step left. Gives nothing if there is nothing to settle.
    pub fn try_permissionless_account_b_dispatch(
        &mut self,
        idx: u16,
        now_slot: u64,
        admit_h_min: u64,
        admit_h_max: u64,
        admit_h_max_consumption_threshold_bps_opt: Option<u128>,
    ) -> (r: Result<Option<PermissionlessProgressOutcome>, RiskError>)
        ensures
            (*final(self), r) == old(self).account_b_dispatch_spec(
                idx,
                now_slot,
                admit_h_min,
                admit_h_max,
                admit_h_max_consumption_threshold_bps_opt,
            ),
            r is Ok && r->Ok_0 is Some ==> final(self).public_post() is Ok,
    {
        reveal(RiskEngine::account_b_dispatch_spec);
        if self.try_permissionless_account_b_progress(
            idx,
            now_slot,
            admit_h_min,
            admit_h_max,
            admit_h_max_consumption_threshold_bps_opt,
        )? {
            return Ok(Some(PermissionlessProgressOutcome::AccountBProgress(idx)));
        }
        match self.validate_permissionless_account_b_recovery_reason(idx as usize, now_slot) {
            Ok(_) => {
                self.permissionless_recovery_resolve_account_b_p_last_not_atomic(idx, now_slot)?;
                Ok(Some(PermissionlessProgressOutcome::AccountBRecovered(idx)))
            },
            Err(e) => if e == RiskError::Unauthorized || e == RiskError::AccountNotFound {
                Ok(None)
            } else {
                Err(e)
            },
        }
    }

    /// Cranks the market as a request asks.
    pub open spec fn crank_request_spec(self, req: KeeperCrankRequest<'_>) -> (RiskEngine, Result<
        CrankOutcome,
        RiskError,
    >) {
        self.keeper_crank_spec(
            req.now_slot,
            req.oracle_price,
            req.ordered_candidates@,
            req.max_revalidations,
            req.funding_rate_e9,
            req.admit_h_min,
            req.admit_h_max,
            req.admit_h_max_consumption_threshold_bps_opt,
            req.rr_touch_limit,
        )
    }

    /// Cranks the market as a request asks.
    pub fn keeper_crank_with_request_not_atomic(&mut self, req: KeeperCrankRequest<'_>) -> (r:
        Result<CrankOutcome, RiskError>)
        ensures
            (*final(self), r) == old(self).crank_request_spec(req),
            r is Ok ==> final(self).public_post() is Ok,
    {
        self.keeper_crank_not_atomic(
            req.now_slot,
            req.oracle_price,
            req.ordered_candidates,
            req.max_revalidations,
            req.funding_rate_e9,
            req.admit_h_min,
            req.admit_h_max,
            req.admit_h_max_consumption_threshold_bps_opt,
            req.rr_touch_limit,
        )
    }

    /// The reason of recovery with this rank. Smaller ranks come first.
    pub open spec fn ranked_reason(k: int) -> RecoveryReason {
        if k == 0 {
            RecoveryReason::CounterOrEpochOverflowDeclaredRecovery
        } else if k == 1 {
            RecoveryReason::BIndexHeadroomExhausted
        } else if k == 2 {
            RecoveryReason::ExplicitLossOrDustAuditOverflow
        } else if k == 3 {
            RecoveryReason::BelowProgressFloor
        } else {
            RecoveryReason::BlockedSegmentHeadroomOrRepresentability
        }
    }

    /// Tries the reasons of recovery from rank `k` on.
    pub open spec fn try_recoveries(self, k: int, now_slot: u64, target: u64) -> (
        RiskEngine,
        Result<Option<PermissionlessProgressOutcome>, RiskError>,
    )
        decreases 5 - k,
    {
        if k < 0 || k >= 5 {
            (self, Ok(None))
        } else {
            let (e, r) = self.try_recovery(RiskEngine::ranked_reason(k), now_slot, target);
            match r {
                Ok(None) => e.try_recoveries(k + 1, now_slot, target),
                _ => (e, r),
            }
        }
    }

    fn try_all_recoveries(&mut self, now_slot: u64, target: u64) -> (r: Result<
        Option<PermissionlessProgressOutcome>,
        RiskError,
    >)
        ensures
            (*final(self), r) == old(self).try_recoveries(0, now_slot, target),
            r is Ok && r->Ok_0 is Some ==> final(self).public_post() is Ok,
    {
        let mut k: u64 = 0;
        while k < 5
            invariant
                k <= 5,
                old(self).try_recoveries(0, now_slot, target) == self.try_recoveries(
                    k as int,
                    now_slot,
                    target,
                ),
            decreases 5 - k,
        {
            let reason = if k == 0 {
                RecoveryReason::CounterOrEpochOverflowDeclaredRecovery
            } else if k == 1 {
                RecoveryReason::BIndexHeadroomExhausted
            } else if k == 2 {
                RecoveryReason::ExplicitLossOrDustAuditOverflow
            } else if k == 3 {
                RecoveryReason::BelowProgressFloor
            } else {
                RecoveryReason::BlockedSegmentHeadroomOrRepresentability
            };
            let outcome = self.try_permissionless_global_recovery(reason, now_slot, target)?;
            if outcome.is_some() {
                return Ok(outcome);
            }
            k = k + 1;
        }
        Ok(None)
    }

    /// Progress of a market with a bankrupt close in flight.
    pub open spec fn close_progress(self, now_slot: u64, target: u64) -> (RiskEngine, Result<
        PermissionlessProgressOutcome,
        RiskError,
    >) {
        let reason = RecoveryReason::ActiveBankruptCloseCannotProgress;
        match self.close_is_stuck() {
            Err(err) => (self, Err(err)),
            Ok(true) => {
                let (e, r) = self.recover_spec(reason, now_slot, target);
                match r {
                    Err(err) => (e, Err(err)),
                    Ok(_) => (e, Ok(PermissionlessProgressOutcome::Recovered(reason))),
                }
            },
            Ok(false) => {
                let (e, r) = self.continue_close_spec(now_slot);
                match r {
                    Err(err) => (e, Err(err)),
                    Ok(_) => (e, Ok(PermissionlessProgressOutcome::ActiveCloseContinued)),
                }
            },
        }
    }

    fn progress_close(&mut self, now_slot: u64, target: u64) -> (r: Result<
        PermissionlessProgressOutcome,
        RiskError,
    >)
        ensures
            (*final(self), r) == old(self).close_progress(now_slot, target),
            r is Ok ==> final(self).public_post() is Ok,
    {
        if self.active_bankrupt_close_recovery_required()? {
            self.permissionless_recovery_resolve_p_last_not_atomic(
                RecoveryReason::ActiveBankruptCloseCannotProgress,
                now_slot,
                target,
            )?;
            return Ok(
                PermissionlessProgressOutcome::Recovered(
                    RecoveryReason::ActiveBankruptCloseCannotProgress,
                ),
            );
        }
        let _ = self.continue_active_bankrupt_close_not_atomic(now_slot)?;
        Ok(PermissionlessProgressOutcome::ActiveCloseContinued)
    }

    /// The crank of a progress request.
    pub open spec fn crank_of(req: PermissionlessProgressRequest<'_>) -> KeeperCrankRequest<'_> {
        KeeperCrankRequest {
            now_slot: req.now_slot,
            oracle_price: req.oracle_price,
            ordered_candidates: req.ordered_candidates,
            max_revalidations: req.max_revalidations,
            max_candidate_inspections: req.max_candidate_inspections,
            funding_rate_e9: req.funding_rate_e9,
            admit_h_min: req.admit_h_min,
            admit_h_max: req.admit_h_max,
            admit_h_max_consumption_threshold_bps_opt: req.admit_h_max_consumption_threshold_bps_opt,
            rr_touch_limit: req.rr_touch_limit,
            rr_scan_limit: req.rr_scan_limit,
        }
    }

    /// Progress of a live market with no bankrupt close in flight: the account that
    /// is hinted at, then recovery, then a crank.
    pub open spec fn live_progress(self, req: PermissionlessProgressRequest<'_>) -> (
        RiskEngine,
        Result<PermissionlessProgressOutcome, RiskError>,
    ) {
        let (e, r) = match req.account_hint {
            None => (self, Ok(None)),
            Some(idx) => self.account_b_dispatch_spec(
                idx,
                req.now_slot,
                req.admit_h_min,
                req.admit_h_max,
                req.admit_h_max_consumption_threshold_bps_opt,
            ),
        };
        match r {
            Err(err) => (e, Err(err)),
            Ok(Some(outcome)) => (e, Ok(outcome)),
            Ok(None) => {
                let (e2, r2) = e.try_recoveries(
                    0,
                    req.now_slot,
                    req.authenticated_raw_target_price,
                );
                match r2 {
                    Err(err) => (e2, Err(err)),
                    Ok(Some(outcome)) => (e2, Ok(outcome)),
                    Ok(None) => {
                        let (e3, r3) = e2.crank_request_spec(RiskEngine::crank_of(req));
                        match r3 {
                            Err(err) => (e3, Err(err)),
                            Ok(outcome) => (
                                e3,
                                Ok(PermissionlessProgressOutcome::Cranked(outcome)),
                            ),
                        }
                    },
                }
            },
        }
    }

    /// Makes whatever progress the market can make.
    #[verifier::opaque]
    pub open spec fn progress_spec(self, req: PermissionlessProgressRequest<'_>) -> (
        RiskEngine,
        Result<PermissionlessProgressOutcome, RiskError>,
    ) {
        if self.market_mode == MarketMode::Resolved {
            let (e, r) = self.force_close_cursor_spec(
                req.resolved_scan_limit,
                req.resolved_fee_rate_per_slot,
            );
            match r {
                Err(err) => (e, Err(err)),
                Ok(result) => (e, Ok(PermissionlessProgressOutcome::ResolvedClose(result))),
            }
        } else if self.active_close_present != 0 {
            self.close_progress(req.now_slot, req.authenticated_raw_target_price)
        } else {
            self.live_progress(req)
        }
    }

    /// Makes whatever progress the market can make: closes the next account of a
    /// settled market, continues or ends a bankrupt close, settles the account that
    /// is hinted at, recovers a market that cannot go on, or cranks.
    pub fn permissionless_progress_not_atomic(
        &mut self,
        req: PermissionlessProgressRequest<'_>,
    ) -> (r:
        Result<PermissionlessProgressOutcome, RiskError>)
        ensures
            (*final(self), r) == old(self).progress_spec(req),
            r is Ok ==> final(self).public_post() is Ok,
    {
        reveal(RiskEngine::progress_spec);
        if self.market_mode == MarketMode::Resolved {
            let result = self.force_close_resolved_cursor_with_fee_not_atomic(
                req.resolved_scan_limit,
                req.resolved_fee_rate_per_slot,
            )?;
            return Ok(PermissionlessProgressOutcome::ResolvedClose(result));
        }
        if self.active_close_present != 0 {
            return self.progress_close(req.now_slot, req.authenticated_raw_target_price);
        }
        if let Some(idx) = req.account_hint {
            let outcome = self.try_permissionless_account_b_dispatch(
                idx,
                req.now_slot,
                req.admit_h_min,
                req.admit_h_max,
                req.admit_h_max_consumption_threshold_bps_opt,
            )?;
            if let Some(o) = outcome {
                return Ok(o);
            }
        }
        let outcome = self.try_all_recoveries(req.now_slot, req.authenticated_raw_target_price)?;
        if let Some(o) = outcome {
            return Ok(o);
        }
        let outcome = self.keeper_crank_with_request_not_atomic(
            KeeperCrankRequest {
                now_slot: req.now_slot,
                oracle_price: req.oracle_price,
                ordered_candidates: req.ordered_candidates,
                max_revalidations: req.max_revalidations,
                max_candidate_inspections: req.max_candidate_inspections,
                funding_rate_e9: req.funding_rate_e9,
                admit_h_min: req.admit_h_min,
                admit_h_max: req.admit_h_max,
                admit_h_max_consumption_threshold_bps_opt: req.admit_h_max_consumption_threshold_bps_opt,
                rr_touch_limit: req.rr_touch_limit,
                rr_scan_limit: req.rr_scan_limit,
            },
        )?;
        Ok(PermissionlessProgressOutcome::Cranked(outcome))
    }

    /// Accounts, positions, stale accounts and losses of a settled market.
    pub open spec fn resolved_blockers(self) -> int {
        self.num_used_accounts + self.stored_pos_count_long + self.stored_pos_count_short
            + self.stale_account_count_long + self.stale_account_count_short
            + self.neg_pnl_account_count
    }

    /// How far the market is from having nothing left to do.
    pub open spec fn progress_rank_spec(self, now_slot: u64) -> Result<
        PermissionlessProgressRank,
        RiskError,
    > {
        if now_slot < self.last_market_slot || now_slot < self.current_slot {
            Err(RiskError::Overflow)
        } else if self.active_close_present != 0 && !self.active_close_ok() {
            Err(RiskError::CorruptState)
        } else if self.market_mode == MarketMode::Resolved && self.resolved_blockers() > u64::MAX {
            Err(RiskError::Overflow)
        } else {
            Ok(
                PermissionlessProgressRank {
                    live_catchup_slots: if self.market_mode == MarketMode::Live
                        && self.exposed_market_has_oi() {
                        (now_slot - self.last_market_slot) as u64
                    } else {
                        0
                    },
                    stress_envelope_indices: if self.envelope_open() {
                        self.stress_envelope_remaining_indices
                    } else {
                        0
                    },
                    active_close_residual_atoms: if self.active_close_present != 0 {
                        self.active_close_residual_remaining
                    } else {
                        0
                    },
                    resolved_blocker_units: if self.market_mode == MarketMode::Resolved {
                        self.resolved_blockers() as u64
                    } else {
                        0
                    },
                },
            )
        }
    }

    fn count_resolved_blockers(&self) -> (r: Result<u64, RiskError>)
        ensures
            r == if self.resolved_blockers() > u64::MAX {
                Err::<u64, RiskError>(RiskError::Overflow)
            } else {
                Ok(self.resolved_blockers() as u64)
            },
    {
        let a: u64 = (self.num_used_accounts as u64).checked_add(self.stored_pos_count_long).ok_or(
            RiskError::Overflow,
        )?;
        let b: u64 = a.checked_add(self.stored_pos_count_short).ok_or(RiskError::Overflow)?;
        let c: u64 = b.checked_add(self.stale_account_count_long).ok_or(RiskError::Overflow)?;
        let d: u64 = c.checked_add(self.stale_account_count_short).ok_or(RiskError::Overflow)?;
        d.checked_add(self.neg_pnl_account_count).ok_or(RiskError::Overflow)
    }

    /// Computes how far the market is from having nothing left to do.
    pub fn permissionless_progress_rank_for_now(&self, now_slot: u64) -> (r: Result<
        PermissionlessProgressRank,
        RiskError,
    >)
        ensures
            r == self.progress_rank_spec(now_slot),
    {
        if now_slot < self.last_market_slot || now_slot < self.current_slot {
            return Err(RiskError::Overflow);
        }
        let live_catchup_slots: u64 = if self.market_mode == MarketMode::Live
            && self.exposed_market_has_oi() {
            now_slot - self.last_market_slot
        } else {
            0
        };
        let envelope_active: bool = self.stress_consumed_bps_e9_since_envelope > 0
            || self.bankruptcy_hmax_lock_active;
        let stress_envelope_indices: u64 = if envelope_active {
            self.stress_envelope_remaining_indices
        } else {
            0
        };
        let active_close_residual_atoms: u128 = if self.active_close_present != 0 {
            self.validate_active_bankrupt_close_shape()?;
            self.active_close_residual_remaining
        } else {
            0
        };
        let resolved_blocker_units: u64 = if self.market_mode == MarketMode::Resolved {
            self.count_resolved_blockers()?
        } else {
            0
        };
        Ok(
            PermissionlessProgressRank {
                live_catchup_slots,
                stress_envelope_indices,
                active_close_residual_atoms,
                resolved_blocker_units,
            },
        )
    }

    /// How far account `i` is from its `B` target.
    pub open spec fn account_rank_spec(self, i: int) -> Result<
        PermissionlessAccountProgressRank,
        RiskError,
    > {
        let a = self.accounts@[i];
        if self.validate_shape_spec(i) is Err {
            Err(self.validate_shape_spec(i)->Err_0)
        } else if a.position_basis_q == 0 {
            if a.loss_weight != 0 || a.b_snap != 0 || a.b_rem != 0 {
                Err(RiskError::CorruptState)
            } else {
                Ok(PermissionlessAccountProgressRank { account_b_remaining_num: 0 })
            }
        } else {
            match self.b_target_spec(a, crate::sides::some_side(a.position_basis_q)) {
                Err(err) => Err(err),
                Ok(target) => if a.b_snap > target {
                    Err(RiskError::CorruptState)
                } else {
                    Ok(
                        PermissionlessAccountProgressRank {
                            account_b_remaining_num: (target - a.b_snap) as u128,
                        },
                    )
                },
            }
        }
    }

    /// Computes how far an account is from its `B` target.
    pub fn permissionless_account_progress_rank(&self, idx: u16) -> (r: Result<
        PermissionlessAccountProgressRank,
        RiskError,
    >)
        ensures
            r == self.account_rank_spec(idx as int),
    {
        let i: usize = idx as usize;
        self.validate_touched_account_shape(i)?;
        let account_b_remaining_num: u128 = match side_of_i128(self.accounts[i].position_basis_q) {
            Some(side) => {
                let target: u128 = self.b_target_for_account(i, side)?;
                if self.accounts[i].b_snap > target {
                    return Err(RiskError::CorruptState);
                }
                target - self.accounts[i].b_snap
            },
            None => {
                if self.accounts[i].loss_weight != 0 || self.accounts[i].b_snap != 0
                    || self.accounts[i].b_rem != 0 {
                    return Err(RiskError::CorruptState);
                }
                0
            },
        };
        Ok(PermissionlessAccountProgressRank { account_b_remaining_num })
    }
}

} // verus!
