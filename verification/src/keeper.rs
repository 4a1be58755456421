//! The keeper crank: candidates for liquidation, and the round-robin sweep.

use vstd::prelude::*;

use crate::constants::{
    MAX_ACCOUNTS, MAX_ORACLE_PRICE, MAX_TOUCHED_PER_INSTRUCTION,
};
use crate::context::InstructionContext;
use crate::types::{
    CrankOutcome, LiquidationPolicy, MarketMode, Phase2ScanOutcome, RiskEngine, RiskError,
};
use crate::wide_math::{abs_i128, min_u128, min_u64, I256};

verus! {

impl RiskEngine {
    /// Whether a scan of the sweep ends after `n` slots.
    pub open spec fn scan_ends(
        self,
        n: int,
        wrap_bound: u64,
        rr_touch_limit: u64,
        rr_scan_limit: u64,
        wrap_allowed: bool,
    ) -> bool {
        let at = self.rr_cursor_position + n;
        ||| n >= rr_scan_limit
        ||| n >= wrap_bound
        ||| self.used_below(at) - self.used_below(self.rr_cursor_position as int)
            >= rr_touch_limit
        ||| at >= wrap_bound
        ||| (at == wrap_bound - 1 && !wrap_allowed)
    }

    /// Whether an outcome is that of a scan from the cursor: it visits slots up to
    /// the first at which a scan ends, counts those in use, and goes back to the
    /// first slot at the bound.
    pub open spec fn is_scan_outcome(
        self,
        o: Phase2ScanOutcome,
        wrap_bound: u64,
        rr_touch_limit: u64,
        rr_scan_limit: u64,
        counts_stress: bool,
        wrap_allowed: bool,
    ) -> bool {
        let start = self.rr_cursor_position as int;
        let end = start + o.inspected;
        &&& self.scan_ends(
            o.inspected as int,
            wrap_bound,
            rr_touch_limit,
            rr_scan_limit,
            wrap_allowed,
        )
        &&& forall|m: int|
            0 <= m < o.inspected ==> !#[trigger] self.scan_ends(
                m,
                wrap_bound,
                rr_touch_limit,
                rr_scan_limit,
                wrap_allowed,
            )
        &&& o.touched == self.used_below(end) - self.used_below(start)
        &&& o.stress_counted_inspected == if counts_stress {
            o.inspected
        } else {
            0
        }
        &&& o.wrapped == (o.inspected > 0 && end == wrap_bound)
        &&& o.next_cursor == if o.wrapped {
            0
        } else {
            end
        }
    }

    /// Scans the sweep from its cursor, without a change to the engine.
    pub fn phase2_scan_outcome(
        &self,
        wrap_bound: u64,
        rr_touch_limit: u64,
        rr_scan_limit: u64,
        stress_active: bool,
        wrap_allowed: bool,
        same_slot_as_stress_start: bool,
    ) -> (r: Result<Phase2ScanOutcome, RiskError>)
        ensures
            r is Err <==> self.rr_cursor_position >= wrap_bound && (wrap_bound > 0
                || rr_touch_limit == 0 || rr_scan_limit == 0),
            r is Err ==> r == Err::<Phase2ScanOutcome, RiskError>(RiskError::CorruptState),
            r is Ok ==> self.is_scan_outcome(
                r->Ok_0,
                wrap_bound,
                rr_touch_limit,
                rr_scan_limit,
                stress_active && wrap_allowed && !same_slot_as_stress_start,
                wrap_allowed,
            ),
    {
        let start: u64 = self.rr_cursor_position;
        if start >= wrap_bound && (wrap_bound > 0 || rr_touch_limit == 0 || rr_scan_limit == 0) {
            return Err(RiskError::CorruptState);
        }
        let counts_stress: bool = stress_active && wrap_allowed && !same_slot_as_stress_start;
        let scan_cap: u64 = min_u64(rr_scan_limit, wrap_bound);
        let mut i: u64 = start;
        let mut touched: u64 = 0;
        let mut inspected: u64 = 0;
        while inspected < scan_cap && touched < rr_touch_limit && i < wrap_bound && !(i
            == wrap_bound - 1 && !wrap_allowed)
            invariant
                start == self.rr_cursor_position,
                scan_cap == crate::wide_math::min_int(rr_scan_limit as int, wrap_bound as int),
                wrap_bound > 0 ==> i <= wrap_bound,
                wrap_bound == 0 ==> inspected == 0,
                i == start + inspected,
                inspected <= scan_cap,
                touched <= inspected,
                touched == self.used_below(i as int) - self.used_below(start as int),
                forall|m: int|
                    0 <= m < inspected ==> !#[trigger] self.scan_ends(
                        m,
                        wrap_bound,
                        rr_touch_limit,
                        rr_scan_limit,
                        wrap_allowed,
                    ),
            decreases wrap_bound - i,
        {
            assert(!self.scan_ends(
                inspected as int,
                wrap_bound,
                rr_touch_limit,
                rr_scan_limit,
                wrap_allowed,
            ));
            if i < MAX_ACCOUNTS as u64 && self.is_used(i as usize) {
                touched = touched + 1;
            }
            i = i + 1;
            inspected = inspected + 1;
        }
        let wrapped: bool = inspected > 0 && i == wrap_bound;
        Ok(
            Phase2ScanOutcome {
                next_cursor: if wrapped {
                    0
                } else {
                    i
                },
                inspected,
                touched,
                stress_counted_inspected: if counts_stress {
                    inspected
                } else {
                    0
                },
                wrapped,
            },
        )
    }

    /// Fee that account `i` can bear of a fee: capital, and room for debt.
    pub open spec fn bearable_fee(self, i: int, fee: int) -> int {
        let a = self.accounts@[i];
        let paid = crate::wide_math::min_int(fee, a.capital.get() as int);
        paid + crate::wide_math::min_int(fee - paid, a.fee_credits.get() + i128::MAX)
    }

    /// Whether a partial liquidation would leave account `i` above maintenance.
    pub open spec fn partial_would_heal(
        self,
        i: int,
        eff: i128,
        q: u128,
        oracle_price: u64,
    ) -> bool {
        let rest = crate::wide_math::abs_int(eff as int) - q;
        &&& 0 < q
        &&& rest > 0
        &&& self.accounts@[i].equity_maint() - self.bearable_fee(
            i,
            self.liquidation_fee_spec(q, oracle_price),
        ) > self.mm_of(rest as i128, oracle_price)
    }

    /// The liquidation that a hint asks for, if there is one that would help.
    #[verifier::opaque]
    pub open spec fn keeper_hint_spec(
        self,
        i: int,
        eff: i128,
        hint: Option<LiquidationPolicy>,
        oracle_price: u64,
    ) -> Result<Option<LiquidationPolicy>, RiskError> {
        if self.validate_shape_spec(i) is Err {
            Err(self.validate_shape_spec(i)->Err_0)
        } else {
            match hint {
                Some(LiquidationPolicy::ExactPartial(q)) => if self.partial_would_heal(
                    i,
                    eff,
                    q,
                    oracle_price,
                ) {
                    Ok(hint)
                } else {
                    Ok(None)
                },
                _ => Ok(hint),
            }
        }
    }

    /// Accepts a keeper's hint: a full close, or a part that would leave the account
    /// above maintenance. No hint, or a part that would not, is no liquidation.
    pub fn validate_keeper_hint(
        &self,
        idx: u16,
        eff: i128,
        hint: &Option<LiquidationPolicy>,
        oracle_price: u64,
    ) -> (r: Result<Option<LiquidationPolicy>, RiskError>)
        ensures
            r == self.keeper_hint_spec(idx as int, eff, *hint, oracle_price),
    {
        reveal(RiskEngine::keeper_hint_spec);
        let i: usize = idx as usize;
        self.validate_touched_account_shape(i)?;
        match *hint {
            None => Ok(None),
            Some(LiquidationPolicy::FullClose) => Ok(Some(LiquidationPolicy::FullClose)),
            Some(LiquidationPolicy::ExactPartial(q_close_q)) => {
                let abs_eff: u128 = abs_i128(eff);
                if q_close_q == 0 || q_close_q >= abs_eff {
                    return Ok(None);
                }
                let account = &self.accounts[i];
                let liq_fee: u128 = self.liquidation_fee(q_close_q, oracle_price);
                let fee_from_capital: u128 = min_u128(liq_fee, account.capital.get());
                let fee_shortfall: u128 = liq_fee - fee_from_capital;
                let fc_headroom: u128 = (account.fee_credits.get() + i128::MAX) as u128;
                let fee_from_debt: u128 = min_u128(fee_shortfall, fc_headroom);
                let fee_applied: u128 = fee_from_capital + fee_from_debt;
                let predicted_eq = self.account_equity_maint_raw_wide(account).checked_sub(
                    I256::from_u128(fee_applied),
                ).unwrap();
                let rem_eff: i128 = (abs_eff - q_close_q) as i128;
                let predicted_mm_req = self.maintenance_of(rem_eff, oracle_price);
                if !predicted_mm_req.is_below(predicted_eq) {
                    return Ok(None);
                }
                Ok(Some(LiquidationPolicy::ExactPartial(q_close_q)))
            },
        }
    }

    /// Liquidates a touched candidate, if it is settled, below maintenance, and the
    /// hint helps. Gives whether it was liquidated.
    pub open spec fn candidate_liquidated(
        self,
        i: int,
        hint: Option<LiquidationPolicy>,
        oracle_price: u64,
        ctx: InstructionContext,
    ) -> (RiskEngine, InstructionContext, Result<bool, RiskError>) {
        if ctx.pending_reset_long || ctx.pending_reset_short {
            (self, ctx, Ok(false))
        } else {
            match self.unsettled_live_spec(self.accounts@[i]) {
                Err(err) => (self, ctx, Err(err)),
                Ok(true) => (self, ctx, Ok(false)),
                Ok(false) => match self.effective_pos_q_spec(i, false) {
                    Err(err) => (self, ctx, Err(err)),
                    Ok(eff) => if eff == 0 || self.above_maintenance(
                        self.accounts@[i],
                        i,
                        oracle_price,
                    ) {
                        (self, ctx, Ok(false))
                    } else {
                        match self.keeper_hint_spec(i, eff, hint, oracle_price) {
                            Err(err) => (self, ctx, Err(err)),
                            Ok(None) => (self, ctx, Ok(false)),
                            Ok(Some(policy)) => self.liquidate_internal_spec(
                                i,
                                oracle_price,
                                policy,
                                ctx,
                            ),
                        }
                    },
                },
            }
        }
    }

    /// Brings a candidate up to date and liquidates it where that is due.
    #[verifier::opaque]
    pub open spec fn candidate_processed(
        self,
        i: int,
        hint: Option<LiquidationPolicy>,
        oracle_price: u64,
        ctx: InstructionContext,
    ) -> (RiskEngine, InstructionContext, Result<bool, RiskError>) {
        let (e, c, r) = self.touch_spec(i, ctx);
        if r is Err {
            (e, c, Err(r->Err_0))
        } else {
            e.candidate_liquidated(i, hint, oracle_price, c)
        }
    }

    fn process_candidate(
        &mut self,
        idx: u16,
        hint: &Option<LiquidationPolicy>,
        now_slot: u64,
        oracle_price: u64,
        ctx: &mut InstructionContext,
    ) -> (r: Result<bool, RiskError>)
        requires
            idx < MAX_ACCOUNTS,
            old(ctx).wf(),
        ensures
            (*final(self), *final(ctx), r) == old(self).candidate_processed(
                idx as int,
                *hint,
                oracle_price,
                *old(ctx),
            ),
            final(ctx).wf(),
    {
        reveal(RiskEngine::candidate_processed);
        let cidx: usize = idx as usize;
        self.touch_account_live_local(cidx, ctx)?;
        if ctx.pending_reset_long || ctx.pending_reset_short {
            return Ok(false);
        }
        if self.account_has_unsettled_live_effects(cidx)? {
            return Ok(false);
        }
        let eff: i128 = self.effective_pos_q_checked(cidx, false)?;
        if eff == 0 || self.is_above_maintenance_margin(&self.accounts[cidx], cidx, oracle_price) {
            return Ok(false);
        }
        match self.validate_keeper_hint(idx, eff, hint, oracle_price)? {
            None => Ok(false),
            Some(policy) => self.liquidate_at_oracle_internal(
                idx,
                now_slot,
                oracle_price,
                policy,
                ctx,
            ),
        }
    }

    /// Processes the candidates from `k` on, after these inspections, attempts and
    /// liquidations.
    pub open spec fn phase1_from(
        self,
        ctx: InstructionContext,
        candidates: Seq<(u16, Option<LiquidationPolicy>)>,
        k: int,
        oracle_price: u64,
        max_attempts: u16,
        max_inspections: u16,
        inspected: int,
        attempts: int,
        liquidations: int,
    ) -> (RiskEngine, InstructionContext, Result<(u32, bool), RiskError>)
        decreases candidates.len() - k,
    {
        if k < 0 || k >= candidates.len() || attempts >= max_attempts || inspected
            >= max_inspections || ctx.pending_reset_long || ctx.pending_reset_short {
            (self, ctx, Ok((liquidations as u32, attempts > 0)))
        } else {
            let (idx, hint) = candidates[k];
            if !self.account_exists(idx as int) {
                self.phase1_from(
                    ctx,
                    candidates,
                    k + 1,
                    oracle_price,
                    max_attempts,
                    max_inspections,
                    inspected + 1,
                    attempts,
                    liquidations,
                )
            } else {
                let (e, c, r) = self.candidate_processed(idx as int, hint, oracle_price, ctx);
                match r {
                    Err(err) => (e, c, Err(err)),
                    Ok(liquidated) => e.phase1_from(
                        c,
                        candidates,
                        k + 1,
                        oracle_price,
                        max_attempts,
                        max_inspections,
                        inspected + 1,
                        attempts + 1,
                        if liquidated {
                            liquidations + 1
                        } else {
                            liquidations
                        },
                    ),
                }
            }
        }
    }

    /// Processes candidates for liquidation.
    #[verifier::opaque]
    pub open spec fn phase1_spec(
        self,
        ctx: InstructionContext,
        candidates: Seq<(u16, Option<LiquidationPolicy>)>,
        oracle_price: u64,
        max_attempts: u16,
        max_inspections: u16,
    ) -> (RiskEngine, InstructionContext, Result<(u32, bool), RiskError>) {
        self.phase1_from(ctx, candidates, 0, oracle_price, max_attempts, max_inspections, 0, 0, 0)
    }

    /// Processes candidates for liquidation in the order given, until a reset is
    /// scheduled or a limit is reached. Gives the number of liquidations and whether
    /// an account was touched.
    pub fn run_keeper_phase1_candidates(
        &mut self,
        ctx: &mut InstructionContext,
        now_slot: u64,
        oracle_price: u64,
        ordered_candidates: &[(u16, Option<LiquidationPolicy>)],
        max_revalidations: u16,
        max_candidate_inspections: u16,
    ) -> (r: Result<(u32, bool), RiskError>)
        requires
            old(ctx).wf(),
        ensures
            (*final(self), *final(ctx), r) == old(self).phase1_spec(
                *old(ctx),
                ordered_candidates@,
                oracle_price,
                max_revalidations,
                max_candidate_inspections,
            ),
            final(ctx).wf(),
    {
        let mut inspected: u16 = 0;
        let mut attempts: u16 = 0;
        let mut num_liquidations: u32 = 0;
        let mut k: usize = 0;
        let ghost all = old(self).phase1_spec(
            *old(ctx),
            ordered_candidates@,
            oracle_price,
            max_revalidations,
            max_candidate_inspections,
        );
        proof {
            reveal(RiskEngine::phase1_spec);
        }
        while k < ordered_candidates.len() && attempts < max_revalidations && inspected
            < max_candidate_inspections && !ctx.pending_reset_long && !ctx.pending_reset_short
            invariant
                k <= ordered_candidates@.len(),
                attempts <= inspected,
                inspected <= k,
                num_liquidations <= attempts,
                ctx.wf(),
                all == old(self).phase1_spec(
                    *old(ctx),
                    ordered_candidates@,
                    oracle_price,
                    max_revalidations,
                    max_candidate_inspections,
                ),
                all == self.phase1_from(
                    *ctx,
                    ordered_candidates@,
                    k as int,
                    oracle_price,
                    max_revalidations,
                    max_candidate_inspections,
                    inspected as int,
                    attempts as int,
                    num_liquidations as int,
                ),
            decreases ordered_candidates@.len() - k,
        {
            let candidate = &ordered_candidates[k];
            let candidate_idx: u16 = candidate.0;
            k = k + 1;
            inspected = inspected + 1;
            if self.validate_used_account_slot(candidate_idx as usize).is_err() {
                continue ;
            }
            attempts = attempts + 1;
            let liquidated: bool = self.process_candidate(
                candidate_idx,
                &candidate.1,
                now_slot,
                oracle_price,
                ctx,
            )?;
            if liquidated {
                num_liquidations = num_liquidations + 1;
            }
        }
        Ok((num_liquidations, attempts > 0))
    }

    /// Touches the accounts in use of the slots from `i` to `end`. Gives how many.
    pub open spec fn sweep_from(self, ctx: InstructionContext, i: int, end: int, counted: int) -> (
        RiskEngine,
        InstructionContext,
        Result<u64, RiskError>,
    )
        decreases end - i,
    {
        if i >= end {
            (self, ctx, Ok(counted as u64))
        } else if !self.slot_used(i) {
            self.sweep_from(ctx, i + 1, end, counted)
        } else {
            let (e, c, r) = self.touch_spec(i, ctx);
            match r {
                Err(err) => (e, c, Err(err)),
                Ok(_) => e.sweep_from(c, i + 1, end, counted + 1),
            }
        }
    }

    /// Last slot of the sweep, exclusive.
    pub open spec fn sweep_end(self, window: u64) -> int {
        crate::wide_math::min_int(
            self.rr_cursor_position + window,
            self.params.max_accounts as int,
        )
    }

    /// The engine with the cursor of the sweep behind `end`. At the last slot the
    /// cursor goes back to the first, a sweep is counted, and the consumption of
    /// price movement starts anew.
    pub open spec fn cursor_advanced(self, end: int, wrap_bound: u64, now_slot: u64) -> (
        RiskEngine,
        Result<(), RiskError>,
    ) {
        if end >= wrap_bound {
            let (e, r) = RiskEngine { rr_cursor_position: 0, ..self }.advance_sweep_generation_spec(
                now_slot,
            );
            match r {
                Err(err) => (e, Err(err)),
                Ok(_) => (RiskEngine { price_move_consumed_bps_this_generation: 0, ..e }, Ok(())),
            }
        } else {
            (RiskEngine { rr_cursor_position: end as u64, ..self }, Ok(()))
        }
    }

    /// Sweeps the next window of slots, advances the cursor, and counts towards an
    /// open stress envelope.
    #[verifier::opaque]
    pub open spec fn swept(self, ctx: InstructionContext, window: u64, now_slot: u64) -> (
        RiskEngine,
        InstructionContext,
        Result<(), RiskError>,
    ) {
        let end = self.sweep_end(window);
        let (e, c, r) = self.sweep_from(ctx, self.rr_cursor_position as int, end, 0);
        match r {
            Err(err) => (e, c, Err(err)),
            Ok(counted) => {
                let (e2, r2) = e.cursor_advanced(end, self.params.max_accounts, now_slot);
                match r2 {
                    Err(err) => (e2, c, Err(err)),
                    Ok(_) => (
                        e2.stress_progress_spec(
                            now_slot,
                            if c.stress_envelope_restarted {
                                0
                            } else {
                                counted
                            },
                        ),
                        c,
                        Ok(()),
                    ),
                }
            },
        }
    }

    fn sweep_window(
        &mut self,
        ctx: &mut InstructionContext,
        cursor_start: u64,
        sweep_end: u64,
    ) -> (r: Result<u64, RiskError>)
        requires
            old(ctx).wf(),
        ensures
            (*final(self), *final(ctx), r) == old(self).sweep_from(
                *old(ctx),
                cursor_start as int,
                sweep_end as int,
                0,
            ),
            final(ctx).wf(),
    {
        let mut i: u64 = cursor_start;
        let mut counted: u64 = 0;
        let ghost all = old(self).sweep_from(
            *old(ctx),
            cursor_start as int,
            sweep_end as int,
            0,
        );
        while i < sweep_end
            invariant
                cursor_start <= i,
                counted <= i - cursor_start,
                ctx.wf(),
                all == old(self).sweep_from(
                    *old(ctx),
                    cursor_start as int,
                    sweep_end as int,
                    0,
                ),
                all == self.sweep_from(*ctx, i as int, sweep_end as int, counted as int),
            decreases sweep_end - i,
        {
            if i < MAX_ACCOUNTS as u64 && self.is_used(i as usize) {
                self.touch_account_live_local(i as usize, ctx)?;
                counted = counted + 1;
            }
            i = i + 1;
        }
        Ok(counted)
    }

    fn sweep(&mut self, ctx: &mut InstructionContext, rr_window_size: u64, now_slot: u64) -> (r:
        Result<(), RiskError>)
        requires
            old(ctx).wf(),
        ensures
            (*final(self), *final(ctx), r) == old(self).swept(*old(ctx), rr_window_size, now_slot),
            final(ctx).wf(),
    {
        reveal(RiskEngine::swept);
        let wrap_bound: u64 = self.params.max_accounts;
        let cursor_start: u64 = self.rr_cursor_position;
        let sweep_end: u64 = min_u64(cursor_start.saturating_add(rr_window_size), wrap_bound);
        let stress_counted_inspected: u64 = self.sweep_window(ctx, cursor_start, sweep_end)?;
        if sweep_end >= wrap_bound {
            self.rr_cursor_position = 0;
            self.advance_sweep_generation(now_slot)?;
            self.price_move_consumed_bps_this_generation = 0;
        } else {
            self.rr_cursor_position = sweep_end;
        }
        let counted: u64 = if ctx.stress_envelope_restarted {
            0
        } else {
            stress_counted_inspected
        };
        self.apply_stress_envelope_progress(now_slot, counted)?;
        Ok(())
    }

    /// What a crank accepts of its input.
    pub open spec fn crank_gate(
        self,
        now_slot: u64,
        oracle_price: u64,
        max_revalidations: u16,
        h_min: u64,
        h_max: u64,
        threshold_opt: Option<u128>,
        window: u64,
    ) -> Result<(), RiskError> {
        if self.public_post() is Err {
            self.public_post()
        } else if !RiskEngine::admission_pair_ok(h_min, h_max, self.params)
            || !RiskEngine::threshold_opt_ok(threshold_opt) || oracle_price == 0 || oracle_price
            > MAX_ORACLE_PRICE {
            Err(RiskError::Overflow)
        } else if self.market_mode != MarketMode::Live {
            Err(RiskError::Unauthorized)
        } else if max_revalidations + window > MAX_TOUCHED_PER_INSTRUCTION || now_slot
            < self.current_slot || now_slot < self.last_market_slot {
            Err(RiskError::Overflow)
        } else {
            Ok(())
        }
    }

    fn validate_crank(
        &self,
        now_slot: u64,
        oracle_price: u64,
        max_revalidations: u16,
        admit_h_min: u64,
        admit_h_max: u64,
        threshold_opt: Option<u128>,
        rr_window_size: u64,
    ) -> (r: Result<(), RiskError>)
        ensures
            r == self.crank_gate(
                now_slot,
                oracle_price,
                max_revalidations,
                admit_h_min,
                admit_h_max,
                threshold_opt,
                rr_window_size,
            ),
    {
        self.assert_public_postconditions()?;
        Self::validate_admission_pair(admit_h_min, admit_h_max, &self.params)?;
        Self::validate_threshold_opt(threshold_opt)?;
        if oracle_price == 0 || oracle_price > MAX_ORACLE_PRICE {
            return Err(RiskError::Overflow);
        }
        if self.market_mode != MarketMode::Live {
            return Err(RiskError::Unauthorized);
        }
        let combined_touch_budget: u64 = (max_revalidations as u64).saturating_add(rr_window_size);
        if combined_touch_budget > MAX_TOUCHED_PER_INSTRUCTION as u64 {
            return Err(RiskError::Overflow);
        }
        if now_slot < self.current_slot {
            return Err(RiskError::Overflow);
        }
        if now_slot < self.last_market_slot {
            return Err(RiskError::Overflow);
        }
        Ok(())
    }

    /// Candidates that a crank inspects at most.
    pub open spec fn inspection_limit(max_revalidations: u16) -> u16 {
        crate::wide_math::min_int(
            MAX_TOUCHED_PER_INSTRUCTION as int,
            max_revalidations * 4,
        ) as u16
    }

    /// A crank of an accrued market: candidates, sweep, end.
    #[verifier::opaque]
    pub open spec fn cranked(
        self,
        ctx: InstructionContext,
        now_slot: u64,
        oracle_price: u64,
        candidates: Seq<(u16, Option<LiquidationPolicy>)>,
        max_revalidations: u16,
        window: u64,
    ) -> (RiskEngine, Result<CrankOutcome, RiskError>) {
        let (e, c, r) = self.phase1_spec(
            ctx,
            candidates,
            oracle_price,
            max_revalidations,
            RiskEngine::inspection_limit(max_revalidations),
        );
        match r {
            Err(err) => (e, Err(err)),
            Ok((num_liquidations, _)) => {
                let (e2, c2, r2) = e.swept(c, window, now_slot);
                match r2 {
                    Err(err) => (e2, Err(err)),
                    Ok(_) => {
                        let (e3, r3) = e2.finish_spec(c2);
                        match r3 {
                            Err(err) => (e3, Err(err)),
                            Ok(_) => (e3, Ok(CrankOutcome { num_liquidations })),
                        }
                    },
                }
            },
        }
    }

    fn crank_accrued(
        &mut self,
        ctx: &mut InstructionContext,
        now_slot: u64,
        oracle_price: u64,
        ordered_candidates: &[(u16, Option<LiquidationPolicy>)],
        max_revalidations: u16,
        rr_window_size: u64,
    ) -> (r: Result<CrankOutcome, RiskError>)
        requires
            old(ctx).wf(),
        ensures
            (*final(self), r) == old(self).cranked(
                *old(ctx),
                now_slot,
                oracle_price,
                ordered_candidates@,
                max_revalidations,
                rr_window_size,
            ),
            r is Ok ==> final(self).public_post() is Ok,
    {
        reveal(RiskEngine::cranked);
        let four: u32 = max_revalidations as u32 * 4;
        let max_candidate_inspections: u16 = if four > MAX_TOUCHED_PER_INSTRUCTION as u32 {
            MAX_TOUCHED_PER_INSTRUCTION as u16
        } else {
            four as u16
        };
        let (num_liquidations, _) = self.run_keeper_phase1_candidates(
            ctx,
            now_slot,
            oracle_price,
            ordered_candidates,
            max_revalidations,
            max_candidate_inspections,
        )?;
        self.sweep(ctx, rr_window_size, now_slot)?;
        self.finish_instruction(ctx)?;
        Ok(CrankOutcome { num_liquidations })
    }

    /// Cranks the market.
    #[verifier::opaque]
    pub open spec fn keeper_crank_spec(
        self,
        now_slot: u64,
        oracle_price: u64,
        candidates: Seq<(u16, Option<LiquidationPolicy>)>,
        max_revalidations: u16,
        funding_rate_e9: i128,
        h_min: u64,
        h_max: u64,
        threshold_opt: Option<u128>,
        window: u64,
    ) -> (RiskEngine, Result<CrankOutcome, RiskError>) {
        let gate = self.crank_gate(
            now_slot,
            oracle_price,
            max_revalidations,
            h_min,
            h_max,
            threshold_opt,
            window,
        );
        let ctx = RiskEngine::admission(h_min, h_max, threshold_opt);
        if gate is Err {
            (self, Err(gate->Err_0))
        } else if self.active_close_present != 0 {
            let (e, _, r) = self.continue_close_core_spec(now_slot, ctx);
            match r {
                Err(err) => (e, Err(err)),
                Ok(_) => match e.public_post() {
                    Err(err) => (e, Err(err)),
                    Ok(_) => (e, Ok(CrankOutcome { num_liquidations: 0 })),
                },
            }
        } else {
            let (e, r) = self.accrue_market_to_spec(now_slot, oracle_price, funding_rate_e9);
            match r {
                Err(err) => (e, Err(err)),
                Ok(_) => e.cranked(
                    ctx,
                    now_slot,
                    oracle_price,
                    candidates,
                    max_revalidations,
                    window,
                ),
            }
        }
    }

    /// Cranks the market: accrues it, liquidates candidates, and sweeps the next
    /// window of slots. While a bankrupt close is in flight, a crank books its next
    /// chunk and does nothing else.
    pub fn keeper_crank_not_atomic(
        &mut self,
        now_slot: u64,
        oracle_price: u64,
        ordered_candidates: &[(u16, Option<LiquidationPolicy>)],
        max_revalidations: u16,
        funding_rate_e9: i128,
        admit_h_min: u64,
        admit_h_max: u64,
        admit_h_max_consumption_threshold_bps_opt: Option<u128>,
        rr_window_size: u64,
    ) -> (r: Result<CrankOutcome, RiskError>)
        ensures
            (*final(self), r) == old(self).keeper_crank_spec(
                now_slot,
                oracle_price,
                ordered_candidates@,
                max_revalidations,
                funding_rate_e9,
                admit_h_min,
                admit_h_max,
                admit_h_max_consumption_threshold_bps_opt,
                rr_window_size,
            ),
            r is Ok ==> final(self).public_post() is Ok,
    {
        reveal(RiskEngine::keeper_crank_spec);
        self.validate_crank(
            now_slot,
            oracle_price,
            max_revalidations,
            admit_h_min,
            admit_h_max,
            admit_h_max_consumption_threshold_bps_opt,
            rr_window_size,
        )?;
        let mut ctx = InstructionContext::new_with_admission_and_threshold(
            admit_h_min,
            admit_h_max,
            admit_h_max_consumption_threshold_bps_opt,
        );
        if self.active_close_present != 0 {
            let _ = self.continue_active_bankrupt_close_core(now_slot, &mut ctx)?;
            self.assert_public_postconditions()?;
            return Ok(CrankOutcome { num_liquidations: 0 });
        }
        self.accrue_market_to(now_slot, oracle_price, funding_rate_e9)?;
        self.crank_accrued(
            &mut ctx,
            now_slot,
            oracle_price,
            ordered_candidates,
            max_revalidations,
            rr_window_size,
        )
    }
}

} // verus!
