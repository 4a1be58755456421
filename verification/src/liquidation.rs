//! Liquidation of an account below its maintenance requirement.

use vstd::prelude::*;

use crate::constants::{MAX_ACCOUNTS, MAX_ORACLE_PRICE, POS_SCALE};
use crate::context::InstructionContext;
use crate::types::{LiquidationPolicy, MarketMode, ReserveMode, RiskEngine, RiskError, Side};
use crate::wide_math::{
    abs_i128, ceil_div_positive_checked, div_rem_u256, max_u128, min_u128, widening_mul, U256,
};

verus! {

impl RiskEngine {
    /// Fee on a liquidated quantity: a share of its notional, within bounds.
    pub open spec fn liquidation_fee_spec(self, q_close_q: u128, oracle_price: u64) -> int {
        crate::wide_math::min_int(
            crate::wide_math::max_int(
                crate::wide_math::ceil_div(
                    q_close_q * oracle_price / (POS_SCALE as int)
                        * self.params.liquidation_fee_bps,
                    10_000,
                ),
                self.params.min_liquidation_abs.get() as int,
            ),
            self.params.liquidation_fee_cap.get() as int,
        )
    }

    /// Computes the fee on a liquidated quantity.
    pub fn liquidation_fee(&self, q_close_q: u128, oracle_price: u64) -> (r: u128)
        ensures
            r == self.liquidation_fee_spec(q_close_q, oracle_price),
    {
        let (notional, _) = div_rem_u256(
            widening_mul(q_close_q, oracle_price as u128),
            U256::from_u128(POS_SCALE),
        );
        let bps: u64 = self.params.liquidation_fee_bps;
        proof {
            assert(0 <= q_close_q * oracle_price <= u128::MAX * u64::MAX) by (nonlinear_arith)
                requires
                    0 <= q_close_q <= u128::MAX,
                    0 <= oracle_price <= u64::MAX,
            ;
            assert(0 <= notional@ <= u128::MAX * u64::MAX / (POS_SCALE as int));
            assert(0 <= notional@ * bps <= u128::MAX * u64::MAX / (POS_SCALE as int) * u64::MAX)
                by (nonlinear_arith)
                requires
                    0 <= notional@ <= u128::MAX * u64::MAX / (POS_SCALE as int),
                    0 <= bps <= u64::MAX,
            ;
        }
        let raw = ceil_div_positive_checked(
            notional.checked_mul(U256::from_u128(bps as u128)).unwrap(),
            U256::from_u128(10_000),
        );
        let cap: u128 = self.params.liquidation_fee_cap.get();
        match raw.try_into_u128() {
            Some(v) => min_u128(max_u128(v, self.params.min_liquidation_abs.get()), cap),
            None => cap,
        }
    }

    /// Gives account `i` a smaller position, pays its losses and charges the fee on
    /// the closed quantity.
    #[verifier::opaque]
    pub open spec fn liquidation_closed(
        self,
        i: int,
        new_eff: i128,
        q_close_q: u128,
        oracle_price: u64,
        ctx: InstructionContext,
    ) -> (RiskEngine, InstructionContext, Result<(), RiskError>) {
        let (e, r) = self.attach_effective_position_spec(i, new_eff);
        if r is Err {
            (e, ctx, r)
        } else {
            let (e2, c2, r2) = e.settle_losses_spec(i, Some(ctx));
            if r2 is Err {
                (e2, c2->0, r2)
            } else {
                let (e3, r3) = e2.charge_fee_spec(
                    i,
                    e2.liquidation_fee_spec(q_close_q, oracle_price) as u128,
                );
                match r3 {
                    Err(err) => (e3, c2->0, Err(err)),
                    Ok(_) => (e3, c2->0, Ok(())),
                }
            }
        }
    }

    fn close_liquidated_quantity(
        &mut self,
        idx: usize,
        new_eff: i128,
        q_close_q: u128,
        oracle_price: u64,
        ctx: &mut InstructionContext,
    ) -> (r: Result<(), RiskError>)
        requires
            idx < MAX_ACCOUNTS,
            old(ctx).wf(),
        ensures
            (*final(self), *final(ctx), r) == old(self).liquidation_closed(
                idx as int,
                new_eff,
                q_close_q,
                oracle_price,
                *old(ctx),
            ),
            final(ctx).wf(),
    {
        reveal(RiskEngine::liquidation_closed);
        self.attach_effective_position(idx, new_eff)?;
        self.settle_losses_with_context(idx, Some(&mut *ctx))?;
        let liq_fee: u128 = self.liquidation_fee(q_close_q, oracle_price);
        let _ = self.charge_fee_to_insurance(idx, liq_fee)?;
        Ok(())
    }

    /// Liquidates a part of the position of account `i`.
    #[verifier::opaque]
    pub open spec fn liquidate_partial(
        self,
        i: int,
        old_eff: i128,
        q_close_q: u128,
        oracle_price: u64,
        ctx: InstructionContext,
    ) -> (RiskEngine, InstructionContext, Result<bool, RiskError>) {
        let new_eff = if old_eff > 0 {
            old_eff - q_close_q
        } else {
            old_eff + q_close_q
        };
        if q_close_q == 0 || q_close_q >= crate::wide_math::abs_int(old_eff as int) {
            (self, ctx, Err(RiskError::Overflow))
        } else {
            let (e, c, r) = self.liquidation_closed(
                i,
                new_eff as i128,
                q_close_q,
                oracle_price,
                ctx,
            );
            if r is Err {
                (e, c, Err(r->Err_0))
            } else {
                let (e2, c2, r2) = e.enqueue_adl_spec(
                    c,
                    crate::sides::some_side(old_eff),
                    q_close_q,
                    0,
                );
                if r2 is Err {
                    (e2, c2, Err(r2->Err_0))
                } else if !e2.above_maintenance(e2.accounts@[i], i, oracle_price) {
                    (e2, c2, Err(RiskError::Undercollateralized))
                } else {
                    (e2, c2, Ok(true))
                }
            }
        }
    }

    fn liquidate_part(
        &mut self,
        idx: usize,
        old_eff: i128,
        side: Side,
        q_close_q: u128,
        oracle_price: u64,
        ctx: &mut InstructionContext,
    ) -> (r: Result<bool, RiskError>)
        requires
            idx < MAX_ACCOUNTS,
            old_eff != 0,
            side == crate::sides::some_side(old_eff),
            old(ctx).wf(),
        ensures
            (*final(self), *final(ctx), r) == old(self).liquidate_partial(
                idx as int,
                old_eff,
                q_close_q,
                oracle_price,
                *old(ctx),
            ),
            final(ctx).wf(),
    {
        reveal(RiskEngine::liquidate_partial);
        let abs_old_eff: u128 = abs_i128(old_eff);
        if q_close_q == 0 || q_close_q >= abs_old_eff {
            return Err(RiskError::Overflow);
        }
        let new_eff_abs_q: i128 = (abs_old_eff - q_close_q) as i128;
        let new_eff: i128 = if old_eff > 0 {
            new_eff_abs_q
        } else {
            -new_eff_abs_q
        };
        self.close_liquidated_quantity(idx, new_eff, q_close_q, oracle_price, ctx)?;
        self.enqueue_adl(ctx, side, q_close_q, 0)?;
        self.enforce_partial_liq_post_health(idx, oracle_price)?;
        Ok(true)
    }

    /// Loss of account `i` that nobody has paid, if it has no position.
    pub open spec fn deficit_of(self, i: int) -> Result<u128, RiskError> {
        let pnl = self.accounts@[i].pnl;
        match self.effective_pos_q_spec(i, false) {
            Err(err) => Err(err),
            Ok(eff) => if eff == 0 && pnl < 0 {
                if pnl == i128::MIN {
                    Err(RiskError::CorruptState)
                } else {
                    Ok((-(pnl as int)) as u128)
                }
            } else {
                Ok(0)
            },
        }
    }

    fn compute_deficit(&self, idx: usize) -> (r: Result<u128, RiskError>)
        requires
            idx < MAX_ACCOUNTS,
        ensures
            r == self.deficit_of(idx as int),
    {
        let eff_post: i128 = self.effective_pos_q_checked(idx, false)?;
        let pnl: i128 = self.accounts[idx].pnl;
        if eff_post == 0 && pnl < 0 {
            if pnl == i128::MIN {
                return Err(RiskError::CorruptState);
            }
            return Ok(abs_i128(pnl));
        }
        Ok(0)
    }

    /// Liquidates the whole position of account `i`. A loss that is left falls on
    /// insurance and the opposing side.
    #[verifier::opaque]
    pub open spec fn liquidate_full(
        self,
        i: int,
        old_eff: i128,
        oracle_price: u64,
        ctx: InstructionContext,
    ) -> (RiskEngine, InstructionContext, Result<bool, RiskError>) {
        let q_close_q = crate::wide_math::abs_int(old_eff as int) as u128;
        let (e, c, r) = self.liquidation_closed(i, 0, q_close_q, oracle_price, ctx);
        if r is Err {
            (e, c, Err(r->Err_0))
        } else {
            match e.deficit_of(i) {
                Err(err) => (e, c, Err(err)),
                Ok(d) => {
                    let (e2, c2, r2) = e.enqueue_adl_spec(
                        c,
                        crate::sides::some_side(old_eff),
                        q_close_q,
                        d,
                    );
                    if r2 is Err {
                        (e2, c2, Err(r2->Err_0))
                    } else if d == 0 {
                        (e2, c2, Ok(true))
                    } else {
                        let (e3, _, r3) = e2.set_pnl_with_reserve_spec(
                            i,
                            0,
                            ReserveMode::NoPositiveIncreaseAllowed,
                            None,
                        );
                        match r3 {
                            Err(err) => (e3, c2, Err(err)),
                            Ok(_) => (e3, c2, Ok(true)),
                        }
                    }
                },
            }
        }
    }

    fn liquidate_whole(
        &mut self,
        idx: usize,
        old_eff: i128,
        side: Side,
        oracle_price: u64,
        ctx: &mut InstructionContext,
    ) -> (r: Result<bool, RiskError>)
        requires
            idx < MAX_ACCOUNTS,
            old_eff != 0,
            side == crate::sides::some_side(old_eff),
            old(ctx).wf(),
        ensures
            (*final(self), *final(ctx), r) == old(self).liquidate_full(
                idx as int,
                old_eff,
                oracle_price,
                *old(ctx),
            ),
            final(ctx).wf(),
    {
        reveal(RiskEngine::liquidate_full);
        let q_close_q: u128 = abs_i128(old_eff);
        self.close_liquidated_quantity(idx, 0, q_close_q, oracle_price, ctx)?;
        let d: u128 = self.compute_deficit(idx)?;
        self.enqueue_adl(ctx, side, q_close_q, d)?;
        if d != 0 {
            self.set_pnl_with_reserve(idx, 0, ReserveMode::NoPositiveIncreaseAllowed, None)?;
        }
        Ok(true)
    }

    /// Liquidates an account that is up to date. Gives whether there was anything to
    /// liquidate.
    #[verifier::opaque]
    pub open spec fn liquidate_internal_spec(
        self,
        i: int,
        oracle_price: u64,
        policy: LiquidationPolicy,
        ctx: InstructionContext,
    ) -> (RiskEngine, InstructionContext, Result<bool, RiskError>) {
        if !self.account_exists(i) {
            (self, ctx, Ok(false))
        } else if oracle_price == 0 || oracle_price > MAX_ORACLE_PRICE {
            (self, ctx, Err(RiskError::Overflow))
        } else {
            match self.effective_pos_q_spec(i, false) {
                Err(err) => (self, ctx, Err(err)),
                Ok(old_eff) => if old_eff == 0 || self.above_maintenance(
                    self.accounts@[i],
                    i,
                    oracle_price,
                ) {
                    (self, ctx, Ok(false))
                } else {
                    match policy {
                        LiquidationPolicy::ExactPartial(q) => self.liquidate_partial(
                            i,
                            old_eff,
                            q,
                            oracle_price,
                            ctx,
                        ),
                        LiquidationPolicy::FullClose => self.liquidate_full(
                            i,
                            old_eff,
                            oracle_price,
                            ctx,
                        ),
                    }
                },
            }
        }
    }

    /// Liquidates an account that is up to date. Gives whether there was anything to
    /// liquidate.
    pub fn liquidate_at_oracle_internal(
        &mut self,
        idx: u16,
        _now_slot: u64,
        oracle_price: u64,
        policy: LiquidationPolicy,
        ctx: &mut InstructionContext,
    ) -> (r: Result<bool, RiskError>)
        requires
            old(ctx).wf(),
        ensures
            (*final(self), *final(ctx), r) == old(self).liquidate_internal_spec(
                idx as int,
                oracle_price,
                policy,
                *old(ctx),
            ),
            final(ctx).wf(),
    {
        reveal(RiskEngine::liquidate_internal_spec);
        let i: usize = idx as usize;
        if i >= MAX_ACCOUNTS || idx as u64 >= self.params.max_accounts || !self.is_used(i) {
            return Ok(false);
        }
        if oracle_price == 0 || oracle_price > MAX_ORACLE_PRICE {
            return Err(RiskError::Overflow);
        }
        let old_eff: i128 = self.effective_pos_q_checked(i, false)?;
        if old_eff == 0 {
            return Ok(false);
        }
        if self.is_above_maintenance_margin(&self.accounts[i], i, oracle_price) {
            return Ok(false);
        }
        let liq_side = if old_eff > 0 {
            Side::Long
        } else {
            Side::Short
        };
        match policy {
            LiquidationPolicy::ExactPartial(q_close_q) => self.liquidate_part(
                i,
                old_eff,
                liq_side,
                q_close_q,
                oracle_price,
                ctx,
            ),
            LiquidationPolicy::FullClose => self.liquidate_whole(
                i,
                old_eff,
                liq_side,
                oracle_price,
                ctx,
            ),
        }
    }

    /// Refuses an account that is not above maintenance after a partial liquidation.
    pub fn enforce_partial_liq_post_health(&self, idx: usize, oracle_price: u64) -> (r: Result<
        (),
        RiskError,
    >)
        requires
            idx < MAX_ACCOUNTS,
        ensures
            r == if self.above_maintenance(
                self.accounts@[idx as int],
                idx as int,
                oracle_price,
            ) {
                Ok::<(), RiskError>(())
            } else {
                Err(RiskError::Undercollateralized)
            },
    {
        if !self.is_above_maintenance_margin(&self.accounts[idx], idx, oracle_price) {
            return Err(RiskError::Undercollateralized);
        }
        Ok(())
    }

    /// What a liquidation accepts.
    pub open spec fn liquidation_gate(
        self,
        i: int,
        h_min: u64,
        h_max: u64,
        threshold_opt: Option<u128>,
    ) -> Result<(), RiskError> {
        if !RiskEngine::admission_pair_ok(h_min, h_max, self.params)
            || !RiskEngine::threshold_opt_ok(threshold_opt) {
            Err(RiskError::Overflow)
        } else if self.validate_shape_spec(i) is Err {
            self.validate_shape_spec(i)
        } else if self.market_mode != MarketMode::Live {
            Err(RiskError::Unauthorized)
        } else {
            Ok(())
        }
    }

    /// Brings an account up to date and liquidates it if it is below maintenance.
    #[verifier::opaque]
    pub open spec fn liquidate_spec(
        self,
        idx: u16,
        now_slot: u64,
        oracle_price: u64,
        policy: LiquidationPolicy,
        funding_rate_e9: i128,
        h_min: u64,
        h_max: u64,
        threshold_opt: Option<u128>,
    ) -> (RiskEngine, Result<bool, RiskError>) {
        let gate = self.liquidation_gate(idx as int, h_min, h_max, threshold_opt);
        if gate is Err {
            (self, Err(gate->Err_0))
        } else {
            let (e, c, r) = self.accrue_and_touch_spec(
                idx as int,
                RiskEngine::admission(h_min, h_max, threshold_opt),
                now_slot,
                oracle_price,
                funding_rate_e9,
            );
            if r is Err {
                (e, Err(r->Err_0))
            } else {
                let (e2, c2, r2) = e.liquidate_internal_spec(idx as int, oracle_price, policy, c);
                match r2 {
                    Err(err) => (e2, Err(err)),
                    Ok(liquidated) => {
                        let (e3, r3) = e2.finish_spec(c2);
                        match r3 {
                            Err(err) => (e3, Err(err)),
                            Ok(_) => (e3, Ok(liquidated)),
                        }
                    },
                }
            }
        }
    }

    /// Brings an account up to date and liquidates it if it is below maintenance.
    /// Gives whether it was liquidated.
    pub fn liquidate_at_oracle_not_atomic(
        &mut self,
        idx: u16,
        now_slot: u64,
        oracle_price: u64,
        policy: LiquidationPolicy,
        funding_rate_e9: i128,
        admit_h_min: u64,
        admit_h_max: u64,
        admit_h_max_consumption_threshold_bps_opt: Option<u128>,
    ) -> (r: Result<bool, RiskError>)
        ensures
            (*final(self), r) == old(self).liquidate_spec(
                idx,
                now_slot,
                oracle_price,
                policy,
                funding_rate_e9,
                admit_h_min,
                admit_h_max,
                admit_h_max_consumption_threshold_bps_opt,
            ),
            r is Ok ==> final(self).public_post() is Ok,
    {
        reveal(RiskEngine::liquidate_spec);
        Self::validate_admission_pair(admit_h_min, admit_h_max, &self.params)?;
        Self::validate_threshold_opt(admit_h_max_consumption_threshold_bps_opt)?;
        self.validate_touched_account_shape(idx as usize)?;
        if self.market_mode != MarketMode::Live {
            return Err(RiskError::Unauthorized);
        }
        let mut ctx = InstructionContext::new_with_admission_and_threshold(
            admit_h_min,
            admit_h_max,
            admit_h_max_consumption_threshold_bps_opt,
        );
        self.accrue_and_touch(idx as usize, &mut ctx, now_slot, oracle_price, funding_rate_e9)?;
        let result: bool = self.liquidate_at_oracle_internal(
            idx,
            now_slot,
            oracle_price,
            policy,
            &mut ctx,
        )?;
        self.finish_instruction(&mut ctx)?;
        Ok(result)
    }
}

} // verus!
