//! Conversion of released profit to capital, and the close of an account of a live
//! market.

use vstd::prelude::*;

use crate::constants::MAX_ACCOUNTS;
use crate::context::InstructionContext;
use crate::int128::U128;
use crate::types::{MarketMode, RiskEngine, RiskError};
use crate::wide_math::wide_mul_div_floor_u128;

verus! {

impl RiskEngine {
    /// Whether account `i` is healthy after a conversion: above maintenance with a
    /// position, not below zero without one.
    pub open spec fn conversion_health(self, i: int, oracle_price: u64) -> Result<(), RiskError> {
        match self.effective_pos_q_spec(i, false) {
            Err(err) => Err(err),
            Ok(eff) => {
                let healthy = if eff != 0 {
                    self.above_maintenance(self.accounts@[i], i, oracle_price)
                } else {
                    crate::equity::clamp_conservative(self.accounts@[i].equity_maint()) >= 0
                };
                if healthy {
                    Ok(())
                } else {
                    Err(RiskError::Undercollateralized)
                }
            },
        }
    }

    fn check_conversion_health(&self, idx: usize, oracle_price: u64) -> (r: Result<(), RiskError>)
        requires
            idx < MAX_ACCOUNTS,
        ensures
            r == self.conversion_health(idx as int, oracle_price),
    {
        let eff: i128 = self.effective_pos_q_checked(idx, false)?;
        if eff != 0 {
            if !self.is_above_maintenance_margin(&self.accounts[idx], idx, oracle_price) {
                return Err(RiskError::Undercollateralized);
            }
        } else {
            let eq: i128 = self.account_equity_maint_raw(&self.accounts[idx]);
            if eq < 0 {
                return Err(RiskError::Undercollateralized);
            }
        }
        Ok(())
    }

    /// What a conversion of `x` of the released profit of account `i` accepts.
    pub open spec fn conversion_gate(self, i: int, x: u128) -> Result<(), RiskError> {
        match self.released_pos_spec(i, false) {
            Err(err) => Err(err),
            Ok(released) => if x == 0 || x > released {
                Err(RiskError::Overflow)
            } else if self.accounts@[i].position_basis_q == 0 && x > self.max_safe_conversion(
                i,
                x,
                self.haircut().0,
                self.haircut().1,
            ) {
                Err(RiskError::Undercollateralized)
            } else {
                Ok(())
            },
        }
    }

    /// Moves `x` of the released profit of account `i` to capital, where it is worth
    /// `y`, and pays fee debt.
    pub open spec fn conversion_booked(self, i: int, x: u128, y: u128) -> (RiskEngine, Result<
        (),
        RiskError,
    >) {
        let (e, r) = self.consume_released_pnl_spec(i, x);
        if r is Err {
            (e, r)
        } else if e.accounts@[i].capital.get() + y > u128::MAX {
            (e, Err(RiskError::Overflow))
        } else {
            let (e2, r2) = e.set_capital_spec(i, (e.accounts@[i].capital.get() + y) as u128);
            if r2 is Err {
                (e2, r2)
            } else {
                e2.fee_debt_sweep_spec(i)
            }
        }
    }

    /// Converts `x` of the released profit of account `i` to capital under the
    /// haircut.
    #[verifier::opaque]
    pub open spec fn convert_core_spec(self, i: int, x: u128, oracle_price: u64) -> (
        RiskEngine,
        Result<(), RiskError>,
    ) {
        if self.conversion_gate(i, x) is Err {
            (self, self.conversion_gate(i, x))
        } else {
            let (e, r) = self.conversion_booked(i, x, self.haircut_of(x as int) as u128);
            if r is Err {
                (e, r)
            } else {
                (e, e.conversion_health(i, oracle_price))
            }
        }
    }

    /// Converts released profit of an account to capital under the haircut, and pays
    /// fee debt. The account has to be healthy after it.
    pub fn convert_released_pnl_core(&mut self, idx: usize, x_req: u128, oracle_price: u64) -> (r:
        Result<(), RiskError>)
        requires
            idx < MAX_ACCOUNTS,
        ensures
            (*final(self), r) == old(self).convert_core_spec(idx as int, x_req, oracle_price),
    {
        reveal(RiskEngine::convert_core_spec);
        let released: u128 = self.released_pos_checked(idx, false)?;
        if x_req == 0 || x_req > released {
            return Err(RiskError::Overflow);
        }
        let (h_num, h_den) = self.haircut_ratio();
        if self.accounts[idx].position_basis_q == 0 {
            let max_safe: u128 = self.max_safe_flat_conversion_released(idx, x_req, h_num, h_den);
            if x_req > max_safe {
                return Err(RiskError::Undercollateralized);
            }
        }
        proof {
            crate::equity::lemma_share_within(x_req as int, h_num as int, h_den as int);
        }
        let y: u128 = wide_mul_div_floor_u128(x_req, h_num, h_den);
        self.consume_released_pnl(idx, x_req)?;
        let new_cap: u128 = self.accounts[idx].capital.get().checked_add(y).ok_or(
            RiskError::Overflow,
        )?;
        self.set_capital(idx, new_cap)?;
        self.fee_debt_sweep(idx)?;
        self.check_conversion_health(idx, oracle_price)
    }

    /// Refuses an account that has not settled.
    pub open spec fn settled_check(self, i: int) -> Result<(), RiskError> {
        match self.unsettled_live_spec(self.accounts@[i]) {
            Err(err) => Err(err),
            Ok(true) => Err(RiskError::Undercollateralized),
            Ok(false) => Ok(()),
        }
    }

    fn ensure_settled(&self, idx: usize) -> (r: Result<(), RiskError>)
        requires
            idx < MAX_ACCOUNTS,
        ensures
            r == self.settled_check(idx as int),
    {
        if self.account_has_unsettled_live_effects(idx)? {
            return Err(RiskError::Undercollateralized);
        }
        Ok(())
    }

    /// Converts released profit of an account to capital, as an instruction.
    #[verifier::opaque]
    pub open spec fn convert_released_spec(
        self,
        idx: u16,
        x: u128,
        oracle_price: u64,
        now_slot: u64,
        funding_rate_e9: i128,
        h_min: u64,
        h_max: u64,
        threshold_opt: Option<u128>,
    ) -> (RiskEngine, Result<(), RiskError>) {
        let gate = self.live_gate(idx as int, oracle_price, h_min, h_max, threshold_opt);
        if gate is Err {
            (self, gate)
        } else {
            let (e, c, r) = self.accrue_and_touch_spec(
                idx as int,
                RiskEngine::admission(h_min, h_max, threshold_opt),
                now_slot,
                oracle_price,
                funding_rate_e9,
            );
            if r is Err {
                (e, r)
            } else if e.settled_check(idx as int) is Err {
                (e, e.settled_check(idx as int))
            } else {
                let (e2, r2) = e.convert_core_spec(idx as int, x, oracle_price);
                if r2 is Err {
                    (e2, r2)
                } else {
                    e2.finish_spec(c)
                }
            }
        }
    }

    /// Converts released profit of an account to capital, as an instruction.
    pub fn convert_released_pnl_not_atomic(
        &mut self,
        idx: u16,
        x_req: u128,
        oracle_price: u64,
        now_slot: u64,
        funding_rate_e9: i128,
        admit_h_min: u64,
        admit_h_max: u64,
        admit_h_max_consumption_threshold_bps_opt: Option<u128>,
    ) -> (r: Result<(), RiskError>)
        ensures
            (*final(self), r) == old(self).convert_released_spec(
                idx,
                x_req,
                oracle_price,
                now_slot,
                funding_rate_e9,
                admit_h_min,
                admit_h_max,
                admit_h_max_consumption_threshold_bps_opt,
            ),
            r is Ok ==> final(self).public_post() is Ok,
    {
        reveal(RiskEngine::convert_released_spec);
        let i: usize = idx as usize;
        self.validate_live_gate(
            i,
            oracle_price,
            admit_h_min,
            admit_h_max,
            admit_h_max_consumption_threshold_bps_opt,
        )?;
        let mut ctx = InstructionContext::new_with_admission_and_threshold(
            admit_h_min,
            admit_h_max,
            admit_h_max_consumption_threshold_bps_opt,
        );
        self.accrue_and_touch(i, &mut ctx, now_slot, oracle_price, funding_rate_e9)?;
        self.ensure_settled(i)?;
        self.convert_released_pnl_core(i, x_req, oracle_price)?;
        self.finish_instruction(&mut ctx)
    }

    /// Whether account `i` may be closed: no position, no profit or loss, no fee debt,
    /// no reserve, and the vault holds its capital.
    pub open spec fn closable(self, i: int) -> Result<(), RiskError> {
        let a = self.accounts@[i];
        match self.effective_pos_q_spec(i, false) {
            Err(err) => Err(err),
            Ok(eff) => if eff != 0 {
                Err(RiskError::Undercollateralized)
            } else if a.pnl > 0 {
                Err(RiskError::PnlNotWarmedUp)
            } else if a.pnl < 0 || a.fee_credits.get() < 0 || a.reserved_pnl != 0 || a.sched_present
                != 0 || a.pending_present != 0 {
                Err(RiskError::Undercollateralized)
            } else if a.capital.get() > self.vault.get() {
                Err(RiskError::InsufficientBalance)
            } else {
                Ok(())
            },
        }
    }

    fn ensure_closable(&self, idx: usize) -> (r: Result<(), RiskError>)
        requires
            idx < MAX_ACCOUNTS,
        ensures
            r == self.closable(idx as int),
    {
        let eff: i128 = self.effective_pos_q_checked(idx, false)?;
        if eff != 0 {
            return Err(RiskError::Undercollateralized);
        }
        let account = &self.accounts[idx];
        if account.pnl > 0 {
            return Err(RiskError::PnlNotWarmedUp);
        }
        if account.pnl < 0 {
            return Err(RiskError::Undercollateralized);
        }
        if account.fee_credits.get() < 0 {
            return Err(RiskError::Undercollateralized);
        }
        if account.reserved_pnl != 0 || account.sched_present != 0 || account.pending_present != 0 {
            return Err(RiskError::Undercollateralized);
        }
        if account.capital.get() > self.vault.get() {
            return Err(RiskError::InsufficientBalance);
        }
        Ok(())
    }

    /// Frees the slot of an account that holds nothing, and moves what is left over
    /// in an empty market to insurance.
    #[verifier::opaque]
    pub open spec fn release_slot(self, idx: u16) -> (RiskEngine, Result<(), RiskError>) {
        let (e, r) = self.free_slot_spec(idx);
        if r is Err {
            (e, r)
        } else {
            let (e2, r2) = e.sweep_empty_market_surplus_spec();
            if r2 is Err {
                (e2, r2)
            } else {
                (e2, e2.public_post())
            }
        }
    }

    /// Frees the slot of an account that holds nothing, and moves what is left over
    /// in an empty market to insurance.
    pub fn release_account_slot(&mut self, idx: u16) -> (r: Result<(), RiskError>)
        ensures
            (*final(self), r) == old(self).release_slot(idx),
            r is Ok ==> final(self).public_post() is Ok,
    {
        reveal(RiskEngine::release_slot);
        self.free_slot(idx)?;
        self.sweep_empty_market_surplus_to_insurance()?;
        self.assert_public_postconditions()
    }

    /// Pays out account `i`, carries out resets, and frees its slot.
    #[verifier::opaque]
    pub open spec fn account_paid_out(self, idx: u16, ctx: InstructionContext) -> (
        RiskEngine,
        Result<u128, RiskError>,
    ) {
        let capital = self.accounts@[idx as int].capital.get();
        let (e, r) = RiskEngine {
            vault: U128((self.vault.get() - capital) as u128),
            ..self
        }.set_capital_spec(idx as int, 0);
        if r is Err {
            (e, Err(r->Err_0))
        } else {
            let (e2, _, r2) = e.end_resets_spec(ctx);
            if r2 is Err {
                (e2, Err(r2->Err_0))
            } else {
                let (e3, r3) = e2.release_slot(idx);
                match r3 {
                    Err(err) => (e3, Err(err)),
                    Ok(_) => (e3, Ok(capital)),
                }
            }
        }
    }

    /// Closes an account and pays its capital out.
    #[verifier::opaque]
    pub open spec fn close_account_spec(
        self,
        idx: u16,
        now_slot: u64,
        oracle_price: u64,
        funding_rate_e9: i128,
        h_min: u64,
        h_max: u64,
        threshold_opt: Option<u128>,
    ) -> (RiskEngine, Result<u128, RiskError>) {
        if !RiskEngine::admission_pair_ok(h_min, h_max, self.params)
            || !RiskEngine::threshold_opt_ok(threshold_opt) {
            (self, Err(RiskError::Overflow))
        } else if self.market_mode != MarketMode::Live {
            (self, Err(RiskError::Unauthorized))
        } else if self.validate_shape_spec(idx as int) is Err {
            (self, Err(self.validate_shape_spec(idx as int)->Err_0))
        } else {
            let (e, c, r) = self.accrue_and_touch_spec(
                idx as int,
                RiskEngine::admission(h_min, h_max, threshold_opt),
                now_slot,
                oracle_price,
                funding_rate_e9,
            );
            if r is Err {
                (e, Err(r->Err_0))
            } else if e.settled_check(idx as int) is Err {
                (e, Err(e.settled_check(idx as int)->Err_0))
            } else {
                let (e2, r2) = e.finalize_touched_spec(c);
                if r2 is Err {
                    (e2, Err(r2->Err_0))
                } else if e2.closable(idx as int) is Err {
                    (e2, Err(e2.closable(idx as int)->Err_0))
                } else {
                    e2.account_paid_out(idx, c)
                }
            }
        }
    }

    /// Closes an account that holds only capital, and pays it out. Gives the amount.
    pub fn close_account_not_atomic(
        &mut self,
        idx: u16,
        now_slot: u64,
        oracle_price: u64,
        funding_rate_e9: i128,
        admit_h_min: u64,
        admit_h_max: u64,
        admit_h_max_consumption_threshold_bps_opt: Option<u128>,
    ) -> (r: Result<u128, RiskError>)
        ensures
            (*final(self), r) == old(self).close_account_spec(
                idx,
                now_slot,
                oracle_price,
                funding_rate_e9,
                admit_h_min,
                admit_h_max,
                admit_h_max_consumption_threshold_bps_opt,
            ),
            r is Ok ==> final(self).public_post() is Ok,
    {
        reveal(RiskEngine::close_account_spec);
        reveal(RiskEngine::account_paid_out);
        let i: usize = idx as usize;
        Self::validate_admission_pair(admit_h_min, admit_h_max, &self.params)?;
        Self::validate_threshold_opt(admit_h_max_consumption_threshold_bps_opt)?;
        if self.market_mode != MarketMode::Live {
            return Err(RiskError::Unauthorized);
        }
        self.validate_touched_account_shape(i)?;
        let mut ctx = InstructionContext::new_with_admission_and_threshold(
            admit_h_min,
            admit_h_max,
            admit_h_max_consumption_threshold_bps_opt,
        );
        self.accrue_and_touch(i, &mut ctx, now_slot, oracle_price, funding_rate_e9)?;
        self.ensure_settled(i)?;
        self.finalize_touched_accounts_post_live(&ctx)?;
        self.ensure_closable(i)?;
        let capital: u128 = self.accounts[i].capital.get();
        self.vault = U128::new(self.vault.get() - capital);
        self.set_capital(i, 0)?;
        self.run_end_of_instruction_resets(&mut ctx)?;
        self.release_account_slot(idx)?;
        Ok(capital)
    }
}

} // verus!
