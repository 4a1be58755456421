//! Settlement of losses against capital, fees and fee debt, and the touch that an
//! instruction gives to an account.

use vstd::prelude::*;

use crate::constants::{MAX_ACCOUNTS, MAX_PROTOCOL_FEE_ABS};
use crate::context::InstructionContext;
use crate::int128::{I128, U128};
use crate::sides::side_of_i128;
use crate::types::{Account, InsuranceFund, MarketMode, RiskEngine, RiskError};
use crate::wide_math::{
    abs_i128, fee_debt_u128_checked, min_u128, widening_mul, U256,
};

verus! {

impl RiskEngine {
    /// Sets the bankruptcy lock, with or without an instruction.
    pub open spec fn trigger_lock_opt(self, ctx: Option<InstructionContext>) -> (
        RiskEngine,
        Option<InstructionContext>,
        Result<(), RiskError>,
    ) {
        match ctx {
            Some(c) => {
                let (e, c2, r) = self.trigger_bankruptcy_hmax_lock_spec(c);
                (e, Some(c2), r)
            },
            None => (self.with_hmax_lock(), None, Ok(())),
        }
    }

    fn trigger_lock(&mut self, ctx: Option<&mut InstructionContext>) -> (r: Result<(), RiskError>)
        requires
            ctx matches Some(c) ==> c.wf(),
        ensures
            match ctx {
                Some(c) => {
                    &&& (*final(self), Some(*final(c)), r) == old(self).trigger_lock_opt(Some(*c))
                    &&& final(c).wf()
                },
                None => (*final(self), None::<InstructionContext>, r)
                    == old(self).trigger_lock_opt(None),
            },
    {
        match ctx {
            Some(c) => self.trigger_bankruptcy_hmax_lock(c),
            None => {
                self.trigger_bankruptcy_hmax_lock_without_context();
                Ok(())
            },
        }
    }

    /// Pays the loss of account `i` out of its capital.
    pub open spec fn pay_loss(self, i: int) -> (RiskEngine, Result<(), RiskError>) {
        let a = self.accounts@[i];
        let pay = crate::wide_math::min_int(-(a.pnl as int), a.capital.get() as int);
        if pay == 0 {
            (self, Ok(()))
        } else {
            let (e, r) = self.set_capital_spec(i, (a.capital.get() - pay) as u128);
            match r {
                Err(err) => (e, Err(err)),
                Ok(_) => e.set_pnl_spec(i, (a.pnl + pay) as i128),
            }
        }
    }

    /// Pays the loss of account `i` out of its capital. A loss that is left on a
    /// live market sets the bankruptcy lock.
    #[verifier::opaque]
    pub open spec fn settle_losses_spec(self, i: int, ctx: Option<InstructionContext>) -> (
        RiskEngine,
        Option<InstructionContext>,
        Result<(), RiskError>,
    ) {
        let a = self.accounts@[i];
        if a.pnl >= 0 {
            (self, ctx, Ok(()))
        } else if a.pnl == i128::MIN {
            (self, ctx, Err(RiskError::CorruptState))
        } else {
            let (e, r) = self.pay_loss(i);
            if r is Err {
                (e, ctx, r)
            } else if e.market_mode == MarketMode::Live && e.accounts@[i].pnl < 0
                && e.accounts@[i].capital.get() == 0 {
                e.trigger_lock_opt(ctx)
            } else {
                (e, ctx, Ok(()))
            }
        }
    }

    /// Pays the loss of an account out of its capital. A loss that is left on a live
    /// market sets the bankruptcy lock.
    pub fn settle_losses_with_context(
        &mut self,
        idx: usize,
        ctx: Option<&mut InstructionContext>,
    ) -> (r: Result<(), RiskError>)
        requires
            idx < MAX_ACCOUNTS,
            ctx matches Some(c) ==> c.wf(),
        ensures
            match ctx {
                Some(c) => {
                    &&& (*final(self), Some(*final(c)), r) == old(self).settle_losses_spec(
                        idx as int,
                        Some(*c),
                    )
                    &&& final(c).wf()
                },
                None => (*final(self), None::<InstructionContext>, r)
                    == old(self).settle_losses_spec(idx as int, None),
            },
    {
        reveal(RiskEngine::settle_losses_spec);
        let pnl: i128 = self.accounts[idx].pnl;
        if pnl >= 0 {
            return Ok(());
        }
        if pnl == i128::MIN {
            return Err(RiskError::CorruptState);
        }
        let need: u128 = abs_i128(pnl);
        let cap: u128 = self.accounts[idx].capital.get();
        let pay: u128 = min_u128(need, cap);
        if pay > 0 {
            self.set_capital(idx, cap - pay)?;
            self.set_pnl(idx, pnl + (pay as i128))?;
        }
        if self.market_mode == MarketMode::Live && self.accounts[idx].pnl < 0
            && self.accounts[idx].capital.get() == 0 {
            self.trigger_lock(ctx)?;
        }
        Ok(())
    }

    /// Pays the loss of an account out of its capital, outside of an instruction.
    pub fn settle_losses(&mut self, idx: usize) -> (r: Result<(), RiskError>)
        requires
            idx < MAX_ACCOUNTS,
        ensures
            (*final(self), None::<InstructionContext>, r) == old(self).settle_losses_spec(
                idx as int,
                None,
            ),
    {
        self.settle_losses_with_context(idx, None)
    }

    /// Takes the loss of account `i` over, if it has no position.
    #[verifier::opaque]
    pub open spec fn resolve_flat_negative_spec(self, i: int, ctx: Option<InstructionContext>) -> (
        RiskEngine,
        Option<InstructionContext>,
        Result<(), RiskError>,
    ) {
        let a = self.accounts@[i];
        match self.effective_pos_q_spec(i, false) {
            Err(err) => (self, ctx, Err(err)),
            Ok(eff) => if eff != 0 || a.pnl >= 0 {
                (self, ctx, Ok(()))
            } else if a.pnl == i128::MIN {
                (self, ctx, Err(RiskError::CorruptState))
            } else {
                let (e, c, r) = if self.market_mode == MarketMode::Live {
                    self.trigger_lock_opt(ctx)
                } else {
                    (self, ctx, Ok(()))
                };
                if r is Err {
                    (e, c, r)
                } else {
                    let (e2, r2) = e.with_loss_absorbed((-(a.pnl as int)) as u128).set_pnl_spec(
                        i,
                        0,
                    );
                    (e2, c, r2)
                }
            },
        }
    }

    /// Takes the loss of an account without a position over: insurance pays, the
    /// rest is recorded, and the account is left with no loss.
    pub fn resolve_flat_negative_with_context(
        &mut self,
        idx: usize,
        ctx: Option<&mut InstructionContext>,
    ) -> (r: Result<(), RiskError>)
        requires
            idx < MAX_ACCOUNTS,
            ctx matches Some(c) ==> c.wf(),
        ensures
            match ctx {
                Some(c) => {
                    &&& (*final(self), Some(*final(c)), r) == old(self).resolve_flat_negative_spec(
                        idx as int,
                        Some(*c),
                    )
                    &&& final(c).wf()
                },
                None => (*final(self), None::<InstructionContext>, r)
                    == old(self).resolve_flat_negative_spec(idx as int, None),
            },
    {
        reveal(RiskEngine::resolve_flat_negative_spec);
        let eff: i128 = self.effective_pos_q_checked(idx, false)?;
        if eff != 0 {
            return Ok(());
        }
        let pnl: i128 = self.accounts[idx].pnl;
        if pnl < 0 {
            if pnl == i128::MIN {
                return Err(RiskError::CorruptState);
            }
            let loss: u128 = abs_i128(pnl);
            if self.market_mode == MarketMode::Live {
                self.trigger_lock(ctx)?;
            }
            self.absorb_protocol_loss(loss);
            self.set_pnl(idx, 0)?;
        }
        Ok(())
    }

    /// Takes the loss of an account without a position over, outside of an
    /// instruction.
    pub fn resolve_flat_negative(&mut self, idx: usize) -> (r: Result<(), RiskError>)
        requires
            idx < MAX_ACCOUNTS,
        ensures
            (*final(self), None::<InstructionContext>, r) == old(self).resolve_flat_negative_spec(
                idx as int,
                None,
            ),
    {
        self.resolve_flat_negative_with_context(idx, None)
    }

    /// Moves `pay` of the capital of account `i` to the insurance fund.
    pub open spec fn pay_to_insurance(self, i: int, pay: u128) -> (RiskEngine, Result<
        (),
        RiskError,
    >) {
        let a = self.accounts@[i];
        let (e, r) = self.set_capital_spec(i, (a.capital.get() - pay) as u128);
        match r {
            Err(err) => (e, Err(err)),
            Ok(_) => if e.insurance_fund.balance.get() + pay > u128::MAX {
                (e, Err(RiskError::Overflow))
            } else {
                (
                    RiskEngine {
                        insurance_fund: InsuranceFund {
                            balance: U128((e.insurance_fund.balance.get() + pay) as u128),
                        },
                        ..e
                    },
                    Ok(()),
                )
            },
        }
    }

    fn move_capital_to_insurance(&mut self, idx: usize, pay: u128) -> (r: Result<(), RiskError>)
        requires
            idx < MAX_ACCOUNTS,
            pay <= old(self).accounts@[idx as int].capital.get(),
        ensures
            (*final(self), r) == old(self).pay_to_insurance(idx as int, pay),
    {
        let cap: u128 = self.accounts[idx].capital.get();
        self.set_capital(idx, cap - pay)?;
        self.insurance_fund.balance = U128::new(
            self.insurance_fund.balance.get().checked_add(pay).ok_or(RiskError::Overflow)?,
        );
        Ok(())
    }

    /// The engine with the fee credits of account `i` replaced.
    pub open spec fn with_fee_credits(self, i: int, v: i128) -> RiskEngine {
        self.with_account(i, Account { fee_credits: I128(v), ..self.accounts@[i] })
    }

    /// Pays the fee debt of account `i` out of its capital.
    #[verifier::opaque]
    pub open spec fn fee_debt_sweep_spec(self, i: int) -> (RiskEngine, Result<(), RiskError>) {
        let a = self.accounts@[i];
        let pay = crate::wide_math::min_int(a.fee_debt(), a.capital.get() as int) as u128;
        match self.validate_shape_spec(i) {
            Err(err) => (self, Err(err)),
            Ok(_) => if pay == 0 {
                (self, Ok(()))
            } else {
                let (e, r) = self.set_capital_spec(i, (a.capital.get() - pay) as u128);
                match r {
                    Err(err) => (e, Err(err)),
                    Ok(_) => {
                        let e2 = e.with_fee_credits(i, (a.fee_credits.get() + pay) as i128);
                        if e2.insurance_fund.balance.get() + pay > u128::MAX {
                            (e2, Err(RiskError::Overflow))
                        } else {
                            (
                                RiskEngine {
                                    insurance_fund: InsuranceFund {
                                        balance: U128(
                                            (e2.insurance_fund.balance.get() + pay) as u128,
                                        ),
                                    },
                                    ..e2
                                },
                                Ok(()),
                            )
                        }
                    },
                }
            },
        }
    }

    /// Pays the fee debt of an account out of its capital. What it cannot pay stays
    /// as debt. Profit is not used.
    pub fn fee_debt_sweep(&mut self, idx: usize) -> (r: Result<(), RiskError>)
        ensures
            (*final(self), r) == old(self).fee_debt_sweep_spec(idx as int),
    {
        reveal(RiskEngine::fee_debt_sweep_spec);
        self.validate_touched_account_shape(idx)?;
        let fc: i128 = self.accounts[idx].fee_credits.get();
        let debt: u128 = fee_debt_u128_checked(fc);
        let cap: u128 = self.accounts[idx].capital.get();
        let pay: u128 = min_u128(debt, cap);
        if pay > 0 {
            self.set_capital(idx, cap - pay)?;
            proof {
                reveal(RiskEngine::set_capital_spec);
            }
            self.accounts[idx].fee_credits = I128::new(fc + (pay as i128));
            self.insurance_fund.balance = U128::new(
                self.insurance_fund.balance.get().checked_add(pay).ok_or(RiskError::Overflow)?,
            );
        }
        Ok(())
    }

    /// Charges a fee to account `i`: capital first, then fee credits.
    #[verifier::opaque]
    pub open spec fn charge_fee_spec(self, i: int, fee: u128) -> (RiskEngine, Result<
        (u128, u128, u128),
        RiskError,
    >) {
        let a = self.accounts@[i];
        let paid = crate::wide_math::min_int(fee as int, a.capital.get() as int) as u128;
        let debited = crate::wide_math::min_int(
            fee - paid,
            a.fee_credits.get() + i128::MAX,
        ) as u128;
        match self.validate_shape_spec(i) {
            Err(err) => (self, Err(err)),
            Ok(_) => if fee > MAX_PROTOCOL_FEE_ABS {
                (self, Err(RiskError::Overflow))
            } else {
                let (e, r) = if paid > 0 {
                    self.pay_to_insurance(i, paid)
                } else {
                    (self, Ok(()))
                };
                match r {
                    Err(err) => (e, Err(err)),
                    Ok(_) => (
                        if debited > 0 {
                            e.with_fee_credits(i, (a.fee_credits.get() - debited) as i128)
                        } else {
                            e
                        },
                        Ok(
                            (paid, (paid + debited) as u128, (fee - paid - debited) as u128),
                        ),
                    ),
                }
            },
        }
    }

    /// Charges a fee to an account: capital pays the insurance fund, a shortfall
    /// becomes fee debt, and what debt cannot hold is dropped. Gives what was paid,
    /// what the account lost, and what was dropped.
    pub fn charge_fee_to_insurance(&mut self, idx: usize, fee: u128) -> (r: Result<
        (u128, u128, u128),
        RiskError,
    >)
        ensures
            (*final(self), r) == old(self).charge_fee_spec(idx as int, fee),
    {
        reveal(RiskEngine::charge_fee_spec);
        self.validate_touched_account_shape(idx)?;
        let current_fc: i128 = self.accounts[idx].fee_credits.get();
        if fee > MAX_PROTOCOL_FEE_ABS {
            return Err(RiskError::Overflow);
        }
        let cap: u128 = self.accounts[idx].capital.get();
        let fee_paid: u128 = min_u128(fee, cap);
        if fee_paid > 0 {
            self.move_capital_to_insurance(idx, fee_paid)?;
            proof {
                reveal(RiskEngine::set_capital_spec);
            }
        }
        let fee_shortfall: u128 = fee - fee_paid;
        let headroom: u128 = (current_fc + i128::MAX) as u128;
        let collectible: u128 = min_u128(fee_shortfall, headroom);
        if collectible > 0 {
            let new_fc: i128 = current_fc - (collectible as i128);
            self.accounts[idx].fee_credits = I128::new(new_fc);
        }
        Ok((fee_paid, fee_paid + collectible, fee - fee_paid - collectible))
    }

    /// Recurring fee over `dt` slots, up to the most that one charge may take.
    pub open spec fn recurring_fee(rate: u128, dt: int) -> u128 {
        crate::wide_math::min_int(rate * dt, MAX_PROTOCOL_FEE_ABS as int) as u128
    }

    /// The engine with the fee slot of account `i` replaced.
    pub open spec fn with_last_fee_slot(self, i: int, slot: u64) -> RiskEngine {
        self.with_account(i, Account { last_fee_slot: slot, ..self.accounts@[i] })
    }

    /// Charges recurring fees to account `i` up to a slot.
    #[verifier::opaque]
    pub open spec fn sync_fee_spec(self, i: int, anchor: u64, rate: u128) -> (RiskEngine, Result<
        (),
        RiskError,
    >) {
        let last = self.accounts@[i].last_fee_slot;
        match self.validate_shape_spec(i) {
            Err(err) => (self, Err(err)),
            Ok(_) => if anchor < last || anchor > self.fee_slot_anchor() {
                (self, Err(RiskError::Overflow))
            } else if anchor == last {
                (self, Ok(()))
            } else if rate == 0 {
                (self.with_last_fee_slot(i, anchor), Ok(()))
            } else {
                let (e, r) = self.charge_fee_spec(
                    i,
                    RiskEngine::recurring_fee(rate, anchor - last),
                );
                match r {
                    Err(err) => (e, Err(err)),
                    Ok(_) => (e.with_last_fee_slot(i, anchor), Ok(())),
                }
            },
        }
    }

    /// Charges recurring fees to an account up to a slot, and moves its fee slot
    /// there. A second call with the same slot changes nothing.
    pub fn sync_account_fee_to_slot(
        &mut self,
        idx: usize,
        fee_slot_anchor: u64,
        fee_rate_per_slot: u128,
    ) -> (r: Result<(), RiskError>)
        ensures
            (*final(self), r) == old(self).sync_fee_spec(
                idx as int,
                fee_slot_anchor,
                fee_rate_per_slot,
            ),
    {
        reveal(RiskEngine::sync_fee_spec);
        self.validate_touched_account_shape(idx)?;
        let last: u64 = self.accounts[idx].last_fee_slot;
        if fee_slot_anchor < last {
            return Err(RiskError::Overflow);
        }
        if fee_slot_anchor > self.fee_slot_anchor() {
            return Err(RiskError::Overflow);
        }
        let dt: u64 = fee_slot_anchor - last;
        if dt == 0 {
            return Ok(());
        }
        if fee_rate_per_slot == 0 {
            self.accounts[idx].last_fee_slot = fee_slot_anchor;
            return Ok(());
        }
        let raw = widening_mul(fee_rate_per_slot, dt as u128);
        let fee_abs: u128 = if U256::from_u128(MAX_PROTOCOL_FEE_ABS).is_below(raw) {
            MAX_PROTOCOL_FEE_ABS
        } else {
            raw.try_into_u128().unwrap()
        };
        let _ = self.charge_fee_to_insurance(idx, fee_abs)?;
        self.accounts[idx].last_fee_slot = fee_slot_anchor;
        Ok(())
    }

    /// The second half of a touch: losses are paid, and the loss of an account
    /// without a position is taken over.
    pub open spec fn touch_settled(self, i: int, ctx: InstructionContext) -> (
        RiskEngine,
        InstructionContext,
        Result<(), RiskError>,
    ) {
        let (e, c, r) = self.settle_losses_spec(i, Some(ctx));
        if r is Err {
            (e, c->0, r)
        } else {
            let (e2, c2, r2) = e.resolve_flat_negative_spec(i, c);
            (e2, c2->0, r2)
        }
    }

    /// Brings account `i` up to date.
    #[verifier::opaque]
    pub open spec fn touch_spec(self, i: int, ctx: InstructionContext) -> (
        RiskEngine,
        InstructionContext,
        Result<(), RiskError>,
    ) {
        let (c, added) = ctx.add_touched_spec(i as u16);
        if self.market_mode != MarketMode::Live {
            (self, ctx, Err(RiskError::Unauthorized))
        } else if self.validate_shape_spec(i) is Err {
            (self, ctx, self.validate_shape_spec(i))
        } else if !added {
            (self, c, Err(RiskError::Overflow))
        } else {
            let (e1, r1) = self.admit_outstanding_reserve_on_touch_spec(i, c);
            if r1 is Err {
                (e1, c, r1)
            } else {
                let (e2, r2) = e1.advance_profit_warmup_spec(i);
                if r2 is Err {
                    (e2, c, r2)
                } else {
                    let (e3, c3, r3) = e2.settle_side_effects_live_spec(i, c);
                    if r3 is Err {
                        (e3, c3, r3)
                    } else {
                        e3.touch_settled(i, c3)
                    }
                }
            }
        }
    }

    /// Brings an account of a live market up to date: warmup, side indices, losses.
    /// Profit is not converted and fees are not swept.
    pub fn touch_account_live_local(&mut self, idx: usize, ctx: &mut InstructionContext) -> (r:
        Result<(), RiskError>)
        requires
            old(ctx).wf(),
        ensures
            (*final(self), *final(ctx), r) == old(self).touch_spec(idx as int, *old(ctx)),
            final(ctx).wf(),
    {
        reveal(RiskEngine::touch_spec);
        if self.market_mode != MarketMode::Live {
            return Err(RiskError::Unauthorized);
        }
        self.validate_touched_account_shape(idx)?;
        if !ctx.add_touched(idx as u16) {
            return Err(RiskError::Overflow);
        }
        self.admit_outstanding_reserve_on_touch(idx, ctx)?;
        self.advance_profit_warmup(idx)?;
        self.settle_side_effects_live(idx, ctx)?;
        self.settle_losses_with_context(idx, Some(&mut *ctx))?;
        self.resolve_flat_negative_with_context(idx, Some(&mut *ctx))?;
        Ok(())
    }

    /// Converts released profit of account `i` to capital, all of it.
    pub open spec fn convert_whole(self, i: int) -> (RiskEngine, Result<(), RiskError>) {
        match self.released_pos_spec(i, false) {
            Err(err) => (self, Err(err)),
            Ok(released) => if released == 0 {
                (self, Ok(()))
            } else {
                let (e, r) = self.consume_released_pnl_spec(i, released);
                if r is Err {
                    (e, r)
                } else if e.accounts@[i].capital.get() + released > u128::MAX {
                    (e, Err(RiskError::Overflow))
                } else {
                    e.set_capital_spec(i, (e.accounts@[i].capital.get() + released) as u128)
                }
            },
        }
    }

    /// Finishes a touched account: converts the profit of an account without a
    /// position if the market is whole, and sweeps fee debt.
    #[verifier::opaque]
    pub open spec fn finalize_one_spec(self, i: int, is_whole: bool) -> (RiskEngine, Result<
        (),
        RiskError,
    >) {
        if i >= MAX_ACCOUNTS {
            (self, Err(RiskError::AccountNotFound))
        } else {
            let a = self.accounts@[i];
            let (e, r) = if is_whole && a.position_basis_q == 0 && a.pnl > 0 {
                self.convert_whole(i)
            } else {
                (self, Ok(()))
            };
            if r is Err {
                (e, r)
            } else {
                e.fee_debt_sweep_spec(i)
            }
        }
    }

    /// Finishes a touched account.
    pub fn finalize_touched_account_post_live_with_snapshot(
        &mut self,
        idx: usize,
        is_whole: bool,
    ) -> (r: Result<(), RiskError>)
        ensures
            (*final(self), r) == old(self).finalize_one_spec(idx as int, is_whole),
    {
        reveal(RiskEngine::finalize_one_spec);
        if idx >= MAX_ACCOUNTS {
            return Err(RiskError::AccountNotFound);
        }
        if is_whole && self.accounts[idx].position_basis_q == 0 && self.accounts[idx].pnl > 0 {
            let released: u128 = self.released_pos_checked(idx, false)?;
            if released > 0 {
                self.consume_released_pnl(idx, released)?;
                let new_cap: u128 = self.accounts[idx].capital.get().checked_add(released).ok_or(
                    RiskError::Overflow,
                )?;
                self.set_capital(idx, new_cap)?;
            }
        }
        self.fee_debt_sweep(idx)?;
        Ok(())
    }

    /// Whether the residual covers all matured profit, and there is some.
    pub open spec fn is_whole(self) -> bool {
        self.pnl_matured_pos_tot > 0 && self.residual() >= self.pnl_matured_pos_tot
    }

    /// Finishes the accounts of a sequence, up to the first refusal.
    pub open spec fn finalize_all(self, touched: Seq<u16>, is_whole: bool) -> (RiskEngine, Result<
        (),
        RiskError,
    >)
        decreases touched.len(),
    {
        if touched.len() == 0 {
            (self, Ok(()))
        } else {
            let (e, r) = self.finalize_all(touched.drop_last(), is_whole);
            if r is Err {
                (e, r)
            } else {
                e.finalize_one_spec(touched.last() as int, is_whole)
            }
        }
    }

    /// Finishes the touched accounts of an instruction.
    #[verifier::opaque]
    pub open spec fn finalize_touched_spec(self, ctx: InstructionContext) -> (RiskEngine, Result<
        (),
        RiskError,
    >) {
        self.finalize_all(ctx.touched(), self.is_whole())
    }

    /// Finishes the touched accounts of an instruction in ascending order, all under
    /// the haircut before the first of them.
    pub fn finalize_touched_accounts_post_live(&mut self, ctx: &InstructionContext) -> (r: Result<
        (),
        RiskError,
    >)
        requires
            ctx.wf(),
        ensures
            (*final(self), r) == old(self).finalize_touched_spec(*ctx),
    {
        reveal(RiskEngine::finalize_touched_spec);
        let residual: u128 = self.residual_or_zero();
        let h_snapshot_den: u128 = self.pnl_matured_pos_tot;
        let is_whole: bool = h_snapshot_den > 0 && residual >= h_snapshot_den;
        let count: usize = ctx.touched_count as usize;
        let mut ti: usize = 0;
        let ghost touched = ctx.touched();
        assert(touched.take(0) =~= Seq::<u16>::empty());
        while ti < count
            invariant
                ti <= count,
                ctx.wf(),
                count == ctx.touched_count,
                touched == ctx.touched(),
                is_whole == old(self).is_whole(),
                *self == old(self).finalize_all(touched.take(ti as int), is_whole).0,
                old(self).finalize_all(touched.take(ti as int), is_whole).1 is Ok,
            decreases count - ti,
        {
            proof {
                assert(touched.take(ti + 1).drop_last() =~= touched.take(ti as int));
                assert(touched.take(ti + 1).last() == ctx.touched_accounts@[ti as int]);
                assert(old(self).finalize_all(touched.take(ti + 1), is_whole)
                    == self.finalize_one_spec(
                    ctx.touched_accounts@[ti as int] as int,
                    is_whole,
                ));
            }
            let idx: usize = ctx.touched_accounts[ti] as usize;
            let res = self.finalize_touched_account_post_live_with_snapshot(idx, is_whole);
            if let Err(e) = res {
                proof {
                    reveal(RiskEngine::finalize_touched_spec);
                    lemma_finalize_stops(*old(self), touched, ti + 1, is_whole);
                }
                return Err(e);
            }
            ti = ti + 1;
        }
        assert(touched.take(count as int) =~= touched);
        proof {
            lemma_ok_unit(old(self).finalize_all(touched, is_whole).1);
        }
        Ok(())
    }

    /// Whether an account has not settled up to the indices of its side.
    pub open spec fn unsettled_live_spec(self, a: Account) -> Result<bool, RiskError> {
        let side = crate::sides::some_side(a.position_basis_q);
        if a.position_basis_q == 0 {
            Ok(false)
        } else if a.adl_epoch_snap != self.get_epoch_side(side) {
            Ok(true)
        } else {
            match self.b_target_spec(a, side) {
                Err(err) => Err(err),
                Ok(target) => Ok(
                    a.adl_a_basis != self.get_a_side(side) || a.adl_k_snap != self.get_k_side(side)
                        || a.f_snap != self.get_f_side(side) || a.b_snap != target,
                ),
            }
        }
    }

    /// Decides whether an account has not settled up to the indices of its side.
    pub fn account_has_unsettled_live_effects(&self, idx: usize) -> (r: Result<bool, RiskError>)
        requires
            idx < MAX_ACCOUNTS,
        ensures
            r == self.unsettled_live_spec(self.accounts@[idx as int]),
    {
        let account = &self.accounts[idx];
        let side = match side_of_i128(account.position_basis_q) {
            None => return Ok(false),
            Some(s) => s,
        };
        if account.adl_epoch_snap != self.get_epoch_side(side) {
            return Ok(true);
        }
        let b_target: u128 = self.b_target_for_account(idx, side)?;
        Ok(
            account.adl_a_basis != self.get_a_side(side) || account.adl_k_snap != self.get_k_side(
                side,
            ) || account.f_snap != self.get_f_side(side) || account.b_snap != b_target
                || account.b_epoch_snap != account.adl_epoch_snap,
        )
    }

    /// Refuses to draw a fee from an account with a loss, realized or not.
    pub open spec fn fee_draw_spec(self, a: Account) -> Result<(), RiskError> {
        if a.pnl < 0 {
            Err(RiskError::Undercollateralized)
        } else if self.market_mode != MarketMode::Live {
            Ok(())
        } else {
            match self.unsettled_live_spec(a) {
                Err(err) => Err(err),
                Ok(unsettled) => if unsettled {
                    Err(RiskError::Undercollateralized)
                } else {
                    Ok(())
                },
            }
        }
    }

    /// Refuses to draw a fee from an account with a loss, realized or not.
    pub fn ensure_fee_draw_does_not_precede_loss(&self, idx: usize) -> (r: Result<(), RiskError>)
        requires
            idx < MAX_ACCOUNTS,
        ensures
            r == self.fee_draw_spec(self.accounts@[idx as int]),
    {
        if self.accounts[idx].pnl < 0 {
            return Err(RiskError::Undercollateralized);
        }
        if self.market_mode == MarketMode::Live {
            if self.account_has_unsettled_live_effects(idx)? {
                return Err(RiskError::Undercollateralized);
            }
        }
        Ok(())
    }
}

/// There is only one way to accept.
pub proof fn lemma_ok_unit(r: Result<(), RiskError>)
    requires
        r is Ok,
    ensures
        r == Ok::<(), RiskError>(()),
{
    match r {
        Ok(u) => {
            assert(u == ());
        },
        Err(_) => {},
    }
}

proof fn lemma_finalize_stops(e: RiskEngine, touched: Seq<u16>, n: int, is_whole: bool)
    requires
        0 <= n <= touched.len(),
        e.finalize_all(touched.take(n), is_whole).1 is Err,
    ensures
        e.finalize_all(touched, is_whole) == e.finalize_all(touched.take(n), is_whole),
    decreases touched.len() - n,
{
    if n == touched.len() {
        assert(touched.take(n) =~= touched);
    } else {
        assert(touched.take(n + 1).drop_last() =~= touched.take(n));
        lemma_finalize_stops(e, touched, n + 1, is_whole);
    }
}

} // verus!
