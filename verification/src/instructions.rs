//! Instructions on a single account of a live market: owner, deposit, withdrawal,
//! settlement. And what live instructions have in common.

use vstd::prelude::*;

use crate::constants::{MAX_ACCOUNTS, MAX_ORACLE_PRICE, MAX_VAULT_TVL};
use crate::context::InstructionContext;
use crate::equity::{margin_requirement, requirement_as_i256};
use crate::int128::U128;
use crate::types::{Account, MarketMode, RiskEngine, RiskError};
use crate::wide_math::I256;

verus! {

impl RiskEngine {
    /// What an instruction accepts of the account, the price and the admission that
    /// it is given.
    pub open spec fn live_gate(
        self,
        i: int,
        oracle_price: u64,
        h_min: u64,
        h_max: u64,
        threshold_opt: Option<u128>,
    ) -> Result<(), RiskError> {
        if !RiskEngine::admission_pair_ok(h_min, h_max, self.params)
            || !RiskEngine::threshold_opt_ok(threshold_opt) || oracle_price == 0 || oracle_price
            > MAX_ORACLE_PRICE {
            Err(RiskError::Overflow)
        } else if self.validate_shape_spec(i) is Err {
            self.validate_shape_spec(i)
        } else if self.market_mode != MarketMode::Live {
            Err(RiskError::Unauthorized)
        } else {
            Ok(())
        }
    }

    /// Accepts an account, a price and an admission.
    pub fn validate_live_gate(
        &self,
        idx: usize,
        oracle_price: u64,
        admit_h_min: u64,
        admit_h_max: u64,
        threshold_opt: Option<u128>,
    ) -> (r: Result<(), RiskError>)
        ensures
            r == self.live_gate(idx as int, oracle_price, admit_h_min, admit_h_max, threshold_opt),
    {
        Self::validate_admission_pair(admit_h_min, admit_h_max, &self.params)?;
        Self::validate_threshold_opt(threshold_opt)?;
        if oracle_price == 0 || oracle_price > MAX_ORACLE_PRICE {
            return Err(RiskError::Overflow);
        }
        self.validate_touched_account_shape(idx)?;
        if self.market_mode != MarketMode::Live {
            return Err(RiskError::Unauthorized);
        }
        Ok(())
    }

    /// The context of an instruction with this admission.
    pub open spec fn admission(h_min: u64, h_max: u64, threshold_opt: Option<u128>)
        -> InstructionContext {
        InstructionContext::fresh(
            h_min,
            h_max,
            InstructionContext::scaled_threshold(threshold_opt),
        )
    }

    /// Accrues the market and brings account `i` up to date.
    #[verifier::opaque]
    pub open spec fn accrue_and_touch_spec(
        self,
        i: int,
        ctx: InstructionContext,
        now_slot: u64,
        oracle_price: u64,
        funding_rate_e9: i128,
    ) -> (RiskEngine, InstructionContext, Result<(), RiskError>) {
        let (e, r) = self.accrue_market_to_spec(now_slot, oracle_price, funding_rate_e9);
        if r is Err {
            (e, ctx, r)
        } else {
            e.touch_spec(i, ctx)
        }
    }

    /// Accrues the market and brings an account up to date.
    pub fn accrue_and_touch(
        &mut self,
        idx: usize,
        ctx: &mut InstructionContext,
        now_slot: u64,
        oracle_price: u64,
        funding_rate_e9: i128,
    ) -> (r: Result<(), RiskError>)
        requires
            old(ctx).wf(),
        ensures
            (*final(self), *final(ctx), r) == old(self).accrue_and_touch_spec(
                idx as int,
                *old(ctx),
                now_slot,
                oracle_price,
                funding_rate_e9,
            ),
            final(ctx).wf(),
    {
        reveal(RiskEngine::accrue_and_touch_spec);
        self.accrue_market_to(now_slot, oracle_price, funding_rate_e9)?;
        self.touch_account_live_local(idx, ctx)
    }

    /// Ends an instruction: resets, and what holds of every state.
    #[verifier::opaque]
    pub open spec fn close_spec(self, ctx: InstructionContext) -> (RiskEngine, Result<
        (),
        RiskError,
    >) {
        let (e, _, r) = self.end_resets_spec(ctx);
        if r is Err {
            (e, r)
        } else {
            (e, e.public_post())
        }
    }

    /// Ends an instruction: resets, and the check of what holds of every state.
    pub fn close_instruction(&mut self, ctx: &mut InstructionContext) -> (r: Result<
        (),
        RiskError,
    >)
        requires
            old(ctx).wf(),
        ensures
            (*final(self), r) == old(self).close_spec(*old(ctx)),
            r is Ok ==> final(self).public_post() is Ok,
    {
        reveal(RiskEngine::close_spec);
        self.run_end_of_instruction_resets(ctx)?;
        self.assert_public_postconditions()
    }

    /// Finishes the touched accounts and ends an instruction.
    pub open spec fn finish_spec(self, ctx: InstructionContext) -> (RiskEngine, Result<
        (),
        RiskError,
    >) {
        let (e, r) = self.finalize_touched_spec(ctx);
        if r is Err {
            (e, r)
        } else {
            e.close_spec(ctx)
        }
    }

    /// Finishes the touched accounts and ends an instruction.
    pub fn finish_instruction(&mut self, ctx: &mut InstructionContext) -> (r: Result<
        (),
        RiskError,
    >)
        requires
            old(ctx).wf(),
        ensures
            (*final(self), r) == old(self).finish_spec(*old(ctx)),
            r is Ok ==> final(self).public_post() is Ok,
    {
        self.finalize_touched_accounts_post_live(ctx)?;
        self.close_instruction(ctx)
    }

    /// Whether a key is set.
    pub open spec fn key_is_set(key: [u8; 32]) -> bool {
        exists|k: int| 0 <= k < 32 && #[trigger] key@[k] != 0
    }

    /// Claims an account for an owner.
    pub open spec fn set_owner_spec(self, idx: u16, owner: [u8; 32]) -> (RiskEngine, Result<
        (),
        RiskError,
    >) {
        let a = self.accounts@[idx as int];
        if self.account_exists(idx as int) && RiskEngine::key_is_set(owner)
            && !RiskEngine::key_is_set(a.owner) {
            (self.with_account(idx as int, Account { owner, ..a }), Ok(()))
        } else {
            (self, Err(RiskError::Unauthorized))
        }
    }

    /// Claims an unclaimed account for an owner.
    pub fn set_owner(&mut self, idx: u16, owner: [u8; 32]) -> (r: Result<(), RiskError>)
        ensures
            (*final(self), r) == old(self).set_owner_spec(idx, owner),
    {
        if self.validate_used_account_slot(idx as usize).is_err() {
            return Err(RiskError::Unauthorized);
        }
        if Self::is_zero_bytes_32(&owner) {
            return Err(RiskError::Unauthorized);
        }
        if !Self::is_zero_bytes_32(&self.accounts[idx as usize].owner) {
            return Err(RiskError::Unauthorized);
        }
        self.accounts[idx as usize].owner = owner;
        Ok(())
    }

    /// Credits a deposit to account `i`: losses are paid, and the fee debt of an
    /// account without a position and without a loss.
    pub open spec fn credit_deposit(self, i: int, amount: u128, vault: u128, now_slot: u64) -> (
        RiskEngine,
        Result<(), RiskError>,
    ) {
        let e = RiskEngine { current_slot: now_slot, vault: U128(vault), ..self };
        let cap = e.accounts@[i].capital.get() + amount;
        if cap > u128::MAX {
            (e, Err(RiskError::Overflow))
        } else {
            let (e2, r2) = e.set_capital_spec(i, cap as u128);
            if r2 is Err {
                (e2, r2)
            } else {
                let (e3, _, r3) = e2.settle_losses_spec(i, None);
                if r3 is Err {
                    (e3, r3)
                } else {
                    let a = e3.accounts@[i];
                    let (e4, r4) = if a.position_basis_q == 0 && a.pnl >= 0 {
                        e3.fee_debt_sweep_spec(i)
                    } else {
                        (e3, Ok(()))
                    };
                    if r4 is Err {
                        (e4, r4)
                    } else {
                        (e4, e4.public_post())
                    }
                }
            }
        }
    }

    /// What a deposit accepts before it takes a slot.
    pub open spec fn deposit_gate(self, idx: u16, amount: u128, now_slot: u64) -> Result<
        (),
        RiskError,
    > {
        if self.market_mode != MarketMode::Live {
            Err(RiskError::Unauthorized)
        } else if now_slot < self.current_slot || now_slot < self.last_market_slot {
            Err(RiskError::Overflow)
        } else if self.check_live_accrual_envelope_spec(now_slot) is Err {
            self.check_live_accrual_envelope_spec(now_slot)
        } else if self.vault.get() + amount > MAX_VAULT_TVL {
            Err(RiskError::Overflow)
        } else if !self.slot_used(idx as int) && amount == 0 {
            Err(RiskError::InsufficientBalance)
        } else {
            Ok(())
        }
    }

    /// Deposits to an account. The first deposit takes its slot into use.
    #[verifier::opaque]
    pub open spec fn deposit_spec(self, idx: u16, amount: u128, now_slot: u64) -> (
        RiskEngine,
        Result<(), RiskError>,
    ) {
        let gate = self.deposit_gate(idx, amount, now_slot);
        if gate is Err {
            (self, gate)
        } else {
            let (e, r) = if self.slot_used(idx as int) {
                (self, Ok(()))
            } else {
                self.materialize_at_spec(idx, now_slot)
            };
            if r is Err {
                (e, r)
            } else if e.validate_shape_at_spec(idx as int, now_slot) is Err {
                (e, e.validate_shape_at_spec(idx as int, now_slot))
            } else {
                e.credit_deposit(
                    idx as int,
                    amount,
                    (self.vault.get() + amount) as u128,
                    now_slot,
                )
            }
        }
    }

    fn credit_deposited_amount(&mut self, i: usize, amount: u128, vault: u128, now_slot: u64) -> (r:
        Result<(), RiskError>)
        requires
            i < MAX_ACCOUNTS,
        ensures
            (*final(self), r) == old(self).credit_deposit(i as int, amount, vault, now_slot),
            r is Ok ==> final(self).public_post() is Ok,
    {
        self.current_slot = now_slot;
        self.vault = U128::new(vault);
        let new_cap: u128 = self.accounts[i].capital.get().checked_add(amount).ok_or(
            RiskError::Overflow,
        )?;
        self.set_capital(i, new_cap)?;
        self.settle_losses(i)?;
        if self.accounts[i].position_basis_q == 0 && self.accounts[i].pnl >= 0 {
            self.fee_debt_sweep(i)?;
        }
        self.assert_public_postconditions()
    }

    /// Deposits to an account. The first deposit takes its slot into use. Losses are
    /// paid out of the new capital; the market is not accrued.
    pub fn deposit_not_atomic(&mut self, idx: u16, amount: u128, now_slot: u64) -> (r: Result<
        (),
        RiskError,
    >)
        ensures
            (*final(self), r) == old(self).deposit_spec(idx, amount, now_slot),
            r is Ok ==> final(self).public_post() is Ok,
    {
        reveal(RiskEngine::deposit_spec);
        if self.market_mode != MarketMode::Live {
            return Err(RiskError::Unauthorized);
        }
        if now_slot < self.current_slot {
            return Err(RiskError::Overflow);
        }
        if now_slot < self.last_market_slot {
            return Err(RiskError::Overflow);
        }
        self.check_live_accrual_envelope(now_slot)?;
        let v_candidate: u128 = self.vault.get().checked_add(amount).ok_or(RiskError::Overflow)?;
        if v_candidate > MAX_VAULT_TVL {
            return Err(RiskError::Overflow);
        }
        if !self.is_used(idx as usize) {
            if amount == 0 {
                return Err(RiskError::InsufficientBalance);
            }
            self.materialize_at(idx, now_slot)?;
        }
        let i: usize = idx as usize;
        self.validate_touched_account_shape_at_fee_slot(i, now_slot)?;
        self.credit_deposited_amount(i, amount, v_candidate, now_slot)
    }

    /// Pays an amount of capital of account `i` out of the vault.
    pub open spec fn commit_withdrawal_spec(self, i: int, amount: u128) -> (RiskEngine, Result<
        (),
        RiskError,
    >) {
        let cap = self.accounts@[i].capital.get();
        if cap < amount {
            (self, Err(RiskError::InsufficientBalance))
        } else {
            let (e, r) = self.set_capital_spec(i, (cap - amount) as u128);
            if r is Err {
                (e, r)
            } else if e.vault.get() < amount {
                (e, Err(RiskError::CorruptState))
            } else {
                (RiskEngine { vault: U128((e.vault.get() - amount) as u128), ..e }, Ok(()))
            }
        }
    }

    /// Pays an amount of an account's capital out of the vault.
    pub fn commit_withdrawal(&mut self, idx: usize, amount: u128) -> (r: Result<(), RiskError>)
        requires
            idx < MAX_ACCOUNTS,
        ensures
            (*final(self), r) == old(self).commit_withdrawal_spec(idx as int, amount),
    {
        let cap: u128 = self.accounts[idx].capital.get();
        if cap < amount {
            return Err(RiskError::InsufficientBalance);
        }
        self.set_capital(idx, cap - amount)?;
        self.vault = U128::new(
            self.vault.get().checked_sub(amount).ok_or(RiskError::CorruptState)?,
        );
        Ok(())
    }

    /// Whether account `i` may give this amount away: it has the capital, and with a
    /// position its equity still meets the initial requirement.
    pub open spec fn withdrawal_check(self, i: int, amount: u128, oracle_price: u64) -> Result<
        (),
        RiskError,
    > {
        let a = self.accounts@[i];
        if a.capital.get() < amount {
            Err(RiskError::InsufficientBalance)
        } else {
            match self.effective_pos_q_spec(i, false) {
                Err(err) => Err(err),
                Ok(eff) => if eff == 0 {
                    Ok(())
                } else {
                    match self.notional_spec(i, oracle_price, false) {
                        Err(err) => Err(err),
                        Ok(notional) => if self.equity_init(a, i) - amount
                            < crate::equity::margin_req(
                            notional as int,
                            self.params.initial_margin_bps as int,
                            self.params.min_nonzero_im_req as int,
                        ) {
                            Err(RiskError::Undercollateralized)
                        } else {
                            Ok(())
                        },
                    }
                },
            }
        }
    }

    fn check_withdrawal(&self, idx: usize, amount: u128, oracle_price: u64) -> (r: Result<
        (),
        RiskError,
    >)
        requires
            idx < MAX_ACCOUNTS,
        ensures
            r == self.withdrawal_check(idx as int, amount, oracle_price),
    {
        if self.accounts[idx].capital.get() < amount {
            return Err(RiskError::InsufficientBalance);
        }
        let eff: i128 = self.effective_pos_q_checked(idx, false)?;
        if eff != 0 {
            let eq_withdraw: i128 = self.account_equity_withdraw_raw(&self.accounts[idx], idx);
            let notional: u128 = self.notional_checked(idx, oracle_price, false)?;
            let im_req = margin_requirement(
                notional,
                self.params.initial_margin_bps,
                self.params.min_nonzero_im_req,
            );
            proof {
                crate::equity::lemma_margin_req_small(
                    notional as int,
                    self.params.initial_margin_bps as int,
                    self.params.min_nonzero_im_req as int,
                );
            }
            let eq_post_wide = I256::from_i128(eq_withdraw).checked_sub(
                I256::from_u128(amount),
            ).unwrap();
            if eq_post_wide.is_below(requirement_as_i256(im_req)) {
                return Err(RiskError::Undercollateralized);
            }
        }
        Ok(())
    }

    /// A withdrawal once the account is up to date.
    pub open spec fn withdraw_touched(
        self,
        i: int,
        amount: u128,
        oracle_price: u64,
        ctx: InstructionContext,
    ) -> (RiskEngine, Result<(), RiskError>) {
        match self.unsettled_live_spec(self.accounts@[i]) {
            Err(err) => (self, Err(err)),
            Ok(true) => (self, Err(RiskError::Undercollateralized)),
            Ok(false) => {
                let (e, r) = self.finalize_touched_spec(ctx);
                if r is Err {
                    (e, r)
                } else if e.withdrawal_check(i, amount, oracle_price) is Err {
                    (e, e.withdrawal_check(i, amount, oracle_price))
                } else {
                    let (e2, r2) = e.commit_withdrawal_spec(i, amount);
                    if r2 is Err {
                        (e2, r2)
                    } else {
                        e2.close_spec(ctx)
                    }
                }
            },
        }
    }

    /// Withdraws capital from an account.
    #[verifier::opaque]
    pub open spec fn withdraw_spec(
        self,
        idx: u16,
        amount: u128,
        oracle_price: u64,
        now_slot: u64,
        funding_rate_e9: i128,
        h_min: u64,
        h_max: u64,
        threshold_opt: Option<u128>,
    ) -> (RiskEngine, Result<(), RiskError>) {
        let gate = self.live_gate(idx as int, oracle_price, h_min, h_max, threshold_opt);
        if gate is Err {
            (self, gate)
        } else {
            let (e, c, r) = self.accrue_and_touch_spec(
                idx as int,
                RiskEngine::admission(h_min, h_max, threshold_opt),
                now_slot,
                oracle_price,
                funding_rate_e9,
            );
            if r is Err {
                (e, r)
            } else {
                e.withdraw_touched(idx as int, amount, oracle_price, c)
            }
        }
    }

    /// Withdraws capital from an account that is up to date. With a position, what
    /// is left has to meet the initial requirement.
    pub fn withdraw_not_atomic(
        &mut self,
        idx: u16,
        amount: u128,
        oracle_price: u64,
        now_slot: u64,
        funding_rate_e9: i128,
        admit_h_min: u64,
        admit_h_max: u64,
        admit_h_max_consumption_threshold_bps_opt: Option<u128>,
    ) -> (r: Result<(), RiskError>)
        ensures
            (*final(self), r) == old(self).withdraw_spec(
                idx,
                amount,
                oracle_price,
                now_slot,
                funding_rate_e9,
                admit_h_min,
                admit_h_max,
                admit_h_max_consumption_threshold_bps_opt,
            ),
            r is Ok ==> final(self).public_post() is Ok,
    {
        reveal(RiskEngine::withdraw_spec);
        let i: usize = idx as usize;
        self.validate_live_gate(
            i,
            oracle_price,
            admit_h_min,
            admit_h_max,
            admit_h_max_consumption_threshold_bps_opt,
        )?;
        let mut ctx = InstructionContext::new_with_admission_and_threshold(
            admit_h_min,
            admit_h_max,
            admit_h_max_consumption_threshold_bps_opt,
        );
        self.accrue_and_touch(i, &mut ctx, now_slot, oracle_price, funding_rate_e9)?;
        if self.account_has_unsettled_live_effects(i)? {
            return Err(RiskError::Undercollateralized);
        }
        self.finalize_touched_accounts_post_live(&ctx)?;
        self.check_withdrawal(i, amount, oracle_price)?;
        self.commit_withdrawal(i, amount)?;
        self.close_instruction(&mut ctx)
    }

    /// Brings an account up to date, as an instruction.
    #[verifier::opaque]
    pub open spec fn settle_account_spec(
        self,
        idx: u16,
        oracle_price: u64,
        now_slot: u64,
        funding_rate_e9: i128,
        h_min: u64,
        h_max: u64,
        threshold_opt: Option<u128>,
    ) -> (RiskEngine, Result<(), RiskError>) {
        let gate = self.live_gate(idx as int, oracle_price, h_min, h_max, threshold_opt);
        if gate is Err {
            (self, gate)
        } else {
            let (e, c, r) = self.accrue_and_touch_spec(
                idx as int,
                RiskEngine::admission(h_min, h_max, threshold_opt),
                now_slot,
                oracle_price,
                funding_rate_e9,
            );
            if r is Err {
                (e, r)
            } else {
                e.finish_spec(c)
            }
        }
    }

    /// Brings an account up to date, as an instruction.
    pub fn settle_account_not_atomic(
        &mut self,
        idx: u16,
        oracle_price: u64,
        now_slot: u64,
        funding_rate_e9: i128,
        admit_h_min: u64,
        admit_h_max: u64,
        admit_h_max_consumption_threshold_bps_opt: Option<u128>,
    ) -> (r: Result<(), RiskError>)
        ensures
            (*final(self), r) == old(self).settle_account_spec(
                idx,
                oracle_price,
                now_slot,
                funding_rate_e9,
                admit_h_min,
                admit_h_max,
                admit_h_max_consumption_threshold_bps_opt,
            ),
            r is Ok ==> final(self).public_post() is Ok,
    {
        reveal(RiskEngine::settle_account_spec);
        self.validate_live_gate(
            idx as usize,
            oracle_price,
            admit_h_min,
            admit_h_max,
            admit_h_max_consumption_threshold_bps_opt,
        )?;
        let mut ctx = InstructionContext::new_with_admission_and_threshold(
            admit_h_min,
            admit_h_max,
            admit_h_max_consumption_threshold_bps_opt,
        );
        self.accrue_and_touch(idx as usize, &mut ctx, now_slot, oracle_price, funding_rate_e9)?;
        self.finish_instruction(&mut ctx)
    }
}

} // verus!
