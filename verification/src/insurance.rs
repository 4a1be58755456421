//! Instructions on the insurance fund, on fees, and on accounts that hold nothing.

use vstd::prelude::*;

use crate::constants::{MAX_ACCOUNTS, MAX_PROTOCOL_FEE_ABS, MAX_VAULT_TVL};
use crate::int128::{I128, U128};
use crate::types::{InsuranceFund, MarketMode, RiskEngine, RiskError};
use crate::wide_math::{fee_debt_u128_checked, min_u128};

verus! {

impl RiskEngine {
    /// The engine with vault and insurance fund replaced, at a slot.
    pub open spec fn with_funds(self, vault: int, insurance: int, now_slot: u64) -> RiskEngine {
        RiskEngine {
            current_slot: now_slot,
            vault: U128(vault as u128),
            insurance_fund: InsuranceFund { balance: U128(insurance as u128) },
            ..self
        }
    }

    fn set_funds(&mut self, vault: u128, insurance: u128, now_slot: u64)
        ensures
            *final(self) == old(self).with_funds(vault as int, insurance as int, now_slot),
    {
        self.current_slot = now_slot;
        self.vault = U128::new(vault);
        self.insurance_fund.balance = U128::new(insurance);
    }

    /// Tops up the insurance fund.
    #[verifier::opaque]
    pub open spec fn top_up_spec(self, amount: u128, now_slot: u64) -> (RiskEngine, Result<
        (),
        RiskError,
    >) {
        if self.market_mode != MarketMode::Live {
            (self, Err(RiskError::Unauthorized))
        } else if self.public_post() is Err {
            (self, self.public_post())
        } else if self.check_live_accrual_envelope_spec(now_slot) is Err {
            (self, self.check_live_accrual_envelope_spec(now_slot))
        } else if self.vault.get() + amount > MAX_VAULT_TVL {
            (self, Err(RiskError::Overflow))
        } else {
            self.committed(
                self.with_funds(
                    self.vault.get() + amount,
                    self.insurance_fund.balance.get() + amount,
                    now_slot,
                ),
            )
        }
    }

    /// Tops up the insurance fund. A refusal leaves the engine as it is.
    pub fn top_up_insurance_fund(&mut self, amount: u128, now_slot: u64) -> (r: Result<
        (),
        RiskError,
    >)
        ensures
            (*final(self), r) == old(self).top_up_spec(amount, now_slot),
            r is Err ==> *final(self) == *old(self),
            r is Ok ==> final(self).public_post() is Ok,
    {
        reveal(RiskEngine::top_up_spec);
        if self.market_mode != MarketMode::Live {
            return Err(RiskError::Unauthorized);
        }
        self.assert_public_postconditions()?;
        if now_slot < self.current_slot {
            return Err(RiskError::Overflow);
        }
        self.check_live_accrual_envelope(now_slot)?;
        let vault: u128 = self.vault.get();
        let ins: u128 = self.insurance_fund.balance.get();
        let slot: u64 = self.current_slot;
        let new_vault: u128 = vault.checked_add(amount).ok_or(RiskError::Overflow)?;
        if new_vault > MAX_VAULT_TVL {
            return Err(RiskError::Overflow);
        }
        assert(ins <= vault) by {
            reveal(RiskEngine::public_post);
        }
        self.set_funds(new_vault, ins + amount, now_slot);
        if let Err(e) = self.assert_public_postconditions() {
            self.set_funds(vault, ins, slot);
            return Err(e);
        }
        Ok(())
    }

    /// What an instruction accepts that moves the present slot and an account, but
    /// does not accrue.
    pub open spec fn quiet_gate(self, i: int, now_slot: u64) -> Result<(), RiskError> {
        if self.market_mode != MarketMode::Live {
            Err(RiskError::Unauthorized)
        } else if now_slot < self.current_slot {
            Err(RiskError::Overflow)
        } else if self.validate_shape_at_spec(i, now_slot) is Err {
            self.validate_shape_at_spec(i, now_slot)
        } else {
            self.check_live_accrual_envelope_spec(now_slot)
        }
    }

    fn validate_quiet_gate(&self, idx: usize, now_slot: u64) -> (r: Result<(), RiskError>)
        ensures
            r == self.quiet_gate(idx as int, now_slot),
    {
        if self.market_mode != MarketMode::Live {
            return Err(RiskError::Unauthorized);
        }
        if now_slot < self.current_slot {
            return Err(RiskError::Overflow);
        }
        self.validate_touched_account_shape_at_fee_slot(idx, now_slot)?;
        self.check_live_accrual_envelope(now_slot)
    }

    /// As `quiet_gate`, of a sound engine.
    pub open spec fn sound_quiet_gate(self, i: int, now_slot: u64) -> Result<(), RiskError> {
        if self.market_mode != MarketMode::Live {
            Err(RiskError::Unauthorized)
        } else if now_slot < self.current_slot {
            Err(RiskError::Overflow)
        } else if self.validate_shape_at_spec(i, now_slot) is Err {
            self.validate_shape_at_spec(i, now_slot)
        } else if self.public_post() is Err {
            self.public_post()
        } else {
            self.check_live_accrual_envelope_spec(now_slot)
        }
    }

    fn validate_sound_quiet_gate(&self, idx: usize, now_slot: u64) -> (r: Result<(), RiskError>)
        ensures
            r == self.sound_quiet_gate(idx as int, now_slot),
    {
        if self.market_mode != MarketMode::Live {
            return Err(RiskError::Unauthorized);
        }
        if now_slot < self.current_slot {
            return Err(RiskError::Overflow);
        }
        self.validate_touched_account_shape_at_fee_slot(idx, now_slot)?;
        self.assert_public_postconditions()?;
        self.check_live_accrual_envelope(now_slot)
    }

    /// Sweeps the fee debt of an account without a position and without a loss, and
    /// checks what holds of every state.
    pub open spec fn swept_if_flat(self, i: int) -> (RiskEngine, Result<(), RiskError>) {
        let a = self.accounts@[i];
        let (e, r) = if a.position_basis_q == 0 && a.pnl >= 0 {
            self.fee_debt_sweep_spec(i)
        } else {
            (self, Ok(()))
        };
        if r is Err {
            (e, r)
        } else {
            (e, e.public_post())
        }
    }

    /// Moves insurance to the capital of an account.
    #[verifier::opaque]
    pub open spec fn credit_from_insurance_spec(self, idx: u16, amount: u128, now_slot: u64) -> (
        RiskEngine,
        Result<(), RiskError>,
    ) {
        let i = idx as int;
        let gate = self.sound_quiet_gate(i, now_slot);
        let ins = self.insurance_fund.balance.get();
        let cap = self.accounts@[i].capital.get() + amount;
        if gate is Err {
            (self, gate)
        } else if self.live_reconciliation_lock_active() {
            (self, Err(RiskError::Undercollateralized))
        } else if amount > ins {
            (self, Err(RiskError::InsufficientBalance))
        } else if cap > u128::MAX {
            (self, Err(RiskError::Overflow))
        } else {
            let (e, r) = self.with_funds(
                self.vault.get() as int,
                ins - amount,
                now_slot,
            ).set_capital_spec(i, cap as u128);
            if r is Err {
                (e, r)
            } else {
                e.swept_if_flat(i)
            }
        }
    }

    /// Moves insurance to the capital of an account. Refused while losses of the
    /// market are not reconciled.
    pub fn credit_account_from_insurance_not_atomic(
        &mut self,
        idx: u16,
        amount: u128,
        now_slot: u64,
    ) -> (r: Result<(), RiskError>)
        ensures
            (*final(self), r) == old(self).credit_from_insurance_spec(idx, amount, now_slot),
            r is Ok ==> final(self).public_post() is Ok,
    {
        reveal(RiskEngine::credit_from_insurance_spec);
        let i: usize = idx as usize;
        self.validate_sound_quiet_gate(i, now_slot)?;
        if self.live_reconciliation_lock_active() {
            return Err(RiskError::Undercollateralized);
        }
        let ins: u128 = self.insurance_fund.balance.get();
        if amount > ins {
            return Err(RiskError::InsufficientBalance);
        }
        let new_cap: u128 = self.accounts[i].capital.get().checked_add(amount).ok_or(
            RiskError::Overflow,
        )?;
        let vault: u128 = self.vault.get();
        self.set_funds(vault, ins - amount, now_slot);
        self.set_capital(i, new_cap)?;
        if self.accounts[i].position_basis_q == 0 && self.accounts[i].pnl >= 0 {
            self.fee_debt_sweep(i)?;
        }
        self.assert_public_postconditions()
    }

    /// Whether a live market holds nothing that insurance could still have to pay.
    pub open spec fn is_quiescent(self) -> bool {
        &&& self.oi_eff_long_q == 0
        &&& self.oi_eff_short_q == 0
        &&& self.stored_pos_count_long == 0
        &&& self.stored_pos_count_short == 0
        &&& self.stale_account_count_long == 0
        &&& self.stale_account_count_short == 0
        &&& self.neg_pnl_account_count == 0
        &&& self.current_slot == self.last_market_slot
        &&& self.stress_consumed_bps_e9_since_envelope == 0
        &&& !self.bankruptcy_hmax_lock_active
    }

    /// Withdraws insurance from a live market.
    #[verifier::opaque]
    pub open spec fn withdraw_live_insurance_spec(self, amount: u128, now_slot: u64) -> (
        RiskEngine,
        Result<(), RiskError>,
    ) {
        let ins = self.insurance_fund.balance.get();
        if self.market_mode != MarketMode::Live {
            (self, Err(RiskError::Unauthorized))
        } else if self.active_close_present != 0 {
            (self, Err(RiskError::RecoveryRequired))
        } else if self.public_post() is Err {
            (self, self.public_post())
        } else if self.check_live_accrual_envelope_spec(now_slot) is Err {
            (self, self.check_live_accrual_envelope_spec(now_slot))
        } else if !self.is_quiescent() {
            (self, Err(RiskError::Undercollateralized))
        } else if amount > ins {
            (self, Err(RiskError::InsufficientBalance))
        } else {
            let e = self.with_funds(self.vault.get() - amount, ins - amount, now_slot);
            (e, e.public_post())
        }
    }

    /// Withdraws insurance from a live market that holds nothing that insurance could
    /// still have to pay.
    pub fn withdraw_live_insurance_not_atomic(&mut self, amount: u128, now_slot: u64) -> (r: Result<
        (),
        RiskError,
    >)
        ensures
            (*final(self), r) == old(self).withdraw_live_insurance_spec(amount, now_slot),
            r is Ok ==> final(self).public_post() is Ok,
    {
        reveal(RiskEngine::withdraw_live_insurance_spec);
        if self.market_mode != MarketMode::Live {
            return Err(RiskError::Unauthorized);
        }
        self.ensure_no_active_bankrupt_close()?;
        self.assert_public_postconditions()?;
        if now_slot < self.current_slot {
            return Err(RiskError::Overflow);
        }
        self.check_live_accrual_envelope(now_slot)?;
        if self.oi_eff_long_q != 0 || self.oi_eff_short_q != 0 || self.stored_pos_count_long != 0
            || self.stored_pos_count_short != 0 || self.stale_account_count_long != 0
            || self.stale_account_count_short != 0 || self.neg_pnl_account_count != 0
            || self.current_slot != self.last_market_slot
            || self.stress_consumed_bps_e9_since_envelope != 0 || self.bankruptcy_hmax_lock_active {
            return Err(RiskError::Undercollateralized);
        }
        let ins: u128 = self.insurance_fund.balance.get();
        if amount > ins {
            return Err(RiskError::InsufficientBalance);
        }
        assert(ins <= self.vault.get()) by {
            reveal(RiskEngine::public_post);
        }
        let vault_next: u128 = self.vault.get() - amount;
        self.set_funds(vault_next, ins - amount, now_slot);
        self.assert_public_postconditions()
    }

    /// Withdraws all insurance from a settled market without accounts.
    #[verifier::opaque]
    pub open spec fn withdraw_resolved_insurance_spec(self) -> (RiskEngine, Result<
        u128,
        RiskError,
    >) {
        if self.market_mode != MarketMode::Resolved {
            (self, Err(RiskError::Unauthorized))
        } else if self.public_post() is Err {
            (self, Err(self.public_post()->Err_0))
        } else if self.num_used_accounts != 0 {
            (self, Err(RiskError::Unauthorized))
        } else {
            let (e, r) = self.sweep_empty_market_surplus_spec();
            let payout = e.insurance_fund.balance.get();
            if r is Err {
                (e, Err(r->Err_0))
            } else if payout == 0 {
                (e, Ok(0))
            } else if payout > e.vault.get() {
                (e, Err(RiskError::CorruptState))
            } else {
                let e2 = e.with_funds(e.vault.get() - payout, 0, e.current_slot);
                match e2.public_post() {
                    Err(err) => (e2, Err(err)),
                    Ok(_) => (e2, Ok(payout)),
                }
            }
        }
    }

    /// Withdraws all insurance from a settled market without accounts, along with
    /// what is left over there. Gives the amount.
    pub fn withdraw_resolved_insurance_not_atomic(&mut self) -> (r: Result<u128, RiskError>)
        ensures
            (*final(self), r) == old(self).withdraw_resolved_insurance_spec(),
            r is Ok ==> final(self).public_post() is Ok,
    {
        reveal(RiskEngine::withdraw_resolved_insurance_spec);
        if self.market_mode != MarketMode::Resolved {
            return Err(RiskError::Unauthorized);
        }
        self.assert_public_postconditions()?;
        if self.num_used_accounts != 0 {
            return Err(RiskError::Unauthorized);
        }
        self.sweep_empty_market_surplus_to_insurance()?;
        let payout: u128 = self.insurance_fund.balance.get();
        if payout == 0 {
            assert(*self == *old(self)) by {
                reveal(RiskEngine::sweep_empty_market_surplus_spec);
                reveal(RiskEngine::public_post);
            }
            return Ok(0);
        }
        let vault_next: u128 = self.vault.get().checked_sub(payout).ok_or(
            RiskError::CorruptState,
        )?;
        let slot: u64 = self.current_slot;
        self.set_funds(vault_next, 0, slot);
        self.assert_public_postconditions()?;
        Ok(payout)
    }

    /// Charges a one-time fee to an account.
    #[verifier::opaque]
    pub open spec fn charge_account_fee_spec(self, idx: u16, fee: u128, now_slot: u64) -> (
        RiskEngine,
        Result<(), RiskError>,
    ) {
        let gate = self.quiet_gate(idx as int, now_slot);
        if gate is Err {
            (self, gate)
        } else if fee > MAX_PROTOCOL_FEE_ABS {
            (self, Err(RiskError::Overflow))
        } else {
            let e = RiskEngine { current_slot: now_slot, ..self };
            if fee == 0 {
                (e, e.public_post())
            } else {
                let (e2, r2) = e.charge_fee_spec(idx as int, fee);
                match r2 {
                    Err(err) => (e2, Err(err)),
                    Ok(_) => (e2, e2.public_post()),
                }
            }
        }
    }

    /// Charges a one-time fee to an account. Its fee slot stays where it is.
    pub fn charge_account_fee_not_atomic(&mut self, idx: u16, fee_abs: u128, now_slot: u64) -> (r:
        Result<(), RiskError>)
        ensures
            (*final(self), r) == old(self).charge_account_fee_spec(idx, fee_abs, now_slot),
            r is Ok ==> final(self).public_post() is Ok,
    {
        reveal(RiskEngine::charge_account_fee_spec);
        self.validate_quiet_gate(idx as usize, now_slot)?;
        if fee_abs > MAX_PROTOCOL_FEE_ABS {
            return Err(RiskError::Overflow);
        }
        self.current_slot = now_slot;
        if fee_abs > 0 {
            let _ = self.charge_fee_to_insurance(idx as usize, fee_abs)?;
        }
        self.assert_public_postconditions()
    }

    /// Takes the loss of an account without a position over, as an instruction.
    #[verifier::opaque]
    pub open spec fn settle_flat_negative_spec(self, idx: u16, now_slot: u64) -> (
        RiskEngine,
        Result<(), RiskError>,
    ) {
        let i = idx as int;
        let a = self.accounts@[i];
        let gate = self.quiet_gate(i, now_slot);
        if gate is Err {
            (self, gate)
        } else if a.position_basis_q != 0 || a.reserved_pnl != 0 || a.sched_present != 0
            || a.pending_present != 0 {
            (self, Err(RiskError::Undercollateralized))
        } else {
            let e = RiskEngine { current_slot: now_slot, ..self };
            if a.pnl >= 0 {
                (e, e.public_post())
            } else {
                let (e2, _, r2) = e.settle_losses_spec(i, None);
                if r2 is Err {
                    (e2, r2)
                } else {
                    let (e3, _, r3) = e2.resolve_flat_negative_spec(i, None);
                    if r3 is Err {
                        (e3, r3)
                    } else {
                        (e3, e3.public_post())
                    }
                }
            }
        }
    }

    /// Pays the loss of an account without a position out of its capital, and takes
    /// the rest over. The market is not accrued.
    pub fn settle_flat_negative_pnl_not_atomic(&mut self, idx: u16, now_slot: u64) -> (r: Result<
        (),
        RiskError,
    >)
        ensures
            (*final(self), r) == old(self).settle_flat_negative_spec(idx, now_slot),
            r is Ok ==> final(self).public_post() is Ok,
    {
        reveal(RiskEngine::settle_flat_negative_spec);
        let i: usize = idx as usize;
        self.validate_quiet_gate(i, now_slot)?;
        if self.accounts[i].position_basis_q != 0 {
            return Err(RiskError::Undercollateralized);
        }
        if self.accounts[i].reserved_pnl != 0 || self.accounts[i].sched_present != 0
            || self.accounts[i].pending_present != 0 {
            return Err(RiskError::Undercollateralized);
        }
        self.current_slot = now_slot;
        if self.accounts[i].pnl >= 0 {
            return self.assert_public_postconditions();
        }
        self.settle_losses(i)?;
        self.resolve_flat_negative(i)?;
        self.assert_public_postconditions()
    }

    /// Slot up to which recurring fees of account `i` are charged: that of the
    /// settlement, else the present one, else, with a position, that of the last
    /// accrual.
    pub open spec fn fee_sync_anchor(self, i: int, now_slot: u64) -> u64 {
        if self.market_mode == MarketMode::Resolved {
            self.resolved_slot
        } else if now_slot > self.last_market_slot && i < MAX_ACCOUNTS
            && self.accounts@[i].position_basis_q != 0 {
            self.last_market_slot
        } else {
            now_slot
        }
    }

    fn compute_fee_sync_anchor(&self, idx: usize, now_slot: u64) -> (r: u64)
        ensures
            r == self.fee_sync_anchor(idx as int, now_slot),
    {
        match self.market_mode {
            MarketMode::Resolved => self.resolved_slot,
            MarketMode::Live => if now_slot > self.last_market_slot && idx < MAX_ACCOUNTS
                && self.accounts[idx].position_basis_q != 0 {
                self.last_market_slot
            } else {
                now_slot
            },
        }
    }

    /// What a charge of recurring fees accepts.
    pub open spec fn fee_sync_gate(self, i: int, now_slot: u64, rate: u128) -> Result<
        (),
        RiskError,
    > {
        let anchor = self.fee_sync_anchor(i, now_slot);
        let a = self.accounts@[i];
        if self.active_close_present != 0 {
            Err(RiskError::RecoveryRequired)
        } else if now_slot < self.current_slot {
            Err(RiskError::Overflow)
        } else if self.validate_shape_at_spec(i, anchor) is Err {
            self.validate_shape_at_spec(i, anchor)
        } else if rate > 0 && anchor > a.last_fee_slot && self.fee_draw_spec(a) is Err {
            self.fee_draw_spec(a)
        } else if self.market_mode == MarketMode::Live && now_slot > self.current_slot {
            self.check_live_accrual_envelope_spec(now_slot)
        } else {
            Ok(())
        }
    }

    fn validate_fee_sync(&self, idx: usize, now_slot: u64, rate: u128, anchor: u64) -> (r: Result<
        (),
        RiskError,
    >)
        requires
            anchor == self.fee_sync_anchor(idx as int, now_slot),
        ensures
            r == self.fee_sync_gate(idx as int, now_slot, rate),
    {
        self.ensure_no_active_bankrupt_close()?;
        if now_slot < self.current_slot {
            return Err(RiskError::Overflow);
        }
        self.validate_touched_account_shape_at_fee_slot(idx, anchor)?;
        if rate > 0 && anchor > self.accounts[idx].last_fee_slot {
            self.ensure_fee_draw_does_not_precede_loss(idx)?;
        }
        if self.market_mode == MarketMode::Live && now_slot > self.current_slot {
            self.check_live_accrual_envelope(now_slot)?;
        }
        Ok(())
    }

    /// Charges recurring fees to an account, as an instruction.
    #[verifier::opaque]
    pub open spec fn sync_fee_instruction_spec(self, idx: u16, now_slot: u64, rate: u128) -> (
        RiskEngine,
        Result<(), RiskError>,
    ) {
        let i = idx as int;
        let gate = self.fee_sync_gate(i, now_slot, rate);
        if gate is Err {
            (self, gate)
        } else {
            let e = if self.market_mode == MarketMode::Live {
                RiskEngine { current_slot: now_slot, ..self }
            } else {
                self
            };
            let (e2, r2) = e.sync_fee_spec(i, self.fee_sync_anchor(i, now_slot), rate);
            if r2 is Err {
                (e2, r2)
            } else {
                (e2, e2.public_post())
            }
        }
    }

    /// Charges recurring fees to an account up to the slot that the mode of the
    /// market and the account allow. Fees are not drawn ahead of a loss.
    pub fn sync_account_fee_to_slot_not_atomic(
        &mut self,
        idx: u16,
        now_slot: u64,
        fee_rate_per_slot: u128,
    ) -> (r: Result<(), RiskError>)
        ensures
            (*final(self), r) == old(self).sync_fee_instruction_spec(
                idx,
                now_slot,
                fee_rate_per_slot,
            ),
            r is Ok ==> final(self).public_post() is Ok,
    {
        reveal(RiskEngine::sync_fee_instruction_spec);
        let anchor: u64 = self.compute_fee_sync_anchor(idx as usize, now_slot);
        self.validate_fee_sync(idx as usize, now_slot, fee_rate_per_slot, anchor)?;
        if self.market_mode == MarketMode::Live {
            self.current_slot = now_slot;
        }
        self.sync_account_fee_to_slot(idx as usize, anchor, fee_rate_per_slot)?;
        self.assert_public_postconditions()
    }

    /// Whether the market is settled.
    #[verifier::allow_in_spec]
    pub fn is_resolved(&self) -> bool
        returns
            self.market_mode == MarketMode::Resolved,
    {
        self.market_mode == MarketMode::Resolved
    }

    /// Price and slot of the settlement.
    #[verifier::allow_in_spec]
    pub fn resolved_context(&self) -> (u64, u64)
        returns
            (self.resolved_price, self.resolved_slot),
    {
        (self.resolved_price, self.resolved_slot)
    }

    /// Pays fee debt of an account from outside.
    #[verifier::opaque]
    pub open spec fn deposit_fee_credits_spec(self, idx: u16, amount: u128, now_slot: u64) -> (
        RiskEngine,
        Result<u128, RiskError>,
    ) {
        let i = idx as int;
        let a = self.accounts@[i];
        let gate = self.sound_quiet_gate(i, now_slot);
        let pay = crate::wide_math::min_int(amount as int, a.fee_debt()) as u128;
        if gate is Err {
            (self, Err(gate->Err_0))
        } else if pay > 0 && self.vault.get() + pay > MAX_VAULT_TVL {
            (self, Err(RiskError::Overflow))
        } else {
            let after = self.with_funds(
                self.vault.get() + pay,
                self.insurance_fund.balance.get() + pay,
                now_slot,
            ).with_fee_credits(i, (a.fee_credits.get() + pay) as i128);
            match after.public_post() {
                Err(err) => (self, Err(err)),
                Ok(_) => (after, Ok(pay)),
            }
        }
    }

    /// Pays fee debt of an account from outside, at most what it owes. Gives what
    /// was paid. A refusal leaves the engine as it is.
    pub fn deposit_fee_credits(&mut self, idx: u16, amount: u128, now_slot: u64) -> (r: Result<
        u128,
        RiskError,
    >)
        ensures
            (*final(self), r) == old(self).deposit_fee_credits_spec(idx, amount, now_slot),
            r is Err ==> *final(self) == *old(self),
            r is Ok ==> final(self).public_post() is Ok,
    {
        reveal(RiskEngine::deposit_fee_credits_spec);
        let i: usize = idx as usize;
        self.validate_sound_quiet_gate(i, now_slot)?;
        let fc: i128 = self.accounts[i].fee_credits.get();
        let debt: u128 = fee_debt_u128_checked(fc);
        let pay: u128 = min_u128(amount, debt);
        let vault: u128 = self.vault.get();
        let ins: u128 = self.insurance_fund.balance.get();
        let slot: u64 = self.current_slot;
        let new_vault: u128 = vault.checked_add(pay).ok_or(RiskError::Overflow)?;
        if pay > 0 && new_vault > MAX_VAULT_TVL {
            return Err(RiskError::Overflow);
        }
        assert(ins <= vault) by {
            reveal(RiskEngine::public_post);
        }
        self.set_funds(new_vault, ins + pay, now_slot);
        self.accounts[i].fee_credits = I128::new(fc + (pay as i128));
        if let Err(e) = self.assert_public_postconditions() {
            self.set_funds(vault, ins, slot);
            self.accounts[i].fee_credits = I128::new(fc);
            proof {
                crate::context::lemma_array_of(old(self).accounts);
                assert(self.accounts@ =~= old(self).accounts@);
                crate::context::lemma_array_of(self.accounts);
            }
            return Err(e);
        }
        Ok(pay)
    }

    /// Whether account `i` holds nothing but fee debt.
    pub open spec fn reclaimable(self, i: int) -> bool {
        let a = self.accounts@[i];
        &&& a.position_basis_q == 0
        &&& a.pnl == 0
        &&& a.reserved_pnl == 0
        &&& a.sched_present == 0
        &&& a.pending_present == 0
    }

    /// Frees the slot of an account that holds nothing but fee debt.
    #[verifier::opaque]
    pub open spec fn reclaim_spec(self, idx: u16, now_slot: u64) -> (RiskEngine, Result<
        (),
        RiskError,
    >) {
        let i = idx as int;
        let gate = self.quiet_gate(i, now_slot);
        let e = RiskEngine { current_slot: now_slot, ..self };
        if gate is Err {
            (self, gate)
        } else if !self.reclaimable(i) {
            (self, Err(RiskError::Undercollateralized))
        } else if self.accounts@[i].capital.get() != 0 {
            (e, Err(RiskError::Undercollateralized))
        } else {
            e.with_debt_forgiven(i).release_slot(idx)
        }
    }

    /// Frees the slot of an account that holds nothing but fee debt, and forgives
    /// the debt.
    pub fn reclaim_empty_account_not_atomic(&mut self, idx: u16, now_slot: u64) -> (r: Result<
        (),
        RiskError,
    >)
        ensures
            (*final(self), r) == old(self).reclaim_spec(idx, now_slot),
            r is Ok ==> final(self).public_post() is Ok,
    {
        reveal(RiskEngine::reclaim_spec);
        let i: usize = idx as usize;
        self.validate_quiet_gate(i, now_slot)?;
        if self.accounts[i].position_basis_q != 0 {
            return Err(RiskError::Undercollateralized);
        }
        if self.accounts[i].pnl != 0 {
            return Err(RiskError::Undercollateralized);
        }
        if self.accounts[i].reserved_pnl != 0 {
            return Err(RiskError::Undercollateralized);
        }
        if self.accounts[i].sched_present != 0 || self.accounts[i].pending_present != 0 {
            return Err(RiskError::Undercollateralized);
        }
        self.current_slot = now_slot;
        if !self.accounts[i].capital.is_zero() {
            return Err(RiskError::Undercollateralized);
        }
        self.forgive_debt(i);
        self.release_account_slot(idx)
    }

    /// Moves the present slot on, up to the last one.
    pub fn advance_slot(&mut self, slots: u64)
        ensures
            *final(self) == (RiskEngine {
                current_slot: crate::wide_math::min_int(
                    old(self).current_slot + slots,
                    u64::MAX as int,
                ) as u64,
                ..*old(self)
            }),
    {
        self.current_slot = self.current_slot.saturating_add(slots);
    }
}

} // verus!
