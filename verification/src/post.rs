//! What holds of every state that an instruction leaves behind.

use vstd::prelude::*;

use crate::constants::{
    ADL_ONE, MAX_ACCOUNTS, MAX_ACCOUNT_NOTIONAL, MAX_OI_SIDE_Q, MAX_ORACLE_PRICE, MAX_PNL_POS_TOT,
    MAX_VAULT_TVL, SOCIAL_LOSS_DEN,
};
use crate::int128::U128;
use crate::sides::side_of_i128;
use crate::types::{Account, MarketMode, RiskEngine, RiskError, Side};

verus! {

impl Account {
    /// Whether a slot that is not in use holds nothing.
    pub open spec fn is_blank(self) -> bool {
        &&& self.kind == 0
        &&& self.capital.get() == 0
        &&& self.pnl == 0
        &&& self.reserved_pnl == 0
        &&& self.position_basis_q == 0
        &&& self.adl_a_basis == ADL_ONE
        &&& self.adl_k_snap == 0
        &&& self.f_snap == 0
        &&& self.adl_epoch_snap == 0
        &&& self.fee_credits.get() == 0
        &&& self.last_fee_slot == 0
        &&& self.sched_present == 0
        &&& self.sched_remaining_q == 0
        &&& self.sched_anchor_q == 0
        &&& self.sched_start_slot == 0
        &&& self.sched_horizon == 0
        &&& self.sched_release_q == 0
        &&& self.pending_present == 0
        &&& self.pending_remaining_q == 0
        &&& self.pending_horizon == 0
        &&& self.pending_created_slot == 0
        &&& forall|k: int| 0 <= k < 32 ==> self.matcher_program@[k] == 0
        &&& forall|k: int| 0 <= k < 32 ==> self.matcher_context@[k] == 0
        &&& forall|k: int| 0 <= k < 32 ==> self.owner@[k] == 0
    }
}

/// Counts of accounts by what they hold.
#[derive(Clone, Copy, Debug, PartialEq, Eq, Structural)]
pub struct AccountCounts {
    pub used: u64,
    pub negative: u64,
    pub stored_long: u64,
    pub stored_short: u64,
    pub stale_long: u64,
    pub stale_short: u64,
}

impl RiskEngine {
    /// Bounds on the state of socialized losses.
    pub open spec fn b_tracking_ok(self) -> bool {
        &&& self.loss_weight_sum_long <= SOCIAL_LOSS_DEN
        &&& self.loss_weight_sum_short <= SOCIAL_LOSS_DEN
        &&& self.social_loss_remainder_long_num < SOCIAL_LOSS_DEN
        &&& self.social_loss_remainder_short_num < SOCIAL_LOSS_DEN
        &&& self.social_loss_dust_long_num < SOCIAL_LOSS_DEN
        &&& self.social_loss_dust_short_num < SOCIAL_LOSS_DEN
        &&& self.explicit_unallocated_loss_saturated <= 1
    }

    /// Accepts a sound state of socialized losses.
    pub fn validate_b_tracking_shape(&self) -> (r: Result<(), RiskError>)
        ensures
            r == if self.b_tracking_ok() {
                Ok::<(), RiskError>(())
            } else {
                Err(RiskError::CorruptState)
            },
    {
        if self.loss_weight_sum_long > SOCIAL_LOSS_DEN || self.loss_weight_sum_short
            > SOCIAL_LOSS_DEN {
            return Err(RiskError::CorruptState);
        }
        if self.social_loss_remainder_long_num >= SOCIAL_LOSS_DEN
            || self.social_loss_remainder_short_num >= SOCIAL_LOSS_DEN {
            return Err(RiskError::CorruptState);
        }
        if self.social_loss_dust_long_num >= SOCIAL_LOSS_DEN || self.social_loss_dust_short_num
            >= SOCIAL_LOSS_DEN {
            return Err(RiskError::CorruptState);
        }
        if self.explicit_unallocated_loss_saturated > 1 {
            return Err(RiskError::CorruptState);
        }
        Ok(())
    }

    /// What a live or a resolved market holds of its settlement.
    pub open spec fn mode_shape_ok(self) -> bool {
        match self.market_mode {
            MarketMode::Live => {
                &&& self.resolved_price == 0
                &&& self.resolved_live_price == 0
                &&& self.resolved_slot == 0
                &&& self.resolved_k_long_terminal_delta == 0
                &&& self.resolved_k_short_terminal_delta == 0
                &&& self.resolved_payout_ready == 0
            },
            MarketMode::Resolved => {
                &&& self.resolved_price != 0
                &&& self.resolved_live_price != 0
                &&& self.current_slot == self.resolved_slot
                &&& !self.bankruptcy_hmax_lock_active
            },
        }
    }

    /// What holds of the totals and indices of every state that an instruction
    /// leaves behind.
    pub open spec fn totals_ok(self) -> bool {
        &&& self.params.shape_accepts()
        &&& self.signed_shape_ok()
        &&& self.vault.get() <= MAX_VAULT_TVL
        &&& self.conserves()
        &&& self.oi_eff_long_q == self.oi_eff_short_q
        &&& self.oi_eff_long_q <= MAX_OI_SIDE_Q
        &&& self.adl_mult_long <= ADL_ONE
        &&& self.adl_mult_short <= ADL_ONE
        &&& self.oi_eff_long_q != 0 ==> self.adl_mult_long != 0 && self.adl_mult_short != 0
        &&& self.stored_pos_count_long <= self.params.max_active_positions_per_side
        &&& self.stored_pos_count_short <= self.params.max_active_positions_per_side
        &&& self.pnl_matured_pos_tot <= self.pnl_pos_tot
        &&& self.market_mode == MarketMode::Live ==> self.pnl_pos_tot <= MAX_PNL_POS_TOT
        &&& self.phantom_dust_certified_long_q <= self.phantom_dust_potential_long_q
        &&& self.phantom_dust_certified_short_q <= self.phantom_dust_potential_short_q
        &&& self.b_tracking_ok()
        &&& self.materialized_account_count <= self.params.max_accounts
        &&& self.materialized_account_count == self.num_used_accounts
        &&& self.neg_pnl_account_count <= self.materialized_account_count
        &&& self.rr_cursor_position < self.params.max_accounts
        &&& 0 < self.last_oracle_price <= MAX_ORACLE_PRICE
        &&& 0 < self.fund_px_last <= MAX_ORACLE_PRICE
        &&& self.last_market_slot <= self.current_slot
        &&& self.resolved_payout_ready <= 1
        &&& self.resolved_payout_ready == 0 ==> self.resolved_payout_h_num == 0
            && self.resolved_payout_h_den == 0
        &&& self.resolved_payout_h_num <= self.resolved_payout_h_den
        &&& self.mode_shape_ok()
    }

    /// Accepts sound totals and indices.
    pub fn assert_public_postconditions_fast(&self) -> (r: Result<(), RiskError>)
        ensures
            r == if self.totals_ok() {
                Ok::<(), RiskError>(())
            } else {
                Err(RiskError::CorruptState)
            },
    {
        if Self::validate_params_fast_shape(&self.params).is_err() {
            return Err(RiskError::CorruptState);
        }
        self.validate_persistent_global_signed_shape()?;
        let vault: u128 = self.vault.get();
        if vault > MAX_VAULT_TVL || self.c_tot.get() > vault || self.insurance_fund.balance.get()
            > vault {
            return Err(RiskError::CorruptState);
        }
        if !self.check_conservation() {
            return Err(RiskError::CorruptState);
        }
        if self.oi_eff_long_q != self.oi_eff_short_q {
            return Err(RiskError::CorruptState);
        }
        if self.oi_eff_long_q > MAX_OI_SIDE_Q || self.oi_eff_short_q > MAX_OI_SIDE_Q {
            return Err(RiskError::CorruptState);
        }
        if self.adl_mult_long > ADL_ONE || self.adl_mult_short > ADL_ONE {
            return Err(RiskError::CorruptState);
        }
        if self.oi_eff_long_q != 0 && self.adl_mult_long == 0 {
            return Err(RiskError::CorruptState);
        }
        if self.oi_eff_short_q != 0 && self.adl_mult_short == 0 {
            return Err(RiskError::CorruptState);
        }
        let cap: u64 = self.params.max_active_positions_per_side;
        if self.stored_pos_count_long > cap || self.stored_pos_count_short > cap {
            return Err(RiskError::CorruptState);
        }
        if self.pnl_matured_pos_tot > self.pnl_pos_tot {
            return Err(RiskError::CorruptState);
        }
        if self.market_mode == MarketMode::Live && self.pnl_pos_tot > MAX_PNL_POS_TOT {
            return Err(RiskError::CorruptState);
        }
        if self.get_phantom_dust_certified(Side::Long) > self.get_phantom_dust_potential(Side::Long)
            || self.get_phantom_dust_certified(Side::Short) > self.get_phantom_dust_potential(
            Side::Short,
        ) {
            return Err(RiskError::CorruptState);
        }
        self.validate_b_tracking_shape()?;
        if self.materialized_account_count > self.params.max_accounts {
            return Err(RiskError::CorruptState);
        }
        if self.materialized_account_count != self.num_used_accounts as u64 {
            return Err(RiskError::CorruptState);
        }
        if self.neg_pnl_account_count > self.materialized_account_count {
            return Err(RiskError::CorruptState);
        }
        if self.rr_cursor_position >= self.params.max_accounts {
            return Err(RiskError::CorruptState);
        }
        if self.last_oracle_price == 0 || self.last_oracle_price > MAX_ORACLE_PRICE {
            return Err(RiskError::CorruptState);
        }
        if self.fund_px_last == 0 || self.fund_px_last > MAX_ORACLE_PRICE {
            return Err(RiskError::CorruptState);
        }
        if self.current_slot < self.last_market_slot {
            return Err(RiskError::CorruptState);
        }
        if self.resolved_payout_ready > 1 {
            return Err(RiskError::CorruptState);
        }
        if self.resolved_payout_ready == 0 && (self.resolved_payout_h_num != 0
            || self.resolved_payout_h_den != 0) {
            return Err(RiskError::CorruptState);
        }
        if self.resolved_payout_ready != 0 && self.resolved_payout_h_num
            > self.resolved_payout_h_den {
            return Err(RiskError::CorruptState);
        }
        match self.market_mode {
            MarketMode::Live => {
                if self.resolved_price != 0 || self.resolved_live_price != 0 || self.resolved_slot
                    != 0 || self.resolved_k_long_terminal_delta != 0
                    || self.resolved_k_short_terminal_delta != 0 || self.resolved_payout_ready
                    != 0 {
                    return Err(RiskError::CorruptState);
                }
            },
            MarketMode::Resolved => {
                if self.resolved_price == 0 || self.resolved_live_price == 0 {
                    return Err(RiskError::CorruptState);
                }
                if self.current_slot != self.resolved_slot {
                    return Err(RiskError::CorruptState);
                }
                if self.bankruptcy_hmax_lock_active {
                    return Err(RiskError::CorruptState);
                }
            },
        }
        Ok(())
    }

    /// Whether the position of account `i` is of the epoch before a reset.
    pub open spec fn is_stale(self, i: int) -> bool {
        let a = self.accounts@[i];
        a.position_basis_q != 0 && a.adl_epoch_snap != self.get_epoch_side(
            crate::sides::some_side(a.position_basis_q),
        )
    }

    /// Accepts slot `i` as an instruction may leave it behind: blank if it is not in
    /// use, else a sound account of the market whose notional is within bounds.
    pub open spec fn slot_check(self, i: int) -> Result<(), RiskError> {
        let a = self.accounts@[i];
        if !self.slot_used(i) {
            if a.is_blank() {
                Ok(())
            } else {
                Err(RiskError::CorruptState)
            }
        } else if i >= self.params.max_accounts || !self.account_shape_ok(
            i,
            self.fee_slot_anchor(),
        ) {
            Err(RiskError::CorruptState)
        } else if a.position_basis_q != 0 && !self.is_stale(i) {
            match self.notional_spec(i, self.last_oracle_price, false) {
                Err(e) => Err(e),
                Ok(n) => if n > MAX_ACCOUNT_NOTIONAL {
                    Err(RiskError::CorruptState)
                } else {
                    Ok(())
                },
            }
        } else {
            Ok(())
        }
    }

    /// Whether account `i` counts as used, negative, stored or stale.
    pub open spec fn counts_of(self, i: int) -> AccountCounts {
        let a = self.accounts@[i];
        let used = self.slot_used(i);
        let long = used && a.position_basis_q > 0;
        let short = used && a.position_basis_q < 0;
        AccountCounts {
            used: if used {
                1
            } else {
                0
            },
            negative: if used && a.pnl < 0 {
                1
            } else {
                0
            },
            stored_long: if long {
                1
            } else {
                0
            },
            stored_short: if short {
                1
            } else {
                0
            },
            stale_long: if long && self.is_stale(i) {
                1
            } else {
                0
            },
            stale_short: if short && self.is_stale(i) {
                1
            } else {
                0
            },
        }
    }

    /// The counts over the slots below `n`.
    pub open spec fn counts_below(self, n: int) -> AccountCounts
        decreases n,
    {
        if n <= 0 {
            AccountCounts {
                used: 0,
                negative: 0,
                stored_long: 0,
                stored_short: 0,
                stale_long: 0,
                stale_short: 0,
            }
        } else {
            let c = self.counts_below(n - 1);
            let d = self.counts_of(n - 1);
            AccountCounts {
                used: (c.used + d.used) as u64,
                negative: (c.negative + d.negative) as u64,
                stored_long: (c.stored_long + d.stored_long) as u64,
                stored_short: (c.stored_short + d.stored_short) as u64,
                stale_long: (c.stale_long + d.stale_long) as u64,
                stale_short: (c.stale_short + d.stale_short) as u64,
            }
        }
    }

    /// The first refusal among the slots below `n`.
    pub open spec fn slots_check(self, n: int) -> Result<(), RiskError>
        decreases n,
    {
        if n <= 0 {
            Ok(())
        } else {
            match self.slots_check(n - 1) {
                Err(e) => Err(e),
                Ok(_) => self.slot_check(n - 1),
            }
        }
    }

    /// Whether the counters of the engine are the counts over its accounts.
    pub open spec fn counters_match(self) -> bool {
        let c = self.counts_below(MAX_ACCOUNTS as int);
        &&& c.used == self.num_used_accounts
        &&& c.used == self.materialized_account_count
        &&& c.negative == self.neg_pnl_account_count
        &&& c.stored_long == self.stored_pos_count_long
        &&& c.stored_short == self.stored_pos_count_short
        &&& c.stale_long == self.stale_account_count_long
        &&& c.stale_short == self.stale_account_count_short
    }

    /// Accepts sound accounts whose counts match the counters.
    pub open spec fn accounts_check(self) -> Result<(), RiskError> {
        match self.slots_check(MAX_ACCOUNTS as int) {
            Err(e) => Err(e),
            Ok(_) => if self.counters_match() {
                Ok(())
            } else {
                Err(RiskError::CorruptState)
            },
        }
    }

    fn is_account_blank(account: &Account) -> (r: bool)
        ensures
            r == account.is_blank(),
    {
        account.kind == 0 && account.capital.is_zero() && account.pnl == 0 && account.reserved_pnl
            == 0 && account.position_basis_q == 0 && account.adl_a_basis == ADL_ONE
            && account.adl_k_snap == 0 && account.f_snap == 0 && account.adl_epoch_snap == 0
            && account.fee_credits.get() == 0 && account.last_fee_slot == 0
            && account.sched_present == 0 && account.sched_remaining_q == 0
            && account.sched_anchor_q == 0 && account.sched_start_slot == 0
            && account.sched_horizon == 0 && account.sched_release_q == 0
            && account.pending_present == 0 && account.pending_remaining_q == 0
            && account.pending_horizon == 0 && account.pending_created_slot == 0
            && Self::is_zero_bytes_32(&account.matcher_program) && Self::is_zero_bytes_32(
            &account.matcher_context,
        ) && Self::is_zero_bytes_32(&account.owner)
    }

    fn validate_slot(&self, idx: usize) -> (r: Result<(), RiskError>)
        requires
            idx < MAX_ACCOUNTS,
        ensures
            r == self.slot_check(idx as int),
    {
        let account = &self.accounts[idx];
        if !self.is_used(idx) {
            if !Self::is_account_blank(account) {
                return Err(RiskError::CorruptState);
            }
            return Ok(());
        }
        if self.validate_touched_account_shape(idx).is_err() {
            return Err(RiskError::CorruptState);
        }
        if let Some(side) = side_of_i128(account.position_basis_q) {
            if account.adl_epoch_snap == self.get_epoch_side(side) {
                let notional: u128 = self.notional_checked(idx, self.last_oracle_price, false)?;
                if notional > MAX_ACCOUNT_NOTIONAL {
                    return Err(RiskError::CorruptState);
                }
            }
        }
        Ok(())
    }

    /// Accepts sound accounts whose counts match the counters.
    pub fn validate_public_account_postconditions(&self) -> (r: Result<(), RiskError>)
        ensures
            r == self.accounts_check(),
    {
        let mut used_count: u64 = 0;
        let mut neg_count: u64 = 0;
        let mut stored_long: u64 = 0;
        let mut stored_short: u64 = 0;
        let mut stale_long: u64 = 0;
        let mut stale_short: u64 = 0;
        let mut idx: usize = 0;
        while idx < MAX_ACCOUNTS
            invariant
                idx <= MAX_ACCOUNTS,
                self.slots_check(idx as int) is Ok,
                self.counts_below(idx as int) == (AccountCounts {
                    used: used_count,
                    negative: neg_count,
                    stored_long,
                    stored_short,
                    stale_long,
                    stale_short,
                }),
                used_count <= idx,
                neg_count <= idx,
                stored_long <= idx,
                stored_short <= idx,
                stale_long <= idx,
                stale_short <= idx,
            decreases MAX_ACCOUNTS - idx,
        {
            match self.validate_slot(idx) {
                Ok(_) => {},
                Err(e) => {
                    proof {
                        lemma_first_refusal(*self, idx as int, MAX_ACCOUNTS as int);
                    }
                    return Err(e);
                },
            }
            if self.is_used(idx) {
                let account = &self.accounts[idx];
                used_count = used_count + 1;
                if account.pnl < 0 {
                    neg_count = neg_count + 1;
                }
                match side_of_i128(account.position_basis_q) {
                    Some(Side::Long) => {
                        stored_long = stored_long + 1;
                        if account.adl_epoch_snap != self.adl_epoch_long {
                            stale_long = stale_long + 1;
                        }
                    },
                    Some(Side::Short) => {
                        stored_short = stored_short + 1;
                        if account.adl_epoch_snap != self.adl_epoch_short {
                            stale_short = stale_short + 1;
                        }
                    },
                    None => {},
                }
            }
            idx = idx + 1;
        }
        if used_count != self.num_used_accounts as u64 || used_count
            != self.materialized_account_count || neg_count != self.neg_pnl_account_count
            || stored_long != self.stored_pos_count_long || stored_short
            != self.stored_pos_count_short || stale_long != self.stale_account_count_long
            || stale_short != self.stale_account_count_short {
            return Err(RiskError::CorruptState);
        }
        Ok(())
    }

    /// What every instruction checks of the state that it leaves behind.
    #[verifier::opaque]
    pub open spec fn public_post(self) -> Result<(), RiskError> {
        if !self.totals_ok() {
            Err(RiskError::CorruptState)
        } else {
            self.accounts_check()
        }
    }

    /// Accepts a state that an instruction may leave behind.
    pub fn assert_public_postconditions(&self) -> (r: Result<(), RiskError>)
        ensures
            r == self.public_post(),
    {
        reveal(RiskEngine::public_post);
        self.assert_public_postconditions_fast()?;
        self.validate_public_account_postconditions()?;
        Ok(())
    }

    /// Moves what is left over in a market without accounts and claims to insurance.
    #[verifier::opaque]
    pub open spec fn sweep_empty_market_surplus_spec(self) -> (RiskEngine, Result<(), RiskError>) {
        if self.num_used_accounts != 0 || self.c_tot.get() != 0 || self.pnl_pos_tot != 0
            || self.pnl_matured_pos_tot != 0 || self.oi_eff_long_q != 0 || self.oi_eff_short_q
            != 0 {
            (self, Ok(()))
        } else if self.stored_pos_count_long != 0 || self.stored_pos_count_short != 0
            || self.stale_account_count_long != 0 || self.stale_account_count_short != 0
            || self.neg_pnl_account_count != 0 || self.vault.get()
            < self.insurance_fund.balance.get() {
            (self, Err(RiskError::CorruptState))
        } else {
            (
                RiskEngine {
                    insurance_fund: crate::types::InsuranceFund { balance: self.vault },
                    ..self
                },
                Ok(()),
            )
        }
    }

    /// Moves what is left over in a market without accounts and claims to insurance.
    pub fn sweep_empty_market_surplus_to_insurance(&mut self) -> (r: Result<(), RiskError>)
        ensures
            (*final(self), r) == old(self).sweep_empty_market_surplus_spec(),
    {
        reveal(RiskEngine::sweep_empty_market_surplus_spec);
        if self.num_used_accounts != 0 {
            return Ok(());
        }
        if !self.c_tot.is_zero() || self.pnl_pos_tot != 0 || self.pnl_matured_pos_tot != 0
            || self.oi_eff_long_q != 0 || self.oi_eff_short_q != 0 {
            return Ok(());
        }
        if self.stored_pos_count_long != 0 || self.stored_pos_count_short != 0
            || self.stale_account_count_long != 0 || self.stale_account_count_short != 0
            || self.neg_pnl_account_count != 0 {
            return Err(RiskError::CorruptState);
        }
        let v: u128 = self.vault.get();
        let i: u128 = self.insurance_fund.balance.get();
        if v < i {
            return Err(RiskError::CorruptState);
        }
        let surplus: u128 = v - i;
        if surplus != 0 {
            self.insurance_fund.balance = U128::new(i + surplus);
        }
        Ok(())
    }
}

proof fn lemma_first_refusal(e: RiskEngine, i: int, n: int)
    requires
        0 <= i < n,
        e.slots_check(i) is Ok,
        e.slot_check(i) is Err,
    ensures
        e.slots_check(n) == e.slot_check(i),
    decreases n,
{
    if n == i + 1 {
    } else {
        lemma_first_refusal(e, i, n - 1);
    }
}

} // verus!
