//! Checks of stored state that instructions run before they rely on it.

use vstd::prelude::*;

use crate::constants::{MAX_ACCOUNTS, MAX_POSITION_ABS_Q};
use crate::sides::{side_of_i128, i128_clamp_pos};
use crate::types::{Account, MarketMode, RiskEngine, RiskError, RiskParams, Side, SideMode};
use crate::wide_math::{abs_i128, I256};

verus! {

impl Account {
    /// What the scheduled bucket holds.
    #[verifier::allow_in_spec]
    pub fn sched_amount(&self) -> u128
        returns
            (if self.sched_present != 0 {
                self.sched_remaining_q
            } else {
                0
            }),
    {
        if self.sched_present != 0 {
            self.sched_remaining_q
        } else {
            0
        }
    }

    /// What the pending bucket holds.
    #[verifier::allow_in_spec]
    pub fn pending_amount(&self) -> u128
        returns
            (if self.pending_present != 0 {
                self.pending_remaining_q
            } else {
                0
            }),
    {
        if self.pending_present != 0 {
            self.pending_remaining_q
        } else {
            0
        }
    }

    /// The scheduled bucket: absent and zero, or with a horizon in range and no
    /// more released and remaining than it started with.
    pub open spec fn sched_bucket_ok(self, params: RiskParams) -> bool {
        if self.sched_present == 0 {
            &&& self.sched_remaining_q == 0
            &&& self.sched_anchor_q == 0
            &&& self.sched_start_slot == 0
            &&& self.sched_horizon == 0
            &&& self.sched_release_q == 0
        } else {
            &&& 0 < self.sched_horizon
            &&& params.h_min <= self.sched_horizon <= params.h_max
            &&& self.sched_remaining_q + self.sched_release_q <= self.sched_anchor_q
            &&& self.sched_remaining_q > 0
        }
    }

    /// The pending bucket: absent and zero, or with a horizon in range.
    pub open spec fn pending_bucket_ok(self, params: RiskParams) -> bool {
        if self.pending_present == 0 {
            &&& self.pending_remaining_q == 0
            &&& self.pending_horizon == 0
            &&& self.pending_created_slot == 0
        } else {
            &&& 0 < self.pending_horizon
            &&& params.h_min <= self.pending_horizon <= params.h_max
            &&& self.pending_remaining_q > 0
        }
    }

    /// The two buckets hold the reserve, which positive profit covers.
    pub open spec fn reserve_ok(self, params: RiskParams) -> bool {
        &&& self.sched_bucket_ok(params)
        &&& self.pending_bucket_ok(params)
        &&& self.sched_amount() + self.pending_amount() == self.reserved_pnl
        &&& self.reserved_pnl <= i128_clamp_pos(self.pnl)
    }

    /// Fee credits are never positive and never the smallest integer.
    pub open spec fn fee_credits_ok(self) -> bool {
        self.fee_credits.get() <= 0 && self.fee_credits.get() != i128::MIN
    }
}

impl RiskEngine {
    /// Whether the bytes are all zero.
    pub fn is_zero_bytes_32(bytes: &[u8; 32]) -> (r: bool)
        ensures
            r == (forall|i: int| 0 <= i < 32 ==> bytes@[i] == 0),
    {
        let mut i: usize = 0;
        while i < 32
            invariant
                i <= 32,
                forall|k: int| 0 <= k < i ==> bytes@[k] == 0,
            decreases 32 - i,
        {
            if bytes[i] != 0 {
                return false;
            }
            i = i + 1;
        }
        true
    }

    /// Accepts sound fee credits.
    pub open spec fn validate_fee_credits_shape_spec(self, i: int) -> Result<(), RiskError> {
        if i >= MAX_ACCOUNTS {
            Err(RiskError::AccountNotFound)
        } else if !self.accounts@[i].fee_credits_ok() {
            Err(RiskError::CorruptState)
        } else {
            Ok(())
        }
    }

    /// Accepts sound fee credits.
    pub fn validate_fee_credits_shape(&self, idx: usize) -> (r: Result<(), RiskError>)
        ensures
            r == self.validate_fee_credits_shape_spec(idx as int),
    {
        if idx >= MAX_ACCOUNTS {
            return Err(RiskError::AccountNotFound);
        }
        let fc: i128 = self.accounts[idx].fee_credits.get();
        if fc > 0 || fc == i128::MIN {
            return Err(RiskError::CorruptState);
        }
        Ok(())
    }

    /// Accepts every integer but the smallest.
    pub fn validate_non_min_i128(v: i128) -> (r: Result<(), RiskError>)
        ensures
            r == if v == i128::MIN {
                Err::<(), RiskError>(RiskError::CorruptState)
            } else {
                Ok(())
            },
    {
        if v == i128::MIN {
            return Err(RiskError::CorruptState);
        }
        Ok(())
    }

    /// A value that stored state can hold: above the smallest integer.
    pub open spec fn to_non_min_i128(x: int) -> Result<i128, RiskError> {
        if i128::MIN < x <= i128::MAX {
            Ok(x as i128)
        } else {
            Err(RiskError::Overflow)
        }
    }

    /// Narrows to a value that stored state can hold.
    pub fn try_into_non_min_i128(x: I256) -> (r: Result<i128, RiskError>)
        ensures
            r == RiskEngine::to_non_min_i128(x@),
    {
        let v: i128 = x.try_into_i128().ok_or(RiskError::Overflow)?;
        if v == i128::MIN {
            return Err(RiskError::Overflow);
        }
        Ok(v)
    }

    /// No signed index of the engine is the smallest integer.
    pub open spec fn signed_shape_ok(self) -> bool {
        &&& self.adl_coeff_long != i128::MIN
        &&& self.adl_coeff_short != i128::MIN
        &&& self.adl_epoch_start_k_long != i128::MIN
        &&& self.adl_epoch_start_k_short != i128::MIN
        &&& self.f_long_num != i128::MIN
        &&& self.f_short_num != i128::MIN
        &&& self.f_epoch_start_long_num != i128::MIN
        &&& self.f_epoch_start_short_num != i128::MIN
        &&& self.resolved_k_long_terminal_delta != i128::MIN
        &&& self.resolved_k_short_terminal_delta != i128::MIN
    }

    /// Accepts sound signed indices.
    pub fn validate_persistent_global_signed_shape(&self) -> (r: Result<(), RiskError>)
        ensures
            r == if self.signed_shape_ok() {
                Ok::<(), RiskError>(())
            } else {
                Err(RiskError::CorruptState)
            },
    {
        Self::validate_non_min_i128(self.adl_coeff_long)?;
        Self::validate_non_min_i128(self.adl_coeff_short)?;
        Self::validate_non_min_i128(self.adl_epoch_start_k_long)?;
        Self::validate_non_min_i128(self.adl_epoch_start_k_short)?;
        Self::validate_non_min_i128(self.f_long_num)?;
        Self::validate_non_min_i128(self.f_short_num)?;
        Self::validate_non_min_i128(self.f_epoch_start_long_num)?;
        Self::validate_non_min_i128(self.f_epoch_start_short_num)?;
        Self::validate_non_min_i128(self.resolved_k_long_terminal_delta)?;
        Self::validate_non_min_i128(self.resolved_k_short_terminal_delta)?;
        Ok(())
    }

    /// Whether slot `i` belongs to the market and is in use.
    pub open spec fn account_exists(self, i: int) -> bool {
        0 <= i < MAX_ACCOUNTS && i < self.params.max_accounts && self.slot_used(i)
    }

    /// Accepts a slot of the market that is in use.
    pub fn validate_used_account_slot(&self, idx: usize) -> (r: Result<(), RiskError>)
        ensures
            r == if self.account_exists(idx as int) {
                Ok::<(), RiskError>(())
            } else {
                Err(RiskError::AccountNotFound)
            },
    {
        if idx >= MAX_ACCOUNTS || idx as u64 >= self.params.max_accounts || !self.is_used(idx) {
            return Err(RiskError::AccountNotFound);
        }
        Ok(())
    }

    /// Whether an epoch snapshot is current, or exactly one epoch behind a side
    /// that is being reset.
    pub open spec fn epoch_ok(self, side: Side, epoch_snap: u64) -> bool {
        ||| epoch_snap == self.get_epoch_side(side)
        ||| self.get_side_mode(side) == SideMode::ResetPending && epoch_snap + 1
            == self.get_epoch_side(side)
    }

    /// Whether the position of an account is in range and of a known epoch.
    pub open spec fn position_shape_ok(self, a: Account) -> bool {
        a.position_basis_q != 0 ==> {
            &&& crate::wide_math::abs_int(a.position_basis_q as int) <= MAX_POSITION_ABS_Q
            &&& a.adl_a_basis != 0
            &&& self.epoch_ok(crate::sides::some_side(a.position_basis_q), a.adl_epoch_snap)
        }
    }

    /// Whether account `i` is sound, with recurring fees up to `fee_slot` at most.
    pub open spec fn account_shape_ok(self, i: int, fee_slot: u64) -> bool {
        let a = self.accounts@[i];
        &&& a.kind == 0 || a.kind == 1
        &&& a.sched_present <= 1
        &&& a.pending_present <= 1
        &&& a.last_fee_slot <= fee_slot
        &&& a.pnl != i128::MIN
        &&& a.adl_k_snap != i128::MIN
        &&& a.f_snap != i128::MIN
        &&& a.fee_credits_ok()
        &&& a.reserve_ok(self.params)
        &&& self.position_shape_ok(a)
    }

    /// Accepts a sound account, with recurring fees up to `fee_slot` at most.
    pub open spec fn validate_shape_at_spec(self, i: int, fee_slot: u64) -> Result<(), RiskError> {
        if !self.account_exists(i) {
            Err(RiskError::AccountNotFound)
        } else if !self.account_shape_ok(i, fee_slot) {
            Err(RiskError::CorruptState)
        } else {
            Ok(())
        }
    }

    /// Accepts a sound account, with recurring fees up to `fee_slot_anchor` at most.
    pub fn validate_touched_account_shape_at_fee_slot(
        &self,
        idx: usize,
        fee_slot_anchor: u64,
    ) -> (r: Result<(), RiskError>)
        ensures
            r == self.validate_shape_at_spec(idx as int, fee_slot_anchor),
    {
        self.validate_used_account_slot(idx)?;
        let account = &self.accounts[idx];
        if account.kind != 0 && account.kind != 1 {
            return Err(RiskError::CorruptState);
        }
        if account.sched_present > 1 || account.pending_present > 1 {
            return Err(RiskError::CorruptState);
        }
        if account.last_fee_slot > fee_slot_anchor {
            return Err(RiskError::CorruptState);
        }
        Self::validate_non_min_i128(account.pnl)?;
        Self::validate_non_min_i128(account.adl_k_snap)?;
        Self::validate_non_min_i128(account.f_snap)?;
        self.validate_fee_credits_shape(idx)?;
        self.validate_reserve_shape(idx)?;
        if account.position_basis_q != 0 {
            if abs_i128(account.position_basis_q) > MAX_POSITION_ABS_Q {
                return Err(RiskError::CorruptState);
            }
            if account.adl_a_basis == 0 {
                return Err(RiskError::CorruptState);
            }
            let side = side_of_i128(account.position_basis_q).ok_or(RiskError::CorruptState)?;
            if !self.epoch_is_known(side, account.adl_epoch_snap) {
                return Err(RiskError::CorruptState);
            }
        }
        Ok(())
    }

    /// Decides whether an epoch snapshot is current, or one epoch behind a side
    /// that is being reset.
    pub fn epoch_is_known(&self, side: Side, epoch_snap: u64) -> (r: bool)
        ensures
            r == self.epoch_ok(side, epoch_snap),
    {
        let epoch_side: u64 = self.get_epoch_side(side);
        epoch_snap == epoch_side || (self.get_side_mode(side) == SideMode::ResetPending
            && epoch_snap < u64::MAX && epoch_snap + 1 == epoch_side)
    }

    /// Slot up to which recurring fees can have been charged.
    #[verifier::allow_in_spec]
    pub fn fee_slot_anchor(&self) -> u64
        returns
            (match self.market_mode {
                MarketMode::Live => self.current_slot,
                MarketMode::Resolved => self.resolved_slot,
            }),
    {
        match self.market_mode {
            MarketMode::Live => self.current_slot,
            MarketMode::Resolved => self.resolved_slot,
        }
    }

    /// Accepts a sound account.
    pub open spec fn validate_shape_spec(self, i: int) -> Result<(), RiskError> {
        self.validate_shape_at_spec(i, self.fee_slot_anchor())
    }

    /// Accepts a sound account.
    pub fn validate_touched_account_shape(&self, idx: usize) -> (r: Result<(), RiskError>)
        ensures
            r == self.validate_shape_spec(idx as int),
    {
        self.validate_touched_account_shape_at_fee_slot(idx, self.fee_slot_anchor())
    }

    /// Accepts a sound reserve.
    pub fn validate_reserve_shape(&self, idx: usize) -> (r: Result<(), RiskError>)
        requires
            idx < MAX_ACCOUNTS,
        ensures
            r == if self.accounts@[idx as int].reserve_ok(self.params) {
                Ok::<(), RiskError>(())
            } else {
                Err(RiskError::CorruptState)
            },
    {
        let a = &self.accounts[idx];
        if a.sched_present == 0 {
            if a.sched_remaining_q != 0 || a.sched_anchor_q != 0 || a.sched_start_slot != 0
                || a.sched_horizon != 0 || a.sched_release_q != 0 {
                return Err(RiskError::CorruptState);
            }
        } else {
            if a.sched_horizon == 0 {
                return Err(RiskError::CorruptState);
            }
            if a.sched_horizon < self.params.h_min {
                return Err(RiskError::CorruptState);
            }
            if a.sched_horizon > self.params.h_max {
                return Err(RiskError::CorruptState);
            }
            if a.sched_release_q > a.sched_anchor_q {
                return Err(RiskError::CorruptState);
            }
            let used: u128 = a.sched_remaining_q.checked_add(a.sched_release_q).ok_or(
                RiskError::CorruptState,
            )?;
            if used > a.sched_anchor_q {
                return Err(RiskError::CorruptState);
            }
        }
        if a.sched_present != 0 && a.sched_remaining_q == 0 {
            return Err(RiskError::CorruptState);
        }
        if a.pending_present == 0 {
            if a.pending_remaining_q != 0 || a.pending_horizon != 0 || a.pending_created_slot != 0 {
                return Err(RiskError::CorruptState);
            }
        } else {
            if a.pending_horizon == 0 {
                return Err(RiskError::CorruptState);
            }
            if a.pending_horizon < self.params.h_min {
                return Err(RiskError::CorruptState);
            }
            if a.pending_horizon > self.params.h_max {
                return Err(RiskError::CorruptState);
            }
            if a.pending_remaining_q == 0 {
                return Err(RiskError::CorruptState);
            }
        }
        let total: u128 = a.sched_amount().checked_add(a.pending_amount()).ok_or(
            RiskError::CorruptState,
        )?;
        if total != a.reserved_pnl {
            return Err(RiskError::CorruptState);
        }
        if a.reserved_pnl > i128_clamp_pos(a.pnl) {
            return Err(RiskError::CorruptState);
        }
        Ok(())
    }
}

} // verus!
