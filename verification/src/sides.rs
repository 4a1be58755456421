//! Access to the state of one side, and to one account.

use vstd::prelude::*;

use crate::constants::MAX_ACCOUNTS;
use crate::types::{Account, RiskEngine, RiskError, Side, SideMode};

verus! {

/// Side of a signed position.
#[verifier::allow_in_spec]
pub fn side_of_i128(v: i128) -> Option<Side>
    returns
        (if v == 0 {
            None
        } else if v > 0 {
            Some(Side::Long)
        } else {
            Some(Side::Short)
        }),
{
    if v == 0 {
        None
    } else if v > 0 {
        Some(Side::Long)
    } else {
        Some(Side::Short)
    }
}

/// The other side.
#[verifier::allow_in_spec]
pub fn opposite_side(s: Side) -> Side
    returns
        (match s {
            Side::Long => Side::Short,
            Side::Short => Side::Long,
        }),
{
    match s {
        Side::Long => Side::Short,
        Side::Short => Side::Long,
    }
}

/// The positive part of a signed integer.
#[verifier::allow_in_spec]
pub fn i128_clamp_pos(v: i128) -> u128
    returns
        (if v > 0 {
            v as u128
        } else {
            0u128
        }),
{
    if v > 0 {
        v as u128
    } else {
        0u128
    }
}

/// Side of a nonzero position.
pub open spec fn some_side(v: i128) -> Side {
    if v > 0 {
        Side::Long
    } else {
        Side::Short
    }
}

impl RiskEngine {
    /// The engine with account `i` replaced.
    pub open spec fn with_account(self, i: int, a: Account) -> RiskEngine {
        RiskEngine { accounts: vstd::array::spec_array_update(self.accounts, i, a), ..self }
    }

    /// Replacing an account changes that account and nothing else.
    pub proof fn lemma_with_account(self, i: int, a: Account)
        requires
            0 <= i < MAX_ACCOUNTS,
        ensures
            self.with_account(i, a).accounts@ == self.accounts@.update(i, a),
    {
    }

    /// Multiplier `A` of a side.
    #[verifier::allow_in_spec]
    pub fn get_a_side(&self, s: Side) -> u128
        returns
            (match s {
                Side::Long => self.adl_mult_long,
                Side::Short => self.adl_mult_short,
            }),
    {
        match s {
            Side::Long => self.adl_mult_long,
            Side::Short => self.adl_mult_short,
        }
    }

    /// Coefficient `K` of a side.
    #[verifier::allow_in_spec]
    pub fn get_k_side(&self, s: Side) -> i128
        returns
            (match s {
                Side::Long => self.adl_coeff_long,
                Side::Short => self.adl_coeff_short,
            }),
    {
        match s {
            Side::Long => self.adl_coeff_long,
            Side::Short => self.adl_coeff_short,
        }
    }

    /// Epoch of a side.
    #[verifier::allow_in_spec]
    pub fn get_epoch_side(&self, s: Side) -> u64
        returns
            (match s {
                Side::Long => self.adl_epoch_long,
                Side::Short => self.adl_epoch_short,
            }),
    {
        match s {
            Side::Long => self.adl_epoch_long,
            Side::Short => self.adl_epoch_short,
        }
    }

    /// Coefficient `K` at the start of a side's epoch.
    #[verifier::allow_in_spec]
    pub fn get_k_epoch_start(&self, s: Side) -> i128
        returns
            (match s {
                Side::Long => self.adl_epoch_start_k_long,
                Side::Short => self.adl_epoch_start_k_short,
            }),
    {
        match s {
            Side::Long => self.adl_epoch_start_k_long,
            Side::Short => self.adl_epoch_start_k_short,
        }
    }

    /// Funding index `F` of a side.
    #[verifier::allow_in_spec]
    pub fn get_f_side(&self, s: Side) -> i128
        returns
            (match s {
                Side::Long => self.f_long_num,
                Side::Short => self.f_short_num,
            }),
    {
        match s {
            Side::Long => self.f_long_num,
            Side::Short => self.f_short_num,
        }
    }

    /// Funding index `F` at the start of a side's epoch.
    #[verifier::allow_in_spec]
    pub fn get_f_epoch_start(&self, s: Side) -> i128
        returns
            (match s {
                Side::Long => self.f_epoch_start_long_num,
                Side::Short => self.f_epoch_start_short_num,
            }),
    {
        match s {
            Side::Long => self.f_epoch_start_long_num,
            Side::Short => self.f_epoch_start_short_num,
        }
    }

    /// Mode of a side.
    #[verifier::allow_in_spec]
    pub fn get_side_mode(&self, s: Side) -> SideMode
        returns
            (match s {
                Side::Long => self.side_mode_long,
                Side::Short => self.side_mode_short,
            }),
    {
        match s {
            Side::Long => self.side_mode_long,
            Side::Short => self.side_mode_short,
        }
    }

    /// Open interest of a side.
    #[verifier::allow_in_spec]
    pub fn get_oi_eff(&self, s: Side) -> u128
        returns
            (match s {
                Side::Long => self.oi_eff_long_q,
                Side::Short => self.oi_eff_short_q,
            }),
    {
        match s {
            Side::Long => self.oi_eff_long_q,
            Side::Short => self.oi_eff_short_q,
        }
    }

    /// Accounts of a side that still belong to its last epoch.
    #[verifier::allow_in_spec]
    pub fn get_stale_count(&self, s: Side) -> u64
        returns
            (match s {
                Side::Long => self.stale_account_count_long,
                Side::Short => self.stale_account_count_short,
            }),
    {
        match s {
            Side::Long => self.stale_account_count_long,
            Side::Short => self.stale_account_count_short,
        }
    }

    /// Accounts of a side with a stored position.
    #[verifier::allow_in_spec]
    pub fn get_stored_pos_count(&self, s: Side) -> u64
        returns
            (match s {
                Side::Long => self.stored_pos_count_long,
                Side::Short => self.stored_pos_count_short,
            }),
    {
        match s {
            Side::Long => self.stored_pos_count_long,
            Side::Short => self.stored_pos_count_short,
        }
    }

    /// Certified dust of a side.
    #[verifier::allow_in_spec]
    pub fn get_phantom_dust_certified(&self, s: Side) -> u128
        returns
            (match s {
                Side::Long => self.phantom_dust_certified_long_q,
                Side::Short => self.phantom_dust_certified_short_q,
            }),
    {
        match s {
            Side::Long => self.phantom_dust_certified_long_q,
            Side::Short => self.phantom_dust_certified_short_q,
        }
    }

    /// Potential dust of a side.
    #[verifier::allow_in_spec]
    pub fn get_phantom_dust_potential(&self, s: Side) -> u128
        returns
            (match s {
                Side::Long => self.phantom_dust_potential_long_q,
                Side::Short => self.phantom_dust_potential_short_q,
            }),
    {
        match s {
            Side::Long => self.phantom_dust_potential_long_q,
            Side::Short => self.phantom_dust_potential_short_q,
        }
    }

    /// Index `B` of a side.
    #[verifier::allow_in_spec]
    pub fn get_b_side(&self, s: Side) -> u128
        returns
            (match s {
                Side::Long => self.b_long_num,
                Side::Short => self.b_short_num,
            }),
    {
        match s {
            Side::Long => self.b_long_num,
            Side::Short => self.b_short_num,
        }
    }

    /// Index `B` at the start of a side's epoch.
    #[verifier::allow_in_spec]
    pub fn get_b_epoch_start(&self, s: Side) -> u128
        returns
            (match s {
                Side::Long => self.b_epoch_start_long_num,
                Side::Short => self.b_epoch_start_short_num,
            }),
    {
        match s {
            Side::Long => self.b_epoch_start_long_num,
            Side::Short => self.b_epoch_start_short_num,
        }
    }

    /// Sum of the loss weights of a side.
    #[verifier::allow_in_spec]
    pub fn get_loss_weight_sum(&self, s: Side) -> u128
        returns
            (match s {
                Side::Long => self.loss_weight_sum_long,
                Side::Short => self.loss_weight_sum_short,
            }),
    {
        match s {
            Side::Long => self.loss_weight_sum_long,
            Side::Short => self.loss_weight_sum_short,
        }
    }

    /// Remainder that a side's bookings carry.
    #[verifier::allow_in_spec]
    pub fn get_social_remainder(&self, s: Side) -> u128
        returns
            (match s {
                Side::Long => self.social_loss_remainder_long_num,
                Side::Short => self.social_loss_remainder_short_num,
            }),
    {
        match s {
            Side::Long => self.social_loss_remainder_long_num,
            Side::Short => self.social_loss_remainder_short_num,
        }
    }

    /// Dust that a side's bookings have set aside.
    #[verifier::allow_in_spec]
    pub fn get_social_dust(&self, s: Side) -> u128
        returns
            (match s {
                Side::Long => self.social_loss_dust_long_num,
                Side::Short => self.social_loss_dust_short_num,
            }),
    {
        match s {
            Side::Long => self.social_loss_dust_long_num,
            Side::Short => self.social_loss_dust_short_num,
        }
    }

    /// The engine with the open interest of a side replaced.
    pub open spec fn with_oi_eff(self, s: Side, v: u128) -> RiskEngine {
        match s {
            Side::Long => RiskEngine { oi_eff_long_q: v, ..self },
            Side::Short => RiskEngine { oi_eff_short_q: v, ..self },
        }
    }

    /// Sets the open interest of a side.
    pub fn set_oi_eff(&mut self, s: Side, v: u128)
        ensures
            *final(self) == old(self).with_oi_eff(s, v),
    {
        match s {
            Side::Long => {
                self.oi_eff_long_q = v;
            },
            Side::Short => {
                self.oi_eff_short_q = v;
            },
        }
    }

    /// The engine with the mode of a side replaced.
    pub open spec fn with_side_mode(self, s: Side, m: SideMode) -> RiskEngine {
        match s {
            Side::Long => RiskEngine { side_mode_long: m, ..self },
            Side::Short => RiskEngine { side_mode_short: m, ..self },
        }
    }

    /// Sets the mode of a side.
    pub fn set_side_mode(&mut self, s: Side, m: SideMode)
        ensures
            *final(self) == old(self).with_side_mode(s, m),
    {
        match s {
            Side::Long => {
                self.side_mode_long = m;
            },
            Side::Short => {
                self.side_mode_short = m;
            },
        }
    }

    /// The engine with the multiplier of a side replaced.
    pub open spec fn with_a_side(self, s: Side, v: u128) -> RiskEngine {
        match s {
            Side::Long => RiskEngine { adl_mult_long: v, ..self },
            Side::Short => RiskEngine { adl_mult_short: v, ..self },
        }
    }

    /// Sets the multiplier of a side.
    pub fn set_a_side(&mut self, s: Side, v: u128)
        ensures
            *final(self) == old(self).with_a_side(s, v),
    {
        match s {
            Side::Long => {
                self.adl_mult_long = v;
            },
            Side::Short => {
                self.adl_mult_short = v;
            },
        }
    }

    /// The engine with the coefficient of a side replaced.
    pub open spec fn with_k_side(self, s: Side, v: i128) -> RiskEngine {
        match s {
            Side::Long => RiskEngine { adl_coeff_long: v, ..self },
            Side::Short => RiskEngine { adl_coeff_short: v, ..self },
        }
    }

    /// Sets the coefficient of a side, which is never the smallest integer.
    pub fn set_k_side(&mut self, s: Side, v: i128) -> (r: Result<(), RiskError>)
        ensures
            (*final(self), r) == if v == i128::MIN {
                (*old(self), Err::<(), RiskError>(RiskError::Overflow))
            } else {
                (old(self).with_k_side(s, v), Ok(()))
            },
    {
        if v == i128::MIN {
            return Err(RiskError::Overflow);
        }
        match s {
            Side::Long => {
                self.adl_coeff_long = v;
            },
            Side::Short => {
                self.adl_coeff_short = v;
            },
        }
        Ok(())
    }

    /// The engine with the stale count of a side replaced.
    pub open spec fn with_stale_count(self, s: Side, v: u64) -> RiskEngine {
        match s {
            Side::Long => RiskEngine { stale_account_count_long: v, ..self },
            Side::Short => RiskEngine { stale_account_count_short: v, ..self },
        }
    }

    /// Sets the stale count of a side.
    pub fn set_stale_count(&mut self, s: Side, v: u64)
        ensures
            *final(self) == old(self).with_stale_count(s, v),
    {
        match s {
            Side::Long => {
                self.stale_account_count_long = v;
            },
            Side::Short => {
                self.stale_account_count_short = v;
            },
        }
    }

    /// The engine with the certified dust of a side replaced.
    pub open spec fn with_dust_certified(self, s: Side, v: u128) -> RiskEngine {
        match s {
            Side::Long => RiskEngine { phantom_dust_certified_long_q: v, ..self },
            Side::Short => RiskEngine { phantom_dust_certified_short_q: v, ..self },
        }
    }

    /// Sets the certified dust of a side.
    pub fn set_phantom_dust_certified(&mut self, s: Side, v: u128)
        ensures
            *final(self) == old(self).with_dust_certified(s, v),
    {
        match s {
            Side::Long => {
                self.phantom_dust_certified_long_q = v;
            },
            Side::Short => {
                self.phantom_dust_certified_short_q = v;
            },
        }
    }

    /// The engine with the potential dust of a side replaced.
    pub open spec fn with_dust_potential(self, s: Side, v: u128) -> RiskEngine {
        match s {
            Side::Long => RiskEngine { phantom_dust_potential_long_q: v, ..self },
            Side::Short => RiskEngine { phantom_dust_potential_short_q: v, ..self },
        }
    }

    /// Sets the potential dust of a side.
    pub fn set_phantom_dust_potential(&mut self, s: Side, v: u128)
        ensures
            *final(self) == old(self).with_dust_potential(s, v),
    {
        match s {
            Side::Long => {
                self.phantom_dust_potential_long_q = v;
            },
            Side::Short => {
                self.phantom_dust_potential_short_q = v;
            },
        }
    }

    /// One more unit of potential dust on a side.
    pub open spec fn inc_phantom_dust_potential_spec(self, s: Side) -> (RiskEngine, Result<
        (),
        RiskError,
    >) {
        match self.get_phantom_dust_potential(s).checked_add(1) {
            None => (self, Err(RiskError::Overflow)),
            Some(v) => (self.with_dust_potential(s, v), Ok(())),
        }
    }

    /// Adds one unit to the potential dust of a side.
    pub fn inc_phantom_dust_potential(&mut self, s: Side) -> (r: Result<(), RiskError>)
        ensures
            (*final(self), r) == old(self).inc_phantom_dust_potential_spec(s),
    {
        let v: u128 = self.get_phantom_dust_potential(s).checked_add(1).ok_or(RiskError::Overflow)?;
        self.set_phantom_dust_potential(s, v);
        Ok(())
    }

    /// The engine with the index `B` of a side replaced.
    pub open spec fn with_b_side(self, s: Side, v: u128) -> RiskEngine {
        match s {
            Side::Long => RiskEngine { b_long_num: v, ..self },
            Side::Short => RiskEngine { b_short_num: v, ..self },
        }
    }

    /// Sets the index `B` of a side.
    pub fn set_b_side(&mut self, s: Side, v: u128)
        ensures
            *final(self) == old(self).with_b_side(s, v),
    {
        match s {
            Side::Long => {
                self.b_long_num = v;
            },
            Side::Short => {
                self.b_short_num = v;
            },
        }
    }

    /// The engine with the index `B` at the start of a side's epoch replaced.
    pub open spec fn with_b_epoch_start(self, s: Side, v: u128) -> RiskEngine {
        match s {
            Side::Long => RiskEngine { b_epoch_start_long_num: v, ..self },
            Side::Short => RiskEngine { b_epoch_start_short_num: v, ..self },
        }
    }

    /// Sets the index `B` at the start of a side's epoch.
    pub fn set_b_epoch_start(&mut self, s: Side, v: u128)
        ensures
            *final(self) == old(self).with_b_epoch_start(s, v),
    {
        match s {
            Side::Long => {
                self.b_epoch_start_long_num = v;
            },
            Side::Short => {
                self.b_epoch_start_short_num = v;
            },
        }
    }

    /// The engine with the weight sum of a side replaced.
    pub open spec fn with_loss_weight_sum(self, s: Side, v: u128) -> RiskEngine {
        match s {
            Side::Long => RiskEngine { loss_weight_sum_long: v, ..self },
            Side::Short => RiskEngine { loss_weight_sum_short: v, ..self },
        }
    }

    /// Sets the weight sum of a side.
    pub fn set_loss_weight_sum(&mut self, s: Side, v: u128)
        ensures
            *final(self) == old(self).with_loss_weight_sum(s, v),
    {
        match s {
            Side::Long => {
                self.loss_weight_sum_long = v;
            },
            Side::Short => {
                self.loss_weight_sum_short = v;
            },
        }
    }

    /// The engine with the booking remainder of a side replaced.
    pub open spec fn with_social_remainder(self, s: Side, v: u128) -> RiskEngine {
        match s {
            Side::Long => RiskEngine { social_loss_remainder_long_num: v, ..self },
            Side::Short => RiskEngine { social_loss_remainder_short_num: v, ..self },
        }
    }

    /// Sets the booking remainder of a side.
    pub fn set_social_remainder(&mut self, s: Side, v: u128)
        ensures
            *final(self) == old(self).with_social_remainder(s, v),
    {
        match s {
            Side::Long => {
                self.social_loss_remainder_long_num = v;
            },
            Side::Short => {
                self.social_loss_remainder_short_num = v;
            },
        }
    }

    /// The engine with the booking dust of a side replaced.
    pub open spec fn with_social_dust(self, s: Side, v: u128) -> RiskEngine {
        match s {
            Side::Long => RiskEngine { social_loss_dust_long_num: v, ..self },
            Side::Short => RiskEngine { social_loss_dust_short_num: v, ..self },
        }
    }

    /// Sets the booking dust of a side.
    pub fn set_social_dust(&mut self, s: Side, v: u128)
        ensures
            *final(self) == old(self).with_social_dust(s, v),
    {
        match s {
            Side::Long => {
                self.social_loss_dust_long_num = v;
            },
            Side::Short => {
                self.social_loss_dust_short_num = v;
            },
        }
    }
}

} // verus!
