//! Insurance, deleveraging of a side, and the reset of a drained side.

use vstd::prelude::*;

use crate::constants::{ADL_ONE, MIN_A_SIDE, PUBLIC_B_CHUNK_ATOMS};
use crate::context::{set_pending_reset, InstructionContext};
use crate::equity::lemma_share_within;
use crate::int128::U128;
use crate::sides::opposite_side;
use crate::types::{InsuranceFund, RiskEngine, RiskError, Side, SideMode};
use crate::wide_math::{min_u128, mul_div_floor_u256_with_rem, wide_mul_div_floor_u128, U256};

verus! {

impl RiskEngine {
    /// What the insurance fund pays of a loss.
    pub open spec fn insurance_pays(self, loss: u128) -> u128 {
        crate::wide_math::min_int(loss as int, self.insurance_fund.balance.get() as int) as u128
    }

    /// The engine after the insurance fund has paid what it can of a loss.
    pub open spec fn with_insurance_used(self, loss: u128) -> RiskEngine {
        RiskEngine {
            insurance_fund: InsuranceFund {
                balance: U128(
                    (self.insurance_fund.balance.get() - self.insurance_pays(loss)) as u128,
                ),
            },
            ..self
        }
    }

    /// Pays a loss out of the insurance fund. Gives what is left of the loss.
    pub fn use_insurance_buffer(&mut self, loss: u128) -> (r: u128)
        ensures
            *final(self) == old(self).with_insurance_used(loss),
            r == loss - old(self).insurance_pays(loss),
    {
        let ins_bal: u128 = self.insurance_fund.balance.get();
        let pay: u128 = min_u128(loss, ins_bal);
        if pay > 0 {
            self.insurance_fund.balance = U128::new(ins_bal - pay);
        }
        loss - pay
    }

    /// The engine with a loss added to the losses that no side carries.
    pub open spec fn with_protocol_loss(self, loss: u128) -> RiskEngine {
        let total = self.explicit_unallocated_protocol_loss.get() + loss;
        if total > u128::MAX {
            RiskEngine {
                explicit_unallocated_protocol_loss: U128(u128::MAX),
                explicit_unallocated_loss_saturated: 1,
                ..self
            }
        } else {
            RiskEngine { explicit_unallocated_protocol_loss: U128(total as u128), ..self }
        }
    }

    /// Records a loss that no side carries. No balance changes.
    pub fn record_uninsured_protocol_loss(&mut self, loss: u128)
        ensures
            *final(self) == old(self).with_protocol_loss(loss),
    {
        match self.explicit_unallocated_protocol_loss.get().checked_add(loss) {
            Some(v) => {
                self.explicit_unallocated_protocol_loss = U128::new(v);
            },
            None => {
                self.explicit_unallocated_protocol_loss = U128::new(u128::MAX);
                self.explicit_unallocated_loss_saturated = 1;
            },
        }
    }

    /// The engine after a loss was paid by insurance and the rest recorded.
    pub open spec fn with_loss_absorbed(self, loss: u128) -> RiskEngine {
        self.with_insurance_used(loss).with_protocol_loss(
            (loss - self.insurance_pays(loss)) as u128,
        )
    }

    /// Pays a loss out of the insurance fund and records the rest.
    pub fn absorb_protocol_loss(&mut self, loss: u128)
        ensures
            *final(self) == old(self).with_loss_absorbed(loss),
    {
        let rem: u128 = self.use_insurance_buffer(loss);
        self.record_uninsured_protocol_loss(rem);
    }

    /// Part of a deficit that falls on open interest that no account holds.
    pub open spec fn phantom_part(d: u128, certified: u128, oi: u128) -> u128 {
        if certified >= oi {
            d
        } else {
            crate::wide_math::min_int(
                crate::wide_math::ceil_div(d * certified, oi as int),
                d as int,
            ) as u128
        }
    }

    /// Routes what insurance did not pay of a deficit: the part of open interest
    /// that no account holds is recorded, the rest is booked on the side if all of
    /// that interest is certified, else recorded.
    #[verifier::opaque]
    pub open spec fn route_deficit(
        self,
        ctx: InstructionContext,
        opp: Side,
        oi: u128,
        q_close_q: u128,
        d: u128,
    ) -> (RiskEngine, InstructionContext, Result<(), RiskError>) {
        let certified = crate::wide_math::min_int(
            self.get_phantom_dust_certified(opp) as int,
            oi as int,
        ) as u128;
        let potential = crate::wide_math::min_int(
            self.get_phantom_dust_potential(opp) as int,
            oi as int,
        );
        let phantom = RiskEngine::phantom_part(d, certified, oi);
        let social = (d - phantom) as u128;
        let e = self.with_protocol_loss(phantom);
        if social == 0 {
            (e, ctx, Ok(()))
        } else if potential > certified {
            (e.with_protocol_loss(social), ctx, Ok(()))
        } else {
            let (e2, c2, r2) = e.book_or_start_spec(
                ctx,
                u16::MAX,
                opp,
                e.last_oracle_price,
                e.current_slot,
                q_close_q,
                social,
                PUBLIC_B_CHUNK_ATOMS,
            );
            match r2 {
                Err(err) => (e2, c2, Err(err)),
                Ok(_) => (e2, c2, Ok(())),
            }
        }
    }

    fn route_remaining_deficit(
        &mut self,
        ctx: &mut InstructionContext,
        opp: Side,
        oi: u128,
        q_close_q: u128,
        d_rem: u128,
    ) -> (r: Result<(), RiskError>)
        requires
            oi > 0,
        ensures
            (*final(self), *final(ctx), r) == old(self).route_deficit(
                *old(ctx),
                opp,
                oi,
                q_close_q,
                d_rem,
            ),
            old(ctx).wf() ==> final(ctx).wf(),
    {
        reveal(RiskEngine::route_deficit);
        let old_certified: u128 = min_u128(self.get_phantom_dust_certified(opp), oi);
        let old_potential: u128 = min_u128(self.get_phantom_dust_potential(opp), oi);
        let d_phantom: u128 = if old_certified >= oi {
            d_rem
        } else {
            proof {
                lemma_share_within(d_rem as int, old_certified as int, oi as int);
                lemma_ceil_within(d_rem as int, old_certified as int, oi as int);
            }
            min_u128(Self::ceil_mul_div_u128_or_wide(d_rem, old_certified, oi)?, d_rem)
        };
        self.record_uninsured_protocol_loss(d_phantom);
        let d_social: u128 = d_rem - d_phantom;
        if d_social != 0 {
            if old_potential > old_certified {
                self.record_uninsured_protocol_loss(d_social);
            } else {
                let close_price: u64 = self.last_oracle_price;
                let close_slot: u64 = self.current_slot;
                let _ = self.book_or_start_active_close_residual_to_side(
                    ctx,
                    u16::MAX,
                    opp,
                    close_price,
                    close_slot,
                    q_close_q,
                    d_social,
                    PUBLIC_B_CHUNK_ATOMS,
                )?;
            }
        }
        Ok(())
    }

    /// The engine with no open interest and no dust on a side.
    pub open spec fn with_side_emptied(self, s: Side) -> RiskEngine {
        self.with_oi_eff(s, 0).with_dust_certified(s, 0).with_dust_potential(s, 0)
    }

    /// Empties a side of open interest and dust.
    fn empty_side(&mut self, s: Side)
        ensures
            *final(self) == old(self).with_side_emptied(s),
    {
        self.set_oi_eff(s, 0);
        self.set_phantom_dust_certified(s, 0);
        self.set_phantom_dust_potential(s, 0);
    }

    /// Multiplier of a side whose open interest shrinks from `oi` to `oi_post`.
    pub open spec fn shrunk_a(self, opp: Side, oi: u128, oi_post: u128) -> u128 {
        (self.get_a_side(opp) * oi_post / (oi as int)) as u128
    }

    /// Upper bound on the interest that no account holds after the multiplier of a
    /// side with open interest `oi` shrank.
    pub open spec fn shrunk_potential(
        self,
        opp: Side,
        oi: u128,
        oi_post: u128,
        a_new: u128,
    ) -> int {
        let potential = crate::wide_math::min_int(
            self.get_phantom_dust_potential(opp) as int,
            oi as int,
        );
        let held = crate::wide_math::min_int(
            oi_post as int,
            (oi - potential) * a_new / (self.get_a_side(opp) as int),
        );
        oi_post - held + self.get_stored_pos_count(opp)
    }

    /// Shrinks the open interest of a side through its multiplier.
    #[verifier::opaque]
    pub open spec fn shrink_side(
        self,
        ctx: InstructionContext,
        liq_side: Side,
        oi: u128,
        q_close_q: u128,
    ) -> (RiskEngine, InstructionContext, Result<(), RiskError>) {
        let opp = opposite_side(liq_side);
        let oi_post = (oi - q_close_q) as u128;
        let both = crate::context::with_pending_reset(
            crate::context::with_pending_reset(ctx, opp),
            liq_side,
        );
        let a_new = self.shrunk_a(opp, oi, oi_post);
        if oi_post == 0 {
            (self.with_side_emptied(opp), both, Ok(()))
        } else if a_new == 0 {
            (self.with_side_emptied(opp).with_side_emptied(liq_side), both, Ok(()))
        } else {
            let e = self.with_a_side(opp, a_new).with_oi_eff(opp, oi_post);
            let potential = self.shrunk_potential(opp, oi, oi_post, a_new);
            if potential > u128::MAX {
                (e, ctx, Err(RiskError::Overflow))
            } else {
                let certified = crate::wide_math::min_int(
                    self.get_phantom_dust_certified(opp) as int,
                    oi as int,
                ) - q_close_q;
                let e2 = e.with_dust_certified(
                    opp,
                    crate::wide_math::min_int(
                        oi_post as int,
                        crate::wide_math::max_int(certified, 0),
                    ) as u128,
                ).with_dust_potential(
                    opp,
                    crate::wide_math::min_int(oi_post as int, potential) as u128,
                );
                if a_new < MIN_A_SIDE {
                    (e2.with_side_mode(opp, SideMode::DrainOnly), ctx, Ok(()))
                } else {
                    (e2, ctx, Ok(()))
                }
            }
        }
    }

    fn shrink_opposing_side(
        &mut self,
        ctx: &mut InstructionContext,
        liq_side: Side,
        oi: u128,
        q_close_q: u128,
    ) -> (r: Result<(), RiskError>)
        requires
            oi > 0,
            q_close_q <= oi,
        ensures
            (*final(self), *final(ctx), r) == old(self).shrink_side(
                *old(ctx),
                liq_side,
                oi,
                q_close_q,
            ),
            old(ctx).wf() ==> final(ctx).wf(),
    {
        reveal(RiskEngine::shrink_side);
        let opp = opposite_side(liq_side);
        let oi_post: u128 = oi - q_close_q;
        let old_certified: u128 = min_u128(self.get_phantom_dust_certified(opp), oi);
        let old_potential: u128 = min_u128(self.get_phantom_dust_potential(opp), oi);
        if oi_post == 0 {
            self.empty_side(opp);
            set_pending_reset(ctx, opp);
            set_pending_reset(ctx, liq_side);
            return Ok(());
        }
        let a_old: u128 = self.get_a_side(opp);
        proof {
            lemma_share_within(a_old as int, oi_post as int, oi as int);
        }
        let (a_candidate, _) = mul_div_floor_u256_with_rem(
            U256::from_u128(a_old),
            U256::from_u128(oi_post),
            U256::from_u128(oi),
        );
        let a_new: u128 = a_candidate.try_into_u128().unwrap();
        if a_new == 0 {
            self.empty_side(opp);
            self.empty_side(liq_side);
            set_pending_reset(ctx, opp);
            set_pending_reset(ctx, liq_side);
            return Ok(());
        }
        let represented_source_lower: u128 = oi - old_potential;
        proof {
            lemma_share_within(represented_source_lower as int, a_new as int, a_old as int);
        }
        let represented_after: u128 = min_u128(
            oi_post,
            wide_mul_div_floor_u128(represented_source_lower, a_new, a_old),
        );
        let account_floor_bound: u128 = self.get_stored_pos_count(opp) as u128;
        self.set_a_side(opp, a_new);
        self.set_oi_eff(opp, oi_post);
        let aggregate_gap: u128 = oi_post - represented_after;
        let bound: u128 = aggregate_gap.checked_add(account_floor_bound).ok_or(
            RiskError::Overflow,
        )?;
        let post_potential: u128 = min_u128(oi_post, bound);
        let post_certified: u128 = min_u128(
            oi_post,
            if old_certified > q_close_q {
                old_certified - q_close_q
            } else {
                0
            },
        );
        self.set_phantom_dust_certified(opp, post_certified);
        self.set_phantom_dust_potential(opp, post_potential);
        if a_new < MIN_A_SIDE {
            self.set_side_mode(opp, SideMode::DrainOnly);
        }
        Ok(())
    }

    /// Takes a closed quantity off both sides, where the opposing side holds open
    /// interest, but no account with it.
    #[verifier::opaque]
    pub open spec fn drain_unheld_side(
        self,
        ctx: InstructionContext,
        liq_side: Side,
        q_close_q: u128,
        d: u128,
    ) -> (RiskEngine, InstructionContext, Result<(), RiskError>) {
        let opp = opposite_side(liq_side);
        let oi = self.get_oi_eff(opp);
        let oi_post = (oi - q_close_q) as u128;
        if q_close_q > oi {
            (self, ctx, Err(RiskError::CorruptState))
        } else {
            let e = self.with_protocol_loss(d).with_oi_eff(opp, oi_post);
            if oi_post == 0 {
                let e2 = e.with_side_emptied(opp);
                let c = crate::context::with_pending_reset(ctx, opp);
                if e2.get_oi_eff(liq_side) == 0 {
                    (e2, crate::context::with_pending_reset(c, liq_side), Ok(()))
                } else {
                    (e2, c, Ok(()))
                }
            } else {
                (e, ctx, Ok(()))
            }
        }
    }

    /// Takes a closed quantity and its deficit off the market, once insurance has
    /// paid.
    pub open spec fn enqueue_adl_insured(
        self,
        ctx: InstructionContext,
        liq_side: Side,
        q_close_q: u128,
        d: u128,
    ) -> (RiskEngine, InstructionContext, Result<(), RiskError>) {
        let opp = opposite_side(liq_side);
        let oi = self.get_oi_eff(opp);
        if oi == 0 {
            let e = self.with_protocol_loss(d);
            if self.get_oi_eff(liq_side) == 0 {
                (
                    e,
                    crate::context::with_pending_reset(
                        crate::context::with_pending_reset(ctx, liq_side),
                        opp,
                    ),
                    Ok(()),
                )
            } else {
                (e, ctx, Ok(()))
            }
        } else if self.get_stored_pos_count(opp) == 0 {
            self.drain_unheld_side(ctx, liq_side, q_close_q, d)
        } else if q_close_q > oi {
            (self, ctx, Err(RiskError::CorruptState))
        } else {
            let (e, c, r) = self.route_deficit(ctx, opp, oi, q_close_q, d);
            match r {
                Err(err) => (e, c, Err(err)),
                Ok(_) => e.shrink_side(c, liq_side, oi, q_close_q),
            }
        }
    }

    /// Closes a quantity of a liquidated side with a deficit.
    #[verifier::opaque]
    pub open spec fn enqueue_adl_spec(
        self,
        ctx: InstructionContext,
        liq_side: Side,
        q_close_q: u128,
        d: u128,
    ) -> (RiskEngine, InstructionContext, Result<(), RiskError>) {
        let old_oi = self.get_oi_eff(liq_side);
        if q_close_q > old_oi {
            (self, ctx, Err(RiskError::CorruptState))
        } else {
            let e = self.with_oi_eff(liq_side, (old_oi - q_close_q) as u128);
            if d == 0 {
                e.enqueue_adl_insured(ctx, liq_side, q_close_q, 0)
            } else {
                let (e2, c2, r2) = e.trigger_bankruptcy_hmax_lock_spec(ctx);
                match r2 {
                    Err(err) => (e2, c2, Err(err)),
                    Ok(_) => e2.with_insurance_used(d).enqueue_adl_insured(
                        c2,
                        liq_side,
                        q_close_q,
                        (d - e2.insurance_pays(d)) as u128,
                    ),
                }
            }
        }
    }

    /// Closes a quantity of a liquidated side. Insurance pays a deficit first, the
    /// rest falls on the opposing side. The opposing side shrinks by the quantity
    /// through its multiplier.
    pub fn enqueue_adl(
        &mut self,
        ctx: &mut InstructionContext,
        liq_side: Side,
        q_close_q: u128,
        d: u128,
    ) -> (r: Result<(), RiskError>)
        ensures
            (*final(self), *final(ctx), r) == old(self).enqueue_adl_spec(
                *old(ctx),
                liq_side,
                q_close_q,
                d,
            ),
            old(ctx).wf() ==> final(ctx).wf(),
    {
        reveal(RiskEngine::enqueue_adl_spec);
        reveal(RiskEngine::drain_unheld_side);
        let opp = opposite_side(liq_side);
        let old_oi: u128 = self.get_oi_eff(liq_side);
        let new_oi: u128 = old_oi.checked_sub(q_close_q).ok_or(RiskError::CorruptState)?;
        self.set_oi_eff(liq_side, new_oi);
        let mut d_rem: u128 = 0;
        if d > 0 {
            self.trigger_bankruptcy_hmax_lock(ctx)?;
            d_rem = self.use_insurance_buffer(d);
        }
        let oi: u128 = self.get_oi_eff(opp);
        if oi == 0 {
            self.record_uninsured_protocol_loss(d_rem);
            if self.get_oi_eff(liq_side) == 0 {
                set_pending_reset(ctx, liq_side);
                set_pending_reset(ctx, opp);
            }
            return Ok(());
        }
        if self.get_stored_pos_count(opp) == 0 {
            if q_close_q > oi {
                return Err(RiskError::CorruptState);
            }
            let oi_post: u128 = oi - q_close_q;
            self.record_uninsured_protocol_loss(d_rem);
            self.set_oi_eff(opp, oi_post);
            if oi_post == 0 {
                self.empty_side(opp);
                set_pending_reset(ctx, opp);
                if self.get_oi_eff(liq_side) == 0 {
                    set_pending_reset(ctx, liq_side);
                }
            }
            return Ok(());
        }
        if q_close_q > oi {
            return Err(RiskError::CorruptState);
        }
        self.route_remaining_deficit(ctx, opp, oi, q_close_q, d_rem)?;
        self.shrink_opposing_side(ctx, liq_side, oi, q_close_q)?;
        Ok(())
    }

    /// The engine with the indices of a side kept as those at the end of an epoch,
    /// and the live ones at zero.
    pub open spec fn with_indices_rolled(self, side: Side) -> RiskEngine {
        match side {
            Side::Long => RiskEngine {
                adl_epoch_start_k_long: self.adl_coeff_long,
                f_epoch_start_long_num: self.f_long_num,
                adl_coeff_long: 0,
                f_long_num: 0,
                ..self
            },
            Side::Short => RiskEngine {
                adl_epoch_start_k_short: self.adl_coeff_short,
                f_epoch_start_short_num: self.f_short_num,
                adl_coeff_short: 0,
                f_short_num: 0,
                ..self
            },
        }
    }

    fn roll_indices(&mut self, side: Side)
        ensures
            *final(self) == old(self).with_indices_rolled(side),
    {
        match side {
            Side::Long => {
                self.adl_epoch_start_k_long = self.adl_coeff_long;
                self.f_epoch_start_long_num = self.f_long_num;
                self.adl_coeff_long = 0;
                self.f_long_num = 0;
            },
            Side::Short => {
                self.adl_epoch_start_k_short = self.adl_coeff_short;
                self.f_epoch_start_short_num = self.f_short_num;
                self.adl_coeff_short = 0;
                self.f_short_num = 0;
            },
        }
    }

    /// The engine with the epoch of a side replaced.
    pub open spec fn with_epoch_side(self, side: Side, v: u64) -> RiskEngine {
        match side {
            Side::Long => RiskEngine { adl_epoch_long: v, ..self },
            Side::Short => RiskEngine { adl_epoch_short: v, ..self },
        }
    }

    /// The engine with a side that waits for its stale positions to leave.
    pub open spec fn with_reset_pending(self, side: Side) -> RiskEngine {
        self.with_a_side(side, ADL_ONE).with_stale_count(
            side,
            self.get_stored_pos_count(side),
        ).with_dust_certified(side, 0).with_dust_potential(side, 0).with_side_mode(
            side,
            SideMode::ResetPending,
        )
    }

    fn await_stale_positions(&mut self, side: Side)
        ensures
            *final(self) == old(self).with_reset_pending(side),
    {
        let spc: u64 = self.get_stored_pos_count(side);
        self.set_a_side(side, ADL_ONE);
        self.set_stale_count(side, spc);
        self.set_phantom_dust_certified(side, 0);
        self.set_phantom_dust_potential(side, 0);
        self.set_side_mode(side, SideMode::ResetPending);
    }

    /// Starts the reset of a drained side.
    #[verifier::opaque]
    pub open spec fn begin_reset_spec(self, side: Side) -> (RiskEngine, Result<(), RiskError>) {
        if self.get_oi_eff(side) != 0 || !self.signed_shape_ok() {
            (self, Err(RiskError::CorruptState))
        } else {
            let e = self.with_indices_rolled(side);
            if self.get_epoch_side(side) == u64::MAX {
                (e, Err(RiskError::Overflow))
            } else {
                (
                    e.with_epoch_side(
                        side,
                        (self.get_epoch_side(side) + 1) as u64,
                    ).with_reset_pending(side),
                    Ok(()),
                )
            }
        }
    }

    /// Starts the reset of a drained side: a new epoch with fresh indices, while the
    /// positions of the old one settle against the indices at its end.
    pub fn begin_full_drain_reset(&mut self, side: Side) -> (r: Result<(), RiskError>)
        ensures
            (*final(self), r) == old(self).begin_reset_spec(side),
    {
        reveal(RiskEngine::begin_reset_spec);
        if self.get_oi_eff(side) != 0 {
            return Err(RiskError::CorruptState);
        }
        self.validate_persistent_global_signed_shape()?;
        self.roll_indices(side);
        match side {
            Side::Long => {
                self.adl_epoch_long = self.adl_epoch_long.checked_add(1).ok_or(
                    RiskError::Overflow,
                )?;
            },
            Side::Short => {
                self.adl_epoch_short = self.adl_epoch_short.checked_add(1).ok_or(
                    RiskError::Overflow,
                )?;
            },
        }
        self.await_stale_positions(side);
        Ok(())
    }

    /// Starts the last reset of a side whose epoch cannot advance.
    #[verifier::opaque]
    pub open spec fn begin_terminal_reset_spec(self, side: Side) -> (RiskEngine, Result<
        (),
        RiskError,
    >) {
        if self.get_oi_eff(side) != 0 || self.get_side_mode(side) == SideMode::ResetPending
            || self.get_epoch_side(side) != u64::MAX || !self.signed_shape_ok() {
            (self, Err(RiskError::CorruptState))
        } else {
            let (e, r) = self.with_indices_kept(side).quarantine_spec(side);
            match r {
                Err(err) => (e, Err(err)),
                Ok(_) => (
                    e.with_b_epoch_start(side, e.get_b_side(side)).with_b_side(
                        side,
                        0,
                    ).with_social_remainder(side, 0).with_loss_weight_sum(
                        side,
                        0,
                    ).with_indices_zeroed(side).with_reset_pending(side),
                    Ok(()),
                ),
            }
        }
    }

    /// The engine with the indices of a side kept as those at the end of an epoch.
    pub open spec fn with_indices_kept(self, side: Side) -> RiskEngine {
        match side {
            Side::Long => RiskEngine {
                adl_epoch_start_k_long: self.adl_coeff_long,
                f_epoch_start_long_num: self.f_long_num,
                ..self
            },
            Side::Short => RiskEngine {
                adl_epoch_start_k_short: self.adl_coeff_short,
                f_epoch_start_short_num: self.f_short_num,
                ..self
            },
        }
    }

    /// The engine with the live indices of a side at zero.
    pub open spec fn with_indices_zeroed(self, side: Side) -> RiskEngine {
        match side {
            Side::Long => RiskEngine { adl_coeff_long: 0, f_long_num: 0, ..self },
            Side::Short => RiskEngine { adl_coeff_short: 0, f_short_num: 0, ..self },
        }
    }

    /// Starts the last reset of a side whose epoch cannot advance: its indices and
    /// its index `B` are kept as those at the end of the epoch, and its weights go.
    pub fn begin_terminal_epoch_exhaustion_reset(&mut self, side: Side) -> (r: Result<
        (),
        RiskError,
    >)
        ensures
            (*final(self), r) == old(self).begin_terminal_reset_spec(side),
    {
        reveal(RiskEngine::begin_terminal_reset_spec);
        if self.get_oi_eff(side) != 0 {
            return Err(RiskError::CorruptState);
        }
        if self.get_side_mode(side) == SideMode::ResetPending {
            return Err(RiskError::CorruptState);
        }
        if self.get_epoch_side(side) != u64::MAX {
            return Err(RiskError::CorruptState);
        }
        self.validate_persistent_global_signed_shape()?;
        match side {
            Side::Long => {
                self.adl_epoch_start_k_long = self.adl_coeff_long;
                self.f_epoch_start_long_num = self.f_long_num;
            },
            Side::Short => {
                self.adl_epoch_start_k_short = self.adl_coeff_short;
                self.f_epoch_start_short_num = self.f_short_num;
            },
        }
        self.quarantine_social_remainder_before_weight_change(side)?;
        let b: u128 = self.get_b_side(side);
        self.set_b_epoch_start(side, b);
        self.set_b_side(side, 0);
        self.set_social_remainder(side, 0);
        self.set_loss_weight_sum(side, 0);
        match side {
            Side::Long => {
                self.adl_coeff_long = 0;
                self.f_long_num = 0;
            },
            Side::Short => {
                self.adl_coeff_short = 0;
                self.f_short_num = 0;
            },
        }
        self.await_stale_positions(side);
        Ok(())
    }

    /// Whether a side that was reset holds nothing any more.
    #[verifier::allow_in_spec]
    pub fn reset_is_ready(&self, side: Side) -> bool
        returns
            self.get_side_mode(side) == SideMode::ResetPending && self.get_oi_eff(side) == 0
                && self.get_stale_count(side) == 0 && self.get_stored_pos_count(side) == 0,
    {
        self.get_side_mode(side) == SideMode::ResetPending && self.get_oi_eff(side) == 0
            && self.get_stale_count(side) == 0 && self.get_stored_pos_count(side) == 0
    }

    /// Ends the reset of a side that holds nothing any more.
    pub fn finalize_side_reset(&mut self, side: Side) -> (r: Result<(), RiskError>)
        ensures
            (*final(self), r) == if old(self).reset_is_ready(side) {
                (
                    old(self).with_side_mode(side, SideMode::Normal),
                    Ok::<(), RiskError>(()),
                )
            } else {
                (*old(self), Err(RiskError::CorruptState))
            },
    {
        if !self.reset_is_ready(side) {
            return Err(RiskError::CorruptState);
        }
        self.set_side_mode(side, SideMode::Normal);
        Ok(())
    }

    /// Whether a side without a stored position still holds interest or dust.
    pub open spec fn has_residual(self) -> bool {
        let none_long = self.stored_pos_count_long == 0;
        let none_short = self.stored_pos_count_short == 0;
        &&& none_long || none_short
        &&& self.oi_eff_long_q != 0 || self.oi_eff_short_q != 0 || (none_long
            && self.phantom_dust_potential_long_q != 0) || (none_short
            && self.phantom_dust_potential_short_q != 0)
    }

    /// Interest that can be dropped with the last stored position of a side.
    pub open spec fn clearable_dust(self) -> int {
        (if self.stored_pos_count_long == 0 {
            self.phantom_dust_potential_long_q as int
        } else {
            0
        }) + (if self.stored_pos_count_short == 0 {
            self.phantom_dust_potential_short_q as int
        } else {
            0
        })
    }

    /// Drops the interest that no account holds, and schedules resets.
    #[verifier::opaque]
    pub open spec fn schedule_resets_spec(self, ctx: InstructionContext) -> (
        RiskEngine,
        InstructionContext,
        Result<(), RiskError>,
    ) {
        if self.clearable_dust() > u128::MAX || (self.has_residual() && (self.oi_eff_long_q
            != self.oi_eff_short_q || self.oi_eff_long_q > self.clearable_dust())) {
            (self, ctx, Err(RiskError::CorruptState))
        } else {
            let e = if self.has_residual() {
                RiskEngine { oi_eff_long_q: 0, oi_eff_short_q: 0, ..self }
            } else {
                self
            };
            (
                e,
                InstructionContext {
                    pending_reset_long: ctx.pending_reset_long || self.has_residual() || (
                    e.side_mode_long == SideMode::DrainOnly && e.oi_eff_long_q == 0),
                    pending_reset_short: ctx.pending_reset_short || self.has_residual() || (
                    e.side_mode_short == SideMode::DrainOnly && e.oi_eff_short_q == 0),
                    ..ctx
                },
                Ok(()),
            )
        }
    }

    fn drop_residual_interest(&mut self, ctx: &mut InstructionContext)
        ensures
            *final(self) == (RiskEngine { oi_eff_long_q: 0, oi_eff_short_q: 0, ..*old(self) }),
            *final(ctx) == (InstructionContext {
                pending_reset_long: true,
                pending_reset_short: true,
                ..*old(ctx)
            }),
    {
        self.oi_eff_long_q = 0;
        self.oi_eff_short_q = 0;
        ctx.pending_reset_long = true;
        ctx.pending_reset_short = true;
    }

    /// Drops the open interest that no account holds once a side has no stored
    /// position, and schedules the resets of both sides and of drained sides.
    pub fn schedule_end_of_instruction_resets(&mut self, ctx: &mut InstructionContext) -> (r:
        Result<(), RiskError>)
        ensures
            (*final(self), *final(ctx), r) == old(self).schedule_resets_spec(*old(ctx)),
            old(ctx).wf() ==> final(ctx).wf(),
    {
        reveal(RiskEngine::schedule_resets_spec);
        let none_long: bool = self.stored_pos_count_long == 0;
        let none_short: bool = self.stored_pos_count_short == 0;
        let dust_long: u128 = if none_long {
            self.phantom_dust_potential_long_q
        } else {
            0
        };
        let dust_short: u128 = if none_short {
            self.phantom_dust_potential_short_q
        } else {
            0
        };
        let clear_bound_q: u128 = dust_long.checked_add(dust_short).ok_or(
            RiskError::CorruptState,
        )?;
        let has_residual: bool = (none_long || none_short) && (self.oi_eff_long_q != 0
            || self.oi_eff_short_q != 0 || dust_long != 0 || dust_short != 0);
        assert(has_residual == self.has_residual());
        assert(clear_bound_q == self.clearable_dust());
        if has_residual {
            if self.oi_eff_long_q != self.oi_eff_short_q {
                return Err(RiskError::CorruptState);
            }
            if self.oi_eff_long_q > clear_bound_q {
                return Err(RiskError::CorruptState);
            }
            self.drop_residual_interest(ctx);
        }
        if self.side_mode_long == SideMode::DrainOnly && self.oi_eff_long_q == 0 {
            ctx.pending_reset_long = true;
        }
        if self.side_mode_short == SideMode::DrainOnly && self.oi_eff_short_q == 0 {
            ctx.pending_reset_short = true;
        }
        Ok(())
    }

    /// The engine with a side back to normal if its reset is ready.
    pub open spec fn with_ready_side(self, side: Side) -> RiskEngine {
        if self.reset_is_ready(side) {
            self.with_side_mode(side, SideMode::Normal)
        } else {
            self
        }
    }

    /// The engine with each side back to normal if its reset is ready.
    pub open spec fn with_ready_sides(self) -> RiskEngine {
        self.with_ready_side(Side::Long).with_ready_side(Side::Short)
    }

    /// Ends the reset of each side that holds nothing any more.
    pub fn maybe_finalize_ready_reset_sides(&mut self)
        ensures
            *final(self) == old(self).with_ready_sides(),
    {
        if self.reset_is_ready(Side::Long) {
            self.set_side_mode(Side::Long, SideMode::Normal);
        }
        if self.reset_is_ready(Side::Short) {
            self.set_side_mode(Side::Short, SideMode::Normal);
        }
    }

    /// Starts the reset of a side, if it is due.
    pub open spec fn reset_if_due(self, side: Side, due: bool) -> (RiskEngine, Result<
        (),
        RiskError,
    >) {
        if due && self.get_side_mode(side) != SideMode::ResetPending {
            self.begin_reset_spec(side)
        } else {
            (self, Ok(()))
        }
    }

    /// Starts the scheduled resets and ends the ready ones.
    #[verifier::opaque]
    pub open spec fn finalize_resets_spec(self, ctx: InstructionContext) -> (RiskEngine, Result<
        (),
        RiskError,
    >) {
        let (e, r) = self.reset_if_due(Side::Long, ctx.pending_reset_long);
        match r {
            Err(err) => (e, Err(err)),
            Ok(_) => {
                let (e2, r2) = e.reset_if_due(Side::Short, ctx.pending_reset_short);
                match r2 {
                    Err(err) => (e2, Err(err)),
                    Ok(_) => (e2.with_ready_sides(), Ok(())),
                }
            },
        }
    }

    /// Starts the scheduled resets and ends the ready ones.
    pub fn finalize_end_of_instruction_resets(&mut self, ctx: &InstructionContext) -> (r: Result<
        (),
        RiskError,
    >)
        ensures
            (*final(self), r) == old(self).finalize_resets_spec(*ctx),
    {
        reveal(RiskEngine::finalize_resets_spec);
        if ctx.pending_reset_long && self.side_mode_long != SideMode::ResetPending {
            self.begin_full_drain_reset(Side::Long)?;
        }
        if ctx.pending_reset_short && self.side_mode_short != SideMode::ResetPending {
            self.begin_full_drain_reset(Side::Short)?;
        }
        self.maybe_finalize_ready_reset_sides();
        Ok(())
    }

    /// Schedules the resets at the end of an instruction and carries them out.
    pub open spec fn end_resets_spec(self, ctx: InstructionContext) -> (
        RiskEngine,
        InstructionContext,
        Result<(), RiskError>,
    ) {
        let (e, c, r) = self.schedule_resets_spec(ctx);
        match r {
            Err(err) => (e, c, Err(err)),
            Ok(_) => {
                let (e2, r2) = e.finalize_resets_spec(c);
                (e2, c, r2)
            },
        }
    }

    /// Schedules the resets at the end of an instruction and carries them out.
    pub fn run_end_of_instruction_resets(&mut self, ctx: &mut InstructionContext) -> (r: Result<
        (),
        RiskError,
    >)
        ensures
            (*final(self), *final(ctx), r) == old(self).end_resets_spec(*old(ctx)),
            old(ctx).wf() ==> final(ctx).wf(),
    {
        self.schedule_end_of_instruction_resets(ctx)?;
        self.finalize_end_of_instruction_resets(ctx)
    }
}

proof fn lemma_ceil_within(a: int, num: int, den: int)
    requires
        0 <= a,
        0 <= num <= den,
        0 < den,
    ensures
        crate::wide_math::ceil_div(a * num, den) <= a,
{
    lemma_share_within(a, num, den);
    let p = a * num;
    if p % den != 0 && p / den == a {
        vstd::arithmetic::div_mod::lemma_fundamental_div_mod(p, den);
        assert(p <= a * den) by (nonlinear_arith)
            requires
                p == a * num,
                0 <= a,
                num <= den,
        ;
        assert(a * den == den * a) by (nonlinear_arith);
        assert(false);
    }
}

} // verus!
