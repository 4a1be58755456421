//! Losses that no account can pay: the side index `B`, the buckets of unallocated
//! loss, and the bankrupt close that books a residual step by step.

use vstd::prelude::*;

use crate::constants::{
    ACTIVE_CLOSE_MAX_RESIDUAL_B_CHUNKS, ACTIVE_CLOSE_PHASE_NONE, ACTIVE_CLOSE_PHASE_RESIDUAL_B,
    ACTIVE_CLOSE_SIDE_LONG, ACTIVE_CLOSE_SIDE_NONE, ACTIVE_CLOSE_SIDE_SHORT, MAX_ACCOUNTS,
    MAX_ORACLE_PRICE, PUBLIC_ACCOUNT_B_SETTLEMENT_LOSS_ATOMS, PUBLIC_B_CHUNK_ATOMS,
    SOCIAL_LOSS_DEN,
};
use crate::context::InstructionContext;
use crate::int128::U128;
use crate::sides::side_of_i128;
use crate::types::{
    Account, BResidualChunkPlan, MarketMode, RiskEngine, RiskError, Side, SideMode,
};
use crate::wide_math::{div_rem_u256, max_u128, min_u128, widening_mul, U256};

verus! {

impl RiskEngine {
    /// Refuses while a bankrupt close is in flight.
    pub fn ensure_no_active_bankrupt_close(&self) -> (r: Result<(), RiskError>)
        ensures
            r == if self.active_close_present != 0 {
                Err::<(), RiskError>(RiskError::RecoveryRequired)
            } else {
                Ok(())
            },
    {
        if self.active_close_present != 0 {
            return Err(RiskError::RecoveryRequired);
        }
        Ok(())
    }

    /// The stored form of a side.
    #[verifier::allow_in_spec]
    pub fn encode_active_close_side(side: Side) -> u8
        returns
            match side {
                Side::Long => ACTIVE_CLOSE_SIDE_LONG,
                Side::Short => ACTIVE_CLOSE_SIDE_SHORT,
            },
    {
        match side {
            Side::Long => ACTIVE_CLOSE_SIDE_LONG,
            Side::Short => ACTIVE_CLOSE_SIDE_SHORT,
        }
    }

    /// The side that a stored form stands for.
    #[verifier::allow_in_spec]
    pub fn decode_active_close_side(encoded: u8) -> Result<Side, RiskError>
        returns
            if encoded == ACTIVE_CLOSE_SIDE_LONG {
                Ok::<Side, RiskError>(Side::Long)
            } else if encoded == ACTIVE_CLOSE_SIDE_SHORT {
                Ok(Side::Short)
            } else {
                Err(RiskError::CorruptState)
            },
    {
        if encoded == ACTIVE_CLOSE_SIDE_LONG {
            Ok(Side::Long)
        } else if encoded == ACTIVE_CLOSE_SIDE_SHORT {
            Ok(Side::Short)
        } else {
            Err(RiskError::CorruptState)
        }
    }

    /// The engine with no bankrupt close in flight.
    pub open spec fn without_active_close(self) -> RiskEngine {
        RiskEngine {
            active_close_present: 0,
            active_close_phase: ACTIVE_CLOSE_PHASE_NONE,
            active_close_account_idx: u16::MAX,
            active_close_opp_side: ACTIVE_CLOSE_SIDE_NONE,
            active_close_close_price: 0,
            active_close_close_slot: 0,
            active_close_q_close_q: 0,
            active_close_residual_remaining: 0,
            active_close_residual_booked: 0,
            active_close_residual_recorded: 0,
            active_close_b_chunks_booked: 0,
            ..self
        }
    }

    /// Ends the bankrupt close in flight.
    pub fn clear_active_bankrupt_close_state(&mut self)
        ensures
            *final(self) == old(self).without_active_close(),
    {
        self.active_close_present = 0;
        self.active_close_phase = ACTIVE_CLOSE_PHASE_NONE;
        self.active_close_account_idx = u16::MAX;
        self.active_close_opp_side = ACTIVE_CLOSE_SIDE_NONE;
        self.active_close_close_price = 0;
        self.active_close_close_slot = 0;
        self.active_close_q_close_q = 0;
        self.active_close_residual_remaining = 0;
        self.active_close_residual_booked = 0;
        self.active_close_residual_recorded = 0;
        self.active_close_b_chunks_booked = 0;
    }

    /// Whether the fields of the bankrupt close hold none, or a sound one.
    pub open spec fn active_close_ok(self) -> bool {
        if self.active_close_present == 0 {
            self == self.without_active_close()
        } else {
            &&& self.active_close_present == 1
            &&& self.market_mode == MarketMode::Live
            &&& self.bankruptcy_hmax_lock_active
            &&& self.active_close_phase == ACTIVE_CLOSE_PHASE_RESIDUAL_B
            &&& self.active_close_account_idx == u16::MAX || self.active_close_account_idx
                < self.params.max_accounts
            &&& 0 < self.active_close_close_price <= MAX_ORACLE_PRICE
            &&& self.active_close_close_slot <= self.current_slot
            &&& self.active_close_residual_remaining != 0
            &&& self.active_close_b_chunks_booked <= ACTIVE_CLOSE_MAX_RESIDUAL_B_CHUNKS
            &&& RiskEngine::decode_active_close_side(self.active_close_opp_side) is Ok
            &&& self.active_close_residual_booked + self.active_close_residual_recorded
                <= u128::MAX
        }
    }

    /// Accepts no bankrupt close, or a sound one.
    pub fn validate_active_bankrupt_close_shape(&self) -> (r: Result<(), RiskError>)
        ensures
            r == if self.active_close_ok() {
                Ok::<(), RiskError>(())
            } else {
                Err(RiskError::CorruptState)
            },
    {
        if self.active_close_present > 1 {
            return Err(RiskError::CorruptState);
        }
        if self.active_close_present == 0 {
            if self.active_close_phase != ACTIVE_CLOSE_PHASE_NONE || self.active_close_account_idx
                != u16::MAX || self.active_close_opp_side != ACTIVE_CLOSE_SIDE_NONE
                || self.active_close_close_price != 0 || self.active_close_close_slot != 0
                || self.active_close_q_close_q != 0 || self.active_close_residual_remaining != 0
                || self.active_close_residual_booked != 0 || self.active_close_residual_recorded
                != 0 || self.active_close_b_chunks_booked != 0 {
                return Err(RiskError::CorruptState);
            }
            return Ok(());
        }
        if self.market_mode != MarketMode::Live || !self.bankruptcy_hmax_lock_active
            || self.active_close_phase != ACTIVE_CLOSE_PHASE_RESIDUAL_B || (
        self.active_close_account_idx != u16::MAX && self.active_close_account_idx as u64
            >= self.params.max_accounts) || self.active_close_close_price == 0
            || self.active_close_close_price > MAX_ORACLE_PRICE || self.active_close_close_slot
            > self.current_slot || self.active_close_residual_remaining == 0
            || self.active_close_b_chunks_booked > ACTIVE_CLOSE_MAX_RESIDUAL_B_CHUNKS {
            return Err(RiskError::CorruptState);
        }
        Self::decode_active_close_side(self.active_close_opp_side)?;
        if self.active_close_residual_booked.checked_add(
            self.active_close_residual_recorded,
        ).is_none() {
            return Err(RiskError::CorruptState);
        }
        Ok(())
    }

    /// Accepts sound socialized losses and a sound bankrupt close.
    pub fn validate_engine_state_shape(&self) -> (r: Result<(), RiskError>)
        ensures
            r == if self.b_tracking_ok() && self.active_close_ok() {
                Ok::<(), RiskError>(())
            } else {
                Err(RiskError::CorruptState)
            },
    {
        self.validate_b_tracking_shape()?;
        self.validate_active_bankrupt_close_shape()?;
        Ok(())
    }

    /// The engine with a loss added to the unallocated losses of a side.
    pub open spec fn with_side_loss(self, s: Side, atoms: u128) -> RiskEngine {
        let before = match s {
            Side::Long => self.explicit_unallocated_loss_long.get(),
            Side::Short => self.explicit_unallocated_loss_short.get(),
        };
        let after = U128(crate::wide_math::min_int(before + atoms, u128::MAX as int) as u128);
        let base = match s {
            Side::Long => RiskEngine { explicit_unallocated_loss_long: after, ..self },
            Side::Short => RiskEngine { explicit_unallocated_loss_short: after, ..self },
        };
        if before + atoms > u128::MAX {
            RiskEngine { explicit_unallocated_loss_saturated: 1, ..base }
        } else {
            base
        }
    }

    /// Adds a loss to the unallocated losses of a side, which no claim carries.
    pub fn add_explicit_unallocated_loss_side(&mut self, s: Side, atoms: u128)
        ensures
            *final(self) == old(self).with_side_loss(s, atoms),
    {
        if atoms == 0 {
            return;
        }
        let before: u128 = match s {
            Side::Long => self.explicit_unallocated_loss_long.get(),
            Side::Short => self.explicit_unallocated_loss_short.get(),
        };
        let after: u128 = match before.checked_add(atoms) {
            Some(v) => v,
            None => {
                self.explicit_unallocated_loss_saturated = 1;
                u128::MAX
            },
        };
        match s {
            Side::Long => {
                self.explicit_unallocated_loss_long = U128::new(after);
            },
            Side::Short => {
                self.explicit_unallocated_loss_short = U128::new(after);
            },
        }
    }

    /// Moves a fraction of an atom to the dust of a side; whole atoms of dust become
    /// unallocated loss.
    pub open spec fn transfer_scaled_dust_spec(self, s: Side, rem: u128) -> (RiskEngine, Result<
        (),
        RiskError,
    >) {
        let total = self.get_social_dust(s) + rem;
        if rem == 0 {
            (self, Ok(()))
        } else if rem >= SOCIAL_LOSS_DEN {
            (self, Err(RiskError::CorruptState))
        } else if total > u128::MAX {
            (self, Err(RiskError::Overflow))
        } else {
            (
                self.with_social_dust(
                    s,
                    (total % (SOCIAL_LOSS_DEN as int)) as u128,
                ).with_side_loss(s, (total / (SOCIAL_LOSS_DEN as int)) as u128),
                Ok(()),
            )
        }
    }

    /// Moves a fraction of an atom to the dust of a side.
    pub fn transfer_scaled_dust_side(&mut self, s: Side, rem_to_transfer: u128) -> (r: Result<
        (),
        RiskError,
    >)
        ensures
            (*final(self), r) == old(self).transfer_scaled_dust_spec(s, rem_to_transfer),
    {
        if rem_to_transfer == 0 {
            return Ok(());
        }
        if rem_to_transfer >= SOCIAL_LOSS_DEN {
            return Err(RiskError::CorruptState);
        }
        let total: u128 = self.get_social_dust(s).checked_add(rem_to_transfer).ok_or(
            RiskError::Overflow,
        )?;
        let atoms: u128 = total / SOCIAL_LOSS_DEN;
        let dust: u128 = total % SOCIAL_LOSS_DEN;
        self.set_social_dust(s, dust);
        self.add_explicit_unallocated_loss_side(s, atoms);
        Ok(())
    }

    /// Moves the booking remainder of a side to its dust.
    pub open spec fn quarantine_spec(self, s: Side) -> (RiskEngine, Result<(), RiskError>) {
        let rem = self.get_social_remainder(s);
        if rem == 0 {
            (self, Ok(()))
        } else {
            let (e, r) = self.transfer_scaled_dust_spec(s, rem);
            match r {
                Err(err) => (e, Err(err)),
                Ok(_) => (e.with_social_remainder(s, 0), Ok(())),
            }
        }
    }

    /// Moves the booking remainder of a side to its dust, since it has no meaning
    /// under another weight sum.
    pub fn quarantine_social_remainder_before_weight_change(&mut self, s: Side) -> (r: Result<
        (),
        RiskError,
    >)
        ensures
            (*final(self), r) == old(self).quarantine_spec(s),
    {
        let rem: u128 = self.get_social_remainder(s);
        if rem == 0 {
            return Ok(());
        }
        self.transfer_scaled_dust_side(s, rem)?;
        self.set_social_remainder(s, 0);
        Ok(())
    }

    /// Index `B` up to which an account on `side` has to settle.
    pub open spec fn b_target_spec(self, a: Account, side: Side) -> Result<u128, RiskError> {
        let epoch = self.get_epoch_side(side);
        if a.b_epoch_snap != a.adl_epoch_snap {
            Err(RiskError::CorruptState)
        } else if a.adl_epoch_snap == epoch {
            if self.market_mode == MarketMode::Resolved && self.get_side_mode(side)
                == SideMode::ResetPending && epoch == u64::MAX {
                Ok(self.get_b_epoch_start(side))
            } else {
                Ok(self.get_b_side(side))
            }
        } else if self.get_side_mode(side) != SideMode::ResetPending || a.adl_epoch_snap + 1
            != epoch {
            Err(RiskError::CorruptState)
        } else {
            Ok(self.get_b_epoch_start(side))
        }
    }

    /// Computes the index `B` up to which an account has to settle: the live index,
    /// or that at the start of the epoch for an account of the epoch before a reset.
    pub fn b_target_for_account(&self, idx: usize, side: Side) -> (r: Result<u128, RiskError>)
        requires
            idx < MAX_ACCOUNTS,
        ensures
            r == self.b_target_spec(self.accounts@[idx as int], side),
    {
        let account = &self.accounts[idx];
        if account.b_epoch_snap != account.adl_epoch_snap {
            return Err(RiskError::CorruptState);
        }
        let epoch_side: u64 = self.get_epoch_side(side);
        if account.adl_epoch_snap == epoch_side {
            if self.market_mode == MarketMode::Resolved && self.get_side_mode(side)
                == SideMode::ResetPending && epoch_side == u64::MAX {
                Ok(self.get_b_epoch_start(side))
            } else {
                Ok(self.get_b_side(side))
            }
        } else {
            if self.get_side_mode(side) != SideMode::ResetPending || account.adl_epoch_snap
                == u64::MAX || account.adl_epoch_snap + 1 != epoch_side {
                return Err(RiskError::CorruptState);
            }
            Ok(self.get_b_epoch_start(side))
        }
    }

    /// Loss of a weight over a movement of `B`, and the remainder carried on.
    pub open spec fn b_loss_spec(weight: u128, b_rem: u128, delta_b: u128) -> Result<
        (u128, u128),
        RiskError,
    > {
        let num = weight * delta_b + b_rem;
        if weight == 0 || b_rem >= SOCIAL_LOSS_DEN {
            Err(RiskError::CorruptState)
        } else if num / (SOCIAL_LOSS_DEN as int) > u128::MAX {
            Err(RiskError::Overflow)
        } else {
            Ok(
                (
                    (num / (SOCIAL_LOSS_DEN as int)) as u128,
                    (num % (SOCIAL_LOSS_DEN as int)) as u128,
                ),
            )
        }
    }

    /// Computes the loss of a weight over a movement of `B`, rounded down, and the
    /// remainder carried on.
    pub fn compute_b_loss_and_rem(weight: u128, b_rem: u128, delta_b: u128) -> (r: Result<
        (u128, u128),
        RiskError,
    >)
        ensures
            r == RiskEngine::b_loss_spec(weight, b_rem, delta_b),
    {
        if weight == 0 {
            return Err(RiskError::CorruptState);
        }
        if b_rem >= SOCIAL_LOSS_DEN {
            return Err(RiskError::CorruptState);
        }
        assert(0 <= weight * delta_b <= u128::MAX * u128::MAX) by (nonlinear_arith)
            requires
                0 <= weight <= u128::MAX,
                0 <= delta_b <= u128::MAX,
        ;
        let num = widening_mul(weight, delta_b).checked_add(U256::from_u128(b_rem)).unwrap();
        let (loss, rem) = div_rem_u256(num, U256::from_u128(SOCIAL_LOSS_DEN));
        let loss_atoms: u128 = loss.try_into_u128().ok_or(RiskError::Overflow)?;
        Ok((loss_atoms, rem.try_into_u128().unwrap()))
    }

    /// Largest numerator of a chunk of at most this loss.
    pub open spec fn max_loss_num(loss_limit: u128) -> int {
        (crate::wide_math::min_int(
            loss_limit as int,
            PUBLIC_ACCOUNT_B_SETTLEMENT_LOSS_ATOMS as int,
        ) + 1) * SOCIAL_LOSS_DEN - 1
    }

    /// Plans the next chunk of an account's settlement against `B`: the movement,
    /// its loss, the remainder carried on, and whether the target is reached.
    pub open spec fn account_b_chunk_spec(a: Account, target: u128, loss_limit: u128) -> Result<
        (u128, u128, u128, bool),
        RiskError,
    > {
        if a.loss_weight == 0 || a.b_snap > target || a.b_rem >= SOCIAL_LOSS_DEN {
            Err(RiskError::CorruptState)
        } else if a.b_snap == target {
            Ok((0, 0, a.b_rem, true))
        } else {
            let delta = crate::wide_math::min_int(
                target - a.b_snap,
                (RiskEngine::max_loss_num(loss_limit) - a.b_rem) / (a.loss_weight as int),
            );
            let num = a.loss_weight * delta + a.b_rem;
            if delta == 0 {
                Err(RiskError::RecoveryRequired)
            } else {
                Ok(
                    (
                        delta as u128,
                        (num / (SOCIAL_LOSS_DEN as int)) as u128,
                        (num % (SOCIAL_LOSS_DEN as int)) as u128,
                        a.b_snap + delta == target,
                    ),
                )
            }
        }
    }

    /// Plans the next chunk of an account's settlement against `B`.
    pub fn plan_account_b_chunk_to_target(&self, idx: usize, target: u128, loss_limit: u128) -> (r:
        Result<(u128, u128, u128, bool), RiskError>)
        requires
            idx < MAX_ACCOUNTS,
        ensures
            r == RiskEngine::account_b_chunk_spec(
                self.accounts@[idx as int],
                target,
                loss_limit,
            ),
            r is Ok ==> r->Ok_0.1 <= loss_limit,
    {
        let account = &self.accounts[idx];
        if account.loss_weight == 0 {
            return Err(RiskError::CorruptState);
        }
        if account.b_snap > target || account.b_rem >= SOCIAL_LOSS_DEN {
            return Err(RiskError::CorruptState);
        }
        let remaining_delta: u128 = target - account.b_snap;
        if remaining_delta == 0 {
            return Ok((0, 0, account.b_rem, true));
        }
        let capped_loss_limit: u128 = min_u128(loss_limit, PUBLIC_ACCOUNT_B_SETTLEMENT_LOSS_ATOMS);
        let max_num: u128 = (capped_loss_limit + 1) * SOCIAL_LOSS_DEN - 1;
        let weight: u128 = account.loss_weight;
        let room: u128 = max_num - account.b_rem;
        let max_delta_by_loss: u128 = room / weight;
        let delta_b: u128 = min_u128(remaining_delta, max_delta_by_loss);
        if delta_b == 0 {
            return Err(RiskError::RecoveryRequired);
        }
        proof {
            vstd::arithmetic::div_mod::lemma_fundamental_div_mod(room as int, weight as int);
            assert(weight * delta_b <= room) by (nonlinear_arith)
                requires
                    delta_b <= max_delta_by_loss,
                    room == weight * max_delta_by_loss + (room % weight),
                    weight > 0,
            ;
            assert(0 <= weight * delta_b) by (nonlinear_arith);
            let num = weight * delta_b + account.b_rem;
            assert(num < (capped_loss_limit + 1) * SOCIAL_LOSS_DEN);
            assert(num / (SOCIAL_LOSS_DEN as int) <= capped_loss_limit);
        }
        let (loss, rem) = Self::compute_b_loss_and_rem(weight, account.b_rem, delta_b)?;
        Ok((delta_b, loss, rem, delta_b == remaining_delta))
    }

    /// Settles the next chunk of account `i` against `B`.
    pub open spec fn settle_account_b_chunk_spec(self, i: int, target: u128, loss_limit: u128) -> (
        RiskEngine,
        Result<(u128, bool), RiskError>,
    ) {
        let a = self.accounts@[i];
        match RiskEngine::account_b_chunk_spec(a, target, loss_limit) {
            Err(e) => (self, Err(e)),
            Ok((delta, loss, rem, reached)) => (
                self.with_account(
                    i,
                    Account { b_snap: (a.b_snap + delta) as u128, b_rem: rem, ..a },
                ),
                Ok((loss, reached)),
            ),
        }
    }

    /// Settles the next chunk of an account against `B`. Gives its loss and whether
    /// the target is reached.
    pub fn settle_account_b_chunk_to_target(
        &mut self,
        idx: usize,
        _side: Side,
        target: u128,
        loss_limit: u128,
    ) -> (r: Result<(u128, bool), RiskError>)
        requires
            idx < MAX_ACCOUNTS,
        ensures
            (*final(self), r) == old(self).settle_account_b_chunk_spec(
                idx as int,
                target,
                loss_limit,
            ),
            r is Ok ==> r->Ok_0.0 <= loss_limit,
    {
        let (delta_b, loss, rem, current) = self.plan_account_b_chunk_to_target(
            idx,
            target,
            loss_limit,
        )?;
        let mut account = self.accounts[idx];
        account.b_snap = account.b_snap + delta_b;
        account.b_rem = rem;
        self.accounts[idx] = account;
        Ok((loss, current))
    }

    /// The plan that books `chunk` atoms on the weights of a side.
    pub open spec fn chunk_plan(self, side: Side, chunk: int) -> BResidualChunkPlan {
        let scaled = chunk * SOCIAL_LOSS_DEN + self.get_social_remainder(side);
        let w = self.get_loss_weight_sum(side) as int;
        BResidualChunkPlan {
            booked: chunk as u128,
            delta_b: (scaled / w) as u128,
            rem_new: (scaled % w) as u128,
            records_explicit: false,
        }
    }

    /// Movement that `B` can still take.
    pub open spec fn b_headroom(self, side: Side) -> int {
        u128::MAX - self.get_b_side(side)
    }

    /// Plans the next chunk of a residual on a side.
    #[verifier::opaque]
    pub open spec fn residual_chunk_spec(self, side: Side, residual: u128, budget: u128) -> Result<
        BResidualChunkPlan,
        RiskError,
    > {
        let w = self.get_loss_weight_sum(side);
        let rem = self.get_social_remainder(side);
        let cap = crate::wide_math::max_int(
            1,
            crate::wide_math::min_int(budget as int, PUBLIC_B_CHUNK_ATOMS as int),
        );
        let most = crate::wide_math::min_int(residual as int, cap);
        if residual == 0 {
            Ok(BResidualChunkPlan { booked: 0, delta_b: 0, rem_new: 0, records_explicit: false })
        } else if w == 0 {
            Ok(
                BResidualChunkPlan {
                    booked: residual,
                    delta_b: 0,
                    rem_new: 0,
                    records_explicit: true,
                },
            )
        } else if w > SOCIAL_LOSS_DEN || rem >= SOCIAL_LOSS_DEN {
            Err(RiskError::CorruptState)
        } else if (most * SOCIAL_LOSS_DEN + rem) / (w as int) <= self.b_headroom(side) {
            Ok(self.chunk_plan(side, most))
        } else {
            let room = self.b_headroom(side) * w - rem;
            let chunk = crate::wide_math::min_int(most, room / (SOCIAL_LOSS_DEN as int));
            if room < 0 || chunk == 0 {
                Err(RiskError::RecoveryRequired)
            } else {
                Ok(self.chunk_plan(side, chunk))
            }
        }
    }

    /// Plans the next chunk of a residual on a side: as much as the budget and the
    /// room of `B` allow. With no weight to carry it, the whole residual is recorded
    /// as unallocated loss.
    pub fn plan_bankruptcy_residual_chunk_to_side(
        &self,
        side: Side,
        residual_remaining: u128,
        chunk_budget: u128,
    ) -> (r: Result<BResidualChunkPlan, RiskError>)
        ensures
            r == self.residual_chunk_spec(side, residual_remaining, chunk_budget),
    {
        reveal(RiskEngine::residual_chunk_spec);
        if residual_remaining == 0 {
            return Ok(
                BResidualChunkPlan { booked: 0, delta_b: 0, rem_new: 0, records_explicit: false },
            );
        }
        let w: u128 = self.get_loss_weight_sum(side);
        if w == 0 {
            return Ok(
                BResidualChunkPlan {
                    booked: residual_remaining,
                    delta_b: 0,
                    rem_new: 0,
                    records_explicit: true,
                },
            );
        }
        if w > SOCIAL_LOSS_DEN {
            return Err(RiskError::CorruptState);
        }
        let rem_old: u128 = self.get_social_remainder(side);
        if rem_old >= SOCIAL_LOSS_DEN {
            return Err(RiskError::CorruptState);
        }
        let b: u128 = self.get_b_side(side);
        let headroom: u128 = u128::MAX - b;
        let chunk_cap: u128 = max_u128(1, min_u128(chunk_budget, PUBLIC_B_CHUNK_ATOMS));
        let fast_chunk: u128 = min_u128(residual_remaining, chunk_cap);
        let fast_scaled: u128 = fast_chunk * SOCIAL_LOSS_DEN + rem_old;
        let fast_delta_b: u128 = fast_scaled / w;
        let fast_rem_new: u128 = fast_scaled % w;
        if fast_delta_b <= headroom {
            return Ok(
                BResidualChunkPlan {
                    booked: fast_chunk,
                    delta_b: fast_delta_b,
                    rem_new: fast_rem_new,
                    records_explicit: false,
                },
            );
        }
        let max_scaled = widening_mul(headroom, w);
        let rem_old_wide = U256::from_u128(rem_old);
        if max_scaled.is_below(rem_old_wide) {
            return Err(RiskError::RecoveryRequired);
        }
        let available_scaled = max_scaled.checked_sub(rem_old_wide).unwrap();
        let max_chunk_by_b: u128 = match available_scaled.checked_div(
            U256::from_u128(SOCIAL_LOSS_DEN),
        ).unwrap().try_into_u128() {
            Some(v) => v,
            None => u128::MAX,
        };
        let engine_chunk: u128 = min_u128(residual_remaining, max_chunk_by_b);
        if engine_chunk == 0 {
            return Err(RiskError::RecoveryRequired);
        }
        let chunk: u128 = min_u128(engine_chunk, chunk_cap);
        let scaled: u128 = chunk * SOCIAL_LOSS_DEN + rem_old;
        let delta_b: u128 = scaled / w;
        let rem_new: u128 = scaled % w;
        Ok(BResidualChunkPlan { booked: chunk, delta_b, rem_new, records_explicit: false })
    }

    /// Books the next chunk of a residual on a side.
    #[verifier::opaque]
    pub open spec fn book_residual_chunk_spec(
        self,
        ctx: InstructionContext,
        side: Side,
        residual: u128,
        budget: u128,
    ) -> (RiskEngine, InstructionContext, Result<u128, RiskError>) {
        let (e, c, r) = self.trigger_bankruptcy_hmax_lock_spec(ctx);
        if residual == 0 {
            (self, ctx, Ok(0))
        } else if r is Err {
            (e, c, Err(r->Err_0))
        } else {
            match e.residual_chunk_spec(side, residual, budget) {
                Err(err) => (e, c, Err(err)),
                Ok(plan) => if plan.records_explicit {
                    (e.with_side_loss(side, plan.booked), c, Ok(plan.booked))
                } else {
                    (
                        e.with_b_side(
                            side,
                            (e.get_b_side(side) + plan.delta_b) as u128,
                        ).with_social_remainder(side, plan.rem_new),
                        c,
                        Ok(plan.booked),
                    )
                },
            }
        }
    }

    /// Books the next chunk of a residual on a side, under the bankruptcy lock.
    /// Gives what was booked.
    pub fn book_bankruptcy_residual_chunk_to_side(
        &mut self,
        ctx: &mut InstructionContext,
        side: Side,
        residual_remaining: u128,
        chunk_budget: u128,
    ) -> (r: Result<u128, RiskError>)
        ensures
            (*final(self), *final(ctx), r) == old(self).book_residual_chunk_spec(
                *old(ctx),
                side,
                residual_remaining,
                chunk_budget,
            ),
            old(ctx).wf() ==> final(ctx).wf(),
            r is Ok ==> r->Ok_0 <= residual_remaining,
            r is Ok && residual_remaining > 0 ==> r->Ok_0 > 0,
    {
        reveal(RiskEngine::book_residual_chunk_spec);
        if residual_remaining == 0 {
            return Ok(0);
        }
        self.trigger_bankruptcy_hmax_lock(ctx)?;
        let plan = self.plan_bankruptcy_residual_chunk_to_side(
            side,
            residual_remaining,
            chunk_budget,
        )?;
        proof {
            lemma_residual_chunk(*self, side, residual_remaining, chunk_budget);
        }
        if plan.records_explicit {
            self.add_explicit_unallocated_loss_side(side, plan.booked);
            return Ok(plan.booked);
        }
        let new_b: u128 = self.get_b_side(side) + plan.delta_b;
        self.set_b_side(side, new_b);
        self.set_social_remainder(side, plan.rem_new);
        Ok(plan.booked)
    }

    /// Whether an error says that no bounded step is left.
    pub open spec fn out_of_steps(e: RiskError) -> bool {
        e == RiskError::RecoveryRequired || e == RiskError::Overflow
    }

    /// Books the next chunk of a residual, or nothing if no bounded step is left.
    pub open spec fn book_or_nothing(
        self,
        ctx: InstructionContext,
        side: Side,
        residual: u128,
        budget: u128,
    ) -> (RiskEngine, InstructionContext, Result<u128, RiskError>) {
        let (e, c, r) = self.book_residual_chunk_spec(ctx, side, residual, budget);
        match r {
            Err(err) => if RiskEngine::out_of_steps(err) {
                let (e2, c2, r2) = e.trigger_bankruptcy_hmax_lock_spec(c);
                match r2 {
                    Err(err2) => (e2, c2, Err(err2)),
                    Ok(_) => (e2, c2, Ok(0)),
                }
            } else {
                (e, c, Err(err))
            },
            Ok(booked) => (e, c, Ok(booked)),
        }
    }

    fn book_chunk_or_nothing(
        &mut self,
        ctx: &mut InstructionContext,
        side: Side,
        residual_remaining: u128,
        chunk_budget: u128,
    ) -> (r: Result<u128, RiskError>)
        ensures
            (*final(self), *final(ctx), r) == old(self).book_or_nothing(
                *old(ctx),
                side,
                residual_remaining,
                chunk_budget,
            ),
            old(ctx).wf() ==> final(ctx).wf(),
            r is Ok ==> r->Ok_0 <= residual_remaining,
    {
        let res = self.book_bankruptcy_residual_chunk_to_side(
            ctx,
            side,
            residual_remaining,
            chunk_budget,
        );
        match res {
            Ok(booked) => Ok(booked),
            Err(e) => {
                if e == RiskError::RecoveryRequired || e == RiskError::Overflow {
                    self.trigger_bankruptcy_hmax_lock(ctx)?;
                    return Ok(0);
                }
                Err(e)
            },
        }
    }

    /// Books what it can of a residual on a side and records the rest.
    #[verifier::opaque]
    pub open spec fn book_or_record_spec(
        self,
        ctx: InstructionContext,
        side: Side,
        residual: u128,
        budget: u128,
    ) -> (RiskEngine, InstructionContext, Result<(u128, u128), RiskError>) {
        if residual == 0 {
            (self, ctx, Ok((0, 0)))
        } else {
            let (e, c, r) = self.book_or_nothing(ctx, side, residual, budget);
            match r {
                Err(err) => (e, c, Err(err)),
                Ok(booked) => {
                    let rest = (residual - booked) as u128;
                    (e.with_side_loss(side, rest), c, Ok((booked, rest)))
                },
            }
        }
    }

    /// Books one chunk of a residual on a side and records the rest as unallocated
    /// loss. Gives what was booked and what was recorded.
    pub fn book_or_record_bankruptcy_residual_to_side(
        &mut self,
        ctx: &mut InstructionContext,
        side: Side,
        residual_remaining: u128,
        chunk_budget: u128,
    ) -> (r: Result<(u128, u128), RiskError>)
        ensures
            (*final(self), *final(ctx), r) == old(self).book_or_record_spec(
                *old(ctx),
                side,
                residual_remaining,
                chunk_budget,
            ),
            old(ctx).wf() ==> final(ctx).wf(),
            r is Ok ==> r->Ok_0.0 + r->Ok_0.1 == residual_remaining,
    {
        reveal(RiskEngine::book_or_record_spec);
        if residual_remaining == 0 {
            return Ok((0, 0));
        }
        let booked: u128 = self.book_chunk_or_nothing(ctx, side, residual_remaining, chunk_budget)?;
        let recorded: u128 = residual_remaining - booked;
        self.add_explicit_unallocated_loss_side(side, recorded);
        Ok((booked, recorded))
    }

    /// The engine with a bankrupt close in flight.
    pub open spec fn with_active_close(
        self,
        account_idx: u16,
        opp_side: Side,
        close_price: u64,
        close_slot: u64,
        q_close_q: u128,
        residual: u128,
    ) -> RiskEngine {
        RiskEngine {
            active_close_present: 1,
            active_close_phase: ACTIVE_CLOSE_PHASE_RESIDUAL_B,
            active_close_account_idx: account_idx,
            active_close_opp_side: RiskEngine::encode_active_close_side(opp_side),
            active_close_close_price: close_price,
            active_close_close_slot: close_slot,
            active_close_q_close_q: q_close_q,
            active_close_residual_remaining: residual,
            active_close_residual_booked: 0,
            active_close_residual_recorded: 0,
            active_close_b_chunks_booked: 0,
            ..self.with_hmax_lock()
        }
    }

    /// Starts a bankrupt close over a residual.
    pub open spec fn start_active_close_spec(
        self,
        account_idx: u16,
        opp_side: Side,
        close_price: u64,
        close_slot: u64,
        q_close_q: u128,
        residual: u128,
    ) -> (RiskEngine, Result<(), RiskError>) {
        if residual == 0 {
            (self, Ok(()))
        } else if self.active_close_present != 0 {
            (self, Err(RiskError::RecoveryRequired))
        } else if (account_idx != u16::MAX && account_idx >= self.params.max_accounts)
            || close_price == 0 || close_price > MAX_ORACLE_PRICE || close_slot
            > self.current_slot {
            (self, Err(RiskError::CorruptState))
        } else {
            (
                self.with_active_close(
                    account_idx,
                    opp_side,
                    close_price,
                    close_slot,
                    q_close_q,
                    residual,
                ),
                Ok(()),
            )
        }
    }

    /// Starts a bankrupt close over a residual. At most one is in flight.
    pub fn start_active_bankrupt_close_residual(
        &mut self,
        account_idx: u16,
        opp_side: Side,
        close_price: u64,
        close_slot: u64,
        q_close_q: u128,
        residual_remaining: u128,
    ) -> (r: Result<(), RiskError>)
        ensures
            (*final(self), r) == old(self).start_active_close_spec(
                account_idx,
                opp_side,
                close_price,
                close_slot,
                q_close_q,
                residual_remaining,
            ),
    {
        if residual_remaining == 0 {
            return Ok(());
        }
        if self.active_close_present != 0 {
            return Err(RiskError::RecoveryRequired);
        }
        if account_idx != u16::MAX && account_idx as u64 >= self.params.max_accounts {
            return Err(RiskError::CorruptState);
        }
        if close_price == 0 || close_price > MAX_ORACLE_PRICE {
            return Err(RiskError::CorruptState);
        }
        if close_slot > self.current_slot {
            return Err(RiskError::CorruptState);
        }
        self.active_close_present = 1;
        self.active_close_phase = ACTIVE_CLOSE_PHASE_RESIDUAL_B;
        self.active_close_account_idx = account_idx;
        self.active_close_opp_side = Self::encode_active_close_side(opp_side);
        self.active_close_close_price = close_price;
        self.active_close_close_slot = close_slot;
        self.active_close_q_close_q = q_close_q;
        self.active_close_residual_remaining = residual_remaining;
        self.active_close_residual_booked = 0;
        self.active_close_residual_recorded = 0;
        self.active_close_b_chunks_booked = 0;
        self.trigger_bankruptcy_hmax_lock_without_context();
        Ok(())
    }

    /// Books one chunk of a residual and starts a bankrupt close over the rest.
    #[verifier::opaque]
    pub open spec fn book_or_start_spec(
        self,
        ctx: InstructionContext,
        account_idx: u16,
        side: Side,
        close_price: u64,
        close_slot: u64,
        q_close_q: u128,
        residual: u128,
        budget: u128,
    ) -> (RiskEngine, InstructionContext, Result<(u128, u128), RiskError>) {
        if residual == 0 {
            (self, ctx, Ok((0, 0)))
        } else {
            let (e, c, r) = self.book_or_nothing(ctx, side, residual, budget);
            match r {
                Err(err) => (e, c, Err(err)),
                Ok(booked) => {
                    let rest = (residual - booked) as u128;
                    if rest == 0 {
                        (e, c, Ok((booked, 0)))
                    } else if booked == 0 {
                        (e.with_side_loss(side, rest), c, Ok((0, rest)))
                    } else {
                        let (e2, r2) = e.start_active_close_spec(
                            account_idx,
                            side,
                            close_price,
                            close_slot,
                            q_close_q,
                            rest,
                        );
                        match r2 {
                            Err(err) => (e2, c, Err(err)),
                            Ok(_) => (e2, c, Ok((booked, 0))),
                        }
                    }
                },
            }
        }
    }

    /// Books one chunk of a residual on a side and starts a bankrupt close over the
    /// rest. If nothing can be booked, the residual is recorded as unallocated loss.
    pub fn book_or_start_active_close_residual_to_side(
        &mut self,
        ctx: &mut InstructionContext,
        account_idx: u16,
        side: Side,
        close_price: u64,
        close_slot: u64,
        q_close_q: u128,
        residual_remaining: u128,
        chunk_budget: u128,
    ) -> (r: Result<(u128, u128), RiskError>)
        ensures
            (*final(self), *final(ctx), r) == old(self).book_or_start_spec(
                *old(ctx),
                account_idx,
                side,
                close_price,
                close_slot,
                q_close_q,
                residual_remaining,
                chunk_budget,
            ),
            old(ctx).wf() ==> final(ctx).wf(),
    {
        reveal(RiskEngine::book_or_start_spec);
        if residual_remaining == 0 {
            return Ok((0, 0));
        }
        let booked: u128 = self.book_chunk_or_nothing(ctx, side, residual_remaining, chunk_budget)?;
        let remainder: u128 = residual_remaining - booked;
        if remainder == 0 {
            return Ok((booked, 0));
        }
        if booked == 0 {
            self.add_explicit_unallocated_loss_side(side, remainder);
            return Ok((0, remainder));
        }
        self.start_active_bankrupt_close_residual(
            account_idx,
            side,
            close_price,
            close_slot,
            q_close_q,
            remainder,
        )?;
        Ok((booked, 0))
    }

    /// The engine with `booked` atoms of the bankrupt close accounted for.
    pub open spec fn with_close_progress(self, booked: u128) -> RiskEngine {
        let e = RiskEngine {
            active_close_residual_remaining: (self.active_close_residual_remaining
                - booked) as u128,
            active_close_residual_booked: (self.active_close_residual_booked + booked) as u128,
            active_close_b_chunks_booked: (self.active_close_b_chunks_booked + 1) as u64,
            ..self
        };
        if e.active_close_residual_remaining == 0 {
            e.without_active_close()
        } else {
            e
        }
    }

    /// Books the next chunk of the bankrupt close in flight.
    #[verifier::opaque]
    pub open spec fn continue_close_core_spec(self, now_slot: u64, ctx: InstructionContext) -> (
        RiskEngine,
        InstructionContext,
        Result<bool, RiskError>,
    ) {
        if !self.active_close_ok() {
            (self, ctx, Err(RiskError::CorruptState))
        } else if self.active_close_present == 0 {
            (self, ctx, Err(RiskError::Unauthorized))
        } else if now_slot < self.current_slot || now_slot < self.last_market_slot {
            (self, ctx, Err(RiskError::Overflow))
        } else if self.active_close_b_chunks_booked >= ACTIVE_CLOSE_MAX_RESIDUAL_B_CHUNKS {
            (self, ctx, Err(RiskError::RecoveryRequired))
        } else {
            let side = RiskEngine::decode_active_close_side(self.active_close_opp_side)->Ok_0;
            let (e, c, r) = self.book_residual_chunk_spec(
                ctx,
                side,
                self.active_close_residual_remaining,
                PUBLIC_B_CHUNK_ATOMS,
            );
            match r {
                Err(err) => (e, c, Err(err)),
                Ok(booked) => if e.active_close_residual_booked + booked > u128::MAX {
                    (
                        RiskEngine {
                            active_close_residual_remaining: (e.active_close_residual_remaining
                                - booked) as u128,
                            ..e
                        },
                        c,
                        Err(RiskError::Overflow),
                    )
                } else {
                    (e.with_close_progress(booked), c, Ok(true))
                },
            }
        }
    }

    /// Books the next chunk of the bankrupt close in flight.
    pub fn continue_active_bankrupt_close_core(
        &mut self,
        now_slot: u64,
        ctx: &mut InstructionContext,
    ) -> (r: Result<bool, RiskError>)
        ensures
            (*final(self), *final(ctx), r) == old(self).continue_close_core_spec(
                now_slot,
                *old(ctx),
            ),
            old(ctx).wf() ==> final(ctx).wf(),
    {
        reveal(RiskEngine::continue_close_core_spec);
        self.validate_active_bankrupt_close_shape()?;
        if self.active_close_present == 0 {
            return Err(RiskError::Unauthorized);
        }
        if now_slot < self.current_slot || now_slot < self.last_market_slot {
            return Err(RiskError::Overflow);
        }
        if self.active_close_b_chunks_booked >= ACTIVE_CLOSE_MAX_RESIDUAL_B_CHUNKS {
            return Err(RiskError::RecoveryRequired);
        }
        let side = Self::decode_active_close_side(self.active_close_opp_side)?;
        let before: u128 = self.active_close_residual_remaining;
        let booked: u128 = self.book_bankruptcy_residual_chunk_to_side(
            ctx,
            side,
            before,
            PUBLIC_B_CHUNK_ATOMS,
        )?;
        proof {
            lemma_booking_keeps_close(*old(self), *old(ctx), side, before, PUBLIC_B_CHUNK_ATOMS);
        }
        self.active_close_residual_remaining = before - booked;
        self.active_close_residual_booked =
        self.active_close_residual_booked.checked_add(booked).ok_or(RiskError::Overflow)?;
        self.active_close_b_chunks_booked = self.active_close_b_chunks_booked + 1;
        if self.active_close_residual_remaining == 0 {
            self.clear_active_bankrupt_close_state();
        }
        Ok(true)
    }

    /// Books the next chunk of the bankrupt close in flight, as an instruction.
    #[verifier::opaque]
    pub open spec fn continue_close_spec(self, now_slot: u64) -> (RiskEngine, Result<
        bool,
        RiskError,
    >) {
        match self.public_post() {
            Err(err) => (self, Err(err)),
            Ok(_) => {
                let (e, _, r) = self.continue_close_core_spec(
                    now_slot,
                    InstructionContext::fresh(self.params.h_max, self.params.h_max, None),
                );
                match r {
                    Err(err) => (e, Err(err)),
                    Ok(progressed) => match e.public_post() {
                        Err(err) => (e, Err(err)),
                        Ok(_) => (e, Ok(progressed)),
                    },
                }
            },
        }
    }

    /// Books the next chunk of the bankrupt close in flight, as an instruction.
    pub fn continue_active_bankrupt_close_not_atomic(&mut self, now_slot: u64) -> (r: Result<
        bool,
        RiskError,
    >)
        ensures
            (*final(self), r) == old(self).continue_close_spec(now_slot),
            r is Ok ==> final(self).public_post() is Ok,
    {
        reveal(RiskEngine::continue_close_spec);
        self.assert_public_postconditions()?;
        let mut ctx = InstructionContext::new_with_admission(self.params.h_max, self.params.h_max);
        let progressed: bool = self.continue_active_bankrupt_close_core(now_slot, &mut ctx)?;
        self.assert_public_postconditions()?;
        Ok(progressed)
    }

    /// Whether the bankrupt close in flight has no bounded step left.
    #[verifier::opaque]
    pub open spec fn close_is_stuck(self) -> Result<bool, RiskError> {
        if !self.active_close_ok() {
            Err(RiskError::CorruptState)
        } else if self.active_close_present == 0 {
            Ok(false)
        } else if self.active_close_b_chunks_booked >= ACTIVE_CLOSE_MAX_RESIDUAL_B_CHUNKS {
            Ok(true)
        } else {
            let side = RiskEngine::decode_active_close_side(self.active_close_opp_side)->Ok_0;
            match self.residual_chunk_spec(
                side,
                self.active_close_residual_remaining,
                PUBLIC_B_CHUNK_ATOMS,
            ) {
                Ok(_) => Ok(false),
                Err(err) => if RiskEngine::out_of_steps(err) {
                    Ok(true)
                } else {
                    Err(err)
                },
            }
        }
    }

    /// Decides whether the bankrupt close in flight has no bounded step left.
    pub fn active_bankrupt_close_recovery_required(&self) -> (r: Result<bool, RiskError>)
        ensures
            r == self.close_is_stuck(),
    {
        reveal(RiskEngine::close_is_stuck);
        self.validate_active_bankrupt_close_shape()?;
        if self.active_close_present == 0 {
            return Ok(false);
        }
        if self.active_close_b_chunks_booked >= ACTIVE_CLOSE_MAX_RESIDUAL_B_CHUNKS {
            return Ok(true);
        }
        let side = Self::decode_active_close_side(self.active_close_opp_side)?;
        match self.plan_bankruptcy_residual_chunk_to_side(
            side,
            self.active_close_residual_remaining,
            PUBLIC_B_CHUNK_ATOMS,
        ) {
            Ok(plan) => {
                proof {
                    lemma_residual_chunk(
                        *self,
                        side,
                        self.active_close_residual_remaining,
                        PUBLIC_B_CHUNK_ATOMS,
                    );
                }
                Ok(plan.booked == 0)
            },
            Err(e) => if e == RiskError::RecoveryRequired || e == RiskError::Overflow {
                Ok(true)
            } else {
                Err(e)
            },
        }
    }

    /// Ends a bankrupt close that has no bounded step left.
    #[verifier::opaque]
    pub open spec fn complete_close_spec(self) -> (RiskEngine, Result<(), RiskError>) {
        match self.close_is_stuck() {
            Err(err) => (self, Err(err)),
            Ok(false) => (self, Err(RiskError::Unauthorized)),
            Ok(true) => {
                let side = RiskEngine::decode_active_close_side(self.active_close_opp_side)->Ok_0;
                let residual = self.active_close_residual_remaining;
                let e = self.with_side_loss(side, residual);
                if self.active_close_residual_recorded + residual > u128::MAX {
                    (e, Err(RiskError::Overflow))
                } else {
                    (e.without_active_close(), Ok(()))
                }
            },
        }
    }

    /// Ends a bankrupt close that has no bounded step left. Its residual is recorded
    /// as unallocated loss.
    pub fn complete_active_bankrupt_close_for_recovery(&mut self) -> (r: Result<(), RiskError>)
        ensures
            (*final(self), r) == old(self).complete_close_spec(),
    {
        reveal(RiskEngine::complete_close_spec);
        reveal(RiskEngine::close_is_stuck);
        if !self.active_bankrupt_close_recovery_required()? {
            return Err(RiskError::Unauthorized);
        }
        let side = Self::decode_active_close_side(self.active_close_opp_side)?;
        let residual: u128 = self.active_close_residual_remaining;
        self.add_explicit_unallocated_loss_side(side, residual);
        if self.active_close_residual_recorded.checked_add(residual).is_none() {
            return Err(RiskError::Overflow);
        }
        self.clear_active_bankrupt_close_state();
        Ok(())
    }

    /// Whether an account has not settled up to its `B` target.
    pub open spec fn unsettled_b_spec(self, a: Account) -> Result<bool, RiskError> {
        if a.position_basis_q == 0 {
            Ok(false)
        } else {
            match self.b_target_spec(a, crate::sides::some_side(a.position_basis_q)) {
                Err(e) => Err(e),
                Ok(target) => Ok(a.b_snap != target),
            }
        }
    }

    /// Decides whether an account has not settled up to its `B` target.
    pub fn account_has_unsettled_b(&self, idx: usize) -> (r: Result<bool, RiskError>)
        requires
            idx < MAX_ACCOUNTS,
        ensures
            r == self.unsettled_b_spec(self.accounts@[idx as int]),
    {
        let account = &self.accounts[idx];
        match side_of_i128(account.position_basis_q) {
            None => Ok(false),
            Some(side) => {
                let target: u128 = self.b_target_for_account(idx, side)?;
                Ok(account.b_snap != target)
            },
        }
    }
}

/// A planned chunk takes something of the residual, no more than it, and no more
/// movement than `B` has room for.
pub proof fn lemma_residual_chunk(e: RiskEngine, side: Side, residual: u128, budget: u128)
    requires
        residual > 0,
        e.residual_chunk_spec(side, residual, budget) is Ok,
    ensures
        ({
            let plan = e.residual_chunk_spec(side, residual, budget)->Ok_0;
            &&& 0 < plan.booked <= residual
            &&& !plan.records_explicit ==> {
                &&& e.get_loss_weight_sum(side) > 0
                &&& 0 < plan.delta_b <= e.b_headroom(side)
                &&& plan.rem_new < e.get_loss_weight_sum(side)
                &&& plan.delta_b * e.get_loss_weight_sum(side) + plan.rem_new == plan.booked
                    * SOCIAL_LOSS_DEN + e.get_social_remainder(side)
            }
        }),
{
    reveal(RiskEngine::residual_chunk_spec);
    let plan = e.residual_chunk_spec(side, residual, budget)->Ok_0;
    let w = e.get_loss_weight_sum(side) as int;
    let rem = e.get_social_remainder(side);
    if !plan.records_explicit {
        let chunk = plan.booked as int;
        let scaled = chunk * SOCIAL_LOSS_DEN + rem;
        let q = scaled / w;
        vstd::arithmetic::div_mod::lemma_fundamental_div_mod(scaled, w);
        assert(scaled >= w);
        assert(q > 0) by (nonlinear_arith)
            requires
                scaled == w * q + scaled % w,
                scaled % w < w,
                scaled >= w,
                w > 0,
        ;
        let cap = crate::wide_math::max_int(
            1,
            crate::wide_math::min_int(budget as int, PUBLIC_B_CHUNK_ATOMS as int),
        );
        let most = crate::wide_math::min_int(residual as int, cap);
        if (most * SOCIAL_LOSS_DEN + rem) / w > e.b_headroom(side) {
            let h = e.b_headroom(side);
            let room = h * w - rem;
            assert(chunk * SOCIAL_LOSS_DEN <= room);
            assert(scaled <= h * w);
            vstd::arithmetic::div_mod::lemma_div_is_ordered(scaled, h * w, w);
            vstd::arithmetic::div_mod::lemma_div_multiples_vanish(h, w);
            assert(h * w == w * h) by (nonlinear_arith);
        }
        assert(q * w == w * q) by (nonlinear_arith);
    }
}

/// Booking a chunk leaves the bankrupt close in flight as it is.
proof fn lemma_booking_keeps_close(
    e: RiskEngine,
    ctx: InstructionContext,
    side: Side,
    residual: u128,
    budget: u128,
)
    ensures
        ({
            let after = e.book_residual_chunk_spec(ctx, side, residual, budget).0;
            &&& after.active_close_residual_remaining == e.active_close_residual_remaining
            &&& after.active_close_residual_booked == e.active_close_residual_booked
            &&& after.active_close_b_chunks_booked == e.active_close_b_chunks_booked
        }),
{
    reveal(RiskEngine::book_residual_chunk_spec);
}

/// Booking a chunk of a residual neither creates nor loses a fraction of an atom:
/// what the weights of the side will pay, with the remainder carried on, is what was
/// booked with the remainder carried in.
pub proof fn law_residual_booking_is_exact(e: RiskEngine, side: Side, residual: u128, budget: u128)
    requires
        residual > 0,
        e.residual_chunk_spec(side, residual, budget) is Ok,
        !e.residual_chunk_spec(side, residual, budget)->Ok_0.records_explicit,
    ensures
        ({
            let plan = e.residual_chunk_spec(side, residual, budget)->Ok_0;
            &&& 0 < plan.booked <= residual
            &&& 0 < plan.delta_b <= u128::MAX - e.get_b_side(side)
            &&& plan.rem_new < SOCIAL_LOSS_DEN
            &&& plan.delta_b * e.get_loss_weight_sum(side) + plan.rem_new == plan.booked
                * SOCIAL_LOSS_DEN + e.get_social_remainder(side)
        }),
{
    lemma_residual_chunk(e, side, residual, budget);
    reveal(RiskEngine::residual_chunk_spec);
}

/// A chunk of an account's settlement neither creates nor loses a fraction of an
/// atom, keeps its loss within the limit, and never goes past the target.
pub proof fn law_account_b_settlement_is_exact(a: Account, target: u128, loss_limit: u128)
    requires
        RiskEngine::account_b_chunk_spec(a, target, loss_limit) is Ok,
    ensures
        ({
            let (delta, loss, rem, reached) = RiskEngine::account_b_chunk_spec(
                a,
                target,
                loss_limit,
            )->Ok_0;
            &&& a.b_snap + delta <= target
            &&& reached <==> a.b_snap + delta == target
            &&& delta == 0 ==> reached
            &&& loss <= loss_limit
            &&& loss <= PUBLIC_ACCOUNT_B_SETTLEMENT_LOSS_ATOMS
            &&& rem < SOCIAL_LOSS_DEN
            &&& a.loss_weight * delta + a.b_rem == loss * SOCIAL_LOSS_DEN + rem
        }),
{
    if a.b_snap == target {
    } else {
        let w = a.loss_weight as int;
        let room = RiskEngine::max_loss_num(loss_limit) - a.b_rem;
        let q = room / w;
        let delta = crate::wide_math::min_int(target - a.b_snap, q);
        vstd::arithmetic::div_mod::lemma_fundamental_div_mod(room, w);
        assert(q >= 0) by {
            vstd::arithmetic::div_mod::lemma_div_pos_is_pos(room, w);
        }
        assert(0 <= w * delta <= room) by (nonlinear_arith)
            requires
                0 <= delta <= q,
                room == w * q + room % w,
                0 <= room % w,
                w > 0,
        ;
    }
}

} // verus!
