//! Positions: what an account holds of a side, what the side's indices have made
//! of it, and how a touch settles the difference.

use vstd::prelude::*;

use crate::constants::{
    ADL_ONE, FUNDING_DEN, MAX_ACCOUNTS, MAX_POSITION_ABS_Q, POS_SCALE, SOCIAL_LOSS_DEN,
    SOCIAL_WEIGHT_SCALE,
};
use crate::context::InstructionContext;
use crate::sides::side_of_i128;
use crate::types::{Account, MarketMode, ReserveMode, RiskEngine, RiskError, Side};
use crate::wide_math::{abs_i128, div_rem_u256, mul_div_ceil_u256, widening_mul, I256, U256};

verus! {

impl Account {
    /// The account with no position and neutral snapshots.
    pub open spec fn without_position(self) -> Account {
        Account {
            position_basis_q: 0,
            adl_a_basis: ADL_ONE,
            adl_k_snap: 0,
            f_snap: 0,
            adl_epoch_snap: 0,
            ..self
        }
    }
}

/// `1` if the position is on the side, else `0`.
pub open spec fn on_side(v: i128, s: Side) -> int {
    if side_of_i128(v) == Some(s) {
        1
    } else {
        0
    }
}

impl RiskEngine {
    /// Sets the stored position of account `i`, and counts the positions of each
    /// side. Unless a spike is allowed no side may exceed its cap.
    #[verifier::opaque]
    pub open spec fn set_position_basis_q_inner_spec(
        self,
        i: int,
        new_basis: i128,
        allow_transient_spike: bool,
    ) -> (RiskEngine, Result<(), RiskError>) {
        if i >= MAX_ACCOUNTS {
            (self, Err(RiskError::AccountNotFound))
        } else {
            let before = self.accounts@[i].position_basis_q;
            let cap = self.params.max_active_positions_per_side;
            let less_long = self.stored_pos_count_long - on_side(before, Side::Long);
            let less_short = self.stored_pos_count_short - on_side(before, Side::Short);
            let long = less_long + on_side(new_basis, Side::Long);
            let short = less_short + on_side(new_basis, Side::Short);
            if less_long < 0 || less_short < 0 || long > u64::MAX || short > u64::MAX {
                (self, Err(RiskError::CorruptState))
            } else if !allow_transient_spike && (long > cap || short > cap) {
                (self, Err(RiskError::Overflow))
            } else {
                (
                    RiskEngine {
                        stored_pos_count_long: long as u64,
                        stored_pos_count_short: short as u64,
                        ..self.with_account(
                            i,
                            Account { position_basis_q: new_basis, ..self.accounts@[i] },
                        )
                    },
                    Ok(()),
                )
            }
        }
    }

    /// Sets the stored position of an account.
    pub fn set_position_basis_q_inner(
        &mut self,
        idx: usize,
        new_basis: i128,
        allow_transient_spike: bool,
    ) -> (r: Result<(), RiskError>)
        ensures
            (*final(self), r) == old(self).set_position_basis_q_inner_spec(
                idx as int,
                new_basis,
                allow_transient_spike,
            ),
    {
        reveal(RiskEngine::set_position_basis_q_inner_spec);
        if idx >= MAX_ACCOUNTS {
            return Err(RiskError::AccountNotFound);
        }
        let before: i128 = self.accounts[idx].position_basis_q;
        let mut next_long: u64 = self.stored_pos_count_long;
        let mut next_short: u64 = self.stored_pos_count_short;
        match side_of_i128(before) {
            Some(Side::Long) => {
                next_long = next_long.checked_sub(1).ok_or(RiskError::CorruptState)?;
            },
            Some(Side::Short) => {
                next_short = next_short.checked_sub(1).ok_or(RiskError::CorruptState)?;
            },
            None => {},
        }
        match side_of_i128(new_basis) {
            Some(Side::Long) => {
                next_long = next_long.checked_add(1).ok_or(RiskError::CorruptState)?;
            },
            Some(Side::Short) => {
                next_short = next_short.checked_add(1).ok_or(RiskError::CorruptState)?;
            },
            None => {},
        }
        let cap: u64 = self.params.max_active_positions_per_side;
        if !allow_transient_spike && (next_long > cap || next_short > cap) {
            return Err(RiskError::Overflow);
        }
        self.stored_pos_count_long = next_long;
        self.stored_pos_count_short = next_short;
        self.accounts[idx].position_basis_q = new_basis;
        Ok(())
    }

    /// Sets the stored position of account `i` within the cap of each side.
    pub open spec fn set_position_basis_q_spec(self, i: int, new_basis: i128) -> (
        RiskEngine,
        Result<(), RiskError>,
    ) {
        self.set_position_basis_q_inner_spec(i, new_basis, false)
    }

    /// Sets the stored position of an account within the cap of each side.
    pub fn set_position_basis_q(&mut self, idx: usize, new_basis: i128) -> (r: Result<
        (),
        RiskError,
    >)
        ensures
            (*final(self), r) == old(self).set_position_basis_q_spec(idx as int, new_basis),
    {
        self.set_position_basis_q_inner(idx, new_basis, false)
    }

    /// Sets the stored position of an account, and lets a side exceed its cap.
    pub fn set_position_basis_q_allow_spike(&mut self, idx: usize, new_basis: i128) -> (r: Result<
        (),
        RiskError,
    >)
        ensures
            (*final(self), r) == old(self).set_position_basis_q_inner_spec(
                idx as int,
                new_basis,
                true,
            ),
    {
        self.set_position_basis_q_inner(idx, new_basis, true)
    }

    /// Removes the position of account `i`.
    pub open spec fn clear_position_basis_q_spec(self, i: int) -> (RiskEngine, Result<
        (),
        RiskError,
    >) {
        let (s, r) = self.set_position_basis_q_spec(i, 0);
        if r is Err {
            (s, r)
        } else {
            (s.with_account(i, s.accounts@[i].without_position()), Ok(()))
        }
    }

    /// Removes the position of an account.
    pub fn clear_position_basis_q(&mut self, idx: usize) -> (r: Result<(), RiskError>)
        requires
            idx < MAX_ACCOUNTS,
        ensures
            (*final(self), r) == old(self).clear_position_basis_q_spec(idx as int),
    {
        self.set_position_basis_q(idx, 0)?;
        proof {
            reveal(RiskEngine::set_position_basis_q_inner_spec);
        }
        self.clear_snapshots(idx);
        Ok(())
    }

    /// Makes the snapshots of an account without a position neutral.
    fn clear_snapshots(&mut self, idx: usize)
        requires
            idx < MAX_ACCOUNTS,
            old(self).accounts@[idx as int].position_basis_q == 0,
        ensures
            *final(self) == old(self).with_account(
                idx as int,
                old(self).accounts@[idx as int].without_position(),
            ),
    {
        let mut a = self.accounts[idx];
        a.adl_a_basis = ADL_ONE;
        a.adl_k_snap = 0;
        a.f_snap = 0;
        a.adl_epoch_snap = 0;
        self.accounts[idx] = a;
    }

    /// Whether replacing the position of account `i` leaves a fraction behind that
    /// no account holds.
    pub open spec fn orphans_a_fraction(self, i: int) -> bool {
        let a = self.accounts@[i];
        &&& a.position_basis_q != 0
        &&& a.adl_epoch_snap == self.get_epoch_side(crate::sides::some_side(a.position_basis_q))
        &&& a.adl_a_basis != 0
        &&& crate::wide_math::abs_int(a.position_basis_q as int) * self.get_a_side(
            crate::sides::some_side(a.position_basis_q),
        ) % (a.adl_a_basis as int) != 0
    }

    /// The account with the present indices of a side as its snapshots.
    pub open spec fn with_side_snapshots(self, a: Account, s: Side) -> Account {
        Account {
            adl_a_basis: self.get_a_side(s),
            adl_k_snap: self.get_k_side(s),
            f_snap: self.get_f_side(s),
            adl_epoch_snap: self.get_epoch_side(s),
            ..a
        }
    }

    /// Gives account `i` the effective position `new_eff`, as of the present indices.
    #[verifier::opaque]
    pub open spec fn attach_effective_position_inner_spec(
        self,
        i: int,
        new_eff: i128,
        allow_spike: bool,
    ) -> (RiskEngine, Result<(), RiskError>) {
        let (s, r) = if self.orphans_a_fraction(i) {
            self.inc_phantom_dust_potential_spec(
                crate::sides::some_side(self.accounts@[i].position_basis_q),
            )
        } else {
            (self, Ok(()))
        };
        if r is Err {
            (s, r)
        } else if new_eff == 0 {
            s.clear_position_basis_q_spec(i)
        } else if crate::wide_math::abs_int(new_eff as int) > MAX_POSITION_ABS_Q {
            (s, Err(RiskError::Overflow))
        } else if !s.signed_shape_ok() {
            (s, Err(RiskError::CorruptState))
        } else {
            let (s2, r2) = s.set_position_basis_q_inner_spec(i, new_eff, allow_spike);
            if r2 is Err {
                (s2, r2)
            } else {
                (
                    s2.with_account(
                        i,
                        s2.with_side_snapshots(s2.accounts@[i], crate::sides::some_side(new_eff)),
                    ),
                    Ok(()),
                )
            }
        }
    }

    /// Gives an account an effective position, as of the present indices.
    pub fn attach_effective_position_inner(
        &mut self,
        idx: usize,
        new_eff_pos_q: i128,
        allow_spike: bool,
    ) -> (r: Result<(), RiskError>)
        requires
            idx < MAX_ACCOUNTS,
        ensures
            (*final(self), r) == old(self).attach_effective_position_inner_spec(
                idx as int,
                new_eff_pos_q,
                allow_spike,
            ),
    {
        reveal(RiskEngine::attach_effective_position_inner_spec);
        let old_basis: i128 = self.accounts[idx].position_basis_q;
        if let Some(old_side) = side_of_i128(old_basis) {
            let epoch_snap: u64 = self.accounts[idx].adl_epoch_snap;
            let a_basis: u128 = self.accounts[idx].adl_a_basis;
            if epoch_snap == self.get_epoch_side(old_side) && a_basis != 0 {
                let product = widening_mul(abs_i128(old_basis), self.get_a_side(old_side));
                let (_, rem) = div_rem_u256(product, U256::from_u128(a_basis));
                if !rem.is_zero() {
                    self.inc_phantom_dust_potential(old_side)?;
                }
            }
        }
        if new_eff_pos_q == 0 {
            return self.clear_position_basis_q(idx);
        }
        if abs_i128(new_eff_pos_q) > MAX_POSITION_ABS_Q {
            return Err(RiskError::Overflow);
        }
        let side = side_of_i128(new_eff_pos_q).ok_or(RiskError::CorruptState)?;
        self.validate_persistent_global_signed_shape()?;
        if allow_spike {
            self.set_position_basis_q_allow_spike(idx, new_eff_pos_q)?;
        } else {
            self.set_position_basis_q(idx, new_eff_pos_q)?;
        }
        let mut a = self.accounts[idx];
        a.adl_a_basis = self.get_a_side(side);
        a.adl_k_snap = self.get_k_side(side);
        a.f_snap = self.get_f_side(side);
        a.adl_epoch_snap = self.get_epoch_side(side);
        self.accounts[idx] = a;
        Ok(())
    }

    /// Gives account `i` an effective position within the cap of each side.
    pub open spec fn attach_effective_position_spec(self, i: int, new_eff: i128) -> (
        RiskEngine,
        Result<(), RiskError>,
    ) {
        self.attach_effective_position_inner_spec(i, new_eff, false)
    }

    /// Gives an account an effective position within the cap of each side.
    pub fn attach_effective_position(&mut self, idx: usize, new_eff_pos_q: i128) -> (r: Result<
        (),
        RiskError,
    >)
        requires
            idx < MAX_ACCOUNTS,
        ensures
            (*final(self), r) == old(self).attach_effective_position_spec(
                idx as int,
                new_eff_pos_q,
            ),
    {
        self.attach_effective_position_inner(idx, new_eff_pos_q, false)
    }

    /// Gives an account an effective position, and lets a side exceed its cap.
    pub fn attach_effective_position_allow_spike(&mut self, idx: usize, new_eff_pos_q: i128) -> (r:
        Result<(), RiskError>)
        requires
            idx < MAX_ACCOUNTS,
        ensures
            (*final(self), r) == old(self).attach_effective_position_inner_spec(
                idx as int,
                new_eff_pos_q,
                true,
            ),
    {
        self.attach_effective_position_inner(idx, new_eff_pos_q, true)
    }

    /// Profit of a position of `abs_basis` over a movement `dk` of the coefficient
    /// and `df` of the funding index, rounded down once.
    pub open spec fn kf_pnl_delta(abs_basis: int, dk: int, df: int, den: int) -> int {
        abs_basis * (dk * FUNDING_DEN + df) / (den * FUNDING_DEN)
    }

    /// That profit, if the exact product has 256 bits and the result is above the
    /// smallest signed integer.
    pub open spec fn kf_pnl_delta_checked(abs_basis: int, dk: int, df: int, den: int) -> Result<
        i128,
        RiskError,
    > {
        if abs_basis * crate::wide_math::abs_int(dk * FUNDING_DEN + df)
            >= crate::wide_math::two_pow_256() {
            Err(RiskError::Overflow)
        } else {
            RiskEngine::to_non_min_i128(RiskEngine::kf_pnl_delta(abs_basis, dk, df, den))
        }
    }

    /// Computes the profit of a position between two states of its side's indices.
    pub fn compute_kf_pnl_delta(
        abs_basis: u128,
        k_snap: i128,
        k_now: i128,
        f_snap: i128,
        f_now: i128,
        den: u128,
    ) -> (r: Result<i128, RiskError>)
        requires
            den > 0,
        ensures
            r == RiskEngine::kf_pnl_delta_checked(
                abs_basis as int,
                k_now - k_snap,
                f_now - f_snap,
                den as int,
            ),
    {
        proof {
            if abs_basis == 0 {
                lemma_zero_basis(k_now - k_snap, f_now - f_snap, den as int);
            }
        }
        Self::compute_kf_pnl_delta_wide(
            abs_basis,
            k_snap,
            I256::from_i128(k_now),
            f_snap,
            I256::from_i128(f_now),
            den,
        )
    }

    /// Whether a movement of the indices is computed without overflow.
    pub open spec fn kf_movement_fits(dk: int, df: int) -> bool {
        let bound = crate::wide_math::two_pow_255();
        &&& crate::wide_math::abs_int(dk * FUNDING_DEN) < bound
        &&& -bound <= df < bound
        &&& crate::wide_math::abs_int(dk * FUNDING_DEN + df) < bound
    }

    /// As `compute_kf_pnl_delta`, to a state of the indices of up to 256 bits.
    pub fn compute_kf_pnl_delta_wide(
        abs_basis: u128,
        k_snap: i128,
        k_now_wide: I256,
        f_snap: i128,
        f_now_wide: I256,
        den: u128,
    ) -> (r: Result<i128, RiskError>)
        requires
            den > 0,
        ensures
            r == if abs_basis == 0 {
                Ok(0)
            } else if !RiskEngine::kf_movement_fits(k_now_wide@ - k_snap, f_now_wide@ - f_snap) {
                Err(RiskError::Overflow)
            } else {
                RiskEngine::kf_pnl_delta_checked(
                    abs_basis as int,
                    k_now_wide@ - k_snap,
                    f_now_wide@ - f_snap,
                    den as int,
                )
            },
    {
        if abs_basis == 0 {
            return Ok(0);
        }
        let k_diff = k_now_wide.checked_sub(I256::from_i128(k_snap)).ok_or(RiskError::Overflow)?;
        let k_scaled = k_diff.checked_mul_i256(I256::from_u128(FUNDING_DEN)).ok_or(
            RiskError::Overflow,
        )?;
        if k_scaled.hi == i128::MIN && k_scaled.lo == 0 {
            return Err(RiskError::Overflow);
        }
        let f_diff = f_now_wide.checked_sub(I256::from_i128(f_snap)).ok_or(RiskError::Overflow)?;
        let combined = k_scaled.checked_add(f_diff).ok_or(RiskError::Overflow)?;
        if combined.hi == i128::MIN && combined.lo == 0 {
            return Err(RiskError::Overflow);
        }
        let negative: bool = combined.is_negative();
        let magnitude = combined.abs_u256();
        let den_wide = widening_mul(den, FUNDING_DEN);
        let p = U256::from_u128(abs_basis).checked_mul(magnitude).ok_or(RiskError::Overflow)?;
        let ghost signed = abs_basis * combined@;
        proof {
            assert(den_wide@ > 0) by (nonlinear_arith)
                requires
                    den_wide@ == den * FUNDING_DEN,
                    den > 0,
                    FUNDING_DEN > 0,
            ;
            assert(signed == (if negative {
                -p@
            } else {
                p@
            })) by (nonlinear_arith)
                requires
                    signed == abs_basis * combined@,
                    p@ == abs_basis * magnitude@,
                    combined@ == (if negative {
                        -magnitude@
                    } else {
                        magnitude@
                    }),
            ;
            if negative {
                lemma_floor_of_negative(p@, den_wide@);
            }
        }
        let (q, rem) = div_rem_u256(p, den_wide);
        if negative {
            let mag = if !rem.is_zero() {
                q.checked_add(U256::one()).ok_or(RiskError::Overflow)?
            } else {
                q
            };
            let mag_u128: u128 = mag.try_into_u128().ok_or(RiskError::Overflow)?;
            if mag_u128 > i128::MAX as u128 {
                return Err(RiskError::Overflow);
            }
            Ok(-(mag_u128 as i128))
        } else {
            let q_u128: u128 = q.try_into_u128().ok_or(RiskError::Overflow)?;
            if q_u128 > i128::MAX as u128 {
                return Err(RiskError::Overflow);
            }
            Ok(q_u128 as i128)
        }
    }

    /// Loss weight of a position.
    pub open spec fn loss_weight_for_basis_spec(abs_basis: u128, a_basis: u128) -> Result<
        u128,
        RiskError,
    > {
        let w = crate::wide_math::ceil_div(abs_basis * SOCIAL_WEIGHT_SCALE, a_basis as int);
        if abs_basis == 0 || a_basis == 0 {
            Err(RiskError::CorruptState)
        } else if w > SOCIAL_LOSS_DEN {
            Err(RiskError::Overflow)
        } else {
            Ok(w as u128)
        }
    }

    /// Computes the loss weight of a position, rounded up.
    pub fn loss_weight_for_basis(abs_basis: u128, a_basis: u128) -> (r: Result<u128, RiskError>)
        ensures
            r == RiskEngine::loss_weight_for_basis_spec(abs_basis, a_basis),
    {
        if abs_basis == 0 || a_basis == 0 {
            return Err(RiskError::CorruptState);
        }
        proof {
            let n = abs_basis * SOCIAL_WEIGHT_SCALE;
            crate::envelope_laws::lemma_ceil_bounds(n, a_basis as int);
            let c = crate::wide_math::ceil_div(n, a_basis as int);
            assert(n >= 1) by (nonlinear_arith)
                requires
                    n == abs_basis * SOCIAL_WEIGHT_SCALE,
                    abs_basis >= 1,
                    SOCIAL_WEIGHT_SCALE >= 1,
            ;
            assert(0 < c < n + a_basis) by (nonlinear_arith)
                requires
                    n <= a_basis * c,
                    a_basis * c < n + a_basis,
                    n >= 1,
                    a_basis >= 1,
            ;
        }
        let w: u128 = mul_div_ceil_u256(
            U256::from_u128(abs_basis),
            U256::from_u128(SOCIAL_WEIGHT_SCALE),
            U256::from_u128(a_basis),
        ).try_into_u128().ok_or(RiskError::Overflow)?;
        if w == 0 || w > SOCIAL_LOSS_DEN {
            return Err(RiskError::Overflow);
        }
        Ok(w)
    }

    /// Effective size of a position: the basis scaled by how the side's multiplier
    /// has shrunk since the position was attached, rounded down.
    pub open spec fn effective_abs(abs_basis: int, a_side: int, a_basis: int) -> int {
        abs_basis * a_side / a_basis
    }

    /// Effective position of account `i`.
    #[verifier::opaque]
    pub open spec fn effective_pos_q_spec(self, i: int, require_used: bool) -> Result<
        i128,
        RiskError,
    > {
        let a = self.accounts@[i];
        let basis = a.position_basis_q;
        let side = crate::sides::some_side(basis);
        if i >= MAX_ACCOUNTS || (require_used && !self.account_exists(i)) {
            Err(RiskError::AccountNotFound)
        } else if basis == 0 {
            Ok(0)
        } else if !self.epoch_ok(side, a.adl_epoch_snap) {
            Err(RiskError::CorruptState)
        } else if a.adl_epoch_snap != self.get_epoch_side(side) {
            Ok(0)
        } else if a.adl_a_basis == 0 {
            Err(RiskError::CorruptState)
        } else {
            let eff = RiskEngine::effective_abs(
                crate::wide_math::abs_int(basis as int),
                self.get_a_side(side) as int,
                a.adl_a_basis as int,
            );
            if eff > i128::MAX {
                Err(RiskError::CorruptState)
            } else if basis < 0 {
                Ok((-eff) as i128)
            } else {
                Ok(eff as i128)
            }
        }
    }

    /// Computes the effective position of an account.
    pub fn effective_pos_q_checked(&self, idx: usize, require_used: bool) -> (r: Result<
        i128,
        RiskError,
    >)
        ensures
            r == self.effective_pos_q_spec(idx as int, require_used),
    {
        reveal(RiskEngine::effective_pos_q_spec);
        if idx >= MAX_ACCOUNTS {
            return Err(RiskError::AccountNotFound);
        }
        if require_used && idx as u64 >= self.params.max_accounts {
            return Err(RiskError::AccountNotFound);
        }
        if require_used && !self.is_used(idx) {
            return Err(RiskError::AccountNotFound);
        }
        let basis: i128 = self.accounts[idx].position_basis_q;
        if basis == 0 {
            return Ok(0);
        }
        let side = side_of_i128(basis).ok_or(RiskError::CorruptState)?;
        let epoch_snap: u64 = self.accounts[idx].adl_epoch_snap;
        if !self.epoch_is_known(side, epoch_snap) {
            return Err(RiskError::CorruptState);
        }
        if epoch_snap != self.get_epoch_side(side) {
            return Ok(0);
        }
        let a_basis: u128 = self.accounts[idx].adl_a_basis;
        if a_basis == 0 {
            return Err(RiskError::CorruptState);
        }
        let product = widening_mul(abs_i128(basis), self.get_a_side(side));
        let (q, _) = div_rem_u256(product, U256::from_u128(a_basis));
        let effective_abs: u128 = q.try_into_u128().ok_or(RiskError::CorruptState)?;
        if effective_abs > i128::MAX as u128 {
            return Err(RiskError::CorruptState);
        }
        if basis < 0 {
            Ok(-(effective_abs as i128))
        } else {
            Ok(effective_abs as i128)
        }
    }

    /// Computes the effective position of an account of the market.
    pub fn try_effective_pos_q(&self, idx: usize) -> (r: Result<i128, RiskError>)
        ensures
            r == self.effective_pos_q_spec(idx as int, true),
    {
        self.effective_pos_q_checked(idx, true)
    }

    /// The effective position of a sound account.
    pub fn effective_pos_q(&self, idx: usize) -> (r: i128)
        requires
            self.effective_pos_q_spec(idx as int, false) is Ok,
        ensures
            self.effective_pos_q_spec(idx as int, false) == Ok::<i128, RiskError>(r),
    {
        match self.effective_pos_q_checked(idx, false) {
            Ok(v) => v,
            Err(_) => 0,
        }
    }

    /// The profit of account `i` after it has settled with these indices.
    pub open spec fn settled_pnl(self, i: int, k: i128, f: i128) -> Result<i128, RiskError> {
        let a = self.accounts@[i];
        let den = a.adl_a_basis * POS_SCALE;
        if den > u128::MAX {
            Err(RiskError::Overflow)
        } else {
            match RiskEngine::kf_pnl_delta_checked(
                crate::wide_math::abs_int(a.position_basis_q as int),
                k - a.adl_k_snap,
                f - a.f_snap,
                den,
            ) {
                Err(e) => Err(e),
                Ok(delta) => RiskEngine::to_non_min_i128(a.pnl + delta),
            }
        }
    }

    fn compute_settled_pnl(&self, idx: usize, k: i128, f: i128) -> (r: Result<i128, RiskError>)
        requires
            idx < MAX_ACCOUNTS,
            self.accounts@[idx as int].adl_a_basis != 0,
        ensures
            r == self.settled_pnl(idx as int, k, f),
    {
        let a = &self.accounts[idx];
        let den: u128 = a.adl_a_basis.checked_mul(POS_SCALE).ok_or(RiskError::Overflow)?;
        let pnl_delta: i128 = Self::compute_kf_pnl_delta(
            abs_i128(a.position_basis_q),
            a.adl_k_snap,
            k,
            a.f_snap,
            f,
            den,
        )?;
        let new_pnl: i128 = a.pnl.checked_add(pnl_delta).ok_or(RiskError::Overflow)?;
        if new_pnl == i128::MIN {
            return Err(RiskError::Overflow);
        }
        Ok(new_pnl)
    }

    /// Settles account `i`, whose position is of the side's epoch: profit moves with
    /// the indices, and a position that has shrunk to nothing is removed.
    pub open spec fn settle_current_epoch(self, i: int, ctx: InstructionContext) -> (
        RiskEngine,
        InstructionContext,
        Result<(), RiskError>,
    ) {
        let a = self.accounts@[i];
        let side = crate::sides::some_side(a.position_basis_q);
        let k = self.get_k_side(side);
        let f = self.get_f_side(side);
        match self.settled_pnl(i, k, f) {
            Err(e) => (self, ctx, Err(e)),
            Ok(new_pnl) => {
                let (s, c, r) = self.set_pnl_with_reserve_spec(
                    i,
                    new_pnl,
                    ReserveMode::UseAdmissionPair(ctx.admit_h_min_shared, ctx.admit_h_max_shared),
                    Some(ctx),
                );
                if r is Err {
                    (s, c->0, r)
                } else if RiskEngine::effective_abs(
                    crate::wide_math::abs_int(a.position_basis_q as int),
                    self.get_a_side(side) as int,
                    a.adl_a_basis as int,
                ) == 0 {
                    let (s2, r2) = s.inc_phantom_dust_potential_spec(side);
                    if r2 is Err {
                        (s2, c->0, r2)
                    } else {
                        let (s3, r3) = s2.clear_position_basis_q_spec(i);
                        (s3, c->0, r3)
                    }
                } else {
                    (
                        s.with_account(
                            i,
                            Account {
                                adl_k_snap: k,
                                f_snap: f,
                                adl_epoch_snap: self.get_epoch_side(side),
                                ..s.accounts@[i]
                            },
                        ),
                        c->0,
                        Ok(()),
                    )
                }
            },
        }
    }

    /// Settles account `i`, whose position is of the epoch before a reset: profit
    /// moves up to the end of that epoch, and the position is removed.
    pub open spec fn settle_stale_epoch(self, i: int, ctx: InstructionContext) -> (
        RiskEngine,
        InstructionContext,
        Result<(), RiskError>,
    ) {
        let a = self.accounts@[i];
        let side = crate::sides::some_side(a.position_basis_q);
        if !self.epoch_ok(side, a.adl_epoch_snap) {
            (self, ctx, Err(RiskError::CorruptState))
        } else {
            match self.settled_pnl(
                i,
                self.get_k_epoch_start(side),
                self.get_f_epoch_start(side),
            ) {
                Err(e) => (self, ctx, Err(e)),
                Ok(new_pnl) => if self.get_stale_count(side) == 0 {
                    (self, ctx, Err(RiskError::CorruptState))
                } else {
                    let (s, c, r) = self.set_pnl_with_reserve_spec(
                        i,
                        new_pnl,
                        ReserveMode::UseAdmissionPair(
                            ctx.admit_h_min_shared,
                            ctx.admit_h_max_shared,
                        ),
                        Some(ctx),
                    );
                    if r is Err {
                        (s, c->0, r)
                    } else {
                        let (s2, r2) = s.set_position_basis_q_spec(i, 0);
                        if r2 is Err {
                            (s2, c->0, r2)
                        } else {
                            (
                                s2.with_stale_count(
                                    side,
                                    (self.get_stale_count(side) - 1) as u64,
                                ).with_account(i, s2.accounts@[i].without_position()),
                                c->0,
                                Ok(()),
                            )
                        }
                    }
                },
            }
        }
    }

    /// Settles account `i` with the indices of its side.
    #[verifier::opaque]
    pub open spec fn settle_side_effects_live_spec(self, i: int, ctx: InstructionContext) -> (
        RiskEngine,
        InstructionContext,
        Result<(), RiskError>,
    ) {
        let a = self.accounts@[i];
        if a.position_basis_q == 0 {
            (self, ctx, Ok(()))
        } else if a.adl_a_basis == 0 {
            (self, ctx, Err(RiskError::CorruptState))
        } else if a.adl_epoch_snap == self.get_epoch_side(
            crate::sides::some_side(a.position_basis_q),
        ) {
            self.settle_current_epoch(i, ctx)
        } else {
            self.settle_stale_epoch(i, ctx)
        }
    }

    /// Settles an account with the indices of its side.
    pub fn settle_side_effects_live(&mut self, idx: usize, ctx: &mut InstructionContext) -> (r:
        Result<(), RiskError>)
        requires
            idx < MAX_ACCOUNTS,
            old(ctx).wf(),
        ensures
            (*final(self), *final(ctx), r) == old(self).settle_side_effects_live_spec(
                idx as int,
                *old(ctx),
            ),
            final(ctx).wf(),
    {
        reveal(RiskEngine::settle_side_effects_live_spec);
        let basis: i128 = self.accounts[idx].position_basis_q;
        let side = match side_of_i128(basis) {
            Some(s) => s,
            None => {
                return Ok(());
            },
        };
        let epoch_snap: u64 = self.accounts[idx].adl_epoch_snap;
        let epoch_side: u64 = self.get_epoch_side(side);
        let a_basis: u128 = self.accounts[idx].adl_a_basis;
        if a_basis == 0 {
            return Err(RiskError::CorruptState);
        }
        let mode = ReserveMode::UseAdmissionPair(ctx.admit_h_min_shared, ctx.admit_h_max_shared);
        if epoch_snap == epoch_side {
            let product = widening_mul(abs_i128(basis), self.get_a_side(side));
            let (q_eff_new, _) = div_rem_u256(product, U256::from_u128(a_basis));
            let k_side: i128 = self.get_k_side(side);
            let f_side: i128 = self.get_f_side(side);
            let new_pnl: i128 = self.compute_settled_pnl(idx, k_side, f_side)?;
            self.set_pnl_with_reserve(idx, new_pnl, mode, Some(ctx))?;
            if q_eff_new.is_zero() {
                self.inc_phantom_dust_potential(side)?;
                self.clear_position_basis_q(idx)?;
            } else {
                let mut a = self.accounts[idx];
                a.adl_k_snap = k_side;
                a.f_snap = f_side;
                a.adl_epoch_snap = epoch_side;
                self.accounts[idx] = a;
            }
        } else {
            if !self.epoch_is_known(side, epoch_snap) {
                return Err(RiskError::CorruptState);
            }
            let new_pnl: i128 = self.compute_settled_pnl(
                idx,
                self.get_k_epoch_start(side),
                self.get_f_epoch_start(side),
            )?;
            let new_stale: u64 = self.get_stale_count(side).checked_sub(1).ok_or(
                RiskError::CorruptState,
            )?;
            self.set_pnl_with_reserve(idx, new_pnl, mode, Some(ctx))?;
            self.set_position_basis_q(idx, 0)?;
            proof {
                reveal(RiskEngine::set_position_basis_q_inner_spec);
            }
            self.set_stale_count(side, new_stale);
            self.clear_snapshots(idx);
        }
        Ok(())
    }

    /// Refuses to move the present slot further than an exposed market can accrue.
    pub open spec fn check_live_accrual_envelope_spec(
        self,
        now_slot: u64,
    ) -> Result<(), RiskError> {
        if self.market_mode != MarketMode::Live {
            Err(RiskError::Unauthorized)
        } else if now_slot < self.current_slot {
            Err(RiskError::Overflow)
        } else if self.last_market_slot > self.current_slot {
            Err(RiskError::CorruptState)
        } else if (self.oi_eff_long_q != 0 || self.oi_eff_short_q != 0) && now_slot
            - self.last_market_slot > self.params.max_accrual_dt_slots {
            Err(RiskError::Overflow)
        } else {
            Ok(())
        }
    }

    /// Refuses to move the present slot further than an exposed market can accrue.
    pub fn check_live_accrual_envelope(&self, now_slot: u64) -> (r: Result<(), RiskError>)
        ensures
            r == self.check_live_accrual_envelope_spec(now_slot),
    {
        if self.market_mode != MarketMode::Live {
            return Err(RiskError::Unauthorized);
        }
        if now_slot < self.current_slot {
            return Err(RiskError::Overflow);
        }
        if self.last_market_slot > self.current_slot {
            return Err(RiskError::CorruptState);
        }
        if self.oi_eff_long_q == 0 && self.oi_eff_short_q == 0 {
            return Ok(());
        }
        let dt: u64 = now_slot.checked_sub(self.last_market_slot).ok_or(RiskError::Overflow)?;
        if dt > self.params.max_accrual_dt_slots {
            return Err(RiskError::Overflow);
        }
        Ok(())
    }
}

proof fn lemma_zero_basis(dk: int, df: int, den: int)
    requires
        den > 0,
    ensures
        RiskEngine::kf_pnl_delta_checked(0, dk, df, den) == Ok::<i128, RiskError>(0),
{
    let c = dk * FUNDING_DEN + df;
    assert(0 * c == 0 && 0 * crate::wide_math::abs_int(c) == 0) by (nonlinear_arith);
    assert(den * FUNDING_DEN > 0) by (nonlinear_arith)
        requires
            den > 0,
            FUNDING_DEN > 0,
    ;
    crate::wide_math::lemma_quotient_is(0, den * FUNDING_DEN, 0, 0);
}

proof fn lemma_floor_of_negative(p: int, d: int)
    requires
        p >= 0,
        d > 0,
    ensures
        (-p) / d == -crate::wide_math::ceil_div(p, d),
{
    vstd::arithmetic::div_mod::lemma_fundamental_div_mod(p, d);
    let q = p / d;
    let r = p % d;
    if r == 0 {
        assert(-p == (-q) * d + 0) by (nonlinear_arith)
            requires
                p == d * q + r,
                r == 0,
        ;
        crate::wide_math::lemma_quotient_is(-p, d, -q, 0);
    } else {
        assert(-p == (-q - 1) * d + (d - r)) by (nonlinear_arith)
            requires
                p == d * q + r,
        ;
        crate::wide_math::lemma_quotient_is(-p, d, -q - 1, d - r);
    }
}

} // verus!
