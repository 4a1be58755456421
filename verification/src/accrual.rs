//! Accrual of price movement and funding into the side indices.

use vstd::prelude::*;

use crate::constants::{
    ADL_ONE, MAX_ORACLE_PRICE, PRICE_MOVE_CONSUMPTION_SCALE, STRESS_CONSUMPTION_SCALE,
};
use crate::types::{AccrualSegmentPlan, MarketMode, RiskEngine, RiskError, RiskParams};
use crate::wide_math::{abs_i128, min_u128, min_u64, saturating_diff_u64, I256, U256};

verus! {

/// Moves a stored index by `mult * by`.
fn moved_index(base: i128, mult: u128, by: I256, down: bool) -> (r: Result<i128, RiskError>)
    ensures
        r == RiskEngine::to_non_min_i128(
            if down {
                base - mult * by@
            } else {
                base + mult * by@
            },
        ),
{
    let delta = match I256::from_u128(mult).checked_mul_i256(by) {
        Some(v) => v,
        None => return Err(RiskError::Overflow),
    };
    let moved = if down {
        I256::from_i128(base).checked_sub(delta)
    } else {
        I256::from_i128(base).checked_add(delta)
    };
    match moved {
        Some(v) => RiskEngine::try_into_non_min_i128(v),
        None => Err(RiskError::Overflow),
    }
}

proof fn lemma_product_of_three(a: u64, b: u64, c: u64)
    ensures
        0 <= a * b <= u128::MAX,
        0 <= a * b * c < crate::wide_math::two_pow_255() / 4,
{
    assert(0 <= a * b <= u64::MAX * u64::MAX) by (nonlinear_arith)
        requires
            0 <= a <= u64::MAX,
            0 <= b <= u64::MAX,
    ;
    assert(0 <= (a * b) * c <= (u64::MAX * u64::MAX) * u64::MAX) by (nonlinear_arith)
        requires
            0 <= a * b <= u64::MAX * u64::MAX,
            0 <= c <= u64::MAX,
    ;
}

/// Indices, price and slots that an accrual moves.
#[derive(Clone, Copy)]
pub struct Marks {
    pub k_long: i128,
    pub k_short: i128,
    pub f_long: i128,
    pub f_short: i128,
    pub current_slot: u64,
    pub last_market_slot: u64,
    pub last_oracle_price: u64,
    pub fund_px_last: u64,
}

impl RiskEngine {
    /// The engine with the indices, price and slots of an accrual replaced.
    pub open spec fn with_marks(self, m: Marks) -> RiskEngine {
        RiskEngine {
            adl_coeff_long: m.k_long,
            adl_coeff_short: m.k_short,
            f_long_num: m.f_long,
            f_short_num: m.f_short,
            current_slot: m.current_slot,
            last_market_slot: m.last_market_slot,
            last_oracle_price: m.last_oracle_price,
            fund_px_last: m.fund_px_last,
            ..self
        }
    }

    fn marks(&self) -> (r: Marks)
        ensures
            self.with_marks(r) == *self,
    {
        Marks {
            k_long: self.adl_coeff_long,
            k_short: self.adl_coeff_short,
            f_long: self.f_long_num,
            f_short: self.f_short_num,
            current_slot: self.current_slot,
            last_market_slot: self.last_market_slot,
            last_oracle_price: self.last_oracle_price,
            fund_px_last: self.fund_px_last,
        }
    }

    fn set_marks(&mut self, m: Marks)
        ensures
            *final(self) == old(self).with_marks(m),
    {
        self.adl_coeff_long = m.k_long;
        self.adl_coeff_short = m.k_short;
        self.f_long_num = m.f_long;
        self.f_short_num = m.f_short;
        self.current_slot = m.current_slot;
        self.last_market_slot = m.last_market_slot;
        self.last_oracle_price = m.last_oracle_price;
        self.fund_px_last = m.fund_px_last;
    }

    /// Whether any side holds open interest.
    #[verifier::allow_in_spec]
    pub fn exposed_market_has_oi(&self) -> bool
        returns
            self.oi_eff_long_q != 0 || self.oi_eff_short_q != 0,
    {
        self.oi_eff_long_q != 0 || self.oi_eff_short_q != 0
    }

    /// Whether funding at this rate moves value between the sides.
    #[verifier::allow_in_spec]
    pub fn funding_active(&self, funding_rate_e9: i128) -> bool
        returns
            funding_rate_e9 != 0 && self.oi_eff_long_q != 0 && self.oi_eff_short_q != 0
                && self.fund_px_last > 0,
    {
        funding_rate_e9 != 0 && self.oi_eff_long_q != 0 && self.oi_eff_short_q != 0
            && self.fund_px_last > 0
    }

    /// Whether a move to this price changes the value of a position.
    #[verifier::allow_in_spec]
    pub fn price_move_active(&self, oracle_price: u64) -> bool
        returns
            self.last_oracle_price > 0 && oracle_price != self.last_oracle_price
                && self.exposed_market_has_oi(),
    {
        self.last_oracle_price > 0 && oracle_price != self.last_oracle_price
            && self.exposed_market_has_oi()
    }

    /// Distance of a price from the last accepted one.
    pub open spec fn price_distance(self, oracle_price: u64) -> int {
        crate::wide_math::abs_int(oracle_price - self.last_oracle_price)
    }

    /// Whether a move to this price is within the cap for `dt` slots.
    pub open spec fn price_move_within_cap(self, oracle_price: u64, dt: u64) -> bool {
        self.price_distance(oracle_price) * 10_000 <= self.params.max_price_move_bps_per_slot * dt
            * self.last_oracle_price
    }

    /// Share of the last price that a move to this price covers, in basis points
    /// times a billion, rounded down.
    pub open spec fn price_move_share(self, oracle_price: u64) -> int {
        self.price_distance(oracle_price) * 10_000 * 1_000_000_000 / (
        self.last_oracle_price as int)
    }

    fn price_distance_u128(&self, oracle_price: u64) -> (r: u128)
        ensures
            r == self.price_distance(oracle_price),
            r <= u64::MAX,
    {
        if oracle_price >= self.last_oracle_price {
            (oracle_price - self.last_oracle_price) as u128
        } else {
            (self.last_oracle_price - oracle_price) as u128
        }
    }

    fn is_price_move_within_cap(&self, oracle_price: u64, dt: u64) -> (r: bool)
        ensures
            r == self.price_move_within_cap(oracle_price, dt),
    {
        let lhs = U256::from_u128(self.price_distance_u128(oracle_price) * 10_000);
        proof {
            lemma_product_of_three(
                self.params.max_price_move_bps_per_slot,
                dt,
                self.last_oracle_price,
            );
        }
        let rhs = U256::from_u128(self.params.max_price_move_bps_per_slot as u128).checked_mul(
            U256::from_u128(dt as u128),
        ).unwrap().checked_mul(U256::from_u128(self.last_oracle_price as u128)).unwrap();
        !rhs.is_below(lhs)
    }

    fn price_move_share_u128(&self, oracle_price: u64, scale: u128) -> (r: u128)
        requires
            self.last_oracle_price > 0,
            scale == 1_000_000_000,
        ensures
            r == self.price_move_share(oracle_price),
    {
        let scaled: u128 = self.price_distance_u128(oracle_price) * 10_000 * scale;
        scaled / self.last_oracle_price as u128
    }

    /// The side coefficients `K` after a move to this price.
    pub open spec fn marked_k(self, oracle_price: u64) -> Result<(i128, i128), RiskError> {
        let dp = oracle_price - self.last_oracle_price;
        let long = if dp != 0 && self.oi_eff_long_q != 0 {
            RiskEngine::to_non_min_i128(self.adl_coeff_long + self.adl_mult_long * dp)
        } else {
            Ok(self.adl_coeff_long)
        };
        let short = if dp != 0 && self.oi_eff_short_q != 0 {
            RiskEngine::to_non_min_i128(self.adl_coeff_short - self.adl_mult_short * dp)
        } else {
            Ok(self.adl_coeff_short)
        };
        match (long, short) {
            (Ok(l), Ok(s)) => Ok((l, s)),
            _ => Err(RiskError::Overflow),
        }
    }

    /// Funding per unit over `dt` slots.
    pub open spec fn funding_total(self, funding_rate_e9: i128, dt: u64) -> int {
        self.fund_px_last * funding_rate_e9 * dt
    }

    /// The side funding indices `F` after `dt` slots of funding.
    pub open spec fn funded_f(self, funding_rate_e9: i128, dt: u64) -> Result<
        (i128, i128),
        RiskError,
    > {
        let total = self.funding_total(funding_rate_e9, dt);
        if !self.funding_active(funding_rate_e9) || dt == 0 {
            Ok((self.f_long_num, self.f_short_num))
        } else if !(-crate::wide_math::two_pow_255() <= total
            < crate::wide_math::two_pow_255()) {
            Err(RiskError::Overflow)
        } else {
            match (
                RiskEngine::to_non_min_i128(self.f_long_num - self.adl_mult_long * total),
                RiskEngine::to_non_min_i128(self.f_short_num + self.adl_mult_short * total),
            ) {
                (Ok(l), Ok(s)) => Ok((l, s)),
                _ => Err(RiskError::Overflow),
            }
        }
    }

    fn mark_k(&self, oracle_price: u64) -> (r: Result<(i128, i128), RiskError>)
        ensures
            r == self.marked_k(oracle_price),
    {
        let mut k_long: i128 = self.adl_coeff_long;
        let mut k_short: i128 = self.adl_coeff_short;
        let delta_p: i128 = oracle_price as i128 - self.last_oracle_price as i128;
        if delta_p != 0 {
            let delta_p_wide = I256::from_i128(delta_p);
            if self.oi_eff_long_q != 0 {
                k_long = moved_index(k_long, self.adl_mult_long, delta_p_wide, false)?;
            }
            if self.oi_eff_short_q != 0 {
                k_short = moved_index(k_short, self.adl_mult_short, delta_p_wide, true)?;
            }
        }
        Ok((k_long, k_short))
    }

    fn fund_f(&self, funding_rate_e9: i128, dt: u64) -> (r: Result<(i128, i128), RiskError>)
        ensures
            r == self.funded_f(funding_rate_e9, dt),
    {
        if !self.funding_active(funding_rate_e9) || dt == 0 {
            return Ok((self.f_long_num, self.f_short_num));
        }
        assert(-u64::MAX * (i128::MAX + 1) <= self.fund_px_last * funding_rate_e9 <= u64::MAX * (
        i128::MAX + 1)) by (nonlinear_arith)
            requires
                0 <= self.fund_px_last <= u64::MAX,
                -(i128::MAX + 1) <= funding_rate_e9 <= i128::MAX + 1,
        ;
        let per_slot = I256::from_u128(self.fund_px_last as u128).checked_mul_i256(
            I256::from_i128(funding_rate_e9),
        ).unwrap();
        let total = match per_slot.checked_mul_i256(I256::from_u128(dt as u128)) {
            Some(v) => v,
            None => return Err(RiskError::Overflow),
        };
        let f_long: i128 = moved_index(self.f_long_num, self.adl_mult_long, total, true)?;
        let f_short: i128 = moved_index(self.f_short_num, self.adl_mult_short, total, false)?;
        Ok((f_long, f_short))
    }

    /// What an accrual to a slot, a price and a funding rate accepts, given a sound
    /// engine.
    pub open spec fn accrual_gate(self, now_slot: u64, oracle_price: u64, funding_rate_e9: i128)
        -> Result<(), RiskError> {
        if self.market_mode != MarketMode::Live {
            Err(RiskError::Unauthorized)
        } else if oracle_price == 0 || oracle_price > MAX_ORACLE_PRICE
            || crate::wide_math::abs_int(funding_rate_e9 as int)
            > self.params.max_abs_funding_e9_per_slot || now_slot < self.current_slot || now_slot
            < self.last_market_slot {
            Err(RiskError::Overflow)
        } else {
            Ok(())
        }
    }

    /// Whether the segment up to `dt` slots is bounded in time and in price.
    pub open spec fn segment_bounded(
        self,
        dt: u64,
        oracle_price: u64,
        funding_rate_e9: i128,
    ) -> bool {
        &&& self.funding_active(funding_rate_e9) || self.price_move_active(oracle_price) ==> dt
            <= self.params.max_accrual_dt_slots
        &&& self.price_move_active(oracle_price) ==> self.price_move_within_cap(oracle_price, dt)
    }

    /// The sum, or the largest value if it does not fit.
    pub open spec fn saturating_sum(a: u128, b: int) -> u128 {
        crate::wide_math::min_int(a + b, u128::MAX as int) as u128
    }

    /// A change that is taken back if it leaves an unsound state behind.
    pub open spec fn committed(self, after: RiskEngine) -> (RiskEngine, Result<(), RiskError>) {
        match after.public_post() {
            Err(e) => (self, Err(e)),
            Ok(_) => (after, Ok(())),
        }
    }

    /// Accrues to a slot, a price and a funding rate.
    #[verifier::opaque]
    pub open spec fn accrue_market_to_spec(
        self,
        now_slot: u64,
        oracle_price: u64,
        funding_rate_e9: i128,
    ) -> (RiskEngine, Result<(), RiskError>) {
        match self.public_post() {
            Err(e) => (self, Err(e)),
            Ok(_) => match self.accrual_gate(now_slot, oracle_price, funding_rate_e9) {
                Err(e) => (self, Err(e)),
                Ok(_) => {
                    let dt = (now_slot - self.last_market_slot) as u64;
                    if dt == 0 && self.last_oracle_price == oracle_price {
                        (RiskEngine { current_slot: now_slot, ..self }, Ok(()))
                    } else if !self.segment_bounded(dt, oracle_price, funding_rate_e9) {
                        (self, Err(RiskError::Overflow))
                    } else {
                        match (self.marked_k(oracle_price), self.funded_f(funding_rate_e9, dt)) {
                            (Ok(k), Ok(f)) => {
                                let consumed = if self.price_move_active(oracle_price) {
                                    self.price_move_share(oracle_price)
                                } else {
                                    0
                                };
                                let after = RiskEngine {
                                    price_move_consumed_bps_this_generation:
                                        RiskEngine::saturating_sum(
                                        self.price_move_consumed_bps_this_generation,
                                        consumed,
                                    ),
                                    ..self.with_marks(
                                        Marks {
                                            k_long: k.0,
                                            k_short: k.1,
                                            f_long: f.0,
                                            f_short: f.1,
                                            current_slot: now_slot,
                                            last_market_slot: now_slot,
                                            last_oracle_price: oracle_price,
                                            fund_px_last: oracle_price,
                                        },
                                    )
                                };
                                self.committed(after)
                            },
                            _ => (self, Err(RiskError::Overflow)),
                        }
                    }
                },
            },
        }
    }

    /// Accrues price movement and funding up to a slot.
    ///
    /// An exposed market moves by at most the cap per slot, and not at all within
    /// one slot. A refusal leaves the engine as it is.
    pub fn accrue_market_to(
        &mut self,
        now_slot: u64,
        oracle_price: u64,
        funding_rate_e9: i128,
    ) -> (r: Result<(), RiskError>)
        ensures
            (*final(self), r) == old(self).accrue_market_to_spec(
                now_slot,
                oracle_price,
                funding_rate_e9,
            ),
            r is Err ==> *final(self) == *old(self),
            r is Ok ==> final(self).public_post() is Ok,
            r is Ok ==> final(self).current_slot == now_slot,
    {
        reveal(RiskEngine::accrue_market_to_spec);
        self.assert_public_postconditions()?;
        if self.market_mode != MarketMode::Live {
            return Err(RiskError::Unauthorized);
        }
        if oracle_price == 0 || oracle_price > MAX_ORACLE_PRICE {
            return Err(RiskError::Overflow);
        }
        if abs_i128(funding_rate_e9) > self.params.max_abs_funding_e9_per_slot as u128 {
            return Err(RiskError::Overflow);
        }
        if now_slot < self.current_slot {
            return Err(RiskError::Overflow);
        }
        if now_slot < self.last_market_slot {
            return Err(RiskError::Overflow);
        }
        let total_dt: u64 = now_slot - self.last_market_slot;
        if total_dt == 0 && self.last_oracle_price == oracle_price {
            assert(now_slot == self.current_slot) by {
                reveal(RiskEngine::public_post);
            }
            self.current_slot = now_slot;
            return Ok(());
        }
        let price_move_active: bool = self.price_move_active(oracle_price);
        if (self.funding_active(funding_rate_e9) || price_move_active) && total_dt
            > self.params.max_accrual_dt_slots {
            return Err(RiskError::Overflow);
        }
        let mut consumed_this_step: u128 = 0;
        if price_move_active {
            if !self.is_price_move_within_cap(oracle_price, total_dt) {
                return Err(RiskError::Overflow);
            }
            consumed_this_step =
            self.price_move_share_u128(oracle_price, PRICE_MOVE_CONSUMPTION_SCALE);
        }
        let (k_long, k_short) = self.mark_k(oracle_price)?;
        let (f_long, f_short) = self.fund_f(funding_rate_e9, total_dt)?;
        let new_consumption: u128 = self.price_move_consumed_bps_this_generation.saturating_add(
            consumed_this_step,
        );
        let old_consumption: u128 = self.price_move_consumed_bps_this_generation;
        let before = self.marks();
        self.set_marks(
            Marks {
                k_long,
                k_short,
                f_long,
                f_short,
                current_slot: now_slot,
                last_market_slot: now_slot,
                last_oracle_price: oracle_price,
                fund_px_last: oracle_price,
            },
        );
        self.price_move_consumed_bps_this_generation = new_consumption;
        if let Err(e) = self.assert_public_postconditions() {
            self.set_marks(before);
            self.price_move_consumed_bps_this_generation = old_consumption;
            return Err(e);
        }
        Ok(())
    }

    /// Whether a pair of warmup horizons is one that an instruction may ask for.
    pub open spec fn admission_pair_ok(h_min: u64, h_max: u64, params: RiskParams) -> bool {
        &&& h_max > 0
        &&& params.h_min <= h_max <= params.h_max
        &&& h_min <= h_max
        &&& h_min > 0 ==> h_min >= params.h_min
    }

    /// Accepts a pair of warmup horizons.
    pub fn validate_admission_pair(admit_h_min: u64, admit_h_max: u64, params: &RiskParams) -> (r:
        Result<(), RiskError>)
        ensures
            r == if RiskEngine::admission_pair_ok(admit_h_min, admit_h_max, *params) {
                Ok::<(), RiskError>(())
            } else {
                Err(RiskError::Overflow)
            },
    {
        if admit_h_max == 0 {
            return Err(RiskError::Overflow);
        }
        if admit_h_max < params.h_min {
            return Err(RiskError::Overflow);
        }
        if admit_h_min > admit_h_max {
            return Err(RiskError::Overflow);
        }
        if admit_h_max > params.h_max {
            return Err(RiskError::Overflow);
        }
        if admit_h_min > 0 && admit_h_min < params.h_min {
            return Err(RiskError::Overflow);
        }
        Ok(())
    }

    /// Whether a consumption threshold is one that an instruction may ask for.
    pub open spec fn threshold_opt_ok(threshold_opt: Option<u128>) -> bool {
        match threshold_opt {
            None => true,
            Some(t) => t > 0 && t * 1_000_000_000 <= u128::MAX,
        }
    }

    /// Accepts a consumption threshold. With `None` there is none.
    pub fn validate_threshold_opt(threshold_opt: Option<u128>) -> (r: Result<(), RiskError>)
        ensures
            r == if RiskEngine::threshold_opt_ok(threshold_opt) {
                Ok::<(), RiskError>(())
            } else {
                Err(RiskError::Overflow)
            },
    {
        match threshold_opt {
            None => Ok(()),
            Some(t) => if t > 0 && t <= u128::MAX / PRICE_MOVE_CONSUMPTION_SCALE {
                Ok(())
            } else {
                Err(RiskError::Overflow)
            },
        }
    }

    /// Slots that the next bounded segment covers.
    pub open spec fn segment_dt(self, now_slot: u64) -> int {
        crate::wide_math::min_int(
            now_slot - self.last_market_slot,
            self.params.max_accrual_dt_slots as int,
        )
    }

    /// Largest step that the next bounded segment can take.
    pub open spec fn price_step_cap(self, now_slot: u64) -> int {
        self.last_oracle_price * self.params.max_price_move_bps_per_slot * self.segment_dt(now_slot)
            / 10_000
    }

    /// Largest step that the next bounded segment can take, if it fits.
    pub open spec fn bounded_price_step_cap_abs_spec(self, now_slot: u64) -> Result<
        u128,
        RiskError,
    > {
        if now_slot < self.last_market_slot || self.price_step_cap(now_slot) > u128::MAX {
            Err(RiskError::Overflow)
        } else {
            Ok(self.price_step_cap(now_slot) as u128)
        }
    }

    /// Computes the largest step that the next bounded segment can take.
    pub fn bounded_price_step_cap_abs(&self, now_slot: u64) -> (r: Result<u128, RiskError>)
        ensures
            r == self.bounded_price_step_cap_abs_spec(now_slot),
    {
        if now_slot < self.last_market_slot {
            return Err(RiskError::Overflow);
        }
        let remaining_dt: u64 = now_slot - self.last_market_slot;
        let segment_dt: u64 = min_u64(remaining_dt, self.params.max_accrual_dt_slots);
        if segment_dt == 0 {
            assert(self.last_oracle_price * self.params.max_price_move_bps_per_slot
                * self.segment_dt(now_slot) == 0) by (nonlinear_arith)
                requires
                    self.segment_dt(now_slot) == 0,
            ;
            return Ok(0);
        }
        proof {
            lemma_product_of_three(
                self.last_oracle_price,
                self.params.max_price_move_bps_per_slot,
                segment_dt,
            );
        }
        U256::from_u128(self.last_oracle_price as u128).checked_mul(
            U256::from_u128(self.params.max_price_move_bps_per_slot as u128),
        ).unwrap().checked_mul(U256::from_u128(segment_dt as u128)).unwrap().checked_div(
            U256::from_u128(10_000u128),
        ).unwrap().try_into_u128().ok_or(RiskError::Overflow)
    }

    /// Slot that the next bounded segment reaches.
    pub fn bounded_accrual_slot_for_now(&self, now_slot: u64) -> (r: Result<u64, RiskError>)
        ensures
            r == if now_slot < self.last_market_slot {
                Err::<u64, RiskError>(RiskError::Overflow)
            } else {
                Ok((self.last_market_slot + self.segment_dt(now_slot)) as u64)
            },
    {
        if now_slot < self.last_market_slot {
            return Err(RiskError::Overflow);
        }
        let remaining_dt: u64 = now_slot - self.last_market_slot;
        let segment_dt: u64 = min_u64(remaining_dt, self.params.max_accrual_dt_slots);
        Ok(self.last_market_slot + segment_dt)
    }

    /// Price that one bounded step from the last price towards a target reaches.
    pub open spec fn bounded_price_step_spec(self, now_slot: u64, target: u64) -> Result<
        u64,
        RiskError,
    > {
        if target == 0 || target > MAX_ORACLE_PRICE || self.last_oracle_price == 0
            || self.last_oracle_price > MAX_ORACLE_PRICE {
            Err(RiskError::Overflow)
        } else {
            match self.bounded_price_step_cap_abs_spec(now_slot) {
                Err(e) => Err(e),
                Ok(cap) => {
                    let step = crate::wide_math::min_int(self.price_distance(target), cap as int);
                    if target > self.last_oracle_price {
                        Ok((self.last_oracle_price + step) as u64)
                    } else {
                        Ok((self.last_oracle_price - step) as u64)
                    }
                },
            }
        }
    }

    /// Computes the price that one bounded step towards a target reaches.
    pub fn bounded_price_step_toward_raw_target(
        &self,
        now_slot: u64,
        authenticated_raw_target_price: u64,
    ) -> (r: Result<u64, RiskError>)
        ensures
            r == self.bounded_price_step_spec(now_slot, authenticated_raw_target_price),
    {
        if authenticated_raw_target_price == 0 || authenticated_raw_target_price > MAX_ORACLE_PRICE
            || self.last_oracle_price == 0 || self.last_oracle_price > MAX_ORACLE_PRICE {
            return Err(RiskError::Overflow);
        }
        let cap_abs: u128 = self.bounded_price_step_cap_abs(now_slot)?;
        let p_last: u64 = self.last_oracle_price;
        let step: u64 = min_u128(
            self.price_distance_u128(authenticated_raw_target_price),
            cap_abs,
        ) as u64;
        if authenticated_raw_target_price > p_last {
            Ok(p_last + step)
        } else {
            Ok(p_last - step)
        }
    }

    /// Whether `K` keeps room for a mark of the largest price.
    pub open spec fn k_headroom_spec(a: u128, k: i128) -> Result<(), RiskError> {
        if a == 0 || a > ADL_ONE {
            Err(RiskError::CorruptState)
        } else if crate::wide_math::abs_int(k as int) + a * MAX_ORACLE_PRICE > i128::MAX {
            Err(RiskError::Overflow)
        } else {
            Ok(())
        }
    }

    /// Accepts a `K` that keeps room for a mark of the largest price.
    pub fn validate_k_future_headroom(a: u128, k: i128) -> (r: Result<(), RiskError>)
        ensures
            r == RiskEngine::k_headroom_spec(a, k),
    {
        if a == 0 || a > ADL_ONE {
            return Err(RiskError::CorruptState);
        }
        let mark: u128 = a * MAX_ORACLE_PRICE as u128;
        let used: u128 = abs_i128(k) + mark;
        if used > i128::MAX as u128 {
            return Err(RiskError::Overflow);
        }
        Ok(())
    }

    /// Largest movement of `F` in one segment.
    pub open spec fn f_headroom(self, a: u128) -> int {
        a * MAX_ORACLE_PRICE * self.params.max_abs_funding_e9_per_slot
            * self.params.max_accrual_dt_slots
    }

    /// Whether `F` keeps room for a segment at the largest rate and price.
    pub open spec fn f_headroom_spec(self, a: u128, f: i128) -> Result<(), RiskError> {
        if a == 0 || a > ADL_ONE {
            Err(RiskError::CorruptState)
        } else if crate::wide_math::abs_int(f as int) + self.f_headroom(a) > i128::MAX {
            Err(RiskError::Overflow)
        } else {
            Ok(())
        }
    }

    /// Accepts an `F` that keeps room for a segment at the largest rate and price.
    pub fn validate_f_future_headroom(&self, a: u128, f: i128) -> (r: Result<(), RiskError>)
        ensures
            r == self.f_headroom_spec(a, f),
    {
        if a == 0 || a > ADL_ONE {
            return Err(RiskError::CorruptState);
        }
        assert(a * MAX_ORACLE_PRICE <= ADL_ONE * MAX_ORACLE_PRICE);
        let mark = U256::from_u128(a * MAX_ORACLE_PRICE as u128);
        let rate: u64 = self.params.max_abs_funding_e9_per_slot;
        let dt: u64 = self.params.max_accrual_dt_slots;
        proof {
            assert(0 <= mark@ * rate <= ADL_ONE * MAX_ORACLE_PRICE * u64::MAX) by (nonlinear_arith)
                requires
                    0 <= mark@ <= ADL_ONE * MAX_ORACLE_PRICE,
                    0 <= rate <= u64::MAX,
            ;
            assert(0 <= (mark@ * rate) * dt <= (ADL_ONE * MAX_ORACLE_PRICE * u64::MAX) * u64::MAX)
                by (nonlinear_arith)
                requires
                    0 <= mark@ * rate <= ADL_ONE * MAX_ORACLE_PRICE * u64::MAX,
                    0 <= dt <= u64::MAX,
            ;
        }
        let headroom = mark.checked_mul(U256::from_u128(rate as u128)).unwrap().checked_mul(
            U256::from_u128(dt as u128),
        ).unwrap();
        let used = U256::from_u128(abs_i128(f)).checked_add(headroom).unwrap();
        if U256::from_u128(i128::MAX as u128).is_below(used) {
            return Err(RiskError::Overflow);
        }
        Ok(())
    }

    /// Whether all four indices keep room for a further segment.
    pub open spec fn kf_headroom_spec(self, k: (i128, i128), f: (i128, i128)) -> Result<
        (),
        RiskError,
    > {
        match RiskEngine::k_headroom_spec(self.adl_mult_long, k.0) {
            Err(e) => Err(e),
            Ok(_) => match RiskEngine::k_headroom_spec(self.adl_mult_short, k.1) {
                Err(e) => Err(e),
                Ok(_) => match self.f_headroom_spec(self.adl_mult_long, f.0) {
                    Err(e) => Err(e),
                    Ok(_) => self.f_headroom_spec(self.adl_mult_short, f.1),
                },
            },
        }
    }

    /// Accepts indices that keep room for a further segment.
    pub fn validate_live_kf_future_headroom(
        &self,
        k_long: i128,
        k_short: i128,
        f_long: i128,
        f_short: i128,
    ) -> (r: Result<(), RiskError>)
        ensures
            r == self.kf_headroom_spec((k_long, k_short), (f_long, f_short)),
    {
        Self::validate_k_future_headroom(self.adl_mult_long, k_long)?;
        Self::validate_k_future_headroom(self.adl_mult_short, k_short)?;
        self.validate_f_future_headroom(self.adl_mult_long, f_long)?;
        self.validate_f_future_headroom(self.adl_mult_short, f_short)?;
        Ok(())
    }

    /// Stress that a segment consumes: its price movement and its funding, in basis
    /// points times a billion.
    pub open spec fn segment_stress(
        self,
        dt: u64,
        oracle_price: u64,
        funding_rate_e9: i128,
    ) -> u128 {
        let price = if self.price_move_active(oracle_price) {
            self.price_move_share(oracle_price)
        } else {
            0
        };
        let funding = if self.funding_active(funding_rate_e9) {
            crate::wide_math::abs_int(funding_rate_e9 as int) * dt * 10_000
        } else {
            0
        };
        crate::wide_math::min_int(price + funding, u128::MAX as int) as u128
    }

    /// Plans one accrual segment.
    #[verifier::opaque]
    pub open spec fn plan_accrual_segment_spec(
        self,
        accrual_slot: u64,
        oracle_price: u64,
        funding_rate_e9: i128,
    ) -> Result<AccrualSegmentPlan, RiskError> {
        let dt = (accrual_slot - self.last_market_slot) as u64;
        if accrual_slot < self.last_market_slot || !self.segment_bounded(
            dt,
            oracle_price,
            funding_rate_e9,
        ) {
            Err(RiskError::Overflow)
        } else {
            match (self.marked_k(oracle_price), self.funded_f(funding_rate_e9, dt)) {
                (Ok(k), Ok(f)) => match self.kf_headroom_spec(k, f) {
                    Err(e) => Err(e),
                    Ok(_) => Ok(
                        AccrualSegmentPlan {
                            k_long: k.0,
                            k_short: k.1,
                            f_long: f.0,
                            f_short: f.1,
                            consumed_this_step: self.segment_stress(
                                dt,
                                oracle_price,
                                funding_rate_e9,
                            ),
                        },
                    ),
                },
                _ => Err(RiskError::Overflow),
            }
        }
    }

    /// Funding that a segment consumes, or the largest value if it does not fit.
    fn funding_share(funding_rate_e9: i128, dt: u64) -> (r: u128)
        ensures
            r == crate::wide_math::min_int(
                crate::wide_math::abs_int(funding_rate_e9 as int) * dt * 10_000,
                u128::MAX as int,
            ),
    {
        let rate: u128 = abs_i128(funding_rate_e9);
        assert(0 <= rate * dt <= u128::MAX * u64::MAX) by (nonlinear_arith)
            requires
                0 <= rate <= u128::MAX,
                0 <= dt <= u64::MAX,
        ;
        let wide = U256::from_u128(rate).checked_mul(
            U256::from_u128(dt as u128),
        ).unwrap().checked_mul(U256::from_u128(10_000u128)).unwrap();
        match wide.try_into_u128() {
            Some(v) => v,
            None => u128::MAX,
        }
    }

    /// Plans one accrual segment, without a change to the engine.
    pub fn plan_accrual_segment(
        &self,
        accrual_slot: u64,
        oracle_price: u64,
        funding_rate_e9: i128,
    ) -> (r: Result<AccrualSegmentPlan, RiskError>)
        ensures
            r == self.plan_accrual_segment_spec(accrual_slot, oracle_price, funding_rate_e9),
    {
        reveal(RiskEngine::plan_accrual_segment_spec);
        if accrual_slot < self.last_market_slot {
            return Err(RiskError::Overflow);
        }
        let total_dt: u64 = accrual_slot - self.last_market_slot;
        let funding_active: bool = self.funding_active(funding_rate_e9);
        let price_move_active: bool = self.price_move_active(oracle_price);
        if (funding_active || price_move_active) && total_dt > self.params.max_accrual_dt_slots {
            return Err(RiskError::Overflow);
        }
        let mut price_consumed_bps_e9: u128 = 0;
        if price_move_active {
            if !self.is_price_move_within_cap(oracle_price, total_dt) {
                return Err(RiskError::Overflow);
            }
            price_consumed_bps_e9 =
            self.price_move_share_u128(oracle_price, STRESS_CONSUMPTION_SCALE);
        }
        let mut funding_consumed_bps_e9: u128 = 0;
        if funding_active && total_dt > 0 {
            funding_consumed_bps_e9 = Self::funding_share(funding_rate_e9, total_dt);
        }
        let consumed_this_step: u128 = price_consumed_bps_e9.saturating_add(
            funding_consumed_bps_e9,
        );
        let (k_long, k_short) = self.mark_k(oracle_price)?;
        let (f_long, f_short) = self.fund_f(funding_rate_e9, total_dt)?;
        self.validate_live_kf_future_headroom(k_long, k_short, f_long, f_short)?;
        assert(crate::wide_math::abs_int(funding_rate_e9 as int) * total_dt >= 0) by (
        nonlinear_arith)
            requires
                crate::wide_math::abs_int(funding_rate_e9 as int) >= 0,
                total_dt >= 0,
        ;
        assert(total_dt == 0 ==> crate::wide_math::abs_int(funding_rate_e9 as int) * total_dt == 0)
            by (nonlinear_arith);
        Ok(AccrualSegmentPlan { k_long, k_short, f_long, f_short, consumed_this_step })
    }

    /// The engine after a planned segment.
    pub open spec fn with_segment(
        self,
        plan: AccrualSegmentPlan,
        accrual_slot: u64,
        current_slot_after: u64,
        stress_start_slot_after: u64,
        oracle_price: u64,
    ) -> RiskEngine {
        let base = RiskEngine {
            stress_consumed_bps_e9_since_envelope: RiskEngine::saturating_sum(
                self.stress_consumed_bps_e9_since_envelope,
                plan.consumed_this_step as int,
            ),
            ..self.with_marks(
                Marks {
                    k_long: plan.k_long,
                    k_short: plan.k_short,
                    f_long: plan.f_long,
                    f_short: plan.f_short,
                    current_slot: current_slot_after,
                    last_market_slot: accrual_slot,
                    last_oracle_price: oracle_price,
                    fund_px_last: oracle_price,
                },
            )
        };
        if plan.consumed_this_step > 0 {
            RiskEngine {
                stress_envelope_remaining_indices: self.params.max_accounts,
                stress_envelope_start_slot: stress_start_slot_after,
                stress_envelope_start_generation: self.sweep_generation,
                ..base
            }
        } else {
            base
        }
    }

    /// Plans and commits one accrual segment.
    #[verifier::opaque]
    pub open spec fn accrue_market_segment_spec(
        self,
        accrual_slot: u64,
        current_slot_after: u64,
        stress_start_slot_after: u64,
        oracle_price: u64,
        funding_rate_e9: i128,
    ) -> (RiskEngine, Result<(), RiskError>) {
        if self.market_mode != MarketMode::Live {
            (self, Err(RiskError::Unauthorized))
        } else if oracle_price == 0 || oracle_price > MAX_ORACLE_PRICE
            || crate::wide_math::abs_int(funding_rate_e9 as int)
            > self.params.max_abs_funding_e9_per_slot || current_slot_after < self.current_slot
            || accrual_slot < self.last_market_slot || accrual_slot > current_slot_after
            || stress_start_slot_after > current_slot_after {
            (self, Err(RiskError::Overflow))
        } else {
            match self.plan_accrual_segment_spec(accrual_slot, oracle_price, funding_rate_e9) {
                Err(e) => (self, Err(e)),
                Ok(plan) => {
                    let after = self.with_segment(
                        plan,
                        accrual_slot,
                        current_slot_after,
                        stress_start_slot_after,
                        oracle_price,
                    );
                    self.committed(after)
                },
            }
        }
    }

    /// Plans and commits one accrual segment, and opens a stress envelope if the
    /// segment consumed any stress. A refusal leaves the engine as it is.
    pub fn accrue_market_segment_to_internal(
        &mut self,
        accrual_slot: u64,
        current_slot_after: u64,
        stress_start_slot_after: u64,
        oracle_price: u64,
        funding_rate_e9: i128,
    ) -> (r: Result<(), RiskError>)
        ensures
            (*final(self), r) == old(self).accrue_market_segment_spec(
                accrual_slot,
                current_slot_after,
                stress_start_slot_after,
                oracle_price,
                funding_rate_e9,
            ),
            r is Err ==> *final(self) == *old(self),
            r is Ok ==> final(self).public_post() is Ok,
    {
        reveal(RiskEngine::accrue_market_segment_spec);
        if self.market_mode != MarketMode::Live {
            return Err(RiskError::Unauthorized);
        }
        if oracle_price == 0 || oracle_price > MAX_ORACLE_PRICE {
            return Err(RiskError::Overflow);
        }
        if abs_i128(funding_rate_e9) > self.params.max_abs_funding_e9_per_slot as u128 {
            return Err(RiskError::Overflow);
        }
        if current_slot_after < self.current_slot {
            return Err(RiskError::Overflow);
        }
        if accrual_slot < self.last_market_slot {
            return Err(RiskError::Overflow);
        }
        if accrual_slot > current_slot_after || stress_start_slot_after > current_slot_after {
            return Err(RiskError::Overflow);
        }
        let plan = self.plan_accrual_segment(accrual_slot, oracle_price, funding_rate_e9)?;
        let new_stress_consumed: u128 = self.stress_consumed_bps_e9_since_envelope.saturating_add(
            plan.consumed_this_step,
        );
        let before = self.marks();
        let old_stress_consumed: u128 = self.stress_consumed_bps_e9_since_envelope;
        let old_remaining: u64 = self.stress_envelope_remaining_indices;
        let old_start_slot: u64 = self.stress_envelope_start_slot;
        let old_start_generation: u64 = self.stress_envelope_start_generation;
        if plan.consumed_this_step > 0 {
            self.stress_envelope_remaining_indices = self.params.max_accounts;
            self.stress_envelope_start_slot = stress_start_slot_after;
            self.stress_envelope_start_generation = self.sweep_generation;
        }
        self.set_marks(
            Marks {
                k_long: plan.k_long,
                k_short: plan.k_short,
                f_long: plan.f_long,
                f_short: plan.f_short,
                current_slot: current_slot_after,
                last_market_slot: accrual_slot,
                last_oracle_price: oracle_price,
                fund_px_last: oracle_price,
            },
        );
        self.stress_consumed_bps_e9_since_envelope = new_stress_consumed;
        if let Err(e) = self.assert_public_postconditions() {
            self.set_marks(before);
            self.stress_consumed_bps_e9_since_envelope = old_stress_consumed;
            self.stress_envelope_remaining_indices = old_remaining;
            self.stress_envelope_start_slot = old_start_slot;
            self.stress_envelope_start_generation = old_start_generation;
            return Err(e);
        }
        Ok(())
    }

    /// Whether the next accrual moves value between accounts.
    #[verifier::allow_in_spec]
    pub fn keeper_accrual_is_equity_active(
        &self,
        now_slot: u64,
        oracle_price: u64,
        funding_rate_e9: i128,
    ) -> bool
        returns
            self.price_move_active(oracle_price) || (now_slot > self.last_market_slot
                && self.funding_active(funding_rate_e9)),
    {
        let total_dt: u64 = saturating_diff_u64(now_slot, self.last_market_slot);
        self.price_move_active(oracle_price) || (total_dt > 0 && self.funding_active(
            funding_rate_e9,
        ))
    }
}

} // verus!
