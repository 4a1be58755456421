//! Trades between two accounts.

use vstd::prelude::*;

use crate::constants::{
    MAX_ACCOUNTS, MAX_ACCOUNT_NOTIONAL, MAX_ORACLE_PRICE, MAX_TRADE_SIZE_Q, POS_SCALE,
};
use crate::equity::requirement_as_i256;
use crate::sides::side_of_i128;
use crate::types::{MarketMode, RiskEngine, RiskError, SideMode};
use crate::wide_math::{
    abs_i128, ceil_div_positive_checked, div_rem_u256, mul_div_floor_u128, widening_mul, I256, U256,
};

verus! {

/// The product, if its magnitude fits.
pub open spec fn mul_u128_i128_spec(a: u128, b: i128) -> Result<i128, RiskError> {
    if crate::wide_math::abs_int(a * b) > i128::MAX {
        Err(RiskError::Overflow)
    } else {
        Ok((a * b) as i128)
    }
}

/// Multiplies, if the magnitude of the product fits.
pub fn checked_u128_mul_i128(a: u128, b: i128) -> (r: Result<i128, RiskError>)
    ensures
        r == mul_u128_i128_spec(a, b),
{
    if a == 0 || b == 0 {
        assert(a * b == 0) by (nonlinear_arith)
            requires
                a == 0 || b == 0,
        ;
        return Ok(0);
    }
    if b == i128::MIN {
        assert(a * b <= i128::MIN) by (nonlinear_arith)
            requires
                a >= 1,
                b == i128::MIN,
        ;
        return Err(RiskError::Overflow);
    }
    let abs_b: u128 = abs_i128(b);
    assert(a * abs_b >= 0 && (b < 0 ==> a * b == -(a * abs_b)) && (b >= 0 ==> a * b == a * abs_b))
        by (nonlinear_arith)
        requires
            a >= 0,
            abs_b == if b < 0 {
                -(b as int)
            } else {
                b as int
            },
    ;
    match widening_mul(a, abs_b).try_into_u128() {
        Some(v) => if v <= i128::MAX as u128 {
            if b < 0 {
                Ok(-(v as i128))
            } else {
                Ok(v as i128)
            }
        } else {
            Err(RiskError::Overflow)
        },
        None => Err(RiskError::Overflow),
    }
}

/// Profit of a quantity over a price difference, rounded down.
pub open spec fn trade_pnl_of(size_q: int, price_diff: int) -> int {
    size_q * price_diff / (POS_SCALE as int)
}

/// Profit of a quantity over a price difference, rounded down, if its magnitude fits.
pub open spec fn trade_pnl_spec(size_q: i128, price_diff: i128) -> Result<i128, RiskError> {
    let v = trade_pnl_of(size_q as int, price_diff as int);
    if crate::wide_math::abs_int(v) > i128::MAX {
        Err(RiskError::Overflow)
    } else {
        Ok(v as i128)
    }
}

/// Computes the profit of a quantity over a price difference, rounded down.
pub fn compute_trade_pnl(size_q: i128, price_diff: i128) -> (r: Result<i128, RiskError>)
    ensures
        r == trade_pnl_spec(size_q, price_diff),
{
    if size_q == 0 || price_diff == 0 {
        assert(size_q * price_diff == 0) by (nonlinear_arith)
            requires
                size_q == 0 || price_diff == 0,
        ;
        return Ok(0);
    }
    let result_negative: bool = (size_q < 0) != (price_diff < 0);
    let abs_size: u128 = abs_i128(size_q);
    let abs_price: u128 = abs_i128(price_diff);
    let (q, rem) = div_rem_u256(widening_mul(abs_size, abs_price), U256::from_u128(POS_SCALE));
    proof {
        let p = abs_size * abs_price;
        let d = POS_SCALE as int;
        assert(p >= 0 && size_q * price_diff == if result_negative {
            -p
        } else {
            p
        }) by (nonlinear_arith)
            requires
                p == abs_size * abs_price,
                abs_size == if size_q < 0 {
                    -(size_q as int)
                } else {
                    size_q as int
                },
                abs_price == if price_diff < 0 {
                    -(price_diff as int)
                } else {
                    price_diff as int
                },
                result_negative == ((size_q < 0) != (price_diff < 0)),
        ;
        vstd::arithmetic::div_mod::lemma_fundamental_div_mod(p, d);
        if result_negative {
            if rem@ == 0 {
                crate::wide_math::lemma_quotient_is(-p, d, -q@, 0);
            } else {
                crate::wide_math::lemma_quotient_is(-p, d, -q@ - 1, d - rem@);
            }
        }
        assert(q@ < crate::wide_math::two_pow_256() - 1);
    }
    let mag = if result_negative && !rem.is_zero() {
        q.checked_add(U256::one()).unwrap()
    } else {
        q
    };
    match mag.try_into_u128() {
        Some(v) => if v <= i128::MAX as u128 {
            if result_negative {
                Ok(-(v as i128))
            } else {
                Ok(v as i128)
            }
        } else {
            Err(RiskError::Overflow)
        },
        None => Err(RiskError::Overflow),
    }
}

impl RiskEngine {
    /// What a trade accepts.
    #[verifier::opaque]
    pub open spec fn trade_entry_spec(
        self,
        a: u16,
        b: u16,
        oracle_price: u64,
        now_slot: u64,
        size_q: i128,
        exec_price: u64,
        trade_fee_bps: u64,
        h_min: u64,
        h_max: u64,
        threshold_opt: Option<u128>,
    ) -> Result<(), RiskError> {
        if !RiskEngine::admission_pair_ok(h_min, h_max, self.params)
            || !RiskEngine::threshold_opt_ok(threshold_opt) || oracle_price == 0 || oracle_price
            > MAX_ORACLE_PRICE || exec_price == 0 || exec_price > MAX_ORACLE_PRICE || trade_fee_bps
            > self.params.max_trading_fee_bps || !(0 < size_q <= MAX_TRADE_SIZE_Q) {
            Err(RiskError::Overflow)
        } else if !self.account_exists(a as int) || !self.account_exists(b as int) {
            Err(RiskError::AccountNotFound)
        } else if a == b {
            Err(RiskError::Overflow)
        } else if self.market_mode != MarketMode::Live {
            Err(RiskError::Unauthorized)
        } else if now_slot < self.current_slot || now_slot < self.last_market_slot {
            Err(RiskError::Overflow)
        } else {
            Ok(())
        }
    }

    /// Accepts a trade of two accounts.
    pub fn validate_execute_trade_entry(
        &self,
        a: u16,
        b: u16,
        oracle_price: u64,
        now_slot: u64,
        size_q: i128,
        exec_price: u64,
        trade_fee_bps: u64,
        admit_h_min: u64,
        admit_h_max: u64,
        admit_h_max_consumption_threshold_bps_opt: Option<u128>,
    ) -> (r: Result<(), RiskError>)
        ensures
            r == self.trade_entry_spec(
                a,
                b,
                oracle_price,
                now_slot,
                size_q,
                exec_price,
                trade_fee_bps,
                admit_h_min,
                admit_h_max,
                admit_h_max_consumption_threshold_bps_opt,
            ),
    {
        reveal(RiskEngine::trade_entry_spec);
        Self::validate_admission_pair(admit_h_min, admit_h_max, &self.params)?;
        Self::validate_threshold_opt(admit_h_max_consumption_threshold_bps_opt)?;
        if oracle_price == 0 || oracle_price > MAX_ORACLE_PRICE {
            return Err(RiskError::Overflow);
        }
        if exec_price == 0 || exec_price > MAX_ORACLE_PRICE {
            return Err(RiskError::Overflow);
        }
        if trade_fee_bps > self.params.max_trading_fee_bps {
            return Err(RiskError::Overflow);
        }
        if size_q <= 0 {
            return Err(RiskError::Overflow);
        }
        if size_q as u128 > MAX_TRADE_SIZE_Q {
            return Err(RiskError::Overflow);
        }
        proof {
            lemma_notional_bound(size_q as int, exec_price as int);
        }
        let trade_notional: u128 = mul_div_floor_u128(
            size_q as u128,
            exec_price as u128,
            POS_SCALE,
        );
        if trade_notional > MAX_ACCOUNT_NOTIONAL {
            return Err(RiskError::Overflow);
        }
        self.validate_used_account_slot(a as usize)?;
        self.validate_used_account_slot(b as usize)?;
        if a == b {
            return Err(RiskError::Overflow);
        }
        if self.market_mode != MarketMode::Live {
            return Err(RiskError::Unauthorized);
        }
        if now_slot < self.current_slot {
            return Err(RiskError::Overflow);
        }
        if now_slot < self.last_market_slot {
            return Err(RiskError::Overflow);
        }
        Ok(())
    }

    /// Open interest of a position on the long side.
    #[verifier::allow_in_spec]
    pub fn oi_long_component(pos: i128) -> u128
        returns
            if pos > 0 {
                pos as u128
            } else {
                0u128
            },
    {
        if pos > 0 {
            pos as u128
        } else {
            0
        }
    }

    /// Open interest of a position on the short side.
    pub open spec fn oi_short(pos: i128) -> int {
        if pos < 0 {
            -(pos as int)
        } else {
            0
        }
    }

    /// Open interest of a position on the short side.
    pub fn oi_short_component(pos: i128) -> (r: u128)
        ensures
            r == RiskEngine::oi_short(pos),
    {
        if pos < 0 {
            abs_i128(pos)
        } else {
            0
        }
    }

    /// Open interest of a side after two positions changed.
    pub open spec fn side_oi_after(oi: u128, old_a: int, old_b: int, new_a: int, new_b: int)
        -> Result<u128, RiskError> {
        if oi < old_a + old_b {
            Err(RiskError::CorruptState)
        } else if oi - old_a - old_b + new_a + new_b > u128::MAX {
            Err(RiskError::Overflow)
        } else {
            Ok((oi - old_a - old_b + new_a + new_b) as u128)
        }
    }

    fn compute_side_oi_after(oi: u128, old_a: u128, old_b: u128, new_a: u128, new_b: u128) -> (r:
        Result<u128, RiskError>)
        ensures
            r == RiskEngine::side_oi_after(
                oi,
                old_a as int,
                old_b as int,
                new_a as int,
                new_b as int,
            ),
    {
        let less_a: u128 = oi.checked_sub(old_a).ok_or(RiskError::CorruptState)?;
        let less_b: u128 = less_a.checked_sub(old_b).ok_or(RiskError::CorruptState)?;
        let plus_a: u128 = less_b.checked_add(new_a).ok_or(RiskError::Overflow)?;
        plus_a.checked_add(new_b).ok_or(RiskError::Overflow)
    }

    /// Open interest of both sides after two positions changed.
    pub open spec fn bilateral_oi_spec(self, old_a: i128, new_a: i128, old_b: i128, new_b: i128)
        -> Result<(u128, u128), RiskError> {
        match RiskEngine::side_oi_after(
            self.oi_eff_long_q,
            RiskEngine::oi_long_component(old_a) as int,
            RiskEngine::oi_long_component(old_b) as int,
            RiskEngine::oi_long_component(new_a) as int,
            RiskEngine::oi_long_component(new_b) as int,
        ) {
            Err(err) => Err(err),
            Ok(long) => match RiskEngine::side_oi_after(
                self.oi_eff_short_q,
                RiskEngine::oi_short(old_a),
                RiskEngine::oi_short(old_b),
                RiskEngine::oi_short(new_a),
                RiskEngine::oi_short(new_b),
            ) {
                Err(err) => Err(err),
                Ok(short) => Ok((long, short)),
            },
        }
    }

    /// Computes the open interest of both sides after two positions changed.
    pub fn bilateral_oi_after(&self, old_a: &i128, new_a: &i128, old_b: &i128, new_b: &i128) -> (r:
        Result<(u128, u128), RiskError>)
        ensures
            r == self.bilateral_oi_spec(*old_a, *new_a, *old_b, *new_b),
    {
        let long: u128 = Self::compute_side_oi_after(
            self.oi_eff_long_q,
            Self::oi_long_component(*old_a),
            Self::oi_long_component(*old_b),
            Self::oi_long_component(*new_a),
            Self::oi_long_component(*new_b),
        )?;
        let short: u128 = Self::compute_side_oi_after(
            self.oi_eff_short_q,
            Self::oi_short_component(*old_a),
            Self::oi_short_component(*old_b),
            Self::oi_short_component(*new_a),
            Self::oi_short_component(*new_b),
        )?;
        Ok((long, short))
    }

    /// Whether a side's mode lets a position change: no new position while it is
    /// reset, and none but a smaller one while it is drained.
    pub open spec fn account_gate_ok(self, old_eff: i128, new_eff: i128) -> bool {
        new_eff == 0 || match self.get_side_mode(crate::sides::some_side(new_eff)) {
            SideMode::Normal => true,
            SideMode::ResetPending => false,
            SideMode::DrainOnly => old_eff != 0 && (old_eff > 0 <==> new_eff > 0)
                && crate::wide_math::abs_int(new_eff as int) <= crate::wide_math::abs_int(
                old_eff as int,
            ),
        }
    }

    /// Refuses a position on a side whose mode does not let it change so.
    pub fn enforce_side_mode_account_gate(&self, old_eff: i128, new_eff: i128) -> (r: Result<
        (),
        RiskError,
    >)
        ensures
            r == if self.account_gate_ok(old_eff, new_eff) {
                Ok::<(), RiskError>(())
            } else {
                Err(RiskError::SideBlocked)
            },
    {
        let side = match side_of_i128(new_eff) {
            None => return Ok(()),
            Some(s) => s,
        };
        match self.get_side_mode(side) {
            SideMode::Normal => Ok(()),
            SideMode::ResetPending => Err(RiskError::SideBlocked),
            SideMode::DrainOnly => {
                let old_same_side: bool = (old_eff > 0 && new_eff > 0) || (old_eff < 0 && new_eff
                    < 0);
                if old_same_side && abs_i128(new_eff) <= abs_i128(old_eff) {
                    Ok(())
                } else {
                    Err(RiskError::SideBlocked)
                }
            },
        }
    }

    /// Whether the modes of the sides let two positions change.
    pub open spec fn side_gate_ok(
        self,
        old_a: i128,
        new_a: i128,
        old_b: i128,
        new_b: i128,
        oi_long_after: u128,
        oi_short_after: u128,
    ) -> bool {
        &&& self.side_mode_long == SideMode::Normal || oi_long_after <= self.oi_eff_long_q
        &&& self.side_mode_short == SideMode::Normal || oi_short_after <= self.oi_eff_short_q
        &&& self.account_gate_ok(old_a, new_a)
        &&& self.account_gate_ok(old_b, new_b)
    }

    /// Refuses more open interest, or a new position, on a side that is drained or
    /// reset.
    pub fn enforce_side_mode_oi_gate(
        &self,
        old_eff_a: i128,
        new_eff_a: i128,
        old_eff_b: i128,
        new_eff_b: i128,
        oi_long_after: u128,
        oi_short_after: u128,
    ) -> (r: Result<(), RiskError>)
        ensures
            r == if self.side_gate_ok(
                old_eff_a,
                new_eff_a,
                old_eff_b,
                new_eff_b,
                oi_long_after,
                oi_short_after,
            ) {
                Ok::<(), RiskError>(())
            } else {
                Err(RiskError::SideBlocked)
            },
    {
        if self.side_mode_long != SideMode::Normal && oi_long_after > self.oi_eff_long_q {
            return Err(RiskError::SideBlocked);
        }
        if self.side_mode_short != SideMode::Normal && oi_short_after > self.oi_eff_short_q {
            return Err(RiskError::SideBlocked);
        }
        self.enforce_side_mode_account_gate(old_eff_a, new_eff_a)?;
        self.enforce_side_mode_account_gate(old_eff_b, new_eff_b)?;
        Ok(())
    }

    /// Maintenance requirement of an effective position, zero if there is none.
    pub open spec fn mm_of(self, eff: i128, oracle_price: u64) -> int {
        if eff == 0 {
            0
        } else {
            crate::equity::margin_req(
                RiskEngine::risk_notional(eff as int, oracle_price as int),
                self.params.maintenance_margin_bps as int,
                self.params.min_nonzero_mm_req as int,
            )
        }
    }

    /// Computes the maintenance requirement of an effective position.
    pub fn maintenance_of(&self, eff: i128, oracle_price: u64) -> (r: I256)
        ensures
            r@ == self.mm_of(eff, oracle_price),
            0 <= r@ < crate::wide_math::two_pow_255() / 4,
    {
        if eff == 0 {
            return I256::zero();
        }
        let notional = ceil_div_positive_checked(
            widening_mul(abs_i128(eff), oracle_price as u128),
            U256::from_u128(POS_SCALE),
        );
        let bps: u64 = self.params.maintenance_margin_bps;
        proof {
            lemma_mm_fits(eff, oracle_price, bps, notional@);
        }
        let (proportional, _) = div_rem_u256(
            notional.checked_mul(U256::from_u128(bps as u128)).unwrap(),
            U256::from_u128(10_000),
        );
        let floor = U256::from_u128(self.params.min_nonzero_mm_req);
        if proportional.is_below(floor) {
            requirement_as_i256(floor)
        } else {
            requirement_as_i256(proportional)
        }
    }

    /// Whether a trade takes an account to more risk: a larger position, another
    /// side, or the first position.
    pub open spec fn risk_increasing(old_eff: i128, new_eff: i128) -> bool {
        old_eff == 0 || (old_eff > 0) != (new_eff > 0) || crate::wide_math::abs_int(new_eff as int)
            > crate::wide_math::abs_int(old_eff as int)
    }

    /// Whether the margin of account `i` allows what a trade did to it.
    ///
    /// Without a position left, the shortfall must not be worse than before, fees
    /// aside, and a gain that no wide integer holds is refused. With more risk, the
    /// equity without the gain of the trade must meet the initial requirement.
    /// Otherwise the account is above maintenance, or it is strictly smaller with a
    /// better buffer and no worse a shortfall, fees aside.
    #[verifier::opaque]
    pub open spec fn one_side_margin_spec(
        self,
        i: int,
        oracle_price: u64,
        old_eff: i128,
        new_eff: i128,
        buffer_pre: int,
        fee: u128,
        trade_pnl: i128,
    ) -> Result<(), RiskError> {
        let a = self.accounts@[i];
        let post = a.equity_maint() + fee;
        let pre = buffer_pre + self.mm_of(old_eff, oracle_price);
        let no_worse = crate::equity::neg_part(post) >= crate::equity::neg_part(pre);
        let refused = Err(RiskError::Undercollateralized);
        if new_eff == 0 {
            if 0 <= crate::equity::neg_part(post) - crate::equity::neg_part(pre)
                < crate::wide_math::two_pow_255() {
                Ok(())
            } else {
                refused
            }
        } else if RiskEngine::risk_increasing(old_eff, new_eff) {
            if self.meets_initial(self.equity_trade_open(a, trade_pnl), i, oracle_price) {
                Ok(())
            } else {
                refused
            }
        } else if self.above_maintenance(a, i, oracle_price) {
            Ok(())
        } else if crate::wide_math::abs_int(new_eff as int) == crate::wide_math::abs_int(
            old_eff as int,
        ) {
            refused
        } else {
            match self.notional_spec(i, oracle_price, false) {
                Err(err) => Err(err),
                Ok(notional) => if no_worse && post - crate::equity::margin_req(
                    notional as int,
                    self.params.maintenance_margin_bps as int,
                    self.params.min_nonzero_mm_req as int,
                ) > buffer_pre {
                    Ok(())
                } else {
                    refused
                },
            }
        }
    }

    /// Whether the margin of account `i` depends on its buffer before the trade: it has
    /// no position left, or it is smaller and not above maintenance.
    pub open spec fn reads_buffer(
        self,
        i: int,
        oracle_price: u64,
        old_eff: i128,
        new_eff: i128,
    ) -> bool {
        ||| new_eff == 0
        ||| {
            &&& !RiskEngine::risk_increasing(old_eff, new_eff)
            &&& !self.above_maintenance(self.accounts@[i], i, oracle_price)
            &&& crate::wide_math::abs_int(new_eff as int) != crate::wide_math::abs_int(
                old_eff as int,
            )
            &&& self.notional_spec(i, oracle_price, false) is Ok
        }
    }

    /// Whether the equity before a trade, which is the buffer and the maintenance
    /// requirement together, fits in a wide integer.
    pub open spec fn equity_before_fits(
        self,
        oracle_price: u64,
        old_eff: i128,
        buffer_pre: int,
    ) -> bool {
        buffer_pre + self.mm_of(old_eff, oracle_price) < crate::wide_math::two_pow_255()
    }

    /// What the equity before a trade was short of zero.
    fn shortfall_before(&self, oracle_price: u64, old_eff: i128, buffer_pre: I256) -> (r: I256)
        requires
            self.equity_before_fits(oracle_price, old_eff, buffer_pre@),
        ensures
            r@ == crate::equity::neg_part(buffer_pre@ + self.mm_of(old_eff, oracle_price)),
    {
        let pre = buffer_pre.checked_add(self.maintenance_of(old_eff, oracle_price)).unwrap();
        if pre.is_negative() {
            pre
        } else {
            I256::zero()
        }
    }

    /// Refuses a trade that the margin of an account does not allow.
    pub fn enforce_one_side_margin(
        &self,
        idx: usize,
        oracle_price: u64,
        old_eff: &i128,
        new_eff: &i128,
        buffer_pre: I256,
        fee: u128,
        candidate_trade_pnl: i128,
    ) -> (r: Result<(), RiskError>)
        requires
            idx < MAX_ACCOUNTS,
            self.reads_buffer(idx as int, oracle_price, *old_eff, *new_eff)
                ==> self.equity_before_fits(oracle_price, *old_eff, buffer_pre@),
        ensures
            r == self.one_side_margin_spec(
                idx as int,
                oracle_price,
                *old_eff,
                *new_eff,
                buffer_pre@,
                fee,
                candidate_trade_pnl,
            ),
    {
        reveal(RiskEngine::one_side_margin_spec);
        let post = self.account_equity_maint_raw_wide(&self.accounts[idx]).checked_add(
            I256::from_u128(fee),
        ).unwrap();
        let shortfall_post = if post.is_negative() {
            post
        } else {
            I256::zero()
        };
        if *new_eff == 0 {
            let shortfall_pre = self.shortfall_before(oracle_price, *old_eff, buffer_pre);
            return match shortfall_post.checked_sub(shortfall_pre) {
                Some(gain) => if gain.is_negative() {
                    Err(RiskError::Undercollateralized)
                } else {
                    Ok(())
                },
                None => Err(RiskError::Undercollateralized),
            };
        }
        let abs_old: u128 = abs_i128(*old_eff);
        let abs_new: u128 = abs_i128(*new_eff);
        let risk_increasing: bool = abs_new > abs_old || (*old_eff > 0 && *new_eff < 0) || (*old_eff
            < 0 && *new_eff > 0) || *old_eff == 0;
        if risk_increasing {
            if !self.is_above_initial_margin_trade_open(
                &self.accounts[idx],
                idx,
                oracle_price,
                candidate_trade_pnl,
            ) {
                return Err(RiskError::Undercollateralized);
            }
            return Ok(());
        }
        if self.is_above_maintenance_margin(&self.accounts[idx], idx, oracle_price) {
            return Ok(());
        }
        if abs_new == abs_old {
            return Err(RiskError::Undercollateralized);
        }
        let not: u128 = self.notional_checked(idx, oracle_price, false)?;
        let mm_req_post = crate::equity::margin_requirement(
            not,
            self.params.maintenance_margin_bps,
            self.params.min_nonzero_mm_req,
        );
        proof {
            crate::equity::lemma_margin_req_small(
                not as int,
                self.params.maintenance_margin_bps as int,
                self.params.min_nonzero_mm_req as int,
            );
        }
        let buffer_post = post.checked_sub(requirement_as_i256(mm_req_post)).unwrap();
        let shortfall_pre = self.shortfall_before(oracle_price, *old_eff, buffer_pre);
        if buffer_pre.is_below(buffer_post) && !shortfall_post.is_below(shortfall_pre) {
            Ok(())
        } else {
            Err(RiskError::Undercollateralized)
        }
    }

    /// Refuses a trade that the margin of either account does not allow.
    pub fn enforce_post_trade_margin(
        &self,
        a: usize,
        b: usize,
        oracle_price: u64,
        old_eff_a: &i128,
        new_eff_a: &i128,
        old_eff_b: &i128,
        new_eff_b: &i128,
        buffer_pre_a: I256,
        buffer_pre_b: I256,
        fee_a: u128,
        fee_b: u128,
        trade_pnl_a: i128,
        trade_pnl_b: i128,
    ) -> (r: Result<(), RiskError>)
        requires
            a < MAX_ACCOUNTS,
            b < MAX_ACCOUNTS,
            self.reads_buffer(a as int, oracle_price, *old_eff_a, *new_eff_a)
                ==> self.equity_before_fits(oracle_price, *old_eff_a, buffer_pre_a@),
            self.one_side_margin_spec(
                a as int,
                oracle_price,
                *old_eff_a,
                *new_eff_a,
                buffer_pre_a@,
                fee_a,
                trade_pnl_a,
            ) is Ok && self.reads_buffer(b as int, oracle_price, *old_eff_b, *new_eff_b)
                ==> self.equity_before_fits(oracle_price, *old_eff_b, buffer_pre_b@),
        ensures
            r == match self.one_side_margin_spec(
                a as int,
                oracle_price,
                *old_eff_a,
                *new_eff_a,
                buffer_pre_a@,
                fee_a,
                trade_pnl_a,
            ) {
                Err(err) => Err(err),
                Ok(_) => self.one_side_margin_spec(
                    b as int,
                    oracle_price,
                    *old_eff_b,
                    *new_eff_b,
                    buffer_pre_b@,
                    fee_b,
                    trade_pnl_b,
                ),
            },
    {
        self.enforce_one_side_margin(
            a,
            oracle_price,
            old_eff_a,
            new_eff_a,
            buffer_pre_a,
            fee_a,
            trade_pnl_a,
        )?;
        self.enforce_one_side_margin(
            b,
            oracle_price,
            old_eff_b,
            new_eff_b,
            buffer_pre_b,
            fee_b,
            trade_pnl_b,
        )?;
        Ok(())
    }
}

/// A maintenance requirement leaves room in a wide integer.
pub proof fn lemma_mm_of_small(e: RiskEngine, eff: i128, oracle_price: u64)
    ensures
        0 <= e.mm_of(eff, oracle_price) < crate::wide_math::two_pow_255() / 4,
{
    let notional = RiskEngine::risk_notional(eff as int, oracle_price as int);
    lemma_mm_fits(eff, oracle_price, e.params.maintenance_margin_bps, notional);
}

proof fn lemma_notional_bound(size: int, price: int)
    requires
        0 <= size <= MAX_TRADE_SIZE_Q,
        0 <= price <= MAX_ORACLE_PRICE,
    ensures
        0 <= size * price <= MAX_TRADE_SIZE_Q * MAX_ORACLE_PRICE,
        0 <= size * price / (POS_SCALE as int) <= MAX_ACCOUNT_NOTIONAL,
{
    assert(0 <= size * price <= MAX_TRADE_SIZE_Q * MAX_ORACLE_PRICE) by (nonlinear_arith)
        requires
            0 <= size <= MAX_TRADE_SIZE_Q,
            0 <= price <= MAX_ORACLE_PRICE,
    ;
}

proof fn lemma_mm_fits(eff: i128, oracle_price: u64, bps: u64, notional: int)
    requires
        notional == RiskEngine::risk_notional(eff as int, oracle_price as int),
    ensures
        0 <= notional,
        0 <= notional * bps < crate::wide_math::two_pow_255(),
        notional * bps / 10_000 < crate::wide_math::two_pow_255() / 4,
{
    let p = crate::wide_math::abs_int(eff as int) * oracle_price;
    assert(0 <= p <= (i128::MAX + 1) * u64::MAX) by (nonlinear_arith)
        requires
            p == crate::wide_math::abs_int(eff as int) * oracle_price,
            0 <= crate::wide_math::abs_int(eff as int) <= i128::MAX + 1,
            0 <= oracle_price <= u64::MAX,
    ;
    let bound = (i128::MAX + 1) * u64::MAX / (POS_SCALE as int) + 1;
    assert(0 <= notional <= bound);
    assert(0 <= notional * bps <= bound * u64::MAX) by (nonlinear_arith)
        requires
            0 <= notional <= bound,
            0 <= bps <= u64::MAX,
    ;
}

} // verus!
