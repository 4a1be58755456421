//! Validation of market parameters: bounds on each of them, and the solvency
//! envelope, which holds the maintenance requirement of every account notional
//! above the worst loss and fee of one accrual window.

use vstd::prelude::*;

use crate::constants::{
    ADL_ONE, FUNDING_DEN, MAX_ABS_FUNDING_E9_PER_SLOT, MAX_ACCOUNTS, MAX_ACCOUNT_NOTIONAL,
    MAX_MARGIN_BPS, MAX_ORACLE_PRICE, MAX_PROTOCOL_FEE_ABS, MAX_RESOLVE_PRICE_DEVIATION_BPS,
};
use crate::types::{RiskEngine, RiskError, RiskParams};
use crate::wide_math::{ceil_div_positive_checked, max_u128, min_u128, widening_mul, U256};

verus! {

/// Intervals that the envelope search keeps at once.
pub const MAX_SOLVENCY_INTERVALS: usize = 96;

/// Steps that the envelope search takes.
pub const MAX_SOLVENCY_STEPS: usize = 4096;

/// Width up to which the envelope search checks an interval point by point.
pub const EXACT_CHUNK: u128 = 64;

/// What one accrual window may move: the loss for each unit of notional as a fraction,
/// and the price in basis points.
pub struct WindowBudget {
    pub loss_num: int,
    pub loss_den: int,
    pub price_bps: int,
}

/// The budget with these parts.
pub open spec fn window_budget(loss_num: u128, loss_den: u128, price_bps: u128) -> WindowBudget {
    WindowBudget {
        loss_num: loss_num as int,
        loss_den: loss_den as int,
        price_bps: price_bps as int,
    }
}

impl RiskParams {
    /// Price movement that one accrual window allows, in basis points.
    pub open spec fn price_budget_bps(self) -> int {
        self.max_price_move_bps_per_slot * self.max_accrual_dt_slots
    }

    /// Funding of one accrual window, over the denominator of the funding indices.
    pub open spec fn funding_budget_num(self) -> int {
        self.max_abs_funding_e9_per_slot * self.max_accrual_dt_slots * 10_000
    }

    /// Loss of one accrual window for each unit of notional, over
    /// `loss_budget_den`.
    pub open spec fn loss_budget_num(self) -> int {
        self.price_budget_bps() * FUNDING_DEN + self.funding_budget_num()
    }

    /// Denominator of `loss_budget_num`.
    pub open spec fn loss_budget_den() -> int {
        10_000 * FUNDING_DEN
    }

    /// The loss budget in whole basis points, rounded up.
    pub open spec fn loss_budget_bps(self) -> int {
        self.price_budget_bps() + crate::wide_math::ceil_div(
            self.funding_budget_num(),
            FUNDING_DEN as int,
        )
    }

    /// The liquidation fee on the worst notional in whole basis points, rounded up.
    pub open spec fn liq_budget_bps(self) -> int {
        crate::wide_math::ceil_div(
            crate::wide_math::min_int(10_000 + self.price_budget_bps(), u128::MAX as int)
                * self.liquidation_fee_bps,
            10_000,
        )
    }

    /// The budget of these parameters.
    pub open spec fn budget(self) -> WindowBudget {
        WindowBudget {
            loss_num: self.loss_budget_num(),
            loss_den: RiskParams::loss_budget_den(),
            price_bps: self.price_budget_bps(),
        }
    }

    /// Worst loss of a position with risk notional `n` in one accrual window.
    pub open spec fn worst_loss(self, n: int) -> int {
        crate::wide_math::ceil_div(n * self.loss_budget_num(), RiskParams::loss_budget_den())
    }

    /// Largest notional of that position at the end of the window.
    pub open spec fn worst_liq_notional(self, n: int) -> int {
        crate::wide_math::ceil_div(n * (10_000 + self.price_budget_bps()), 10_000)
    }

    /// Liquidation fee on that notional before floor and cap.
    pub open spec fn worst_liq_fee_raw(self, n: int) -> int {
        crate::wide_math::ceil_div(self.worst_liq_notional(n) * self.liquidation_fee_bps, 10_000)
    }

    /// The liquidation fee for a raw fee.
    pub open spec fn clamp_liq_fee(self, raw: int) -> int {
        crate::wide_math::min_int(
            crate::wide_math::max_int(raw, self.min_liquidation_abs.get() as int),
            self.liquidation_fee_cap.get() as int,
        )
    }

    /// Worst loss and liquidation fee together.
    pub open spec fn worst_total(self, n: int) -> int {
        self.worst_loss(n) + self.clamp_liq_fee(self.worst_liq_fee_raw(n))
    }

    /// Largest notional at the end of a window with a budget, for risk notional `n`.
    pub open spec fn liq_notional_under(b: WindowBudget, n: int) -> int {
        crate::wide_math::ceil_div(n * (10_000 + b.price_bps), 10_000)
    }

    /// Worst loss and liquidation fee under a budget.
    pub open spec fn total_under(self, b: WindowBudget, n: int) -> int {
        crate::wide_math::ceil_div(n * b.loss_num, b.loss_den) + self.clamp_liq_fee(
            crate::wide_math::ceil_div(
                RiskParams::liq_notional_under(b, n) * self.liquidation_fee_bps,
                10_000,
            ),
        )
    }

    /// Maintenance requirement of a nonzero position with risk notional `n`.
    pub open spec fn mm_req(self, n: int) -> int {
        crate::wide_math::max_int(
            n * self.maintenance_margin_bps / 10_000,
            self.min_nonzero_mm_req as int,
        )
    }

    /// Whether maintenance covers the worst loss and fee at notional `n`.
    pub open spec fn covers(self, n: int) -> bool {
        self.worst_total(n) <= self.mm_req(n)
    }

    /// Whether the worst total at `n` under a budget is computed without overflow.
    pub open spec fn total_fits(self, b: WindowBudget, n: int) -> bool {
        &&& b.loss_den != 0
        &&& n * b.loss_num + (b.loss_den - 1) <= u128::MAX
        &&& 10_000 + b.price_bps <= u128::MAX
        &&& n * (10_000 + b.price_bps) + 9_999 <= u128::MAX
        &&& RiskParams::liq_notional_under(b, n) * self.liquidation_fee_bps + 9_999 <= u128::MAX
        &&& self.total_under(b, n) <= u128::MAX
    }

    /// Whether the maintenance requirement at `n` is computed without overflow.
    pub open spec fn mm_fits(self, n: int) -> bool {
        n * self.maintenance_margin_bps <= u128::MAX
    }

    /// What the search establishes for one notional.
    pub open spec fn holds_at(self, b: WindowBudget, n: int) -> bool {
        self.total_fits(b, n) && self.mm_fits(n) && self.total_under(b, n) <= self.mm_req(n)
    }

    /// What the search establishes at once for an interval: the worst total at its
    /// end is covered by the requirement at its start.
    pub open spec fn interval_certifies(self, b: WindowBudget, lo: int, hi: int) -> bool {
        self.total_fits(b, hi) && self.mm_fits(lo) && self.total_under(b, hi) <= self.mm_req(lo)
    }

    /// The bounded search: intervals are taken from the end of `stack`, and
    /// certified, checked point by point, or split in two. It gives up when it
    /// runs out of steps or of room.
    pub open spec fn envelope_search(
        self,
        b: WindowBudget,
        stack: Seq<(u128, u128)>,
        steps: nat,
    ) -> bool
        decreases MAX_SOLVENCY_STEPS - steps,
    {
        if stack.len() == 0 {
            true
        } else if steps + 1 > MAX_SOLVENCY_STEPS {
            false
        } else {
            let (lo, hi) = stack.last();
            let rest = stack.drop_last();
            if self.interval_certifies(b, lo as int, hi as int) {
                self.envelope_search(b, rest, steps + 1)
            } else if hi - lo <= EXACT_CHUNK {
                (forall|n: int| lo <= n <= hi ==> #[trigger] self.holds_at(b, n))
                    && self.envelope_search(b, rest, steps + 1)
            } else {
                let mid = (lo + (hi - lo) / 2) as u128;
                rest.len() + 2 <= MAX_SOLVENCY_INTERVALS && self.envelope_search(
                    b,
                    rest.push(((mid + 1) as u128, hi)).push((lo, mid)),
                    steps + 1,
                )
            }
        }
    }

    /// Whether the search accepts all notionals from `lo` to `hi` under a budget.
    pub open spec fn range_accepts(self, b: WindowBudget, lo: int, hi: int) -> bool {
        lo > hi || self.envelope_search(b, seq![(lo as u128, hi as u128)], 0)
    }

    /// Largest notional at which the floor is the whole maintenance requirement.
    pub open spec fn floor_region_max(self) -> int {
        ((self.min_nonzero_mm_req + 1) * 10_000 - 1) / (self.maintenance_margin_bps as int)
    }

    /// First notional from which the uncapped linear budget is always covered.
    pub open spec fn linear_tail(self) -> int {
        crate::wide_math::max_int(
            crate::wide_math::ceil_div(
                30_000,
                self.maintenance_margin_bps - (self.loss_budget_bps() + self.liq_budget_bps()),
            ),
            crate::wide_math::ceil_div(
                (self.min_liquidation_abs.get() + 2) * 10_000,
                self.maintenance_margin_bps - self.loss_budget_bps(),
            ),
        )
    }

    /// First notional from which the budget with the capped fee is always covered.
    pub open spec fn capped_tail(self) -> int {
        crate::wide_math::ceil_div(
            (self.liquidation_fee_cap.get() + 3) * 10_000,
            self.maintenance_margin_bps - self.loss_budget_bps(),
        )
    }

    /// Whether everything below `tail` and from `start` on is accepted.
    pub open spec fn prefix_accepts(self, start: int, tail: int) -> bool {
        tail <= start || self.range_accepts(
            self.budget(),
            start,
            crate::wide_math::min_int(tail - 1, MAX_ACCOUNT_NOTIONAL as int),
        )
    }

    /// Whether the full margin covers the whole notional and no fee is due.
    pub open spec fn full_margin_loss_only(self) -> bool {
        &&& self.maintenance_margin_bps == 10_000
        &&& self.loss_budget_bps() == 10_000
        &&& self.liq_budget_bps() == 0
        &&& self.min_liquidation_abs.get() == 0
    }

    /// Whether the notionals above the floor region are accepted.
    pub open spec fn above_floor_accepts(self) -> bool {
        let start = self.floor_region_max() + 1;
        if self.loss_budget_bps() + self.liq_budget_bps() < self.maintenance_margin_bps {
            &&& self.min_liquidation_abs.get() + 2 <= u128::MAX
            &&& self.linear_tail() <= u128::MAX
            &&& self.prefix_accepts(start, self.linear_tail())
        } else if self.loss_budget_bps() >= self.maintenance_margin_bps {
            self.range_accepts(self.budget(), start, MAX_ACCOUNT_NOTIONAL as int)
        } else {
            &&& self.liquidation_fee_cap.get() + 3 <= u128::MAX
            &&& self.capped_tail() <= u128::MAX
            &&& self.prefix_accepts(start, self.capped_tail())
        }
    }

    /// Whether the solvency envelope is accepted.
    pub open spec fn envelope_accepts(self) -> bool {
        let domain = MAX_ACCOUNT_NOTIONAL as int;
        &&& self.loss_budget_bps() <= u128::MAX
        &&& self.liq_budget_bps() <= u128::MAX
        &&& self.loss_budget_bps() + self.liq_budget_bps() <= u128::MAX
        &&& {
            ||| self.full_margin_loss_only()
            ||| {
                &&& self.loss_budget_num() <= u128::MAX
                &&& if self.maintenance_margin_bps == 0 {
                    self.holds_at(self.budget(), domain)
                } else {
                    &&& self.min_nonzero_mm_req + 1 <= u128::MAX
                    &&& self.floor_region_max() <= u128::MAX
                    &&& self.floor_region_max() > 0 ==> self.holds_at(
                        self.budget(),
                        crate::wide_math::min_int(self.floor_region_max(), domain),
                    )
                    &&& self.floor_region_max() < domain ==> self.above_floor_accepts()
                }
            }
        }
    }

    /// Whether every parameter is in its own range.
    pub open spec fn shape_accepts(self) -> bool {
        &&& 0 < self.max_accounts <= MAX_ACCOUNTS
        &&& 0 < self.max_active_positions_per_side <= self.max_accounts
        &&& self.maintenance_margin_bps <= self.initial_margin_bps <= MAX_MARGIN_BPS
        &&& self.max_trading_fee_bps <= MAX_MARGIN_BPS
        &&& self.liquidation_fee_bps <= MAX_MARGIN_BPS
        &&& 0 < self.min_nonzero_mm_req < self.min_nonzero_im_req
        &&& self.min_liquidation_abs.get() <= self.liquidation_fee_cap.get()
            <= MAX_PROTOCOL_FEE_ABS
        &&& self.h_min <= self.h_max
        &&& 0 < self.h_max
        &&& self.resolve_price_deviation_bps <= MAX_RESOLVE_PRICE_DEVIATION_BPS
        &&& 0 < self.max_accrual_dt_slots <= self.min_funding_lifetime_slots
        &&& self.max_abs_funding_e9_per_slot <= MAX_ABS_FUNDING_E9_PER_SLOT
        &&& 0 < self.max_price_move_bps_per_slot <= MAX_MARGIN_BPS
        &&& ADL_ONE * MAX_ORACLE_PRICE * self.max_abs_funding_e9_per_slot
            * self.max_accrual_dt_slots <= i128::MAX
        &&& ADL_ONE * MAX_ORACLE_PRICE * self.max_abs_funding_e9_per_slot
            * self.min_funding_lifetime_slots <= i128::MAX
    }

    /// Whether a market may run with these parameters.
    pub open spec fn valid(self) -> bool {
        self.shape_accepts() && self.envelope_accepts()
    }
}

/// `ceil(a * b / d)`, unless a step of `(a * b + (d - 1)) / d` overflows.
pub open spec fn ceil_mul_div_opt(a: int, b: int, d: int) -> Option<int> {
    if d == 0 || a * b + (d - 1) > u128::MAX {
        None
    } else {
        Some(crate::wide_math::ceil_div(a * b, d))
    }
}

/// Rounding up is adding one less than the divisor first.
pub proof fn lemma_ceil_by_adding(p: int, d: int)
    requires
        p >= 0,
        d > 0,
    ensures
        (p + (d - 1)) / d == crate::wide_math::ceil_div(p, d),
{
    vstd::arithmetic::div_mod::lemma_fundamental_div_mod(p, d);
    let q = p / d;
    let r = p % d;
    if r == 0 {
        assert(p + (d - 1) == q * d + (d - 1)) by (nonlinear_arith)
            requires
                p == d * q + r,
                r == 0,
        ;
        crate::wide_math::lemma_quotient_is(p + (d - 1), d, q, d - 1);
    } else {
        assert(p + (d - 1) == (q + 1) * d + (r - 1)) by (nonlinear_arith)
            requires
                p == d * q + r,
        ;
        crate::wide_math::lemma_quotient_is(p + (d - 1), d, q + 1, r - 1);
    }
}

impl RiskEngine {
    /// `ceil(n / d)` as a 128-bit integer, if it fits.
    pub fn ceil_div_u256_to_u128(n: U256, d: U256) -> (r: Option<u128>)
        requires
            d@ > 0,
        ensures
            r is Some <==> crate::wide_math::ceil_div(n@, d@) <= u128::MAX,
            r is Some ==> r->0 == crate::wide_math::ceil_div(n@, d@),
    {
        ceil_div_positive_checked(n, d).try_into_u128()
    }

    /// `ceil(a * b / d)` in 128-bit arithmetic.
    pub fn ceil_mul_div_u128(a: u128, b: u128, d: u128) -> (r: Option<u128>)
        ensures
            r is Some <==> ceil_mul_div_opt(a as int, b as int, d as int) is Some,
            r is Some ==> r->0 == ceil_mul_div_opt(a as int, b as int, d as int)->0,
    {
        if d == 0 {
            return None;
        }
        assert(a * b >= 0) by (nonlinear_arith);
        proof {
            lemma_ceil_by_adding(a * b, d as int);
        }
        let product: u128 = a.checked_mul(b)?;
        let sum: u128 = product.checked_add(d - 1)?;
        Some(sum / d)
    }

    /// `ceil(a * b / d)` through the exact product.
    pub fn ceil_mul_div_u128_or_wide(a: u128, b: u128, d: u128) -> (r: Result<u128, RiskError>)
        ensures
            r == if d == 0 || crate::wide_math::ceil_div(a * b, d as int) > u128::MAX {
                Err::<u128, RiskError>(RiskError::Overflow)
            } else {
                Ok(crate::wide_math::ceil_div(a * b, d as int) as u128)
            },
    {
        if d == 0 {
            return Err(RiskError::Overflow);
        }
        ceil_div_positive_checked(widening_mul(a, b), U256::from_u128(d)).try_into_u128().ok_or(
            RiskError::Overflow,
        )
    }

    /// Worst loss and fee of a position with risk notional `n`.
    pub fn solvency_envelope_total_for_notional(
        params: &RiskParams,
        n: u128,
        loss_budget_num: u128,
        loss_budget_den: u128,
        price_budget_bps: u128,
    ) -> (r: Option<u128>)
        ensures
            ({
                let b = window_budget(loss_budget_num, loss_budget_den, price_budget_bps);
                &&& r is Some <==> params.total_fits(b, n as int)
                &&& r is Some ==> r->0 == params.total_under(b, n as int)
            }),
    {
        let loss: u128 = Self::ceil_mul_div_u128(n, loss_budget_num, loss_budget_den)?;
        let worst_liq_multiplier: u128 = 10_000u128.checked_add(price_budget_bps)?;
        let worst_liq_notional: u128 = Self::ceil_mul_div_u128(
            n,
            worst_liq_multiplier,
            10_000u128,
        )?;
        let liq_fee_raw: u128 = Self::ceil_mul_div_u128(
            worst_liq_notional,
            params.liquidation_fee_bps as u128,
            10_000u128,
        )?;
        let liq_fee: u128 = min_u128(
            max_u128(liq_fee_raw, params.min_liquidation_abs.get()),
            params.liquidation_fee_cap.get(),
        );
        loss.checked_add(liq_fee)
    }

    /// Maintenance requirement of a position with risk notional `n`.
    pub fn maintenance_requirement_for_notional(params: &RiskParams, n: u128) -> (r: Option<u128>)
        ensures
            r is Some <==> params.mm_fits(n as int),
            r is Some ==> r->0 == params.mm_req(n as int),
    {
        let product: u128 = n.checked_mul(params.maintenance_margin_bps as u128)?;
        Some(max_u128(product / 10_000, params.min_nonzero_mm_req))
    }

    /// Decides whether maintenance covers the worst total at `n`.
    pub fn solvency_envelope_holds_for_notional(
        params: &RiskParams,
        n: u128,
        loss_budget_num: u128,
        loss_budget_den: u128,
        price_budget_bps: u128,
    ) -> (r: bool)
        ensures
            r == params.holds_at(
                window_budget(loss_budget_num, loss_budget_den, price_budget_bps),
                n as int,
            ),
    {
        let total: u128 = match Self::solvency_envelope_total_for_notional(
            params,
            n,
            loss_budget_num,
            loss_budget_den,
            price_budget_bps,
        ) {
            Some(v) => v,
            None => return false,
        };
        let mm_req: u128 = match Self::maintenance_requirement_for_notional(params, n) {
            Some(v) => v,
            None => return false,
        };
        total <= mm_req
    }

    /// Decides whether a whole interval is covered at once. `None` is an overflow.
    pub fn solvency_envelope_interval_certifies(
        params: &RiskParams,
        lo: u128,
        hi: u128,
        loss_budget_num: u128,
        loss_budget_den: u128,
        price_budget_bps: u128,
    ) -> (r: Option<bool>)
        ensures
            ({
                let b = window_budget(loss_budget_num, loss_budget_den, price_budget_bps);
                &&& r is Some <==> params.total_fits(b, hi as int) && params.mm_fits(lo as int)
                &&& r == Some(true) <==> params.interval_certifies(b, lo as int, hi as int)
            }),
    {
        let total_hi: u128 = Self::solvency_envelope_total_for_notional(
            params,
            hi,
            loss_budget_num,
            loss_budget_den,
            price_budget_bps,
        )?;
        let mm_lo: u128 = Self::maintenance_requirement_for_notional(params, lo)?;
        Some(total_hi <= mm_lo)
    }

    /// Runs the bounded search on the notionals from `lo` to `hi`.
    pub fn validate_solvency_envelope_range(
        params: &RiskParams,
        lo: u128,
        hi: u128,
        loss_budget_num: u128,
        loss_budget_den: u128,
        price_budget_bps: u128,
    ) -> (r: Result<(), RiskError>)
        ensures
            r is Ok <==> params.range_accepts(
                window_budget(loss_budget_num, loss_budget_den, price_budget_bps),
                lo as int,
                hi as int,
            ),
            r is Err ==> r == Err::<(), RiskError>(RiskError::Overflow),
    {
        let ghost b = window_budget(loss_budget_num, loss_budget_den, price_budget_bps);
        if lo > hi {
            return Ok(());
        }
        let mut stack: [(u128, u128); MAX_SOLVENCY_INTERVALS] = [(0u128, 0u128); MAX_SOLVENCY_INTERVALS];
        let mut len: usize = 1;
        let mut steps: usize = 0;
        stack[0] = (lo, hi);
        assert(stack@.take(1) =~= seq![(lo, hi)]);
        while len != 0
            invariant
                b == window_budget(loss_budget_num, loss_budget_den, price_budget_bps),
                len <= MAX_SOLVENCY_INTERVALS,
                steps <= MAX_SOLVENCY_STEPS,
                forall|i: int| 0 <= i < len ==> (#[trigger] stack@[i]).0 <= stack@[i].1,
                lo <= hi,
                params.range_accepts(b, lo as int, hi as int) == params.envelope_search(
                    b,
                    stack@.take(len as int),
                    steps as nat,
                ),
            decreases MAX_SOLVENCY_STEPS - steps,
        {
            let ghost before = stack@.take(len as int);
            steps = steps + 1;
            if steps > MAX_SOLVENCY_STEPS {
                return Err(RiskError::Overflow);
            }
            len = len - 1;
            let (range_lo, range_hi) = stack[len];
            assert(before.last() == (range_lo, range_hi));
            assert(before.drop_last() =~= stack@.take(len as int));
            if Self::solvency_envelope_interval_certifies(
                params,
                range_lo,
                range_hi,
                loss_budget_num,
                loss_budget_den,
                price_budget_bps,
            ) == Some(true) {
                continue ;
            }
            if range_hi - range_lo <= EXACT_CHUNK {
                let mut n: u128 = range_lo;
                loop
                    invariant_except_break
                        range_lo <= n <= range_hi,
                        forall|k: int| range_lo <= k < n ==> #[trigger] params.holds_at(b, k),
                    invariant
                        b == window_budget(loss_budget_num, loss_budget_den, price_budget_bps),
                        params.range_accepts(b, lo as int, hi as int) ==> (forall|k: int|
                            range_lo <= k <= range_hi ==> #[trigger] params.holds_at(b, k)),
                    ensures
                        forall|k: int|
                            range_lo <= k <= range_hi ==> #[trigger] params.holds_at(b, k),
                    decreases range_hi - n,
                {
                    if !Self::solvency_envelope_holds_for_notional(
                        params,
                        n,
                        loss_budget_num,
                        loss_budget_den,
                        price_budget_bps,
                    ) {
                        return Err(RiskError::Overflow);
                    }
                    if n == range_hi {
                        break ;
                    }
                    n = n + 1;
                }
                continue ;
            }
            let mid: u128 = range_lo + (range_hi - range_lo) / 2;
            if len + 2 > MAX_SOLVENCY_INTERVALS {
                return Err(RiskError::Overflow);
            }
            stack[len] = (mid + 1, range_hi);
            stack[len + 1] = (range_lo, mid);
            len = len + 2;
            assert(stack@.take(len as int) =~= before.drop_last().push(
                ((mid + 1) as u128, range_hi),
            ).push((range_lo, mid)));
        }
        assert(stack@.take(0) =~= Seq::empty());
        Ok(())
    }

    /// Decides whether the solvency envelope is accepted.
    pub fn exact_solvency_envelope_ok(params: &RiskParams) -> (r: bool)
        ensures
            r == params.envelope_accepts(),
    {
        Self::validate_exact_solvency_envelope(params).is_ok()
    }

    /// Accepts the parameters whose maintenance requirement covers the worst loss
    /// and fee at every account notional, as far as the search can show it.
    #[verifier::spinoff_prover]
    #[verifier::rlimit(40)]
    pub fn validate_exact_solvency_envelope(params: &RiskParams) -> (r: Result<(), RiskError>)
        ensures
            r is Ok <==> params.envelope_accepts(),
            r is Err ==> r == Err::<(), RiskError>(RiskError::Overflow),
    {
        let mm: u128 = params.maintenance_margin_bps as u128;
        proof {
            lemma_envelope_budgets_fit(*params);
        }
        let price_budget_bps: u128 = (params.max_price_move_bps_per_slot as u128) * (
        params.max_accrual_dt_slots as u128);
        let rate_dt: u128 = (params.max_abs_funding_e9_per_slot as u128) * (
        params.max_accrual_dt_slots as u128);
        let funding_budget_num = widening_mul(rate_dt, 10_000);
        let loss_budget_wide = widening_mul(price_budget_bps, FUNDING_DEN).checked_add(
            funding_budget_num,
        ).unwrap();
        let loss_budget_den: u128 = 10_000 * FUNDING_DEN;

        let funding_budget_bps_ceil: u128 = Self::ceil_div_u256_to_u128(
            funding_budget_num,
            U256::from_u128(FUNDING_DEN),
        ).unwrap();
        let loss_budget_bps: u128 = price_budget_bps.checked_add(funding_budget_bps_ceil).ok_or(
            RiskError::Overflow,
        )?;
        let liq_budget_bps: u128 = Self::ceil_div_u256_to_u128(
            widening_mul(
                10_000u128.saturating_add(price_budget_bps),
                params.liquidation_fee_bps as u128,
            ),
            U256::from_u128(10_000),
        ).ok_or(RiskError::Overflow)?;
        let linear_budget_bps: u128 = loss_budget_bps.checked_add(liq_budget_bps).ok_or(
            RiskError::Overflow,
        )?;

        if mm == 10_000 && loss_budget_bps == 10_000 && liq_budget_bps == 0
            && params.min_liquidation_abs.get() == 0 {
            return Ok(());
        }
        let loss_budget_num: u128 = loss_budget_wide.try_into_u128().ok_or(RiskError::Overflow)?;

        let domain_max: u128 = MAX_ACCOUNT_NOTIONAL;
        if mm == 0 {
            if Self::solvency_envelope_holds_for_notional(
                params,
                domain_max,
                loss_budget_num,
                loss_budget_den,
                price_budget_bps,
            ) {
                return Ok(());
            }
            return Err(RiskError::Overflow);
        }
        let floor_plus_one: u128 = params.min_nonzero_mm_req.checked_add(1).ok_or(
            RiskError::Overflow,
        )?;
        let floor_scaled = widening_mul(floor_plus_one, 10_000).checked_sub(U256::one()).unwrap();
        let floor_region_max: u128 = floor_scaled.checked_div(
            U256::from_u128(mm),
        ).unwrap().try_into_u128().ok_or(RiskError::Overflow)?;
        let floor_region_end: u128 = min_u128(floor_region_max, domain_max);
        if floor_region_end != 0 && !Self::solvency_envelope_holds_for_notional(
            params,
            floor_region_end,
            loss_budget_num,
            loss_budget_den,
            price_budget_bps,
        ) {
            return Err(RiskError::Overflow);
        }
        if floor_region_max >= domain_max {
            return Ok(());
        }
        let exact_start: u128 = floor_region_end + 1;

        if linear_budget_bps < mm {
            let slope_gap: u128 = mm - linear_budget_bps;
            let tail_for_linear: u128 = ceil_div_positive_checked(
                U256::from_u128(30_000),
                U256::from_u128(slope_gap),
            ).try_into_u128().ok_or(RiskError::Overflow)?;
            let loss_gap: u128 = mm - loss_budget_bps;
            let floor_fee_slack: u128 = params.min_liquidation_abs.get().checked_add(2).ok_or(
                RiskError::Overflow,
            )?;
            let tail_for_fee_floor: u128 = ceil_div_positive_checked(
                widening_mul(floor_fee_slack, 10_000),
                U256::from_u128(loss_gap),
            ).try_into_u128().ok_or(RiskError::Overflow)?;
            let exact_tail: u128 = max_u128(tail_for_linear, tail_for_fee_floor);
            if exact_tail <= exact_start {
                return Ok(());
            }
            let exact_end: u128 = min_u128(exact_tail - 1, domain_max);
            return Self::validate_solvency_envelope_range(
                params,
                exact_start,
                exact_end,
                loss_budget_num,
                loss_budget_den,
                price_budget_bps,
            );
        }
        if loss_budget_bps >= mm {
            return Self::validate_solvency_envelope_range(
                params,
                exact_start,
                domain_max,
                loss_budget_num,
                loss_budget_den,
                price_budget_bps,
            );
        }
        let slope_gap: u128 = mm - loss_budget_bps;
        let capped_fee_slack: u128 = params.liquidation_fee_cap.get().checked_add(3).ok_or(
            RiskError::Overflow,
        )?;
        let exact_tail: u128 = ceil_div_positive_checked(
            widening_mul(capped_fee_slack, 10_000),
            U256::from_u128(slope_gap),
        ).try_into_u128().ok_or(RiskError::Overflow)?;
        if exact_tail <= exact_start {
            return Ok(());
        }
        let exact_end: u128 = min_u128(exact_tail - 1, domain_max);
        Self::validate_solvency_envelope_range(
            params,
            exact_start,
            exact_end,
            loss_budget_num,
            loss_budget_den,
            price_budget_bps,
        )
    }

    /// Accepts the parameters that are in their ranges.
    pub fn validate_params_fast_shape(params: &RiskParams) -> (r: Result<(), RiskError>)
        ensures
            r == if params.shape_accepts() {
                Ok::<(), RiskError>(())
            } else {
                Err(RiskError::Overflow)
            },
    {
        if params.max_accounts == 0 || params.max_accounts > MAX_ACCOUNTS as u64 {
            return Err(RiskError::Overflow);
        }
        if params.max_active_positions_per_side == 0 || params.max_active_positions_per_side
            > params.max_accounts {
            return Err(RiskError::Overflow);
        }
        if params.maintenance_margin_bps > params.initial_margin_bps || params.initial_margin_bps
            > MAX_MARGIN_BPS || params.max_trading_fee_bps > MAX_MARGIN_BPS
            || params.liquidation_fee_bps > MAX_MARGIN_BPS {
            return Err(RiskError::Overflow);
        }
        if params.min_nonzero_mm_req == 0 || params.min_nonzero_mm_req
            >= params.min_nonzero_im_req {
            return Err(RiskError::Overflow);
        }
        if params.min_liquidation_abs.get() > params.liquidation_fee_cap.get()
            || params.liquidation_fee_cap.get() > MAX_PROTOCOL_FEE_ABS {
            return Err(RiskError::Overflow);
        }
        if params.h_min > params.h_max || params.h_max == 0 {
            return Err(RiskError::Overflow);
        }
        if params.resolve_price_deviation_bps > MAX_RESOLVE_PRICE_DEVIATION_BPS {
            return Err(RiskError::Overflow);
        }
        if params.max_accrual_dt_slots == 0 || (params.max_abs_funding_e9_per_slot as i128)
            > MAX_ABS_FUNDING_E9_PER_SLOT || params.min_funding_lifetime_slots
            < params.max_accrual_dt_slots || params.max_price_move_bps_per_slot == 0
            || params.max_price_move_bps_per_slot > MAX_MARGIN_BPS {
            return Err(RiskError::Overflow);
        }
        if !Self::funding_stays_in_range(
            params.max_abs_funding_e9_per_slot,
            params.max_accrual_dt_slots,
        ) {
            return Err(RiskError::Overflow);
        }
        if !Self::funding_stays_in_range(
            params.max_abs_funding_e9_per_slot,
            params.min_funding_lifetime_slots,
        ) {
            return Err(RiskError::Overflow);
        }
        Ok(())
    }

    /// Decides whether funding at this rate over this many slots moves an index by
    /// no more than a signed 128-bit integer holds.
    fn funding_stays_in_range(rate: u64, slots: u64) -> (r: bool)
        ensures
            r == (ADL_ONE * MAX_ORACLE_PRICE * rate * slots <= i128::MAX),
    {
        assert(rate * slots >= 0) by (nonlinear_arith);
        proof {
            crate::wide_math::lemma_half_product_bound(rate as int, slots as int);
            assert(ADL_ONE * MAX_ORACLE_PRICE * rate * slots == (ADL_ONE * MAX_ORACLE_PRICE) * (rate
                * slots)) by (nonlinear_arith);
        }
        let product: u128 = (rate as u128) * (slots as u128);
        let scale: u128 = ADL_ONE * (MAX_ORACLE_PRICE as u128);
        match widening_mul(scale, product).try_into_u128() {
            Some(v) => v <= i128::MAX as u128,
            None => false,
        }
    }

    /// Accepts the parameters with which a market may run.
    pub fn try_validate_params(params: &RiskParams) -> (r: Result<(), RiskError>)
        ensures
            r == if params.valid() {
                Ok::<(), RiskError>(())
            } else {
                Err(RiskError::Overflow)
            },
    {
        Self::validate_params_fast_shape(params)?;
        Self::validate_exact_solvency_envelope(params)?;
        Ok(())
    }
}

proof fn lemma_envelope_budgets_fit(p: RiskParams)
    ensures
        0 <= p.price_budget_bps() <= u128::MAX,
        0 <= p.max_abs_funding_e9_per_slot * p.max_accrual_dt_slots <= u128::MAX,
        p.funding_budget_num() == p.max_abs_funding_e9_per_slot * p.max_accrual_dt_slots * 10_000,
        crate::wide_math::ceil_div(p.funding_budget_num(), FUNDING_DEN as int) <= u128::MAX,
        p.loss_budget_num() < crate::wide_math::two_pow_256(),
        0 <= p.loss_budget_num(),
{
    crate::wide_math::lemma_half_product_bound(
        p.max_price_move_bps_per_slot as int,
        p.max_accrual_dt_slots as int,
    );
    crate::wide_math::lemma_half_product_bound(
        p.max_abs_funding_e9_per_slot as int,
        p.max_accrual_dt_slots as int,
    );
}

} // verus!
