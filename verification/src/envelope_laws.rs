//! What an accepted solvency envelope promises.

use vstd::prelude::*;

use crate::constants::{FUNDING_DEN, MAX_ACCOUNT_NOTIONAL};
use crate::envelope::{EXACT_CHUNK, MAX_SOLVENCY_STEPS};
use crate::types::RiskParams;

verus! {

/// Bounds of a quotient that is rounded up.
pub proof fn lemma_ceil_bounds(n: int, d: int)
    requires
        d > 0,
    ensures
        n <= d * crate::wide_math::ceil_div(n, d),
        d * crate::wide_math::ceil_div(n, d) < n + d,
        n >= 0 ==> crate::wide_math::ceil_div(n, d) >= 0,
{
    vstd::arithmetic::div_mod::lemma_fundamental_div_mod(n, d);
    let q = n / d;
    assert(d * (q + 1) == d * q + d) by (nonlinear_arith);
    if n >= 0 {
        vstd::arithmetic::div_mod::lemma_div_pos_is_pos(n, d);
    }
}

/// A quotient that is rounded up grows with its numerator.
pub proof fn lemma_ceil_monotone(a: int, b: int, d: int)
    requires
        d > 0,
        a <= b,
    ensures
        crate::wide_math::ceil_div(a, d) <= crate::wide_math::ceil_div(b, d),
{
    lemma_ceil_bounds(a, d);
    lemma_ceil_bounds(b, d);
    let ca = crate::wide_math::ceil_div(a, d);
    let cb = crate::wide_math::ceil_div(b, d);
    assert(ca <= cb) by (nonlinear_arith)
        requires
            d * ca < a + d,
            b <= d * cb,
            a <= b,
            d > 0,
    ;
}

proof fn lemma_mul_monotone(a: int, b: int, k: int)
    requires
        a <= b,
        k >= 0,
    ensures
        a * k <= b * k,
{
    assert(a * k <= b * k) by (nonlinear_arith)
        requires
            a <= b,
            k >= 0,
    ;
}

proof fn lemma_budgets_nonnegative(p: RiskParams)
    ensures
        0 <= p.price_budget_bps(),
        0 <= p.funding_budget_num(),
        0 <= p.loss_budget_num(),
        p.loss_budget_num() <= p.loss_budget_bps() * FUNDING_DEN,
        0 <= p.loss_budget_bps(),
{
    crate::wide_math::lemma_half_product_bound(
        p.max_price_move_bps_per_slot as int,
        p.max_accrual_dt_slots as int,
    );
    crate::wide_math::lemma_half_product_bound(
        p.max_abs_funding_e9_per_slot as int,
        p.max_accrual_dt_slots as int,
    );
    lemma_ceil_bounds(p.funding_budget_num(), FUNDING_DEN as int);
}

/// A larger notional has no smaller worst loss and fee.
pub proof fn law_worst_total_is_monotone(p: RiskParams, a: int, b: int)
    requires
        0 <= a <= b,
    ensures
        p.worst_total(a) <= p.worst_total(b),
{
    lemma_budgets_nonnegative(p);
    lemma_mul_monotone(a, b, p.loss_budget_num());
    lemma_ceil_monotone(
        a * p.loss_budget_num(),
        b * p.loss_budget_num(),
        RiskParams::loss_budget_den(),
    );
    let k = 10_000 + p.price_budget_bps();
    lemma_mul_monotone(a, b, k);
    lemma_ceil_monotone(a * k, b * k, 10_000);
    let wa = p.worst_liq_notional(a);
    let wb = p.worst_liq_notional(b);
    lemma_mul_monotone(wa, wb, p.liquidation_fee_bps as int);
    lemma_ceil_monotone(wa * p.liquidation_fee_bps, wb * p.liquidation_fee_bps, 10_000);
}

/// A larger notional has no smaller maintenance requirement.
pub proof fn law_mm_req_is_monotone(p: RiskParams, a: int, b: int)
    requires
        0 <= a <= b,
    ensures
        p.mm_req(a) <= p.mm_req(b),
{
    lemma_mul_monotone(a, b, p.maintenance_margin_bps as int);
    vstd::arithmetic::div_mod::lemma_div_is_ordered(
        a * p.maintenance_margin_bps,
        b * p.maintenance_margin_bps,
        10_000,
    );
}

proof fn lemma_certified_interval_is_covered(p: RiskParams, lo: int, hi: int, n: int)
    requires
        0 <= lo <= n <= hi,
        p.interval_certifies(p.budget(), lo, hi),
    ensures
        p.covers(n),
{
    law_worst_total_is_monotone(p, n, hi);
    law_mm_req_is_monotone(p, lo, n);
}

proof fn lemma_search_covers(p: RiskParams, stack: Seq<(u128, u128)>, steps: nat, i: int, n: int)
    requires
        p.envelope_search(p.budget(), stack, steps),
        0 <= i < stack.len(),
        stack[i].0 <= n <= stack[i].1,
    ensures
        p.covers(n),
    decreases MAX_SOLVENCY_STEPS - steps,
{
    let (lo, hi) = stack.last();
    let rest = stack.drop_last();
    if i < rest.len() {
        assert(rest[i] == stack[i]);
        if p.interval_certifies(p.budget(), lo as int, hi as int) || hi - lo <= EXACT_CHUNK {
            lemma_search_covers(p, rest, steps + 1, i, n);
        } else {
            let mid = (lo + (hi - lo) / 2) as u128;
            let next = rest.push(((mid + 1) as u128, hi)).push((lo, mid));
            assert(next[i] == rest[i]);
            lemma_search_covers(p, next, steps + 1, i, n);
        }
    } else if p.interval_certifies(p.budget(), lo as int, hi as int) {
        lemma_certified_interval_is_covered(p, lo as int, hi as int, n);
    } else if hi - lo <= EXACT_CHUNK {
        assert(p.holds_at(p.budget(), n));
    } else {
        let mid = (lo + (hi - lo) / 2) as u128;
        let next = rest.push(((mid + 1) as u128, hi)).push((lo, mid));
        if n <= mid {
            lemma_search_covers(p, next, steps + 1, next.len() - 1, n);
        } else {
            assert(next[next.len() - 2] == ((mid + 1) as u128, hi));
            lemma_search_covers(p, next, steps + 1, next.len() - 2, n);
        }
    }
}

proof fn lemma_range_covers(p: RiskParams, lo: int, hi: int, n: int)
    requires
        p.range_accepts(p.budget(), lo, hi),
        0 <= lo <= n <= hi <= u128::MAX,
    ensures
        p.covers(n),
{
    lemma_search_covers(p, seq![(lo as u128, hi as u128)], 0, 0, n);
}

proof fn lemma_loss_upper(p: RiskParams, n: int)
    requires
        n >= 0,
    ensures
        10_000 * p.worst_loss(n) < n * p.loss_budget_bps() + 10_000,
{
    lemma_budgets_nonnegative(p);
    let num = p.loss_budget_num();
    let bps = p.loss_budget_bps();
    let fd = FUNDING_DEN as int;
    let c = p.worst_loss(n);
    lemma_ceil_bounds(n * num, RiskParams::loss_budget_den());
    assert(n * num <= (n * bps) * fd) by (nonlinear_arith)
        requires
            n >= 0,
            num <= bps * fd,
    ;
    assert(10_000 * c < n * bps + 10_000);
}

proof fn lemma_raw_fee_upper(p: RiskParams, n: int)
    requires
        n >= 0,
        p.liquidation_fee_bps <= 10_000,
        10_000 + p.price_budget_bps() <= u128::MAX,
    ensures
        10_000 * p.worst_liq_fee_raw(n) < n * p.liq_budget_bps() + 20_000,
{
    lemma_budgets_nonnegative(p);
    let k = 10_000 + p.price_budget_bps();
    let liq = p.liquidation_fee_bps as int;
    let w = p.liq_budget_bps();
    let wl = p.worst_liq_notional(n);
    let raw = p.worst_liq_fee_raw(n);
    lemma_ceil_bounds(n * k, 10_000);
    lemma_ceil_bounds(wl * liq, 10_000);
    lemma_ceil_bounds(k * liq, 10_000);
    let x = n * k;
    assert((10_000 * wl) * liq <= (x + 10_000) * liq) by (nonlinear_arith)
        requires
            10_000 * wl < x + 10_000,
            liq >= 0,
    ;
    assert((10_000 * wl) * liq == 10_000 * (wl * liq)) by (nonlinear_arith);
    assert((x + 10_000) * liq == x * liq + 10_000 * liq) by (nonlinear_arith);
    assert(x * liq == n * (k * liq)) by (nonlinear_arith)
        requires
            x == n * k,
    ;
    assert(n * (k * liq) <= n * (10_000 * w)) by (nonlinear_arith)
        requires
            n >= 0,
            k * liq <= 10_000 * w,
    ;
    assert(n * (10_000 * w) == 10_000 * (n * w)) by (nonlinear_arith);
}

proof fn lemma_floor_from_strict(total: int, n: int, mm: int)
    requires
        10_000 * total < n * mm,
    ensures
        total <= n * mm / 10_000,
{
}

proof fn lemma_tail_gap(n: int, need: int, gap: int)
    requires
        gap > 0,
        n >= crate::wide_math::ceil_div(need, gap),
    ensures
        n * gap >= need,
{
    lemma_ceil_bounds(need, gap);
    let c = crate::wide_math::ceil_div(need, gap);
    assert(n * gap >= need) by (nonlinear_arith)
        requires
            n >= c,
            need <= gap * c,
            gap > 0,
    ;
}

proof fn lemma_linear_tail_covers(p: RiskParams, n: int)
    requires
        p.liquidation_fee_bps <= 10_000,
        p.maintenance_margin_bps <= 10_000,
        p.loss_budget_bps() + p.liq_budget_bps() < p.maintenance_margin_bps,
        n >= p.linear_tail(),
        n >= 0,
    ensures
        p.covers(n),
{
    let mm = p.maintenance_margin_bps as int;
    let l = p.loss_budget_bps();
    let w = p.liq_budget_bps();
    lemma_budgets_nonnegative(p);
    lemma_ceil_bounds(p.funding_budget_num(), FUNDING_DEN as int);
    assert(p.price_budget_bps() <= l);
    let capped = crate::wide_math::min_int(10_000 + p.price_budget_bps(), u128::MAX as int);
    assert(0 <= capped * p.liquidation_fee_bps) by (nonlinear_arith)
        requires
            capped >= 0,
    ;
    lemma_ceil_bounds(capped * p.liquidation_fee_bps, 10_000);
    lemma_loss_upper(p, n);
    lemma_raw_fee_upper(p, n);
    lemma_tail_gap(n, 30_000, mm - (l + w));
    lemma_tail_gap(n, (p.min_liquidation_abs.get() + 2) * 10_000, mm - l);
    assert(n * (mm - (l + w)) == n * mm - n * l - n * w) by (nonlinear_arith);
    assert(n * (mm - l) == n * mm - n * l) by (nonlinear_arith);
    lemma_floor_from_strict(p.worst_total(n), n, mm);
}

proof fn lemma_capped_tail_covers(p: RiskParams, n: int)
    requires
        p.loss_budget_bps() < p.maintenance_margin_bps,
        n >= p.capped_tail(),
        n >= 0,
    ensures
        p.covers(n),
{
    let mm = p.maintenance_margin_bps as int;
    let l = p.loss_budget_bps();
    lemma_loss_upper(p, n);
    lemma_tail_gap(n, (p.liquidation_fee_cap.get() + 3) * 10_000, mm - l);
    assert(n * (mm - l) == n * mm - n * l) by (nonlinear_arith);
    lemma_floor_from_strict(p.worst_total(n), n, mm);
}

proof fn lemma_full_margin_covers(p: RiskParams, n: int)
    requires
        p.full_margin_loss_only(),
        n >= 0,
    ensures
        p.covers(n),
{
    lemma_budgets_nonnegative(p);
    lemma_loss_upper(p, n);
    let capped = crate::wide_math::min_int(10_000 + p.price_budget_bps(), u128::MAX as int);
    lemma_ceil_bounds(capped * p.liquidation_fee_bps, 10_000);
    assert(p.liquidation_fee_bps == 0) by (nonlinear_arith)
        requires
            capped * p.liquidation_fee_bps <= 0,
            capped >= 1,
            p.liquidation_fee_bps >= 0,
    ;
    assert(p.worst_liq_notional(n) * p.liquidation_fee_bps == 0) by (nonlinear_arith)
        requires
            p.liquidation_fee_bps == 0,
    ;
}

proof fn lemma_floor_region_covers(p: RiskParams, n: int)
    requires
        p.maintenance_margin_bps > 0,
        0 < n <= p.floor_region_max(),
        n <= MAX_ACCOUNT_NOTIONAL,
        p.covers(crate::wide_math::min_int(p.floor_region_max(), MAX_ACCOUNT_NOTIONAL as int)),
    ensures
        p.covers(n),
{
    let mm = p.maintenance_margin_bps as int;
    let end = crate::wide_math::min_int(p.floor_region_max(), MAX_ACCOUNT_NOTIONAL as int);
    law_worst_total_is_monotone(p, n, end);
    let scaled = (p.min_nonzero_mm_req + 1) * 10_000 - 1;
    vstd::arithmetic::div_mod::lemma_fundamental_div_mod(scaled, mm);
    let top = p.floor_region_max();
    assert(end * mm <= scaled) by (nonlinear_arith)
        requires
            scaled == mm * top + scaled % mm,
            scaled % mm >= 0,
            end <= top,
            mm > 0,
    ;
    assert(end * mm / 10_000 <= p.min_nonzero_mm_req);
}

/// An accepted envelope covers every account: whatever the risk notional of a
/// position within the bound on accounts, its maintenance requirement is at least
/// the worst loss over one accrual window together with the liquidation fee.
pub proof fn law_accepted_envelope_covers_every_notional(p: RiskParams, n: int)
    requires
        p.valid(),
        1 <= n <= MAX_ACCOUNT_NOTIONAL,
    ensures
        p.worst_loss(n) + p.clamp_liq_fee(p.worst_liq_fee_raw(n)) <= p.mm_req(n),
{
    let domain = MAX_ACCOUNT_NOTIONAL as int;
    if p.full_margin_loss_only() {
        lemma_full_margin_covers(p, n);
    } else if p.maintenance_margin_bps == 0 {
        law_worst_total_is_monotone(p, n, domain);
        assert(domain * p.maintenance_margin_bps == 0 && n * p.maintenance_margin_bps == 0)
            by (nonlinear_arith)
            requires
                p.maintenance_margin_bps == 0,
        ;
    } else if n <= p.floor_region_max() {
        lemma_floor_region_covers(p, n);
    } else {
        let start = p.floor_region_max() + 1;
        let scaled = (p.min_nonzero_mm_req + 1) * 10_000 - 1;
        vstd::arithmetic::div_mod::lemma_div_pos_is_pos(scaled, p.maintenance_margin_bps as int);
        if p.loss_budget_bps() + p.liq_budget_bps() < p.maintenance_margin_bps {
            if n >= p.linear_tail() {
                lemma_linear_tail_covers(p, n);
            } else {
                lemma_range_covers(
                    p,
                    start,
                    crate::wide_math::min_int(p.linear_tail() - 1, domain),
                    n,
                );
            }
        } else if p.loss_budget_bps() >= p.maintenance_margin_bps {
            lemma_range_covers(p, start, domain, n);
        } else if n >= p.capped_tail() {
            lemma_capped_tail_covers(p, n);
        } else {
            lemma_range_covers(p, start, crate::wide_math::min_int(p.capped_tail() - 1, domain), n);
        }
    }
}

} // verus!
