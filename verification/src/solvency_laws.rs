//! One accrual cannot ruin a margined account: prices and funding move inside a
//! budget, and the maintenance requirement covers the whole budget and the
//! liquidation fee.

use vstd::prelude::*;

use crate::constants::{FUNDING_DEN, MAX_ACCOUNTS, MAX_ACCOUNT_NOTIONAL, POS_SCALE};
use crate::types::{Account, RiskEngine, Side};

verus! {

/// An accepted accrual of an exposed market is bounded: a price moves by at most the
/// cap for the slots that have passed, never within a slot, and both prices and
/// funding move only inside the largest window.
pub proof fn law_accrual_is_bounded(e: RiskEngine, now_slot: u64, price: u64, rate: i128)
    requires
        e.accrue_market_to_spec(now_slot, price, rate).1 is Ok,
        e.exposed_market_has_oi(),
    ensures
        ({
            let dt = now_slot - e.last_market_slot;
            &&& price != e.last_oracle_price ==> {
                &&& 0 < dt <= e.params.max_accrual_dt_slots
                &&& e.price_distance(price) * 10_000 <= e.params.max_price_move_bps_per_slot * dt
                    * e.last_oracle_price
                &&& e.price_distance(price) * 10_000 <= e.params.price_budget_bps()
                    * e.last_oracle_price
            }
            &&& e.funding_active(rate) ==> dt <= e.params.max_accrual_dt_slots
            &&& crate::wide_math::abs_int(rate as int) <= e.params.max_abs_funding_e9_per_slot
        }),
{
    reveal(RiskEngine::accrue_market_to_spec);
    reveal(RiskEngine::public_post);
    let dt = now_slot - e.last_market_slot;
    let cap = e.params.max_price_move_bps_per_slot as int;
    let p = e.last_oracle_price as int;
    if price != e.last_oracle_price {
        assert(dt > 0) by {
            assert(cap * 0 * p == 0) by (nonlinear_arith);
        }
        assert(cap * dt * p <= cap * e.params.max_accrual_dt_slots * p) by (nonlinear_arith)
            requires
                0 <= cap,
                0 <= p,
                0 <= dt <= e.params.max_accrual_dt_slots,
        ;
    }
}

/// The indices of the two sides move against each other: by the multiplier of the
/// side for each unit of price, and by the same funding in opposite directions.
pub proof fn law_sides_move_against_each_other(
    e: RiskEngine,
    now_slot: u64,
    price: u64,
    rate: i128,
)
    requires
        e.sound(),
        e.accrue_market_to_spec(now_slot, price, rate).1 is Ok,
    ensures
        ({
            let s = e.accrue_market_to_spec(now_slot, price, rate).0;
            let dp = price - e.last_oracle_price;
            let funding = if e.funding_active(rate) {
                e.last_oracle_price * rate * (now_slot - e.last_market_slot)
            } else {
                0
            };
            &&& s.adl_coeff_long - e.adl_coeff_long == if e.oi_eff_long_q != 0 {
                e.adl_mult_long * dp
            } else {
                0
            }
            &&& s.adl_coeff_short - e.adl_coeff_short == if e.oi_eff_short_q != 0 {
                -(e.adl_mult_short * dp)
            } else {
                0
            }
            &&& s.f_long_num - e.f_long_num == -(e.adl_mult_long * funding)
            &&& s.f_short_num - e.f_short_num == e.adl_mult_short * funding
            &&& s.last_oracle_price == price || dp == 0
        }),
{
    reveal(RiskEngine::accrue_market_to_spec);
    let dt = (now_slot - e.last_market_slot) as u64;
    let a = e.adl_mult_long as int;
    let b = e.adl_mult_short as int;
    let p = e.last_oracle_price as int;
    assert(a * 0 == 0 && b * 0 == 0) by (nonlinear_arith);
    assert(p * rate * 0 == 0) by (nonlinear_arith);
}

proof fn lemma_ceil_ratio(x: int, d1: int, y: int, d2: int)
    requires
        0 <= x,
        0 < d1,
        0 < d2,
        x * d2 <= y * d1,
    ensures
        crate::wide_math::ceil_div(x, d1) <= crate::wide_math::ceil_div(y, d2),
{
    let c = crate::wide_math::ceil_div(y, d2);
    crate::envelope_laws::lemma_ceil_bounds(y, d2);
    assert(x * d2 <= c * d1 * d2) by (nonlinear_arith)
        requires
            x * d2 <= y * d1,
            y <= c * d2,
            0 < d1,
    ;
    assert(x <= c * d1) by (nonlinear_arith)
        requires
            x * d2 <= c * d1 * d2,
            0 < d2,
    ;
    crate::envelope_laws::lemma_ceil_bounds(x, d1);
    let t = crate::wide_math::ceil_div(x, d1);
    assert(t <= c) by (nonlinear_arith)
        requires
            x <= c * d1,
            d1 * t < x + d1,
            0 < d1,
    ;
}

/// What price and funding together move one unit of position, over the funding
/// denominator, against what the budget allows.
proof fn lemma_move_within_budget(
    dp: int,
    p: int,
    rate: int,
    dt: int,
    price_budget: int,
    max_rate: int,
    max_dt: int,
    w: int,
)
    requires
        crate::wide_math::abs_int(dp) * 10_000 <= price_budget * p,
        crate::wide_math::abs_int(rate) <= max_rate,
        0 <= dt <= max_dt,
        0 <= p,
        w == dp * FUNDING_DEN - p * rate * dt || w == p * rate * dt - dp * FUNDING_DEN,
    ensures
        crate::wide_math::abs_int(w) * 10_000 <= p * (price_budget * FUNDING_DEN + max_rate * max_dt
            * 10_000),
{
    let ar = crate::wide_math::abs_int(rate);
    let t = p * rate * dt;
    let at = crate::wide_math::abs_int(t);
    assert(at <= p * (max_rate * max_dt)) by {
        assert(rate * dt <= max_rate * max_dt && -(rate * dt) <= max_rate * max_dt)
            by (nonlinear_arith)
            requires
                -max_rate <= rate <= max_rate,
                0 <= dt <= max_dt,
                0 <= max_rate,
        ;
        assert(p * rate * dt == p * (rate * dt)) by (nonlinear_arith);
        let m = max_rate * max_dt;
        let r = rate * dt;
        assert(p * r <= p * m && -(p * r) <= p * m) by (nonlinear_arith)
            requires
                r <= m,
                -r <= m,
                0 <= p,
        ;
    }
    let ad = crate::wide_math::abs_int(dp);
    assert(crate::wide_math::abs_int(w) <= ad * FUNDING_DEN + at);
    assert(p * (price_budget * FUNDING_DEN + max_rate * max_dt * 10_000) == price_budget * p
        * FUNDING_DEN + p * (max_rate * max_dt) * 10_000) by (nonlinear_arith)
        requires
            FUNDING_DEN == 1_000_000_000,
    ;
    assert(ad * FUNDING_DEN * 10_000 <= price_budget * p * FUNDING_DEN) by (nonlinear_arith)
        requires
            ad * 10_000 <= price_budget * p,
            FUNDING_DEN == 1_000_000_000,
    ;
}

/// A unit of position that moves within the budget loses at most the worst loss of
/// its risk notional.
proof fn lemma_loss_within_worst(e: RiskEngine, q: int, w: int)
    requires
        0 <= q,
        crate::wide_math::abs_int(w) * 10_000 <= e.last_oracle_price * e.params.loss_budget_num(),
    ensures
        crate::wide_math::ceil_div(q * crate::wide_math::abs_int(w), POS_SCALE * FUNDING_DEN)
            <= e.params.worst_loss(RiskEngine::risk_notional(q, e.last_oracle_price as int)),
{
    let p = e.last_oracle_price as int;
    let n = RiskEngine::risk_notional(q, p);
    let lbn = e.params.loss_budget_num();
    let aw = crate::wide_math::abs_int(w);
    assert(0 <= q * p) by (nonlinear_arith)
        requires
            0 <= q,
            0 <= p,
    ;
    crate::envelope_laws::lemma_ceil_bounds(q * p, POS_SCALE as int);
    assert(q * p <= n * POS_SCALE);
    let x = q * aw;
    assert(0 <= x) by (nonlinear_arith)
        requires
            x == q * aw,
            0 <= q,
            0 <= aw,
    ;
    assert(0 <= lbn) by {
        assert(e.params.price_budget_bps() >= 0) by (nonlinear_arith)
            requires
                e.params.price_budget_bps() == e.params.max_price_move_bps_per_slot
                    * e.params.max_accrual_dt_slots,
        ;
        assert(e.params.funding_budget_num() >= 0) by (nonlinear_arith)
            requires
                e.params.funding_budget_num() == e.params.max_abs_funding_e9_per_slot
                    * e.params.max_accrual_dt_slots * 10_000,
        ;
    }
    assert(x * 10_000 <= q * p * lbn) by (nonlinear_arith)
        requires
            x == q * aw,
            0 <= q,
            aw * 10_000 <= p * lbn,
    ;
    assert(q * p * lbn <= n * POS_SCALE * lbn) by (nonlinear_arith)
        requires
            q * p <= n * POS_SCALE,
            0 <= lbn,
    ;
    assert(x * (10_000 * FUNDING_DEN) <= n * lbn * (POS_SCALE * FUNDING_DEN)) by (nonlinear_arith)
        requires
            x * 10_000 <= n * POS_SCALE * lbn,
            FUNDING_DEN == 1_000_000_000,
    ;
    lemma_ceil_ratio(
        x,
        POS_SCALE * FUNDING_DEN,
        n * lbn,
        crate::types::RiskParams::loss_budget_den(),
    );
}

impl RiskEngine {
    /// Size of a position in the present epoch, rounded up. A position that was attached
    /// at the present multiplier has exactly its basis.
    pub open spec fn size_ceiling(self, a: Account) -> int {
        crate::wide_math::ceil_div(
            crate::wide_math::abs_int(a.position_basis_q as int) * self.get_a_side(
                crate::sides::some_side(a.position_basis_q),
            ),
            a.adl_a_basis as int,
        )
    }
}

/// What a basis loses over an index delta is at most what its size, rounded up, loses
/// over the movement of one unit.
proof fn lemma_loss_of_size(q: int, mult: int, basis: int, w: int)
    requires
        0 <= q,
        0 <= mult,
        0 < basis,
    ensures
        -(q * (mult * w) / (basis * POS_SCALE * FUNDING_DEN)) <= crate::wide_math::ceil_div(
            crate::wide_math::ceil_div(q * mult, basis) * crate::wide_math::abs_int(w),
            POS_SCALE * FUNDING_DEN,
        ),
{
    let d = POS_SCALE * FUNDING_DEN;
    let aw = crate::wide_math::abs_int(w);
    let size = crate::wide_math::ceil_div(q * mult, basis);
    let x = q * (mult * w);
    let ax = crate::wide_math::abs_int(x);
    assert(0 <= q * mult) by (nonlinear_arith)
        requires
            0 <= q,
            0 <= mult,
    ;
    crate::envelope_laws::lemma_ceil_bounds(q * mult, basis);
    let m = q * mult;
    assert(x == m * w) by (nonlinear_arith)
        requires
            x == q * (mult * w),
            m == q * mult,
    ;
    assert(ax == m * aw) by (nonlinear_arith)
        requires
            x == m * w,
            0 <= m,
            aw == crate::wide_math::abs_int(w),
            ax == crate::wide_math::abs_int(x),
    ;
    assert(0 <= ax);
    assert(m * aw <= basis * size * aw) by (nonlinear_arith)
        requires
            m <= basis * size,
            0 <= aw,
    ;
    assert(ax * d <= size * aw * (basis * d)) by (nonlinear_arith)
        requires
            ax <= basis * size * aw,
            0 <= d,
    ;
    assert(0 < basis * d) by (nonlinear_arith)
        requires
            0 < basis,
            0 < d,
    ;
    assert(basis * POS_SCALE * FUNDING_DEN == basis * d) by (nonlinear_arith)
        requires
            d == POS_SCALE * FUNDING_DEN,
    ;
    lemma_ceil_ratio(ax, basis * d, size * aw, d);
    lemma_floor_bounds_loss(x, basis * d);
}

/// Division rounds a loss up.
proof fn lemma_floor_bounds_loss(x: int, d: int)
    requires
        0 < d,
    ensures
        -(x / d) <= crate::wide_math::ceil_div(crate::wide_math::abs_int(x), d),
{
    let ax = crate::wide_math::abs_int(x);
    crate::envelope_laws::lemma_ceil_bounds(ax, d);
    let c = crate::wide_math::ceil_div(ax, d);
    assert(x >= -c * d) by (nonlinear_arith)
        requires
            ax <= d * c,
            -ax <= x,
    ;
    assert(x / d >= -c) by (nonlinear_arith)
        requires
            x >= -c * d,
            0 < d,
    ;
}

/// What a position gains or loses in one accrual: with its snapshots at the present
/// indices, its loss is at most the worst loss of the risk notional of its size.
pub proof fn law_accrual_loss_is_within_budget(
    e: RiskEngine,
    i: int,
    now_slot: u64,
    price: u64,
    rate: i128,
)
    requires
        e.sound(),
        e.accrue_market_to_spec(now_slot, price, rate).1 is Ok,
        0 <= i < MAX_ACCOUNTS,
        e.accounts@[i].position_basis_q != 0,
        ({
            let a = e.accounts@[i];
            let side = crate::sides::some_side(a.position_basis_q);
            &&& a.adl_k_snap == e.get_k_side(side)
            &&& a.f_snap == e.get_f_side(side)
            &&& 0 < a.adl_a_basis
        }),
    ensures
        ({
            let a = e.accounts@[i];
            let side = crate::sides::some_side(a.position_basis_q);
            let s = e.accrue_market_to_spec(now_slot, price, rate).0;
            let n = RiskEngine::risk_notional(e.size_ceiling(a), e.last_oracle_price as int);
            s.settled_pnl(i, s.get_k_side(side), s.get_f_side(side)) matches Ok(pnl) ==> a.pnl - pnl
                <= e.params.worst_loss(n)
        }),
{
    let acc = e.accounts@[i];
    let side = crate::sides::some_side(acc.position_basis_q);
    let s = e.accrue_market_to_spec(now_slot, price, rate).0;
    let q = crate::wide_math::abs_int(acc.position_basis_q as int);
    let a = e.get_a_side(side) as int;
    let p = e.last_oracle_price as int;
    let dp = price - e.last_oracle_price;
    let dt = now_slot - e.last_market_slot;
    let funding = if e.funding_active(rate) {
        p * rate * dt
    } else {
        0
    };
    let moved = if e.get_oi_eff(side) != 0 {
        dp
    } else {
        0
    };
    let r = if e.funding_active(rate) {
        rate as int
    } else {
        0
    };
    let t = if e.funding_active(rate) {
        dt
    } else {
        0
    };
    let w = match side {
        Side::Long => moved * FUNDING_DEN - funding,
        Side::Short => funding - moved * FUNDING_DEN,
    };
    law_sides_move_against_each_other(e, now_slot, price, rate);
    assert(e.last_market_slot <= now_slot) by {
        reveal(RiskEngine::accrue_market_to_spec);
    }
    assert(crate::wide_math::abs_int(moved) * 10_000 <= e.params.price_budget_bps() * p) by {
        assert(e.params.price_budget_bps() * p >= 0) by (nonlinear_arith)
            requires
                e.params.price_budget_bps() == e.params.max_price_move_bps_per_slot
                    * e.params.max_accrual_dt_slots,
                0 <= p,
        ;
        if moved != 0 {
            law_accrual_is_bounded(e, now_slot, price, rate);
        }
    }
    assert(crate::wide_math::abs_int(r) <= e.params.max_abs_funding_e9_per_slot && 0 <= t
        <= e.params.max_accrual_dt_slots) by {
        if e.funding_active(rate) {
            law_accrual_is_bounded(e, now_slot, price, rate);
        }
    }
    assert(p * r * t == funding) by {
        assert(p * 0 * 0 == 0) by (nonlinear_arith);
    }
    lemma_move_within_budget(
        moved,
        p,
        r,
        t,
        e.params.price_budget_bps(),
        e.params.max_abs_funding_e9_per_slot as int,
        e.params.max_accrual_dt_slots as int,
        w,
    );
    lemma_loss_of_size(q, a, acc.adl_a_basis as int, w);
    let size = e.size_ceiling(acc);
    assert(0 <= size) by {
        assert(0 <= q * a) by (nonlinear_arith)
            requires
                0 <= q,
                0 <= a,
        ;
        crate::envelope_laws::lemma_ceil_bounds(q * a, acc.adl_a_basis as int);
    }
    lemma_loss_within_worst(e, size, w);
    let dk = s.get_k_side(side) - acc.adl_k_snap;
    let df = s.get_f_side(side) - acc.f_snap;
    assert(a * moved * FUNDING_DEN - a * funding == a * (moved * FUNDING_DEN - funding))
        by (nonlinear_arith)
        requires
            FUNDING_DEN == 1_000_000_000,
    ;
    assert(a * funding - a * moved * FUNDING_DEN == a * (funding - moved * FUNDING_DEN))
        by (nonlinear_arith)
        requires
            FUNDING_DEN == 1_000_000_000,
    ;
    assert(a * 0 == 0) by (nonlinear_arith);
    assert(dk * FUNDING_DEN + df == a * w);
    assert(s.accounts@ == e.accounts@) by {
        reveal(RiskEngine::accrue_market_to_spec);
    }
}

/// The liquidation fee after one accrual is at most the fee that the envelope budgets
/// for the notional before it.
proof fn lemma_fee_within_budget(e: RiskEngine, q: u128, price: u64)
    requires
        e.price_distance(price) * 10_000 <= e.params.price_budget_bps() * e.last_oracle_price,
    ensures
        ({
            let n = RiskEngine::risk_notional(q as int, e.last_oracle_price as int);
            e.liquidation_fee_spec(q, price) <= e.params.clamp_liq_fee(
                e.params.worst_liq_fee_raw(n),
            )
        }),
{
    let p = e.last_oracle_price as int;
    let n = RiskEngine::risk_notional(q as int, p);
    let b = e.params.price_budget_bps();
    let m = q * price / (POS_SCALE as int);
    assert(0 <= q * p) by (nonlinear_arith)
        requires
            0 <= p,
    ;
    crate::envelope_laws::lemma_ceil_bounds(q * p, POS_SCALE as int);
    assert(price * 10_000 <= p * (10_000 + b)) by (nonlinear_arith)
        requires
            (price - p) * 10_000 <= b * p,
    ;
    assert(q * price * 10_000 <= q * p * (10_000 + b)) by (nonlinear_arith)
        requires
            price * 10_000 <= p * (10_000 + b),
    ;
    assert(0 <= b) by (nonlinear_arith)
        requires
            b == e.params.max_price_move_bps_per_slot * e.params.max_accrual_dt_slots,
    ;
    assert(q * p * (10_000 + b) <= n * POS_SCALE * (10_000 + b)) by (nonlinear_arith)
        requires
            q * p <= n * POS_SCALE,
            0 <= b,
    ;
    assert(m * POS_SCALE <= q * price) by (nonlinear_arith)
        requires
            m == q * price / 1_000_000,
            POS_SCALE == 1_000_000,
    ;
    let y = n * (10_000 + b);
    assert(n * POS_SCALE * (10_000 + b) == y * POS_SCALE) by (nonlinear_arith)
        requires
            y == n * (10_000 + b),
    ;
    assert(m * 10_000 <= y);
    crate::envelope_laws::lemma_ceil_bounds(y, 10_000);
    assert(m <= e.params.worst_liq_notional(n));
    let wn = e.params.worst_liq_notional(n);
    let f = e.params.liquidation_fee_bps as int;
    assert(m * f <= wn * f) by (nonlinear_arith)
        requires
            m <= wn,
            0 <= f,
    ;
    crate::envelope_laws::lemma_ceil_monotone(m * f, wn * f, 10_000);
}

/// One accrual cannot ruin an account above maintenance. If its snapshots are at the
/// present indices and its equity is above the requirement of its size, then after any
/// accepted accrual its equity still covers the liquidation fee on that size.
pub proof fn law_one_accrual_cannot_bankrupt(
    e: RiskEngine,
    i: int,
    now_slot: u64,
    price: u64,
    rate: i128,
)
    requires
        e.sound(),
        e.params.valid(),
        e.accrue_market_to_spec(now_slot, price, rate).1 is Ok,
        e.exposed_market_has_oi(),
        0 <= i < MAX_ACCOUNTS,
        e.slot_used(i),
        e.accounts@[i].position_basis_q != 0,
        ({
            let a = e.accounts@[i];
            let side = crate::sides::some_side(a.position_basis_q);
            let n = RiskEngine::risk_notional(e.size_ceiling(a), e.last_oracle_price as int);
            &&& a.adl_k_snap == e.get_k_side(side)
            &&& a.f_snap == e.get_f_side(side)
            &&& n <= MAX_ACCOUNT_NOTIONAL
            &&& a.equity_maint() > e.params.mm_req(n)
        }),
    ensures
        ({
            let a = e.accounts@[i];
            let side = crate::sides::some_side(a.position_basis_q);
            let s = e.accrue_market_to_spec(now_slot, price, rate).0;
            s.settled_pnl(i, s.get_k_side(side), s.get_f_side(side)) matches Ok(pnl) ==> {
                let after = Account { pnl, ..a };
                after.equity_maint() - s.liquidation_fee_spec(e.size_ceiling(a) as u128, price) > 0
            }
        }),
{
    let a = e.accounts@[i];
    let side = crate::sides::some_side(a.position_basis_q);
    let s = e.accrue_market_to_spec(now_slot, price, rate).0;
    let size = e.size_ceiling(a);
    let p = e.last_oracle_price as int;
    assert(s.params == e.params) by {
        reveal(RiskEngine::accrue_market_to_spec);
    }
    lemma_own_size(e, i);
    law_accrual_loss_is_within_budget(e, i, now_slot, price, rate);
    law_accrual_is_bounded(e, now_slot, price, rate);
    assert(e.price_distance(price) * 10_000 <= e.params.price_budget_bps() * p) by {
        assert(e.params.price_budget_bps() * p >= 0) by (nonlinear_arith)
            requires
                e.params.price_budget_bps() == e.params.max_price_move_bps_per_slot
                    * e.params.max_accrual_dt_slots,
                0 <= p,
        ;
    }
    lemma_fee_within_budget(e, size as u128, price);
    crate::envelope_laws::law_accepted_envelope_covers_every_notional(
        e.params,
        RiskEngine::risk_notional(size, p),
    );
}

/// The size of a position in a sound market, and its risk notional.
proof fn lemma_own_size(e: RiskEngine, i: int)
    requires
        e.sound(),
        0 <= i < MAX_ACCOUNTS,
        e.slot_used(i),
        e.accounts@[i].position_basis_q != 0,
        RiskEngine::risk_notional(
            e.size_ceiling(e.accounts@[i]),
            e.last_oracle_price as int,
        ) <= MAX_ACCOUNT_NOTIONAL,
    ensures
        0 < e.accounts@[i].adl_a_basis,
        0 < e.size_ceiling(e.accounts@[i]) <= u128::MAX,
        0 < RiskEngine::risk_notional(
            e.size_ceiling(e.accounts@[i]),
            e.last_oracle_price as int,
        ),
{
    reveal(RiskEngine::public_post);
    crate::conservation::lemma_slots_ok(e, MAX_ACCOUNTS as int, i);
    let a = e.accounts@[i];
    let q = crate::wide_math::abs_int(a.position_basis_q as int);
    let m = e.get_a_side(crate::sides::some_side(a.position_basis_q)) as int;
    let size = e.size_ceiling(a);
    assert(0 < q * m) by (nonlinear_arith)
        requires
            0 < q,
            0 < m,
    ;
    crate::envelope_laws::lemma_ceil_bounds(q * m, a.adl_a_basis as int);
    assert(0 < size) by (nonlinear_arith)
        requires
            0 < q * m,
            q * m <= a.adl_a_basis * size,
    ;
    let p = e.last_oracle_price as int;
    let n = RiskEngine::risk_notional(size, p);
    assert(size <= size * p) by (nonlinear_arith)
        requires
            0 < size,
            0 < p,
    ;
    crate::envelope_laws::lemma_ceil_bounds(size * p, POS_SCALE as int);
}

} // verus!
