//! What a planned accrual promises: the accrual that follows is accepted and leaves the
//! planned indices behind.

use vstd::prelude::*;

use crate::constants::{
    MAX_ACCOUNTS, MAX_ACCOUNT_NOTIONAL, MAX_ORACLE_PRICE, MAX_POSITION_ABS_Q, POS_SCALE,
};
use crate::types::{MarketMode, RiskEngine, RiskError};

verus! {

/// The risk notional of a position of a sound live market is within bounds at every
/// price.
pub proof fn lemma_notional_fits(e: RiskEngine, i: int, price: u64)
    requires
        e.sound(),
        e.market_mode == MarketMode::Live,
        0 <= i < MAX_ACCOUNTS,
        e.slot_used(i),
        e.accounts@[i].position_basis_q != 0,
        !e.is_stale(i),
        0 < price <= MAX_ORACLE_PRICE,
    ensures
        e.notional_spec(i, price, false) is Ok,
        e.notional_spec(i, price, false)->Ok_0 <= MAX_ACCOUNT_NOTIONAL,
{
    reveal(RiskEngine::public_post);
    reveal(RiskEngine::notional_spec);
    reveal(RiskEngine::effective_pos_q_spec);
    crate::conservation::lemma_slots_ok(e, MAX_ACCOUNTS as int, i);
    let a = e.accounts@[i];
    let q = crate::wide_math::abs_int(a.position_basis_q as int);
    let m = e.get_a_side(crate::sides::some_side(a.position_basis_q)) as int;
    assert(e.position_fits(a));
    crate::equity::lemma_share_within(q, m, a.adl_a_basis as int);
    let eff = RiskEngine::effective_abs(q, m, a.adl_a_basis as int);
    assert(0 <= eff <= q);
    assert(0 <= eff * price <= MAX_POSITION_ABS_Q * MAX_ORACLE_PRICE) by (nonlinear_arith)
        requires
            0 <= eff <= MAX_POSITION_ABS_Q,
            0 < price <= MAX_ORACLE_PRICE,
    ;
    crate::envelope_laws::lemma_ceil_monotone(
        eff * price,
        MAX_POSITION_ABS_Q * MAX_ORACLE_PRICE,
        POS_SCALE as int,
    );
}

/// A later slot, another price and other indices take no account out of bounds.
proof fn lemma_accrued_slots(e: RiskEngine, s: RiskEngine, n: int)
    requires
        e.sound(),
        e.market_mode == MarketMode::Live,
        s.market_mode == MarketMode::Live,
        s.accounts == e.accounts,
        s.used == e.used,
        s.params == e.params,
        s.adl_epoch_long == e.adl_epoch_long,
        s.adl_epoch_short == e.adl_epoch_short,
        s.adl_mult_long == e.adl_mult_long,
        s.adl_mult_short == e.adl_mult_short,
        s.side_mode_long == e.side_mode_long,
        s.side_mode_short == e.side_mode_short,
        e.current_slot <= s.current_slot,
        0 < s.last_oracle_price <= MAX_ORACLE_PRICE,
        0 <= n <= MAX_ACCOUNTS,
    ensures
        s.slots_check(n) is Ok,
        s.counts_below(n) == e.counts_below(n),
    decreases n,
{
    if n > 0 {
        lemma_accrued_slots(e, s, n - 1);
        let i = n - 1;
        assert(s.slot_used(i) == e.slot_used(i));
        assert(e.slot_check(i) is Ok) by {
            reveal(RiskEngine::public_post);
            crate::conservation::lemma_slots_ok(e, MAX_ACCOUNTS as int, i);
        }
        let price = s.last_oracle_price;
        if e.slot_used(i) && e.accounts@[i].position_basis_q != 0 && !e.is_stale(i) {
            lemma_notional_fits(e, i, price);
            assert(s.notional_spec(i, price, false) == e.notional_spec(i, price, false)) by {
                reveal(RiskEngine::notional_spec);
                reveal(RiskEngine::effective_pos_q_spec);
            }
        }
    }
}

/// When an accrual is accepted: exactly when the slot, the price and the rate are in
/// range, the segment is bounded, and the indices can be represented.
pub proof fn law_accrual_is_accepted_exactly(e: RiskEngine, slot: u64, price: u64, rate: i128)
    requires
        e.sound(),
    ensures
        e.accrue_market_to_spec(slot, price, rate).1 is Ok <==> {
            let dt = (slot - e.last_market_slot) as u64;
            &&& e.accrual_gate(slot, price, rate) is Ok
            &&& (dt == 0 && price == e.last_oracle_price) || {
                &&& e.segment_bounded(dt, price, rate)
                &&& e.marked_k(price) is Ok
                &&& e.funded_f(rate, dt) is Ok
            }
        },
{
    reveal(RiskEngine::accrue_market_to_spec);
    let dt = (slot - e.last_market_slot) as u64;
    if e.accrual_gate(slot, price, rate) is Ok && e.marked_k(price) is Ok && e.funded_f(
        rate,
        dt,
    ) is Ok {
        let (k, f) = (e.marked_k(price)->Ok_0, e.funded_f(rate, dt)->Ok_0);
        let consumed = if e.price_move_active(price) {
            e.price_move_share(price)
        } else {
            0
        };
        let s = RiskEngine {
            price_move_consumed_bps_this_generation: RiskEngine::saturating_sum(
                e.price_move_consumed_bps_this_generation,
                consumed,
            ),
            ..e.with_marks(
                crate::accrual::Marks {
                    k_long: k.0,
                    k_short: k.1,
                    f_long: f.0,
                    f_short: f.1,
                    current_slot: slot,
                    last_market_slot: slot,
                    last_oracle_price: price,
                    fund_px_last: price,
                },
            )
        };
        lemma_accrued_slots(e, s, MAX_ACCOUNTS as int);
        assert(s.public_post() is Ok) by {
            reveal(RiskEngine::public_post);
        }
    }
}

/// A planned segment is what accrues: in a sound market, an accrual in range for which a
/// segment can be planned is accepted, leaves exactly the planned indices behind, and
/// they keep room for a mark of the largest price.
pub proof fn law_planned_segment_is_what_accrues(
    e: RiskEngine,
    slot: u64,
    price: u64,
    rate: i128,
)
    requires
        e.sound(),
        e.accrual_gate(slot, price, rate) is Ok,
        e.plan_accrual_segment_spec(slot, price, rate) is Ok,
    ensures
        ({
            let p = e.plan_accrual_segment_spec(slot, price, rate)->Ok_0;
            let (s, r) = e.accrue_market_to_spec(slot, price, rate);
            &&& r == Ok::<(), RiskError>(())
            &&& s.adl_coeff_long == p.k_long
            &&& s.adl_coeff_short == p.k_short
            &&& s.f_long_num == p.f_long
            &&& s.f_short_num == p.f_short
            &&& crate::wide_math::abs_int(p.k_long as int) + e.adl_mult_long * MAX_ORACLE_PRICE
                <= i128::MAX
            &&& crate::wide_math::abs_int(p.k_short as int) + e.adl_mult_short * MAX_ORACLE_PRICE
                <= i128::MAX
        }),
{
    law_accrual_is_accepted_exactly(e, slot, price, rate);
    reveal(RiskEngine::plan_accrual_segment_spec);
    reveal(RiskEngine::accrue_market_to_spec);
}

} // verus!
