//! What accrual, settlement, conversion and closing are worth, to the unit.

use vstd::prelude::*;

use crate::accrual_laws::law_accrual_is_accepted_exactly;
use crate::books::{lemma_ledger_of_account, step_accrue_and_touch};
use crate::constants::{MAX_ACCOUNTS, MAX_ORACLE_PRICE};
use crate::context::InstructionContext;
use crate::frames::{
    frame_finish, frame_flat_negative, frame_set_pnl, frame_settle_losses, frame_touch,
};
use crate::measures::{greater, lesser, size_of};
use crate::types::{MarketMode, RiskEngine};

verus! {

/// Whether a number fits an index: in 128 bits, and not the lowest of them.
pub open spec fn fits_index(x: int) -> bool {
    i128::MIN < x <= i128::MAX
}

impl RiskEngine {
    /// What a position of account `i` has gained, or lost, once its price index has come to
    /// `k` and its funding index to `f`, rounded down.
    pub open spec fn gain_to(self, i: int, k: int, f: int) -> int {
        let a = self.accounts@[i];
        size_of(a.position_basis_q as int) * ((k - a.adl_k_snap) * 1_000_000_000 + (f - a.f_snap))
            / (a.adl_a_basis * 1_000_000 * 1_000_000_000)
    }

    /// What account `i` has gained, or lost, since it was last settled: up to the present of
    /// its side, or up to the end of an epoch that is over.
    pub open spec fn unsettled_gain(self, i: int) -> int {
        let a = self.accounts@[i];
        if a.position_basis_q > 0 {
            if a.adl_epoch_snap == self.adl_epoch_long {
                self.gain_to(i, self.adl_coeff_long as int, self.f_long_num as int)
            } else {
                self.gain_to(
                    i,
                    self.adl_epoch_start_k_long as int,
                    self.f_epoch_start_long_num as int,
                )
            }
        } else if a.position_basis_q < 0 {
            if a.adl_epoch_snap == self.adl_epoch_short {
                self.gain_to(i, self.adl_coeff_short as int, self.f_short_num as int)
            } else {
                self.gain_to(
                    i,
                    self.adl_epoch_start_k_short as int,
                    self.f_epoch_start_short_num as int,
                )
            }
        } else {
            0
        }
    }

    /// Funding per unit from the last slot on, where both sides are open.
    pub open spec fn funding_until(self, now_slot: int, rate: int) -> int {
        if self.oi_eff_long_q != 0 && self.oi_eff_short_q != 0 && self.fund_px_last > 0 {
            self.fund_px_last * rate * (now_slot - self.last_market_slot)
        } else {
            0
        }
    }
}

/// What an accrual does to the indices: the price moves longs up and shorts down by the
/// multiplier of the side, if the side is open; funding moves longs down and shorts up, if
/// both are. The slot and the price are then the new ones.
pub proof fn law_accrual_is_exact(e: RiskEngine, now_slot: u64, price: u64, rate: i128)
    requires
        e.accrue_market_to_spec(now_slot, price, rate).1 is Ok,
    ensures
        ({
            let s = e.accrue_market_to_spec(now_slot, price, rate).0;
            let dp = price - e.last_oracle_price;
            let funding = e.funding_until(now_slot as int, rate as int);
            &&& s.adl_coeff_long == e.adl_coeff_long + if e.oi_eff_long_q != 0 {
                e.adl_mult_long * dp
            } else {
                0
            }
            &&& s.adl_coeff_short == e.adl_coeff_short - if e.oi_eff_short_q != 0 {
                e.adl_mult_short * dp
            } else {
                0
            }
            &&& s.f_long_num == e.f_long_num - e.adl_mult_long * funding
            &&& s.f_short_num == e.f_short_num + e.adl_mult_short * funding
            &&& s.last_oracle_price == price
            &&& s.current_slot == now_slot
            &&& s.last_market_slot == now_slot
            &&& s.accounts == e.accounts
            &&& e.same_purse(s)
            &&& e.same_multipliers(s)
            &&& s.oi_eff_long_q == e.oi_eff_long_q
            &&& s.oi_eff_short_q == e.oi_eff_short_q
            &&& s.market_mode == e.market_mode
        }),
{
    reveal(RiskEngine::accrue_market_to_spec);
    let a = e.adl_mult_long as int;
    let b = e.adl_mult_short as int;
    let p = e.fund_px_last as int;
    let dt = now_slot - e.last_market_slot;
    assert(a * 0 == 0 && b * 0 == 0) by (nonlinear_arith);
    assert(p * rate * 0 == 0) by (nonlinear_arith);
    assert(p * 0 * dt == 0) by (nonlinear_arith);
}

/// Which accruals are accepted: on a live market, with a valid price, a funding rate within
/// its bound, and time that does not run backwards. Where the move or the funding would
/// change what a position is worth, the time is bounded, and so is the move, up and down,
/// by the cap for that time. And the indices have to fit.
pub proof fn law_accrual_is_accepted_within_its_bounds(
    e: RiskEngine,
    now_slot: u64,
    price: u64,
    rate: i128,
)
    requires
        e.sound(),
    ensures
        e.accrue_market_to_spec(now_slot, price, rate).1 is Ok <==> {
            let dt = now_slot - e.last_market_slot;
            let dp = price - e.last_oracle_price;
            let open = e.oi_eff_long_q != 0 || e.oi_eff_short_q != 0;
            let both = e.oi_eff_long_q != 0 && e.oi_eff_short_q != 0;
            let moves = dp != 0 && open && e.last_oracle_price > 0;
            let funds = rate != 0 && both && e.fund_px_last > 0;
            let funding = e.funding_until(now_slot as int, rate as int);
            let cap = e.params.max_price_move_bps_per_slot * dt * e.last_oracle_price;
            &&& e.market_mode == MarketMode::Live
            &&& 0 < price <= MAX_ORACLE_PRICE
            &&& size_of(rate as int) <= e.params.max_abs_funding_e9_per_slot
            &&& e.current_slot <= now_slot
            &&& e.last_market_slot <= now_slot
            &&& dt == 0 && dp == 0 || {
                &&& moves || funds ==> dt <= e.params.max_accrual_dt_slots
                &&& moves ==> dp * 10_000 <= cap && -dp * 10_000 <= cap
                &&& e.oi_eff_long_q != 0 && dp != 0 ==> fits_index(
                    e.adl_coeff_long + e.adl_mult_long * dp,
                )
                &&& e.oi_eff_short_q != 0 && dp != 0 ==> fits_index(
                    e.adl_coeff_short - e.adl_mult_short * dp,
                )
                &&& funds && dt != 0 ==> fits_index(e.f_long_num - e.adl_mult_long * funding)
                    && fits_index(e.f_short_num + e.adl_mult_short * funding)
            }
        },
{
    law_accrual_is_accepted_exactly(e, now_slot, price, rate);
    let t = e.fund_px_last * rate * (now_slot - e.last_market_slot);
    let a = e.adl_mult_long as int;
    if i128::MIN < e.f_long_num - a * t <= i128::MAX && 0 < a {
        assert(-u128::MAX <= t <= u128::MAX) by (nonlinear_arith)
            requires
                0 < a,
                -u128::MAX <= a * t <= u128::MAX,
        ;
    }
}

/// A touch settles an account to the unit: its profit moves by what its position has gained
/// or lost, a loss is paid with its own capital as far as that goes, and what is left of a
/// loss is taken from it only if it holds nothing.
pub proof fn law_touch_settles_exactly(e: RiskEngine, i: int, ctx: InstructionContext)
    requires
        e.touch_spec(i, ctx).2 is Ok,
    ensures
        ({
            let s = e.touch_spec(i, ctx).0;
            let a = e.accounts@[i];
            let b = s.accounts@[i];
            let pnl = a.pnl + e.unsettled_gain(i);
            let paid = lesser(greater(-pnl, 0), a.capital.0 as int);
            &&& 0 <= i < MAX_ACCOUNTS
            &&& b.capital.0 == a.capital.0 - paid
            &&& b.pnl == if e.held(i) == 0 {
                greater(pnl + paid, 0)
            } else {
                pnl + paid
            }
            &&& b.fee_credits == a.fee_credits
            &&& s.c_tot.0 == e.c_tot.0 - paid
            &&& s.vault == e.vault
        }),
{
    broadcast use {
        lemma_ledger_of_account,
        frame_set_pnl,
        frame_settle_losses,
        frame_flat_negative,
        crate::isolation::index_flat_negative,
    };

    frame_touch(e, i, ctx);
    reveal(RiskEngine::touch_spec);
    let c = ctx.add_touched_spec(i as u16).0;
    let e1 = e.admit_outstanding_reserve_on_touch_spec(i, c).0;
    let e2 = e1.advance_profit_warmup_spec(i).0;
    lemma_reserve_moves_no_claim(e, i, c);
    let (e3, c3, _) = e2.settle_side_effects_live_spec(i, c);
    lemma_side_effects(e2, i, c);
    let (e4, c4, _) = e3.settle_losses_spec(i, Some(c3));
    let e5 = e4.resolve_flat_negative_spec(i, c4).0;
    crate::frames::lemma_same_held(e4, e5, i);
}

proof fn lemma_reserve_moves_no_claim(e: RiskEngine, i: int, c: InstructionContext)
    requires
        0 <= i < MAX_ACCOUNTS,
        e.admit_outstanding_reserve_on_touch_spec(i, c).1 is Ok,
        e.admit_outstanding_reserve_on_touch_spec(i, c).0.advance_profit_warmup_spec(i).1 is Ok,
    ensures
        ({
            let s = e.admit_outstanding_reserve_on_touch_spec(i, c).0.advance_profit_warmup_spec(
                i,
            ).0;
            &&& s.accounts@[i].stance() == e.accounts@[i].stance()
            &&& s.accounts@[i].capital == e.accounts@[i].capital
            &&& s.accounts@[i].pnl == e.accounts@[i].pnl
            &&& s.accounts@[i].fee_credits == e.accounts@[i].fee_credits
            &&& s.vault == e.vault
            &&& s.c_tot == e.c_tot
            &&& e.same_indices(s)
            &&& s.adl_epoch_start_k_long == e.adl_epoch_start_k_long
            &&& s.adl_epoch_start_k_short == e.adl_epoch_start_k_short
            &&& s.f_epoch_start_long_num == e.f_epoch_start_long_num
            &&& s.f_epoch_start_short_num == e.f_epoch_start_short_num
        }),
{
    broadcast use {
        lemma_ledger_of_account,
        crate::isolation::index_admit,
        crate::isolation::index_warmup,
    };

    reveal(RiskEngine::admit_outstanding_reserve_on_touch_spec);
    reveal(RiskEngine::advance_profit_warmup_spec);
}

proof fn lemma_side_effects(e: RiskEngine, i: int, c: InstructionContext)
    requires
        0 <= i < MAX_ACCOUNTS,
        e.settle_side_effects_live_spec(i, c).2 is Ok,
    ensures
        ({
            let s = e.settle_side_effects_live_spec(i, c).0;
            &&& s.accounts@[i].capital == e.accounts@[i].capital
            &&& s.accounts@[i].pnl == e.accounts@[i].pnl + e.unsettled_gain(i)
            &&& s.accounts@[i].fee_credits == e.accounts@[i].fee_credits
            &&& s.vault == e.vault
            &&& s.c_tot == e.c_tot
        }),
{
    broadcast use {lemma_ledger_of_account, frame_set_pnl};

    reveal(RiskEngine::settle_side_effects_live_spec);
    reveal(RiskEngine::set_position_basis_q_inner_spec);
}

/// Bringing an account up to date, as an instruction, with `m` the market accrued: the
/// account then owns what it owned and what its position has gained or lost, and no less
/// than nothing before fees if it holds nothing. It holds what it held, unless a reset ends
/// that.
pub proof fn law_settlement_by_instruction(
    e: RiskEngine,
    idx: u16,
    price: u64,
    now_slot: u64,
    rate: i128,
    h_min: u64,
    h_max: u64,
    threshold_opt: Option<u128>,
)
    requires
        e.sound(),
        e.settle_account_spec(idx, price, now_slot, rate, h_min, h_max, threshold_opt).1 is Ok,
    ensures
        ({
            let s = e.settle_account_spec(
                idx,
                price,
                now_slot,
                rate,
                h_min,
                h_max,
                threshold_opt,
            ).0;
            let i = idx as int;
            let m = e.accrue_market_to_spec(now_slot, price, rate).0;
            let a = e.accounts@[i];
            let all = a.capital.0 + a.pnl + m.unsettled_gain(i);
            &&& 0 <= i < MAX_ACCOUNTS && i < e.params.max_accounts && e.slot_used(i)
            &&& s.accounts@[i].owns() == if e.held(i) == 0 {
                greater(all, 0)
            } else {
                all
            } - a.owes()
            &&& s.held(i) == e.held(i) || s.held(i) == 0
            &&& s.vault == e.vault
        }),
{
    broadcast use step_accrue_and_touch;

    reveal(RiskEngine::settle_account_spec);
    let i = idx as int;
    let ctx = RiskEngine::admission(h_min, h_max, threshold_opt);
    lemma_touched_owns(e, i, ctx, now_slot, price, rate);
    let (t, c, _) = e.accrue_and_touch_spec(i, ctx, now_slot, price, rate);
    frame_finish(t, c, i);
}

/// Accruing the market and touching an account leaves it with what it owned and what its
/// position has gained or lost.
pub proof fn lemma_touched_owns(
    e: RiskEngine,
    i: int,
    ctx: InstructionContext,
    now_slot: u64,
    price: u64,
    rate: i128,
)
    requires
        e.accrue_and_touch_spec(i, ctx, now_slot, price, rate).2 is Ok,
    ensures
        ({
            let t = e.accrue_and_touch_spec(i, ctx, now_slot, price, rate).0;
            let m = e.accrue_market_to_spec(now_slot, price, rate).0;
            let a = e.accounts@[i];
            let all = a.capital.0 + a.pnl + m.unsettled_gain(i);
            &&& 0 <= i < MAX_ACCOUNTS && i < e.params.max_accounts && e.slot_used(i)
            &&& t.accounts@[i].owns() == if e.held(i) == 0 {
                greater(all, 0)
            } else {
                all
            } - a.owes()
            &&& t.held(i) == e.held(i)
            &&& t.vault == e.vault
            &&& t.accounts@[i].loss() > 0 ==> t.accounts@[i].capital.0 == 0 && e.held(i) != 0
        }),
{
    crate::liquidation_laws::lemma_accrued_and_touched(e, i, ctx, now_slot, price, rate);
    reveal(RiskEngine::accrue_and_touch_spec);
    let m = e.accrue_market_to_spec(now_slot, price, rate).0;
    law_accrual_is_exact(e, now_slot, price, rate);
    crate::frames::lemma_same_held(e, m, i);
    law_touch_settles_exactly(m, i, ctx);
}

/// A conversion of profit, as an instruction, with `t` the market in which the account has
/// just been brought up to date. No more can be converted than has left warmup, and it
/// counts for its share in the backing. What the account owns falls by what that share
/// leaves out, and by no more; and the account comes out healthy if it holds something, and
/// not in debt if it holds nothing.
pub proof fn law_conversion_by_instruction(
    e: RiskEngine,
    idx: u16,
    x: u128,
    price: u64,
    now_slot: u64,
    rate: i128,
    h_min: u64,
    h_max: u64,
    threshold_opt: Option<u128>,
)
    requires
        e.sound(),
        e.convert_released_spec(
            idx,
            x,
            price,
            now_slot,
            rate,
            h_min,
            h_max,
            threshold_opt,
        ).1 is Ok,
    ensures
        ({
            let s = e.convert_released_spec(
                idx,
                x,
                price,
                now_slot,
                rate,
                h_min,
                h_max,
                threshold_opt,
            ).0;
            let i = idx as int;
            let t = e.accrue_and_touch_spec(
                i,
                RiskEngine::admission(h_min, h_max, threshold_opt),
                now_slot,
                price,
                rate,
            ).0;
            &&& 0 < x <= t.ripe(t.accounts@[i])
            &&& s.accounts@[i].owns() == t.accounts@[i].owns() - x + t.ripe_worth(x as int)
            &&& e.held(i) != 0 ==> s.accounts@[i].owns() > s.need_to_keep(e.held(i), price as int)
            &&& e.held(i) != 0 ==> s.accounts@[i].pnl == t.accounts@[i].pnl - x
            &&& e.held(i) == 0 ==> s.accounts@[i].owns() >= 0
            &&& s.held(i) == e.held(i) || s.held(i) == 0
            &&& s.vault == e.vault
        }),
{
    broadcast use step_accrue_and_touch;

    reveal(RiskEngine::convert_released_spec);
    let i = idx as int;
    let ctx = RiskEngine::admission(h_min, h_max, threshold_opt);
    crate::liquidation_laws::lemma_accrued_and_touched(e, i, ctx, now_slot, price, rate);
    let (t, c, _) = e.accrue_and_touch_spec(i, ctx, now_slot, price, rate);
    lemma_converted(t, i, x, price);
    let u = t.convert_core_spec(i, x, price).0;
    frame_finish(u, c, i);
}

proof fn lemma_converted(t: RiskEngine, i: int, x: u128, price: u64)
    requires
        0 <= i < MAX_ACCOUNTS,
        0 < price <= MAX_ORACLE_PRICE,
        t.positions_fit(),
        t.convert_core_spec(i, x, price).1 is Ok,
    ensures
        ({
            let u = t.convert_core_spec(i, x, price).0;
            &&& 0 < x <= t.ripe(t.accounts@[i])
            &&& u.accounts@[i].owns() == t.accounts@[i].owns() - x + t.ripe_worth(x as int)
            &&& u.accounts@[i].pnl == t.accounts@[i].pnl - x
            &&& u.accounts@[i].stance() == t.accounts@[i].stance()
            &&& u.held(i) == t.held(i)
            &&& u.held(i) != 0 ==> u.is_healthy(i, price as int)
            &&& u.held(i) == 0 ==> u.accounts@[i].owns() >= 0
            &&& u.vault == t.vault
            &&& u.params == t.params
            &&& u.positions_fit()
        }),
{
    broadcast use lemma_ledger_of_account;

    reveal(RiskEngine::convert_core_spec);
    reveal(RiskEngine::consume_released_pnl_spec);
    reveal(RiskEngine::set_capital_spec);
    reveal(RiskEngine::fee_debt_sweep_spec);
    let u = t.convert_core_spec(i, x, price).0;
    let h = t.haircut();
    if t.pnl_matured_pos_tot <= t.backing() {
        assert(x * h.1 / (h.1 as int) == x) by (nonlinear_arith)
            requires
                0 < h.1,
        ;
    }
    crate::equity::lemma_share_within(x as int, h.0 as int, h.1 as int);
    crate::frames::lemma_same_held(t, u, i);
    crate::margin_laws::law_effective_position_is_what_is_held(u, i, false);
    crate::margin_laws::law_above_maintenance_is_healthy(u, i, price);
}

/// What an account without a position can convert safely at a ratio is the most that leaves
/// it with no debt: one more would cost more than it owns, unless that is all that was
/// asked for.
pub proof fn law_safe_conversion_is_the_most(
    e: RiskEngine,
    i: int,
    asked: u128,
    num: u128,
    den: u128,
)
    requires
        0 <= i < MAX_ACCOUNTS,
        i < e.params.max_accounts,
        e.slot_used(i),
        0 < den,
        num <= den,
        e.accounts@[i].owns() <= i128::MAX,
    ensures
        ({
            let most = e.max_safe_conversion(i, asked, num, den);
            let owns = e.accounts@[i].owns();
            let lost = den - num;
            &&& 0 <= most <= asked
            &&& owns <= 0 ==> most == 0
            &&& owns > 0 ==> most * lost <= owns * den
            &&& owns > 0 && most < asked ==> owns * den < (most + 1) * lost
        }),
{
    let owns = e.accounts@[i].owns();
    let lost = den - num;
    if owns > 0 && lost > 0 {
        let d = den as int;
        assert(owns * d >= 0) by (nonlinear_arith)
            requires
                owns > 0,
                d > 0,
        ;
        let q = owns * d / lost;
        vstd::arithmetic::div_mod::lemma_fundamental_div_mod(owns * d, lost);
        assert(0 <= q && q * lost <= owns * d < (q + 1) * lost) by (nonlinear_arith)
            requires
                owns * d == lost * q + (owns * d) % lost,
                0 <= (owns * d) % lost < lost,
                owns * d >= 0,
                lost > 0,
        ;
        let most = e.max_safe_conversion(i, asked, num, den);
        assert(most <= q ==> most * lost <= q * lost) by (nonlinear_arith)
            requires
                lost > 0,
        ;
    } else if owns > 0 {
        assert(asked * lost == 0) by (nonlinear_arith)
            requires
                lost == 0,
        ;
        assert(owns * den >= 0) by (nonlinear_arith)
            requires
                owns > 0,
        ;
    }
}

} // verus!
