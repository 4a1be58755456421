//! Profit is a junior claim: it waits in warmup, it is scaled to what backs it, and
//! all claims together never exceed what the vault holds beyond capital and
//! insurance.

use vstd::prelude::*;

use crate::books::{lemma_ledger_of_account, step_append_reserve};
use crate::constants::MAX_ACCOUNTS;
use crate::context::InstructionContext;
use crate::sides::i128_clamp_pos;
use crate::types::{Account, MarketMode, ReserveMode, RiskEngine, RiskError};

verus! {

/// The haircut is a ratio of at most one, and it is one exactly when the residual
/// covers all matured profit.
pub proof fn law_haircut_is_one_exactly_when_backed(e: RiskEngine)
    ensures
        e.haircut().0 <= e.haircut().1,
        0 < e.haircut().1,
        e.haircut().0 == e.haircut().1 <==> e.residual() >= e.pnl_matured_pos_tot,
        e.pnl_matured_pos_tot > 0 ==> e.haircut().0 <= e.residual(),
{
}

/// A haircut never adds: what is left of a claim is at most the claim, and all of
/// it when profit is fully backed. A larger claim never keeps less.
pub proof fn law_haircut_never_adds(e: RiskEngine, claim: int, larger: int)
    requires
        0 <= claim <= larger,
    ensures
        0 <= e.haircut_of(claim) <= claim,
        e.residual() >= e.pnl_matured_pos_tot ==> e.haircut_of(claim) == claim,
        e.haircut_of(claim) <= e.haircut_of(larger),
{
    let (num, den) = e.haircut();
    law_haircut_is_one_exactly_when_backed(e);
    crate::equity::lemma_share_within(claim, num as int, den as int);
    if num == den {
        assert(claim * num / (den as int) == claim) by (nonlinear_arith)
            requires
                num == den,
                den > 0,
        ;
    }
    assert(claim * num <= larger * num) by (nonlinear_arith)
        requires
            0 <= claim <= larger,
            0 <= num,
    ;
    assert(claim * num / (den as int) <= larger * num / (den as int)) by (nonlinear_arith)
        requires
            claim * num <= larger * num,
            0 < den,
    ;
}

/// The haircut heals by itself: with more behind the same profit, or with less profit
/// before the same residual, no claim keeps less.
pub proof fn law_haircut_rises_with_backing(e: RiskEngine, better: RiskEngine, claim: int)
    requires
        0 <= claim,
        better.residual() >= e.residual(),
        better.pnl_matured_pos_tot <= e.pnl_matured_pos_tot,
    ensures
        better.haircut_of(claim) >= e.haircut_of(claim),
{
    law_haircut_never_adds(e, claim, claim);
    law_haircut_never_adds(better, claim, claim);
    let (n, d) = (e.haircut().0 as int, e.haircut().1 as int);
    let (p, q) = (better.haircut().0 as int, better.haircut().1 as int);
    if e.pnl_matured_pos_tot > 0 && better.residual() < better.pnl_matured_pos_tot {
        assert(n <= p && q <= d);
        assert(claim * n <= claim * p) by (nonlinear_arith)
            requires
                0 <= claim,
                n <= p,
        ;
        assert(0 <= claim * n) by (nonlinear_arith)
            requires
                0 <= claim,
                0 <= n,
        ;
        vstd::arithmetic::div_mod::lemma_div_is_ordered(claim * n, claim * p, d);
        vstd::arithmetic::div_mod::lemma_div_is_ordered_by_denominator(claim * p, q, d);
    }
}

/// Losses that are paid back profit: what an account pays of its loss out of its
/// capital adds to the residual, and no profit matures by it.
pub proof fn law_paid_losses_add_backing(e: RiskEngine, i: int)
    requires
        e.sound(),
        0 <= i < MAX_ACCOUNTS,
        i128::MIN < e.accounts@[i].pnl < 0,
        e.pay_loss(i).1 is Ok,
    ensures
        ({
            let s = e.pay_loss(i).0;
            let paid = s.accounts@[i].pnl - e.accounts@[i].pnl;
            &&& paid == crate::wide_math::min_int(
                -(e.accounts@[i].pnl as int),
                e.accounts@[i].capital.get() as int,
            )
            &&& s.accounts@[i].capital.get() == e.accounts@[i].capital.get() - paid
            &&& s.residual() == e.residual() + paid
            &&& s.pnl_matured_pos_tot == e.pnl_matured_pos_tot
        }),
{
    broadcast use lemma_ledger_of_account;

    reveal(RiskEngine::public_post);
    reveal(RiskEngine::set_capital_spec);
    reveal(RiskEngine::set_pnl_with_reserve_spec);
}

/// Two claims together keep at least what they keep apart, and at most one atom
/// more: splitting or joining claims gains nothing but rounding.
pub proof fn law_haircut_is_the_same_for_all(e: RiskEngine, a: int, b: int)
    requires
        0 <= a,
        0 <= b,
    ensures
        e.haircut_of(a) + e.haircut_of(b) <= e.haircut_of(a + b) <= e.haircut_of(a)
            + e.haircut_of(b) + 1,
{
    let (num, den) = e.haircut();
    lemma_shares_add(a, b, num as int, den as int);
}

/// Shares rounded down add up to the share of the sum, less at most one.
proof fn lemma_shares_add(a: int, b: int, num: int, den: int)
    requires
        0 <= a,
        0 <= b,
        0 <= num,
        0 < den,
    ensures
        a * num / den + b * num / den <= (a + b) * num / den <= a * num / den + b * num / den + 1,
{
    let x = a * num;
    let y = b * num;
    assert((a + b) * num == x + y) by (nonlinear_arith)
        requires
            x == a * num,
            y == b * num,
    ;
    assert(x / den + y / den <= (x + y) / den <= x / den + y / den + 1) by (nonlinear_arith)
        requires
            0 < den,
    ;
}

/// Profit of an account that has left warmup.
pub open spec fn released(a: Account) -> int {
    i128_clamp_pos(a.pnl) - a.reserved_pnl
}

impl RiskEngine {
    /// What the haircut leaves of the released profits of these accounts.
    pub open spec fn effective_sum(self, accounts: Seq<Account>) -> int
        decreases accounts.len(),
    {
        if accounts.len() == 0 {
            0
        } else {
            self.effective_sum(accounts.drop_last()) + self.haircut_of(released(accounts.last()))
        }
    }
}

/// Released profits of these accounts.
pub open spec fn released_sum(accounts: Seq<Account>) -> int
    decreases accounts.len(),
{
    if accounts.len() == 0 {
        0
    } else {
        released_sum(accounts.drop_last()) + released(accounts.last())
    }
}

proof fn lemma_released_sum(accounts: Seq<Account>)
    ensures
        released_sum(accounts) == crate::books::ledger(accounts).1 - crate::books::ledger(
            accounts,
        ).2,
    decreases accounts.len(),
{
    if accounts.len() > 0 {
        lemma_released_sum(accounts.drop_last());
    }
}

proof fn lemma_effective_sum(e: RiskEngine, accounts: Seq<Account>)
    requires
        forall|i: int| 0 <= i < accounts.len() ==> released(#[trigger] accounts[i]) >= 0,
    ensures
        0 <= e.effective_sum(accounts) <= e.haircut_of(released_sum(accounts)),
        0 <= released_sum(accounts),
    decreases accounts.len(),
{
    if accounts.len() > 0 {
        let rest = accounts.drop_last();
        assert forall|i: int| 0 <= i < rest.len() implies released(#[trigger] rest[i]) >= 0 by {
            assert(released(accounts[i]) >= 0);
        }
        lemma_effective_sum(e, rest);
        assert(released(accounts[accounts.len() - 1]) >= 0);
        law_haircut_is_the_same_for_all(e, released_sum(rest), released(accounts.last()));
        law_haircut_never_adds(e, released(accounts.last()), released(accounts.last()));
    } else {
        law_haircut_never_adds(e, 0, 0);
    }
}

/// In a sound live market, capital, insurance and all profits after their haircut
/// together never exceed the vault.
pub proof fn law_effective_profits_are_backed(e: RiskEngine)
    requires
        e.sound(),
        e.market_mode == MarketMode::Live,
    ensures
        e.effective_sum(e.accounts@) <= e.residual(),
        crate::books::ledger(e.accounts@).0 + e.insurance_fund.balance.get() + e.effective_sum(
            e.accounts@,
        ) <= e.vault.get(),
{
    reveal(RiskEngine::public_post);
    assert forall|i: int| 0 <= i < e.accounts@.len() implies released(#[trigger] e.accounts@[i])
        >= 0 by {
        crate::conservation::lemma_slots_ok(e, MAX_ACCOUNTS as int, i);
    }
    lemma_released_sum(e.accounts@);
    lemma_effective_sum(e, e.accounts@);
    let matured = e.pnl_matured_pos_tot as int;
    let num = e.haircut().0 as int;
    assert(released_sum(e.accounts@) == matured);
    if matured > 0 {
        vstd::arithmetic::div_mod::lemma_div_multiples_vanish(num, matured);
        assert(matured * num == num * matured) by (nonlinear_arith);
        assert(e.haircut_of(matured) == num);
    } else {
        law_haircut_never_adds(e, 0, 0);
    }
}

/// Fresh profit waits: where the shortest admitted horizon is positive, a gain adds
/// to the reserve of its account and to no matured profit.
pub proof fn law_fresh_profit_waits(
    e: RiskEngine,
    i: int,
    new_pnl: i128,
    h_min: u64,
    h_max: u64,
    ctx: InstructionContext,
)
    requires
        0 <= i < MAX_ACCOUNTS,
        0 < h_min <= h_max,
        i128_clamp_pos(new_pnl) > i128_clamp_pos(e.accounts@[i].pnl),
    ensures
        ({
            let (s, _, r) = e.set_pnl_with_reserve_spec(
                i,
                new_pnl,
                ReserveMode::UseAdmissionPair(h_min, h_max),
                Some(ctx),
            );
            r is Ok ==> {
                &&& s.accounts@[i].pnl == new_pnl
                &&& s.pnl_matured_pos_tot == e.pnl_matured_pos_tot
                &&& released(s.accounts@[i]) == released(e.accounts@[i])
                &&& s.pnl_pos_tot - e.pnl_pos_tot == i128_clamp_pos(new_pnl) - i128_clamp_pos(
                    e.accounts@[i].pnl,
                )
            }
        }),
{
    broadcast use {lemma_ledger_of_account, step_append_reserve};

    reveal(RiskEngine::set_pnl_with_reserve_spec);
    reveal(RiskEngine::admit_fresh_reserve_h_lock_spec);
}

/// Where price movement has used up its allowance, fresh profit waits the longest
/// horizon and no reserve is released early. An account that waits the longest once
/// waits the longest for the rest of the instruction.
pub proof fn law_stressed_profit_waits_longest(
    e: RiskEngine,
    i: int,
    fresh: u128,
    ctx: InstructionContext,
    h_min: u64,
    h_max: u64,
)
    requires
        0 <= i < MAX_ACCOUNTS,
        e.consumption_gate(ctx),
    ensures
        e.admit_fresh_reserve_h_lock_spec(i, fresh, ctx, h_min, h_max).1 == Ok::<u64, RiskError>(
            h_max,
        ),
        e.admit_fresh_reserve_h_lock_spec(i, fresh, ctx, h_min, h_max).0.sticky(i),
        e.admit_outstanding_reserve_on_touch_spec(i, ctx).0 == e,
{
    reveal(RiskEngine::admit_fresh_reserve_h_lock_spec);
    reveal(RiskEngine::admit_outstanding_reserve_on_touch_spec);
    crate::context::lemma_bit_set(
        ctx.h_max_sticky_bitmap@[i / 64],
        (i % 64) as u64,
        (i % 64) as u64,
    );
}

/// Profit is released at once only while everything that has matured stays backed.
pub proof fn law_early_release_is_backed(e: RiskEngine, i: int, ctx: InstructionContext)
    requires
        0 <= i < MAX_ACCOUNTS,
        e.admit_outstanding_reserve_on_touch_spec(i, ctx).1 is Ok,
        e.admit_outstanding_reserve_on_touch_spec(i, ctx).0.pnl_matured_pos_tot
            > e.pnl_matured_pos_tot,
    ensures
        ({
            let s = e.admit_outstanding_reserve_on_touch_spec(i, ctx).0;
            &&& s.pnl_matured_pos_tot <= s.residual()
            &&& s.pnl_matured_pos_tot - e.pnl_matured_pos_tot == e.accounts@[i].reserved_pnl
            &&& s.accounts@[i].reserved_pnl == 0
            &&& s.haircut().0 == s.haircut().1
        }),
{
    broadcast use lemma_ledger_of_account;

    reveal(RiskEngine::admit_outstanding_reserve_on_touch_spec);
}

/// A reserve matures along a straight line: no earlier than its share of the
/// horizon, all of it once the horizon has passed, and never backwards.
pub proof fn law_warmup_is_linear(a: Account, earlier: int, later: int)
    requires
        0 <= earlier <= later,
        0 < a.sched_horizon,
    ensures
        0 <= a.sched_matured(earlier) <= a.sched_matured(later) <= a.sched_anchor_q,
        later >= a.sched_horizon ==> a.sched_matured(later) == a.sched_anchor_q,
        a.sched_matured(later) * a.sched_horizon <= a.sched_anchor_q * later,
        a.sched_matured(0) == 0,
{
    let h = a.sched_horizon as int;
    let q = a.sched_anchor_q as int;
    if earlier < h {
        crate::equity::lemma_share_within(q, earlier, h);
    }
    if later < h {
        crate::equity::lemma_share_within(q, later, h);
        assert(q * earlier / h <= q * later / h) by (nonlinear_arith)
            requires
                0 <= q,
                0 <= earlier <= later,
                0 < h,
        ;
        assert(q * later / h * h <= q * later) by (nonlinear_arith)
            requires
                0 < h,
        ;
    } else {
        assert(q * h <= q * later) by (nonlinear_arith)
            requires
                0 <= q,
                h <= later,
        ;
    }
    assert(q * 0 / h == 0) by (nonlinear_arith)
        requires
            0 < h,
    ;
}

/// Converting profit to capital never adds: the capital gained is at most the
/// profit given up, and both together never exceed what backs them.
pub proof fn law_conversion_never_adds(e: RiskEngine, i: int, x: u128)
    requires
        0 <= i < MAX_ACCOUNTS,
    ensures
        ({
            let y = e.haircut_of(x as int);
            let (s, r) = e.conversion_booked(i, x, y as u128);
            &&& 0 <= y <= x
            &&& r is Ok ==> {
                &&& s.accounts@[i].pnl == e.accounts@[i].pnl - x
                &&& s.accounts@[i].capital.get() <= e.accounts@[i].capital.get() + y
                &&& s.c_tot.get() + s.insurance_fund.balance.get() == e.c_tot.get()
                    + e.insurance_fund.balance.get() + y
            }
        }),
{
    broadcast use lemma_ledger_of_account;

    law_haircut_never_adds(e, x as int, x as int);
    reveal(RiskEngine::consume_released_pnl_spec);
    reveal(RiskEngine::set_capital_spec);
    reveal(RiskEngine::fee_debt_sweep_spec);
}

/// A conversion leaves a healthy account: with an effective position it stays above
/// maintenance, and without one, whether it never had a position or the position has shrunk
/// to nothing, its equity is not negative. The account keeps its position.
pub proof fn law_conversion_leaves_a_healthy_account(
    e: RiskEngine,
    i: int,
    x: u128,
    oracle_price: u64,
)
    requires
        0 <= i < MAX_ACCOUNTS,
        e.convert_core_spec(i, x, oracle_price).1 is Ok,
    ensures
        ({
            let s = e.convert_core_spec(i, x, oracle_price).0;
            let eff = s.effective_pos_q_spec(i, false);
            &&& eff is Ok
            &&& eff->Ok_0 == 0 ==> s.accounts@[i].equity_maint() >= 0
            &&& eff->Ok_0 != 0 ==> s.above_maintenance(s.accounts@[i], i, oracle_price)
            &&& s.accounts@[i].position_basis_q == e.accounts@[i].position_basis_q
        }),
{
    broadcast use lemma_ledger_of_account;

    reveal(RiskEngine::convert_core_spec);
    reveal(RiskEngine::consume_released_pnl_spec);
    reveal(RiskEngine::set_capital_spec);
    reveal(RiskEngine::fee_debt_sweep_spec);
}

/// For the approval of a trade, the equity with no profit to count is the full equity
/// wherever there is no profit beyond the gain of the trade, or nothing backs it.
pub proof fn law_equity_without_profit_is_the_full_one(
    e: RiskEngine,
    a: Account,
    trade_pnl: i128,
)
    requires
        i128_clamp_pos(a.pnl) <= e.pnl_pos_tot,
        i128_clamp_pos(a.pnl) <= i128_clamp_pos(trade_pnl) || e.residual() == 0,
    ensures
        e.equity_trade_open(a, trade_pnl) == crate::equity::clamp_conservative(
            a.equity_with(RiskEngine::pnl_without_gain(a, trade_pnl), 0),
        ),
{
    reveal(RiskEngine::equity_trade_open);
    let pos = i128_clamp_pos(a.pnl) as int;
    let pos_open = crate::wide_math::max_int(pos - i128_clamp_pos(trade_pnl), 0);
    let tot_open = e.pnl_pos_tot - pos + pos_open;
    let num = crate::wide_math::min_int(e.residual(), tot_open);
    if tot_open > 0 {
        assert(pos_open * num == 0) by (nonlinear_arith)
            requires
                pos_open == 0 || num == 0,
        ;
    }
}

/// Payouts of a resolved market never exceed the profits they pay, and all payouts
/// together never exceed what was residual when the ratio was locked.
pub proof fn law_payout_never_adds(e: RiskEngine, profit: int)
    requires
        e.public_post() is Ok,
        e.resolved_payout_h_den > 0,
        0 <= profit,
    ensures
        0 <= e.payout_of(profit) <= profit,
        profit <= e.resolved_payout_h_den ==> e.payout_of(profit) <= e.resolved_payout_h_num,
{
    reveal(RiskEngine::public_post);
    let num = e.resolved_payout_h_num as int;
    let den = e.resolved_payout_h_den as int;
    crate::equity::lemma_share_within(profit, num, den);
    if profit <= den {
        assert(profit * num <= den * num) by (nonlinear_arith)
            requires
                profit <= den,
                0 <= num,
        ;
        assert(profit * num / den <= num) by (nonlinear_arith)
            requires
                profit * num <= den * num,
                0 < den,
        ;
    }
}

impl RiskEngine {
    /// What the locked ratio pays on the profits of these accounts.
    pub open spec fn payout_sum(self, accounts: Seq<Account>) -> int
        decreases accounts.len(),
    {
        if accounts.len() == 0 {
            0
        } else {
            self.payout_sum(accounts.drop_last()) + self.payout_of(
                i128_clamp_pos(accounts.last().pnl) as int,
            )
        }
    }
}

proof fn lemma_payout_sum(e: RiskEngine, accounts: Seq<Account>)
    requires
        0 < e.resolved_payout_h_den,
    ensures
        0 <= e.payout_sum(accounts) <= e.payout_of(crate::books::ledger(accounts).1),
        0 <= crate::books::ledger(accounts).1,
    decreases accounts.len(),
{
    let num = e.resolved_payout_h_num as int;
    let den = e.resolved_payout_h_den as int;
    if accounts.len() > 0 {
        let rest = accounts.drop_last();
        lemma_payout_sum(e, rest);
        let last = i128_clamp_pos(accounts.last().pnl) as int;
        lemma_shares_add(crate::books::ledger(rest).1, last, num, den);
        assert(last * num / den >= 0) by (nonlinear_arith)
            requires
                0 <= last,
                0 <= num,
                0 < den,
        ;
    } else {
        assert(0 * num / den == 0) by (nonlinear_arith)
            requires
                0 < den,
        ;
    }
}

/// When the payout ratio is locked, the payouts of all profits together never exceed
/// the residual.
pub proof fn law_payouts_are_backed(e: RiskEngine)
    requires
        e.sound(),
        e.market_mode == MarketMode::Resolved,
        e.resolved_payout_ready == 0,
        e.pnl_pos_tot > 0,
    ensures
        ({
            let s = e.with_payout_locked();
            &&& s.payout_sum(e.accounts@) <= e.residual()
            &&& crate::books::ledger(e.accounts@).0 + e.insurance_fund.balance.get()
                + s.payout_sum(e.accounts@) <= e.vault.get()
        }),
{
    reveal(RiskEngine::public_post);
    let s = e.with_payout_locked();
    lemma_payout_sum(s, e.accounts@);
    let num = s.resolved_payout_h_num as int;
    let den = s.resolved_payout_h_den as int;
    assert(den * num / den == num) by (nonlinear_arith)
        requires
            0 < den,
    ;
}

/// The payout ratio is locked once.
pub proof fn law_payout_ratio_is_locked_once(e: RiskEngine)
    ensures
        e.with_payout_locked().with_payout_locked() == e.with_payout_locked(),
        e.resolved_payout_ready != 0 ==> e.with_payout_locked() == e,
{
}

/// A trade cannot use its own gain as margin: the equity against which a position is
/// opened is the same with the gain booked as without it.
pub proof fn law_trade_gain_is_no_margin(e: RiskEngine, account: Account, gain: i128)
    requires
        gain > 0,
        account.pnl + gain <= i128::MAX,
        i128_clamp_pos(account.pnl) <= e.pnl_pos_tot,
        e.pnl_pos_tot + gain <= u128::MAX,
    ensures
        ({
            let booked = Account { pnl: (account.pnl + gain) as i128, ..account };
            let after = RiskEngine {
                pnl_pos_tot: (e.pnl_pos_tot - i128_clamp_pos(account.pnl) + i128_clamp_pos(
                    booked.pnl,
                )) as u128,
                ..e
            };
            after.equity_trade_open(booked, gain) == e.equity_trade_open(account, 0)
        }),
{
    reveal(RiskEngine::equity_trade_open);
}

} // verus!
