//! What a trade does to its two accounts, and what they must own for it.

use vstd::prelude::*;

use crate::books::{
    step_attach, step_charge_fee, step_set_pnl, step_settle_losses, step_touch, step_trade_applied,
    step_trade_prepared,
};
use crate::constants::{MAX_ACCOUNTS, MAX_ORACLE_PRICE};
use crate::context::InstructionContext;
use crate::frames::{
    frame_attach, frame_charge_fee, frame_end_resets, frame_finish, frame_set_pnl,
    frame_settle_losses, frame_touch, lemma_attached_is_held, lemma_held_or_reset,
    lemma_same_held,
};
use crate::isolation::{index_set_pnl, index_settle_losses};
use crate::liquidation_laws::lemma_accrued_and_touched;
use crate::margin_laws::{
    law_effective_position_is_what_is_held, law_trade_margin_of_one_account, lemma_worth,
};
use crate::measures::{greater, lesser, size_of, worth_up};
use crate::types::{Account, RiskEngine, SideMode};

verus! {

/// Profit of who buys a quantity at one price where it is worth another, rounded down.
pub open spec fn gain_of_buying(q: int, price: int, paid: int) -> int {
    q * (price - paid) / 1_000_000
}

/// Fee of a trade: the share of its worth at the price that was paid, rounded up.
pub open spec fn cost_of_trading(q: int, paid: int, bps: int) -> int {
    (q * paid / 1_000_000 * bps + 9_999) / 10_000
}

/// Whether a position is new, on the other side, or larger.
pub open spec fn takes_risk(old: int, new: int) -> bool {
    ||| old == 0
    ||| old > 0 && new < 0
    ||| old < 0 && new > 0
    ||| size_of(new) > size_of(old)
}

impl RiskEngine {
    /// What is left of the capital of account `i` once a gain or a loss is added and losses
    /// are paid.
    pub open spec fn capital_after(self, i: int, gain: int) -> int {
        let a = self.accounts@[i];
        a.capital.0 - lesser(greater(-(a.pnl + gain), 0), a.capital.0 as int)
    }

    /// Whether account `i` of `after` is that of `self` with a gain or a loss, its losses
    /// paid with its capital, and then a fee paid with capital and owed beyond that.
    pub open spec fn gained_and_charged(
        self,
        after: RiskEngine,
        i: int,
        gain: int,
        fee: int,
    ) -> bool {
        let a = self.accounts@[i];
        let b = after.accounts@[i];
        let left = self.capital_after(i, gain);
        let paid = lesser(fee, left);
        &&& b.capital.0 == left - paid
        &&& b.pnl == a.pnl + gain + (a.capital.0 - left)
        &&& b.fee_credits.0 == a.fee_credits.0 - lesser(fee - paid, a.fee_credits.0 + i128::MAX)
    }

    /// Whether account `i` may have gone from one position to another in a trade that gained
    /// it `gain` and cost it `fee`, and had `owned` before.
    pub open spec fn may_trade(
        self,
        i: int,
        price: int,
        old: int,
        new: int,
        owned: int,
        fee: int,
        gain: int,
    ) -> bool {
        let a = self.accounts@[i];
        let need_before = if old == 0 {
            0
        } else {
            self.need_to_keep(old, price)
        };
        if new == 0 {
            lesser(owned, 0) <= lesser(a.owns() + fee, 0)
        } else if takes_risk(old, new) {
            lesser(self.need_to_open(new, price), i128::MAX as int) <= self.can_open(a, gain)
        } else {
            ||| self.is_healthy(i, price)
            ||| {
                &&& size_of(new) < size_of(old)
                &&& owned - need_before < a.owns() + fee - self.need_to_keep(new, price)
                &&& lesser(owned, 0) <= lesser(a.owns() + fee, 0)
            }
        }
    }
}

proof fn lemma_entry_within(accounts: Seq<Account>, i: int)
    requires
        0 <= i < accounts.len(),
    ensures
        accounts[i].profit() <= crate::books::ledger(accounts).1,
        0 <= crate::books::ledger(accounts).1,
        0 <= crate::books::ledger(accounts).0,
        accounts[i].capital.0 <= crate::books::ledger(accounts).0,
    decreases accounts.len(),
{
    lemma_ledger_positive(accounts.drop_last());
    if i < accounts.len() - 1 {
        lemma_entry_within(accounts.drop_last(), i);
    }
}

proof fn lemma_ledger_positive(accounts: Seq<Account>)
    ensures
        0 <= crate::books::ledger(accounts).1,
        0 <= crate::books::ledger(accounts).0,
    decreases accounts.len(),
{
    if accounts.len() > 0 {
        lemma_ledger_positive(accounts.drop_last());
    }
}

/// In balanced books no account has more capital or profit than all of them.
pub proof fn lemma_account_within_totals(e: RiskEngine, i: int)
    requires
        0 <= i < MAX_ACCOUNTS,
        e.books_balance(),
    ensures
        e.accounts@[i].profit() <= e.pnl_pos_tot,
        e.accounts@[i].capital.0 <= e.c_tot.0,
{
    lemma_entry_within(e.accounts@, i);
}

/// Preparing a trade keeps what both accounts hold, but for a reset.
proof fn lemma_prepared(
    e: RiskEngine,
    a: int,
    b: int,
    ctx: InstructionContext,
    now_slot: u64,
    price: u64,
    rate: i128,
)
    requires
        0 <= a < MAX_ACCOUNTS,
        0 <= b < MAX_ACCOUNTS,
        a != b,
        e.sound(),
        e.trade_prepared(a, b, ctx, now_slot, price, rate).2 is Ok,
    ensures
        ({
            let t = e.trade_prepared(a, b, ctx, now_slot, price, rate).0;
            &&& t.held(a) == e.held(a) || t.held(a) == 0
            &&& t.held(b) == e.held(b) || t.held(b) == 0
            &&& t.sides_in_range()
            &&& t.positions_fit()
            &&& t.books_balance()
            &&& 0 < price <= MAX_ORACLE_PRICE
            &&& t.accounts@[a].fee_credits == e.accounts@[a].fee_credits
            &&& t.accounts@[b].fee_credits == e.accounts@[b].fee_credits
            &&& t.params == e.params
        }),
{
    broadcast use {step_trade_prepared, crate::books::step_accrue_and_touch, step_touch};

    reveal(RiskEngine::trade_prepared);
    let first = crate::wide_math::min_int(a, b);
    let second = crate::wide_math::max_int(a, b);
    lemma_accrued_and_touched(e, first, ctx, now_slot, price, rate);
    let (t1, c1, _) = e.accrue_and_touch_spec(first, ctx, now_slot, price, rate);
    lemma_accrue_keeps_held(e, first, second, ctx, now_slot, price, rate);
    frame_touch(t1, second, c1);
    crate::isolation::law_touch_moves_nothing_shared(t1, second, c1);
    let t2 = t1.touch_spec(second, c1).0;
    lemma_same_held(t1, t2, first);
    let fresh = InstructionContext::fresh(0, 0, None);
    frame_end_resets(t2, fresh);
    let t3 = t2.end_resets_spec(fresh).0;
    assert(t2.position_fits(t2.accounts@[a]) && t2.position_fits(t2.accounts@[b]));
    lemma_held_or_reset(t2, t3, a);
    lemma_held_or_reset(t2, t3, b);
}

/// Accruing and touching one account keeps what any other holds.
pub proof fn lemma_accrue_keeps_held(
    e: RiskEngine,
    i: int,
    j: int,
    ctx: InstructionContext,
    now_slot: u64,
    price: u64,
    rate: i128,
)
    requires
        i != j,
        0 <= j < MAX_ACCOUNTS,
        e.accrue_and_touch_spec(i, ctx, now_slot, price, rate).2 is Ok,
    ensures
        ({
            let t = e.accrue_and_touch_spec(i, ctx, now_slot, price, rate).0;
            &&& t.held(j) == e.held(j)
            &&& t.accounts@[j] == e.accounts@[j]
        }),
{
    reveal(RiskEngine::accrue_and_touch_spec);
    let a = e.accrue_market_to_spec(now_slot, price, rate).0;
    assert(a.accounts == e.accounts && e.same_multipliers(a)) by {
        reveal(RiskEngine::accrue_market_to_spec);
    }
    lemma_same_held(e, a, j);
    crate::isolation::law_touch_moves_nothing_shared(a, i, ctx);
    lemma_same_held(a, a.touch_spec(i, ctx).0, j);
}

/// Booking a trade: positions, gains, and losses paid.
#[verifier::rlimit(30)]
proof fn lemma_applied(
    e: RiskEngine,
    a: int,
    b: int,
    new_a: i128,
    new_b: i128,
    oi: (u128, u128),
    gain: i128,
    ctx: InstructionContext,
)
    requires
        0 <= a < MAX_ACCOUNTS,
        0 <= b < MAX_ACCOUNTS,
        a != b,
        gain > i128::MIN,
        e.accounts@[a].fee_credits.0 > i128::MIN,
        e.accounts@[b].fee_credits.0 > i128::MIN,
        e.sides_in_range(),
        e.trade_applied(a, b, new_a, new_b, oi, gain, ctx).2 is Ok,
    ensures
        ({
            let s = e.trade_applied(a, b, new_a, new_b, oi, gain, ctx).0;
            &&& e.gained_and_charged(s, a, gain as int, 0)
            &&& e.gained_and_charged(s, b, -gain as int, 0)
            &&& s.held(a) == new_a && s.accounts@[a].position_basis_q == new_a
            &&& s.held(b) == new_b && s.accounts@[b].position_basis_q == new_b
            &&& e.same_multipliers(s)
            &&& s.effective_pos_q_spec(a, false) is Ok
            &&& s.effective_pos_q_spec(b, false) is Ok
            &&& s.oi_eff_long_q == oi.0
            &&& s.oi_eff_short_q == oi.1
            &&& s.side_mode_long == e.side_mode_long
            &&& s.side_mode_short == e.side_mode_short
        }),
{
    broadcast use {
        frame_set_pnl,
        frame_attach,
        frame_settle_losses,
        index_set_pnl,
        index_settle_losses,
        step_set_pnl,
        step_attach,
        step_settle_losses,
    };

    reveal(RiskEngine::trade_applied);
    let (e1, c1, _) = e.add_pnl(a, gain, ctx);
    let (e2, c2, _) = e1.add_pnl(b, (-gain) as i128, c1);
    let e3 = e2.attach_effective_position_inner_spec(a, new_a, true).0;
    let e4 = e3.attach_effective_position_inner_spec(b, new_b, true).0;
    let e5 = e2.attach_pair(a, b, new_a, new_b, oi).0;
    let (e6, c6, _) = e5.settle_losses_spec(a, Some(c2));
    let e7 = e6.settle_losses_spec(b, c6).0;
    assert(e7.accounts@[a].stance() == e3.accounts@[a].stance());
    assert(e7.accounts@[b].stance() == e4.accounts@[b].stance());
    assert(e.same_multipliers(e7));
    lemma_attached_is_held(e7, a, new_a);
    lemma_attached_is_held(e7, b, new_b);
    law_effective_position_is_what_is_held(e7, a, false);
    law_effective_position_is_what_is_held(e7, b, false);
    lemma_not_lowest(e2, a, new_a);
    lemma_not_lowest(e3, b, new_b);
}

proof fn lemma_not_lowest(e: RiskEngine, i: int, eff: i128)
    ensures
        e.attach_effective_position_inner_spec(i, eff, true).1 is Ok ==> size_of(eff as int)
            <= i128::MAX,
{
    reveal(RiskEngine::attach_effective_position_inner_spec);
}

proof fn lemma_charged(e: RiskEngine, a: int, b: int, fee: u128)
    requires
        0 <= a < MAX_ACCOUNTS,
        0 <= b < MAX_ACCOUNTS,
        a != b,
        e.trade_charged(a, b, fee).1 is Ok,
        e.accounts@[a].fee_credits.0 > i128::MIN,
        e.accounts@[b].fee_credits.0 > i128::MIN,
    ensures
        ({
            let (s, r) = e.trade_charged(a, b, fee);
            &&& e.fee_taken(s, a, fee as int)
            &&& e.fee_taken(s, b, fee as int)
            &&& r->Ok_0.0 == e.accounts@[a].owns() - s.accounts@[a].owns()
                || e.accounts@[a].fee_credits.0 > 0
            &&& r->Ok_0.1 == e.accounts@[b].owns() - s.accounts@[b].owns()
                || e.accounts@[b].fee_credits.0 > 0
            &&& s.accounts@[a].stance() == e.accounts@[a].stance()
            &&& s.accounts@[b].stance() == e.accounts@[b].stance()
            &&& e.same_indices(s)
        }),
{
    broadcast use {frame_charge_fee, step_charge_fee};
}

impl RiskEngine {
    /// Whether a fee was paid with the capital of account `i` and is owed beyond that.
    pub open spec fn fee_taken(self, after: RiskEngine, i: int, fee: int) -> bool {
        let a = self.accounts@[i];
        let b = after.accounts@[i];
        let paid = lesser(fee, a.capital.0 as int);
        &&& b.capital.0 == a.capital.0 - paid
        &&& b.fee_credits.0 == a.fee_credits.0 - lesser(fee - paid, a.fee_credits.0 + i128::MAX)
        &&& b.pnl == a.pnl
    }
}

/// A trade moves exactly its size from the seller to the buyer. The buyer gains what the
/// quantity is worth beyond what was paid for it, and the seller loses it; both pay the
/// same fee; and the margin of both, whatever their side, allows the outcome.
///
/// In `t` both accounts are up to date, in `m` the trade is booked and charged.
#[verifier::rlimit(40)]
pub proof fn law_trade_of_two_accounts(
    t: RiskEngine,
    a: int,
    b: int,
    price: u64,
    q: i128,
    paid: u64,
    bps: u64,
    ctx: InstructionContext,
)
    requires
        0 <= a < MAX_ACCOUNTS,
        0 <= b < MAX_ACCOUNTS,
        a != b,
        0 < q,
        0 < price <= MAX_ORACLE_PRICE,
        t.sides_in_range(),
        t.positions_fit(),
        t.books_balance(),
        t.trade_prepared_rest(a, b, price, q, paid, bps, ctx).1 is Ok,
        0 <= cost_of_trading(q as int, paid as int, bps as int) <= u128::MAX,
        i128::MIN < t.accounts@[a].fee_credits.0 <= 0,
        i128::MIN < t.accounts@[b].fee_credits.0 <= 0,
    ensures
        exists|m: RiskEngine, c: InstructionContext|
            {
                let gain = gain_of_buying(q as int, price as int, paid as int);
                let fee = cost_of_trading(q as int, paid as int, bps as int);
                let fee_a = t.accounts@[a].owns() + gain - m.accounts@[a].owns();
                let fee_b = t.accounts@[b].owns() - gain - m.accounts@[b].owns();
                &&& t.trade_prepared_rest(a, b, price, q, paid, bps, ctx)
                    == #[trigger] m.finish_spec(c)
                &&& m.held(a) == t.held(a) + q
                &&& m.held(b) == t.held(b) - q
                &&& m.accounts@[a].position_basis_q == t.held(a) + q
                &&& m.accounts@[b].position_basis_q == t.held(b) - q
                &&& t.gained_and_charged(m, a, gain, fee)
                &&& t.gained_and_charged(m, b, -gain, fee)
                &&& m.may_trade(
                    a,
                    price as int,
                    t.held(a),
                    t.held(a) + q,
                    t.accounts@[a].owns(),
                    fee_a,
                    gain,
                )
                &&& m.may_trade(
                    b,
                    price as int,
                    t.held(b),
                    t.held(b) - q,
                    t.accounts@[b].owns(),
                    fee_b,
                    -gain,
                )
                &&& m.oi_eff_long_q == t.oi_eff_long_q + greater(t.held(a) + q, 0) - greater(
                    t.held(a),
                    0,
                ) + greater(t.held(b) - q, 0) - greater(t.held(b), 0)
                &&& m.oi_eff_short_q == t.oi_eff_short_q + greater(-t.held(a) - q, 0) - greater(
                    -t.held(a),
                    0,
                ) + greater(q - t.held(b), 0) - greater(-t.held(b), 0)
                &&& t.oi_eff_long_q < m.oi_eff_long_q ==> m.side_mode_long == SideMode::Normal
                &&& t.oi_eff_short_q < m.oi_eff_short_q ==> m.side_mode_short == SideMode::Normal
                &&& m.positions_fit()
                &&& m.books_balance()
                &&& m.params == t.params
                &&& t.same_multipliers(m)
            },
{
    broadcast use {step_trade_applied, step_charge_fee};

    reveal(RiskEngine::trade_prepared_rest);
    law_effective_position_is_what_is_held(t, a, false);
    law_effective_position_is_what_is_held(t, b, false);
    let olds = t.trade_positions(a, b, price, q)->Ok_0;
    let new_a = (olds.0 + q) as i128;
    let new_b = (olds.1 - q) as i128;
    let ready = t.with_ready_sides();
    let oi = ready.trade_interest(olds.0, new_a, olds.1, new_b)->Ok_0;
    let gain = crate::trade::trade_pnl_spec(q, (price - paid) as i128)->Ok_0;
    let (e, c, r) = ready.trade_applied(a, b, new_a, new_b, oi, gain, ctx);
    let fee = RiskEngine::trade_fee(q, paid, bps) as u128;
    let (m, r2) = e.trade_charged(a, b, fee);
    assert(ready.accounts == t.accounts);
    lemma_applied(ready, a, b, new_a, new_b, oi, gain, ctx);
    lemma_charged(e, a, b, fee);
    assert(fee == cost_of_trading(q as int, paid as int, bps as int));
    let fees = r2->Ok_0;
    lemma_same_held(e, m, a);
    lemma_same_held(e, m, b);
    assert(e.books_balance() && m.books_balance());
    lemma_account_within_totals(m, a);
    lemma_account_within_totals(m, b);
    assert(m.effective_pos_q_spec(a, false) == e.effective_pos_q_spec(a, false)
        && m.effective_pos_q_spec(b, false) == e.effective_pos_q_spec(b, false)) by {
        reveal(RiskEngine::effective_pos_q_spec);
    }
    let ba = t.buffer_of(a, olds.0, price);
    let bb = t.buffer_of(b, olds.1, price);
    lemma_margin_part(m, t, a, price, olds.0, new_a, ba, fees.0, gain);
    lemma_margin_part(m, t, b, price, olds.1, new_b, bb, fees.1, (-gain) as i128);
    assert(t.trade_prepared_rest(a, b, price, q, paid, bps, ctx) == m.finish_spec(c));
}

proof fn lemma_margin_part(
    m: RiskEngine,
    t: RiskEngine,
    i: int,
    price: u64,
    old: i128,
    new: i128,
    buffer: int,
    fee: u128,
    gain: i128,
)
    requires
        0 <= i < MAX_ACCOUNTS,
        0 < price <= MAX_ORACLE_PRICE,
        m.params == t.params,
        m.effective_pos_q_spec(i, false) is Ok,
        m.held(i) == new,
        old == t.held(i),
        size_of(new as int) <= crate::constants::MAX_POSITION_ABS_Q,
        m.accounts@[i].profit() <= m.pnl_pos_tot,
        t.accounts@[i].pnl + gain <= m.accounts@[i].pnl,
        buffer == t.buffer_of(i, old, price),
        m.one_side_margin_spec(i, price, old, new, buffer, fee, gain) is Ok,
    ensures
        m.may_trade(
            i,
            price as int,
            old as int,
            new as int,
            t.accounts@[i].owns(),
            fee as int,
            gain as int,
        ),
{
    let w = worth_up(new as int, price as int);
    lemma_worth(new as int, price as int);
    lemma_worth(old as int, price as int);
    assert(size_of(new as int) * price <= crate::constants::MAX_POSITION_ABS_Q * MAX_ORACLE_PRICE)
        by (nonlinear_arith)
        requires
            0 <= size_of(new as int) <= crate::constants::MAX_POSITION_ABS_Q,
            0 <= price <= MAX_ORACLE_PRICE,
    ;
    law_trade_margin_of_one_account(m, i, price, old, new, buffer, fee, gain);
}

impl RiskEngine {
    /// What account `i` bears of a fee after a gain or a loss: what its capital pays, and
    /// what it can still owe.
    pub open spec fn bears(self, i: int, gain: int, fee: int) -> int {
        let paid = lesser(fee, self.capital_after(i, gain));
        paid + lesser(fee - paid, self.accounts@[i].fee_credits.0 + i128::MAX)
    }

    /// What a trade that leaves `s` did for account `i`, which was up to date in `self`: the
    /// position and what is owned moved as agreed, unless a reset then ended the position;
    /// and a position that is new, on the other side or larger is covered by what it needs
    /// to be opened.
    pub open spec fn traded(
        self,
        s: RiskEngine,
        i: int,
        q: int,
        price: int,
        gain: int,
        fee: int,
    ) -> bool {
        let new = self.held(i) + q;
        &&& s.held(i) == new || s.held(i) == 0
        &&& s.accounts@[i].position_basis_q == new
        &&& s.accounts@[i].owns() == self.accounts@[i].owns() + gain - self.bears(i, gain, fee)
        &&& new != 0 && takes_risk(self.held(i), new) ==> lesser(
            self.need_to_open(new, price),
            i128::MAX as int,
        ) <= s.accounts@[i].owns()
    }
}

/// A trade, as an instruction, with `t` the market in which both accounts have just been
/// brought up to date. The buyer ends with the quantity more and the seller with the
/// quantity less, the one gains what the other loses, both bear the fee, and whoever took
/// on risk, long or short, can open the position that it now has, with the gain of the
/// trade left out of account.
#[verifier::rlimit(30)]
pub proof fn law_trade_by_instruction(
    e: RiskEngine,
    a: u16,
    b: u16,
    price: u64,
    now_slot: u64,
    q: i128,
    paid: u64,
    rate: i128,
    bps: u64,
    h_min: u64,
    h_max: u64,
    threshold_opt: Option<u128>,
)
    requires
        e.sound(),
        e.execute_trade_spec(
            a,
            b,
            price,
            now_slot,
            q,
            paid,
            rate,
            bps,
            h_min,
            h_max,
            threshold_opt,
        ).1 is Ok,
    ensures
        ({
            let out = e.execute_trade_spec(
                a,
                b,
                price,
                now_slot,
                q,
                paid,
                rate,
                bps,
                h_min,
                h_max,
                threshold_opt,
            );
            let s = out.0;
            let ctx = RiskEngine::admission(h_min, h_max, threshold_opt);
            let t = e.trade_prepared(a as int, b as int, ctx, now_slot, price, rate).0;
            let gain = gain_of_buying(q as int, price as int, paid as int);
            let fee = cost_of_trading(q as int, paid as int, bps as int);
            let old_a = t.held(a as int);
            let old_b = t.held(b as int);
            &&& 0 < q
            &&& a != b
            &&& old_a == e.held(a as int) || old_a == 0
            &&& old_b == e.held(b as int) || old_b == 0
            &&& t.traded(s, a as int, q as int, price as int, gain, fee)
            &&& t.traded(s, b as int, -q, price as int, -gain, fee)
            &&& exists|m: RiskEngine, c: InstructionContext|
                {
                    let am = m.accounts@[a as int];
                    let bm = m.accounts@[b as int];
                    &&& out == #[trigger] m.finish_spec(c)
                    &&& m.held(a as int) == old_a + q
                    &&& m.held(b as int) == old_b - q
                    &&& old_a + q != 0 && takes_risk(old_a, old_a + q) ==> lesser(
                        m.need_to_open(old_a + q, price as int),
                        i128::MAX as int,
                    ) <= m.can_open(am, gain)
                    &&& old_b - q != 0 && takes_risk(old_b, old_b - q) ==> lesser(
                        m.need_to_open(old_b - q, price as int),
                        i128::MAX as int,
                    ) <= m.can_open(bm, -gain)
                }
        }),
{
    reveal(RiskEngine::execute_trade_spec);
    reveal(RiskEngine::trade_entry_spec);
    let ctx = RiskEngine::admission(h_min, h_max, threshold_opt);
    let (i, j) = (a as int, b as int);
    lemma_prepared(e, i, j, ctx, now_slot, price, rate);
    let (t, c, _) = e.trade_prepared(i, j, ctx, now_slot, price, rate);
    assert(i128::MIN < e.accounts@[i].fee_credits.0 <= 0 && i128::MIN
        < e.accounts@[j].fee_credits.0 <= 0) by {
        reveal(RiskEngine::validate_shape_at_spec);
    }
    lemma_trading_cost(q as int, paid as int, bps as int);
    law_trade_of_two_accounts(t, i, j, price, q, paid, bps, c);
    let gain = gain_of_buying(q as int, price as int, paid as int);
    let fee = cost_of_trading(q as int, paid as int, bps as int);
    let (m, c2) = choose|m: RiskEngine, c2: InstructionContext|
        {
            let fee_a = t.accounts@[i].owns() + gain - m.accounts@[i].owns();
            let fee_b = t.accounts@[j].owns() - gain - m.accounts@[j].owns();
            &&& t.trade_prepared_rest(i, j, price, q, paid, bps, c) == #[trigger] m.finish_spec(c2)
            &&& m.held(i) == t.held(i) + q
            &&& m.held(j) == t.held(j) - q
            &&& m.accounts@[i].position_basis_q == t.held(i) + q
            &&& m.accounts@[j].position_basis_q == t.held(j) - q
            &&& t.gained_and_charged(m, i, gain, fee)
            &&& t.gained_and_charged(m, j, -gain, fee)
            &&& m.may_trade(
                i,
                price as int,
                t.held(i),
                t.held(i) + q,
                t.accounts@[i].owns(),
                fee_a,
                gain,
            )
            &&& m.may_trade(
                j,
                price as int,
                t.held(j),
                t.held(j) - q,
                t.accounts@[j].owns(),
                fee_b,
                -gain,
            )
            &&& m.positions_fit()
            &&& m.books_balance()
            &&& m.params == t.params
        };
    frame_finish(m, c2, i);
    frame_finish(m, c2, j);
    lemma_can_open_at_most_owned(m, i, gain);
    lemma_can_open_at_most_owned(m, j, -gain);
}

proof fn lemma_trading_cost(q: int, paid: int, bps: int)
    requires
        0 < q <= crate::constants::MAX_TRADE_SIZE_Q,
        0 < paid <= MAX_ORACLE_PRICE,
        0 <= bps <= u64::MAX,
    ensures
        0 <= cost_of_trading(q, paid, bps) <= u128::MAX,
{
    assert(0 <= q * paid <= crate::constants::MAX_TRADE_SIZE_Q * MAX_ORACLE_PRICE)
        by (nonlinear_arith)
        requires
            0 < q <= crate::constants::MAX_TRADE_SIZE_Q,
            0 < paid <= MAX_ORACLE_PRICE,
    ;
    let n = q * paid / 1_000_000;
    let top = crate::constants::MAX_TRADE_SIZE_Q * MAX_ORACLE_PRICE / 1_000_000;
    assert(0 <= n * bps <= top * u64::MAX) by (nonlinear_arith)
        requires
            0 <= n <= top,
            0 <= bps <= u64::MAX,
    ;
}

proof fn lemma_can_open_at_most_owned(m: RiskEngine, i: int, gain: int)
    requires
        0 <= i < MAX_ACCOUNTS,
        m.books_balance(),
    ensures
        m.can_open(m.accounts@[i], gain) <= m.accounts@[i].owns(),
{
    let a = m.accounts@[i];
    let profit = greater(a.profit() - greater(gain, 0), 0);
    lemma_account_within_totals(m, i);
    let all = m.pnl_pos_tot - a.profit() + profit;
    let backing = m.backing();
    if all > backing {
        assert(profit * backing / all <= profit) by (nonlinear_arith)
            requires
                0 <= profit,
                0 <= backing < all,
        ;
    }
}

} // verus!
