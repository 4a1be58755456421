//! What withdrawals, cranks and settlements of the market leave, as instructions.

use vstd::prelude::*;

use crate::books::{step_accrue_and_touch, step_finalize_touched};
use crate::constants::{MAX_ACCOUNTS, MAX_ORACLE_PRICE};
use crate::context::InstructionContext;
use crate::frames::{frame_close, frame_finalize_touched, lemma_held_or_reset, lemma_same_held};
use crate::liquidation_laws::lemma_accrued_and_touched;
use crate::margin_laws::{
    law_effective_position_is_what_is_held, law_withdrawal_equity, lemma_worth,
};
use crate::measures::worth_up;
use crate::types::{MarketMode, ResolveMode, RiskEngine, RiskError, Side, SideMode};

verus! {

proof fn lemma_withdrawal_allowed(e: RiskEngine, i: int, amount: u128, price: u64)
    requires
        0 <= i < MAX_ACCOUNTS,
        e.withdrawal_check(i, amount, price) is Ok,
    ensures
        amount <= e.accounts@[i].capital.0,
        e.held(i) != 0 ==> e.need_to_open(e.held(i), price as int) <= e.can_carry(i) - amount,
{
    reveal(RiskEngine::notional_spec);
    law_effective_position_is_what_is_held(e, i, false);
    lemma_worth(e.held(i), price as int);
    let w = worth_up(e.held(i), price as int);
    assert(w * e.params.initial_margin_bps >= 0) by (nonlinear_arith)
        requires
            w >= 0,
    ;
    let a = e.accounts@[i];
    if e.market_mode == MarketMode::Live && a.reserved_pnl > a.profit() {
        assert(e.equity_init(a, i) < 0);
    } else {
        law_withdrawal_equity(e, i);
    }
}

/// A withdrawal, as an instruction, with `t` the market in which the account has just been
/// brought up to date. Exactly the amount leaves the vault and what the account owns. If
/// the account holds anything, long or short, then what it can still carry meets what its
/// holding needs to be opened.
pub proof fn law_withdrawal_by_instruction(
    e: RiskEngine,
    idx: u16,
    amount: u128,
    price: u64,
    now_slot: u64,
    rate: i128,
    h_min: u64,
    h_max: u64,
    threshold_opt: Option<u128>,
)
    requires
        e.sound(),
        e.withdraw_spec(idx, amount, price, now_slot, rate, h_min, h_max, threshold_opt).1 is Ok,
    ensures
        ({
            let s = e.withdraw_spec(
                idx,
                amount,
                price,
                now_slot,
                rate,
                h_min,
                h_max,
                threshold_opt,
            ).0;
            let i = idx as int;
            let t = e.accrue_and_touch_spec(
                i,
                RiskEngine::admission(h_min, h_max, threshold_opt),
                now_slot,
                price,
                rate,
            ).0;
            let held = e.held(i);
            &&& 0 <= i < MAX_ACCOUNTS && i < e.params.max_accounts && e.slot_used(i)
            &&& e.market_mode == MarketMode::Live
            &&& s.held(i) == held || s.held(i) == 0
            &&& s.accounts@[i].owns() == t.accounts@[i].owns() - amount
            &&& s.vault.0 == e.vault.0 - amount
            &&& held != 0 ==> s.need_to_open(held, price as int) <= s.can_carry(i)
            &&& held != 0 ==> s.accounts@[i].pnl == t.accounts@[i].pnl
            &&& t.unsettled_live_spec(t.accounts@[i]) == Ok::<bool, RiskError>(false)
        }),
{
    broadcast use {step_accrue_and_touch, step_finalize_touched};

    reveal(RiskEngine::withdraw_spec);
    let i = idx as int;
    let ctx = RiskEngine::admission(h_min, h_max, threshold_opt);
    lemma_accrued_and_touched(e, i, ctx, now_slot, price, rate);
    let (t, c, _) = e.accrue_and_touch_spec(i, ctx, now_slot, price, rate);
    frame_finalize_touched(t, c, i);
    let u = t.finalize_touched_spec(c).0;
    lemma_same_held(t, u, i);
    lemma_withdrawal_allowed(u, i, amount, price);
    let v = u.commit_withdrawal_spec(i, amount).0;
    reveal(RiskEngine::set_capital_spec);
    frame_close(v, c);
    let s = v.close_spec(c).0;
    lemma_same_held(u, v, i);
    assert(u.position_fits(u.accounts@[i]));
    lemma_held_or_reset(v, s, i);
    lemma_close_keeps_mode(v, c);
}

proof fn lemma_close_keeps_mode(e: RiskEngine, c: InstructionContext)
    ensures
        e.close_spec(c).0.market_mode == e.market_mode,
{
    reveal(RiskEngine::close_spec);
    reveal(RiskEngine::schedule_resets_spec);
    reveal(RiskEngine::finalize_resets_spec);
    reveal(RiskEngine::begin_reset_spec);
}

impl RiskEngine {
    /// Whether `after` has the same accounts and money, and the same terms of settlement.
    pub open spec fn same_settlement(self, after: RiskEngine) -> bool {
        &&& after.market_mode == self.market_mode
        &&& after.resolved_price == self.resolved_price
        &&& after.resolved_live_price == self.resolved_live_price
        &&& after.resolved_slot == self.resolved_slot
        &&& after.current_slot == self.current_slot
        &&& after.resolved_payout_ready == self.resolved_payout_ready
        &&& after.resolved_k_long_terminal_delta == self.resolved_k_long_terminal_delta
        &&& after.resolved_k_short_terminal_delta == self.resolved_k_short_terminal_delta
        &&& after.oi_eff_long_q == self.oi_eff_long_q
        &&& after.oi_eff_short_q == self.oi_eff_short_q
        &&& after.accounts == self.accounts
        &&& self.same_purse(after)
    }
}

broadcast proof fn lemma_reset_keeps_settlement(e: RiskEngine, side: Side)
    requires
        e.get_oi_eff(side) == 0,
    ensures
        (#[trigger] e.begin_reset_spec(side)).1 is Ok ==> e.same_settlement(
            e.begin_reset_spec(side).0,
        ),
{
    reveal(RiskEngine::begin_reset_spec);
}

proof fn lemma_drained_keeps_settlement(e: RiskEngine)
    requires
        e.oi_eff_long_q == 0,
        e.oi_eff_short_q == 0,
        e.resolution_drained(false).1 is Ok,
    ensures
        e.same_settlement(e.resolution_drained(false).0),
{
    broadcast use lemma_reset_keeps_settlement;

    reveal(RiskEngine::resolution_drained);
}

proof fn lemma_settled(e: RiskEngine, resolved: u64, live: u64, now_slot: u64)
    ensures
        ({
            let (s, r) = e.settled_at(resolved, live, now_slot);
            r is Ok ==> {
                &&& s.market_mode == MarketMode::Resolved
                &&& s.resolved_price == resolved
                &&& s.resolved_live_price == live
                &&& s.resolved_slot == now_slot
                &&& s.current_slot == now_slot
                &&& s.resolved_payout_ready == 0
                &&& s.resolved_k_long_terminal_delta == if e.side_mode_long
                    == SideMode::ResetPending || e.oi_eff_long_q == 0 {
                    0
                } else {
                    e.adl_mult_long * (resolved - live)
                }
                &&& s.resolved_k_short_terminal_delta == if e.side_mode_short
                    == SideMode::ResetPending || e.oi_eff_short_q == 0 {
                    0
                } else {
                    e.adl_mult_short * (live - resolved)
                }
                &&& s.oi_eff_long_q == 0
                &&& s.oi_eff_short_q == 0
                &&& s.accounts == e.accounts
                &&& s.vault == e.vault
                &&& s.c_tot == e.c_tot
                &&& s.insurance_fund == e.insurance_fund
                &&& s.pnl_pos_tot == e.pnl_pos_tot
                &&& s.pnl_matured_pos_tot == e.pnl_pos_tot
            }
        }),
{
    reveal(RiskEngine::settled_at);
    let long = e.terminal_shift(Side::Long, resolved - live);
    let short = e.terminal_shift(Side::Short, live - resolved);
    if e.settled_at(resolved, live, now_slot).1 is Ok {
        lemma_drained_keeps_settlement(
            e.with_resolution(resolved, live, now_slot, long->Ok_0, short->Ok_0),
        );
    }
}

/// A settlement of the market in the ordinary way is held to the band on both sides of the
/// live price; the degenerate way takes the price that the market already has, and no
/// funding. Either way the prices and the slot are kept, and what is still owed per unit is
/// the multiplier of each side times the move from the live price, up for longs and down
/// for shorts, and nothing where nothing is open.
pub proof fn law_resolution_by_instruction(
    e: RiskEngine,
    mode: ResolveMode,
    resolved: u64,
    live: u64,
    now_slot: u64,
    rate: i128,
)
    requires
        e.resolve_market_spec(mode, resolved, live, now_slot, rate).1 is Ok,
    ensures
        ({
            let s = e.resolve_market_spec(mode, resolved, live, now_slot, rate).0;
            let dev = e.params.resolve_price_deviation_bps as int;
            &&& e.market_mode == MarketMode::Live
            &&& e.active_close_present == 0
            &&& 0 < resolved <= MAX_ORACLE_PRICE
            &&& 0 < live <= MAX_ORACLE_PRICE
            &&& e.current_slot <= now_slot && e.last_market_slot <= now_slot
            &&& mode == ResolveMode::Ordinary ==> -(dev * live) <= (resolved - live) * 10_000
                <= dev * live
            &&& mode == ResolveMode::Degenerate ==> live == e.last_oracle_price && rate == 0
            &&& s.market_mode == MarketMode::Resolved
            &&& s.resolved_price == resolved
            &&& s.resolved_live_price == live
            &&& s.resolved_slot == now_slot
            &&& s.current_slot == now_slot
            &&& s.resolved_payout_ready == 0
            &&& s.resolved_k_long_terminal_delta == if e.side_mode_long == SideMode::ResetPending
                || e.oi_eff_long_q == 0 {
                0
            } else {
                e.adl_mult_long * (resolved - live)
            }
            &&& s.resolved_k_short_terminal_delta == if e.side_mode_short
                == SideMode::ResetPending || e.oi_eff_short_q == 0 {
                0
            } else {
                e.adl_mult_short * (live - resolved)
            }
            &&& s.oi_eff_long_q == 0
            &&& s.oi_eff_short_q == 0
            &&& s.accounts == e.accounts
            &&& s.vault == e.vault
            &&& s.c_tot == e.c_tot
            &&& s.insurance_fund == e.insurance_fund
            &&& s.pnl_pos_tot == e.pnl_pos_tot
            &&& s.pnl_matured_pos_tot == e.pnl_pos_tot
        }),
{
    reveal(RiskEngine::resolve_market_spec);
    let kept = RiskEngine { current_slot: now_slot, last_market_slot: now_slot, ..e };
    lemma_settled(kept, resolved, live, now_slot);
    let a = e.accrue_market_to_spec(now_slot, live, rate).0;
    if mode == ResolveMode::Ordinary {
        assert({
            &&& a.last_oracle_price == live
            &&& a.accounts == e.accounts
            &&& a.params == e.params
            &&& e.same_multipliers(a)
            &&& a.side_mode_long == e.side_mode_long
            &&& a.side_mode_short == e.side_mode_short
            &&& a.oi_eff_long_q == e.oi_eff_long_q
            &&& a.oi_eff_short_q == e.oi_eff_short_q
            &&& a.vault == e.vault
            &&& a.c_tot == e.c_tot
            &&& a.insurance_fund == e.insurance_fund
            &&& a.pnl_pos_tot == e.pnl_pos_tot
        }) by {
            reveal(RiskEngine::accrue_market_to_spec);
        }
        lemma_settled(a, resolved, live, now_slot);
    }
}

/// A settlement price outside of the band is refused, above and below.
pub proof fn law_resolution_outside_the_band_is_refused(
    e: RiskEngine,
    resolved: u64,
    live: u64,
    now_slot: u64,
    rate: i128,
)
    requires
        e.params.resolve_price_deviation_bps * live < (resolved - live) * 10_000
            || e.params.resolve_price_deviation_bps * live < (live - resolved) * 10_000,
    ensures
        e.resolve_market_spec(ResolveMode::Ordinary, resolved, live, now_slot, rate).1 is Err,
{
    let out = e.resolve_market_spec(ResolveMode::Ordinary, resolved, live, now_slot, rate);
    if out.1 is Ok {
        law_resolution_by_instruction(e, ResolveMode::Ordinary, resolved, live, now_slot, rate);
    }
}

} // verus!
