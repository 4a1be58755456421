//! Who is liquidated, and what a liquidation leaves: for a long and a short alike.

use vstd::prelude::*;

use crate::books::{
    lemma_ledger_of_account, step_accrue_and_touch, step_attach, step_charge_fee,
    step_enqueue_adl, step_liquidate, step_settle_losses, step_touch,
};
use crate::constants::{MAX_ACCOUNTS, MAX_ORACLE_PRICE};
use crate::context::InstructionContext;
use crate::frames::{
    frame_attach, frame_charge_fee, frame_finish, frame_set_pnl, frame_settle_losses,
    frame_touch, lemma_attached_is_held, lemma_same_held,
};
use crate::isolation::{index_set_pnl, index_settle_losses};
use crate::margin_laws::{
    law_above_maintenance_is_healthy, law_effective_position_is_what_is_held,
    law_hint_is_taken_as_given, law_liquidation_fee,
};
use crate::measures::{greater, lesser, size_of};
use crate::types::{LiquidationPolicy, RiskEngine, RiskError, Side};

verus! {

impl RiskEngine {
    /// Fee that a liquidation of `q` costs: the share of its worth, rounded up, within the
    /// bounds of the market.
    pub open spec fn cost_of_closing(self, q: int, price: int) -> int {
        lesser(
            greater(
                (q * price / 1_000_000 * self.params.liquidation_fee_bps + 9_999) / 10_000,
                self.params.min_liquidation_abs.0 as int,
            ),
            self.params.liquidation_fee_cap.0 as int,
        )
    }

    /// Whether account `i` after `self` has paid its loss with its capital, and then a fee
    /// with what capital is left, and owes what it could not pay of the fee. A loss that
    /// is left stays if `keeps_loss` says so.
    pub open spec fn paid_up(self, after: RiskEngine, i: int, fee: int, keeps_loss: bool) -> bool {
        let a = self.accounts@[i];
        let b = after.accounts@[i];
        let pay = lesser(a.loss(), a.capital.0 as int);
        let left = a.capital.0 - pay;
        let paid = lesser(fee, left);
        &&& b.capital.0 == left - paid
        &&& b.fee_credits.0 == a.fee_credits.0 - lesser(fee - paid, a.fee_credits.0 + i128::MAX)
        &&& b.pnl == if a.pnl + pay < 0 && !keeps_loss {
            0
        } else {
            a.pnl + pay
        }
    }
}

/// Taking a quantity off the market moves no account, no index and no epoch, and the
/// multiplier of the other side alone.
pub proof fn lemma_enqueue_keeps_own_side(
    e: RiskEngine,
    ctx: InstructionContext,
    side: Side,
    q: u128,
    d: u128,
)
    requires
        e.enqueue_adl_spec(ctx, side, q, d).2 is Ok,
    ensures
        ({
            let s = e.enqueue_adl_spec(ctx, side, q, d).0;
            &&& s.accounts == e.accounts
            &&& s.adl_epoch_long == e.adl_epoch_long
            &&& s.adl_epoch_short == e.adl_epoch_short
            &&& side == Side::Long ==> s.adl_mult_long == e.adl_mult_long
            &&& side == Side::Short ==> s.adl_mult_short == e.adl_mult_short
            &&& s.params == e.params
            &&& s.side_mode_long == e.side_mode_long || side == Side::Short
            &&& s.side_mode_short == e.side_mode_short || side == Side::Long
        }),
{
    broadcast use {step_enqueue_adl, lemma_route_keeps_sides, lemma_shrink_keeps_own_side};

    reveal(RiskEngine::enqueue_adl_spec);
    reveal(RiskEngine::drain_unheld_side);
}

broadcast proof fn lemma_route_keeps_sides(
    e: RiskEngine,
    ctx: InstructionContext,
    opp: Side,
    oi: u128,
    q: u128,
    d: u128,
)
    ensures
        ({
            let s = (#[trigger] e.route_deficit(ctx, opp, oi, q, d)).0;
            &&& e.same_multipliers(s)
            &&& s.side_mode_long == e.side_mode_long
            &&& s.side_mode_short == e.side_mode_short
        }),
{
    broadcast use lemma_booking_keeps_sides;

    reveal(RiskEngine::route_deficit);
    reveal(RiskEngine::book_or_start_spec);
}

broadcast proof fn lemma_booking_keeps_sides(
    e: RiskEngine,
    ctx: InstructionContext,
    side: Side,
    residual: u128,
    budget: u128,
)
    ensures
        ({
            let s = (#[trigger] e.book_residual_chunk_spec(ctx, side, residual, budget)).0;
            &&& e.same_multipliers(s)
            &&& s.side_mode_long == e.side_mode_long
            &&& s.side_mode_short == e.side_mode_short
        }),
{
    reveal(RiskEngine::book_residual_chunk_spec);
}

broadcast proof fn lemma_shrink_keeps_own_side(
    e: RiskEngine,
    ctx: InstructionContext,
    side: Side,
    oi: u128,
    q: u128,
)
    ensures
        ({
            let s = (#[trigger] e.shrink_side(ctx, side, oi, q)).0;
            &&& s.adl_epoch_long == e.adl_epoch_long
            &&& s.adl_epoch_short == e.adl_epoch_short
            &&& side == Side::Long ==> s.adl_mult_long == e.adl_mult_long && s.side_mode_long
                == e.side_mode_long
            &&& side == Side::Short ==> s.adl_mult_short == e.adl_mult_short && s.side_mode_short
                == e.side_mode_short
        }),
{
    reveal(RiskEngine::shrink_side);
}

/// Closing a quantity attaches what is left and pays up.
pub proof fn lemma_closed(
    e: RiskEngine,
    i: int,
    eff: i128,
    q: u128,
    price: u64,
    ctx: InstructionContext,
)
    requires
        0 <= i < MAX_ACCOUNTS,
        e.sides_in_range(),
        e.liquidation_closed(i, eff, q, price, ctx).2 is Ok,
    ensures
        ({
            let s = e.liquidation_closed(i, eff, q, price, ctx).0;
            &&& s.held(i) == eff
            &&& s.accounts@[i].position_basis_q == eff
            &&& eff > 0 ==> s.accounts@[i].adl_a_basis == s.adl_mult_long
                && s.accounts@[i].adl_epoch_snap == s.adl_epoch_long
            &&& eff < 0 ==> s.accounts@[i].adl_a_basis == s.adl_mult_short
                && s.accounts@[i].adl_epoch_snap == s.adl_epoch_short
            &&& e.paid_up(s, i, e.cost_of_closing(q as int, price as int), true)
            &&& e.same_indices(s)
            &&& s.params == e.params
        }),
{
    broadcast use {
        frame_attach,
        frame_settle_losses,
        frame_charge_fee,
        index_settle_losses,
        step_attach,
        step_settle_losses,
        step_charge_fee,
    };

    reveal(RiskEngine::liquidation_closed);
    let s = e.liquidation_closed(i, eff, q, price, ctx).0;
    let t = e.attach_effective_position_spec(i, eff).0;
    let u = t.settle_losses_spec(i, Some(ctx)).0;
    law_liquidation_fee(u, q, price);
    lemma_cost_is_bounded(u, q, price);
    lemma_attached_is_held(s, i, eff);
}

/// The fee of a liquidation fits.
pub proof fn lemma_cost_is_bounded(e: RiskEngine, q: u128, price: u64)
    ensures
        0 <= e.cost_of_closing(q as int, price as int) <= u128::MAX,
{
    assert(q * price >= 0) by (nonlinear_arith);
    let n = q * price / 1_000_000;
    assert(n * e.params.liquidation_fee_bps >= 0) by (nonlinear_arith)
        requires
            n >= 0,
    ;
}

/// An account that is up to date is liquidated exactly if it holds something, long or short,
/// and is not healthy. Otherwise nothing happens.
///
/// A full close leaves it with nothing. A part must be a proper part: it leaves the rest on
/// the same side, and a healthy account. Either way the account pays its loss and then the
/// fee on what was closed with its own capital, and a loss that is left after a full close
/// is taken from it.
pub proof fn law_liquidation_of_an_account(
    e: RiskEngine,
    i: int,
    price: u64,
    policy: LiquidationPolicy,
    ctx: InstructionContext,
)
    requires
        e.sides_in_range(),
        e.liquidate_internal_spec(i, price, policy, ctx).2 is Ok,
    ensures
        ({
            let (s, _, r) = e.liquidate_internal_spec(i, price, policy, ctx);
            let exists_here = 0 <= i < MAX_ACCOUNTS && i < e.params.max_accounts && e.slot_used(i);
            let held = e.held(i);
            &&& r->Ok_0 <==> exists_here && held != 0 && !e.is_healthy(i, price as int)
            &&& !r->Ok_0 ==> s == e
            &&& r->Ok_0 ==> match policy {
                LiquidationPolicy::FullClose => {
                    &&& s.held(i) == 0
                    &&& s.accounts@[i].position_basis_q == 0
                    &&& e.paid_up(s, i, e.cost_of_closing(size_of(held), price as int), false)
                },
                LiquidationPolicy::ExactPartial(q) => {
                    &&& 0 < q < size_of(held)
                    &&& s.held(i) == if held > 0 {
                        held - q
                    } else {
                        held + q
                    }
                    &&& s.is_healthy(i, price as int)
                    &&& e.paid_up(s, i, e.cost_of_closing(q as int, price as int), true)
                },
            }
        }),
{
    broadcast use {lemma_ledger_of_account, frame_set_pnl, index_set_pnl};

    reveal(RiskEngine::liquidate_internal_spec);
    if e.account_exists(i) {
        law_effective_position_is_what_is_held(e, i, false);
        law_above_maintenance_is_healthy(e, i, price);
        let old = e.effective_pos_q_spec(i, false)->Ok_0;
        if old != 0 && !e.above_maintenance(e.accounts@[i], i, price) {
            match policy {
                LiquidationPolicy::FullClose => {
                    reveal(RiskEngine::liquidate_full);
                    let q = crate::wide_math::abs_int(old as int) as u128;
                    lemma_closed(e, i, 0, q, price, ctx);
                    let (t, c, _) = e.liquidation_closed(i, 0, q, price, ctx);
                    law_effective_position_is_what_is_held(t, i, false);
                    let d = t.deficit_of(i)->Ok_0;
                    lemma_enqueue_keeps_own_side(t, c, crate::sides::some_side(old), q, d);
                },
                LiquidationPolicy::ExactPartial(q) => {
                    reveal(RiskEngine::liquidate_partial);
                    let new = if old > 0 {
                        (old - q) as i128
                    } else {
                        (old + q) as i128
                    };
                    lemma_closed(e, i, new, q, price, ctx);
                    let (t, c, _) = e.liquidation_closed(i, new, q, price, ctx);
                    lemma_enqueue_keeps_own_side(t, c, crate::sides::some_side(old), q, 0);
                    let s = t.enqueue_adl_spec(c, crate::sides::some_side(old), q, 0).0;
                    lemma_attached_side_is_held(s, i, new);
                    law_effective_position_is_what_is_held(s, i, false);
                    law_above_maintenance_is_healthy(s, i, price);
                },
            }
        }
    }
}

proof fn lemma_attached_side_is_held(s: RiskEngine, i: int, eff: i128)
    requires
        eff > 0 ==> 0 < s.adl_mult_long,
        eff < 0 ==> 0 < s.adl_mult_short,
        s.accounts@[i].position_basis_q == eff,
        eff > 0 ==> s.accounts@[i].adl_a_basis == s.adl_mult_long && s.accounts@[i].adl_epoch_snap
            == s.adl_epoch_long,
        eff < 0 ==> s.accounts@[i].adl_a_basis == s.adl_mult_short
            && s.accounts@[i].adl_epoch_snap == s.adl_epoch_short,
    ensures
        s.held(i) == eff,
{
    let l = s.adl_mult_long as int;
    let h = s.adl_mult_short as int;
    if eff > 0 {
        assert(eff * l / l == eff) by (nonlinear_arith)
            requires
                0 < l,
        ;
    } else if eff < 0 {
        assert((-eff) * h / h == -eff) by (nonlinear_arith)
            requires
                0 < h,
        ;
    }
}

/// A liquidation, as an instruction: with `t` the market in which the account has just been
/// brought up to date, the account is liquidated exactly if it holds something there and is
/// not healthy, whatever its side. Afterwards an account that was not liquidated holds
/// nothing or is healthy, one that was closed has no position, and one that was closed in
/// part holds the rest, or nothing where a reset ended it.
pub proof fn law_liquidation_by_instruction(
    e: RiskEngine,
    idx: u16,
    now_slot: u64,
    price: u64,
    policy: LiquidationPolicy,
    rate: i128,
    h_min: u64,
    h_max: u64,
    threshold_opt: Option<u128>,
)
    requires
        e.sound(),
        e.liquidate_spec(idx, now_slot, price, policy, rate, h_min, h_max, threshold_opt).1 is Ok,
    ensures
        ({
            let (s, r) = e.liquidate_spec(
                idx,
                now_slot,
                price,
                policy,
                rate,
                h_min,
                h_max,
                threshold_opt,
            );
            let i = idx as int;
            let t = e.accrue_and_touch_spec(
                i,
                RiskEngine::admission(h_min, h_max, threshold_opt),
                now_slot,
                price,
                rate,
            ).0;
            let held = t.held(i);
            &&& 0 <= i < MAX_ACCOUNTS && i < e.params.max_accounts && e.slot_used(i)
            &&& held == e.held(i)
            &&& r->Ok_0 <==> held != 0 && !t.is_healthy(i, price as int)
            &&& !r->Ok_0 ==> {
                &&& t.same_claim(s, i)
                &&& s.held(i) == 0 || s.held(i) == held && s.is_healthy(i, price as int)
            }
            &&& r->Ok_0 ==> match policy {
                LiquidationPolicy::FullClose => {
                    &&& s.held(i) == 0
                    &&& s.accounts@[i].position_basis_q == 0
                },
                LiquidationPolicy::ExactPartial(q) => {
                    &&& 0 < q < size_of(held)
                    &&& s.held(i) == 0 || s.is_healthy(i, price as int) && s.held(i) == if held
                        > 0 {
                        held - q
                    } else {
                        held + q
                    }
                },
            }
        }),
{
    broadcast use {step_accrue_and_touch, step_liquidate};

    reveal(RiskEngine::liquidate_spec);
    let i = idx as int;
    let ctx = RiskEngine::admission(h_min, h_max, threshold_opt);
    let (t, c, r) = e.accrue_and_touch_spec(i, ctx, now_slot, price, rate);
    lemma_accrued_and_touched(e, i, ctx, now_slot, price, rate);
    law_liquidation_of_an_account(t, i, price, policy, c);
    let (u, c2, r2) = t.liquidate_internal_spec(i, price, policy, c);
    frame_finish(u, c2, i);
}

/// Accruing the market and touching an account keeps what it holds.
pub proof fn lemma_accrued_and_touched(
    e: RiskEngine,
    i: int,
    ctx: InstructionContext,
    now_slot: u64,
    price: u64,
    rate: i128,
)
    requires
        e.accrue_and_touch_spec(i, ctx, now_slot, price, rate).2 is Ok,
    ensures
        ({
            let t = e.accrue_and_touch_spec(i, ctx, now_slot, price, rate).0;
            &&& 0 <= i < MAX_ACCOUNTS && i < e.params.max_accounts && e.slot_used(i)
            &&& t.held(i) == e.held(i)
            &&& t.effective_pos_q_spec(i, false) is Ok
            &&& t.last_oracle_price == price
            &&& 0 < price <= MAX_ORACLE_PRICE
            &&& t.vault == e.vault
            &&& e.held(i) == 0 ==> t.accounts@[i].position_basis_q == 0
            &&& e.held(i) != 0 ==> t.accounts@[i].position_basis_q
                == e.accounts@[i].position_basis_q
            &&& t.accounts@[i].fee_credits == e.accounts@[i].fee_credits
        }),
{
    reveal(RiskEngine::accrue_and_touch_spec);
    let a = e.accrue_market_to_spec(now_slot, price, rate).0;
    assert(a.accounts == e.accounts && e.same_multipliers(a) && a.last_oracle_price == price
        && a.vault == e.vault && a.params == e.params && a.used == e.used && 0 < price
        <= MAX_ORACLE_PRICE) by {
        reveal(RiskEngine::accrue_market_to_spec);
    }
    lemma_same_held(e, a, i);
    frame_touch(a, i, ctx);
    crate::isolation::law_touch_moves_nothing_shared(a, i, ctx);
    assert(a.validate_shape_spec(i) is Ok) by {
        reveal(RiskEngine::touch_spec);
    }
    assert(a.account_exists(i)) by {
        reveal(RiskEngine::validate_shape_at_spec);
    }
}

/// A candidate of a keeper is brought up to date and then left alone, or liquidated just as
/// the hint says: with a full close nothing is left of its position, and with a part of
/// `q` exactly the rest is, on the same side. It is left alone if it has no hint, if it
/// holds nothing or is healthy, and never closed by more than the hint.
pub proof fn law_candidate_is_liquidated_as_hinted(
    e: RiskEngine,
    i: int,
    hint: Option<LiquidationPolicy>,
    price: u64,
    ctx: InstructionContext,
)
    requires
        e.sides_in_range(),
        0 < price <= MAX_ORACLE_PRICE,
        e.candidate_processed(i, hint, price, ctx).2 is Ok,
    ensures
        ({
            let (s, _, r) = e.candidate_processed(i, hint, price, ctx);
            let t = e.touch_spec(i, ctx).0;
            let held = e.held(i);
            &&& t.held(i) == held
            &&& !r->Ok_0 ==> s == t
            &&& r->Ok_0 ==> {
                &&& held != 0
                &&& !t.is_healthy(i, price as int)
                &&& match hint {
                    None => false,
                    Some(LiquidationPolicy::FullClose) => s.held(i) == 0
                        && s.accounts@[i].position_basis_q == 0,
                    Some(LiquidationPolicy::ExactPartial(q)) => {
                        &&& 0 < q < size_of(held)
                        &&& s.is_healthy(i, price as int)
                        &&& s.held(i) == if held > 0 {
                            held - q
                        } else {
                            held + q
                        }
                    },
                }
            }
            &&& !r->Ok_0 && held != 0 && !t.is_healthy(i, price as int) && !ctx.pending_reset_long
                && !ctx.pending_reset_short && t.unsettled_live_spec(t.accounts@[i]) == Ok::<
                bool,
                RiskError,
            >(false) ==> match hint {
                None => true,
                Some(LiquidationPolicy::FullClose) => false,
                Some(LiquidationPolicy::ExactPartial(q)) => {
                    let a = t.accounts@[i];
                    let borne = lesser(
                        t.cost_of_closing(q as int, price as int),
                        a.capital.0 + (a.fee_credits.0 + i128::MAX),
                    );
                    ||| q == 0
                    ||| size_of(held) <= q
                    ||| a.owns() - borne <= t.need_to_keep(size_of(held) - q, price as int)
                },
            }
        }),
{
    broadcast use step_touch;

    reveal(RiskEngine::candidate_processed);
    frame_touch(e, i, ctx);
    let (t, c, _) = e.touch_spec(i, ctx);
    law_effective_position_is_what_is_held(t, i, false);
    law_above_maintenance_is_healthy(t, i, price);
    let eff = t.effective_pos_q_spec(i, false)->Ok_0;
    assert(c.pending_reset_long == ctx.pending_reset_long && c.pending_reset_short
        == ctx.pending_reset_short) by {
        lemma_touch_schedules_nothing(e, i, ctx);
    }
    assert(eff > i128::MIN) by {
        reveal(RiskEngine::effective_pos_q_spec);
    }
    law_hint_is_taken_as_given(t, i, eff, hint, price);
    let h = t.keeper_hint_spec(i, eff, hint, price);
    if h is Ok && h->Ok_0 is Some && t.liquidate_internal_spec(i, price, h->Ok_0->0, c).2 is Ok {
        law_liquidation_of_an_account(t, i, price, h->Ok_0->0, c);
    }
}

/// A touch schedules no reset.
pub proof fn lemma_touch_schedules_nothing(e: RiskEngine, i: int, ctx: InstructionContext)
    ensures
        ({
            let c = e.touch_spec(i, ctx).1;
            &&& c.pending_reset_long == ctx.pending_reset_long
            &&& c.pending_reset_short == ctx.pending_reset_short
        }),
{
    broadcast use {pending_set_pnl, pending_settle_losses, pending_flat_negative};

    reveal(RiskEngine::touch_spec);
    reveal(RiskEngine::settle_side_effects_live_spec);
}

broadcast proof fn pending_set_pnl(
    e: RiskEngine,
    i: int,
    new_pnl: i128,
    mode: crate::types::ReserveMode,
    ctx: Option<InstructionContext>,
)
    ensures
        ({
            let c = (#[trigger] e.set_pnl_with_reserve_spec(i, new_pnl, mode, ctx)).1;
            ctx is Some ==> c is Some && c->0.pending_reset_long == ctx->0.pending_reset_long
                && c->0.pending_reset_short == ctx->0.pending_reset_short
        }),
{
    reveal(RiskEngine::set_pnl_with_reserve_spec);
    reveal(RiskEngine::admit_fresh_reserve_h_lock_spec);
}

broadcast proof fn pending_settle_losses(e: RiskEngine, i: int, ctx: Option<InstructionContext>)
    ensures
        ({
            let c = (#[trigger] e.settle_losses_spec(i, ctx)).1;
            ctx is Some ==> c is Some && c->0.pending_reset_long == ctx->0.pending_reset_long
                && c->0.pending_reset_short == ctx->0.pending_reset_short
        }),
{
    reveal(RiskEngine::settle_losses_spec);
}

broadcast proof fn pending_flat_negative(e: RiskEngine, i: int, ctx: Option<InstructionContext>)
    ensures
        ({
            let c = (#[trigger] e.resolve_flat_negative_spec(i, ctx)).1;
            ctx is Some ==> c is Some && c->0.pending_reset_long == ctx->0.pending_reset_long
                && c->0.pending_reset_short == ctx->0.pending_reset_short
        }),
{
    reveal(RiskEngine::resolve_flat_negative_spec);
}

} // verus!
