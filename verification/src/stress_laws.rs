//! A sweep works off a stress envelope: only a new bankruptcy starts it again.

use vstd::prelude::*;

use crate::books::{step_cranked, step_touch};
use crate::constants::MAX_ACCOUNTS;
use crate::context::InstructionContext;
use crate::progress_laws::{law_crank_catches_up, law_valid_market_has_a_rank};
use crate::types::{LiquidationPolicy, ReserveMode, RiskEngine, Side};

verus! {

impl RiskEngine {
    /// Whether `after` has the same parameters, slots in use, slot and cursor.
    pub open spec fn same_sweep(self, after: RiskEngine) -> bool {
        &&& after.params == self.params
        &&& after.used == self.used
        &&& after.current_slot == self.current_slot
        &&& after.rr_cursor_position == self.rr_cursor_position
    }

    /// Whether `after` has the same stress envelope and close in flight.
    pub open spec fn same_stress(self, after: RiskEngine) -> bool {
        &&& self.same_sweep(after)
        &&& after.stress_consumed_bps_e9_since_envelope
            == self.stress_consumed_bps_e9_since_envelope
        &&& after.stress_envelope_remaining_indices == self.stress_envelope_remaining_indices
        &&& after.stress_envelope_start_slot == self.stress_envelope_start_slot
        &&& after.stress_envelope_start_generation == self.stress_envelope_start_generation
        &&& after.bankruptcy_hmax_lock_active == self.bankruptcy_hmax_lock_active
        &&& after.active_close_present == self.active_close_present
    }

    /// Whether a bankruptcy has started the stress envelope at this slot, and nothing of
    /// it is worked off.
    pub open spec fn envelope_started_at(self, slot: u64) -> bool {
        &&& self.bankruptcy_hmax_lock_active
        &&& self.stress_envelope_remaining_indices == self.params.max_accounts
        &&& self.stress_envelope_start_slot == slot
    }

    /// What a step does to the stress envelope: nothing, or it starts it again and the
    /// instruction knows.
    pub open spec fn stress_step(
        self,
        ctx: InstructionContext,
        after: RiskEngine,
        c: InstructionContext,
    ) -> bool {
        ||| self.same_stress(after) && c.stress_envelope_restarted
            == ctx.stress_envelope_restarted
        ||| {
            &&& self.same_sweep(after)
            &&& c.stress_envelope_restarted
            &&& after.envelope_started_at(self.current_slot)
        }
    }

    /// Number of slots in use from one slot up to another.
    pub open spec fn used_in(self, from: int, to: int) -> int
        decreases to - from,
    {
        if from >= to {
            0
        } else if self.slot_used(from) {
            1 + self.used_in(from + 1, to)
        } else {
            self.used_in(from + 1, to)
        }
    }
}

/// Setting a capital.
pub broadcast proof fn stress_set_capital(e: RiskEngine, i: int, v: u128)
    ensures
        e.same_stress((#[trigger] e.set_capital_spec(i, v)).0),
{
    reveal(RiskEngine::set_capital_spec);
}

/// Reserving fresh profit.
pub broadcast proof fn stress_append_reserve(
    e: RiskEngine,
    i: int,
    add: u128,
    now_slot: u64,
    h_lock: u64,
)
    ensures
        e.same_stress((#[trigger] e.append_or_route_new_reserve_spec(i, add, now_slot, h_lock)).0),
{
    reveal(RiskEngine::append_or_route_new_reserve_spec);
}

/// Writing a profit.
pub broadcast proof fn stress_set_pnl(
    e: RiskEngine,
    i: int,
    new_pnl: i128,
    mode: ReserveMode,
    ctx: Option<InstructionContext>,
)
    ensures
        ({
            let (s, c, r) = #[trigger] e.set_pnl_with_reserve_spec(i, new_pnl, mode, ctx);
            &&& e.same_stress(s)
            &&& ctx is Some ==> c is Some && c->0.stress_envelope_restarted
                == ctx->0.stress_envelope_restarted
        }),
{
    broadcast use stress_append_reserve;

    reveal(RiskEngine::set_pnl_with_reserve_spec);
    reveal(RiskEngine::admit_fresh_reserve_h_lock_spec);
    reveal(RiskEngine::apply_reserve_loss_newest_first_spec);
}

/// Writing a position.
pub broadcast proof fn stress_set_basis(e: RiskEngine, i: int, basis: i128, spike: bool)
    ensures
        e.same_stress((#[trigger] e.set_position_basis_q_inner_spec(i, basis, spike)).0),
{
    reveal(RiskEngine::set_position_basis_q_inner_spec);
}

/// Attaching a position.
pub broadcast proof fn stress_attach(e: RiskEngine, i: int, eff: i128, spike: bool)
    ensures
        e.same_stress((#[trigger] e.attach_effective_position_inner_spec(i, eff, spike)).0),
{
    broadcast use stress_set_basis;

    reveal(RiskEngine::attach_effective_position_inner_spec);
}

/// Charging a fee.
pub broadcast proof fn stress_charge_fee(e: RiskEngine, i: int, fee: u128)
    ensures
        e.same_stress((#[trigger] e.charge_fee_spec(i, fee)).0),
{
    broadcast use stress_set_capital;

    reveal(RiskEngine::charge_fee_spec);
}

/// Settling a position.
pub broadcast proof fn stress_settle_side_effects(e: RiskEngine, i: int, ctx: InstructionContext)
    ensures
        ({
            let (s, c, r) = #[trigger] e.settle_side_effects_live_spec(i, ctx);
            e.stress_step(ctx, s, c)
        }),
{
    broadcast use {stress_set_pnl, stress_set_basis};

    reveal(RiskEngine::settle_side_effects_live_spec);
}

/// Paying a loss from capital.
pub broadcast proof fn stress_settle_losses(e: RiskEngine, i: int, ctx: Option<InstructionContext>)
    requires
        0 <= i < MAX_ACCOUNTS,
    ensures
        ({
            let (s, c, r) = #[trigger] e.settle_losses_spec(i, ctx);
            ctx is Some ==> c is Some && e.stress_step(ctx->0, s, c->0)
        }),
{
    broadcast use {
        stress_set_capital,
        stress_set_pnl,
    };

    reveal(RiskEngine::settle_losses_spec);
}

/// Taking the loss of an account without a position over.
pub broadcast proof fn stress_flat_negative(e: RiskEngine, i: int, ctx: Option<InstructionContext>)
    requires
        0 <= i < MAX_ACCOUNTS,
    ensures
        ({
            let (s, c, r) = #[trigger] e.resolve_flat_negative_spec(i, ctx);
            ctx is Some ==> c is Some && e.stress_step(ctx->0, s, c->0)
        }),
{
    broadcast use stress_set_pnl;

    reveal(RiskEngine::resolve_flat_negative_spec);
}

/// Touching an account.
pub broadcast proof fn stress_touch(e: RiskEngine, i: int, ctx: InstructionContext)
    ensures
        ({
            let (s, c, r) = #[trigger] e.touch_spec(i, ctx);
            e.stress_step(ctx, s, c)
        }),
{
    broadcast use {
        stress_settle_side_effects,
        stress_settle_losses,
        stress_flat_negative,
    };

    reveal(RiskEngine::touch_spec);
    let c = ctx.add_touched_spec(i as u16).0;
    assert(c.stress_envelope_restarted == ctx.stress_envelope_restarted);
    let e1 = e.admit_outstanding_reserve_on_touch_spec(i, c).0;
    assert(e.same_stress(e1)) by {
        reveal(RiskEngine::admit_outstanding_reserve_on_touch_spec);
    }
    assert(e1.same_stress(e1.advance_profit_warmup_spec(i).0)) by {
        reveal(RiskEngine::advance_profit_warmup_spec);
    }
}

/// Booking a residual.
pub broadcast proof fn stress_book_residual(
    e: RiskEngine,
    ctx: InstructionContext,
    side: Side,
    residual: u128,
    budget: u128,
)
    ensures
        ({
            let (s, c, r) = #[trigger] e.book_residual_chunk_spec(ctx, side, residual, budget);
            &&& e.stress_step(ctx, s, c)
            &&& 0 < residual && r is Ok ==> c.stress_envelope_restarted && s.envelope_started_at(
                e.current_slot,
            )
        }),
{
    reveal(RiskEngine::book_residual_chunk_spec);
}

/// Routing a deficit.
pub broadcast proof fn stress_route_deficit(
    e: RiskEngine,
    ctx: InstructionContext,
    opp: Side,
    oi: u128,
    q: u128,
    d: u128,
)
    ensures
        ({
            let (s, c, r) = #[trigger] e.route_deficit(ctx, opp, oi, q, d);
            e.stress_step(ctx, s, c)
        }),
{
    broadcast use stress_book_residual;

    reveal(RiskEngine::route_deficit);
    reveal(RiskEngine::book_or_start_spec);
}

/// Shrinking a side.
pub broadcast proof fn stress_shrink_side(
    e: RiskEngine,
    ctx: InstructionContext,
    side: Side,
    oi: u128,
    q: u128,
)
    ensures
        ({
            let (s, c, r) = #[trigger] e.shrink_side(ctx, side, oi, q);
            e.stress_step(ctx, s, c)
        }),
{
    reveal(RiskEngine::shrink_side);
}

/// Draining a side that nobody holds.
pub broadcast proof fn stress_drain_unheld(
    e: RiskEngine,
    ctx: InstructionContext,
    side: Side,
    q: u128,
    d: u128,
)
    ensures
        ({
            let (s, c, r) = #[trigger] e.drain_unheld_side(ctx, side, q, d);
            e.stress_step(ctx, s, c)
        }),
{
    reveal(RiskEngine::drain_unheld_side);
}

/// Spreading a deficit over the other side.
pub broadcast proof fn stress_enqueue_adl(
    e: RiskEngine,
    ctx: InstructionContext,
    side: Side,
    q: u128,
    d: u128,
)
    ensures
        ({
            let (s, c, r) = #[trigger] e.enqueue_adl_spec(ctx, side, q, d);
            e.stress_step(ctx, s, c)
        }),
{
    broadcast use {stress_route_deficit, stress_shrink_side, stress_drain_unheld};

    reveal(RiskEngine::enqueue_adl_spec);
}

/// Closing part of a position.
pub broadcast proof fn stress_liquidation_closed(
    e: RiskEngine,
    i: int,
    eff: i128,
    q: u128,
    price: u64,
    ctx: InstructionContext,
)
    requires
        0 <= i < MAX_ACCOUNTS,
    ensures
        ({
            let (s, c, r) = #[trigger] e.liquidation_closed(i, eff, q, price, ctx);
            e.stress_step(ctx, s, c)
        }),
{
    broadcast use {
        stress_attach,
        stress_settle_losses,
        stress_charge_fee,
    };

    reveal(RiskEngine::liquidation_closed);
}

/// Liquidating an account.
pub broadcast proof fn stress_liquidate(
    e: RiskEngine,
    i: int,
    price: u64,
    policy: LiquidationPolicy,
    ctx: InstructionContext,
)
    ensures
        ({
            let (s, c, r) = #[trigger] e.liquidate_internal_spec(i, price, policy, ctx);
            e.stress_step(ctx, s, c)
        }),
{
    broadcast use {
        stress_liquidation_closed,
        stress_enqueue_adl,
        stress_set_pnl,
    };

    reveal(RiskEngine::liquidate_internal_spec);
    reveal(RiskEngine::liquidate_partial);
    reveal(RiskEngine::liquidate_full);
}

/// Processing a candidate of the keeper.
pub broadcast proof fn stress_candidate(
    e: RiskEngine,
    i: int,
    hint: Option<LiquidationPolicy>,
    price: u64,
    ctx: InstructionContext,
)
    ensures
        ({
            let (s, c, r) = #[trigger] e.candidate_processed(i, hint, price, ctx);
            e.stress_step(ctx, s, c)
        }),
{
    broadcast use {stress_touch, stress_liquidate};

    reveal(RiskEngine::candidate_processed);
}

/// Processing candidates from one on.
pub broadcast proof fn stress_phase1_from(
    e: RiskEngine,
    ctx: InstructionContext,
    candidates: Seq<(u16, Option<LiquidationPolicy>)>,
    k: int,
    price: u64,
    max_attempts: u16,
    max_inspections: u16,
    inspected: int,
    attempts: int,
    liquidations: int,
)
    ensures
        ({
            let (s, c, r) = #[trigger] e.phase1_from(
                ctx,
                candidates,
                k,
                price,
                max_attempts,
                max_inspections,
                inspected,
                attempts,
                liquidations,
            );
            e.stress_step(ctx, s, c)
        }),
    decreases candidates.len() - k,
{
    broadcast use stress_candidate;

    if k < 0 || k >= candidates.len() || attempts >= max_attempts || inspected >= max_inspections
        || ctx.pending_reset_long || ctx.pending_reset_short {
    } else if !e.account_exists(candidates[k].0 as int) {
        stress_phase1_from(
            e,
            ctx,
            candidates,
            k + 1,
            price,
            max_attempts,
            max_inspections,
            inspected + 1,
            attempts,
            liquidations,
        );
    } else {
        let (s, c, r) = e.candidate_processed(candidates[k].0 as int, candidates[k].1, price, ctx);
        if r is Ok {
            stress_phase1_from(
                s,
                c,
                candidates,
                k + 1,
                price,
                max_attempts,
                max_inspections,
                inspected + 1,
                attempts + 1,
                if r->Ok_0 {
                    liquidations + 1
                } else {
                    liquidations
                },
            );
        }
    }
}

/// Sweeping slots from one on.
pub broadcast proof fn stress_sweep_from(
    e: RiskEngine,
    ctx: InstructionContext,
    i: int,
    end: int,
    counted: int,
)
    ensures
        ({
            let (s, c, r) = #[trigger] e.sweep_from(ctx, i, end, counted);
            &&& e.stress_step(ctx, s, c)
            &&& r is Ok && 0 <= counted <= i <= end <= MAX_ACCOUNTS ==> r->Ok_0 == counted
                + e.used_in(i, end)
        }),
    decreases end - i,
{
    broadcast use stress_touch;

    if i >= end {
    } else if !e.slot_used(i) {
        stress_sweep_from(e, ctx, i + 1, end, counted);
    } else {
        let (s, c, r) = e.touch_spec(i, ctx);
        step_touch(e, i, ctx);
        if r is Ok {
            stress_sweep_from(s, c, i + 1, end, counted + 1);
            lemma_used_in(e, s, i + 1, end);
        }
    }
}

proof fn lemma_used_in(e: RiskEngine, s: RiskEngine, from: int, to: int)
    requires
        s.used == e.used,
    ensures
        s.used_in(from, to) == e.used_in(from, to),
        0 <= e.used_in(from, to),
    decreases to - from,
{
    if from < to {
        lemma_used_in(e, s, from + 1, to);
        assert(s.slot_used(from) == e.slot_used(from));
    }
}

/// Finishing touched accounts.
pub broadcast proof fn stress_finalize_one(e: RiskEngine, i: int, is_whole: bool)
    ensures
        e.same_stress((#[trigger] e.finalize_one_spec(i, is_whole)).0),
{
    broadcast use stress_set_capital;

    reveal(RiskEngine::finalize_one_spec);
    reveal(RiskEngine::consume_released_pnl_spec);
    reveal(RiskEngine::fee_debt_sweep_spec);
}

proof fn lemma_finalize_all_keeps_stress(e: RiskEngine, touched: Seq<u16>, is_whole: bool)
    ensures
        e.same_stress(e.finalize_all(touched, is_whole).0),
    decreases touched.len(),
{
    broadcast use stress_finalize_one;

    if touched.len() > 0 {
        lemma_finalize_all_keeps_stress(e, touched.drop_last(), is_whole);
    }
}

/// Beginning a reset.
pub broadcast proof fn stress_begin_reset(e: RiskEngine, side: Side)
    ensures
        e.same_stress((#[trigger] e.begin_reset_spec(side)).0),
{
    reveal(RiskEngine::begin_reset_spec);
}

/// Finishing an instruction keeps the stress envelope.
pub proof fn lemma_finish_keeps_stress(e: RiskEngine, ctx: InstructionContext)
    ensures
        e.same_stress(e.finish_spec(ctx).0),
{
    broadcast use stress_begin_reset;

    reveal(RiskEngine::finalize_touched_spec);
    let t = e.finalize_touched_spec(ctx).0;
    assert(e.same_stress(t)) by {
        assert forall|touched: Seq<u16>, is_whole: bool| e.same_stress(
            (#[trigger] e.finalize_all(touched, is_whole)).0,
        ) by {
            lemma_finalize_all_keeps_stress(e, touched, is_whole);
        }
    }
    reveal(RiskEngine::close_spec);
    reveal(RiskEngine::schedule_resets_spec);
    reveal(RiskEngine::finalize_resets_spec);
}

/// A sweep works off the envelope by the slots in use that it visits, unless a
/// bankruptcy starts it again.
proof fn lemma_sweep_works_off(e: RiskEngine, ctx: InstructionContext, window: u64, now_slot: u64)
    requires
        e.rr_cursor_position < e.params.max_accounts <= MAX_ACCOUNTS,
        e.swept(ctx, window, now_slot).2 is Ok,
    ensures
        ({
            let (s, c, r) = e.swept(ctx, window, now_slot);
            let visited = e.used_in(e.rr_cursor_position as int, e.sweep_end(window));
            &&& s.params == e.params
            &&& s.current_slot == e.current_slot
            &&& 0 <= visited
            &&& c.stress_envelope_restarted ==> s.envelope_started_at(e.current_slot)
                || ctx.stress_envelope_restarted && e.envelope_open() == s.envelope_open()
                && s.bankruptcy_hmax_lock_active == e.bankruptcy_hmax_lock_active
                && s.stress_envelope_remaining_indices == e.stress_envelope_remaining_indices
                && s.stress_envelope_start_slot == e.stress_envelope_start_slot
            &&& !c.stress_envelope_restarted ==> {
                &&& !ctx.stress_envelope_restarted
                &&& s.active_close_present == e.active_close_present
                &&& s.envelope_open() ==> e.envelope_open()
                    && s.stress_envelope_remaining_indices == crate::wide_math::max_int(
                    0,
                    e.stress_envelope_remaining_indices - visited,
                )
            }
        }),
{
    reveal(RiskEngine::swept);
    let end = e.sweep_end(window);
    stress_sweep_from(e, ctx, e.rr_cursor_position as int, end, 0);
    lemma_used_in(e, e, e.rr_cursor_position as int, end);
}

/// A keeper crank works off an open stress envelope by the slots in use that it visits.
/// Only a bankruptcy in the same crank starts the envelope again. So a crank that visits
/// an account reduces the rank of a market that still has envelope to work off, whether or
/// not it is behind.
pub proof fn law_crank_works_off_stress(
    e: RiskEngine,
    now_slot: u64,
    price: u64,
    candidates: Seq<(u16, Option<LiquidationPolicy>)>,
    max_revalidations: u16,
    rate: i128,
    h_min: u64,
    h_max: u64,
    threshold_opt: Option<u128>,
    window: u64,
)
    requires
        e.active_close_present == 0,
        e.keeper_crank_spec(
            now_slot,
            price,
            candidates,
            max_revalidations,
            rate,
            h_min,
            h_max,
            threshold_opt,
            window,
        ).1 is Ok,
    ensures
        ({
            let s = e.keeper_crank_spec(
                now_slot,
                price,
                candidates,
                max_revalidations,
                rate,
                h_min,
                h_max,
                threshold_opt,
                window,
            ).0;
            let visited = e.used_in(e.rr_cursor_position as int, e.sweep_end(window));
            let before = e.progress_rank_spec(now_slot);
            let after = s.progress_rank_spec(now_slot);
            &&& 0 <= visited
            &&& before is Ok
            &&& s.envelope_started_at(now_slot) || {
                &&& s.active_close_present == 0
                &&& after is Ok
                &&& s.envelope_open() ==> e.envelope_open()
                    && s.stress_envelope_remaining_indices == crate::wide_math::max_int(
                    0,
                    e.stress_envelope_remaining_indices - visited,
                )
                &&& 0 < visited && e.envelope_open() && 0 < e.stress_envelope_remaining_indices
                    ==> after->Ok_0.reduces_from(before->Ok_0)
            }
        }),
{
    broadcast use step_cranked;

    let ctx = RiskEngine::admission(h_min, h_max, threshold_opt);
    let (a, r) = e.accrue_market_to_spec(now_slot, price, rate);
    assert(r is Ok ==> a.market_mode == e.market_mode && a.current_slot == now_slot && (RiskEngine {
        current_slot: now_slot,
        ..e
    }).same_stress(a)) by {
        reveal(RiskEngine::accrue_market_to_spec);
    }
    assert(e.public_post() is Ok ==> e.rr_cursor_position < e.params.max_accounts <= MAX_ACCOUNTS)
        by {
        reveal(RiskEngine::public_post);
    }
    law_crank_catches_up(
        e,
        now_slot,
        price,
        candidates,
        max_revalidations,
        rate,
        h_min,
        h_max,
        threshold_opt,
        window,
    );
    reveal(RiskEngine::keeper_crank_spec);
    reveal(RiskEngine::cranked);
    reveal(RiskEngine::phase1_spec);
    let limit = RiskEngine::inspection_limit(max_revalidations);
    let (p, c, r1) = a.phase1_spec(ctx, candidates, price, max_revalidations, limit);
    stress_phase1_from(a, ctx, candidates, 0, price, max_revalidations, limit, 0, 0, 0);
    assert(a.stress_step(ctx, p, c));
    lemma_sweep_works_off(p, c, window, now_slot);
    let (q, c2, r2) = p.swept(c, window, now_slot);
    lemma_finish_keeps_stress(q, c2);
    lemma_used_in(e, p, e.rr_cursor_position as int, e.sweep_end(window));
    let s = q.finish_spec(c2).0;
    assert(q.finish_spec(c2).1 is Ok ==> s.public_post() is Ok) by {
        reveal(RiskEngine::close_spec);
    }
    if s.active_close_present == 0 {
        law_valid_market_has_a_rank(s, now_slot);
    }
}

} // verus!
