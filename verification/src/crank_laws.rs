//! What a crank does to its candidates and to the accounts that it sweeps.

use vstd::prelude::*;

use crate::books::{step_phase1, step_swept, step_touch};
use crate::constants::{MAX_ACCOUNTS, MAX_ORACLE_PRICE};
use crate::context::InstructionContext;
use crate::frames::{frame_finish, frame_touch, lemma_same_held};
use crate::isolation::{law_touch_moves_nothing_shared, law_touched_account_is_settled};
use crate::liquidation_laws::law_candidate_is_liquidated_as_hinted;
use crate::measures::{lesser, size_of};
use crate::stress_laws::{lemma_finish_keeps_stress, stress_phase1_from};
use crate::types::{LiquidationPolicy, RiskEngine, RiskError};

verus! {

proof fn lemma_candidates_shift(
    e: RiskEngine,
    ctx: InstructionContext,
    all: Seq<(u16, Option<LiquidationPolicy>)>,
    k: int,
    price: u64,
    attempts_left: u16,
    inspections_left: u16,
    inspected: int,
    attempts: int,
    liquidations: int,
    tried: int,
    done: int,
)
    requires
        1 <= k <= all.len(),
        0 <= done <= tried <= 1,
        tried <= attempts <= inspected <= inspections_left,
        1 <= inspected,
        done <= liquidations <= attempts,
        tried <= attempts_left,
    ensures
        ({
            let (s, c, r) = e.phase1_from(
                ctx,
                all,
                k,
                price,
                attempts_left,
                inspections_left,
                inspected,
                attempts,
                liquidations,
            );
            let (s2, c2, r2) = e.phase1_from(
                ctx,
                all.drop_first(),
                k - 1,
                price,
                (attempts_left - tried) as u16,
                (inspections_left - 1) as u16,
                inspected - 1,
                attempts - tried,
                liquidations - done,
            );
            &&& s2 == s
            &&& c2 == c
            &&& r is Ok <==> r2 is Ok
            &&& r is Err ==> r2->Err_0 == r->Err_0
            &&& r is Ok ==> r->Ok_0.0 == r2->Ok_0.0 + done && r->Ok_0.1 == (r2->Ok_0.1 || tried
                == 1)
        }),
    decreases all.len() - k,
{
    let rest = all.drop_first();
    if k < all.len() && attempts < attempts_left && inspected < inspections_left
        && !ctx.pending_reset_long && !ctx.pending_reset_short {
        assert(rest[k - 1] == all[k]);
        let (idx, hint) = all[k];
        if !e.account_exists(idx as int) {
            lemma_candidates_shift(
                e,
                ctx,
                all,
                k + 1,
                price,
                attempts_left,
                inspections_left,
                inspected + 1,
                attempts,
                liquidations,
                tried,
                done,
            );
        } else {
            let (s, c, r) = e.candidate_processed(idx as int, hint, price, ctx);
            if r is Ok {
                lemma_candidates_shift(
                    s,
                    c,
                    all,
                    k + 1,
                    price,
                    attempts_left,
                    inspections_left,
                    inspected + 1,
                    attempts + 1,
                    if r->Ok_0 {
                        liquidations + 1
                    } else {
                        liquidations
                    },
                    tried,
                    done,
                );
            }
        }
    }
}

/// Candidates come one after another, in the order given, each in the market that the ones
/// before it left, until a limit is reached or a reset is due. A slot that is not in use
/// costs an inspection, an account an attempt too, and what is counted is what was
/// liquidated.
pub proof fn law_candidates_come_one_after_another(
    e: RiskEngine,
    ctx: InstructionContext,
    candidates: Seq<(u16, Option<LiquidationPolicy>)>,
    price: u64,
    attempts: u16,
    inspections: u16,
)
    ensures
        ({
            let (s, c, r) = e.phase1_spec(ctx, candidates, price, attempts, inspections);
            let rest = candidates.drop_first();
            let (idx, hint) = candidates[0];
            let fewer = (inspections - 1) as u16;
            if candidates.len() == 0 || attempts == 0 || inspections == 0
                || ctx.pending_reset_long || ctx.pending_reset_short {
                (s, c, r) == (e, ctx, Ok::<(u32, bool), RiskError>((0, false)))
            } else if !(idx < e.params.max_accounts && idx < MAX_ACCOUNTS && e.slot_used(
                idx as int,
            )) {
                (s, c, r) == e.phase1_spec(ctx, rest, price, attempts, fewer)
            } else {
                let (s1, c1, r1) = e.candidate_processed(idx as int, hint, price, ctx);
                let (s2, c2, r2) = s1.phase1_spec(c1, rest, price, (attempts - 1) as u16, fewer);
                if r1 is Err {
                    r is Err && r->Err_0 == r1->Err_0
                } else {
                    &&& (s, c) == (s2, c2)
                    &&& r is Ok <==> r2 is Ok
                    &&& r is Ok ==> r->Ok_0 == (
                        (r2->Ok_0.0 + if r1->Ok_0 {
                            1int
                        } else {
                            0
                        }) as u32,
                        true,
                    )
                }
            }
        }),
{
    reveal(RiskEngine::phase1_spec);
    if candidates.len() > 0 && attempts > 0 && inspections > 0 && !ctx.pending_reset_long
        && !ctx.pending_reset_short {
        let (idx, hint) = candidates[0];
        if !e.account_exists(idx as int) {
            lemma_candidates_shift(
                e,
                ctx,
                candidates,
                1,
                price,
                attempts,
                inspections,
                1,
                0,
                0,
                0,
                0,
            );
        } else {
            let (s1, c1, r1) = e.candidate_processed(idx as int, hint, price, ctx);
            if r1 is Ok {
                let n = if r1->Ok_0 {
                    1int
                } else {
                    0
                };
                lemma_candidates_shift(
                    s1,
                    c1,
                    candidates,
                    1,
                    price,
                    attempts,
                    inspections,
                    1,
                    1,
                    n,
                    1,
                    n,
                );
            }
        }
    }
}

impl RiskEngine {
    /// Whether account `j` has nothing left to settle against the price and funding indices
    /// of its side, but for what an epoch that is over still owes it.
    pub open spec fn is_up_to_date(self, j: int) -> bool {
        let a = self.accounts@[j];
        &&& a.position_basis_q > 0 && a.adl_epoch_snap == self.adl_epoch_long ==> a.adl_k_snap
            == self.adl_coeff_long && a.f_snap == self.f_long_num
        &&& a.position_basis_q < 0 && a.adl_epoch_snap == self.adl_epoch_short ==> a.adl_k_snap
            == self.adl_coeff_short && a.f_snap == self.f_short_num
    }
}

proof fn lemma_sweep_keeps(
    e: RiskEngine,
    ctx: InstructionContext,
    i: int,
    end: int,
    counted: int,
    j: int,
)
    requires
        0 <= j < MAX_ACCOUNTS,
        e.sweep_from(ctx, i, end, counted).2 is Ok,
    ensures
        ({
            let s = e.sweep_from(ctx, i, end, counted).0;
            &&& e.same_indices(s)
            &&& s.held(j) == e.held(j)
            &&& j < i ==> s.accounts@[j] == e.accounts@[j]
            &&& i <= j < end && e.slot_used(j) ==> s.is_up_to_date(j)
        }),
    decreases end - i,
{
    broadcast use step_touch;

    if i >= end {
    } else if !e.slot_used(i) {
        lemma_sweep_keeps(e, ctx, i + 1, end, counted, j);
    } else {
        let (s, c, r) = e.touch_spec(i, ctx);
        frame_touch(e, i, ctx);
        law_touch_moves_nothing_shared(e, i, ctx);
        law_touched_account_is_settled(e, i, ctx);
        if i != j {
            lemma_same_held(e, s, j);
        }
        lemma_sweep_keeps(s, c, i + 1, end, counted + 1, j);
    }
}

proof fn lemma_swept_keeps(
    e: RiskEngine,
    ctx: InstructionContext,
    window: u64,
    now_slot: u64,
    j: int,
)
    requires
        0 <= j < MAX_ACCOUNTS,
        e.swept(ctx, window, now_slot).2 is Ok,
    ensures
        ({
            let s = e.swept(ctx, window, now_slot).0;
            let end = lesser(e.rr_cursor_position + window, e.params.max_accounts as int);
            &&& s.held(j) == e.held(j)
            &&& e.rr_cursor_position <= j < end && e.slot_used(j) ==> s.is_up_to_date(j)
            &&& s.rr_cursor_position == if end == e.params.max_accounts {
                0
            } else {
                end
            }
        }),
{
    reveal(RiskEngine::swept);
    let end = e.sweep_end(window);
    lemma_sweep_keeps(e, ctx, e.rr_cursor_position as int, end, 0, j);
    let t = e.sweep_from(ctx, e.rr_cursor_position as int, end, 0).0;
    let s = e.swept(ctx, window, now_slot).0;
    reveal(RiskEngine::advance_sweep_generation_spec);
    assert(s.accounts == t.accounts && t.same_multipliers(s) && s.adl_coeff_long
        == t.adl_coeff_long && s.adl_coeff_short == t.adl_coeff_short && s.f_long_num
        == t.f_long_num && s.f_short_num == t.f_short_num);
    lemma_same_held(t, s, j);
}

/// A crank brings every account of its window up to date with the prices and the funding,
/// whatever the candidates were, and the next crank goes on behind the window, or at the
/// first slot again.
pub proof fn law_crank_sweeps_its_window(
    e: RiskEngine,
    now_slot: u64,
    price: u64,
    candidates: Seq<(u16, Option<LiquidationPolicy>)>,
    max_revalidations: u16,
    rate: i128,
    h_min: u64,
    h_max: u64,
    threshold_opt: Option<u128>,
    window: u64,
    j: int,
)
    requires
        e.sound(),
        e.active_close_present == 0,
        0 <= j < MAX_ACCOUNTS,
        e.keeper_crank_spec(
            now_slot,
            price,
            candidates,
            max_revalidations,
            rate,
            h_min,
            h_max,
            threshold_opt,
            window,
        ).1 is Ok,
    ensures
        ({
            let s = e.keeper_crank_spec(
                now_slot,
                price,
                candidates,
                max_revalidations,
                rate,
                h_min,
                h_max,
                threshold_opt,
                window,
            ).0;
            let end = lesser(e.rr_cursor_position + window, e.params.max_accounts as int);
            &&& e.rr_cursor_position <= j < end && e.slot_used(j) ==> s.is_up_to_date(j)
            &&& s.rr_cursor_position == if end == e.params.max_accounts {
                0
            } else {
                end
            }
        }),
{
    broadcast use {step_phase1, step_swept};

    reveal(RiskEngine::keeper_crank_spec);
    reveal(RiskEngine::cranked);
    let ctx = RiskEngine::admission(h_min, h_max, threshold_opt);
    let a = e.accrue_market_to_spec(now_slot, price, rate).0;
    lemma_accrued(e, now_slot, price, rate);
    let limit = RiskEngine::inspection_limit(max_revalidations);
    let (p, c, _) = a.phase1_spec(ctx, candidates, price, max_revalidations, limit);
    assert(p.rr_cursor_position == a.rr_cursor_position && p.used == a.used && p.params
        == a.params) by {
        reveal(RiskEngine::phase1_spec);
        stress_phase1_from(a, ctx, candidates, 0, price, max_revalidations, limit, 0, 0, 0);
    }
    lemma_swept_keeps(p, c, window, now_slot, j);
    let (q, c2, _) = p.swept(c, window, now_slot);
    frame_finish(q, c2, j);
    lemma_finish_keeps_stress(q, c2);
    assert(q.positions_fit());
    assert(q.position_fits(q.accounts@[j]));
}

proof fn lemma_accrued(e: RiskEngine, now_slot: u64, price: u64, rate: i128)
    requires
        e.sound(),
        e.accrue_market_to_spec(now_slot, price, rate).1 is Ok,
    ensures
        ({
            let a = e.accrue_market_to_spec(now_slot, price, rate).0;
            &&& a.accounts == e.accounts
            &&& e.same_multipliers(a)
            &&& a.last_oracle_price == price
            &&& 0 < price <= MAX_ORACLE_PRICE
            &&& a.params == e.params
            &&& a.used == e.used
            &&& a.rr_cursor_position == e.rr_cursor_position
            &&& a.sides_in_range()
            &&& a.positions_fit()
            &&& a.market_mode == e.market_mode
        }),
{
    reveal(RiskEngine::accrue_market_to_spec);
}

/// A crank with one candidate, on a market without a close in flight. The candidate is an
/// account in use; `t` is the market in which it has just been brought up to date. It is
/// liquidated just as the hint says or left with its position, and liquidated only if it
/// holds something and is not healthy; a full close of such an account is owed if it is
/// settled. A reset at the end of the crank may end what is left of a position.
pub proof fn law_crank_of_one_candidate(
    e: RiskEngine,
    now_slot: u64,
    price: u64,
    idx: u16,
    hint: Option<LiquidationPolicy>,
    max_revalidations: u16,
    rate: i128,
    h_min: u64,
    h_max: u64,
    threshold_opt: Option<u128>,
    window: u64,
)
    requires
        e.sound(),
        e.active_close_present == 0,
        0 < max_revalidations,
        idx < MAX_ACCOUNTS,
        idx < e.params.max_accounts,
        e.slot_used(idx as int),
        e.keeper_crank_spec(
            now_slot,
            price,
            seq![(idx, hint)],
            max_revalidations,
            rate,
            h_min,
            h_max,
            threshold_opt,
            window,
        ).1 is Ok,
    ensures
        ({
            let (s, r) = e.keeper_crank_spec(
                now_slot,
                price,
                seq![(idx, hint)],
                max_revalidations,
                rate,
                h_min,
                h_max,
                threshold_opt,
                window,
            );
            let i = idx as int;
            let t = e.accrue_market_to_spec(now_slot, price, rate).0.touch_spec(
                i,
                RiskEngine::admission(h_min, h_max, threshold_opt),
            ).0;
            let held = e.held(i);
            let n = r->Ok_0.num_liquidations;
            &&& t.held(i) == held
            &&& n == 0 || n == 1
            &&& n == 0 ==> s.held(i) == held || s.held(i) == 0
            &&& n == 1 ==> held != 0 && !t.is_healthy(i, price as int) && match hint {
                None => false,
                Some(LiquidationPolicy::FullClose) => s.held(i) == 0,
                Some(LiquidationPolicy::ExactPartial(q)) => {
                    &&& 0 < q < size_of(held)
                    &&& s.held(i) == 0 || s.held(i) == if held > 0 {
                        held - q
                    } else {
                        held + q
                    }
                },
            }
            &&& hint == Some(LiquidationPolicy::FullClose) && held != 0 && !t.is_healthy(
                i,
                price as int,
            ) && t.unsettled_live_spec(t.accounts@[i]) == Ok::<bool, RiskError>(false) ==> n == 1
                && s.held(i) == 0
        }),
{
    broadcast use {step_phase1, step_swept};

    reveal(RiskEngine::keeper_crank_spec);
    reveal(RiskEngine::cranked);
    let i = idx as int;
    let one = seq![(idx, hint)];
    let ctx = RiskEngine::admission(h_min, h_max, threshold_opt);
    let a = e.accrue_market_to_spec(now_slot, price, rate).0;
    lemma_accrued(e, now_slot, price, rate);
    lemma_same_held(e, a, i);
    let limit = RiskEngine::inspection_limit(max_revalidations);
    let (p, c, _) = a.phase1_spec(ctx, one, price, max_revalidations, limit);
    law_candidates_come_one_after_another(a, ctx, one, price, max_revalidations, limit);
    let (s1, c1, r1) = a.candidate_processed(i, hint, price, ctx);
    law_candidate_is_liquidated_as_hinted(a, i, hint, price, ctx);
    law_candidates_come_one_after_another(
        s1,
        c1,
        one.drop_first(),
        price,
        (max_revalidations - 1) as u16,
        (limit - 1) as u16,
    );
    lemma_swept_keeps(p, c, window, now_slot, i);
    let (q, c2, _) = p.swept(c, window, now_slot);
    frame_finish(q, c2, i);
}

} // verus!
