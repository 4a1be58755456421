//! What a permissionless request achieves, by its outcome.

use vstd::prelude::*;

use crate::constants::MAX_ACCOUNTS;
use crate::progress_laws::{
    law_account_step_makes_progress, law_close_continuation_makes_progress, law_crank_catches_up,
    law_forced_close_makes_progress, law_reconciliation_makes_progress,
    law_valid_market_has_a_rank,
};
use crate::stress_laws::law_crank_works_off_stress;
use crate::types::{
    MarketMode, PermissionlessProgressOutcome, PermissionlessProgressRequest, RecoveryReason,
    RiskEngine, RiskError, Side,
};

verus! {

impl RiskEngine {
    /// The first slot in use among `left` slots from `cursor` on.
    pub open spec fn next_in_use(self, cursor: int, left: int, wrap_bound: u64) -> Option<int>
        decreases left,
    {
        if left <= 0 {
            None
        } else if self.slot_used(cursor) {
            Some(cursor)
        } else {
            self.next_in_use(RiskEngine::next_cursor(cursor, wrap_bound), left - 1, wrap_bound)
        }
    }

    /// The account that a scan of a resolved market comes to.
    pub open spec fn next_to_close(self, scan_limit: u64) -> Option<int> {
        self.next_in_use(
            self.rr_cursor_position as int,
            crate::wide_math::min_int(scan_limit as int, self.params.max_accounts as int),
            self.params.max_accounts,
        )
    }

    /// Whether the rank of the market at a slot, if it has one, is reduced from this state
    /// to `after`.
    pub open spec fn gets_closer(self, after: RiskEngine, now_slot: u64) -> bool {
        let b = self.progress_rank_spec(now_slot);
        let a = after.progress_rank_spec(now_slot);
        b is Ok ==> a is Ok && a->Ok_0.reduces_from(b->Ok_0)
    }

    /// Whether a live market that a recovery resolves has anything before the accounts
    /// to settle left: slots to catch up with, or the residual of a close.
    pub open spec fn has_live_work(self, now_slot: u64) -> bool {
        ||| self.exposed_market_has_oi() && self.last_market_slot < now_slot
        ||| self.active_close_present != 0 && 0 < self.active_close_residual_remaining
    }
}

proof fn lemma_cursor_close(e: RiskEngine, cursor: int, left: int, wrap_bound: u64, rate: u128)
    requires
        e.sound(),
        0 <= cursor < wrap_bound <= MAX_ACCOUNTS,
        e.market_mode == MarketMode::Resolved,
    ensures
        ({
            let (s, r) = e.cursor_close(cursor, left, wrap_bound, rate);
            let hit = e.next_in_use(cursor, left, wrap_bound);
            r is Ok ==> {
                &&& e.same_course(s)
                &&& s.public_post() is Ok
                &&& s.market_mode == MarketMode::Resolved
                &&& s.resolved_blockers() <= e.resolved_blockers()
                &&& hit is Some ==> 0 <= hit->0 < wrap_bound && s.rr_cursor_position
                    == RiskEngine::next_cursor(hit->0, wrap_bound)
                &&& r->Ok_0 is Closed ==> hit is Some && !s.slot_used(hit->0)
                    && s.resolved_blockers() < e.resolved_blockers()
                &&& hit is Some && (e.accounts@[hit->0].position_basis_q != 0
                    || e.accounts@[hit->0].pnl < 0) ==> s.resolved_blockers()
                    < e.resolved_blockers()
            }
        }),
    decreases left,
{
    let next = RiskEngine::next_cursor(cursor, wrap_bound);
    if left <= 0 {
    } else if e.slot_used(cursor) {
        let idx = cursor as u16;
        let (s, r) = e.force_close_spec(idx, Some(rate));
        if r is Ok {
            crate::conservation::law_forced_close_conserves(e, idx, Some(rate));
            if r->Ok_0 is Closed {
                law_forced_close_makes_progress(e, idx, Some(rate));
            } else {
                law_reconciliation_makes_progress(e, idx, Some(rate));
            }
        }
    } else {
        lemma_cursor_close(e, next, left - 1, wrap_bound, rate);
    }
}

broadcast proof fn lemma_reset_keeps_close(e: RiskEngine, side: Side)
    ensures
        ({
            let s = (#[trigger] e.begin_reset_spec(side)).0;
            &&& s.market_mode == e.market_mode
            &&& s.current_slot == e.current_slot
            &&& s.active_close_present == e.active_close_present
        }),
{
    reveal(RiskEngine::begin_reset_spec);
}

broadcast proof fn lemma_terminal_reset_keeps_close(e: RiskEngine, side: Side)
    ensures
        ({
            let s = (#[trigger] e.begin_terminal_reset_spec(side)).0;
            &&& s.market_mode == e.market_mode
            &&& s.current_slot == e.current_slot
            &&& s.active_close_present == e.active_close_present
        }),
{
    reveal(RiskEngine::begin_terminal_reset_spec);
}

proof fn lemma_drained_keeps_close(e: RiskEngine, terminal: bool)
    ensures
        ({
            let s = e.resolution_drained(terminal).0;
            &&& s.market_mode == e.market_mode
            &&& s.current_slot == e.current_slot
            &&& s.active_close_present == e.active_close_present
        }),
{
    broadcast use {lemma_reset_keeps_close, lemma_terminal_reset_keeps_close};

    reveal(RiskEngine::resolution_drained);
}

/// Resolving at the last price leaves a resolved market with no close in flight.
proof fn lemma_resolved_at_last(e: RiskEngine, now_slot: u64)
    ensures
        ({
            let (s, r) = e.resolve_at_last(now_slot);
            r is Ok ==> s.market_mode == MarketMode::Resolved && s.active_close_present == 0
                && s.current_slot == now_slot && s.public_post() is Ok
        }),
{
    reveal(RiskEngine::resolve_market_spec);
    reveal(RiskEngine::settled_at);
    reveal(RiskEngine::resolution_drained);
    assert forall|x: RiskEngine, t: bool|
        ({
            let s = (#[trigger] x.resolution_drained(t)).0;
            &&& s.market_mode == x.market_mode
            &&& s.current_slot == x.current_slot
            &&& s.active_close_present == x.active_close_present
        }) by {
        lemma_drained_keeps_close(x, t);
    }
}

/// A recovery resolves the market and leaves no close in flight.
proof fn lemma_recovered(e: RiskEngine, reason: RecoveryReason, now_slot: u64, target: u64)
    ensures
        ({
            let (s, r) = e.recover_spec(reason, now_slot, target);
            r is Ok ==> {
                &&& e.market_mode == MarketMode::Live
                &&& s.market_mode == MarketMode::Resolved
                &&& s.active_close_present == 0
                &&& s.current_slot == now_slot
                &&& s.public_post() is Ok
            }
        }),
{
    reveal(RiskEngine::recover_spec);
    assert(e.recovery_reason_spec(reason, now_slot, target) is Ok ==> e.market_mode
        == MarketMode::Live) by {
        reveal(RiskEngine::recovery_reason_spec);
    }
    assert forall|x: RiskEngine| (#[trigger] x.resolve_at_last(now_slot)).1 is Ok implies ({
        let s = x.resolve_at_last(now_slot).0;
        s.market_mode == MarketMode::Resolved && s.active_close_present == 0 && s.current_slot
            == now_slot && s.public_post() is Ok
    }) by {
        lemma_resolved_at_last(x, now_slot);
    }
    assert forall|x: RiskEngine, t: bool|
        ({
            let s = (#[trigger] x.resolution_drained(t)).0;
            &&& s.market_mode == x.market_mode
            &&& s.current_slot == x.current_slot
            &&& s.active_close_present == x.active_close_present
        }) by {
        lemma_drained_keeps_close(x, t);
    }
    reveal(RiskEngine::resolve_exhausted_spec);
    reveal(RiskEngine::resolution_drained);
}

proof fn lemma_recoveries(e: RiskEngine, k: int, now_slot: u64, target: u64)
    ensures
        ({
            let (s, r) = e.try_recoveries(k, now_slot, target);
            r is Ok ==> match r->Ok_0 {
                None => s == e,
                Some(outcome) => {
                    &&& outcome is Recovered
                    &&& e.market_mode == MarketMode::Live
                    &&& s.market_mode == MarketMode::Resolved
                    &&& s.active_close_present == 0
                    &&& s.current_slot == now_slot
                    &&& s.public_post() is Ok
                },
            }
        }),
    decreases 5 - k,
{
    if 0 <= k < 5 {
        lemma_recovered(e, RiskEngine::ranked_reason(k), now_slot, target);
        lemma_recoveries(e, k + 1, now_slot, target);
    }
}

/// A request settles an account only with a chunk to settle, and resolves the market for
/// an account only by a recovery.
proof fn lemma_dispatched(
    e: RiskEngine,
    idx: u16,
    now_slot: u64,
    h_min: u64,
    h_max: u64,
    threshold_opt: Option<u128>,
)
    ensures
        ({
            let (s, r) = e.account_b_dispatch_spec(idx, now_slot, h_min, h_max, threshold_opt);
            r is Ok ==> match r->Ok_0 {
                None => s == e,
                Some(PermissionlessProgressOutcome::AccountBProgress(i)) => i == idx && (
                    s,
                    Ok::<bool, RiskError>(true),
                ) == e.account_b_progress_spec(
                    idx as int,
                    now_slot,
                    h_min,
                    h_max,
                    threshold_opt,
                ),
                Some(outcome) => {
                    &&& outcome is AccountBRecovered
                    &&& s.market_mode == MarketMode::Resolved
                    &&& s.active_close_present == 0
                    &&& s.current_slot == now_slot
                    &&& s.public_post() is Ok
                },
            }
        }),
{
    reveal(RiskEngine::account_b_dispatch_spec);
    reveal(RiskEngine::account_b_progress_spec);
    reveal(RiskEngine::recover_account_b_spec);
    lemma_resolved_at_last(e, now_slot);
}

/// What an honest request achieves, by its outcome.
///
/// Closing an account of a resolved market reduces the rank; reconciling one never raises
/// the number of blockers, lowers it if the account held a position or a loss, and moves
/// the scan on. Continuing a close reduces the rank. A step of an account settles a chunk
/// of it, and reduces its own rank while it keeps its position and its epoch. A recovery
/// resolves the market for good, and reduces the rank if live work was left. A crank
/// leaves no slot to catch up with, reduces the rank if there were any, and works off an
/// open stress envelope by the accounts that it visits unless a new bankruptcy starts it
/// again.
pub proof fn law_progress_by_outcome(
    e: RiskEngine,
    req: PermissionlessProgressRequest<'_>,
)
    requires
        e.sound(),
        e.progress_spec(req).1 is Ok,
    ensures
        ({
            let s = e.progress_spec(req).0;
            let now_slot = req.now_slot;
            match e.progress_spec(req).1->Ok_0 {
                PermissionlessProgressOutcome::ResolvedClose(result) => {
                    let hit = e.next_to_close(req.resolved_scan_limit);
                    &&& s.market_mode == MarketMode::Resolved
                    &&& s.resolved_blockers() <= e.resolved_blockers()
                    &&& hit is Some ==> s.rr_cursor_position == RiskEngine::next_cursor(
                        hit->0,
                        e.params.max_accounts,
                    )
                    &&& result is Closed ==> hit is Some && !s.slot_used(hit->0) && e.gets_closer(
                        s,
                        now_slot,
                    )
                    &&& hit is Some && (e.accounts@[hit->0].position_basis_q != 0
                        || e.accounts@[hit->0].pnl < 0) ==> e.gets_closer(s, now_slot)
                },
                PermissionlessProgressOutcome::ActiveCloseContinued => {
                    &&& s.active_close_residual_remaining < e.active_close_residual_remaining
                    &&& s.progress_rank_spec(now_slot) is Ok ==> e.gets_closer(s, now_slot)
                },
                PermissionlessProgressOutcome::AccountBProgress(idx) => {
                    let i = idx as int;
                    let side = crate::sides::some_side(e.accounts@[i].position_basis_q);
                    &&& req.account_hint == Some(idx)
                    &&& s.accounts@[i].b_snap > e.accounts@[i].b_snap
                    &&& e.account_rank_spec(i) is Ok
                    &&& s.account_rank_spec(i) is Ok && s.accounts@[i].position_basis_q
                        == e.accounts@[i].position_basis_q && s.get_epoch_side(side)
                        == e.get_epoch_side(side)
                        ==> s.account_rank_spec(i)->Ok_0.account_b_remaining_num
                        < e.account_rank_spec(i)->Ok_0.account_b_remaining_num
                },
                PermissionlessProgressOutcome::Recovered(_)
                | PermissionlessProgressOutcome::AccountBRecovered(_) => {
                    &&& e.market_mode == MarketMode::Live
                    &&& s.market_mode == MarketMode::Resolved
                    &&& s.active_close_present == 0
                    &&& e.has_live_work(now_slot) ==> e.gets_closer(s, now_slot)
                },
                PermissionlessProgressOutcome::Cranked(_) => {
                    let visited = e.used_in(
                        e.rr_cursor_position as int,
                        e.sweep_end(req.rr_touch_limit),
                    );
                    &&& s.last_market_slot >= now_slot
                    &&& e.exposed_market_has_oi() && e.last_market_slot < now_slot
                        && s.progress_rank_spec(now_slot) is Ok ==> e.gets_closer(s, now_slot)
                    &&& 0 < visited && e.envelope_open() && 0
                        < e.stress_envelope_remaining_indices ==> s.envelope_started_at(now_slot)
                        || e.gets_closer(s, now_slot)
                },
            }
        }),
{
    let now_slot = req.now_slot;
    let s = e.progress_spec(req).0;
    if s.public_post() is Ok && s.active_close_present == 0 && s.current_slot <= now_slot {
        law_valid_market_has_a_rank(s, now_slot);
    }
    reveal(RiskEngine::progress_spec);
    if e.market_mode == MarketMode::Resolved {
        reveal(RiskEngine::force_close_cursor_spec);
        assert(e.public_post() is Ok ==> e.rr_cursor_position < e.params.max_accounts
            <= MAX_ACCOUNTS) by {
            reveal(RiskEngine::public_post);
        }
        if e.public_post() is Ok {
            lemma_cursor_close(
                e,
                e.rr_cursor_position as int,
                crate::wide_math::min_int(
                    req.resolved_scan_limit as int,
                    e.params.max_accounts as int,
                ),
                e.params.max_accounts,
                req.resolved_fee_rate_per_slot,
            );
        }
    } else if e.active_close_present != 0 {
        lemma_recovered(
            e,
            RecoveryReason::ActiveBankruptCloseCannotProgress,
            now_slot,
            req.authenticated_raw_target_price,
        );
        if e.continue_close_spec(now_slot).1 is Ok {
            law_close_continuation_makes_progress(e, now_slot);
        }
    } else {
        let (d, r) = match req.account_hint {
            None => (e, Ok::<Option<PermissionlessProgressOutcome>, RiskError>(None)),
            Some(idx) => e.account_b_dispatch_spec(
                idx,
                now_slot,
                req.admit_h_min,
                req.admit_h_max,
                req.admit_h_max_consumption_threshold_bps_opt,
            ),
        };
        if req.account_hint is Some {
            lemma_dispatched(
                e,
                req.account_hint->0,
                now_slot,
                req.admit_h_min,
                req.admit_h_max,
                req.admit_h_max_consumption_threshold_bps_opt,
            );
            law_account_step_makes_progress(
                e,
                req.account_hint->0 as int,
                now_slot,
                req.admit_h_min,
                req.admit_h_max,
                req.admit_h_max_consumption_threshold_bps_opt,
            );
        }
        lemma_recoveries(e, 0, now_slot, req.authenticated_raw_target_price);
        if e.crank_request_spec(RiskEngine::crank_of(req)).1 is Ok {
            law_crank_catches_up(
                e,
                now_slot,
                req.oracle_price,
                req.ordered_candidates@,
                req.max_revalidations,
                req.funding_rate_e9,
                req.admit_h_min,
                req.admit_h_max,
                req.admit_h_max_consumption_threshold_bps_opt,
                req.rr_touch_limit,
            );
            law_crank_works_off_stress(
                e,
                now_slot,
                req.oracle_price,
                req.ordered_candidates@,
                req.max_revalidations,
                req.funding_rate_e9,
                req.admit_h_min,
                req.admit_h_max,
                req.admit_h_max_consumption_threshold_bps_opt,
                req.rr_touch_limit,
            );
        }
    }
}

} // verus!
