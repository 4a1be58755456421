//! The market always gets closer to having nothing left to do: what counts as
//! progress reduces its rank.

use vstd::prelude::*;

use crate::books::{
    lemma_ledger_of_account, step_close_instruction, step_cranked, step_drain_b,
    step_fee_debt_sweep, step_finalize_touched, step_profit_paid, step_reconcile,
    step_set_capital, step_set_pnl, step_sync_fee, step_touch,
};
use crate::constants::{MAX_ACCOUNTS, PUBLIC_ACCOUNT_B_SETTLEMENT_LOSS_ATOMS, SOCIAL_LOSS_DEN};
use crate::context::InstructionContext;
use crate::isolation::{
    index_flat_negative, index_set_basis, index_set_capital, index_set_pnl, index_settle_losses,
};
use crate::types::{LiquidationPolicy, ReserveMode, RiskEngine, RiskError, Side};

verus! {

proof fn lemma_counts_are_bounded(e: RiskEngine, n: int)
    requires
        0 <= n <= MAX_ACCOUNTS,
    ensures
        ({
            let c = e.counts_below(n);
            &&& c.used <= n && c.negative <= n
            &&& c.stored_long <= n && c.stored_short <= n
            &&& c.stale_long <= n && c.stale_short <= n
        }),
    decreases n,
{
    if n > 0 {
        lemma_counts_are_bounded(e, n - 1);
    }
}

/// A market in a valid state with no close in flight has a rank at every slot that is not
/// before its own.
pub proof fn law_valid_market_has_a_rank(e: RiskEngine, now_slot: u64)
    requires
        e.public_post() is Ok,
        e.active_close_present == 0,
        e.current_slot <= now_slot,
    ensures
        e.progress_rank_spec(now_slot) is Ok,
{
    reveal(RiskEngine::public_post);
    lemma_counts_are_bounded(e, MAX_ACCOUNTS as int);
}

/// Continuing a bankrupt close makes progress: what is left of the residual shrinks,
/// and with it the rank of the market.
pub proof fn law_close_continuation_makes_progress(e: RiskEngine, now_slot: u64)
    requires
        e.continue_close_spec(now_slot).1 is Ok,
    ensures
        ({
            let s = e.continue_close_spec(now_slot).0;
            &&& s.active_close_residual_remaining < e.active_close_residual_remaining
            &&& e.progress_rank_spec(now_slot) is Ok
            &&& s.progress_rank_spec(now_slot) is Ok ==> s.progress_rank_spec(
                now_slot,
            )->Ok_0.reduces_from(e.progress_rank_spec(now_slot)->Ok_0)
        }),
{
    reveal(RiskEngine::continue_close_spec);
    reveal(RiskEngine::continue_close_core_spec);
    let ctx = InstructionContext::fresh(e.params.h_max, e.params.h_max, None);
    let side = RiskEngine::decode_active_close_side(e.active_close_opp_side)->Ok_0;
    lemma_booking_takes_something(
        e,
        ctx,
        side,
        e.active_close_residual_remaining,
        crate::constants::PUBLIC_B_CHUNK_ATOMS,
    );
}

proof fn lemma_booking_takes_something(
    e: RiskEngine,
    ctx: InstructionContext,
    side: Side,
    residual: u128,
    budget: u128,
)
    requires
        0 < residual,
    ensures
        ({
            let (s, c, r) = e.book_residual_chunk_spec(ctx, side, residual, budget);
            r is Ok ==> {
                &&& 0 < r->Ok_0 <= residual
                &&& s.active_close_residual_remaining == e.active_close_residual_remaining
                &&& s.active_close_present == e.active_close_present
                &&& s.oi_eff_long_q == e.oi_eff_long_q
                &&& s.oi_eff_short_q == e.oi_eff_short_q
                &&& s.last_market_slot == e.last_market_slot
                &&& s.market_mode == e.market_mode
            }
        }),
{
    reveal(RiskEngine::book_residual_chunk_spec);
    let (t, c, r) = e.trigger_bankruptcy_hmax_lock_spec(ctx);
    if r is Ok && t.residual_chunk_spec(side, residual, budget) is Ok {
        crate::bankruptcy::lemma_residual_chunk(t, side, residual, budget);
    }
}

/// Finishing a touched account moves no index.
pub broadcast proof fn index_finalize_one(e: RiskEngine, i: int, is_whole: bool)
    ensures
        e.same_indices((#[trigger] e.finalize_one_spec(i, is_whole)).0),
{
    broadcast use index_set_capital;

    reveal(RiskEngine::finalize_one_spec);
    reveal(RiskEngine::consume_released_pnl_spec);
    reveal(RiskEngine::fee_debt_sweep_spec);
}

/// Finishing touched accounts moves no index.
pub broadcast proof fn index_finalize_all(e: RiskEngine, touched: Seq<u16>, is_whole: bool)
    ensures
        e.same_indices((#[trigger] e.finalize_all(touched, is_whole)).0),
    decreases touched.len(),
{
    broadcast use index_finalize_one;

    if touched.len() > 0 {
        index_finalize_all(e, touched.drop_last(), is_whole);
    }
}

/// Finishing the touched accounts of an instruction moves no index.
pub broadcast proof fn index_finalize_touched(e: RiskEngine, ctx: InstructionContext)
    ensures
        e.same_indices((#[trigger] e.finalize_touched_spec(ctx)).0),
{
    broadcast use index_finalize_all;

    reveal(RiskEngine::finalize_touched_spec);
}

impl RiskEngine {
    /// Whether `after` has the same indices `B`.
    pub open spec fn same_b(self, after: RiskEngine) -> bool {
        &&& after.b_long_num == self.b_long_num
        &&& after.b_short_num == self.b_short_num
        &&& after.b_epoch_start_long_num == self.b_epoch_start_long_num
        &&& after.b_epoch_start_short_num == self.b_epoch_start_short_num
    }
}

broadcast proof fn lemma_reset_keeps_b(e: RiskEngine, side: Side)
    ensures
        e.same_b((#[trigger] e.begin_reset_spec(side)).0),
{
    reveal(RiskEngine::begin_reset_spec);
}

/// Ending an instruction moves no index `B`.
proof fn lemma_close_keeps_b(e: RiskEngine, ctx: InstructionContext)
    ensures
        e.same_b(e.close_spec(ctx).0),
{
    broadcast use lemma_reset_keeps_b;

    reveal(RiskEngine::close_spec);
    reveal(RiskEngine::schedule_resets_spec);
    reveal(RiskEngine::finalize_resets_spec);
}

/// Settling a chunk moves the account towards its target, books the loss and moves no
/// index.
proof fn lemma_chunk_drained(e: RiskEngine, i: int, ctx: InstructionContext)
    requires
        0 <= i < MAX_ACCOUNTS,
        e.account_b_can_step(i) == Ok::<bool, RiskError>(true),
    ensures
        ({
            let (s, c, r) = e.b_chunk_drained(i, ctx);
            let a = e.accounts@[i];
            let b = s.accounts@[i];
            r is Ok ==> {
                &&& b.b_snap > a.b_snap
                &&& b.loss_weight == a.loss_weight
                &&& b.b_epoch_snap == a.b_epoch_snap
                &&& b.pnl <= a.pnl
                &&& a.loss_weight * (b.b_snap - a.b_snap) + a.b_rem == (a.pnl - b.pnl)
                    * SOCIAL_LOSS_DEN + b.b_rem
                &&& e.same_indices(s)
            }
        }),
{
    broadcast use {lemma_ledger_of_account, step_set_pnl, index_set_pnl};

    reveal(RiskEngine::b_chunk_drained);
    let a = e.accounts@[i];
    let target = e.b_target_spec(a, crate::sides::some_side(a.position_basis_q))->Ok_0;
    let limit = PUBLIC_ACCOUNT_B_SETTLEMENT_LOSS_ATOMS;
    crate::bankruptcy::law_account_b_settlement_is_exact(a, target, limit);
    let t = e.settle_account_b_chunk_spec(i, target, limit).0;
    assert forall|v: i128, c: Option<InstructionContext>|
        (#[trigger] t.set_pnl_with_reserve_spec(
            i,
            v,
            ReserveMode::NoPositiveIncreaseAllowed,
            c,
        )).2 is Ok && c is Some implies t.set_pnl_with_reserve_spec(
        i,
        v,
        ReserveMode::NoPositiveIncreaseAllowed,
        c,
    ).0.accounts@[i].pnl == v by {
        reveal(RiskEngine::set_pnl_with_reserve_spec);
        reveal(RiskEngine::apply_reserve_loss_newest_first_spec);
    }
}

/// A step of one account makes progress: the account settles a chunk that brings it
/// strictly closer to its target, and while it keeps its position and its epoch its own
/// rank shrinks.
pub proof fn law_account_step_makes_progress(
    e: RiskEngine,
    i: int,
    now_slot: u64,
    h_min: u64,
    h_max: u64,
    threshold_opt: Option<u128>,
)
    ensures
        ({
            let (s, r) = e.account_b_progress_spec(i, now_slot, h_min, h_max, threshold_opt);
            r == Ok::<bool, RiskError>(true) ==> {
                let side = crate::sides::some_side(e.accounts@[i].position_basis_q);
                let before = e.account_rank_spec(i);
                let after = s.account_rank_spec(i);
                &&& 0 <= i < MAX_ACCOUNTS
                &&& s.accounts@[i].b_snap > e.accounts@[i].b_snap
                &&& before is Ok
                &&& after is Ok && s.accounts@[i].position_basis_q
                    == e.accounts@[i].position_basis_q && s.get_epoch_side(side)
                    == e.get_epoch_side(side) ==> after->Ok_0.account_b_remaining_num
                    < before->Ok_0.account_b_remaining_num
            }
        }),
{
    broadcast use {
        step_drain_b,
        step_touch,
        step_finalize_touched,
        step_close_instruction,
        index_finalize_touched,
    };

    reveal(RiskEngine::account_b_progress_spec);
    crate::conservation::lemma_step_has_an_account(e, i);
    if e.account_b_can_step(i) == Ok::<bool, RiskError>(true) {
        let ctx = RiskEngine::admission(h_min, h_max, threshold_opt);
        lemma_chunk_drained(e, i, ctx);
        let (d, c, r) = e.b_chunk_drained(i, ctx);
        let (t, c2, r2) = d.touch_spec(i, c);
        crate::isolation::law_touch_moves_nothing_shared(d, i, c);
        let f = t.finalize_touched_spec(c2).0;
        lemma_close_keeps_b(f, c2);
        assert(d.accounts@[i].share() == t.accounts@[i].share());
        assert(t.accounts@[i].share() == f.accounts@[i].share());
        let s = f.close_spec(c2).0;
        assert(f.accounts@[i].share() == s.accounts@[i].share());
        let side = crate::sides::some_side(e.accounts@[i].position_basis_q);
        if e.account_b_progress_spec(i, now_slot, h_min, h_max, threshold_opt).1 is Ok
            && s.account_rank_spec(i) is Ok && s.accounts@[i].position_basis_q
            == e.accounts@[i].position_basis_q && s.get_epoch_side(side) == e.get_epoch_side(side) {
            assert(e.same_b(s));
            assert(s.market_mode == e.market_mode);
            assert(s.b_target_spec(s.accounts@[i], side) == e.b_target_spec(e.accounts@[i], side));
        }
    }
}

/// A keeper crank catches the market up: afterwards no slot is left to accrue, and a
/// market that was behind has made progress.
pub proof fn law_crank_catches_up(
    e: RiskEngine,
    now_slot: u64,
    price: u64,
    candidates: Seq<(u16, Option<LiquidationPolicy>)>,
    max_revalidations: u16,
    rate: i128,
    h_min: u64,
    h_max: u64,
    threshold_opt: Option<u128>,
    window: u64,
)
    requires
        e.active_close_present == 0,
        e.keeper_crank_spec(
            now_slot,
            price,
            candidates,
            max_revalidations,
            rate,
            h_min,
            h_max,
            threshold_opt,
            window,
        ).1 is Ok,
    ensures
        ({
            let s = e.keeper_crank_spec(
                now_slot,
                price,
                candidates,
                max_revalidations,
                rate,
                h_min,
                h_max,
                threshold_opt,
                window,
            ).0;
            let before = e.progress_rank_spec(now_slot);
            let after = s.progress_rank_spec(now_slot);
            &&& s.last_market_slot >= now_slot
            &&& before is Ok
            &&& after is Ok ==> after->Ok_0.live_catchup_slots == 0
            &&& after is Ok && e.exposed_market_has_oi() && e.last_market_slot < now_slot
                ==> after->Ok_0.reduces_from(before->Ok_0)
        }),
{
    broadcast use step_cranked;

    reveal(RiskEngine::keeper_crank_spec);
    assert(e.accrue_market_to_spec(now_slot, price, rate).1 is Ok
        ==> e.accrue_market_to_spec(now_slot, price, rate).0.last_market_slot == now_slot) by {
        reveal(RiskEngine::accrue_market_to_spec);
    }
}

impl RiskEngine {
    /// Whether `after` has the same slot, epochs and close in flight.
    pub open spec fn same_course(self, after: RiskEngine) -> bool {
        &&& after.current_slot == self.current_slot
        &&& after.adl_epoch_long == self.adl_epoch_long
        &&& after.adl_epoch_short == self.adl_epoch_short
        &&& after.active_close_present == self.active_close_present
        &&& after.active_close_residual_remaining == self.active_close_residual_remaining
    }

    /// Whether slot `j` is as it was.
    pub open spec fn same_slot(self, after: RiskEngine, j: int) -> bool {
        &&& after.slot_used(j) == self.slot_used(j)
        &&& after.accounts@[j] == self.accounts@[j]
    }
}

proof fn lemma_reconcile_keeps_course(e: RiskEngine, i: int)
    requires
        0 <= i < MAX_ACCOUNTS,
    ensures
        e.same_course(e.reconcile_spec(i).0),
{
    broadcast use {
        index_set_pnl,
        index_set_basis,
        index_settle_losses,
        index_flat_negative,
    };

    reveal(RiskEngine::reconcile_spec);
    reveal(RiskEngine::position_reconciled);
}

proof fn lemma_fees_keep_course(e: RiskEngine, i: int, anchor: u64, rate: u128)
    requires
        0 <= i < MAX_ACCOUNTS,
    ensures
        e.same_course(e.sync_fee_spec(i, anchor, rate).0),
        e.same_course(e.fee_debt_sweep_spec(i).0),
{
    broadcast use index_set_capital;

    reveal(RiskEngine::sync_fee_spec);
    reveal(RiskEngine::charge_fee_spec);
    reveal(RiskEngine::fee_debt_sweep_spec);
}

proof fn lemma_fees_keep_position(e: RiskEngine, i: int, anchor: u64, rate: u128)
    requires
        0 <= i < MAX_ACCOUNTS,
    ensures
        ({
            let a = e.sync_fee_spec(i, anchor, rate).0.accounts@[i];
            &&& a.position_basis_q == e.accounts@[i].position_basis_q
            &&& a.pnl == e.accounts@[i].pnl
        }),
{
    broadcast use lemma_ledger_of_account;

    reveal(RiskEngine::sync_fee_spec);
    reveal(RiskEngine::charge_fee_spec);
    reveal(RiskEngine::set_capital_spec);
}

proof fn lemma_profit_paid_keeps_course(e: RiskEngine, i: int)
    requires
        0 <= i < MAX_ACCOUNTS,
    ensures
        e.same_course(e.profit_paid(i).0),
{
    broadcast use {index_set_capital, index_set_pnl};

    reveal(RiskEngine::profit_paid);
}

/// Giving a slot back frees that slot and changes no other.
proof fn lemma_release_spares(e: RiskEngine, idx: u16, j: int)
    requires
        0 <= j < MAX_ACCOUNTS,
        e.release_slot(idx).1 is Ok,
    ensures
        ({
            let s = e.release_slot(idx).0;
            &&& idx < MAX_ACCOUNTS
            &&& e.slot_used(idx as int)
            &&& !s.slot_used(idx as int)
            &&& e.same_course(s)
            &&& j != idx ==> e.same_slot(s, j)
        }),
{
    broadcast use lemma_ledger_of_account;

    reveal(RiskEngine::release_slot);
    reveal(RiskEngine::free_slot_spec);
    reveal(RiskEngine::sweep_empty_market_surplus_spec);
    let i = idx as int;
    let freed = e.with_account(i, e.accounts@[i].cleared_spec(0));
    freed.lemma_with_unused(i);
    let s = e.release_slot(idx).0;
    assert(s.slot_used(i) == freed.with_unused(i).slot_used(i));
    assert(s.slot_used(j) == freed.with_unused(i).slot_used(j));
    assert(freed.slot_used(j) == e.slot_used(j));
}

proof fn lemma_terminal_close_spares(e: RiskEngine, idx: u16, j: int)
    requires
        0 <= j < MAX_ACCOUNTS,
        e.close_terminal_spec(idx).1 is Ok,
    ensures
        ({
            let s = e.close_terminal_spec(idx).0;
            &&& idx < MAX_ACCOUNTS
            &&& e.slot_used(idx as int)
            &&& !s.slot_used(idx as int)
            &&& e.same_course(s)
            &&& j != idx ==> e.same_slot(s, j)
        }),
{
    broadcast use {
        lemma_ledger_of_account,
        step_profit_paid,
        step_fee_debt_sweep,
        step_set_capital,
        index_set_capital,
    };

    reveal(RiskEngine::close_terminal_spec);
    reveal(RiskEngine::terminal_released);
    let i = idx as int;
    let s = e.with_reserve_released(i);
    lemma_profit_paid_keeps_course(s, i);
    let t = s.profit_paid(i).0;
    lemma_fees_keep_course(t, i, 0, 0);
    let u = t.fee_debt_sweep_spec(i).0.with_debt_forgiven(i);
    let v = RiskEngine {
        vault: crate::int128::U128((u.vault.get() - u.accounts@[i].capital.get()) as u128),
        ..u
    }.set_capital_spec(i, 0).0;
    lemma_release_spares(v, idx, j);
}

proof fn lemma_forced_close_spares(e: RiskEngine, idx: u16, rate: Option<u128>, j: int)
    requires
        0 <= j < MAX_ACCOUNTS,
        e.force_close_spec(idx, rate).1 is Ok,
        e.force_close_spec(idx, rate).1->Ok_0 is Closed,
    ensures
        ({
            let s = e.force_close_spec(idx, rate).0;
            &&& idx < MAX_ACCOUNTS
            &&& e.slot_used(idx as int)
            &&& !s.slot_used(idx as int)
            &&& e.same_course(s)
            &&& j != idx ==> e.same_slot(s, j)
        }),
{
    broadcast use {step_reconcile, step_sync_fee};

    reveal(RiskEngine::force_close_spec);
    let i = idx as int;
    assert(idx < MAX_ACCOUNTS) by {
        reveal(RiskEngine::reconcile_spec);
    }
    lemma_reconcile_keeps_course(e, i);
    let s = e.reconcile_spec(i).0.with_ready_sides();
    let t = match rate {
        None => s,
        Some(fee_rate) => s.sync_fee_spec(i, s.resolved_slot, fee_rate).0,
    };
    if rate is Some {
        lemma_fees_keep_course(s, i, s.resolved_slot, rate->0);
    }
    lemma_terminal_close_spares(t, idx, j);
}

proof fn lemma_counts_without(e: RiskEngine, s: RiskEngine, i: int, n: int)
    requires
        0 <= i < MAX_ACCOUNTS,
        0 <= n <= MAX_ACCOUNTS,
        e.same_course(s),
        e.slot_used(i),
        !s.slot_used(i),
        forall|j: int| 0 <= j < MAX_ACCOUNTS && j != i ==> #[trigger] e.same_slot(s, j),
    ensures
        ({
            let c = e.counts_below(n);
            let d = s.counts_below(n);
            &&& d.used + (if i < n {
                1int
            } else {
                0
            }) == c.used
            &&& d.used <= n
            &&& d.negative <= c.negative <= n
            &&& d.stored_long <= c.stored_long <= n
            &&& d.stored_short <= c.stored_short <= n
            &&& d.stale_long <= c.stale_long <= n
            &&& d.stale_short <= c.stale_short <= n
        }),
    decreases n,
{
    if n > 0 {
        lemma_counts_without(e, s, i, n - 1);
        if n - 1 != i {
            assert(e.same_slot(s, n - 1));
        }
    }
}

/// Closing an account of a resolved market makes progress: one account less is in
/// use, no other counter grows, and the rank of the market is reduced.
pub proof fn law_forced_close_makes_progress(e: RiskEngine, idx: u16, rate: Option<u128>)
    requires
        e.sound(),
        e.force_close_spec(idx, rate).1 is Ok,
        e.force_close_spec(idx, rate).1->Ok_0 is Closed,
    ensures
        ({
            let s = e.force_close_spec(idx, rate).0;
            &&& s.num_used_accounts == e.num_used_accounts - 1
            &&& s.resolved_blockers() < e.resolved_blockers()
            &&& !s.slot_used(idx as int)
            &&& e.same_course(s)
        }),
{
    let s = e.force_close_spec(idx, rate).0;
    lemma_forced_close_spares(e, idx, rate, 0);
    assert forall|j: int| 0 <= j < MAX_ACCOUNTS && j != idx implies #[trigger] e.same_slot(
        s,
        j,
    ) by {
        lemma_forced_close_spares(e, idx, rate, j);
    }
    crate::conservation::law_forced_close_conserves(e, idx, rate);
    lemma_counts_without(e, s, idx as int, MAX_ACCOUNTS as int);
    reveal(RiskEngine::public_post);
}

proof fn lemma_counts_settled(e: RiskEngine, s: RiskEngine, i: int, n: int)
    requires
        0 <= i < MAX_ACCOUNTS,
        0 <= n <= MAX_ACCOUNTS,
        e.same_course(s),
        e.slot_used(i),
        s.slot_used(i),
        s.accounts@[i].position_basis_q == 0,
        s.accounts@[i].pnl >= 0,
        forall|j: int| 0 <= j < MAX_ACCOUNTS && j != i ==> #[trigger] e.same_slot(s, j),
    ensures
        ({
            let c = e.counts_below(n);
            let d = s.counts_below(n);
            let held = i < n && e.accounts@[i].position_basis_q != 0;
            &&& d.used == c.used
            &&& d.negative + (if i < n && e.accounts@[i].pnl < 0 {
                1int
            } else {
                0
            }) == c.negative
            &&& d.stored_long + d.stored_short + (if held {
                1int
            } else {
                0
            }) == c.stored_long + c.stored_short
            &&& d.stale_long <= c.stale_long <= n
            &&& d.stale_short <= c.stale_short <= n
            &&& d.used <= n && c.negative <= n
            &&& c.stored_long <= n && c.stored_short <= n
            &&& d.stored_long <= n && d.stored_short <= n
        }),
    decreases n,
{
    if n > 0 {
        lemma_counts_settled(e, s, i, n - 1);
        if n - 1 != i {
            assert(e.same_slot(s, n - 1));
        }
    }
}

/// Reconciling an account of a resolved market that stays open makes progress: no
/// counter grows, and if the account held a position or a loss the rank of the market is
/// reduced.
pub proof fn law_reconciliation_makes_progress(e: RiskEngine, idx: u16, rate: Option<u128>)
    requires
        e.sound(),
        e.force_close_spec(idx, rate).1 is Ok,
        e.force_close_spec(idx, rate).1->Ok_0 is ProgressOnly,
    ensures
        ({
            let s = e.force_close_spec(idx, rate).0;
            let a = e.accounts@[idx as int];
            &&& s.num_used_accounts == e.num_used_accounts
            &&& s.resolved_blockers() <= e.resolved_blockers()
            &&& a.position_basis_q != 0 || a.pnl < 0 ==> s.resolved_blockers()
                < e.resolved_blockers()
            &&& e.same_course(s)
        }),
{
    broadcast use {step_reconcile, step_sync_fee};

    let s = e.force_close_spec(idx, rate).0;
    let i = idx as int;
    assert(e.same_course(s) && 0 <= i < MAX_ACCOUNTS && e.slot_used(i) && s.slot_used(i)
        && s.accounts@[i].position_basis_q == 0 && s.accounts@[i].pnl >= 0) by {
        reveal(RiskEngine::force_close_spec);
        assert(idx < MAX_ACCOUNTS && e.slot_used(i)) by {
            reveal(RiskEngine::reconcile_spec);
        }
        lemma_reconcile_keeps_course(e, i);
        crate::market_laws::law_reconciled_account_is_settled(e, i);
        let t = e.reconcile_spec(i).0.with_ready_sides();
        if rate is Some {
            lemma_fees_keep_course(t, i, t.resolved_slot, rate->0);
            lemma_fees_keep_position(t, i, t.resolved_slot, rate->0);
        }
    }
    assert forall|j: int| 0 <= j < MAX_ACCOUNTS && j != idx implies #[trigger] e.same_slot(
        s,
        j,
    ) by {
        reveal(RiskEngine::force_close_spec);
    }
    crate::conservation::law_forced_close_conserves(e, idx, rate);
    lemma_counts_settled(e, s, i, MAX_ACCOUNTS as int);
    reveal(RiskEngine::public_post);
}

} // verus!
