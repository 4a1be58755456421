//! How long profit waits, what a loss takes of it, how far a price may step, and when a
//! market is recovered.

use vstd::prelude::*;

use crate::books::{lemma_ledger_of_account, step_append_reserve};
use crate::constants::{MAX_ACCOUNTS, MAX_ORACLE_PRICE};
use crate::context::InstructionContext;
use crate::instruction_laws::law_resolution_by_instruction;
use crate::measures::{greater, lesser};
use crate::types::{
    Account, LiquidationPolicy, MarketMode, RecoveryReason, ReserveMode, ResolveMode, RiskEngine,
    RiskError,
};

verus! {

/// Which horizon fresh profit waits: the longest if the account has waited the longest once
/// in the instruction, if price movement has used up its allowance, or if what has left
/// warmup and the fresh profit together are more than the vault backs; else the shortest.
pub proof fn law_horizon_follows_the_backing(
    e: RiskEngine,
    i: int,
    fresh: u128,
    ctx: InstructionContext,
    h_min: u64,
    h_max: u64,
)
    requires
        e.admit_fresh_reserve_h_lock_spec(i, fresh, ctx, h_min, h_max).1 is Ok,
    ensures
        ({
            let h = e.admit_fresh_reserve_h_lock_spec(i, fresh, ctx, h_min, h_max).1->Ok_0;
            let used_up = match ctx.admit_h_max_consumption_threshold_bps_opt_shared {
                Some(t) => t <= e.price_move_consumed_bps_this_generation,
                None => false,
            };
            let backed = e.pnl_matured_pos_tot + fresh <= e.vault.0 - e.c_tot.0
                - e.insurance_fund.balance.0;
            h == if ctx.sticky(i) || used_up || !backed {
                h_max
            } else {
                h_min
            }
        }),
{
    reveal(RiskEngine::admit_fresh_reserve_h_lock_spec);
}

impl Account {
    /// What the scheduled bucket has released in all by a slot: its share of the horizon,
    /// rounded down, and all of it behind the horizon.
    pub open spec fn released_by(self, slot: int) -> int {
        if self.sched_start_slot + self.sched_horizon <= slot {
            self.sched_anchor_q as int
        } else {
            self.sched_anchor_q * (slot - self.sched_start_slot) / (self.sched_horizon as int)
        }
    }
}

/// Warmup releases what is due of the scheduled bucket and has not been released, and no
/// more than is left of it: the reserve falls by that and the ripe profit rises by it. A
/// bucket that only now gets its turn starts at the present slot and releases nothing.
pub proof fn law_warmup_releases_what_is_due(e: RiskEngine, i: int)
    requires
        0 <= i < MAX_ACCOUNTS,
        e.advance_profit_warmup_spec(i).1 is Ok,
    ensures
        ({
            let s = e.advance_profit_warmup_spec(i).0;
            let a = e.accounts@[i];
            let b = s.accounts@[i];
            let due = if a.reserved_pnl == 0 || a.sched_present == 0 {
                0
            } else {
                lesser(
                    a.sched_remaining_q as int,
                    a.released_by(e.current_slot as int) - a.sched_release_q,
                )
            };
            &&& b.reserved_pnl == a.reserved_pnl - due
            &&& s.pnl_matured_pos_tot == e.pnl_matured_pos_tot + due
            &&& b.pnl == a.pnl
            &&& b.capital == a.capital
            &&& s.pnl_pos_tot == e.pnl_pos_tot
            &&& 0 <= due
            &&& a.reserved_pnl > 0 && a.sched_present == 0 ==> b.sched_start_slot
                == e.current_slot && b.sched_remaining_q == a.pending_remaining_q
                && b.sched_horizon == a.pending_horizon
        }),
{
    broadcast use lemma_ledger_of_account;

    reveal(RiskEngine::advance_profit_warmup_spec);
    let a = e.accounts@[i];
    let p = a.pending_remaining_q as int;
    let h = a.pending_horizon as int;
    if h > 0 {
        assert(p * 0 / h == 0) by (nonlinear_arith)
            requires
                0 < h,
        ;
    }
}

/// Profit that joins the reserve is added to one bucket and shortens the wait of none: the
/// scheduled bucket keeps its start, its horizon and what it has released, and takes the
/// addition only if it started at this very slot with this very horizon; the pending bucket
/// waits at least as long as before and as asked.
pub proof fn law_reserve_shortens_no_wait(
    e: RiskEngine,
    i: int,
    add: u128,
    now_slot: u64,
    h_lock: u64,
)
    requires
        0 <= i < MAX_ACCOUNTS,
        e.accounts@[i].sched_present <= 1,
        e.accounts@[i].pending_present <= 1,
        e.append_or_route_new_reserve_spec(i, add, now_slot, h_lock).1 is Ok,
        0 < add,
    ensures
        ({
            let s = e.append_or_route_new_reserve_spec(i, add, now_slot, h_lock).0;
            let a = e.accounts@[i];
            let b = s.accounts@[i];
            &&& b.reserved_pnl == a.reserved_pnl + add
            &&& a.sched_present != 0 ==> {
                &&& b.sched_present != 0
                &&& b.sched_start_slot == a.sched_start_slot
                &&& b.sched_horizon == a.sched_horizon
                &&& b.sched_release_q == a.sched_release_q
                &&& {
                    ||| {
                        &&& b.sched_remaining_q == a.sched_remaining_q + add
                        &&& b.sched_anchor_q == a.sched_anchor_q + add
                        &&& a.sched_start_slot == now_slot
                        &&& a.sched_horizon == h_lock
                        &&& b.pending_present == a.pending_present
                    }
                    ||| {
                        &&& b.sched_remaining_q == a.sched_remaining_q
                        &&& b.sched_anchor_q == a.sched_anchor_q
                        &&& b.pending_present == 1
                        &&& b.pending_remaining_q == add + if a.pending_present != 0 {
                            a.pending_remaining_q as int
                        } else {
                            0
                        }
                        &&& h_lock <= b.pending_horizon
                        &&& a.pending_present != 0 ==> a.pending_horizon <= b.pending_horizon
                    }
                }
            }
            &&& a.sched_present == 0 && a.pending_present == 0 ==> {
                &&& b.sched_present == 1
                &&& b.sched_remaining_q == add
                &&& b.sched_anchor_q == add
                &&& b.sched_start_slot == now_slot
                &&& b.sched_horizon == h_lock
                &&& b.sched_release_q == 0
                &&& b.pending_present == 0
            }
        }),
{
    broadcast use {lemma_ledger_of_account, step_append_reserve};

    reveal(RiskEngine::append_or_route_new_reserve_spec);
}

/// A loss of profit comes out of what is still in warmup first, and out of ripe profit only
/// beyond that.
pub proof fn law_loss_takes_the_reserve_first(
    e: RiskEngine,
    i: int,
    new_pnl: i128,
    mode: ReserveMode,
    ctx: Option<InstructionContext>,
)
    requires
        0 <= i < MAX_ACCOUNTS,
        e.market_mode == MarketMode::Live,
        greater(new_pnl as int, 0) <= e.accounts@[i].profit(),
        e.set_pnl_with_reserve_spec(i, new_pnl, mode, ctx).2 is Ok,
    ensures
        ({
            let s = e.set_pnl_with_reserve_spec(i, new_pnl, mode, ctx).0;
            let a = e.accounts@[i];
            let b = s.accounts@[i];
            let lost = a.profit() - greater(new_pnl as int, 0);
            let taken = lesser(lost, a.reserved_pnl as int);
            &&& b.pnl == new_pnl
            &&& b.reserved_pnl == a.reserved_pnl - taken
            &&& s.pnl_matured_pos_tot == e.pnl_matured_pos_tot - (lost - taken)
            &&& s.pnl_pos_tot == e.pnl_pos_tot - lost
        }),
{
    broadcast use lemma_ledger_of_account;

    reveal(RiskEngine::set_pnl_with_reserve_spec);
    reveal(RiskEngine::apply_reserve_loss_newest_first_spec);
}

/// A step towards a target price goes as far as the cap for the time allows, in the direction
/// of the target, up or down, and never past it.
pub proof fn law_price_step_goes_towards_the_target(e: RiskEngine, now_slot: u64, target: u64)
    requires
        e.bounded_price_step_spec(now_slot, target) is Ok,
    ensures
        ({
            let p = e.bounded_price_step_spec(now_slot, target)->Ok_0;
            let last = e.last_oracle_price as int;
            let dt = lesser(
                now_slot - e.last_market_slot,
                e.params.max_accrual_dt_slots as int,
            );
            let cap = last * e.params.max_price_move_bps_per_slot * dt / 10_000;
            &&& e.last_market_slot <= now_slot
            &&& 0 < target <= MAX_ORACLE_PRICE
            &&& p == if last + cap < target {
                last + cap
            } else if target < last - cap {
                last - cap
            } else {
                target as int
            }
        }),
{
    let last = e.last_oracle_price as int;
    let dt = lesser(now_slot - e.last_market_slot, e.params.max_accrual_dt_slots as int);
    let m = e.params.max_price_move_bps_per_slot as int;
    assert(last * m * dt >= 0) by (nonlinear_arith)
        requires
            last >= 0,
            m >= 0,
            dt >= 0,
    ;
}

/// A market is recovered by anybody only for a reason that its state shows: a target that no
/// step can approach, a loss index that is full, a close that cannot go on, a counter or an
/// epoch that is used up, or a record of losses that is full. Reasons that need an authority
/// or an account are refused. A recovery settles the market at its last price.
pub proof fn law_recovery_needs_its_reason(
    e: RiskEngine,
    reason: RecoveryReason,
    now_slot: u64,
    target: u64,
)
    requires
        e.recover_spec(reason, now_slot, target).1 is Ok,
    ensures
        ({
            let s = e.recover_spec(reason, now_slot, target).0;
            let open = e.oi_eff_long_q != 0 || e.oi_eff_short_q != 0;
            let dt = lesser(
                now_slot - e.last_market_slot,
                e.params.max_accrual_dt_slots as int,
            );
            let cap = e.last_oracle_price * e.params.max_price_move_bps_per_slot * dt / 10_000;
            let away = target != 0 && target != e.last_oracle_price && open;
            &&& e.market_mode == MarketMode::Live
            &&& e.current_slot <= now_slot && e.last_market_slot <= now_slot
            &&& match reason {
                RecoveryReason::BelowProgressFloor => away && cap == 0,
                RecoveryReason::BIndexHeadroomExhausted => e.b_long_num == u128::MAX
                    || e.b_short_num == u128::MAX,
                RecoveryReason::BlockedSegmentHeadroomOrRepresentability => away && cap != 0,
                RecoveryReason::AccountBSettlementCannotProgress => false,
                RecoveryReason::ActiveBankruptCloseCannotProgress => e.active_close_present != 0,
                RecoveryReason::OracleOrTargetUnavailableByAuthenticatedPolicy => false,
                RecoveryReason::CounterOrEpochOverflowDeclaredRecovery => e.sweep_generation
                    == u64::MAX || e.adl_epoch_long == u64::MAX || e.adl_epoch_short == u64::MAX,
                RecoveryReason::ExplicitLossOrDustAuditOverflow =>
                e.explicit_unallocated_loss_saturated != 0,
            }
            &&& reason != RecoveryReason::CounterOrEpochOverflowDeclaredRecovery ==> {
                &&& s.market_mode == MarketMode::Resolved
                &&& s.resolved_price == e.last_oracle_price
                &&& s.resolved_live_price == e.last_oracle_price
                &&& s.resolved_slot == now_slot
                &&& s.accounts == e.accounts
                &&& s.vault == e.vault
            }
        }),
{
    reveal(RiskEngine::recover_spec);
    reveal(RiskEngine::recovery_reason_spec);
    reveal(RiskEngine::close_is_stuck);
    let t = if reason == RecoveryReason::ActiveBankruptCloseCannotProgress {
        e.complete_close_spec().0
    } else {
        e
    };
    assert(t.last_oracle_price == e.last_oracle_price && t.accounts == e.accounts && t.vault
        == e.vault) by {
        reveal(RiskEngine::complete_close_spec);
    }
    if t.resolve_at_last(now_slot).1 is Ok {
        let p = t.last_oracle_price;
        law_resolution_by_instruction(t, ResolveMode::Degenerate, p, p, now_slot, 0);
    }
}

impl RiskEngine {
    /// Whether account `i` has lost more than its capital.
    pub open spec fn is_bankrupt_at(self, i: int) -> bool {
        &&& self.slot_used(i)
        &&& self.accounts@[i].capital.0 + self.accounts@[i].pnl < 0
    }
}

/// A search of slots finds a bankrupt account exactly if there is one among them.
pub proof fn law_sweep_finds_every_bankrupt(e: RiskEngine, i: int, left: int)
    requires
        0 <= i,
        e.params.max_accounts <= MAX_ACCOUNTS,
        e.sweep_tail(i, left) is Ok,
    ensures
        e.sweep_tail(i, left)->Ok_0 <==> exists|j: int|
            i <= j < i + left && j < e.params.max_accounts && #[trigger] e.is_bankrupt_at(j),
    decreases left,
{
    if left > 0 && i < e.params.max_accounts {
        if !e.slot_used(i) {
            assert(!e.is_bankrupt_at(i));
            law_sweep_finds_every_bankrupt(e, i + 1, left - 1);
        } else if e.bankruptcy_tail_spec(i) == Ok::<bool, RiskError>(false) {
            assert(!e.is_bankrupt_at(i));
            law_sweep_finds_every_bankrupt(e, i + 1, left - 1);
        } else {
            assert(e.is_bankrupt_at(i));
        }
    }
}

/// A search of candidates finds a bankrupt account only if one of them is, and overlooks
/// none of the first ones that it may try.
pub proof fn law_candidate_search_finds_a_bankrupt(
    e: RiskEngine,
    candidates: Seq<(u16, Option<LiquidationPolicy>)>,
    k: int,
    limit: int,
    attempts: int,
)
    requires
        0 <= k,
        e.candidate_tail(candidates, k, limit, attempts) is Ok,
    ensures
        ({
            let found = e.candidate_tail(candidates, k, limit, attempts)->Ok_0;
            &&& found ==> exists|j: int|
                k <= j < limit && j < candidates.len() && #[trigger] e.is_bankrupt_at(
                    candidates[j].0 as int,
                )
            &&& !found ==> forall|j: int|
                k <= j < limit && j < candidates.len() && j < k + attempts && candidates[j].0
                    < e.params.max_accounts ==> !#[trigger] e.is_bankrupt_at(
                    candidates[j].0 as int,
                )
        }),
    decreases candidates.len() - k,
{
    if k < candidates.len() && k < limit && attempts > 0 {
        let i = candidates[k].0 as int;
        if !e.account_exists(i) {
            assert(i < e.params.max_accounts ==> !e.is_bankrupt_at(i));
            law_candidate_search_finds_a_bankrupt(e, candidates, k + 1, limit, attempts);
        } else if e.bankruptcy_tail_spec(i) == Ok::<bool, RiskError>(false) {
            assert(!e.is_bankrupt_at(i));
            law_candidate_search_finds_a_bankrupt(e, candidates, k + 1, limit, attempts - 1);
        } else {
            assert(e.is_bankrupt_at(i));
        }
    }
}

} // verus!
