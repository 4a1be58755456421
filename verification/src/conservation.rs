//! What every instruction conserves: value enters and leaves the vault only by the
//! amounts that the caller moves, and the books balance after every instruction.

use vstd::prelude::*;

use crate::books::{
    lemma_ledger_of_account, step_accrue, step_accrue_and_touch, step_begin_reset,
    step_begin_terminal_reset, step_charge_fee, step_close_instruction, step_complete_close,
    step_continue_close, step_convert, step_cranked, step_drain_b, step_fee_debt_sweep,
    step_finalize_resets, step_finalize_touched, step_flat_negative, step_liquidate,
    step_profit_paid, step_reconcile, step_schedule_resets, step_set_capital, step_settle_losses,
    step_sync_fee, step_touch, step_trade_prepared, step_trade_rest,
};
use crate::constants::MAX_ACCOUNTS;
use crate::slab::{lemma_free_slot_keeps_free_list, lemma_materialize_keeps_free_list};
use crate::types::{
    LiquidationPolicy, MarketMode, PermissionlessProgressOutcome, PermissionlessProgressRequest,
    RecoveryReason, ResolveMode, ResolvedCloseResult, RiskEngine, RiskError, Side,
};

verus! {

impl RiskEngine {
    /// Whether the market is in a state that an instruction may leave behind: all
    /// that is checked after an instruction holds, the totals are the sums over the
    /// accounts, funding is sampled at the price that positions are marked at, the free
    /// list holds every free slot, a side with a thin multiplier drains, and no position
    /// is larger than its basis.
    pub open spec fn sound(self) -> bool {
        &&& self.public_post() is Ok
        &&& self.books_balance()
        &&& self.prices_agree()
        &&& self.free_list_ok()
        &&& self.sides_in_range()
        &&& self.positions_fit()
    }

    /// What a step carries over to the market after it, apart from the vault: the
    /// parameters and the mode, and each part of being sound but the public check; the
    /// clock and the sides move on, and a settlement stands.
    pub open spec fn carries_over(self, after: RiskEngine) -> bool {
        &&& after.params == self.params
        &&& after.market_mode == self.market_mode
        &&& self.books_balance() ==> after.books_balance()
        &&& self.prices_agree() ==> after.prices_agree()
        &&& self.free_list_ok() ==> after.free_list_ok()
        &&& self.sides_in_range() ==> after.sides_in_range()
        &&& self.positions_fit() ==> after.positions_fit()
        &&& self.clock_moves_on(after)
        &&& self.sides_move_on(after)
        &&& self.settlement_stands(after)
    }

    /// What a successful step with `inflow` moved into the vault keeps: a sound
    /// market stays sound, the vault changes by the inflow, the parameters stay, the
    /// clock and the sides move on, and a settlement stands.
    pub open spec fn conserved(self, after: RiskEngine, inflow: int, ok: bool) -> bool {
        ok && self.sound() ==> {
            &&& after.sound()
            &&& after.vault.get() == self.vault.get() + inflow
            &&& after.params == self.params
            &&& self.clock_moves_on(after)
            &&& self.sides_move_on(after)
            &&& self.market_mode == MarketMode::Resolved ==> {
                &&& after.market_mode == MarketMode::Resolved
                &&& self.settlement_stands(after)
            }
        }
    }
}

/// What a call has paid out.
pub open spec fn paid(r: Result<u128, RiskError>) -> int {
    match r {
        Ok(v) => v as int,
        Err(_) => 0,
    }
}

/// What progress has paid out.
pub open spec fn paid_by_progress(r: Result<PermissionlessProgressOutcome, RiskError>) -> int {
    match r {
        Ok(PermissionlessProgressOutcome::ResolvedClose(ResolvedCloseResult::Closed(v))) => {
            v as int
        },
        _ => 0,
    }
}

/// What closing an account of a resolved market has paid out.
pub open spec fn paid_by_close(r: Result<ResolvedCloseResult, RiskError>) -> int {
    match r {
        Ok(ResolvedCloseResult::Closed(v)) => v as int,
        _ => 0,
    }
}

/// An unused slot of a sound market holds nothing.
pub proof fn lemma_unused_is_blank(e: RiskEngine, i: int)
    requires
        e.public_post() is Ok,
        0 <= i < MAX_ACCOUNTS,
        !e.slot_used(i),
    ensures
        e.accounts@[i].is_blank(),
{
    reveal(RiskEngine::public_post);
    lemma_slots_ok(e, MAX_ACCOUNTS as int, i);
}

/// Where all slots pass their check, each of them does.
pub proof fn lemma_slots_ok(e: RiskEngine, n: int, i: int)
    requires
        0 <= i < n,
        e.slots_check(n) is Ok,
    ensures
        e.slot_check(i) is Ok,
    decreases n,
{
    if i < n - 1 {
        lemma_slots_ok(e, n - 1, i);
    }
}

/// A deposit adds its amount to the vault and keeps the books.
pub proof fn law_deposit_conserves(e: RiskEngine, idx: u16, amount: u128, now_slot: u64)
    ensures
        ({
            let (after, r) = e.deposit_spec(idx, amount, now_slot);
            e.conserved(after, amount as int, r is Ok)
        }),
{
    broadcast use {
        lemma_ledger_of_account,
        step_set_capital,
        step_settle_losses,
        step_fee_debt_sweep,
    };

    reveal(RiskEngine::deposit_spec);
    reveal(RiskEngine::materialize_at_spec);
    if !e.slot_used(idx as int) && idx < MAX_ACCOUNTS && e.sound() {
        lemma_unused_is_blank(e, idx as int);
        if e.materialize_at_spec(idx, now_slot).1 is Ok {
            lemma_materialize_keeps_free_list(e, idx, now_slot);
        }
    }
}

/// A withdrawal takes its amount from the vault and keeps the books.
pub proof fn law_withdrawal_conserves(
    e: RiskEngine,
    idx: u16,
    amount: u128,
    price: u64,
    now_slot: u64,
    rate: i128,
    h_min: u64,
    h_max: u64,
    threshold_opt: Option<u128>,
)
    ensures
        ({
            let (after, r) = e.withdraw_spec(
                idx,
                amount,
                price,
                now_slot,
                rate,
                h_min,
                h_max,
                threshold_opt,
            );
            e.conserved(after, -(amount as int), r is Ok)
        }),
{
    broadcast use {
        step_accrue_and_touch,
        step_finalize_touched,
        step_set_capital,
        step_close_instruction,
    };

    reveal(RiskEngine::withdraw_spec);
    reveal(RiskEngine::close_spec);
}

/// Settling an account moves no value and keeps the books.
pub proof fn law_settlement_conserves(
    e: RiskEngine,
    idx: u16,
    price: u64,
    now_slot: u64,
    rate: i128,
    h_min: u64,
    h_max: u64,
    threshold_opt: Option<u128>,
)
    ensures
        ({
            let (after, r) = e.settle_account_spec(
                idx,
                price,
                now_slot,
                rate,
                h_min,
                h_max,
                threshold_opt,
            );
            e.conserved(after, 0, r is Ok)
        }),
{
    broadcast use {step_accrue_and_touch, step_finalize_touched, step_close_instruction};

    reveal(RiskEngine::settle_account_spec);
    reveal(RiskEngine::close_spec);
}

/// A trade moves no value in or out and keeps the books.
pub proof fn law_trade_conserves(
    e: RiskEngine,
    a: u16,
    b: u16,
    price: u64,
    now_slot: u64,
    size_q: i128,
    exec_price: u64,
    rate: i128,
    fee_bps: u64,
    h_min: u64,
    h_max: u64,
    threshold_opt: Option<u128>,
)
    ensures
        ({
            let (after, r) = e.execute_trade_spec(
                a,
                b,
                price,
                now_slot,
                size_q,
                exec_price,
                rate,
                fee_bps,
                h_min,
                h_max,
                threshold_opt,
            );
            e.conserved(after, 0, r is Ok)
        }),
{
    broadcast use {step_trade_prepared, step_trade_rest};

    reveal(RiskEngine::execute_trade_spec);
    reveal(RiskEngine::trade_entry_spec);
    assert(forall|s: RiskEngine, c: crate::context::InstructionContext|
        (#[trigger] s.trade_prepared_rest(a as int, b as int, price, size_q, exec_price, fee_bps, c)).1
            is Ok ==> s.trade_prepared_rest(
            a as int,
            b as int,
            price,
            size_q,
            exec_price,
            fee_bps,
            c,
        ).0.public_post() is Ok) by {
        reveal(RiskEngine::trade_prepared_rest);
        reveal(RiskEngine::close_spec);
    }
}

/// A liquidation moves no value in or out and keeps the books.
pub proof fn law_liquidation_conserves(
    e: RiskEngine,
    idx: u16,
    now_slot: u64,
    price: u64,
    policy: LiquidationPolicy,
    rate: i128,
    h_min: u64,
    h_max: u64,
    threshold_opt: Option<u128>,
)
    ensures
        ({
            let (after, r) = e.liquidate_spec(
                idx,
                now_slot,
                price,
                policy,
                rate,
                h_min,
                h_max,
                threshold_opt,
            );
            e.conserved(after, 0, r is Ok)
        }),
{
    broadcast use {
        step_accrue_and_touch,
        step_liquidate,
        step_finalize_touched,
        step_close_instruction,
    };

    reveal(RiskEngine::liquidate_spec);
    reveal(RiskEngine::close_spec);
}

/// Converting profit to capital moves no value in or out and keeps the books.
pub proof fn law_conversion_conserves(
    e: RiskEngine,
    idx: u16,
    x: u128,
    price: u64,
    now_slot: u64,
    rate: i128,
    h_min: u64,
    h_max: u64,
    threshold_opt: Option<u128>,
)
    ensures
        ({
            let (after, r) = e.convert_released_spec(
                idx,
                x,
                price,
                now_slot,
                rate,
                h_min,
                h_max,
                threshold_opt,
            );
            e.conserved(after, 0, r is Ok)
        }),
{
    broadcast use {
        step_accrue_and_touch,
        step_convert,
        step_finalize_touched,
        step_close_instruction,
    };

    reveal(RiskEngine::convert_released_spec);
    reveal(RiskEngine::close_spec);
}

/// Accruing the market moves no value and keeps the books.
pub proof fn law_accrual_conserves(e: RiskEngine, now_slot: u64, price: u64, rate: i128)
    ensures
        ({
            let (after, r) = e.accrue_market_to_spec(now_slot, price, rate);
            e.conserved(after, 0, r is Ok)
        }),
{
    reveal(RiskEngine::accrue_market_to_spec);
    if e.sound() && now_slot == e.last_market_slot {
        assert(e.last_market_slot <= e.current_slot) by {
            reveal(RiskEngine::public_post);
        }
    }
}

/// A keeper crank moves no value in or out and keeps the books.
pub proof fn law_crank_conserves(
    e: RiskEngine,
    now_slot: u64,
    price: u64,
    candidates: Seq<(u16, Option<LiquidationPolicy>)>,
    max_revalidations: u16,
    rate: i128,
    h_min: u64,
    h_max: u64,
    threshold_opt: Option<u128>,
    window: u64,
)
    ensures
        ({
            let (after, r) = e.keeper_crank_spec(
                now_slot,
                price,
                candidates,
                max_revalidations,
                rate,
                h_min,
                h_max,
                threshold_opt,
                window,
            );
            e.conserved(after, 0, r is Ok)
        }),
{
    broadcast use {step_accrue, step_continue_close, step_cranked};

    reveal(RiskEngine::keeper_crank_spec);
    reveal(RiskEngine::cranked);
    reveal(RiskEngine::close_spec);
}

/// Giving a slot back moves no value and keeps the books.
broadcast proof fn lemma_release_slot(e: RiskEngine, idx: u16)
    ensures
        ({
            let (after, r) = #[trigger] e.release_slot(idx);
            r is Ok ==> {
                &&& after.public_post() is Ok
                &&& after.vault == e.vault
                &&& e.carries_over(after)
            }
        }),
{
    broadcast use lemma_ledger_of_account;

    reveal(RiskEngine::release_slot);
    if e.release_slot(idx).1 is Ok && e.free_list_ok() {
        lemma_free_slot_keeps_free_list(e, idx);
    }
    reveal(RiskEngine::free_slot_spec);
    reveal(RiskEngine::sweep_empty_market_surplus_spec);
}

/// Closing an account takes what it pays out from the vault and keeps the books.
pub proof fn law_account_close_conserves(
    e: RiskEngine,
    idx: u16,
    now_slot: u64,
    price: u64,
    rate: i128,
    h_min: u64,
    h_max: u64,
    threshold_opt: Option<u128>,
)
    ensures
        ({
            let (after, r) = e.close_account_spec(
                idx,
                now_slot,
                price,
                rate,
                h_min,
                h_max,
                threshold_opt,
            );
            e.conserved(after, -paid(r), r is Ok)
        }),
{
    broadcast use {
        step_accrue_and_touch,
        step_finalize_touched,
        step_set_capital,
        step_schedule_resets,
        step_finalize_resets,
        lemma_release_slot,
    };

    reveal(RiskEngine::close_account_spec);
    reveal(RiskEngine::account_paid_out);
}

proof fn lemma_resolution_drained(e: RiskEngine, terminal: bool)
    requires
        e.market_mode == MarketMode::Resolved,
    ensures
        ({
            let (after, r) = e.resolution_drained(terminal);
            &&& r is Ok ==> after.public_post() is Ok
            &&& e.quiet_step(after)
        }),
{
    broadcast use {step_begin_reset, step_begin_terminal_reset};

    reveal(RiskEngine::resolution_drained);
}

proof fn lemma_settled_at(e: RiskEngine, price: u64, live: u64, now_slot: u64)
    ensures
        ({
            let (after, r) = e.settled_at(price, live, now_slot);
            r is Ok ==> {
                &&& after.public_post() is Ok
                &&& after.vault == e.vault
                &&& after.params == e.params
                &&& after.market_mode == MarketMode::Resolved
                &&& e.books_balance() ==> after.books_balance()
                &&& e.prices_agree() ==> after.prices_agree()
                &&& e.free_list_ok() ==> after.free_list_ok()
                &&& e.sides_in_range() ==> after.sides_in_range()
                &&& e.positions_fit() ==> after.positions_fit()
                &&& now_slot <= after.current_slot
                &&& e.last_market_slot <= after.last_market_slot
                &&& e.sweep_generation <= after.sweep_generation
                &&& e.sides_move_on(after)
            }
        }),
{
    reveal(RiskEngine::settled_at);
    let diff = price - live;
    if e.terminal_shift(Side::Long, diff) is Ok && e.terminal_shift(
        Side::Short,
        -diff,
    ) is Ok {
        lemma_resolution_drained(
            e.with_resolution(
                price,
                live,
                now_slot,
                e.terminal_shift(Side::Long, diff)->Ok_0,
                e.terminal_shift(Side::Short, -diff)->Ok_0,
            ),
            false,
        );
    }
}

/// Resolving the market moves no value and keeps the books.
pub proof fn law_resolution_conserves(
    e: RiskEngine,
    mode: ResolveMode,
    price: u64,
    live: u64,
    now_slot: u64,
    rate: i128,
)
    ensures
        ({
            let (after, r) = e.resolve_market_spec(mode, price, live, now_slot, rate);
            e.conserved(after, 0, r is Ok)
        }),
{
    broadcast use step_accrue;

    reveal(RiskEngine::resolve_market_spec);
    lemma_settled_at(
        RiskEngine { current_slot: now_slot, last_market_slot: now_slot, ..e },
        price,
        live,
        now_slot,
    );
    lemma_settled_at(e.accrue_market_to_spec(now_slot, live, rate).0, price, live, now_slot);
}

/// Resolving a market with an exhausted counter moves no value and keeps the
/// books.
pub proof fn law_exhausted_resolution_conserves(e: RiskEngine, now_slot: u64)
    ensures
        ({
            let (after, r) = e.resolve_exhausted_spec(now_slot);
            e.conserved(after, 0, r is Ok)
        }),
{
    reveal(RiskEngine::resolve_exhausted_spec);
    lemma_resolution_drained(
        RiskEngine { last_market_slot: now_slot, ..e }.with_resolution(
            e.last_oracle_price,
            e.last_oracle_price,
            now_slot,
            0,
            0,
        ),
        true,
    );
}

/// A recovery moves no value and keeps the books.
pub proof fn law_recovery_conserves(
    e: RiskEngine,
    reason: RecoveryReason,
    now_slot: u64,
    target: u64,
)
    ensures
        ({
            let (after, r) = e.recover_spec(reason, now_slot, target);
            e.conserved(after, 0, r is Ok)
        }),
{
    broadcast use step_complete_close;

    reveal(RiskEngine::recover_spec);
    reveal(RiskEngine::resolve_market_spec);
    law_exhausted_resolution_conserves(e, now_slot);
    let closed = if reason == RecoveryReason::ActiveBankruptCloseCannotProgress {
        e.complete_close_spec().0
    } else {
        e
    };
    lemma_settled_at(
        RiskEngine { current_slot: now_slot, last_market_slot: now_slot, ..closed },
        closed.last_oracle_price,
        closed.last_oracle_price,
        now_slot,
    );
}

/// A recovery on behalf of one account moves no value and keeps the books.
pub proof fn law_account_b_recovery_conserves(e: RiskEngine, i: int, now_slot: u64)
    ensures
        ({
            let (after, r) = e.recover_account_b_spec(i, now_slot);
            e.conserved(after, 0, r is Ok)
        }),
{
    reveal(RiskEngine::recover_account_b_spec);
    law_resolution_conserves(
        e,
        ResolveMode::Degenerate,
        e.last_oracle_price,
        e.last_oracle_price,
        now_slot,
        0,
    );
}

/// Continuing a bankrupt close moves no value and keeps the books.
pub proof fn law_close_continuation_conserves(e: RiskEngine, now_slot: u64)
    ensures
        ({
            let (after, r) = e.continue_close_spec(now_slot);
            e.conserved(after, 0, r is Ok)
        }),
{
    broadcast use step_continue_close;

    reveal(RiskEngine::continue_close_spec);
}

/// An account that can settle a step is one of the market, with a position.
pub proof fn lemma_step_has_an_account(e: RiskEngine, i: int)
    ensures
        e.account_b_can_step(i) == Ok::<bool, RiskError>(true) ==> {
            &&& 0 <= i < MAX_ACCOUNTS
            &&& e.accounts@[i].position_basis_q != 0
        },
{
}

/// A step of one account towards its target moves no value and keeps the books.
pub proof fn law_account_progress_conserves(
    e: RiskEngine,
    i: int,
    now_slot: u64,
    h_min: u64,
    h_max: u64,
    threshold_opt: Option<u128>,
)
    ensures
        ({
            let (after, r) = e.account_b_progress_spec(i, now_slot, h_min, h_max, threshold_opt);
            e.conserved(after, 0, r is Ok)
        }),
{
    broadcast use {step_drain_b, step_touch, step_finalize_touched, step_close_instruction};

    reveal(RiskEngine::account_b_progress_spec);
    reveal(RiskEngine::close_spec);
    lemma_step_has_an_account(e, i);
}

/// Reconciling an account moves no value and keeps the books.
pub proof fn law_reconciliation_conserves(e: RiskEngine, i: int)
    ensures
        ({
            let (after, r) = e.reconcile_spec(i);
            e.conserved(after, 0, r is Ok)
        }),
{
    broadcast use step_reconcile;

    assert(e.reconcile_spec(i).1 is Ok ==> e.reconcile_spec(i).0.public_post() is Ok) by {
        reveal(RiskEngine::reconcile_spec);
    }
}

proof fn lemma_terminal_released(e: RiskEngine, idx: u16)
    requires
        idx < MAX_ACCOUNTS,
    ensures
        ({
            let (after, r) = e.terminal_released(idx);
            r is Ok ==> {
                &&& after.public_post() is Ok
                &&& after.vault.get() == e.vault.get() - paid(r)
                &&& e.carries_over(after)
            }
        }),
{
    broadcast use {
        lemma_ledger_of_account,
        lemma_release_slot,
        step_fee_debt_sweep,
        step_set_capital,
    };

    reveal(RiskEngine::terminal_released);
}

proof fn lemma_terminal_closed(e: RiskEngine, idx: u16)
    requires
        idx < MAX_ACCOUNTS,
        e.market_mode == MarketMode::Resolved,
    ensures
        ({
            let (after, r) = e.terminal_closed(idx);
            r is Ok ==> {
                &&& after.public_post() is Ok
                &&& after.vault.get() == e.vault.get() - paid(r)
                &&& e.carries_over(after)
            }
        }),
{
    broadcast use {lemma_ledger_of_account, step_profit_paid};

    lemma_terminal_released(e.with_reserve_released(idx as int).profit_paid(idx as int).0, idx);
}

/// Closing an account of a resolved market takes what it pays out from the vault
/// and keeps the books.
pub proof fn law_terminal_close_conserves(e: RiskEngine, idx: u16)
    ensures
        ({
            let (after, r) = e.close_terminal_spec(idx);
            e.conserved(after, -paid(r), r is Ok)
        }),
{
    reveal(RiskEngine::close_terminal_spec);
    if e.terminal_gate(idx as int) is Ok {
        lemma_terminal_closed(e, idx);
    }
}

/// Closing an account of a resolved market after its recurring fees takes what it
/// pays out from the vault and keeps the books.
pub proof fn law_terminal_close_with_fee_conserves(e: RiskEngine, idx: u16, rate: u128)
    ensures
        ({
            let (after, r) = e.close_terminal_with_fee_spec(idx, rate);
            e.conserved(after, -paid(r), r is Ok)
        }),
{
    broadcast use step_sync_fee;

    reveal(RiskEngine::close_terminal_with_fee_spec);
    if e.terminal_gate(idx as int) is Ok {
        lemma_terminal_closed(e.sync_fee_spec(idx as int, e.resolved_slot, rate).0, idx);
    }
}

/// A forced close takes what it pays out from the vault and keeps the books.
pub proof fn law_forced_close_conserves(e: RiskEngine, idx: u16, rate: Option<u128>)
    ensures
        ({
            let (after, r) = e.force_close_spec(idx, rate);
            e.conserved(after, -paid_by_close(r), r is Ok)
        }),
{
    broadcast use {step_reconcile, step_sync_fee};

    reveal(RiskEngine::force_close_spec);
    law_reconciliation_conserves(e, idx as int);
    let s = e.reconcile_spec(idx as int).0.with_ready_sides();
    if e.reconcile_spec(idx as int).1 is Ok {
        assert(idx < MAX_ACCOUNTS) by {
            reveal(RiskEngine::reconcile_spec);
        }
        assert(s == e.reconcile_spec(idx as int).0) by {
            reveal(RiskEngine::reconcile_spec);
        }
        law_terminal_close_conserves(s, idx);
        if rate is Some {
            law_terminal_close_conserves(
                s.sync_fee_spec(idx as int, s.resolved_slot, rate->0).0,
                idx,
            );
        }
    }
}

proof fn lemma_cursor_close(
    e: RiskEngine,
    cursor: int,
    left: int,
    wrap_bound: u64,
    rate: u128,
)
    ensures
        ({
            let (after, r) = e.cursor_close(cursor, left, wrap_bound, rate);
            e.conserved(after, -paid_by_close(r), r is Ok)
        }),
    decreases left,
{
    if left <= 0 {
    } else if e.slot_used(cursor) {
        law_forced_close_conserves(e, cursor as u16, Some(rate));
    } else {
        lemma_cursor_close(
            e,
            RiskEngine::next_cursor(cursor, wrap_bound),
            left - 1,
            wrap_bound,
            rate,
        );
    }
}

/// Closing the next account of a resolved market takes what it pays out from the
/// vault and keeps the books.
pub proof fn law_cursor_close_conserves(e: RiskEngine, scan_limit: u64, rate: u128)
    ensures
        ({
            let (after, r) = e.force_close_cursor_spec(scan_limit, rate);
            e.conserved(after, -paid_by_close(r), r is Ok)
        }),
{
    reveal(RiskEngine::force_close_cursor_spec);
    lemma_cursor_close(
        e,
        e.rr_cursor_position as int,
        crate::wide_math::min_int(scan_limit as int, e.params.max_accounts as int),
        e.params.max_accounts,
        rate,
    );
}

/// A top-up adds its amount to the vault and keeps the books.
pub proof fn law_top_up_conserves(e: RiskEngine, amount: u128, now_slot: u64)
    ensures
        ({
            let (after, r) = e.top_up_spec(amount, now_slot);
            e.conserved(after, amount as int, r is Ok)
        }),
{
    reveal(RiskEngine::top_up_spec);
}

/// A credit from the insurance fund moves no value in or out and keeps the books.
pub proof fn law_insurance_credit_conserves(e: RiskEngine, idx: u16, amount: u128, now_slot: u64)
    ensures
        ({
            let (after, r) = e.credit_from_insurance_spec(idx, amount, now_slot);
            e.conserved(after, 0, r is Ok)
        }),
{
    broadcast use {step_set_capital, step_fee_debt_sweep};

    reveal(RiskEngine::credit_from_insurance_spec);
}

/// A withdrawal from the insurance fund takes its amount from the vault and keeps
/// the books.
pub proof fn law_live_insurance_withdrawal_conserves(e: RiskEngine, amount: u128, now_slot: u64)
    ensures
        ({
            let (after, r) = e.withdraw_live_insurance_spec(amount, now_slot);
            e.conserved(after, -(amount as int), r is Ok)
        }),
{
    reveal(RiskEngine::withdraw_live_insurance_spec);
    if e.sound() {
        assert(e.insurance_fund.balance.get() <= e.vault.get()) by {
            reveal(RiskEngine::public_post);
        }
    }
}

/// Paying out the insurance fund of a resolved market takes the payout from the
/// vault and keeps the books.
pub proof fn law_resolved_insurance_withdrawal_conserves(e: RiskEngine)
    ensures
        ({
            let (after, r) = e.withdraw_resolved_insurance_spec();
            e.conserved(after, -paid(r), r is Ok)
        }),
{
    reveal(RiskEngine::withdraw_resolved_insurance_spec);
    reveal(RiskEngine::sweep_empty_market_surplus_spec);
    if e.sound() {
        assert(e.insurance_fund.balance.get() <= e.vault.get()) by {
            reveal(RiskEngine::public_post);
        }
    }
}

/// Charging a fee moves no value in or out and keeps the books.
pub proof fn law_fee_charge_conserves(e: RiskEngine, idx: u16, fee: u128, now_slot: u64)
    ensures
        ({
            let (after, r) = e.charge_account_fee_spec(idx, fee, now_slot);
            e.conserved(after, 0, r is Ok)
        }),
{
    broadcast use step_charge_fee;

    reveal(RiskEngine::charge_account_fee_spec);
}

/// Settling the loss of a flat account moves no value in or out and keeps the books.
pub proof fn law_flat_loss_settlement_conserves(e: RiskEngine, idx: u16, now_slot: u64)
    ensures
        ({
            let (after, r) = e.settle_flat_negative_spec(idx, now_slot);
            e.conserved(after, 0, r is Ok)
        }),
{
    broadcast use {step_settle_losses, step_flat_negative};

    reveal(RiskEngine::settle_flat_negative_spec);
}

/// Charging recurring fees moves no value in or out and keeps the books.
pub proof fn law_fee_sync_conserves(e: RiskEngine, idx: u16, now_slot: u64, rate: u128)
    ensures
        ({
            let (after, r) = e.sync_fee_instruction_spec(idx, now_slot, rate);
            e.conserved(after, 0, r is Ok)
        }),
{
    broadcast use step_sync_fee;

    reveal(RiskEngine::sync_fee_instruction_spec);
}

/// Paying fee debt in adds what was taken to the vault and keeps the books.
pub proof fn law_fee_credit_deposit_conserves(e: RiskEngine, idx: u16, amount: u128, now_slot: u64)
    ensures
        ({
            let (after, r) = e.deposit_fee_credits_spec(idx, amount, now_slot);
            e.conserved(after, paid(r), r is Ok)
        }),
{
    broadcast use lemma_ledger_of_account;

    reveal(RiskEngine::deposit_fee_credits_spec);
}

/// Reclaiming an empty account moves no value and keeps the books.
pub proof fn law_reclaim_conserves(e: RiskEngine, idx: u16, now_slot: u64)
    ensures
        ({
            let (after, r) = e.reclaim_spec(idx, now_slot);
            e.conserved(after, 0, r is Ok)
        }),
{
    broadcast use lemma_ledger_of_account;

    reveal(RiskEngine::reclaim_spec);
    lemma_release_slot(
        RiskEngine { current_slot: now_slot, ..e }.with_debt_forgiven(idx as int),
        idx,
    );
}

proof fn lemma_try_recoveries(e: RiskEngine, k: int, now_slot: u64, target: u64)
    ensures
        ({
            let (after, r) = e.try_recoveries(k, now_slot, target);
            e.conserved(after, 0, r is Ok)
        }),
    decreases 5 - k,
{
    if 0 <= k < 5 {
        let reason = RiskEngine::ranked_reason(k);
        law_recovery_conserves(e, reason, now_slot, target);
        let (s, r) = e.try_recovery(reason, now_slot, target);
        if r == Ok::<Option<PermissionlessProgressOutcome>, RiskError>(None) {
            lemma_try_recoveries(s, k + 1, now_slot, target);
        }
    }
}

proof fn lemma_account_b_dispatch(
    e: RiskEngine,
    idx: u16,
    now_slot: u64,
    h_min: u64,
    h_max: u64,
    threshold_opt: Option<u128>,
)
    ensures
        ({
            let (after, r) = e.account_b_dispatch_spec(idx, now_slot, h_min, h_max, threshold_opt);
            e.conserved(after, 0, r is Ok)
        }),
{
    reveal(RiskEngine::account_b_dispatch_spec);
    law_account_progress_conserves(e, idx as int, now_slot, h_min, h_max, threshold_opt);
    law_account_b_recovery_conserves(
        e.account_b_progress_spec(idx as int, now_slot, h_min, h_max, threshold_opt).0,
        idx as int,
        now_slot,
    );
}

proof fn lemma_live_progress(e: RiskEngine, req: PermissionlessProgressRequest<'_>)
    ensures
        ({
            let (after, r) = e.live_progress(req);
            e.conserved(after, 0, r is Ok)
        }),
{
    let (s, r) = match req.account_hint {
        None => (e, Ok(None)),
        Some(idx) => e.account_b_dispatch_spec(
            idx,
            req.now_slot,
            req.admit_h_min,
            req.admit_h_max,
            req.admit_h_max_consumption_threshold_bps_opt,
        ),
    };
    if req.account_hint is Some {
        lemma_account_b_dispatch(
            e,
            req.account_hint->0,
            req.now_slot,
            req.admit_h_min,
            req.admit_h_max,
            req.admit_h_max_consumption_threshold_bps_opt,
        );
    }
    lemma_try_recoveries(s, 0, req.now_slot, req.authenticated_raw_target_price);
    let t = s.try_recoveries(0, req.now_slot, req.authenticated_raw_target_price).0;
    law_crank_conserves(
        t,
        req.now_slot,
        req.oracle_price,
        req.ordered_candidates@,
        req.max_revalidations,
        req.funding_rate_e9,
        req.admit_h_min,
        req.admit_h_max,
        req.admit_h_max_consumption_threshold_bps_opt,
        req.rr_touch_limit,
    );
}

/// Progress takes what a close pays out from the vault, moves no other value, and
/// keeps the books.
pub proof fn law_progress_conserves(e: RiskEngine, req: PermissionlessProgressRequest<'_>)
    ensures
        ({
            let (after, r) = e.progress_spec(req);
            e.conserved(after, -paid_by_progress(r), r is Ok)
        }),
{
    reveal(RiskEngine::progress_spec);
    law_cursor_close_conserves(e, req.resolved_scan_limit, req.resolved_fee_rate_per_slot);
    law_recovery_conserves(
        e,
        RecoveryReason::ActiveBankruptCloseCannotProgress,
        req.now_slot,
        req.authenticated_raw_target_price,
    );
    law_close_continuation_conserves(e, req.now_slot);
    lemma_live_progress(e, req);
    lemma_live_outcome(e, req);
}

proof fn lemma_live_outcome(e: RiskEngine, req: PermissionlessProgressRequest<'_>)
    ensures
        paid_by_progress(e.live_progress(req).1) == 0,
{
    reveal(RiskEngine::account_b_dispatch_spec);
    let s = match req.account_hint {
        None => e,
        Some(idx) => e.account_b_dispatch_spec(
            idx,
            req.now_slot,
            req.admit_h_min,
            req.admit_h_max,
            req.admit_h_max_consumption_threshold_bps_opt,
        ).0,
    };
    lemma_recovery_outcome(s, 0, req.now_slot, req.authenticated_raw_target_price);
}

proof fn lemma_recovery_outcome(e: RiskEngine, k: int, now_slot: u64, target: u64)
    ensures
        e.try_recoveries(k, now_slot, target).1 matches Ok(Some(outcome)) ==> outcome is Recovered,
    decreases 5 - k,
{
    if 0 <= k < 5 {
        let (s, r) = e.try_recovery(RiskEngine::ranked_reason(k), now_slot, target);
        if r == Ok::<Option<PermissionlessProgressOutcome>, RiskError>(None) {
            lemma_recovery_outcome(s, k + 1, now_slot, target);
        }
    }
}

} // verus!
