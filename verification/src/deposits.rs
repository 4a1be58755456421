//! Deposits are protected: no instruction takes from an account without a position,
//! without a loss and without fee debt, but those of its own that are meant to.

use vstd::prelude::*;

use crate::books::{
    lemma_ledger_of_account, step_accrue, step_accrue_and_touch, step_begin_reset,
    step_begin_terminal_reset, step_charge_fee, step_close_instruction, step_complete_close,
    step_continue_close, step_drain_b, step_fee_debt_sweep, step_finalize_one, step_finalize_resets,
    step_finalize_touched, step_flat_negative, step_liquidate, step_profit_paid, step_reconcile,
    step_schedule_resets, step_set_capital, step_settle_losses, step_sync_fee, step_touch,
};
use crate::constants::MAX_ACCOUNTS;
use crate::context::InstructionContext;
use crate::history::Instruction;
use crate::int128::U128;
use crate::types::{
    Account, LiquidationPolicy, MarketMode, PermissionlessProgressRequest, RecoveryReason,
    ResolveMode, RiskEngine, RiskError, Side,
};

verus! {

impl Account {
    /// Whether nothing is at risk in the account: it holds no position, no loss and no
    /// fee debt.
    pub open spec fn is_riskless(self) -> bool {
        &&& self.position_basis_q == 0
        &&& self.pnl >= 0
        &&& self.fee_credits.get() >= 0
    }
}

impl RiskEngine {
    /// Whether a step keeps every deposit: a riskless account stays riskless, and its
    /// capital does not fall.
    pub open spec fn keeps_deposits(self, after: RiskEngine) -> bool {
        forall|k: int|
            0 <= k < MAX_ACCOUNTS && self.accounts@[k].is_riskless() ==> {
                &&& (#[trigger] after.accounts@[k]).is_riskless()
                &&& after.accounts@[k].capital.get() >= self.accounts@[k].capital.get()
            }
    }
}

/// Touching an account.
pub broadcast proof fn deposit_touch(e: RiskEngine, i: int, ctx: InstructionContext)
    ensures
        e.keeps_deposits((#[trigger] e.touch_spec(i, ctx)).0),
{
    broadcast use step_touch;

    if 0 <= i < MAX_ACCOUNTS && e.accounts@[i].is_riskless() {
        crate::isolation::law_touch_spares_flat_accounts(e, i, ctx);
    }
}

/// Liquidating an account.
pub broadcast proof fn deposit_liquidate(
    e: RiskEngine,
    i: int,
    price: u64,
    policy: LiquidationPolicy,
    ctx: InstructionContext,
)
    ensures
        e.keeps_deposits((#[trigger] e.liquidate_internal_spec(i, price, policy, ctx)).0),
{
    broadcast use step_liquidate;

    if 0 <= i < MAX_ACCOUNTS && e.accounts@[i].is_riskless() {
        reveal(RiskEngine::liquidate_internal_spec);
        reveal(RiskEngine::effective_pos_q_spec);
    }
}

/// Finishing a touched account.
pub broadcast proof fn deposit_finalize_one(e: RiskEngine, i: int, is_whole: bool)
    requires
        0 <= i,
    ensures
        e.keeps_deposits((#[trigger] e.finalize_one_spec(i, is_whole)).0),
{
    broadcast use {lemma_ledger_of_account, step_finalize_one};

    if i < MAX_ACCOUNTS && e.accounts@[i].is_riskless() {
        reveal(RiskEngine::finalize_one_spec);
        reveal(RiskEngine::consume_released_pnl_spec);
        reveal(RiskEngine::set_capital_spec);
        reveal(RiskEngine::fee_debt_sweep_spec);
        reveal(RiskEngine::released_pos_spec);
    }
}

/// Finishing touched accounts.
pub broadcast proof fn deposit_finalize_all(e: RiskEngine, touched: Seq<u16>, is_whole: bool)
    ensures
        e.keeps_deposits((#[trigger] e.finalize_all(touched, is_whole)).0),
    decreases touched.len(),
{
    broadcast use deposit_finalize_one;

    if touched.len() > 0 {
        deposit_finalize_all(e, touched.drop_last(), is_whole);
    }
}

/// Finishing the touched accounts of an instruction.
pub broadcast proof fn deposit_finalize_touched(e: RiskEngine, ctx: InstructionContext)
    ensures
        e.keeps_deposits((#[trigger] e.finalize_touched_spec(ctx)).0),
{
    broadcast use deposit_finalize_all;

    reveal(RiskEngine::finalize_touched_spec);
}

/// Processing a candidate of the keeper.
pub broadcast proof fn deposit_candidate(
    e: RiskEngine,
    i: int,
    hint: Option<LiquidationPolicy>,
    price: u64,
    ctx: InstructionContext,
)
    ensures
        e.keeps_deposits((#[trigger] e.candidate_processed(i, hint, price, ctx)).0),
{
    broadcast use {deposit_touch, deposit_liquidate};

    reveal(RiskEngine::candidate_processed);
}

/// Processing candidates from one on.
pub broadcast proof fn deposit_phase1_from(
    e: RiskEngine,
    ctx: InstructionContext,
    candidates: Seq<(u16, Option<LiquidationPolicy>)>,
    k: int,
    price: u64,
    max_attempts: u16,
    max_inspections: u16,
    inspected: int,
    attempts: int,
    liquidations: int,
)
    ensures
        e.keeps_deposits(
            (#[trigger] e.phase1_from(
                ctx,
                candidates,
                k,
                price,
                max_attempts,
                max_inspections,
                inspected,
                attempts,
                liquidations,
            )).0,
        ),
    decreases candidates.len() - k,
{
    broadcast use deposit_candidate;

    if k < 0 || k >= candidates.len() || attempts >= max_attempts || inspected >= max_inspections
        || ctx.pending_reset_long || ctx.pending_reset_short {
    } else if !e.account_exists(candidates[k].0 as int) {
        deposit_phase1_from(
            e,
            ctx,
            candidates,
            k + 1,
            price,
            max_attempts,
            max_inspections,
            inspected + 1,
            attempts,
            liquidations,
        );
    } else {
        let (s, c, r) = e.candidate_processed(candidates[k].0 as int, candidates[k].1, price, ctx);
        if r is Ok {
            deposit_phase1_from(
                s,
                c,
                candidates,
                k + 1,
                price,
                max_attempts,
                max_inspections,
                inspected + 1,
                attempts + 1,
                if r->Ok_0 {
                    liquidations + 1
                } else {
                    liquidations
                },
            );
        }
    }
}

/// Sweeping slots from one on.
pub broadcast proof fn deposit_sweep_from(
    e: RiskEngine,
    ctx: InstructionContext,
    i: int,
    end: int,
    counted: int,
)
    ensures
        e.keeps_deposits((#[trigger] e.sweep_from(ctx, i, end, counted)).0),
    decreases end - i,
{
    broadcast use deposit_touch;

    if i >= end {
    } else if !e.slot_used(i) {
        deposit_sweep_from(e, ctx, i + 1, end, counted);
    } else {
        let (s, c, r) = e.touch_spec(i, ctx);
        if r is Ok {
            deposit_sweep_from(s, c, i + 1, end, counted + 1);
        }
    }
}

/// Cranking an accrued market.
pub broadcast proof fn deposit_cranked(
    e: RiskEngine,
    ctx: InstructionContext,
    now_slot: u64,
    price: u64,
    candidates: Seq<(u16, Option<LiquidationPolicy>)>,
    max_revalidations: u16,
    window: u64,
)
    ensures
        e.keeps_deposits(
            (#[trigger] e.cranked(ctx, now_slot, price, candidates, max_revalidations, window)).0,
        ),
{
    broadcast use {
        deposit_phase1_from,
        deposit_sweep_from,
        deposit_finalize_touched,
        step_close_instruction,
    };

    reveal(RiskEngine::cranked);
    reveal(RiskEngine::phase1_spec);
    reveal(RiskEngine::swept);
}

impl RiskEngine {
    /// Whether a step keeps the deposit of account `k`.
    pub open spec fn keeps_deposit(self, after: RiskEngine, k: int) -> bool {
        self.accounts@[k].is_riskless() ==> {
            &&& after.accounts@[k].is_riskless()
            &&& after.accounts@[k].capital.get() >= self.accounts@[k].capital.get()
        }
    }

    /// Whether an instruction is meant to take from account `k`: to pay it out, to
    /// charge it, or to trade for it.
    pub open spec fn takes_from(self, instruction: Instruction<'_>, k: int) -> bool {
        match instruction {
            Instruction::Withdraw { idx, .. } => idx == k,
            Instruction::ExecuteTrade { a, b, .. } => a == k || b == k,
            Instruction::CloseAccount { idx, .. } => idx == k,
            Instruction::CloseTerminal { idx } => idx == k,
            Instruction::CloseTerminalWithFee { idx, .. } => idx == k,
            Instruction::ForceClose { idx, .. } => idx == k,
            Instruction::ForceCloseNext { .. } => true,
            Instruction::Progress { .. } => self.market_mode == MarketMode::Resolved,
            Instruction::ChargeFee { idx, .. } => idx == k,
            Instruction::SyncFee { idx, .. } => idx == k,
            _ => false,
        }
    }
}

proof fn lemma_deposit_instruction(
    e: RiskEngine,
    idx: u16,
    amount: u128,
    now_slot: u64,
    k: int,
)
    requires
        e.sound(),
        0 <= k < MAX_ACCOUNTS,
    ensures
        e.keeps_deposit(e.deposit_spec(idx, amount, now_slot).0, k),
{
    broadcast use lemma_ledger_of_account;

    if k != idx {
        crate::isolation::law_deposit_spares_others(e, idx, amount, now_slot, k);
    } else {
        reveal(RiskEngine::deposit_spec);
        reveal(RiskEngine::materialize_at_spec);
        reveal(RiskEngine::set_capital_spec);
        reveal(RiskEngine::settle_losses_spec);
        reveal(RiskEngine::fee_debt_sweep_spec);
        if !e.slot_used(k) {
            crate::conservation::lemma_unused_is_blank(e, k);
        }
    }
}

proof fn lemma_settle_instruction(
    e: RiskEngine,
    i: int,
    price: u64,
    now_slot: u64,
    rate: i128,
    ctx: InstructionContext,
)
    ensures
        e.keeps_deposits(e.accrue_and_touch_spec(i, ctx, now_slot, price, rate).0),
{
    broadcast use {step_accrue, deposit_touch};

    reveal(RiskEngine::accrue_and_touch_spec);
}

proof fn lemma_converted(e: RiskEngine, i: int, x: u128, price: u64)
    requires
        0 <= i < MAX_ACCOUNTS,
    ensures
        e.keeps_deposits(e.convert_core_spec(i, x, price).0),
{
    broadcast use {lemma_ledger_of_account, crate::books::step_convert};

    if e.accounts@[i].is_riskless() {
        reveal(RiskEngine::convert_core_spec);
        reveal(RiskEngine::consume_released_pnl_spec);
        reveal(RiskEngine::set_capital_spec);
        reveal(RiskEngine::fee_debt_sweep_spec);
    }
}

/// Giving a slot back changes no account but its own.
proof fn lemma_release_spares(e: RiskEngine, idx: u16, k: int)
    requires
        0 <= k < MAX_ACCOUNTS,
        k != idx,
    ensures
        e.release_slot(idx).0.accounts@[k] == e.accounts@[k],
{
    broadcast use lemma_ledger_of_account;

    reveal(RiskEngine::release_slot);
    reveal(RiskEngine::free_slot_spec);
    reveal(RiskEngine::sweep_empty_market_surplus_spec);
}

proof fn lemma_close_instruction(
    e: RiskEngine,
    idx: u16,
    now_slot: u64,
    price: u64,
    rate: i128,
    h_min: u64,
    h_max: u64,
    threshold_opt: Option<u128>,
    k: int,
)
    requires
        0 <= k < MAX_ACCOUNTS,
        k != idx,
    ensures
        e.keeps_deposit(
            e.close_account_spec(idx, now_slot, price, rate, h_min, h_max, threshold_opt).0,
            k,
        ),
{
    broadcast use {
        deposit_finalize_touched,
        step_set_capital,
        step_schedule_resets,
        step_finalize_resets,
    };

    let ctx = RiskEngine::admission(h_min, h_max, threshold_opt);
    lemma_settle_instruction(e, idx as int, price, now_slot, rate, ctx);
    reveal(RiskEngine::close_account_spec);
    reveal(RiskEngine::account_paid_out);
    assert forall|s: RiskEngine| (#[trigger] s.release_slot(idx)).0.accounts@[k]
        == s.accounts@[k] by {
        lemma_release_spares(s, idx, k);
    }
}

proof fn lemma_terminal_close_spares(e: RiskEngine, idx: u16, k: int)
    requires
        0 <= k < MAX_ACCOUNTS,
        k != idx,
        idx < MAX_ACCOUNTS,
        e.market_mode == MarketMode::Resolved,
    ensures
        e.terminal_closed(idx).0.accounts@[k] == e.accounts@[k],
{
    broadcast use {
        lemma_ledger_of_account,
        step_fee_debt_sweep,
        step_profit_paid,
        step_set_capital,
    };

    assert forall|s: RiskEngine| (#[trigger] s.release_slot(idx)).0.accounts@[k]
        == s.accounts@[k] by {
        lemma_release_spares(s, idx, k);
    }
    reveal(RiskEngine::terminal_released);
}

proof fn lemma_forced_close_spares(e: RiskEngine, idx: u16, rate: Option<u128>, k: int)
    requires
        0 <= k < MAX_ACCOUNTS,
        k != idx,
    ensures
        e.close_terminal_spec(idx).0.accounts@[k] == e.accounts@[k],
        rate is Some ==> e.close_terminal_with_fee_spec(idx, rate->0).0.accounts@[k]
            == e.accounts@[k],
        e.force_close_spec(idx, rate).0.accounts@[k] == e.accounts@[k],
{
    broadcast use {step_reconcile, step_sync_fee};

    reveal(RiskEngine::close_terminal_spec);
    reveal(RiskEngine::close_terminal_with_fee_spec);
    reveal(RiskEngine::force_close_spec);
    assert forall|s: RiskEngine|
        s.market_mode == MarketMode::Resolved && idx < MAX_ACCOUNTS implies (
    #[trigger] s.terminal_closed(idx)).0.accounts@[k] == s.accounts@[k] by {
        lemma_terminal_close_spares(s, idx, k);
    }
    assert(e.reconcile_spec(idx as int).1 is Ok ==> idx < MAX_ACCOUNTS) by {
        reveal(RiskEngine::reconcile_spec);
    }
}

proof fn lemma_reconcile_keeps(e: RiskEngine, i: int)
    ensures
        e.keeps_deposits(e.reconcile_spec(i).0),
{
    broadcast use {lemma_ledger_of_account, step_reconcile};

    if 0 <= i < MAX_ACCOUNTS && e.accounts@[i].is_riskless() {
        reveal(RiskEngine::reconcile_spec);
        reveal(RiskEngine::position_reconciled);
        reveal(RiskEngine::settle_losses_spec);
        reveal(RiskEngine::resolve_flat_negative_spec);
        reveal(RiskEngine::effective_pos_q_spec);
    }
}

proof fn lemma_resolution_keeps(e: RiskEngine, price: u64, live: u64, now_slot: u64)
    ensures
        e.settled_at(price, live, now_slot).0.accounts == e.accounts,
        e.resolve_exhausted_spec(now_slot).0.accounts == e.accounts,
{
    broadcast use {step_begin_reset, step_begin_terminal_reset};

    reveal(RiskEngine::settled_at);
    reveal(RiskEngine::resolve_exhausted_spec);
    reveal(RiskEngine::resolution_drained);
}

proof fn lemma_resolve_instruction_keeps(
    e: RiskEngine,
    mode: ResolveMode,
    price: u64,
    live: u64,
    now_slot: u64,
    rate: i128,
)
    ensures
        e.resolve_market_spec(mode, price, live, now_slot, rate).0.accounts == e.accounts,
{
    broadcast use step_accrue;

    reveal(RiskEngine::resolve_market_spec);
    lemma_resolution_keeps(
        RiskEngine { current_slot: now_slot, last_market_slot: now_slot, ..e },
        price,
        live,
        now_slot,
    );
    lemma_resolution_keeps(e.accrue_market_to_spec(now_slot, live, rate).0, price, live, now_slot);
}

proof fn lemma_recovery_keeps(e: RiskEngine, reason: RecoveryReason, now_slot: u64, target: u64)
    ensures
        e.recover_spec(reason, now_slot, target).0.accounts == e.accounts,
{
    broadcast use step_complete_close;

    reveal(RiskEngine::recover_spec);
    lemma_resolution_keeps(e, 0, 0, now_slot);
    assert forall|s: RiskEngine| (#[trigger] s.resolve_at_last(now_slot)).0.accounts
        == s.accounts by {
        lemma_resolve_instruction_keeps(
            s,
            ResolveMode::Degenerate,
            s.last_oracle_price,
            s.last_oracle_price,
            now_slot,
            0,
        );
    }
}

proof fn lemma_recoveries_keep(e: RiskEngine, from: int, now_slot: u64, target: u64)
    ensures
        e.try_recoveries(from, now_slot, target).0.accounts == e.accounts,
    decreases 5 - from,
{
    if 0 <= from < 5 {
        let reason = RiskEngine::ranked_reason(from);
        lemma_recovery_keeps(e, reason, now_slot, target);
        let (s, r) = e.try_recovery(reason, now_slot, target);
        lemma_recoveries_keep(s, from + 1, now_slot, target);
    }
}

proof fn lemma_crank_keeps(
    e: RiskEngine,
    now_slot: u64,
    price: u64,
    candidates: Seq<(u16, Option<LiquidationPolicy>)>,
    max_revalidations: u16,
    rate: i128,
    h_min: u64,
    h_max: u64,
    threshold_opt: Option<u128>,
    window: u64,
)
    ensures
        e.keeps_deposits(
            e.keeper_crank_spec(
                now_slot,
                price,
                candidates,
                max_revalidations,
                rate,
                h_min,
                h_max,
                threshold_opt,
                window,
            ).0,
        ),
{
    broadcast use {step_accrue, step_continue_close, deposit_cranked};

    reveal(RiskEngine::keeper_crank_spec);
}

proof fn lemma_account_dispatch_keeps(
    e: RiskEngine,
    idx: u16,
    now_slot: u64,
    h_min: u64,
    h_max: u64,
    threshold_opt: Option<u128>,
)
    ensures
        e.keeps_deposits(
            e.account_b_dispatch_spec(idx, now_slot, h_min, h_max, threshold_opt).0,
        ),
{
    broadcast use {
        step_drain_b,
        deposit_touch,
        deposit_finalize_touched,
        step_close_instruction,
    };

    reveal(RiskEngine::account_b_dispatch_spec);
    reveal(RiskEngine::account_b_progress_spec);
    reveal(RiskEngine::recover_account_b_spec);
    crate::conservation::lemma_step_has_an_account(e, idx as int);
    let s = e.account_b_progress_spec(idx as int, now_slot, h_min, h_max, threshold_opt).0;
    lemma_resolve_instruction_keeps(
        s,
        ResolveMode::Degenerate,
        s.last_oracle_price,
        s.last_oracle_price,
        now_slot,
        0,
    );
}

proof fn lemma_live_progress_keeps(e: RiskEngine, req: PermissionlessProgressRequest<'_>)
    requires
        e.market_mode != MarketMode::Resolved,
    ensures
        e.keeps_deposits(e.progress_spec(req).0),
{
    broadcast use step_continue_close;

    reveal(RiskEngine::progress_spec);
    if e.active_close_present != 0 {
        lemma_recovery_keeps(
            e,
            RecoveryReason::ActiveBankruptCloseCannotProgress,
            req.now_slot,
            req.authenticated_raw_target_price,
        );
        reveal(RiskEngine::continue_close_spec);
    } else {
        let dispatched = match req.account_hint {
            None => e,
            Some(idx) => e.account_b_dispatch_spec(
                idx,
                req.now_slot,
                req.admit_h_min,
                req.admit_h_max,
                req.admit_h_max_consumption_threshold_bps_opt,
            ).0,
        };
        if let Some(idx) = req.account_hint {
            lemma_account_dispatch_keeps(
                e,
                idx,
                req.now_slot,
                req.admit_h_min,
                req.admit_h_max,
                req.admit_h_max_consumption_threshold_bps_opt,
            );
        }
        lemma_recoveries_keep(
            dispatched,
            0,
            req.now_slot,
            req.authenticated_raw_target_price,
        );
        let recovered = dispatched.try_recoveries(
            0,
            req.now_slot,
            req.authenticated_raw_target_price,
        ).0;
        lemma_crank_keeps(
            recovered,
            req.now_slot,
            req.oracle_price,
            req.ordered_candidates@,
            req.max_revalidations,
            req.funding_rate_e9,
            req.admit_h_min,
            req.admit_h_max,
            req.admit_h_max_consumption_threshold_bps_opt,
            req.rr_touch_limit,
        );
    }
}

proof fn lemma_fee_instructions_keep(
    e: RiskEngine,
    idx: u16,
    amount: u128,
    now_slot: u64,
    k: int,
)
    requires
        0 <= k < MAX_ACCOUNTS,
    ensures
        k != idx ==> e.keeps_deposit(e.charge_account_fee_spec(idx, amount, now_slot).0, k),
        k != idx ==> e.keeps_deposit(e.sync_fee_instruction_spec(idx, now_slot, amount).0, k),
        e.keeps_deposit(e.deposit_fee_credits_spec(idx, amount, now_slot).0, k),
{
    broadcast use {lemma_ledger_of_account, step_charge_fee, step_sync_fee};

    reveal(RiskEngine::charge_account_fee_spec);
    reveal(RiskEngine::sync_fee_instruction_spec);
    reveal(RiskEngine::deposit_fee_credits_spec);
}

proof fn lemma_quiet_instructions_keep(
    e: RiskEngine,
    idx: u16,
    amount: u128,
    now_slot: u64,
    k: int,
)
    requires
        0 <= k < MAX_ACCOUNTS,
    ensures
        e.keeps_deposit(e.settle_flat_negative_spec(idx, now_slot).0, k),
        e.keeps_deposit(e.reclaim_spec(idx, now_slot).0, k),
        e.keeps_deposit(e.credit_from_insurance_spec(idx, amount, now_slot).0, k),
{
    broadcast use {
        lemma_ledger_of_account,
        step_set_capital,
        step_settle_losses,
        step_flat_negative,
        step_fee_debt_sweep,
    };

    reveal(RiskEngine::settle_flat_negative_spec);
    reveal(RiskEngine::reclaim_spec);
    reveal(RiskEngine::credit_from_insurance_spec);
    if k == idx {
        reveal(RiskEngine::set_capital_spec);
        reveal(RiskEngine::fee_debt_sweep_spec);
        reveal(RiskEngine::release_slot);
        reveal(RiskEngine::free_slot_spec);
        reveal(RiskEngine::sweep_empty_market_surplus_spec);
    } else {
        lemma_release_spares(
            RiskEngine { current_slot: now_slot, ..e }.with_debt_forgiven(idx as int),
            idx,
            k,
        );
    }
}

proof fn lemma_funds_keep(e: RiskEngine, amount: u128, now_slot: u64)
    ensures
        e.top_up_spec(amount, now_slot).0.accounts == e.accounts,
        e.withdraw_live_insurance_spec(amount, now_slot).0.accounts == e.accounts,
        e.withdraw_resolved_insurance_spec().0.accounts == e.accounts,
{
    reveal(RiskEngine::top_up_spec);
    reveal(RiskEngine::withdraw_live_insurance_spec);
    reveal(RiskEngine::withdraw_resolved_insurance_spec);
    reveal(RiskEngine::sweep_empty_market_surplus_spec);
}

/// Deposits are protected: whatever is sent to a sound market, an account without a
/// position, without a loss and without fee debt stays so and loses nothing of its
/// capital, unless the instruction pays it out, charges it or trades for it.
pub proof fn law_deposits_are_protected(e: RiskEngine, instruction: Instruction<'_>, k: int)
    requires
        e.sound(),
        0 <= k < MAX_ACCOUNTS,
        !e.takes_from(instruction, k),
    ensures
        e.keeps_deposit(e.run(instruction).after, k),
{
    broadcast use {
        lemma_ledger_of_account,
        step_accrue,
        step_continue_close,
        step_close_instruction,
        deposit_liquidate,
        deposit_finalize_touched,
    };

    match instruction {
        Instruction::SetOwner { idx, owner } => {},
        Instruction::Deposit { idx, amount, now_slot } => {
            lemma_deposit_instruction(e, idx, amount, now_slot, k);
        },
        Instruction::Withdraw { idx, amount, price, now_slot, rate, h_min, h_max, threshold_opt } => {
            crate::isolation::law_withdrawal_spares_others(
                e,
                idx,
                amount,
                price,
                now_slot,
                rate,
                h_min,
                h_max,
                threshold_opt,
                k,
            );
        },
        Instruction::SettleAccount { idx, price, now_slot, rate, h_min, h_max, threshold_opt } => {
            let ctx = RiskEngine::admission(h_min, h_max, threshold_opt);
            lemma_settle_instruction(e, idx as int, price, now_slot, rate, ctx);
            reveal(RiskEngine::settle_account_spec);
        },
        Instruction::ExecuteTrade {
            a,
            b,
            price,
            now_slot,
            size_q,
            exec_price,
            rate,
            fee_bps,
            h_min,
            h_max,
            threshold_opt,
        } => {
            crate::isolation::law_trade_spares_others(
                e,
                a,
                b,
                price,
                now_slot,
                size_q,
                exec_price,
                rate,
                fee_bps,
                h_min,
                h_max,
                threshold_opt,
                k,
            );
        },
        Instruction::Liquidate {
            idx,
            now_slot,
            price,
            policy,
            rate,
            h_min,
            h_max,
            threshold_opt,
        } => {
            let ctx = RiskEngine::admission(h_min, h_max, threshold_opt);
            lemma_settle_instruction(e, idx as int, price, now_slot, rate, ctx);
            reveal(RiskEngine::liquidate_spec);
        },
        Instruction::KeeperCrank {
            now_slot,
            price,
            candidates,
            max_revalidations,
            rate,
            h_min,
            h_max,
            threshold_opt,
            window,
        } => {
            lemma_crank_keeps(
                e,
                now_slot,
                price,
                candidates@,
                max_revalidations,
                rate,
                h_min,
                h_max,
                threshold_opt,
                window,
            );
        },
        Instruction::ConvertReleased {
            idx,
            x,
            price,
            now_slot,
            rate,
            h_min,
            h_max,
            threshold_opt,
        } => {
            let ctx = RiskEngine::admission(h_min, h_max, threshold_opt);
            lemma_settle_instruction(e, idx as int, price, now_slot, rate, ctx);
            reveal(RiskEngine::convert_released_spec);
            let s = e.accrue_and_touch_spec(idx as int, ctx, now_slot, price, rate).0;
            if idx < MAX_ACCOUNTS {
                lemma_converted(s, idx as int, x, price);
            }
        },
        Instruction::CloseAccount { idx, now_slot, price, rate, h_min, h_max, threshold_opt } => {
            lemma_close_instruction(
                e,
                idx,
                now_slot,
                price,
                rate,
                h_min,
                h_max,
                threshold_opt,
                k,
            );
        },
        Instruction::AccrueMarket { now_slot, price, rate } => {},
        Instruction::ResolveMarket { mode, price, live_price, now_slot, rate } => {
            lemma_resolve_instruction_keeps(e, mode, price, live_price, now_slot, rate);
        },
        Instruction::Recover { reason, now_slot, target } => {
            lemma_recovery_keeps(e, reason, now_slot, target);
        },
        Instruction::ContinueClose { now_slot } => {
            reveal(RiskEngine::continue_close_spec);
        },
        Instruction::Reconcile { idx } => {
            lemma_reconcile_keeps(e, idx as int);
        },
        Instruction::CloseTerminal { idx } => {
            lemma_forced_close_spares(e, idx, None, k);
        },
        Instruction::CloseTerminalWithFee { idx, fee_rate } => {
            lemma_forced_close_spares(e, idx, Some(fee_rate), k);
        },
        Instruction::ForceClose { idx, fee_rate_opt } => {
            lemma_forced_close_spares(e, idx, fee_rate_opt, k);
        },
        Instruction::ForceCloseNext { scan_limit, fee_rate } => {},
        Instruction::Progress { req } => {
            lemma_live_progress_keeps(e, req);
        },
        Instruction::ReclaimEmpty { idx, now_slot } => {
            lemma_quiet_instructions_keep(e, idx, 0, now_slot, k);
        },
        Instruction::TopUpInsurance { amount, now_slot } => {
            lemma_funds_keep(e, amount, now_slot);
        },
        Instruction::CreditFromInsurance { idx, amount, now_slot } => {
            lemma_quiet_instructions_keep(e, idx, amount, now_slot, k);
        },
        Instruction::WithdrawLiveInsurance { amount, now_slot } => {
            lemma_funds_keep(e, amount, now_slot);
        },
        Instruction::WithdrawResolvedInsurance => {
            lemma_funds_keep(e, 0, 0);
        },
        Instruction::ChargeFee { idx, fee, now_slot } => {
            lemma_fee_instructions_keep(e, idx, fee, now_slot, k);
        },
        Instruction::SettleFlatNegative { idx, now_slot } => {
            lemma_quiet_instructions_keep(e, idx, 0, now_slot, k);
        },
        Instruction::SyncFee { idx, now_slot, fee_rate } => {
            lemma_fee_instructions_keep(e, idx, fee_rate, now_slot, k);
        },
        Instruction::DepositFeeCredits { idx, amount, now_slot } => {
            lemma_fee_instructions_keep(e, idx, amount, now_slot, k);
        },
    }
}

impl RiskEngine {
    /// Whether no instruction of a history that is accepted takes from account `k`.
    pub open spec fn history_spares(self, history: Seq<Instruction<'_>>, k: int) -> bool
        decreases history.len(),
    {
        history.len() == 0 || {
            let e = self.run_all(history.drop_last()).0;
            &&& self.history_spares(history.drop_last(), k)
            &&& e.run(history.last()).ok ==> !e.takes_from(history.last(), k)
        }
    }
}

/// Deposits are protected for good: after any history that does not pay the account
/// out, charge it or trade for it, it still has its capital.
pub proof fn law_deposits_outlast_every_history(
    e: RiskEngine,
    history: Seq<Instruction<'_>>,
    k: int,
)
    requires
        e.sound(),
        0 <= k < MAX_ACCOUNTS,
        e.history_spares(history, k),
    ensures
        e.keeps_deposit(e.run_all(history).0, k),
    decreases history.len(),
{
    if history.len() > 0 {
        let rest = history.drop_last();
        law_deposits_outlast_every_history(e, rest, k);
        crate::history::law_every_history_conserves(e, rest);
        let s = e.run_all(rest).0;
        if s.run(history.last()).ok {
            law_deposits_are_protected(s, history.last(), k);
        }
    }
}

impl RiskEngine {
    /// The engine with an amount of the capital of account `i` paid out.
    pub open spec fn with_paid_out(self, i: int, amount: u128) -> RiskEngine {
        let a = self.accounts@[i];
        RiskEngine {
            vault: U128((self.vault.get() - amount) as u128),
            c_tot: U128((self.c_tot.get() - amount) as u128),
            ..self.with_account(
                i,
                Account { capital: U128((a.capital.get() - amount) as u128), ..a },
            )
        }
    }
}

proof fn lemma_reset_ignores_capital(e: RiskEngine, i: int, amount: u128, side: Side)
    ensures
        e.with_paid_out(i, amount).begin_reset_spec(side) == (
            e.begin_reset_spec(side).0.with_paid_out(i, amount),
            e.begin_reset_spec(side).1,
        ),
        e.with_paid_out(i, amount).with_ready_side(side) == e.with_ready_side(side).with_paid_out(
            i,
            amount,
        ),
{
    reveal(RiskEngine::begin_reset_spec);
}

/// Resets do not depend on capital.
proof fn lemma_resets_ignore_capital(
    e: RiskEngine,
    i: int,
    amount: u128,
    ctx: InstructionContext,
)
    ensures
        ({
            let (s, c, r) = e.end_resets_spec(ctx);
            e.with_paid_out(i, amount).end_resets_spec(ctx) == (s.with_paid_out(i, amount), c, r)
        }),
{
    reveal(RiskEngine::finalize_resets_spec);
    let (s, c, r) = e.schedule_resets_spec(ctx);
    assert(e.with_paid_out(i, amount).schedule_resets_spec(ctx) == (
        s.with_paid_out(i, amount),
        c,
        r,
    )) by {
        reveal(RiskEngine::schedule_resets_spec);
    }
    lemma_reset_ignores_capital(s, i, amount, Side::Long);
    let s2 = s.reset_if_due(Side::Long, c.pending_reset_long).0;
    lemma_reset_ignores_capital(s2, i, amount, Side::Short);
    let s3 = s2.reset_if_due(Side::Short, c.pending_reset_short).0;
    lemma_reset_ignores_capital(s3, i, amount, Side::Long);
    lemma_reset_ignores_capital(s3.with_ready_side(Side::Long), i, amount, Side::Short);
}

proof fn lemma_capital_is_not_checked(e: RiskEngine, i: int, amount: u128, n: int)
    requires
        0 <= i < MAX_ACCOUNTS,
        e.slot_used(i),
        0 <= n <= MAX_ACCOUNTS,
    ensures
        ({
            let s = e.with_paid_out(i, amount);
            &&& s.slots_check(n) == e.slots_check(n)
            &&& s.counts_below(n) == e.counts_below(n)
        }),
    decreases n,
{
    broadcast use lemma_ledger_of_account;

    let s = e.with_paid_out(i, amount);
    if n > 0 {
        lemma_capital_is_not_checked(e, i, amount, n - 1);
        assert(s.slot_used(n - 1) == e.slot_used(n - 1));
        assert(s.notional_spec(n - 1, e.last_oracle_price, false) == e.notional_spec(
            n - 1,
            e.last_oracle_price,
            false,
        )) by {
            reveal(RiskEngine::notional_spec);
            reveal(RiskEngine::effective_pos_q_spec);
        }
    }
}

/// A deposit can be taken out again: where an account without a position, without a
/// loss and without fee debt can be settled at all, any amount up to the capital that
/// it then has can be withdrawn instead, whatever backs the profits of others.
pub proof fn law_deposit_can_be_withdrawn(
    e: RiskEngine,
    idx: u16,
    amount: u128,
    price: u64,
    now_slot: u64,
    rate: i128,
    h_min: u64,
    h_max: u64,
    threshold_opt: Option<u128>,
)
    requires
        e.sound(),
        idx < MAX_ACCOUNTS,
        e.accounts@[idx as int].is_riskless(),
        e.settle_account_spec(idx, price, now_slot, rate, h_min, h_max, threshold_opt).1 is Ok,
        amount <= e.settle_account_spec(
            idx,
            price,
            now_slot,
            rate,
            h_min,
            h_max,
            threshold_opt,
        ).0.accounts@[idx as int].capital.get(),
    ensures
        ({
            let settled = e.settle_account_spec(
                idx,
                price,
                now_slot,
                rate,
                h_min,
                h_max,
                threshold_opt,
            ).0;
            e.withdraw_spec(idx, amount, price, now_slot, rate, h_min, h_max, threshold_opt) == (
                settled.with_paid_out(idx as int, amount),
                Ok::<(), RiskError>(()),
            )
        }),
{
    broadcast use {
        step_accrue_and_touch,
        step_finalize_touched,
        step_schedule_resets,
        step_finalize_resets,
        deposit_finalize_touched,
    };

    let i = idx as int;
    let ctx = RiskEngine::admission(h_min, h_max, threshold_opt);
    reveal(RiskEngine::settle_account_spec);
    reveal(RiskEngine::withdraw_spec);
    reveal(RiskEngine::close_spec);
    lemma_settle_instruction(e, i, price, now_slot, rate, ctx);
    let (e1, c, r1) = e.accrue_and_touch_spec(i, ctx, now_slot, price, rate);
    assert(e1.accounts@[i].is_riskless());
    let e2 = e1.finalize_touched_spec(c).0;
    assert(e2.accounts@[i].is_riskless());
    let (e3, c3, r3) = e2.end_resets_spec(c);
    assert(e3.accounts == e2.accounts);
    crate::conservation::law_settlement_conserves(
        e,
        idx,
        price,
        now_slot,
        rate,
        h_min,
        h_max,
        threshold_opt,
    );
    reveal(RiskEngine::public_post);
    lemma_capital_within_total(e3.accounts@, i);
    assert(e2.commit_withdrawal_spec(i, amount) == (
        e2.with_paid_out(i, amount),
        Ok::<(), RiskError>(()),
    )) by {
        reveal(RiskEngine::set_capital_spec);
    }
    assert(e2.withdrawal_check(i, amount, price) is Ok) by {
        reveal(RiskEngine::effective_pos_q_spec);
    }
    lemma_resets_ignore_capital(e2, i, amount, c);
    lemma_capital_is_not_checked(e3, i, amount, MAX_ACCOUNTS as int);
    assert(e3.with_paid_out(i, amount).public_post() is Ok);
}

/// No account holds more capital than all together.
proof fn lemma_capital_within_total(accounts: Seq<Account>, i: int)
    requires
        0 <= i < accounts.len(),
    ensures
        accounts[i].capital.get() <= crate::books::ledger(accounts).0,
    decreases accounts.len(),
{
    lemma_capitals_add(accounts.drop_last());
    if i < accounts.len() - 1 {
        lemma_capital_within_total(accounts.drop_last(), i);
    }
}

proof fn lemma_capitals_add(accounts: Seq<Account>)
    ensures
        0 <= crate::books::ledger(accounts).0,
    decreases accounts.len(),
{
    if accounts.len() > 0 {
        lemma_capitals_add(accounts.drop_last());
    }
}

} // verus!
