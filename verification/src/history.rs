//! Whole histories of a market: whatever sequence of instructions is sent, the
//! market stays sound, and its vault holds what was paid in less what was paid out.

use vstd::prelude::*;

use crate::books::lemma_ledger_of_account;
use crate::constants::{MAX_ACCOUNTS, MAX_ORACLE_PRICE};
use crate::types::{
    Account, LiquidationPolicy, MarketMode, PermissionlessProgressRequest, RecoveryReason,
    ResolveMode, RiskEngine, RiskError, RiskParams,
};

verus! {

/// One instruction with its arguments.
pub enum Instruction<'a> {
    SetOwner { idx: u16, owner: [u8; 32] },
    Deposit { idx: u16, amount: u128, now_slot: u64 },
    Withdraw {
        idx: u16,
        amount: u128,
        price: u64,
        now_slot: u64,
        rate: i128,
        h_min: u64,
        h_max: u64,
        threshold_opt: Option<u128>,
    },
    SettleAccount {
        idx: u16,
        price: u64,
        now_slot: u64,
        rate: i128,
        h_min: u64,
        h_max: u64,
        threshold_opt: Option<u128>,
    },
    ExecuteTrade {
        a: u16,
        b: u16,
        price: u64,
        now_slot: u64,
        size_q: i128,
        exec_price: u64,
        rate: i128,
        fee_bps: u64,
        h_min: u64,
        h_max: u64,
        threshold_opt: Option<u128>,
    },
    Liquidate {
        idx: u16,
        now_slot: u64,
        price: u64,
        policy: LiquidationPolicy,
        rate: i128,
        h_min: u64,
        h_max: u64,
        threshold_opt: Option<u128>,
    },
    KeeperCrank {
        now_slot: u64,
        price: u64,
        candidates: &'a [(u16, Option<LiquidationPolicy>)],
        max_revalidations: u16,
        rate: i128,
        h_min: u64,
        h_max: u64,
        threshold_opt: Option<u128>,
        window: u64,
    },
    ConvertReleased {
        idx: u16,
        x: u128,
        price: u64,
        now_slot: u64,
        rate: i128,
        h_min: u64,
        h_max: u64,
        threshold_opt: Option<u128>,
    },
    CloseAccount {
        idx: u16,
        now_slot: u64,
        price: u64,
        rate: i128,
        h_min: u64,
        h_max: u64,
        threshold_opt: Option<u128>,
    },
    AccrueMarket { now_slot: u64, price: u64, rate: i128 },
    ResolveMarket { mode: ResolveMode, price: u64, live_price: u64, now_slot: u64, rate: i128 },
    Recover { reason: RecoveryReason, now_slot: u64, target: u64 },
    ContinueClose { now_slot: u64 },
    Reconcile { idx: u16 },
    CloseTerminal { idx: u16 },
    CloseTerminalWithFee { idx: u16, fee_rate: u128 },
    ForceClose { idx: u16, fee_rate_opt: Option<u128> },
    ForceCloseNext { scan_limit: u64, fee_rate: u128 },
    Progress { req: PermissionlessProgressRequest<'a> },
    ReclaimEmpty { idx: u16, now_slot: u64 },
    TopUpInsurance { amount: u128, now_slot: u64 },
    CreditFromInsurance { idx: u16, amount: u128, now_slot: u64 },
    WithdrawLiveInsurance { amount: u128, now_slot: u64 },
    WithdrawResolvedInsurance,
    ChargeFee { idx: u16, fee: u128, now_slot: u64 },
    SettleFlatNegative { idx: u16, now_slot: u64 },
    SyncFee { idx: u16, now_slot: u64, fee_rate: u128 },
    DepositFeeCredits { idx: u16, amount: u128, now_slot: u64 },
}

/// What an instruction does: the market after it, whether it succeeded, and what it
/// moved into the vault.
pub struct Outcome {
    pub after: RiskEngine,
    pub ok: bool,
    pub inflow: int,
}

/// An outcome that moves this much into the vault.
pub open spec fn outcome<T>(step: (RiskEngine, Result<T, RiskError>), inflow: int) -> Outcome {
    Outcome { after: step.0, ok: step.1 is Ok, inflow }
}

impl RiskEngine {
    /// What an instruction does to the market.
    pub open spec fn run(self, instruction: Instruction<'_>) -> Outcome {
        match instruction {
            Instruction::SetOwner { idx, owner } => outcome(self.set_owner_spec(idx, owner), 0),
            Instruction::Deposit { idx, amount, now_slot } => outcome(
                self.deposit_spec(idx, amount, now_slot),
                amount as int,
            ),
            Instruction::Withdraw {
                idx,
                amount,
                price,
                now_slot,
                rate,
                h_min,
                h_max,
                threshold_opt,
            } => outcome(
                self.withdraw_spec(
                    idx,
                    amount,
                    price,
                    now_slot,
                    rate,
                    h_min,
                    h_max,
                    threshold_opt,
                ),
                -(amount as int),
            ),
            Instruction::SettleAccount {
                idx,
                price,
                now_slot,
                rate,
                h_min,
                h_max,
                threshold_opt,
            } => outcome(
                self.settle_account_spec(idx, price, now_slot, rate, h_min, h_max, threshold_opt),
                0,
            ),
            Instruction::ExecuteTrade {
                a,
                b,
                price,
                now_slot,
                size_q,
                exec_price,
                rate,
                fee_bps,
                h_min,
                h_max,
                threshold_opt,
            } => outcome(
                self.execute_trade_spec(
                    a,
                    b,
                    price,
                    now_slot,
                    size_q,
                    exec_price,
                    rate,
                    fee_bps,
                    h_min,
                    h_max,
                    threshold_opt,
                ),
                0,
            ),
            Instruction::Liquidate {
                idx,
                now_slot,
                price,
                policy,
                rate,
                h_min,
                h_max,
                threshold_opt,
            } => outcome(
                self.liquidate_spec(
                    idx,
                    now_slot,
                    price,
                    policy,
                    rate,
                    h_min,
                    h_max,
                    threshold_opt,
                ),
                0,
            ),
            Instruction::KeeperCrank {
                now_slot,
                price,
                candidates,
                max_revalidations,
                rate,
                h_min,
                h_max,
                threshold_opt,
                window,
            } => outcome(
                self.keeper_crank_spec(
                    now_slot,
                    price,
                    candidates@,
                    max_revalidations,
                    rate,
                    h_min,
                    h_max,
                    threshold_opt,
                    window,
                ),
                0,
            ),
            Instruction::ConvertReleased {
                idx,
                x,
                price,
                now_slot,
                rate,
                h_min,
                h_max,
                threshold_opt,
            } => outcome(
                self.convert_released_spec(
                    idx,
                    x,
                    price,
                    now_slot,
                    rate,
                    h_min,
                    h_max,
                    threshold_opt,
                ),
                0,
            ),
            Instruction::CloseAccount {
                idx,
                now_slot,
                price,
                rate,
                h_min,
                h_max,
                threshold_opt,
            } => {
                let step = self.close_account_spec(
                    idx,
                    now_slot,
                    price,
                    rate,
                    h_min,
                    h_max,
                    threshold_opt,
                );
                outcome(step, -crate::conservation::paid(step.1))
            },
            Instruction::AccrueMarket { now_slot, price, rate } => outcome(
                self.accrue_market_to_spec(now_slot, price, rate),
                0,
            ),
            Instruction::ResolveMarket { mode, price, live_price, now_slot, rate } => outcome(
                self.resolve_market_spec(mode, price, live_price, now_slot, rate),
                0,
            ),
            Instruction::Recover { reason, now_slot, target } => outcome(
                self.recover_spec(reason, now_slot, target),
                0,
            ),
            Instruction::ContinueClose { now_slot } => outcome(
                self.continue_close_spec(now_slot),
                0,
            ),
            Instruction::Reconcile { idx } => outcome(self.reconcile_spec(idx as int), 0),
            Instruction::CloseTerminal { idx } => {
                let step = self.close_terminal_spec(idx);
                outcome(step, -crate::conservation::paid(step.1))
            },
            Instruction::CloseTerminalWithFee { idx, fee_rate } => {
                let step = self.close_terminal_with_fee_spec(idx, fee_rate);
                outcome(step, -crate::conservation::paid(step.1))
            },
            Instruction::ForceClose { idx, fee_rate_opt } => {
                let step = self.force_close_spec(idx, fee_rate_opt);
                outcome(step, -crate::conservation::paid_by_close(step.1))
            },
            Instruction::ForceCloseNext { scan_limit, fee_rate } => {
                let step = self.force_close_cursor_spec(scan_limit, fee_rate);
                outcome(step, -crate::conservation::paid_by_close(step.1))
            },
            Instruction::Progress { req } => {
                let step = self.progress_spec(req);
                outcome(step, -crate::conservation::paid_by_progress(step.1))
            },
            Instruction::ReclaimEmpty { idx, now_slot } => outcome(
                self.reclaim_spec(idx, now_slot),
                0,
            ),
            Instruction::TopUpInsurance { amount, now_slot } => outcome(
                self.top_up_spec(amount, now_slot),
                amount as int,
            ),
            Instruction::CreditFromInsurance { idx, amount, now_slot } => outcome(
                self.credit_from_insurance_spec(idx, amount, now_slot),
                0,
            ),
            Instruction::WithdrawLiveInsurance { amount, now_slot } => outcome(
                self.withdraw_live_insurance_spec(amount, now_slot),
                -(amount as int),
            ),
            Instruction::WithdrawResolvedInsurance => {
                let step = self.withdraw_resolved_insurance_spec();
                outcome(step, -crate::conservation::paid(step.1))
            },
            Instruction::ChargeFee { idx, fee, now_slot } => outcome(
                self.charge_account_fee_spec(idx, fee, now_slot),
                0,
            ),
            Instruction::SettleFlatNegative { idx, now_slot } => outcome(
                self.settle_flat_negative_spec(idx, now_slot),
                0,
            ),
            Instruction::SyncFee { idx, now_slot, fee_rate } => outcome(
                self.sync_fee_instruction_spec(idx, now_slot, fee_rate),
                0,
            ),
            Instruction::DepositFeeCredits { idx, amount, now_slot } => {
                let step = self.deposit_fee_credits_spec(idx, amount, now_slot);
                outcome(step, crate::conservation::paid(step.1))
            },
        }
    }

    /// The market after a history, and what the history moved into the vault. An
    /// instruction that fails is rolled back by its caller and leaves no trace.
    pub open spec fn run_all(self, history: Seq<Instruction<'_>>) -> (RiskEngine, int)
        decreases history.len(),
    {
        if history.len() == 0 {
            (self, 0)
        } else {
            let (e, inflow) = self.run_all(history.drop_last());
            let step = e.run(history.last());
            if step.ok {
                (step.after, inflow + step.inflow)
            } else {
                (e, inflow)
            }
        }
    }
}

proof fn lemma_owner_is_not_checked(e: RiskEngine, i: int, owner: [u8; 32], n: int)
    requires
        0 <= i < MAX_ACCOUNTS,
        e.slot_used(i),
        0 <= n <= MAX_ACCOUNTS,
    ensures
        ({
            let s = e.with_account(i, Account { owner, ..e.accounts@[i] });
            &&& s.slots_check(n) == e.slots_check(n)
            &&& s.counts_below(n) == e.counts_below(n)
        }),
    decreases n,
{
    broadcast use lemma_ledger_of_account;

    let s = e.with_account(i, Account { owner, ..e.accounts@[i] });
    if n > 0 {
        lemma_owner_is_not_checked(e, i, owner, n - 1);
        assert(s.slot_used(n - 1) == e.slot_used(n - 1));
        assert(s.notional_spec(n - 1, e.last_oracle_price, false) == e.notional_spec(
            n - 1,
            e.last_oracle_price,
            false,
        )) by {
            reveal(RiskEngine::notional_spec);
            reveal(RiskEngine::effective_pos_q_spec);
        }
    }
}

/// Claiming an account moves no value and keeps the books.
pub proof fn law_claim_conserves(e: RiskEngine, idx: u16, owner: [u8; 32])
    ensures
        ({
            let (after, r) = e.set_owner_spec(idx, owner);
            e.conserved(after, 0, r is Ok)
        }),
{
    broadcast use lemma_ledger_of_account;

    reveal(RiskEngine::public_post);
    if e.account_exists(idx as int) {
        lemma_owner_is_not_checked(e, idx as int, owner, MAX_ACCOUNTS as int);
    }
}

/// Every instruction that succeeds on a sound market leaves it sound, with its vault
/// changed by exactly what the instruction moved.
pub proof fn law_every_instruction_conserves(e: RiskEngine, instruction: Instruction<'_>)
    ensures
        e.conserved(
            e.run(instruction).after,
            e.run(instruction).inflow,
            e.run(instruction).ok,
        ),
{
    match instruction {
        Instruction::SetOwner { idx, owner } => law_claim_conserves(e, idx, owner),
        Instruction::Deposit { idx, amount, now_slot } => {
            crate::conservation::law_deposit_conserves(e, idx, amount, now_slot)
        },
        Instruction::Withdraw { idx, amount, price, now_slot, rate, h_min, h_max, threshold_opt } => {
            crate::conservation::law_withdrawal_conserves(
                e,
                idx,
                amount,
                price,
                now_slot,
                rate,
                h_min,
                h_max,
                threshold_opt,
            )
        },
        Instruction::SettleAccount { idx, price, now_slot, rate, h_min, h_max, threshold_opt } => {
            crate::conservation::law_settlement_conserves(
                e,
                idx,
                price,
                now_slot,
                rate,
                h_min,
                h_max,
                threshold_opt,
            )
        },
        Instruction::ExecuteTrade {
            a,
            b,
            price,
            now_slot,
            size_q,
            exec_price,
            rate,
            fee_bps,
            h_min,
            h_max,
            threshold_opt,
        } => {
            crate::conservation::law_trade_conserves(
                e,
                a,
                b,
                price,
                now_slot,
                size_q,
                exec_price,
                rate,
                fee_bps,
                h_min,
                h_max,
                threshold_opt,
            )
        },
        Instruction::Liquidate { idx, now_slot, price, policy, rate, h_min, h_max, threshold_opt } => {
            crate::conservation::law_liquidation_conserves(
                e,
                idx,
                now_slot,
                price,
                policy,
                rate,
                h_min,
                h_max,
                threshold_opt,
            )
        },
        Instruction::KeeperCrank {
            now_slot,
            price,
            candidates,
            max_revalidations,
            rate,
            h_min,
            h_max,
            threshold_opt,
            window,
        } => {
            crate::conservation::law_crank_conserves(
                e,
                now_slot,
                price,
                candidates@,
                max_revalidations,
                rate,
                h_min,
                h_max,
                threshold_opt,
                window,
            )
        },
        Instruction::ConvertReleased { idx, x, price, now_slot, rate, h_min, h_max, threshold_opt } => {
            crate::conservation::law_conversion_conserves(
                e,
                idx,
                x,
                price,
                now_slot,
                rate,
                h_min,
                h_max,
                threshold_opt,
            )
        },
        Instruction::CloseAccount { idx, now_slot, price, rate, h_min, h_max, threshold_opt } => {
            crate::conservation::law_account_close_conserves(
                e,
                idx,
                now_slot,
                price,
                rate,
                h_min,
                h_max,
                threshold_opt,
            )
        },
        Instruction::AccrueMarket { now_slot, price, rate } => {
            crate::conservation::law_accrual_conserves(e, now_slot, price, rate)
        },
        Instruction::ResolveMarket { mode, price, live_price, now_slot, rate } => {
            crate::conservation::law_resolution_conserves(
                e,
                mode,
                price,
                live_price,
                now_slot,
                rate,
            )
        },
        Instruction::Recover { reason, now_slot, target } => {
            crate::conservation::law_recovery_conserves(e, reason, now_slot, target)
        },
        Instruction::ContinueClose { now_slot } => {
            crate::conservation::law_close_continuation_conserves(e, now_slot)
        },
        Instruction::Reconcile { idx } => {
            crate::conservation::law_reconciliation_conserves(e, idx as int)
        },
        Instruction::CloseTerminal { idx } => {
            crate::conservation::law_terminal_close_conserves(e, idx)
        },
        Instruction::CloseTerminalWithFee { idx, fee_rate } => {
            crate::conservation::law_terminal_close_with_fee_conserves(e, idx, fee_rate)
        },
        Instruction::ForceClose { idx, fee_rate_opt } => {
            crate::conservation::law_forced_close_conserves(e, idx, fee_rate_opt)
        },
        Instruction::ForceCloseNext { scan_limit, fee_rate } => {
            crate::conservation::law_cursor_close_conserves(e, scan_limit, fee_rate)
        },
        Instruction::Progress { req } => crate::conservation::law_progress_conserves(e, req),
        Instruction::ReclaimEmpty { idx, now_slot } => {
            crate::conservation::law_reclaim_conserves(e, idx, now_slot)
        },
        Instruction::TopUpInsurance { amount, now_slot } => {
            crate::conservation::law_top_up_conserves(e, amount, now_slot)
        },
        Instruction::CreditFromInsurance { idx, amount, now_slot } => {
            crate::conservation::law_insurance_credit_conserves(e, idx, amount, now_slot)
        },
        Instruction::WithdrawLiveInsurance { amount, now_slot } => {
            crate::conservation::law_live_insurance_withdrawal_conserves(e, amount, now_slot)
        },
        Instruction::WithdrawResolvedInsurance => {
            crate::conservation::law_resolved_insurance_withdrawal_conserves(e)
        },
        Instruction::ChargeFee { idx, fee, now_slot } => {
            crate::conservation::law_fee_charge_conserves(e, idx, fee, now_slot)
        },
        Instruction::SettleFlatNegative { idx, now_slot } => {
            crate::conservation::law_flat_loss_settlement_conserves(e, idx, now_slot)
        },
        Instruction::SyncFee { idx, now_slot, fee_rate } => {
            crate::conservation::law_fee_sync_conserves(e, idx, now_slot, fee_rate)
        },
        Instruction::DepositFeeCredits { idx, amount, now_slot } => {
            crate::conservation::law_fee_credit_deposit_conserves(e, idx, amount, now_slot)
        },
    }
}

/// Accounts that hold nothing add up to nothing.
pub proof fn lemma_empty_ledger(accounts: Seq<Account>)
    requires
        forall|i: int| 0 <= i < accounts.len() ==> #[trigger] accounts[i].entry() == (0int, 0int, 0int),
    ensures
        crate::books::ledger(accounts) == (0int, 0int, 0int),
    decreases accounts.len(),
{
    if accounts.len() > 0 {
        let rest = accounts.drop_last();
        assert forall|i: int| 0 <= i < rest.len() implies #[trigger] rest[i].entry() == (
            0int,
            0int,
            0int,
        ) by {
            assert(accounts[i].entry() == (0int, 0int, 0int));
        }
        lemma_empty_ledger(rest);
        assert(accounts[accounts.len() - 1].entry() == (0int, 0int, 0int));
    }
}

/// A market without accounts has sound slots and counts nothing.
pub proof fn lemma_blank_slots(e: RiskEngine, n: int)
    requires
        0 <= n <= MAX_ACCOUNTS,
        forall|i: int| 0 <= i < MAX_ACCOUNTS ==> !#[trigger] e.slot_used(i),
        forall|i: int| 0 <= i < MAX_ACCOUNTS ==> (#[trigger] e.accounts@[i]).is_blank(),
    ensures
        e.slots_check(n) is Ok,
        ({
            let c = e.counts_below(n);
            &&& c.used == 0
            &&& c.negative == 0
            &&& c.stored_long == 0
            &&& c.stored_short == 0
            &&& c.stale_long == 0
            &&& c.stale_short == 0
        }),
    decreases n,
{
    if n > 0 {
        lemma_blank_slots(e, n - 1);
        assert(!e.slot_used(n - 1));
        assert(e.accounts@[n - 1].is_blank());
    }
}

proof fn lemma_fresh_free_list(e: RiskEngine)
    requires
        forall|i: int| 0 <= i < MAX_ACCOUNTS ==> !#[trigger] e.slot_used(i),
        e.free_head == 0,
        e.next_free@ == RiskEngine::fresh_next_free(),
        e.prev_free@ == RiskEngine::fresh_prev_free(),
    ensures
        e.free_list_ok(),
{
    reveal(crate::slab::free_slots_linked);
    assert(!e.slot_used(0));
    assert forall|i: int| 0 <= i < MAX_ACCOUNTS implies #[trigger] crate::slab::links_agree(
        e.used@,
        e.free_head,
        e.next_free@,
        e.prev_free@,
        i,
    ) by {
        if i > 0 {
            assert(!e.slot_used(i - 1));
        }
        if i < MAX_ACCOUNTS - 1 {
            assert(!e.slot_used(i + 1));
        }
    }
}

proof fn lemma_blank_market_is_sound(
    params: RiskParams,
    init_slot: u64,
    init_price: u64,
    accounts: [Account; MAX_ACCOUNTS],
)
    requires
        params.valid(),
        0 < init_price <= MAX_ORACLE_PRICE,
        forall|i: int| 0 <= i < MAX_ACCOUNTS ==> (#[trigger] accounts@[i]).is_blank(),
    ensures
        RiskEngine::genesis(params, init_slot, init_price, accounts).sound(),
{
    let e = RiskEngine::genesis(params, init_slot, init_price, accounts);
    assert forall|i: int| 0 <= i < MAX_ACCOUNTS implies !#[trigger] e.slot_used(i) by {
        crate::context::lemma_no_bit_of_zero((i % 64) as u64);
    }
    assert forall|i: int| 0 <= i < e.accounts@.len() implies #[trigger] e.accounts@[i].entry() == (
        0int,
        0int,
        0int,
    ) by {
        assert(e.accounts@[i].is_blank());
    }
    lemma_empty_ledger(e.accounts@);
    lemma_blank_slots(e, MAX_ACCOUNTS as int);
    crate::context::lemma_array_of_seq(e.next_free, RiskEngine::fresh_next_free());
    crate::context::lemma_array_of_seq(e.prev_free, RiskEngine::fresh_prev_free());
    lemma_fresh_free_list(e);
    reveal(RiskEngine::public_post);
}

/// A new market with valid parameters is sound, and its vault is empty.
pub proof fn law_new_market_is_sound(params: RiskParams, init_slot: u64, init_price: u64)
    requires
        params.valid(),
        0 < init_price <= MAX_ORACLE_PRICE,
    ensures
        ({
            let e = RiskEngine::genesis(
                params,
                init_slot,
                init_price,
                [Account::empty_spec(); MAX_ACCOUNTS],
            );
            &&& e.sound()
            &&& e.vault.get() == 0
        }),
{
    let accounts = [Account::empty_spec(); MAX_ACCOUNTS];
    assert forall|i: int| 0 <= i < MAX_ACCOUNTS implies (#[trigger] accounts@[i]).is_blank() by {
        assert(accounts@[i] == Account::empty_spec());
    }
    lemma_blank_market_is_sound(params, init_slot, init_price, accounts);
}

/// A market that is started anew in place is a new market, whatever it was before: it
/// is sound, its vault is empty, and nothing of its accounts is left.
pub proof fn law_restarted_market_is_sound(
    e: RiskEngine,
    params: RiskParams,
    init_slot: u64,
    init_price: u64,
)
    requires
        e.init_in_place_spec(params, init_slot, init_price).1 is Ok,
    ensures
        e.init_in_place_spec(params, init_slot, init_price).0.sound(),
        e.init_in_place_spec(params, init_slot, init_price).0.vault.get() == 0,
        e.init_in_place_spec(params, init_slot, init_price).0 == RiskEngine::genesis(
            params,
            init_slot,
            init_price,
            [Account::empty_spec(); MAX_ACCOUNTS],
        ),
        forall|i: int|
            0 <= i < MAX_ACCOUNTS ==> #[trigger] e.init_in_place_spec(
                params,
                init_slot,
                init_price,
            ).0.accounts@[i] == Account::empty_spec(),
{
    law_new_market_is_sound(params, init_slot, init_price);
}

/// Whatever is sent to a sound market, it stays sound, and its vault changes by
/// exactly what the history moved.
pub proof fn law_every_history_conserves(e: RiskEngine, history: Seq<Instruction<'_>>)
    requires
        e.sound(),
    ensures
        e.run_all(history).0.sound(),
        e.run_all(history).0.params == e.params,
        e.run_all(history).0.vault.get() == e.vault.get() + e.run_all(history).1,
    decreases history.len(),
{
    if history.len() > 0 {
        law_every_history_conserves(e, history.drop_last());
        law_every_instruction_conserves(e.run_all(history.drop_last()).0, history.last());
    }
}

/// The sides of a market follow their cycle through every history: epochs only count
/// up, within an epoch that is not the last one the multiplier only falls, the losses
/// booked on the side only grow and a side that drains does not reopen, and a side
/// whose multiplier is below the threshold drains.
pub proof fn law_sides_follow_their_cycle(e: RiskEngine, history: Seq<Instruction<'_>>)
    requires
        e.sound(),
    ensures
        e.sides_move_on(e.run_all(history).0),
        e.run_all(history).0.sides_in_range(),
    decreases history.len(),
{
    law_every_history_conserves(e, history);
    if history.len() > 0 {
        let rest = history.drop_last();
        law_every_history_conserves(e, rest);
        law_sides_follow_their_cycle(e, rest);
        law_every_instruction_conserves(e.run_all(rest).0, history.last());
    }
}

/// Time does not run backwards: no history lowers the present slot, the slot up to
/// which the market has accrued, or the count of sweeps.
pub proof fn law_time_does_not_run_backwards(e: RiskEngine, history: Seq<Instruction<'_>>)
    requires
        e.sound(),
    ensures
        e.clock_moves_on(e.run_all(history).0),
    decreases history.len(),
{
    if history.len() > 0 {
        let rest = history.drop_last();
        law_every_history_conserves(e, rest);
        law_time_does_not_run_backwards(e, rest);
        law_every_instruction_conserves(e.run_all(rest).0, history.last());
    }
}

/// A resolution is final: whatever is sent to a resolved market, it stays resolved on
/// the same terms, and once its payout ratio is locked everyone is paid by that ratio.
pub proof fn law_resolution_is_final(e: RiskEngine, history: Seq<Instruction<'_>>)
    requires
        e.sound(),
        e.market_mode == MarketMode::Resolved,
    ensures
        e.run_all(history).0.market_mode == MarketMode::Resolved,
        e.settlement_stands(e.run_all(history).0),
    decreases history.len(),
{
    if history.len() > 0 {
        let rest = history.drop_last();
        law_every_history_conserves(e, rest);
        law_resolution_is_final(e, rest);
        law_every_instruction_conserves(e.run_all(rest).0, history.last());
    }
}

/// Nobody takes out more than exists: what an instruction pays out was in the vault,
/// and what is left still covers the capital of every account and the insurance fund.
pub proof fn law_nobody_takes_out_more_than_exists(e: RiskEngine, instruction: Instruction<'_>)
    requires
        e.sound(),
        e.run(instruction).ok,
    ensures
        -e.run(instruction).inflow <= e.vault.get(),
        e.run(instruction).after.vault.get() >= crate::books::ledger(
            e.run(instruction).after.accounts@,
        ).0 + e.run(instruction).after.insurance_fund.balance.get(),
{
    law_every_instruction_conserves(e, instruction);
    reveal(RiskEngine::public_post);
}

/// In every state that a market reaches from its start, the vault holds what was
/// paid in less what was paid out, that covers all capital and the insurance fund,
/// and the open interest of the two sides is equal.
pub proof fn law_value_is_conserved(
    params: RiskParams,
    init_slot: u64,
    init_price: u64,
    history: Seq<Instruction<'_>>,
)
    requires
        params.valid(),
        0 < init_price <= MAX_ORACLE_PRICE,
    ensures
        ({
            let start = RiskEngine::genesis(
                params,
                init_slot,
                init_price,
                [Account::empty_spec(); MAX_ACCOUNTS],
            );
            let (e, inflow) = start.run_all(history);
            &&& e.sound()
            &&& e.vault.get() == inflow
            &&& e.vault.get() >= crate::books::ledger(e.accounts@).0
                + e.insurance_fund.balance.get()
            &&& e.oi_eff_long_q == e.oi_eff_short_q
            &&& e.params == params
        }),
{
    let start = RiskEngine::genesis(
        params,
        init_slot,
        init_price,
        [Account::empty_spec(); MAX_ACCOUNTS],
    );
    law_new_market_is_sound(params, init_slot, init_price);
    law_every_history_conserves(start, history);
    reveal(RiskEngine::public_post);
}

} // verus!
