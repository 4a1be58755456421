//! What an account is paid when it is closed, to the unit.

use vstd::prelude::*;

use crate::books::{
    lemma_ledger_of_account, step_accrue_and_touch, step_finalize_touched, step_reconcile,
    step_set_pnl,
};
use crate::constants::MAX_ACCOUNTS;
use crate::frames::{
    frame_charge_fee, frame_end_resets, frame_finalize_touched, frame_flat_negative,
    frame_set_pnl, frame_settle_losses, lemma_same_held,
};
use crate::margin_laws::law_effective_position_is_what_is_held;
use crate::measures::{greater, lesser};
use crate::settlement_laws::lemma_touched_owns;
use crate::types::{MarketMode, ResolvedCloseResult, RiskEngine};

verus! {

/// Freeing a slot pays nothing out.
pub proof fn lemma_release(e: RiskEngine, idx: u16)
    requires
        e.release_slot(idx).1 is Ok,
    ensures
        ({
            let s = e.release_slot(idx).0;
            &&& s.vault == e.vault
            &&& !s.slot_used(idx as int)
            &&& e.slot_used(idx as int)
            &&& e.accounts@[idx as int].capital.0 == 0
            &&& e.accounts@[idx as int].pnl == 0
            &&& e.accounts@[idx as int].position_basis_q == 0
            &&& e.accounts@[idx as int].fee_credits.0 <= 0
        }),
{
    reveal(RiskEngine::release_slot);
    reveal(RiskEngine::free_slot_spec);
    reveal(RiskEngine::sweep_empty_market_surplus_spec);
    let i = idx as int;
    let emptied = e.with_account(i, e.accounts@[i].cleared_spec(0));
    emptied.lemma_with_unused(i);
    let s = e.release_slot(idx).0;
    assert(s.slot_used(i) == emptied.with_unused(i).slot_used(i));
}

/// Closing an account of a live market, as an instruction. It is refused unless the account
/// holds nothing. What is paid out is all that the account owns once it is up to date, the
/// vault has that much less, and the slot is free.
pub proof fn law_account_close_by_instruction(
    e: RiskEngine,
    idx: u16,
    now_slot: u64,
    price: u64,
    rate: i128,
    h_min: u64,
    h_max: u64,
    threshold_opt: Option<u128>,
)
    requires
        e.close_account_spec(idx, now_slot, price, rate, h_min, h_max, threshold_opt).1 is Ok,
    ensures
        ({
            let (s, r) = e.close_account_spec(
                idx,
                now_slot,
                price,
                rate,
                h_min,
                h_max,
                threshold_opt,
            );
            let i = idx as int;
            let m = e.accrue_market_to_spec(now_slot, price, rate).0;
            let a = e.accounts@[i];
            let all = a.capital.0 + a.pnl + m.unsettled_gain(i);
            &&& e.market_mode == MarketMode::Live
            &&& e.slot_used(i)
            &&& e.held(i) == 0
            &&& r->Ok_0 == greater(all, 0) - a.owes()
            &&& s.vault.0 == e.vault.0 - r->Ok_0
            &&& !s.slot_used(i)
        }),
{
    broadcast use {step_accrue_and_touch, step_finalize_touched};

    reveal(RiskEngine::close_account_spec);
    let i = idx as int;
    let ctx = RiskEngine::admission(h_min, h_max, threshold_opt);
    lemma_touched_owns(e, i, ctx, now_slot, price, rate);
    let (t, c, _) = e.accrue_and_touch_spec(i, ctx, now_slot, price, rate);
    frame_finalize_touched(t, c, i);
    let u = t.finalize_touched_spec(c).0;
    lemma_same_held(t, u, i);
    law_effective_position_is_what_is_held(u, i, false);
    reveal(RiskEngine::account_paid_out);
    reveal(RiskEngine::set_capital_spec);
    let paid = u.accounts@[i].capital.0;
    let v = (RiskEngine {
        vault: crate::int128::U128((u.vault.0 - paid) as u128),
        ..u
    }).set_capital_spec(i, 0).0;
    frame_end_resets(v, c);
    lemma_release(v.end_resets_spec(c).0, idx);
}

impl RiskEngine {
    /// Whether nothing stands in the way of paying profits out: no position is left to
    /// settle and no loss to cover.
    pub open spec fn is_wound_up(self) -> bool {
        &&& self.stored_pos_count_long == 0
        &&& self.stored_pos_count_short == 0
        &&& self.stale_account_count_long == 0
        &&& self.stale_account_count_short == 0
        &&& self.neg_pnl_account_count == 0
    }

    /// What a profit is paid out at: its share in what the vault held beyond capital and
    /// insurance when the first profit was paid.
    pub open spec fn pays_for(self, profit: int) -> int {
        if self.resolved_payout_ready != 0 {
            profit * self.resolved_payout_h_num / (self.resolved_payout_h_den as int)
        } else {
            profit * lesser(self.backing(), self.pnl_pos_tot as int) / (self.pnl_pos_tot as int)
        }
    }

    /// What account `i` is paid once it is closed: its capital and the payout of its profit,
    /// less what it owes of that.
    pub open spec fn is_due(self, i: int) -> int {
        let a = self.accounts@[i];
        let all = a.capital.0 + if a.pnl > 0 {
            self.pays_for(a.pnl as int)
        } else {
            0
        };
        all - lesser(a.owes(), all)
    }
}

/// Closing an account of a settled market pays exactly what is due: capital, and profit at
/// the locked ratio, less owed fees. The account must hold nothing and have no loss, and
/// with a profit everything else must be wound up first.
pub proof fn law_terminal_close_pays_what_is_due(e: RiskEngine, idx: u16)
    requires
        e.close_terminal_spec(idx).1 is Ok,
    ensures
        ({
            let (s, r) = e.close_terminal_spec(idx);
            let a = e.accounts@[idx as int];
            &&& e.market_mode == MarketMode::Resolved
            &&& e.slot_used(idx as int)
            &&& a.position_basis_q == 0
            &&& a.pnl >= 0
            &&& a.pnl > 0 ==> e.is_wound_up()
            &&& r->Ok_0 == e.is_due(idx as int)
            &&& s.vault.0 == e.vault.0 - r->Ok_0
            &&& !s.slot_used(idx as int)
        }),
{
    broadcast use {lemma_ledger_of_account, frame_set_pnl};

    reveal(RiskEngine::close_terminal_spec);
    let i = idx as int;
    assert(0 <= i < MAX_ACCOUNTS) by {
        reveal(RiskEngine::validate_shape_at_spec);
    }
    lemma_terminal_closed(e, idx);
}

proof fn lemma_terminal_closed(e: RiskEngine, idx: u16)
    requires
        idx < MAX_ACCOUNTS,
        e.market_mode == MarketMode::Resolved,
        e.accounts@[idx as int].pnl >= 0,
        e.terminal_closed(idx).1 is Ok,
    ensures
        ({
            let (s, r) = e.terminal_closed(idx);
            &&& e.slot_used(idx as int)
            &&& r->Ok_0 == e.is_due(idx as int)
            &&& s.vault.0 == e.vault.0 - r->Ok_0
            &&& !s.slot_used(idx as int)
        }),
{
    broadcast use {lemma_ledger_of_account, frame_set_pnl, step_set_pnl};

    let i = idx as int;
    let e1 = e.with_reserve_released(i);
    reveal(RiskEngine::profit_paid);
    let e2 = e1.profit_paid(i).0;
    reveal(RiskEngine::set_capital_spec);
    assert(e2.vault == e.vault && e2.accounts@[i].fee_credits == e.accounts@[i].fee_credits
        && e2.accounts@[i].capital.0 == e.accounts@[i].capital.0 + if e.accounts@[i].pnl > 0 {
        e.pays_for(e.accounts@[i].pnl as int)
    } else {
        0
    });
    reveal(RiskEngine::terminal_released);
    reveal(RiskEngine::fee_debt_sweep_spec);
    let e3 = e2.fee_debt_sweep_spec(i).0;
    let e4 = e3.with_debt_forgiven(i);
    let cap = e4.accounts@[i].capital.0;
    let e5 = (RiskEngine {
        vault: crate::int128::U128((e4.vault.0 - cap) as u128),
        ..e4
    }).set_capital_spec(i, 0).0;
    lemma_release(e5, idx);
}

impl RiskEngine {
    /// What account `i` of a settled market has gained, or lost, on the position that it
    /// still has: up to the settlement price.
    pub open spec fn final_gain(self, i: int) -> int {
        let b = self.accounts@[i].position_basis_q;
        if b > 0 {
            self.gain_to(
                i,
                self.adl_epoch_start_k_long + self.resolved_k_long_terminal_delta,
                self.f_epoch_start_long_num as int,
            )
        } else if b < 0 {
            self.gain_to(
                i,
                self.adl_epoch_start_k_short + self.resolved_k_short_terminal_delta,
                self.f_epoch_start_short_num as int,
            )
        } else {
            0
        }
    }
}

/// Settling an account of a settled market leaves it without a position. Its profit moves
/// by what the position gained or lost up to the settlement price, a loss is paid with its
/// own capital as far as that goes, and what is left of a loss is taken from it.
pub proof fn law_reconciliation_is_exact(e: RiskEngine, i: int)
    requires
        e.reconcile_spec(i).1 is Ok,
    ensures
        ({
            let s = e.reconcile_spec(i).0;
            let a = e.accounts@[i];
            let b = s.accounts@[i];
            let pnl = a.pnl + e.final_gain(i);
            let paid = lesser(greater(-pnl, 0), a.capital.0 as int);
            &&& e.market_mode == MarketMode::Resolved
            &&& 0 <= i < MAX_ACCOUNTS
            &&& b.position_basis_q == 0
            &&& b.capital.0 == a.capital.0 - paid
            &&& b.pnl == greater(pnl, 0)
            &&& b.fee_credits == a.fee_credits
            &&& s.c_tot.0 == e.c_tot.0 - paid
            &&& s.vault == e.vault
            &&& s.pnl_pos_tot == e.pnl_pos_tot - a.profit() + b.profit()
        }),
{
    broadcast use {
        lemma_ledger_of_account,
        frame_set_pnl,
        frame_settle_losses,
        frame_flat_negative,
    };

    assert(0 <= i < MAX_ACCOUNTS) by {
        reveal(RiskEngine::reconcile_spec);
        reveal(RiskEngine::validate_shape_at_spec);
    }
    reveal(RiskEngine::reconcile_spec);
    let e1 = e.with_reserve_released(i);
    let e2 = e1.position_reconciled(i).0;
    lemma_position_reconciled(e1, i);
    assert(e1.final_gain(i) == e.final_gain(i));
    let e3 = e2.settle_losses_spec(i, None).0;
    let e4 = e3.resolve_flat_negative_spec(i, None).0;
    assert(e3.held(i) == 0);
}

proof fn lemma_position_reconciled(e: RiskEngine, i: int)
    requires
        0 <= i < MAX_ACCOUNTS,
        e.position_reconciled(i).1 is Ok,
    ensures
        ({
            let s = e.position_reconciled(i).0;
            let a = e.accounts@[i];
            let b = s.accounts@[i];
            &&& b.position_basis_q == 0
            &&& b.capital == a.capital
            &&& b.pnl == a.pnl + e.final_gain(i)
            &&& b.fee_credits == a.fee_credits
            &&& s.c_tot == e.c_tot
            &&& s.vault == e.vault
            &&& s.pnl_pos_tot == e.pnl_pos_tot - a.profit() + b.profit()
        }),
{
    broadcast use {lemma_ledger_of_account, frame_set_pnl};

    reveal(RiskEngine::position_reconciled);
    reveal(RiskEngine::set_position_basis_q_inner_spec);
}

/// A forced close settles the account and then closes it, with exactly what is due; with a
/// profit only once everything else is wound up, and until then it stays.
pub proof fn law_forced_close_pays_what_is_due(e: RiskEngine, idx: u16)
    requires
        e.force_close_spec(idx, None).1 is Ok,
    ensures
        ({
            let (s, r) = e.force_close_spec(idx, None);
            let i = idx as int;
            let t = e.reconcile_spec(i).0;
            let waits = t.accounts@[i].pnl > 0 && !t.is_wound_up();
            &&& e.reconcile_spec(i).1 is Ok
            &&& waits ==> r->Ok_0 == ResolvedCloseResult::ProgressOnly && s.vault == e.vault
                && s.slot_used(i)
            &&& !waits ==> r->Ok_0 == ResolvedCloseResult::Closed(t.is_due(i) as u128)
                && s.vault.0 == e.vault.0 - t.is_due(i) && !s.slot_used(i)
        }),
{
    reveal(RiskEngine::force_close_spec);
    let i = idx as int;
    law_reconciliation_is_exact(e, i);
    let t = e.reconcile_spec(i).0;
    let u = t.with_ready_sides();
    assert(t.slot_used(i)) by {
        broadcast use {step_reconcile};

        assert(e.slot_used(i)) by {
            reveal(RiskEngine::reconcile_spec);
            reveal(RiskEngine::validate_shape_at_spec);
        }
    }
    assert(u.is_due(i) == t.is_due(i));
    if u.close_terminal_spec(idx).1 is Ok {
        law_terminal_close_pays_what_is_due(u, idx);
    }
}

impl RiskEngine {
    /// Recurring fee of account `i` up to the settlement, up to the largest fee.
    pub open spec fn last_fee(self, i: int, rate: int) -> int {
        lesser(
            rate * (self.resolved_slot - self.accounts@[i].last_fee_slot),
            crate::constants::MAX_PROTOCOL_FEE_ABS as int,
        )
    }

    /// What account `i` is paid once it is closed with a recurring fee up to the settlement:
    /// what its capital pays of the fee is gone, and what it owes of it is kept back.
    pub open spec fn is_due_after_fee(self, i: int, rate: int) -> int {
        let a = self.accounts@[i];
        let fee = self.last_fee(i, rate);
        let paid = lesser(fee, a.capital.0 as int);
        let owed = lesser(fee - paid, a.fee_credits.0 + i128::MAX);
        let all = a.capital.0 - paid + if a.pnl > 0 {
            self.pays_for(a.pnl as int)
        } else {
            0
        };
        all - lesser(a.owes() + owed, all)
    }
}

/// Closing an account of a settled market with a recurring fee charges the fee up to the
/// settlement and then pays exactly what is due.
pub proof fn law_terminal_close_with_fee_pays_what_is_due(e: RiskEngine, idx: u16, rate: u128)
    requires
        e.close_terminal_with_fee_spec(idx, rate).1 is Ok,
    ensures
        ({
            let (s, r) = e.close_terminal_with_fee_spec(idx, rate);
            let a = e.accounts@[idx as int];
            &&& e.market_mode == MarketMode::Resolved
            &&& a.position_basis_q == 0
            &&& a.pnl >= 0
            &&& a.pnl > 0 ==> e.is_wound_up()
            &&& a.last_fee_slot <= e.resolved_slot
            &&& r->Ok_0 == e.is_due_after_fee(idx as int, rate as int)
            &&& s.vault.0 == e.vault.0 - r->Ok_0
            &&& !s.slot_used(idx as int)
        }),
{
    reveal(RiskEngine::close_terminal_with_fee_spec);
    let i = idx as int;
    assert(0 <= i < MAX_ACCOUNTS) by {
        reveal(RiskEngine::validate_shape_at_spec);
    }
    lemma_fee_synced(e, i, rate);
    lemma_terminal_closed(e.sync_fee_spec(i, e.resolved_slot, rate).0, idx);
}

proof fn lemma_fee_synced(e: RiskEngine, i: int, rate: u128)
    requires
        0 <= i < MAX_ACCOUNTS,
        e.sync_fee_spec(i, e.resolved_slot, rate).1 is Ok,
    ensures
        ({
            let t = e.sync_fee_spec(i, e.resolved_slot, rate).0;
            &&& t.is_due(i) == e.is_due_after_fee(i, rate as int)
            &&& t.vault == e.vault
            &&& t.market_mode == e.market_mode
            &&& t.accounts@[i].pnl == e.accounts@[i].pnl
            &&& t.accounts@[i].position_basis_q == e.accounts@[i].position_basis_q
            &&& e.accounts@[i].last_fee_slot <= e.resolved_slot
            &&& t.used == e.used
            &&& t.is_wound_up() == e.is_wound_up()
        }),
{
    broadcast use {lemma_ledger_of_account, frame_charge_fee};

    reveal(RiskEngine::sync_fee_spec);
    reveal(RiskEngine::charge_fee_spec);
    reveal(RiskEngine::set_capital_spec);
    let dt = e.resolved_slot - e.accounts@[i].last_fee_slot;
    assert(rate * 0 == 0) by (nonlinear_arith);
    assert(rate == 0 ==> rate * dt == 0) by (nonlinear_arith);
    assert(dt >= 0 ==> rate * dt >= 0) by (nonlinear_arith);
    assert(i128::MIN < e.accounts@[i].fee_credits.0 <= 0) by {
        reveal(RiskEngine::validate_shape_at_spec);
    }
}

/// A forced close with a recurring fee settles the account, charges the fee up to the
/// settlement, and closes it with exactly what is due, or lets it wait as one without a fee
/// would.
pub proof fn law_forced_close_with_fee_pays_what_is_due(e: RiskEngine, idx: u16, rate: u128)
    requires
        e.force_close_spec(idx, Some(rate)).1 is Ok,
    ensures
        ({
            let (s, r) = e.force_close_spec(idx, Some(rate));
            let i = idx as int;
            let t = e.reconcile_spec(i).0;
            let waits = t.accounts@[i].pnl > 0 && !t.is_wound_up();
            let due = t.is_due_after_fee(i, rate as int);
            &&& e.reconcile_spec(i).1 is Ok
            &&& waits ==> r->Ok_0 == ResolvedCloseResult::ProgressOnly && s.vault == e.vault
            &&& !waits ==> r->Ok_0 == ResolvedCloseResult::Closed(due as u128) && s.vault.0
                == e.vault.0 - due && !s.slot_used(i)
        }),
{
    reveal(RiskEngine::force_close_spec);
    let i = idx as int;
    law_reconciliation_is_exact(e, i);
    let t = e.reconcile_spec(i).0;
    let u = t.with_ready_sides();
    assert(u.is_due_after_fee(i, rate as int) == t.is_due_after_fee(i, rate as int));
    if u.sync_fee_spec(i, u.resolved_slot, rate).1 is Ok {
        lemma_fee_synced(u, i, rate);
        let v = u.sync_fee_spec(i, u.resolved_slot, rate).0;
        if v.close_terminal_spec(idx).1 is Ok {
            law_terminal_close_pays_what_is_due(v, idx);
        }
    }
}

} // verus!
