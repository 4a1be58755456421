//! What deposits, fees and the insurance fund move, to the unit.

use vstd::prelude::*;

use crate::books::lemma_ledger_of_account;
use crate::constants::MAX_ACCOUNTS;
use crate::frames::{frame_charge_fee, frame_flat_negative, frame_settle_losses};
use crate::measures::{greater, lesser};
use crate::types::{MarketMode, RiskEngine};

verus! {

impl RiskEngine {
    /// Whether the clock of a live market may go to a slot without an accrual: not
    /// backwards, and with a position open no further than an accrual can reach.
    pub open spec fn may_wait_until(self, now_slot: int) -> bool {
        &&& self.market_mode == MarketMode::Live
        &&& self.current_slot <= now_slot
        &&& self.last_market_slot <= self.current_slot
        &&& self.oi_eff_long_q != 0 || self.oi_eff_short_q != 0 ==> now_slot
            - self.last_market_slot <= self.params.max_accrual_dt_slots
    }

    /// What account `i` owns, and nothing if the slot is free.
    pub open spec fn stake(self, i: int) -> int {
        if self.slot_used(i) {
            self.accounts@[i].owns()
        } else {
            0
        }
    }

    /// Whether an account that was given `amount` more capital has paid its loss with its
    /// capital, and then, with no position and no loss left, the fees that it owes.
    pub open spec fn credited(self, after: RiskEngine, i: int, amount: int) -> bool {
        let a = self.accounts@[i];
        let b = after.accounts@[i];
        let all = a.capital.0 + amount;
        let paid = lesser(a.loss(), all);
        let swept = if a.position_basis_q == 0 && a.pnl + paid >= 0 {
            lesser(a.owes(), all - paid)
        } else {
            0
        };
        &&& b.capital.0 == all - paid - swept
        &&& b.pnl == a.pnl + paid
        &&& b.fee_credits.0 == a.fee_credits.0 + swept
        &&& b.stance() == a.stance()
        &&& after.insurance_fund.balance.0 == self.insurance_fund.balance.0 + swept
        &&& after.c_tot.0 == self.c_tot.0 + amount - paid - swept
    }
}

/// A deposit adds the amount to the vault and to what the account owns. Of the capital,
/// losses are paid first, and then, with no position and no loss left, owed fees. A free
/// slot is taken into use by a deposit of something, and by that alone.
pub proof fn law_deposit_by_instruction(e: RiskEngine, idx: u16, amount: u128, now_slot: u64)
    requires
        e.deposit_spec(idx, amount, now_slot).1 is Ok,
    ensures
        ({
            let s = e.deposit_spec(idx, amount, now_slot).0;
            let i = idx as int;
            &&& e.may_wait_until(now_slot as int)
            &&& e.slot_used(i) || amount > 0
            &&& e.vault.0 + amount <= crate::constants::MAX_VAULT_TVL
            &&& s.vault.0 == e.vault.0 + amount
            &&& s.slot_used(i)
            &&& s.accounts@[i].owns() == e.stake(i) + amount
            &&& e.slot_used(i) ==> e.credited(s, i, amount as int)
            &&& s.current_slot == now_slot
            &&& s.last_market_slot == e.last_market_slot
        }),
{
    broadcast use {lemma_ledger_of_account, frame_settle_losses};

    reveal(RiskEngine::deposit_spec);
    reveal(RiskEngine::set_capital_spec);
    reveal(RiskEngine::fee_debt_sweep_spec);
    let i = idx as int;
    assert(idx < MAX_ACCOUNTS) by {
        reveal(RiskEngine::validate_shape_at_spec);
    }
    lemma_deposit_keeps_slots(e, idx, amount, now_slot);
    if !e.slot_used(i) {
        crate::market_laws::lemma_fresh_account_is_empty(e, idx, now_slot);
    }
}

broadcast proof fn lemma_paying_a_loss_accrues_nothing(
    e: RiskEngine,
    i: int,
    ctx: Option<crate::context::InstructionContext>,
)
    ensures
        (#[trigger] e.settle_losses_spec(i, ctx)).0.last_market_slot == e.last_market_slot,
{
    reveal(RiskEngine::settle_losses_spec);
    reveal(RiskEngine::set_capital_spec);
    reveal(RiskEngine::set_pnl_with_reserve_spec);
    reveal(RiskEngine::append_or_route_new_reserve_spec);
    reveal(RiskEngine::admit_fresh_reserve_h_lock_spec);
    reveal(RiskEngine::apply_reserve_loss_newest_first_spec);
}

proof fn lemma_deposit_keeps_slots(e: RiskEngine, idx: u16, amount: u128, now_slot: u64)
    requires
        idx < MAX_ACCOUNTS,
        e.deposit_spec(idx, amount, now_slot).1 is Ok,
    ensures
        ({
            let s = e.deposit_spec(idx, amount, now_slot).0;
            &&& s.slot_used(idx as int)
            &&& s.last_market_slot == e.last_market_slot
            &&& s.current_slot == now_slot
        }),
{
    broadcast use {
        lemma_ledger_of_account,
        crate::books::step_settle_losses,
        crate::isolation::index_settle_losses,
        lemma_paying_a_loss_accrues_nothing,
    };

    reveal(RiskEngine::deposit_spec);
    reveal(RiskEngine::set_capital_spec);
    reveal(RiskEngine::fee_debt_sweep_spec);
    reveal(RiskEngine::materialize_at_spec);
    reveal(RiskEngine::validate_shape_at_spec);
}

/// A top-up of the insurance fund adds the amount to the fund and to the vault.
pub proof fn law_top_up_by_instruction(e: RiskEngine, amount: u128, now_slot: u64)
    requires
        e.top_up_spec(amount, now_slot).1 is Ok,
    ensures
        ({
            let s = e.top_up_spec(amount, now_slot).0;
            &&& e.may_wait_until(now_slot as int)
            &&& e.vault.0 + amount <= crate::constants::MAX_VAULT_TVL
            &&& s.vault.0 == e.vault.0 + amount
            &&& s.insurance_fund.balance.0 == e.insurance_fund.balance.0 + amount
            &&& s.c_tot == e.c_tot
            &&& s.accounts == e.accounts
            &&& s.current_slot == now_slot
        }),
{
    reveal(RiskEngine::top_up_spec);
    reveal(RiskEngine::public_post);
}

/// A credit from the insurance fund moves the amount from the fund to the account, as a
/// deposit would, and nothing into the vault. The fund must have it.
pub proof fn law_insurance_credit_by_instruction(
    e: RiskEngine,
    idx: u16,
    amount: u128,
    now_slot: u64,
)
    requires
        e.credit_from_insurance_spec(idx, amount, now_slot).1 is Ok,
    ensures
        ({
            let s = e.credit_from_insurance_spec(idx, amount, now_slot).0;
            let i = idx as int;
            let a = e.accounts@[i];
            let swept = if a.position_basis_q == 0 && a.pnl >= 0 {
                lesser(a.owes(), a.capital.0 + amount)
            } else {
                0
            };
            &&& e.may_wait_until(now_slot as int)
            &&& e.slot_used(i)
            &&& e.active_close_present == 0
            &&& !e.bankruptcy_hmax_lock_active
            &&& e.stress_consumed_bps_e9_since_envelope == 0
            &&& e.neg_pnl_account_count == 0
            &&& e.oi_eff_long_q != 0 || e.oi_eff_short_q != 0 ==> e.current_slot
                <= e.last_market_slot
            &&& amount <= e.insurance_fund.balance.0
            &&& s.insurance_fund.balance.0 == e.insurance_fund.balance.0 - amount + swept
            &&& s.accounts@[i].capital.0 == a.capital.0 + amount - swept
            &&& s.accounts@[i].fee_credits.0 == a.fee_credits.0 + swept
            &&& s.accounts@[i].pnl == a.pnl
            &&& s.vault == e.vault
            &&& s.c_tot.0 == e.c_tot.0 + amount - swept
        }),
{
    broadcast use lemma_ledger_of_account;

    reveal(RiskEngine::credit_from_insurance_spec);
    reveal(RiskEngine::set_capital_spec);
    reveal(RiskEngine::fee_debt_sweep_spec);
    reveal(RiskEngine::validate_shape_at_spec);
}

/// Insurance leaves a live market only where nothing could still need it: no position is
/// open or left to settle, no account has a loss, the market is up to date, and there is no
/// stress. Then exactly the amount leaves the fund and the vault.
pub proof fn law_live_insurance_withdrawal_by_instruction(
    e: RiskEngine,
    amount: u128,
    now_slot: u64,
)
    requires
        e.withdraw_live_insurance_spec(amount, now_slot).1 is Ok,
    ensures
        ({
            let s = e.withdraw_live_insurance_spec(amount, now_slot).0;
            &&& e.may_wait_until(now_slot as int)
            &&& e.active_close_present == 0
            &&& e.is_wound_up()
            &&& e.oi_eff_long_q == 0 && e.oi_eff_short_q == 0
            &&& e.current_slot == e.last_market_slot
            &&& e.stress_consumed_bps_e9_since_envelope == 0
            &&& !e.bankruptcy_hmax_lock_active
            &&& amount <= e.insurance_fund.balance.0
            &&& s.vault.0 == e.vault.0 - amount
            &&& s.insurance_fund.balance.0 == e.insurance_fund.balance.0 - amount
            &&& s.accounts == e.accounts
            &&& s.c_tot == e.c_tot
        }),
{
    reveal(RiskEngine::withdraw_live_insurance_spec);
    reveal(RiskEngine::public_post);
}

/// Insurance leaves a settled market once no account is left, all of it at once, along with
/// what is left in the vault where nobody has a claim any more.
pub proof fn law_resolved_insurance_withdrawal_by_instruction(e: RiskEngine)
    requires
        e.withdraw_resolved_insurance_spec().1 is Ok,
    ensures
        ({
            let (s, r) = e.withdraw_resolved_insurance_spec();
            let claimed = e.c_tot.0 != 0 || e.pnl_pos_tot != 0 || e.pnl_matured_pos_tot != 0
                || e.oi_eff_long_q != 0 || e.oi_eff_short_q != 0;
            &&& e.market_mode == MarketMode::Resolved
            &&& e.num_used_accounts == 0
            &&& r->Ok_0 == if claimed {
                e.insurance_fund.balance.0
            } else {
                e.vault.0
            }
            &&& s.vault.0 == e.vault.0 - r->Ok_0
            &&& s.insurance_fund.balance.0 == 0
        }),
{
    reveal(RiskEngine::withdraw_resolved_insurance_spec);
    reveal(RiskEngine::sweep_empty_market_surplus_spec);
}

/// A fee that is charged once is paid from capital to the insurance fund as far as that
/// goes, and owed beyond that.
pub proof fn law_fee_charge_by_instruction(e: RiskEngine, idx: u16, fee: u128, now_slot: u64)
    requires
        e.charge_account_fee_spec(idx, fee, now_slot).1 is Ok,
    ensures
        ({
            let s = e.charge_account_fee_spec(idx, fee, now_slot).0;
            let i = idx as int;
            let a = e.accounts@[i];
            let b = s.accounts@[i];
            let paid = lesser(fee as int, a.capital.0 as int);
            let owed = lesser(fee - paid, a.fee_credits.0 + i128::MAX);
            &&& e.may_wait_until(now_slot as int)
            &&& e.slot_used(i)
            &&& fee <= crate::constants::MAX_PROTOCOL_FEE_ABS
            &&& b.capital.0 == a.capital.0 - paid
            &&& b.fee_credits.0 == a.fee_credits.0 - owed
            &&& b.pnl == a.pnl
            &&& b.stance() == a.stance()
            &&& b.last_fee_slot == a.last_fee_slot
            &&& s.insurance_fund.balance.0 == e.insurance_fund.balance.0 + paid
            &&& s.c_tot.0 == e.c_tot.0 - paid
            &&& s.vault == e.vault
        }),
{
    broadcast use {lemma_ledger_of_account, frame_charge_fee};

    reveal(RiskEngine::charge_account_fee_spec);
    reveal(RiskEngine::validate_shape_at_spec);
    reveal(RiskEngine::charge_fee_spec);
    reveal(RiskEngine::set_capital_spec);
}

/// The recurring fee of an account is the rate times the slots since it was last charged, up
/// to the largest fee, and is charged up to a slot once: that of the settlement, or the
/// present one, or with a position that of the last accrual. No fee is drawn ahead of a loss.
pub proof fn law_fee_sync_by_instruction(e: RiskEngine, idx: u16, now_slot: u64, rate: u128)
    requires
        e.sync_fee_instruction_spec(idx, now_slot, rate).1 is Ok,
    ensures
        ({
            let s = e.sync_fee_instruction_spec(idx, now_slot, rate).0;
            let i = idx as int;
            let a = e.accounts@[i];
            let b = s.accounts@[i];
            let until = if e.market_mode == MarketMode::Resolved {
                e.resolved_slot
            } else if a.position_basis_q != 0 && e.last_market_slot < now_slot {
                e.last_market_slot
            } else {
                now_slot
            };
            let fee = lesser(
                rate * (until - a.last_fee_slot),
                crate::constants::MAX_PROTOCOL_FEE_ABS as int,
            );
            let paid = lesser(fee, a.capital.0 as int);
            let owed = lesser(fee - paid, a.fee_credits.0 + i128::MAX);
            &&& e.slot_used(i)
            &&& e.active_close_present == 0
            &&& e.current_slot <= now_slot
            &&& a.last_fee_slot <= until
            &&& rate > 0 && a.last_fee_slot < until ==> a.pnl >= 0
            &&& b.last_fee_slot == until
            &&& b.capital.0 == a.capital.0 - paid
            &&& b.fee_credits.0 == a.fee_credits.0 - owed
            &&& b.pnl == a.pnl
            &&& b.stance() == a.stance()
            &&& s.insurance_fund.balance.0 == e.insurance_fund.balance.0 + paid
            &&& s.c_tot.0 == e.c_tot.0 - paid
            &&& s.vault == e.vault
        }),
{
    broadcast use {lemma_ledger_of_account, frame_charge_fee};

    reveal(RiskEngine::sync_fee_instruction_spec);
    reveal(RiskEngine::sync_fee_spec);
    reveal(RiskEngine::validate_shape_at_spec);
    let i = idx as int;
    let dt = e.fee_sync_anchor(i, now_slot) - e.accounts@[i].last_fee_slot;
    assert(rate * 0 == 0) by (nonlinear_arith);
    assert(rate == 0 ==> rate * dt == 0) by (nonlinear_arith);
    assert(dt >= 0 ==> rate * dt >= 0) by (nonlinear_arith);
}

/// Fee debt that is paid from outside goes to the insurance fund, at most what is owed, and
/// what was taken is what is given back as the result.
pub proof fn law_fee_credit_deposit_by_instruction(
    e: RiskEngine,
    idx: u16,
    amount: u128,
    now_slot: u64,
)
    requires
        e.deposit_fee_credits_spec(idx, amount, now_slot).1 is Ok,
    ensures
        ({
            let (s, r) = e.deposit_fee_credits_spec(idx, amount, now_slot);
            let i = idx as int;
            let a = e.accounts@[i];
            let b = s.accounts@[i];
            &&& e.may_wait_until(now_slot as int)
            &&& e.slot_used(i)
            &&& r->Ok_0 == lesser(amount as int, a.owes())
            &&& b.owes() == a.owes() - r->Ok_0
            &&& b.capital == a.capital
            &&& b.pnl == a.pnl
            &&& s.vault.0 == e.vault.0 + r->Ok_0
            &&& s.insurance_fund.balance.0 == e.insurance_fund.balance.0 + r->Ok_0
            &&& s.c_tot == e.c_tot
        }),
{
    broadcast use lemma_ledger_of_account;

    reveal(RiskEngine::deposit_fee_credits_spec);
    reveal(RiskEngine::validate_shape_at_spec);
    reveal(RiskEngine::public_post);
}

/// A loss of an account without a position is paid with its capital as far as that goes, and
/// the rest is taken from it. An account with a position, or with profit in warmup, is
/// refused.
pub proof fn law_flat_loss_settlement_by_instruction(e: RiskEngine, idx: u16, now_slot: u64)
    requires
        e.settle_flat_negative_spec(idx, now_slot).1 is Ok,
    ensures
        ({
            let s = e.settle_flat_negative_spec(idx, now_slot).0;
            let i = idx as int;
            let a = e.accounts@[i];
            let b = s.accounts@[i];
            &&& e.may_wait_until(now_slot as int)
            &&& e.slot_used(i)
            &&& a.position_basis_q == 0
            &&& a.reserved_pnl == 0
            &&& b.pnl == greater(a.pnl as int, 0)
            &&& b.capital.0 == a.capital.0 - lesser(a.loss(), a.capital.0 as int)
            &&& b.fee_credits == a.fee_credits
            &&& s.vault == e.vault
        }),
{
    broadcast use {lemma_ledger_of_account, frame_settle_losses, frame_flat_negative};

    reveal(RiskEngine::settle_flat_negative_spec);
    reveal(RiskEngine::validate_shape_at_spec);
}

/// A slot is reclaimed only from an account that has no capital, no position, and neither
/// profit nor loss; it is then free, and nothing leaves the vault.
pub proof fn law_reclaim_by_instruction(e: RiskEngine, idx: u16, now_slot: u64)
    requires
        e.reclaim_spec(idx, now_slot).1 is Ok,
    ensures
        ({
            let s = e.reclaim_spec(idx, now_slot).0;
            let i = idx as int;
            let a = e.accounts@[i];
            &&& e.may_wait_until(now_slot as int)
            &&& e.slot_used(i)
            &&& a.capital.0 == 0
            &&& a.pnl == 0
            &&& a.reserved_pnl == 0
            &&& a.position_basis_q == 0
            &&& !s.slot_used(i)
            &&& s.vault == e.vault
        }),
{
    broadcast use lemma_ledger_of_account;

    reveal(RiskEngine::reclaim_spec);
    reveal(RiskEngine::validate_shape_at_spec);
    let i = idx as int;
    let t = (RiskEngine { current_slot: now_slot, ..e }).with_debt_forgiven(i);
    crate::payout_laws::lemma_release(t, idx);
}

/// An account is claimed once: by a key that is set, where none was. Nothing else changes.
pub proof fn law_owner_is_set_once(e: RiskEngine, idx: u16, owner: [u8; 32], other: [u8; 32])
    ensures
        ({
            let (s, r) = e.set_owner_spec(idx, owner);
            let a = e.accounts@[idx as int];
            &&& r is Ok <==> {
                &&& idx < MAX_ACCOUNTS
                &&& idx < e.params.max_accounts
                &&& e.slot_used(idx as int)
                &&& exists|k: int| 0 <= k < 32 && #[trigger] owner@[k] != 0
                &&& forall|k: int| 0 <= k < 32 ==> #[trigger] a.owner@[k] == 0
            }
            &&& r is Ok ==> {
                &&& s.accounts@[idx as int].owner == owner
                &&& s.accounts@[idx as int].capital == a.capital
                &&& s.vault == e.vault
                &&& s.set_owner_spec(idx, other).1 is Err
            }
        }),
{
    broadcast use lemma_ledger_of_account;

}

} // verus!
