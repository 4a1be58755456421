//! What each step leaves of an account: its stance, what it owns, and the multipliers that
//! its holding depends on.

use vstd::prelude::*;

use crate::books::{lemma_ledger_of_account, step_append_reserve, step_finalize_one, step_set_basis};
use crate::constants::MAX_ACCOUNTS;
use crate::context::InstructionContext;
use crate::isolation::{index_set_basis, index_set_pnl};
use crate::measures::lesser;
use crate::progress_laws::index_finalize_one;
use crate::types::{ReserveMode, RiskEngine, Side};

verus! {

impl RiskEngine {
    /// Whether `after` has the same capital in all, the same profits in all, the same
    /// insurance and the same vault.
    pub open spec fn same_purse(self, after: RiskEngine) -> bool {
        &&& after.vault == self.vault
        &&& after.c_tot == self.c_tot
        &&& after.insurance_fund == self.insurance_fund
        &&& after.pnl_pos_tot == self.pnl_pos_tot
        &&& after.pnl_matured_pos_tot == self.pnl_matured_pos_tot
    }

    /// Whether account `i` stands as before and owns as much.
    pub open spec fn same_claim(self, after: RiskEngine, i: int) -> bool {
        &&& after.accounts@[i].stance() == self.accounts@[i].stance()
        &&& after.accounts@[i].owns() == self.accounts@[i].owns()
    }

    /// Whether each side has the same multiplier, indices and epoch, or has begun an epoch.
    pub open spec fn sides_stay_or_reset(self, after: RiskEngine) -> bool {
        &&& {
            ||| after.adl_epoch_long == self.adl_epoch_long + 1
            ||| {
                &&& after.adl_epoch_long == self.adl_epoch_long
                &&& after.adl_mult_long == self.adl_mult_long
                &&& after.adl_coeff_long == self.adl_coeff_long
                &&& after.f_long_num == self.f_long_num
            }
        }
        &&& {
            ||| after.adl_epoch_short == self.adl_epoch_short + 1
            ||| {
                &&& after.adl_epoch_short == self.adl_epoch_short
                &&& after.adl_mult_short == self.adl_mult_short
                &&& after.adl_coeff_short == self.adl_coeff_short
                &&& after.f_short_num == self.f_short_num
            }
        }
    }
}

/// A holding depends on the stance of its account and on the multipliers alone.
pub proof fn lemma_same_held(e: RiskEngine, s: RiskEngine, i: int)
    requires
        s.accounts@[i].stance() == e.accounts@[i].stance(),
        e.same_multipliers(s),
    ensures
        s.held(i) == e.held(i),
{
}

/// A reset ends every holding of its side and leaves the others.
pub proof fn lemma_held_or_reset(e: RiskEngine, s: RiskEngine, i: int)
    requires
        0 <= i < MAX_ACCOUNTS,
        s.accounts@[i].stance() == e.accounts@[i].stance(),
        e.sides_stay_or_reset(s),
        e.position_fits(e.accounts@[i]),
    ensures
        s.held(i) == e.held(i) || s.held(i) == 0,
{
}

/// Writing a profit writes that profit and no more of the account.
pub broadcast proof fn frame_set_pnl(
    e: RiskEngine,
    i: int,
    new_pnl: i128,
    mode: ReserveMode,
    ctx: Option<InstructionContext>,
)
    requires
        0 <= i < MAX_ACCOUNTS,
    ensures
        ({
            let (s, _, r) = #[trigger] e.set_pnl_with_reserve_spec(i, new_pnl, mode, ctx);
            let a = e.accounts@[i];
            let b = s.accounts@[i];
            r is Ok ==> {
                &&& b.pnl == new_pnl
                &&& b.stance() == a.stance()
                &&& b.capital == a.capital
                &&& b.fee_credits == a.fee_credits
                &&& s.vault == e.vault
                &&& s.c_tot == e.c_tot
                &&& s.insurance_fund == e.insurance_fund
                &&& s.pnl_pos_tot == e.pnl_pos_tot - a.profit() + b.profit()
            }
        }),
{
    broadcast use {lemma_ledger_of_account, step_append_reserve};

    reveal(RiskEngine::set_pnl_with_reserve_spec);
    reveal(RiskEngine::append_or_route_new_reserve_spec);
    reveal(RiskEngine::admit_fresh_reserve_h_lock_spec);
    reveal(RiskEngine::apply_reserve_loss_newest_first_spec);
}

/// A loss is paid with the account's own capital, as far as that goes.
pub broadcast proof fn frame_settle_losses(e: RiskEngine, i: int, ctx: Option<InstructionContext>)
    requires
        0 <= i < MAX_ACCOUNTS,
    ensures
        ({
            let (s, _, r) = #[trigger] e.settle_losses_spec(i, ctx);
            let a = e.accounts@[i];
            let b = s.accounts@[i];
            let pay = lesser(a.loss(), a.capital.0 as int);
            r is Ok ==> {
                &&& b.capital.0 == a.capital.0 - pay
                &&& b.pnl == a.pnl + pay
                &&& b.stance() == a.stance()
                &&& b.fee_credits == a.fee_credits
                &&& s.vault == e.vault
                &&& s.c_tot.0 == e.c_tot.0 - pay
                &&& s.insurance_fund == e.insurance_fund
                &&& s.pnl_pos_tot == e.pnl_pos_tot
            }
        }),
{
    broadcast use {lemma_ledger_of_account, frame_set_pnl};

    reveal(RiskEngine::settle_losses_spec);
    reveal(RiskEngine::set_capital_spec);
}

/// Taking a loss over leaves the account without it, and only if it holds nothing.
pub broadcast proof fn frame_flat_negative(e: RiskEngine, i: int, ctx: Option<InstructionContext>)
    requires
        0 <= i < MAX_ACCOUNTS,
    ensures
        ({
            let (s, _, r) = #[trigger] e.resolve_flat_negative_spec(i, ctx);
            let a = e.accounts@[i];
            let b = s.accounts@[i];
            r is Ok ==> {
                &&& b.pnl == if e.held(i) == 0 && a.pnl < 0 {
                    0
                } else {
                    a.pnl
                }
                &&& b.stance() == a.stance()
                &&& b.capital == a.capital
                &&& b.fee_credits == a.fee_credits
                &&& s.vault == e.vault
                &&& s.c_tot == e.c_tot
                &&& s.pnl_pos_tot == e.pnl_pos_tot
            }
        }),
{
    broadcast use {lemma_ledger_of_account, frame_set_pnl};

    reveal(RiskEngine::resolve_flat_negative_spec);
    crate::margin_laws::law_effective_position_is_what_is_held(e, i, false);
}

/// A fee is paid with capital, as far as that goes, and owed beyond that.
pub broadcast proof fn frame_charge_fee(e: RiskEngine, i: int, fee: u128)
    requires
        0 <= i < MAX_ACCOUNTS,
    ensures
        ({
            let (s, r) = #[trigger] e.charge_fee_spec(i, fee);
            let a = e.accounts@[i];
            let b = s.accounts@[i];
            let paid = lesser(fee as int, a.capital.0 as int);
            let owed = lesser(fee - paid, a.fee_credits.0 + i128::MAX);
            r is Ok ==> {
                &&& r->Ok_0 == (paid as u128, (paid + owed) as u128, (fee - paid - owed) as u128)
                &&& b.capital.0 == a.capital.0 - paid
                &&& b.fee_credits.0 == a.fee_credits.0 - owed
                &&& b.pnl == a.pnl
                &&& b.reserved_pnl == a.reserved_pnl
                &&& b.stance() == a.stance()
                &&& s.vault == e.vault
                &&& s.c_tot.0 == e.c_tot.0 - paid
                &&& s.insurance_fund.balance.0 == e.insurance_fund.balance.0 + paid
                &&& s.pnl_pos_tot == e.pnl_pos_tot
                &&& s.pnl_matured_pos_tot == e.pnl_matured_pos_tot
                &&& e.same_indices(s)
            }
        }),
{
    broadcast use lemma_ledger_of_account;

    reveal(RiskEngine::charge_fee_spec);
    reveal(RiskEngine::set_capital_spec);
}

/// A position is attached at the present indices of its side.
pub broadcast proof fn frame_attach(e: RiskEngine, i: int, eff: i128, spike: bool)
    requires
        0 <= i < MAX_ACCOUNTS,
    ensures
        ({
            let (s, r) = #[trigger] e.attach_effective_position_inner_spec(i, eff, spike);
            let a = e.accounts@[i];
            let b = s.accounts@[i];
            r is Ok ==> {
                &&& b.position_basis_q == eff
                &&& eff > 0 ==> b.stance() == (
                    eff,
                    e.adl_mult_long,
                    e.adl_coeff_long,
                    e.f_long_num,
                    e.adl_epoch_long,
                )
                &&& eff < 0 ==> b.stance() == (
                    eff,
                    e.adl_mult_short,
                    e.adl_coeff_short,
                    e.f_short_num,
                    e.adl_epoch_short,
                )
                &&& b.capital == a.capital
                &&& b.pnl == a.pnl
                &&& b.reserved_pnl == a.reserved_pnl
                &&& b.fee_credits == a.fee_credits
                &&& e.same_purse(s)
                &&& e.same_indices(s)
            }
        }),
{
    broadcast use {lemma_ledger_of_account, step_set_basis, index_set_basis};

    reveal(RiskEngine::attach_effective_position_inner_spec);
    reveal(RiskEngine::set_position_basis_q_inner_spec);
}

/// A position that is attached at the present indices is held in full.
pub proof fn lemma_attached_is_held(s: RiskEngine, i: int, eff: i128)
    requires
        0 < s.adl_mult_long,
        0 < s.adl_mult_short,
        s.accounts@[i].position_basis_q == eff,
        eff > 0 ==> s.accounts@[i].adl_a_basis == s.adl_mult_long && s.accounts@[i].adl_epoch_snap
            == s.adl_epoch_long,
        eff < 0 ==> s.accounts@[i].adl_a_basis == s.adl_mult_short
            && s.accounts@[i].adl_epoch_snap == s.adl_epoch_short,
    ensures
        s.held(i) == eff,
{
    let l = s.adl_mult_long as int;
    let h = s.adl_mult_short as int;
    assert(eff * l / l == eff) by (nonlinear_arith)
        requires
            0 < l,
    ;
    assert((-eff) * h / h == -eff) by (nonlinear_arith)
        requires
            0 < h,
    ;
}

/// Finishing a touched account keeps its claim; it converts profit at most and pays owed
/// fees.
pub proof fn frame_finalize_one(e: RiskEngine, i: int, is_whole: bool, j: int)
    requires
        0 <= i,
        0 <= j < MAX_ACCOUNTS,
    ensures
        ({
            let (s, r) = e.finalize_one_spec(i, is_whole);
            r is Ok ==> {
                &&& e.same_claim(s, j)
                &&& e.same_indices(s)
                &&& s.vault == e.vault
                &&& s.params == e.params
                &&& e.accounts@[j].position_basis_q != 0 ==> s.accounts@[j].pnl
                    == e.accounts@[j].pnl && s.accounts@[j].reserved_pnl
                    == e.accounts@[j].reserved_pnl
            }
        }),
{
    broadcast use {lemma_ledger_of_account, step_finalize_one, index_finalize_one};

    reveal(RiskEngine::finalize_one_spec);
    reveal(RiskEngine::consume_released_pnl_spec);
    reveal(RiskEngine::fee_debt_sweep_spec);
    reveal(RiskEngine::set_capital_spec);
}

/// Finishing touched accounts keeps every claim.
pub proof fn frame_finalize_all(e: RiskEngine, touched: Seq<u16>, is_whole: bool, j: int)
    requires
        0 <= j < MAX_ACCOUNTS,
        e.finalize_all(touched, is_whole).1 is Ok,
    ensures
        ({
            let s = e.finalize_all(touched, is_whole).0;
            &&& e.same_claim(s, j)
            &&& e.same_indices(s)
            &&& s.vault == e.vault
            &&& s.params == e.params
            &&& e.accounts@[j].position_basis_q != 0 ==> s.accounts@[j].pnl == e.accounts@[j].pnl
                && s.accounts@[j].reserved_pnl == e.accounts@[j].reserved_pnl
        }),
    decreases touched.len(),
{
    if touched.len() > 0 {
        let rest = touched.drop_last();
        frame_finalize_all(e, rest, is_whole, j);
        let t = e.finalize_all(rest, is_whole).0;
        frame_finalize_one(t, touched.last() as int, is_whole, j);
    }
}

/// Finishing the touched accounts of an instruction keeps every claim.
pub proof fn frame_finalize_touched(e: RiskEngine, ctx: InstructionContext, j: int)
    requires
        0 <= j < MAX_ACCOUNTS,
        e.finalize_touched_spec(ctx).1 is Ok,
    ensures
        ({
            let s = e.finalize_touched_spec(ctx).0;
            &&& e.same_claim(s, j)
            &&& e.same_indices(s)
            &&& s.vault == e.vault
            &&& s.params == e.params
            &&& e.accounts@[j].position_basis_q != 0 ==> s.accounts@[j].pnl == e.accounts@[j].pnl
                && s.accounts@[j].reserved_pnl == e.accounts@[j].reserved_pnl
        }),
{
    reveal(RiskEngine::finalize_touched_spec);
    frame_finalize_all(e, ctx.touched(), e.is_whole(), j);
}

broadcast proof fn frame_begin_reset(e: RiskEngine, side: Side)
    ensures
        ({
            let (s, r) = #[trigger] e.begin_reset_spec(side);
            r is Ok ==> {
                &&& s.accounts == e.accounts
                &&& e.same_purse(s)
                &&& s.params == e.params
                &&& e.sides_stay_or_reset(s)
                &&& s.last_oracle_price == e.last_oracle_price
                &&& match side {
                    Side::Long => s.adl_epoch_short == e.adl_epoch_short && s.adl_mult_short
                        == e.adl_mult_short && s.adl_coeff_short == e.adl_coeff_short
                        && s.f_short_num == e.f_short_num,
                    Side::Short => s.adl_epoch_long == e.adl_epoch_long && s.adl_mult_long
                        == e.adl_mult_long && s.adl_coeff_long == e.adl_coeff_long
                        && s.f_long_num == e.f_long_num,
                }
            }
        }),
{
    reveal(RiskEngine::begin_reset_spec);
}

/// The resets at the end of an instruction move no account and no purse.
pub proof fn frame_end_resets(e: RiskEngine, ctx: InstructionContext)
    requires
        e.end_resets_spec(ctx).2 is Ok,
    ensures
        ({
            let s = e.end_resets_spec(ctx).0;
            &&& s.accounts == e.accounts
            &&& e.same_purse(s)
            &&& s.params == e.params
            &&& e.sides_stay_or_reset(s)
            &&& s.last_oracle_price == e.last_oracle_price
        }),
{
    broadcast use frame_begin_reset;

    reveal(RiskEngine::schedule_resets_spec);
    reveal(RiskEngine::finalize_resets_spec);
}

/// Ending an instruction moves no account and no purse.
pub proof fn frame_close(e: RiskEngine, ctx: InstructionContext)
    requires
        e.close_spec(ctx).1 is Ok,
    ensures
        ({
            let s = e.close_spec(ctx).0;
            &&& s.accounts == e.accounts
            &&& e.same_purse(s)
            &&& s.params == e.params
            &&& e.sides_stay_or_reset(s)
            &&& s.last_oracle_price == e.last_oracle_price
            &&& s.public_post() is Ok
        }),
{
    reveal(RiskEngine::close_spec);
    frame_end_resets(e, ctx);
}

/// Finishing an instruction keeps every claim, and every holding that no reset ends.
pub proof fn frame_finish(e: RiskEngine, ctx: InstructionContext, j: int)
    requires
        0 <= j < MAX_ACCOUNTS,
        e.positions_fit(),
        e.finish_spec(ctx).1 is Ok,
    ensures
        ({
            let s = e.finish_spec(ctx).0;
            &&& e.same_claim(s, j)
            &&& e.sides_stay_or_reset(s)
            &&& s.held(j) == e.held(j) || s.held(j) == 0
            &&& s.vault == e.vault
            &&& s.params == e.params
            &&& s.last_oracle_price == e.last_oracle_price
            &&& s.public_post() is Ok
            &&& e.accounts@[j].position_basis_q != 0 ==> s.accounts@[j].pnl == e.accounts@[j].pnl
                && s.accounts@[j].reserved_pnl == e.accounts@[j].reserved_pnl
        }),
{
    broadcast use crate::books::step_finalize_touched;

    frame_finalize_touched(e, ctx, j);
    let t = e.finalize_touched_spec(ctx).0;
    frame_close(t, ctx);
    let s = e.finish_spec(ctx).0;
    assert(e.position_fits(e.accounts@[j]));
    lemma_held_or_reset(e, s, j);
}

/// A touch keeps what an account holds, and its position where something is left of it.
pub proof fn frame_touch(e: RiskEngine, i: int, ctx: InstructionContext)
    requires
        e.touch_spec(i, ctx).2 is Ok,
    ensures
        ({
            let s = e.touch_spec(i, ctx).0;
            &&& 0 <= i < MAX_ACCOUNTS
            &&& s.held(i) == e.held(i)
            &&& s.effective_pos_q_spec(i, false) is Ok
            &&& e.held(i) != 0 ==> s.accounts@[i].position_basis_q
                == e.accounts@[i].position_basis_q && s.accounts@[i].adl_a_basis
                == e.accounts@[i].adl_a_basis
            &&& e.held(i) == 0 ==> s.accounts@[i].position_basis_q == 0
            &&& s.accounts@[i].fee_credits == e.accounts@[i].fee_credits
            &&& s.vault == e.vault
        }),
{
    broadcast use {
        lemma_ledger_of_account,
        frame_set_pnl,
        frame_settle_losses,
        frame_flat_negative,
        index_set_pnl,
        index_set_basis,
        crate::isolation::index_admit,
        crate::isolation::index_warmup,
        crate::isolation::index_settle_side_effects,
        crate::isolation::index_settle_losses,
        crate::isolation::index_flat_negative,
    };

    reveal(RiskEngine::touch_spec);
    assert(0 <= i < MAX_ACCOUNTS) by {
        reveal(RiskEngine::validate_shape_at_spec);
    }
    let c = ctx.add_touched_spec(i as u16).0;
    let e1 = e.admit_outstanding_reserve_on_touch_spec(i, c).0;
    assert(e1.accounts@[i].stance() == e.accounts@[i].stance() && e1.accounts@[i].fee_credits
        == e.accounts@[i].fee_credits && e1.vault == e.vault) by {
        reveal(RiskEngine::admit_outstanding_reserve_on_touch_spec);
    }
    let e2 = e1.advance_profit_warmup_spec(i).0;
    assert(e2.accounts@[i].stance() == e1.accounts@[i].stance() && e2.accounts@[i].fee_credits
        == e1.accounts@[i].fee_credits && e2.vault == e1.vault) by {
        reveal(RiskEngine::advance_profit_warmup_spec);
    }
    lemma_same_held(e, e2, i);
    let (e3, c3, r3) = e2.settle_side_effects_live_spec(i, c);
    assert(r3 is Ok ==> {
        &&& e2.held(i) != 0 ==> e3.accounts@[i].position_basis_q
            == e2.accounts@[i].position_basis_q && e3.accounts@[i].adl_a_basis
            == e2.accounts@[i].adl_a_basis && e3.accounts@[i].adl_epoch_snap
            == e2.accounts@[i].adl_epoch_snap
        &&& e2.held(i) == 0 ==> e3.accounts@[i].position_basis_q == 0
        &&& e3.accounts@[i].fee_credits == e2.accounts@[i].fee_credits
        &&& e3.vault == e2.vault
    }) by {
        reveal(RiskEngine::settle_side_effects_live_spec);
        reveal(RiskEngine::set_position_basis_q_inner_spec);
    }
    let (e4, c4, r4) = e3.settle_losses_spec(i, Some(c3));
    let (e5, c5, r5) = e4.resolve_flat_negative_spec(i, c4);
    lemma_same_held(e3, e4, i);
    lemma_same_held(e4, e5, i);
    assert(e4.effective_pos_q_spec(i, false) is Ok) by {
        reveal(RiskEngine::resolve_flat_negative_spec);
    }
    assert(e5.effective_pos_q_spec(i, false) == e4.effective_pos_q_spec(i, false)) by {
        reveal(RiskEngine::effective_pos_q_spec);
    }
}

} // verus!
