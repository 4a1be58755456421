//! What a liquidation takes off the market, and who bears what it leaves uncovered.

use vstd::prelude::*;

use crate::books::lemma_ledger_of_account;
use crate::constants::MAX_ACCOUNTS;
use crate::context::InstructionContext;
use crate::envelope::lemma_ceil_by_adding;
use crate::frames::{frame_attach, frame_charge_fee, frame_set_pnl, frame_settle_losses};
use crate::isolation::{index_set_pnl, index_settle_losses};
use crate::liquidation_laws::law_liquidation_of_an_account;
use crate::margin_laws::{law_effective_position_is_what_is_held, law_liquidation_fee};
use crate::measures::{greater, lesser, size_of};
use crate::types::{LiquidationPolicy, RiskEngine, RiskError, Side, SideMode};

verus! {

impl RiskEngine {
    /// What is open on the longs or on the shorts.
    pub open spec fn open_on(self, side: Side) -> int {
        match side {
            Side::Long => self.oi_eff_long_q as int,
            Side::Short => self.oi_eff_short_q as int,
        }
    }

    /// Multiplier of the longs or of the shorts.
    pub open spec fn multiplier_of(self, side: Side) -> int {
        match side {
            Side::Long => self.adl_mult_long as int,
            Side::Short => self.adl_mult_short as int,
        }
    }

    /// Mode of the longs or of the shorts.
    pub open spec fn mode_of(self, side: Side) -> SideMode {
        match side {
            Side::Long => self.side_mode_long,
            Side::Short => self.side_mode_short,
        }
    }

    /// Positions that are stored on the longs or on the shorts.
    pub open spec fn stored_on(self, side: Side) -> int {
        match side {
            Side::Long => self.stored_pos_count_long as int,
            Side::Short => self.stored_pos_count_short as int,
        }
    }

    /// Open interest of a side that is known to belong to nobody.
    pub open spec fn ownerless_on(self, side: Side) -> int {
        lesser(
            match side {
                Side::Long => self.phantom_dust_certified_long_q as int,
                Side::Short => self.phantom_dust_certified_short_q as int,
            },
            self.open_on(side),
        )
    }

    /// Open interest of a side that may belong to nobody.
    pub open spec fn doubtful_on(self, side: Side) -> int {
        lesser(
            match side {
                Side::Long => self.phantom_dust_potential_long_q as int,
                Side::Short => self.phantom_dust_potential_short_q as int,
            },
            self.open_on(side),
        )
    }

    /// What the protocol takes of a deficit `d` that insurance has not covered, where the
    /// side `opp` stands against it: all of it if nobody stands there or if it is in doubt
    /// who does, and otherwise the share of what belongs to nobody, rounded up.
    pub open spec fn protocol_takes(self, opp: Side, d: int) -> int {
        let oi = self.open_on(opp);
        if oi == 0 || self.stored_on(opp) == 0 || self.ownerless_on(opp) < self.doubtful_on(opp)
            || oi <= self.ownerless_on(opp) {
            d
        } else {
            lesser((d * self.ownerless_on(opp) + oi - 1) / oi, d)
        }
    }
}

/// The other side.
pub open spec fn across(side: Side) -> Side {
    match side {
        Side::Long => Side::Short,
        Side::Short => Side::Long,
    }
}

impl RiskEngine {
    /// Whether `s` is what closing `q` on `side` makes of the two sides, and `c` has the
    /// resets that are then due.
    pub open spec fn closes_to(
        self,
        s: RiskEngine,
        c: InstructionContext,
        side: Side,
        q: int,
    ) -> bool {
        let opp = across(side);
        let oi = self.open_on(opp);
        let left = oi - q;
        let shrunk = self.multiplier_of(opp) * left / oi;
        let both_due = c.pending_reset_long && c.pending_reset_short;
        &&& q <= self.open_on(side)
        &&& s.multiplier_of(side) == self.multiplier_of(side)
        &&& if oi == 0 {
            &&& s.open_on(opp) == 0
            &&& s.open_on(side) == self.open_on(side) - q
            &&& s.multiplier_of(opp) == self.multiplier_of(opp)
            &&& s.open_on(side) == 0 ==> both_due
        } else {
            &&& q <= oi
            &&& left == 0 ==> {
                &&& s.open_on(opp) == 0
                &&& s.open_on(side) == self.open_on(side) - q
                &&& s.multiplier_of(opp) == self.multiplier_of(opp)
                &&& s.open_on(side) == 0 || self.stored_on(opp) != 0 ==> both_due
            }
            &&& left != 0 && self.stored_on(opp) == 0 ==> {
                &&& s.open_on(opp) == left
                &&& s.open_on(side) == self.open_on(side) - q
                &&& s.multiplier_of(opp) == self.multiplier_of(opp)
            }
            &&& left != 0 && self.stored_on(opp) != 0 && shrunk == 0 ==> {
                &&& s.open_on(opp) == 0
                &&& s.open_on(side) == 0
                &&& both_due
            }
            &&& left != 0 && self.stored_on(opp) != 0 && 0 < shrunk <= u128::MAX ==> {
                &&& s.open_on(opp) == left
                &&& s.open_on(side) == self.open_on(side) - q
                &&& s.multiplier_of(opp) == shrunk
                &&& s.mode_of(opp) == if shrunk < 100_000_000_000_000 {
                    SideMode::DrainOnly
                } else {
                    self.mode_of(opp)
                }
            }
        }
    }
}

proof fn lemma_shrunk(e: RiskEngine, ctx: InstructionContext, side: Side, q: u128)
    requires
        e.open_on(across(side)) > 0,
        e.stored_on(across(side)) != 0,
        q <= e.open_on(across(side)),
        e.shrink_side(ctx, side, e.open_on(across(side)) as u128, q).2 is Ok,
    ensures
        ({
            let opp = across(side);
            let oi = e.open_on(opp);
            let (s, c, _) = e.shrink_side(ctx, side, oi as u128, q);
            let left = oi - q;
            let shrunk = e.multiplier_of(opp) * left / oi;
            let both_due = c.pending_reset_long && c.pending_reset_short;
            &&& s.multiplier_of(side) == e.multiplier_of(side)
            &&& left == 0 ==> s.open_on(opp) == 0 && s.open_on(side) == e.open_on(side)
                && s.multiplier_of(opp) == e.multiplier_of(opp) && both_due
            &&& left != 0 && shrunk == 0 ==> s.open_on(opp) == 0 && s.open_on(side) == 0
                && both_due
            &&& left != 0 && 0 < shrunk <= u128::MAX ==> {
                &&& s.open_on(opp) == left
                &&& s.open_on(side) == e.open_on(side)
                &&& s.multiplier_of(opp) == shrunk
                &&& s.mode_of(opp) == if shrunk < 100_000_000_000_000 {
                    SideMode::DrainOnly
                } else {
                    e.mode_of(opp)
                }
            }
            &&& s.insurance_fund == e.insurance_fund
            &&& s.vault == e.vault
            &&& s.explicit_unallocated_protocol_loss == e.explicit_unallocated_protocol_loss
            &&& s.bankruptcy_hmax_lock_active == e.bankruptcy_hmax_lock_active
        }),
{
    reveal(RiskEngine::shrink_side);
}

proof fn lemma_insured(e: RiskEngine, ctx: InstructionContext, side: Side, q: u128, d: u128)
    requires
        e.enqueue_adl_insured(ctx, side, q, d).2 is Ok,
        e.open_on(side) + q <= u128::MAX,
    ensures
        ({
            let (s, c, _) = e.enqueue_adl_insured(ctx, side, q, d);
            &&& e.with_oi_eff(side, (e.open_on(side) + q) as u128).closes_to(s, c, side, q as int)
            &&& s.insurance_fund == e.insurance_fund
            &&& s.vault == e.vault
            &&& s.explicit_unallocated_protocol_loss.0 == lesser(
                e.explicit_unallocated_protocol_loss.0 + e.protocol_takes(across(side), d as int),
                u128::MAX as int,
            )
            &&& e.bankruptcy_hmax_lock_active ==> s.bankruptcy_hmax_lock_active
        }),
{
    broadcast use route_moves_no_side;

    let opp = across(side);
    let oi = e.open_on(opp) as u128;
    if oi != 0 && e.stored_on(opp) == 0 {
        reveal(RiskEngine::drain_unheld_side);
    } else if oi != 0 && q <= oi {
        lemma_routed(e, ctx, opp, q, d);
        let (t, c, r) = e.route_deficit(ctx, opp, oi, q, d);
        lemma_shrunk(t, c, side, q);
    }
}

/// Closing a quantity takes it off the open interest of its own side and off that of the
/// other, whichever side that is. The multiplier of the other side shrinks by what is left
/// of its interest, rounded down, so that every position there shrinks alike; a side whose
/// multiplier gets too small only drains; and where nothing is left on the other side, both
/// sides are due for a reset.
pub proof fn law_closing_shrinks_the_other_side(
    e: RiskEngine,
    ctx: InstructionContext,
    side: Side,
    q: u128,
    d: u128,
)
    requires
        e.enqueue_adl_spec(ctx, side, q, d).2 is Ok,
    ensures
        ({
            let (s, c, _) = e.enqueue_adl_spec(ctx, side, q, d);
            e.closes_to(s, c, side, q as int)
        }),
{
    lemma_enqueued(e, ctx, side, q, d);
}

proof fn lemma_enqueued(e: RiskEngine, ctx: InstructionContext, side: Side, q: u128, d: u128)
    requires
        e.enqueue_adl_spec(ctx, side, q, d).2 is Ok,
    ensures
        ({
            let (s, c, _) = e.enqueue_adl_spec(ctx, side, q, d);
            let paid = lesser(d as int, e.insurance_fund.balance.0 as int);
            let taken = e.protocol_takes(across(side), d - paid);
            &&& e.closes_to(s, c, side, q as int)
            &&& s.insurance_fund.balance.0 == e.insurance_fund.balance.0 - paid
            &&& s.explicit_unallocated_protocol_loss.0 == lesser(
                e.explicit_unallocated_protocol_loss.0 + taken,
                u128::MAX as int,
            )
            &&& s.vault == e.vault
            &&& d > 0 ==> s.bankruptcy_hmax_lock_active
        }),
{
    reveal(RiskEngine::enqueue_adl_spec);
    let rest = d - lesser(d as int, e.insurance_fund.balance.0 as int);
    let closed = e.with_oi_eff(side, (e.open_on(side) - q) as u128);
    if d == 0 {
        lemma_insured(closed, ctx, side, q, 0);
    } else {
        let (t, c, _) = closed.trigger_bankruptcy_hmax_lock_spec(ctx);
        lemma_insured(t.with_insurance_used(d), c, side, q, rest as u128);
    }
}

/// A deficit is paid by the insurance fund as far as that goes. Of the rest the protocol
/// takes its part, and no more than that: what positions on the other side can be made to
/// bear is not put on the protocol.
pub proof fn law_deficit_is_routed(
    e: RiskEngine,
    ctx: InstructionContext,
    side: Side,
    q: u128,
    d: u128,
)
    requires
        e.enqueue_adl_spec(ctx, side, q, d).2 is Ok,
    ensures
        ({
            let s = e.enqueue_adl_spec(ctx, side, q, d).0;
            let opp = across(side);
            let paid = lesser(d as int, e.insurance_fund.balance.0 as int);
            let taken = e.protocol_takes(opp, d - paid);
            &&& s.insurance_fund.balance.0 == e.insurance_fund.balance.0 - paid
            &&& s.explicit_unallocated_protocol_loss.0 == lesser(
                e.explicit_unallocated_protocol_loss.0 + taken,
                u128::MAX as int,
            )
            &&& s.vault == e.vault
            &&& s.c_tot == e.c_tot
            &&& s.accounts == e.accounts
            &&& d > 0 ==> s.bankruptcy_hmax_lock_active
        }),
{
    broadcast use crate::books::step_enqueue_adl;

    lemma_enqueued(e, ctx, side, q, d);
}

proof fn lemma_routed(e: RiskEngine, ctx: InstructionContext, opp: Side, q: u128, d: u128)
    requires
        0 < e.open_on(opp),
        e.stored_on(opp) != 0,
        e.route_deficit(ctx, opp, e.open_on(opp) as u128, q, d).2 is Ok,
    ensures
        ({
            let s = e.route_deficit(ctx, opp, e.open_on(opp) as u128, q, d).0;
            &&& s.insurance_fund == e.insurance_fund
            &&& s.vault == e.vault
            &&& s.explicit_unallocated_protocol_loss.0 == lesser(
                e.explicit_unallocated_protocol_loss.0 + e.protocol_takes(opp, d as int),
                u128::MAX as int,
            )
            &&& e.bankruptcy_hmax_lock_active ==> s.bankruptcy_hmax_lock_active
        }),
{
    reveal(RiskEngine::route_deficit);
    reveal(RiskEngine::book_or_start_spec);
    reveal(RiskEngine::book_residual_chunk_spec);
    let own = e.ownerless_on(opp);
    assert(d * own >= 0) by (nonlinear_arith)
        requires
            own >= 0,
    ;
    lemma_ceil_by_adding(d * own, e.open_on(opp));
}

broadcast proof fn route_moves_no_side(
    e: RiskEngine,
    ctx: InstructionContext,
    opp: Side,
    oi: u128,
    q: u128,
    d: u128,
)
    ensures
        ({
            let (s, c, r) = #[trigger] e.route_deficit(ctx, opp, oi, q, d);
            &&& e.same_multipliers(s)
            &&& s.side_mode_long == e.side_mode_long
            &&& s.side_mode_short == e.side_mode_short
            &&& s.oi_eff_long_q == e.oi_eff_long_q
            &&& s.oi_eff_short_q == e.oi_eff_short_q
            &&& s.stored_pos_count_long == e.stored_pos_count_long
            &&& s.stored_pos_count_short == e.stored_pos_count_short
        }),
{
    reveal(RiskEngine::route_deficit);
    reveal(RiskEngine::book_or_start_spec);
    reveal(RiskEngine::book_residual_chunk_spec);
}

broadcast proof fn losses_move_no_count(e: RiskEngine, i: int, ctx: Option<InstructionContext>)
    ensures
        ({
            let s = (#[trigger] e.settle_losses_spec(i, ctx)).0;
            &&& s.stored_pos_count_long == e.stored_pos_count_long
            &&& s.stored_pos_count_short == e.stored_pos_count_short
        }),
{
    reveal(RiskEngine::settle_losses_spec);
    reveal(RiskEngine::set_capital_spec);
    reveal(RiskEngine::set_pnl_with_reserve_spec);
    reveal(RiskEngine::append_or_route_new_reserve_spec);
    reveal(RiskEngine::admit_fresh_reserve_h_lock_spec);
    reveal(RiskEngine::apply_reserve_loss_newest_first_spec);
}

broadcast proof fn attaching_counts_on_its_side(e: RiskEngine, i: int, eff: i128, spike: bool)
    requires
        0 <= i < MAX_ACCOUNTS,
    ensures
        ({
            let (s, r) = #[trigger] e.attach_effective_position_inner_spec(i, eff, spike);
            let basis = e.accounts@[i].position_basis_q;
            &&& r is Ok && basis <= 0 && eff <= 0 ==> s.stored_pos_count_long
                == e.stored_pos_count_long
            &&& r is Ok && basis >= 0 && eff >= 0 ==> s.stored_pos_count_short
                == e.stored_pos_count_short
        }),
{
    reveal(RiskEngine::attach_effective_position_inner_spec);
    reveal(RiskEngine::set_position_basis_q_inner_spec);
}

proof fn lemma_closed_market(
    e: RiskEngine,
    i: int,
    eff: i128,
    q: u128,
    price: u64,
    ctx: InstructionContext,
)
    requires
        0 <= i < MAX_ACCOUNTS,
        e.liquidation_closed(i, eff, q, price, ctx).2 is Ok,
    ensures
        ({
            let t = e.liquidation_closed(i, eff, q, price, ctx).0;
            let a = e.accounts@[i];
            let basis = a.position_basis_q;
            let left = a.capital.0 - lesser(a.loss(), a.capital.0 as int);
            let paid = lesser(e.cost_of_closing(q as int, price as int), left);
            &&& e.same_indices(t)
            &&& t.insurance_fund.balance.0 == e.insurance_fund.balance.0 + paid
            &&& t.accounts@[i].pnl == a.pnl + lesser(a.loss(), a.capital.0 as int)
            &&& basis <= 0 && eff <= 0 ==> t.stored_on(Side::Long) == e.stored_on(Side::Long)
            &&& basis >= 0 && eff >= 0 ==> t.stored_on(Side::Short) == e.stored_on(Side::Short)
        }),
{
    broadcast use {
        frame_attach,
        frame_settle_losses,
        frame_charge_fee,
        index_settle_losses,
        losses_move_no_count,
        attaching_counts_on_its_side,
        crate::books::step_attach,
        crate::books::step_settle_losses,
    };

    reveal(RiskEngine::liquidation_closed);
    let t = e.attach_effective_position_spec(i, eff).0;
    let u = t.settle_losses_spec(i, Some(ctx)).0;
    law_liquidation_fee(u, q, price);
    crate::liquidation_laws::lemma_cost_is_bounded(u, q, price);
    reveal(RiskEngine::charge_fee_spec);
    reveal(RiskEngine::set_capital_spec);
}

/// A liquidation takes off both sides exactly what it closes of the position: all of it, or
/// the part that was asked for. The fee goes to the insurance fund, and of what the account
/// has lost beyond its capital the fund pays what it can.
pub proof fn law_liquidation_closes_on_both_sides(
    e: RiskEngine,
    i: int,
    price: u64,
    policy: LiquidationPolicy,
    ctx: InstructionContext,
)
    requires
        e.sides_in_range(),
        e.liquidate_internal_spec(i, price, policy, ctx).2 == Ok::<bool, RiskError>(true),
    ensures
        ({
            let (s, c, _) = e.liquidate_internal_spec(i, price, policy, ctx);
            let a = e.accounts@[i];
            let held = e.held(i);
            let side = if held > 0 {
                Side::Long
            } else {
                Side::Short
            };
            let q = match policy {
                LiquidationPolicy::FullClose => size_of(held),
                LiquidationPolicy::ExactPartial(part) => part as int,
            };
            let short_of = match policy {
                LiquidationPolicy::FullClose => greater(a.loss() - a.capital.0, 0),
                LiquidationPolicy::ExactPartial(_) => 0,
            };
            let left = a.capital.0 - lesser(a.loss(), a.capital.0 as int);
            let fund = e.insurance_fund.balance.0 + lesser(
                e.cost_of_closing(q, price as int),
                left,
            );
            &&& held != 0
            &&& e.closes_to(s, c, side, q)
            &&& s.insurance_fund.balance.0 == fund - lesser(short_of, fund)
        }),
{
    broadcast use {lemma_ledger_of_account, frame_set_pnl, index_set_pnl};

    law_liquidation_of_an_account(e, i, price, policy, ctx);
    reveal(RiskEngine::liquidate_internal_spec);
    law_effective_position_is_what_is_held(e, i, false);
    let old = e.effective_pos_q_spec(i, false)->Ok_0;
    let side = crate::sides::some_side(old);
    match policy {
        LiquidationPolicy::FullClose => {
            reveal(RiskEngine::liquidate_full);
            let q = crate::wide_math::abs_int(old as int) as u128;
            lemma_closed_market(e, i, 0, q, price, ctx);
            let (t, c, _) = e.liquidation_closed(i, 0, q, price, ctx);
            crate::liquidation_laws::lemma_closed(e, i, 0, q, price, ctx);
            law_effective_position_is_what_is_held(t, i, false);
            lemma_enqueued(t, c, side, q, t.deficit_of(i)->Ok_0);
        },
        LiquidationPolicy::ExactPartial(q) => {
            reveal(RiskEngine::liquidate_partial);
            let new = if old > 0 {
                (old - q) as i128
            } else {
                (old + q) as i128
            };
            lemma_closed_market(e, i, new, q, price, ctx);
            let (t, c, _) = e.liquidation_closed(i, new, q, price, ctx);
            lemma_enqueued(t, c, side, q, 0);
        },
    }
}

} // verus!
