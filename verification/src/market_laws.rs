//! Laws of the sides, of trades, of fees, of slots and of closing.

use vstd::prelude::*;

use crate::books::{lemma_ledger_of_account, step_set_pnl};
use crate::constants::{ADL_ONE, MAX_ACCOUNTS, MAX_PROTOCOL_FEE_ABS, MIN_A_SIDE, SOCIAL_LOSS_DEN};
use crate::context::InstructionContext;
use crate::sides::opposite_side;
use crate::types::{Account, MarketMode, RiskEngine, RiskError, Side, SideMode};

verus! {

/// A smaller multiplier shrinks every position of the side, each to its share
/// rounded down.
pub proof fn law_positions_shrink_by_the_same_ratio(basis: int, a_basis: int, a: int, smaller: int)
    requires
        0 <= basis,
        0 < a_basis,
        0 <= smaller <= a,
    ensures
        ({
            let eff = RiskEngine::effective_abs(basis, a, a_basis);
            let shrunk = RiskEngine::effective_abs(basis, smaller, a_basis);
            &&& 0 <= shrunk <= eff
            &&& basis * a - a_basis < eff * a_basis <= basis * a
            &&& basis * smaller - a_basis < shrunk * a_basis <= basis * smaller
        }),
{
    assert(0 <= basis * smaller <= basis * a) by (nonlinear_arith)
        requires
            0 <= basis,
            0 <= smaller <= a,
    ;
    lemma_floor_share(basis * a, a_basis);
    lemma_floor_share(basis * smaller, a_basis);
    vstd::arithmetic::div_mod::lemma_div_is_ordered(basis * smaller, basis * a, a_basis);
}

proof fn lemma_floor_share(x: int, d: int)
    requires
        0 < d,
    ensures
        x - d < x / d * d <= x,
        0 <= x ==> 0 <= x / d,
{
    vstd::arithmetic::div_mod::lemma_fundamental_div_mod(x, d);
    assert(d * (x / d) == x / d * d) by (nonlinear_arith);
    if 0 <= x {
        vstd::arithmetic::div_mod::lemma_div_pos_is_pos(x, d);
    }
}

/// Clearing an overhang only lowers the multiplier of the side, in proportion to the
/// interest that is left, and a multiplier below the threshold drains the side.
pub proof fn law_overhang_shrinks_the_side(
    e: RiskEngine,
    ctx: InstructionContext,
    liq_side: Side,
    oi: u128,
    q_close_q: u128,
)
    requires
        q_close_q <= oi,
        0 < oi,
        e.shrink_side(ctx, liq_side, oi, q_close_q).2 is Ok,
    ensures
        ({
            let opp = opposite_side(liq_side);
            let (s, c, _) = e.shrink_side(ctx, liq_side, oi, q_close_q);
            let left = oi - q_close_q;
            &&& s.get_a_side(opp) <= e.get_a_side(opp)
            &&& s.get_oi_eff(opp) == left || s.get_oi_eff(opp) == 0
            &&& s.get_oi_eff(opp) != 0 ==> {
                &&& 0 < s.get_a_side(opp)
                &&& s.get_a_side(opp) * oi <= e.get_a_side(opp) * left
                &&& s.get_a_side(opp) < MIN_A_SIDE ==> s.get_side_mode(opp) == SideMode::DrainOnly
            }
        }),
{
    reveal(RiskEngine::shrink_side);
    let opp = opposite_side(liq_side);
    let left = oi - q_close_q;
    let a = e.get_a_side(opp) as int;
    crate::equity::lemma_share_within(a, left, oi as int);
    lemma_floor_share(a * left, oi as int);
}

/// A reset starts a new epoch: the indices that the positions of the old epoch settle
/// against are kept, the multiplier is one again, and all stored positions are stale.
pub proof fn law_reset_starts_a_new_epoch(e: RiskEngine, side: Side)
    requires
        e.begin_reset_spec(side).1 is Ok,
    ensures
        ({
            let s = e.begin_reset_spec(side).0;
            &&& e.get_oi_eff(side) == 0
            &&& s.get_epoch_side(side) == e.get_epoch_side(side) + 1
            &&& s.get_k_epoch_start(side) == e.get_k_side(side)
            &&& s.get_f_epoch_start(side) == e.get_f_side(side)
            &&& s.get_k_side(side) == 0
            &&& s.get_f_side(side) == 0
            &&& s.get_a_side(side) == ADL_ONE
            &&& s.get_side_mode(side) == SideMode::ResetPending
            &&& s.get_stale_count(side) == s.get_stored_pos_count(side)
            &&& s.get_a_side(opposite_side(side)) == e.get_a_side(opposite_side(side))
            &&& s.get_k_side(opposite_side(side)) == e.get_k_side(opposite_side(side))
            &&& s.get_epoch_side(opposite_side(side)) == e.get_epoch_side(opposite_side(side))
            &&& s.get_side_mode(opposite_side(side)) == e.get_side_mode(opposite_side(side))
        }),
{
    reveal(RiskEngine::begin_reset_spec);
}

/// A side reopens exactly when its reset is pending and it holds no interest, no
/// stored position and no stale account. Nothing else changes its mode to normal.
pub proof fn law_side_reopens_exactly_when_settled(e: RiskEngine, side: Side)
    requires
        e.get_side_mode(side) != SideMode::Normal,
    ensures
        e.with_ready_side(side).get_side_mode(side) == SideMode::Normal <==> {
            &&& e.get_side_mode(side) == SideMode::ResetPending
            &&& e.get_oi_eff(side) == 0
            &&& e.get_stale_count(side) == 0
            &&& e.get_stored_pos_count(side) == 0
        },
        e.with_ready_side(side).get_side_mode(side) != SideMode::Normal ==> e.with_ready_side(side)
            == e,
{
}

/// No side waits without a reason: at the end of an instruction a side that drains
/// still has open interest, and a side that waits for its reset still has a position
/// that has not settled.
pub proof fn law_no_side_waits_without_a_reason(e: RiskEngine, ctx: InstructionContext, side: Side)
    requires
        e.close_spec(ctx).1 is Ok,
    ensures
        ({
            let s = e.close_spec(ctx).0;
            &&& s.get_side_mode(side) == SideMode::DrainOnly ==> s.get_oi_eff(side) != 0
            &&& s.get_side_mode(side) == SideMode::ResetPending ==> {
                ||| s.get_oi_eff(side) != 0
                ||| s.get_stored_pos_count(side) != 0
                ||| s.get_stale_count(side) != 0
            }
        }),
{
    reveal(RiskEngine::close_spec);
    reveal(RiskEngine::schedule_resets_spec);
    reveal(RiskEngine::finalize_resets_spec);
    reveal(RiskEngine::begin_reset_spec);
}

/// A draining side takes no new interest, and a side that waits for its reset opens
/// no position.
pub proof fn law_closed_side_takes_no_interest(
    e: RiskEngine,
    old_a: i128,
    new_a: i128,
    old_b: i128,
    new_b: i128,
)
    requires
        e.trade_interest(old_a, new_a, old_b, new_b) is Ok,
    ensures
        ({
            let (long, short) = e.trade_interest(old_a, new_a, old_b, new_b)->Ok_0;
            &&& e.side_mode_long != SideMode::Normal ==> long <= e.oi_eff_long_q
            &&& e.side_mode_short != SideMode::Normal ==> short <= e.oi_eff_short_q
            &&& e.side_mode_long == SideMode::ResetPending ==> new_a <= 0 && new_b <= 0
            &&& e.side_mode_short == SideMode::ResetPending ==> new_a >= 0 && new_b >= 0
        }),
{
}

/// A trade adds the same to both sides: what one account takes on, the other takes
/// off, and equal interest stays equal.
pub proof fn law_trade_keeps_interest_balanced(
    e: RiskEngine,
    old_a: i128,
    old_b: i128,
    size_q: i128,
)
    requires
        e.oi_eff_long_q == e.oi_eff_short_q,
        i128::MIN < old_a + size_q <= i128::MAX,
        i128::MIN < old_b - size_q <= i128::MAX,
        i128::MIN < old_a,
        i128::MIN < old_b,
        e.bilateral_oi_spec(
            old_a,
            (old_a + size_q) as i128,
            old_b,
            (old_b - size_q) as i128,
        ) is Ok,
    ensures
        ({
            let (long, short) = e.bilateral_oi_spec(
                old_a,
                (old_a + size_q) as i128,
                old_b,
                (old_b - size_q) as i128,
            )->Ok_0;
            long == short
        }),
{
}

/// The profit of a trade is exchanged: what one account gains, the other loses.
pub proof fn law_trade_is_zero_sum(
    e: RiskEngine,
    a: int,
    b: int,
    pnl_a: i128,
    ctx: InstructionContext,
)
    requires
        0 <= a < MAX_ACCOUNTS,
        0 <= b < MAX_ACCOUNTS,
        a != b,
        pnl_a != i128::MIN,
        e.exchange_pnl(a, b, pnl_a, ctx).2 is Ok,
    ensures
        ({
            let s = e.exchange_pnl(a, b, pnl_a, ctx).0;
            &&& s.accounts@[a].pnl == e.accounts@[a].pnl + pnl_a
            &&& s.accounts@[b].pnl == e.accounts@[b].pnl - pnl_a
            &&& s.accounts@[a].pnl + s.accounts@[b].pnl == e.accounts@[a].pnl + e.accounts@[b].pnl
        }),
{
    broadcast use step_set_pnl;

    lemma_pnl_is_written(e, a, (e.accounts@[a].pnl + pnl_a) as i128, ctx);
    let (s, c, r) = e.add_pnl(a, pnl_a, ctx);
    lemma_pnl_is_written(s, b, (s.accounts@[b].pnl - pnl_a) as i128, c);
}

proof fn lemma_pnl_is_written(e: RiskEngine, i: int, pnl: i128, ctx: InstructionContext)
    requires
        0 <= i < MAX_ACCOUNTS,
    ensures
        ({
            let (s, _, r) = e.set_pnl_with_reserve_spec(
                i,
                pnl,
                crate::types::ReserveMode::UseAdmissionPair(
                    ctx.admit_h_min_shared,
                    ctx.admit_h_max_shared,
                ),
                Some(ctx),
            );
            r is Ok ==> s.accounts@[i].pnl == pnl
        }),
{
    broadcast use lemma_ledger_of_account;

    reveal(RiskEngine::set_pnl_with_reserve_spec);
    reveal(RiskEngine::admit_fresh_reserve_h_lock_spec);
    reveal(RiskEngine::append_or_route_new_reserve_spec);
    reveal(RiskEngine::apply_reserve_loss_newest_first_spec);
}

/// A fee is accounted for to the last atom: what the account paid went to the
/// insurance fund, what it could not pay became debt, and the rest was dropped.
pub proof fn law_fee_is_accounted_for(e: RiskEngine, i: int, fee: u128)
    requires
        0 <= i < MAX_ACCOUNTS,
        e.charge_fee_spec(i, fee).1 is Ok,
    ensures
        ({
            let (s, r) = e.charge_fee_spec(i, fee);
            let (paid, impact, dropped) = r->Ok_0;
            let a = e.accounts@[i];
            let b = s.accounts@[i];
            &&& impact + dropped == fee
            &&& paid <= impact
            &&& a.capital.get() - b.capital.get() == paid
            &&& s.insurance_fund.balance.get() - e.insurance_fund.balance.get() == paid
            &&& e.c_tot.get() - s.c_tot.get() == paid
            &&& a.fee_credits.get() - b.fee_credits.get() == impact - paid
            &&& paid < fee ==> b.capital.get() == 0
            &&& b == Account { capital: b.capital, fee_credits: b.fee_credits, ..a }
        }),
{
    broadcast use lemma_ledger_of_account;

    reveal(RiskEngine::charge_fee_spec);
    reveal(RiskEngine::set_capital_spec);
    let a = e.accounts@[i];
    let s = e.charge_fee_spec(i, fee).0;
    assert(a.fee_credits.get() <= 0 && a.fee_credits.get() > i128::MIN);
}

/// Recurring fees are charged once for each slot: syncing an account again to the
/// same slot changes nothing.
pub proof fn law_fee_sync_happens_once(e: RiskEngine, i: int, anchor: u64, rate: u128)
    requires
        0 <= i < MAX_ACCOUNTS,
        e.sync_fee_spec(i, anchor, rate).1 is Ok,
    ensures
        ({
            let s = e.sync_fee_spec(i, anchor, rate).0;
            &&& s.accounts@[i].last_fee_slot == anchor
            &&& s.sync_fee_spec(i, anchor, rate).1 is Ok ==> s.sync_fee_spec(i, anchor, rate).0
                == s
        }),
{
    broadcast use lemma_ledger_of_account;

    reveal(RiskEngine::sync_fee_spec);
}

/// Recurring fees add up: two stretches together are charged what they are charged
/// apart, as long as the cap is not reached.
pub proof fn law_recurring_fee_adds_up(rate: u128, first: int, second: int)
    requires
        0 <= first,
        0 <= second,
    ensures
        rate * (first + second) <= MAX_PROTOCOL_FEE_ABS ==> RiskEngine::recurring_fee(
            rate,
            first + second,
        ) == RiskEngine::recurring_fee(rate, first) + RiskEngine::recurring_fee(rate, second),
        RiskEngine::recurring_fee(rate, first + second) <= MAX_PROTOCOL_FEE_ABS,
{
    assert(rate * (first + second) == rate * first + rate * second) by (nonlinear_arith);
    assert(0 <= rate * first && 0 <= rate * second) by (nonlinear_arith)
        requires
            0 <= first,
            0 <= second,
    ;
}

/// Paying fee debt in takes at most the debt.
pub proof fn law_fee_credits_never_turn_positive(
    e: RiskEngine,
    idx: u16,
    amount: u128,
    now_slot: u64,
)
    requires
        e.deposit_fee_credits_spec(idx, amount, now_slot).1 is Ok,
    ensures
        ({
            let (s, r) = e.deposit_fee_credits_spec(idx, amount, now_slot);
            let a = e.accounts@[idx as int];
            let b = s.accounts@[idx as int];
            &&& r->Ok_0 <= amount
            &&& r->Ok_0 <= a.fee_debt()
            &&& b.fee_credits.get() == a.fee_credits.get() + r->Ok_0
            &&& b.fee_credits.get() <= 0
        }),
{
    broadcast use lemma_ledger_of_account;

    reveal(RiskEngine::deposit_fee_credits_spec);
}

/// A side of a bankrupt close is read back as it was written.
pub proof fn law_close_side_round_trips(side: Side)
    ensures
        RiskEngine::decode_active_close_side(RiskEngine::encode_active_close_side(side)) == Ok::<
            Side,
            RiskError,
        >(side),
{
}

/// A freed slot can be taken again, and the free list is then as it was before.
pub proof fn law_freed_slot_can_be_taken_again(e: RiskEngine, idx: u16, anchor: u64)
    requires
        e.free_slot_spec(idx).1 is Ok,
        e.num_used_accounts <= e.params.max_accounts,
        e.materialized_account_count <= e.params.max_accounts,
    ensures
        ({
            let s = e.free_slot_spec(idx).0;
            &&& !s.slot_used(idx as int)
            &&& s.free_head == idx
            &&& s.materialize_at_spec(idx, anchor).1 is Ok
            &&& s.materialize_at_spec(idx, anchor).0.slot_used(idx as int)
            &&& s.materialize_at_spec(idx, anchor).0.free_head == e.free_head
            &&& s.materialize_at_spec(idx, anchor).0.num_used_accounts == e.num_used_accounts
        }),
{
    reveal(RiskEngine::free_slot_spec);
    reveal(RiskEngine::materialize_at_spec);
    let i = idx as int;
    let freed = e.with_account(i, e.accounts@[i].cleared_spec(0));
    freed.lemma_with_unused(i);
    let s = e.free_slot_spec(idx).0;
    assert(forall|j: int| #[trigger] s.slot_used(j) == freed.with_unused(i).slot_used(j));
    assert(forall|j: int| #[trigger] freed.slot_used(j) == e.slot_used(j));
    s.unlink_free(i).lemma_with_used(i);
    if e.free_head != u16::MAX {
        assert(e.free_head as int != i);
        assert(!s.slot_used(e.free_head as int));
    }
    let t = s.materialize_at_spec(idx, anchor).0;
    assert(t.slot_used(i) == s.unlink_free(i).with_used(i).slot_used(i));
}

/// Reconciling an account of a resolved market settles it for good: it holds no
/// position, no reserve and no loss.
pub proof fn law_reconciled_account_is_settled(e: RiskEngine, i: int)
    requires
        e.reconcile_spec(i).1 is Ok,
    ensures
        ({
            let a = e.reconcile_spec(i).0.accounts@[i];
            &&& a.position_basis_q == 0
            &&& a.reserved_pnl == 0
            &&& a.pnl >= 0
        }),
{
    broadcast use lemma_ledger_of_account;

    reveal(RiskEngine::reconcile_spec);
    let s = e.with_reserve_released(i);
    lemma_reconciled_position(s, i);
    let t = s.position_reconciled(i).0;
    lemma_paid_loss_keeps_rest(t, i);
    lemma_absorbed_loss(t.settle_losses_spec(i, None).0, i);
}

proof fn lemma_reconciled_position(e: RiskEngine, i: int)
    requires
        0 <= i < MAX_ACCOUNTS,
        e.market_mode == MarketMode::Resolved,
        e.accounts@[i].reserved_pnl == 0,
    ensures
        e.position_reconciled(i).1 is Ok ==> {
            let s = e.position_reconciled(i).0;
            &&& s.accounts@[i].position_basis_q == 0
            &&& s.accounts@[i].reserved_pnl == 0
            &&& s.market_mode == MarketMode::Resolved
        },
{
    broadcast use lemma_ledger_of_account;

    reveal(RiskEngine::position_reconciled);
    reveal(RiskEngine::set_pnl_with_reserve_spec);
    reveal(RiskEngine::set_position_basis_q_inner_spec);
}

proof fn lemma_paid_loss_keeps_rest(e: RiskEngine, i: int)
    requires
        0 <= i < MAX_ACCOUNTS,
        e.market_mode == MarketMode::Resolved,
    ensures
        e.settle_losses_spec(i, None).2 is Ok ==> {
            let s = e.settle_losses_spec(i, None).0;
            &&& s.accounts@[i].position_basis_q == e.accounts@[i].position_basis_q
            &&& s.accounts@[i].reserved_pnl == e.accounts@[i].reserved_pnl
            &&& s.market_mode == MarketMode::Resolved
        },
{
    broadcast use lemma_ledger_of_account;

    reveal(RiskEngine::settle_losses_spec);
    reveal(RiskEngine::set_capital_spec);
    reveal(RiskEngine::set_pnl_with_reserve_spec);
}

proof fn lemma_absorbed_loss(e: RiskEngine, i: int)
    requires
        0 <= i < MAX_ACCOUNTS,
        e.market_mode == MarketMode::Resolved,
        e.accounts@[i].position_basis_q == 0,
    ensures
        e.resolve_flat_negative_spec(i, None).2 is Ok ==> {
            let a = e.resolve_flat_negative_spec(i, None).0.accounts@[i];
            &&& a.position_basis_q == 0
            &&& a.pnl >= 0
            &&& a.reserved_pnl == e.accounts@[i].reserved_pnl
        },
{
    broadcast use lemma_ledger_of_account;

    reveal(RiskEngine::resolve_flat_negative_spec);
    reveal(RiskEngine::effective_pos_q_spec);
    reveal(RiskEngine::set_pnl_with_reserve_spec);
}

/// An account that has just taken its slot holds and owns nothing.
pub proof fn lemma_fresh_account_is_empty(e: RiskEngine, idx: u16, anchor: u64)
    requires
        idx < MAX_ACCOUNTS,
        !e.slot_used(idx as int),
    ensures
        ({
            let (s, r) = e.materialize_at_spec(idx, anchor);
            let a = s.accounts@[idx as int];
            r is Ok ==> {
                &&& s.slot_used(idx as int)
                &&& a.capital.get() == 0
                &&& a.pnl == 0
                &&& a.fee_credits.get() == 0
                &&& s.insurance_fund == e.insurance_fund
            }
        }),
{
    broadcast use lemma_ledger_of_account;

    reveal(RiskEngine::materialize_at_spec);
    let i = idx as int;
    e.unlink_free(i).lemma_with_used(i);
    let (s, r) = e.materialize_at_spec(idx, anchor);
    if r is Ok {
        assert(s.slot_used(i) == e.unlink_free(i).with_used(i).slot_used(i));
    }
}

/// A deposit is credited in full: on an account without position, loss or fee debt,
/// or on a fresh one, the capital grows by exactly the amount.
pub proof fn law_deposit_is_credited_in_full(
    e: RiskEngine,
    idx: u16,
    amount: u128,
    now_slot: u64,
)
    requires
        e.sound(),
        e.deposit_spec(idx, amount, now_slot).1 is Ok,
        e.slot_used(idx as int) ==> {
            let a = e.accounts@[idx as int];
            &&& a.pnl >= 0
            &&& a.fee_credits.get() == 0
        },
    ensures
        ({
            let s = e.deposit_spec(idx, amount, now_slot).0;
            let before = if e.slot_used(idx as int) {
                e.accounts@[idx as int].capital.get() as int
            } else {
                0
            };
            &&& idx < MAX_ACCOUNTS
            &&& s.slot_used(idx as int)
            &&& s.accounts@[idx as int].capital.get() == before + amount
            &&& s.insurance_fund == e.insurance_fund
        }),
{
    broadcast use lemma_ledger_of_account;

    reveal(RiskEngine::deposit_spec);
    reveal(RiskEngine::set_capital_spec);
    reveal(RiskEngine::settle_losses_spec);
    reveal(RiskEngine::fee_debt_sweep_spec);
    if !e.slot_used(idx as int) && idx < MAX_ACCOUNTS {
        lemma_fresh_account_is_empty(e, idx, now_slot);
    }
}

/// Every free slot of a sound market can be taken into use.
pub proof fn law_every_free_slot_can_be_taken(e: RiskEngine, idx: u16, anchor: u64)
    requires
        e.sound(),
        idx < e.params.max_accounts,
        !e.slot_used(idx as int),
    ensures
        e.materialize_at_spec(idx, anchor).1 is Ok,
        e.materialize_at_spec(idx, anchor).0.slot_used(idx as int),
{
    reveal(RiskEngine::public_post);
    reveal(RiskEngine::materialize_at_spec);
    reveal(crate::slab::free_slots_linked);
    let i = idx as int;
    lemma_used_slots(e, idx as int, MAX_ACCOUNTS as int);
    assert(e.free_links_agree(i));
    e.unlink_free(i).lemma_with_used(i);
    let t = e.materialize_at_spec(idx, anchor).0;
    assert(t.slot_used(i) == e.unlink_free(i).with_used(i).slot_used(i));
}

/// Slots in use are within the bound of the market.
proof fn lemma_used_slots(e: RiskEngine, free: int, n: int)
    requires
        0 <= n <= MAX_ACCOUNTS,
        0 <= free < e.params.max_accounts,
        !e.slot_used(free),
        e.slots_check(n) is Ok,
    ensures
        e.counts_below(n).used <= crate::wide_math::min_int(
            n,
            e.params.max_accounts as int,
        ) - if free
            < n {
            1int
        } else {
            0int
        },
    decreases n,
{
    if n > 0 {
        lemma_used_slots(e, free, n - 1);
    }
}

/// Settlement is pro rata: positions of one side that stand at the same snapshots gain
/// and lose together, and splitting or joining them gains nothing but rounding.
pub proof fn law_settlement_is_pro_rata(a: int, b: int, dk: int, df: int, den: int)
    requires
        0 <= a,
        0 <= b,
        0 < den,
    ensures
        ({
            let apart = RiskEngine::kf_pnl_delta(a, dk, df, den) + RiskEngine::kf_pnl_delta(
                b,
                dk,
                df,
                den,
            );
            apart <= RiskEngine::kf_pnl_delta(a + b, dk, df, den) <= apart + 1
        }),
{
    let m = dk * crate::constants::FUNDING_DEN + df;
    let d = den * crate::constants::FUNDING_DEN;
    assert(d > 0);
    assert((a + b) * m == a * m + b * m) by (nonlinear_arith);
    lemma_floors_add(a * m, b * m, d);
}

proof fn lemma_floors_add(x: int, y: int, d: int)
    requires
        0 < d,
    ensures
        x / d + y / d <= (x + y) / d <= x / d + y / d + 1,
{
    vstd::arithmetic::div_mod::lemma_fundamental_div_mod(x, d);
    vstd::arithmetic::div_mod::lemma_fundamental_div_mod(y, d);
    vstd::arithmetic::div_mod::lemma_fundamental_div_mod(x + y, d);
    let (p, q, r) = (x / d, y / d, (x + y) / d);
    assert(p + q <= r <= p + q + 1) by (nonlinear_arith)
        requires
            x == d * p + x % d,
            y == d * q + y % d,
            x + y == d * r + (x + y) % d,
            0 <= x % d < d,
            0 <= y % d < d,
            0 <= (x + y) % d < d,
            0 < d,
    ;
}

/// A stale position settles once and leaves: settling it against the indices at the
/// end of its epoch removes it, and its side waits for one account less.
pub proof fn law_stale_account_settles_and_leaves(e: RiskEngine, i: int, ctx: InstructionContext)
    requires
        0 <= i < MAX_ACCOUNTS,
        e.is_stale(i),
        e.settle_side_effects_live_spec(i, ctx).2 is Ok,
    ensures
        ({
            let side = crate::sides::some_side(e.accounts@[i].position_basis_q);
            let s = e.settle_side_effects_live_spec(i, ctx).0;
            &&& s.accounts@[i].position_basis_q == 0
            &&& Ok::<i128, RiskError>(s.accounts@[i].pnl) == e.settled_pnl(
                i,
                e.get_k_epoch_start(side),
                e.get_f_epoch_start(side),
            )
            &&& s.get_stale_count(side) == e.get_stale_count(side) - 1
            &&& s.get_stored_pos_count(side) == e.get_stored_pos_count(side) - 1
            &&& s.get_side_mode(side) == e.get_side_mode(side)
        }),
{
    broadcast use {lemma_ledger_of_account, crate::isolation::index_set_pnl};

    reveal(RiskEngine::settle_side_effects_live_spec);
    reveal(RiskEngine::set_position_basis_q_inner_spec);
    lemma_written_pnl(e, i, ctx);
}

proof fn lemma_written_pnl(e: RiskEngine, i: int, ctx: InstructionContext)
    requires
        0 <= i < MAX_ACCOUNTS,
    ensures
        forall|v: i128, mode: crate::types::ReserveMode|
            ({
                let (s, _, r) = #[trigger] e.set_pnl_with_reserve_spec(i, v, mode, Some(ctx));
                r is Ok ==> {
                    &&& s.accounts@[i].pnl == v
                    &&& s.accounts@[i].position_basis_q == e.accounts@[i].position_basis_q
                    &&& s.stored_pos_count_long == e.stored_pos_count_long
                    &&& s.stored_pos_count_short == e.stored_pos_count_short
                    &&& s.stale_account_count_long == e.stale_account_count_long
                    &&& s.stale_account_count_short == e.stale_account_count_short
                    &&& s.side_mode_long == e.side_mode_long
                    &&& s.side_mode_short == e.side_mode_short
                }
            }),
{
    broadcast use lemma_ledger_of_account;

    reveal(RiskEngine::set_pnl_with_reserve_spec);
    reveal(RiskEngine::admit_fresh_reserve_h_lock_spec);
    reveal(RiskEngine::append_or_route_new_reserve_spec);
    reveal(RiskEngine::apply_reserve_loss_newest_first_spec);
}

/// A resolved market without accounts and without open interest pays out everything:
/// withdrawing its insurance is accepted and empties the vault.
pub proof fn law_empty_market_pays_everything_out(e: RiskEngine)
    requires
        e.sound(),
        e.market_mode == MarketMode::Resolved,
        e.num_used_accounts == 0,
        e.oi_eff_long_q == 0,
    ensures
        ({
            let (s, r) = e.withdraw_resolved_insurance_spec();
            &&& r == Ok::<u128, RiskError>(e.vault.get())
            &&& s.vault.get() == 0
            &&& s.insurance_fund.balance.get() == 0
        }),
{
    reveal(RiskEngine::withdraw_resolved_insurance_spec);
    reveal(RiskEngine::sweep_empty_market_surplus_spec);
    reveal(RiskEngine::public_post);
    assert forall|i: int| 0 <= i < MAX_ACCOUNTS implies !#[trigger] e.slot_used(i) by {
        lemma_none_used(e, i, MAX_ACCOUNTS as int);
    }
    assert forall|i: int| 0 <= i < MAX_ACCOUNTS implies (#[trigger] e.accounts@[i]).is_blank() by {
        assert(!e.slot_used(i));
        crate::conservation::lemma_slots_ok(e, MAX_ACCOUNTS as int, i);
    }
    assert forall|i: int| 0 <= i < e.accounts@.len() implies #[trigger] e.accounts@[i].entry() == (
        0int,
        0int,
        0int,
    ) by {
        assert(e.accounts@[i].is_blank());
    }
    crate::history::lemma_empty_ledger(e.accounts@);
    crate::history::lemma_blank_slots(e, MAX_ACCOUNTS as int);
    let swept = e.sweep_empty_market_surplus_spec().0;
    let paid = swept.with_funds(
        swept.vault.get() - swept.insurance_fund.balance.get(),
        0,
        swept.current_slot,
    );
    assert(forall|i: int| #[trigger] paid.slot_used(i) == e.slot_used(i));
    crate::history::lemma_blank_slots(paid, MAX_ACCOUNTS as int);
}

/// Where no slot counts as used, none is.
proof fn lemma_none_used(e: RiskEngine, i: int, n: int)
    requires
        0 <= i < n <= MAX_ACCOUNTS,
        e.counts_below(n).used == 0,
    ensures
        !e.slot_used(i),
    decreases n,
{
    lemma_used_at_most(e, n - 1);
    if i < n - 1 {
        lemma_none_used(e, i, n - 1);
    }
}

proof fn lemma_used_at_most(e: RiskEngine, n: int)
    requires
        0 <= n <= MAX_ACCOUNTS,
    ensures
        e.counts_below(n).used <= n,
    decreases n,
{
    if n > 0 {
        lemma_used_at_most(e, n - 1);
    }
}

/// A loss that the protocol takes over is accounted for: insurance pays as much as it
/// has, and the rest is recorded.
pub proof fn law_absorbed_loss_is_accounted_for(e: RiskEngine, loss: u128)
    requires
        e.explicit_unallocated_protocol_loss.get() + loss <= u128::MAX,
    ensures
        ({
            let s = e.with_loss_absorbed(loss);
            let paid = e.insurance_fund.balance.get() - s.insurance_fund.balance.get();
            let recorded = s.explicit_unallocated_protocol_loss.get()
                - e.explicit_unallocated_protocol_loss.get();
            &&& paid >= 0
            &&& recorded >= 0
            &&& paid + recorded == loss
            &&& recorded > 0 ==> s.insurance_fund.balance.get() == 0
        }),
{
}

impl RiskEngine {
    /// Loss that has been recorded without a claim, or that a bankrupt close still has
    /// to book, less what insurance holds.
    pub open spec fn loss_taken(self, side: Side) -> int {
        self.explicit_unallocated_protocol_loss.get() + match side {
            Side::Long => self.explicit_unallocated_loss_long.get(),
            Side::Short => self.explicit_unallocated_loss_short.get(),
        } + self.active_close_residual_remaining - self.insurance_fund.balance.get()
    }

    /// Loss that is booked on the weights of a side, in fractions of an atom.
    pub open spec fn loss_booked(self, side: Side) -> int {
        self.get_b_side(side) * self.get_loss_weight_sum(side) + self.get_social_remainder(side)
    }
}

/// A deficit is accounted for to the last fraction of an atom: what insurance pays,
/// what is recorded, what is booked on the opposing side and what a bankrupt close
/// still has to book add up to it.
pub proof fn law_deficit_is_accounted_for(
    e: RiskEngine,
    ctx: InstructionContext,
    liq_side: Side,
    q_close_q: u128,
    d: u128,
)
    requires
        e.active_close_ok(),
        e.active_close_present == 0,
        e.explicit_unallocated_protocol_loss.get() + d <= u128::MAX,
        e.explicit_unallocated_loss_long.get() + d <= u128::MAX,
        e.explicit_unallocated_loss_short.get() + d <= u128::MAX,
        e.enqueue_adl_spec(ctx, liq_side, q_close_q, d).2 is Ok,
    ensures
        ({
            let opp = opposite_side(liq_side);
            let s = e.enqueue_adl_spec(ctx, liq_side, q_close_q, d).0;
            (s.loss_taken(opp) - e.loss_taken(opp)) * SOCIAL_LOSS_DEN + s.loss_booked(opp)
                - e.loss_booked(opp) == d * SOCIAL_LOSS_DEN
        }),
{
    reveal(RiskEngine::enqueue_adl_spec);
    let closed = e.with_oi_eff(liq_side, (e.get_oi_eff(liq_side) - q_close_q) as u128);
    let locked = closed.trigger_bankruptcy_hmax_lock_spec(ctx);
    if d == 0 {
        lemma_insured_deficit(closed, ctx, liq_side, q_close_q, 0);
    } else {
        lemma_insured_deficit(
            locked.0.with_insurance_used(d),
            locked.1,
            liq_side,
            q_close_q,
            (d - locked.0.insurance_pays(d)) as u128,
        );
    }
}

proof fn lemma_insured_deficit(
    e: RiskEngine,
    ctx: InstructionContext,
    liq_side: Side,
    q_close_q: u128,
    d: u128,
)
    requires
        e.active_close_ok(),
        e.active_close_present == 0,
        e.explicit_unallocated_protocol_loss.get() + d <= u128::MAX,
        e.explicit_unallocated_loss_long.get() + d <= u128::MAX,
        e.explicit_unallocated_loss_short.get() + d <= u128::MAX,
        e.enqueue_adl_insured(ctx, liq_side, q_close_q, d).2 is Ok,
    ensures
        ({
            let opp = opposite_side(liq_side);
            let s = e.enqueue_adl_insured(ctx, liq_side, q_close_q, d).0;
            (s.loss_taken(opp) - e.loss_taken(opp)) * SOCIAL_LOSS_DEN + s.loss_booked(opp)
                - e.loss_booked(opp) == d * SOCIAL_LOSS_DEN
        }),
{
    let opp = opposite_side(liq_side);
    let oi = e.get_oi_eff(opp);
    let (s, c, r) = e.route_deficit(ctx, opp, oi, q_close_q, d);
    if oi == 0 {
    } else if e.get_stored_pos_count(opp) == 0 {
        reveal(RiskEngine::drain_unheld_side);
    } else if r is Ok {
        lemma_routed_deficit(e, ctx, opp, oi, q_close_q, d);
        lemma_shrinking_takes_no_loss(s, c, liq_side, oi, q_close_q);
    }
}

proof fn lemma_shrinking_takes_no_loss(
    e: RiskEngine,
    ctx: InstructionContext,
    liq_side: Side,
    oi: u128,
    q_close_q: u128,
)
    ensures
        ({
            let opp = opposite_side(liq_side);
            let s = e.shrink_side(ctx, liq_side, oi, q_close_q).0;
            &&& s.loss_taken(opp) == e.loss_taken(opp)
            &&& s.loss_booked(opp) == e.loss_booked(opp)
        }),
{
    reveal(RiskEngine::shrink_side);
}

proof fn lemma_routed_deficit(
    e: RiskEngine,
    ctx: InstructionContext,
    opp: Side,
    oi: u128,
    q_close_q: u128,
    d: u128,
)
    requires
        0 < oi,
        e.active_close_ok(),
        e.active_close_present == 0,
        e.explicit_unallocated_protocol_loss.get() + d <= u128::MAX,
        e.explicit_unallocated_loss_long.get() + d <= u128::MAX,
        e.explicit_unallocated_loss_short.get() + d <= u128::MAX,
        e.route_deficit(ctx, opp, oi, q_close_q, d).2 is Ok,
    ensures
        ({
            let s = e.route_deficit(ctx, opp, oi, q_close_q, d).0;
            (s.loss_taken(opp) - e.loss_taken(opp)) * SOCIAL_LOSS_DEN + s.loss_booked(opp)
                - e.loss_booked(opp) == d * SOCIAL_LOSS_DEN
        }),
{
    reveal(RiskEngine::route_deficit);
    let certified = crate::wide_math::min_int(
        e.get_phantom_dust_certified(opp) as int,
        oi as int,
    ) as u128;
    let phantom = RiskEngine::phantom_part(d, certified, oi);
    let social = (d - phantom) as u128;
    lemma_phantom_within(d, certified, oi);
    let e1 = e.with_protocol_loss(phantom);
    let potential = crate::wide_math::min_int(
        e.get_phantom_dust_potential(opp) as int,
        oi as int,
    );
    if social != 0 && potential <= certified {
        lemma_booked_or_started(
            e1,
            ctx,
            opp,
            e1.last_oracle_price,
            e1.current_slot,
            q_close_q,
            social,
        );
    }
}

proof fn lemma_phantom_within(d: u128, certified: u128, oi: u128)
    requires
        0 < oi,
    ensures
        0 <= RiskEngine::phantom_part(d, certified, oi) <= d,
{
    assert(0 <= d * certified) by (nonlinear_arith)
        requires
            0 <= d,
            0 <= certified,
    ;
    vstd::arithmetic::div_mod::lemma_div_pos_is_pos(d * certified, oi as int);
}

proof fn lemma_booked_or_started(
    e: RiskEngine,
    ctx: InstructionContext,
    side: Side,
    price: u64,
    slot: u64,
    q: u128,
    residual: u128,
)
    requires
        e.active_close_ok(),
        e.active_close_present == 0,
        e.explicit_unallocated_loss_long.get() + residual <= u128::MAX,
        e.explicit_unallocated_loss_short.get() + residual <= u128::MAX,
        e.book_or_start_spec(
            ctx,
            u16::MAX,
            side,
            price,
            slot,
            q,
            residual,
            crate::constants::PUBLIC_B_CHUNK_ATOMS,
        ).2 is Ok,
    ensures
        ({
            let s = e.book_or_start_spec(
                ctx,
                u16::MAX,
                side,
                price,
                slot,
                q,
                residual,
                crate::constants::PUBLIC_B_CHUNK_ATOMS,
            ).0;
            (s.loss_taken(side) - e.loss_taken(side)) * SOCIAL_LOSS_DEN + s.loss_booked(side)
                - e.loss_booked(side) == residual * SOCIAL_LOSS_DEN
        }),
{
    let budget = crate::constants::PUBLIC_B_CHUNK_ATOMS;
    reveal(RiskEngine::book_or_start_spec);
    reveal(RiskEngine::book_residual_chunk_spec);
    let locked = e.trigger_bankruptcy_hmax_lock_spec(ctx).0;
    if residual > 0 && locked.residual_chunk_spec(side, residual, budget) is Ok {
        crate::bankruptcy::lemma_residual_chunk(locked, side, residual, budget);
        let plan = locked.residual_chunk_spec(side, residual, budget)->Ok_0;
        let (b, w) = (e.get_b_side(side), e.get_loss_weight_sum(side));
        assert((b + plan.delta_b) * w == b * w + plan.delta_b * w) by (nonlinear_arith);
    }
}

} // verus!
