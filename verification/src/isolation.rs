//! Accounts are settled one by one: touching an account moves no shared index and no
//! other account, so that no account depends on who was touched before it.

use vstd::prelude::*;

use crate::books::{
    lemma_ledger_of_account, step_accrue_and_touch, step_admit_outstanding, step_append_reserve,
    step_attach, step_charge_fee, step_close_instruction, step_convert, step_fee_debt_sweep,
    step_finalize_one, step_finalize_resets, step_liquidate, step_schedule_resets,
    step_set_capital, step_set_pnl, step_settle_losses, step_settle_side_effects, step_touch,
    step_warmup,
};
use crate::constants::{MAX_ACCOUNTS, MAX_TOUCHED_PER_INSTRUCTION};
use crate::context::InstructionContext;
use crate::types::{Account, LiquidationPolicy, ReserveMode, RiskEngine, RiskError, Side};

verus! {

impl InstructionContext {
    /// Whether `after` has the same accounts touched.
    pub open spec fn same_touched(self, after: InstructionContext) -> bool {
        &&& after.touched_accounts == self.touched_accounts
        &&& after.touched_count == self.touched_count
    }
}

impl RiskEngine {
    /// Whether `after` has the same indices, epochs, modes, interest and price.
    pub open spec fn same_indices(self, after: RiskEngine) -> bool {
        &&& after.adl_mult_long == self.adl_mult_long
        &&& after.adl_mult_short == self.adl_mult_short
        &&& after.adl_coeff_long == self.adl_coeff_long
        &&& after.adl_coeff_short == self.adl_coeff_short
        &&& after.f_long_num == self.f_long_num
        &&& after.f_short_num == self.f_short_num
        &&& after.b_long_num == self.b_long_num
        &&& after.b_short_num == self.b_short_num
        &&& after.b_epoch_start_long_num == self.b_epoch_start_long_num
        &&& after.b_epoch_start_short_num == self.b_epoch_start_short_num
        &&& after.adl_epoch_long == self.adl_epoch_long
        &&& after.adl_epoch_short == self.adl_epoch_short
        &&& after.adl_epoch_start_k_long == self.adl_epoch_start_k_long
        &&& after.adl_epoch_start_k_short == self.adl_epoch_start_k_short
        &&& after.f_epoch_start_long_num == self.f_epoch_start_long_num
        &&& after.f_epoch_start_short_num == self.f_epoch_start_short_num
        &&& after.side_mode_long == self.side_mode_long
        &&& after.side_mode_short == self.side_mode_short
        &&& after.oi_eff_long_q == self.oi_eff_long_q
        &&& after.oi_eff_short_q == self.oi_eff_short_q
        &&& after.last_oracle_price == self.last_oracle_price
        &&& after.current_slot == self.current_slot
        &&& after.active_close_present == self.active_close_present
        &&& after.active_close_residual_remaining == self.active_close_residual_remaining
    }
}

/// Setting a capital moves no index.
pub broadcast proof fn index_set_capital(e: RiskEngine, i: int, v: u128)
    ensures
        e.same_indices((#[trigger] e.set_capital_spec(i, v)).0),
{
    reveal(RiskEngine::set_capital_spec);
}

/// Reserving fresh profit moves no index.
pub broadcast proof fn index_append_reserve(
    e: RiskEngine,
    i: int,
    add: u128,
    now_slot: u64,
    h_lock: u64,
)
    ensures
        e.same_indices((#[trigger] e.append_or_route_new_reserve_spec(i, add, now_slot, h_lock)).0),
{
    reveal(RiskEngine::append_or_route_new_reserve_spec);
}

/// Writing a profit moves no index and touches no further account.
pub broadcast proof fn index_set_pnl(
    e: RiskEngine,
    i: int,
    new_pnl: i128,
    mode: ReserveMode,
    ctx: Option<InstructionContext>,
)
    ensures
        e.same_indices((#[trigger] e.set_pnl_with_reserve_spec(i, new_pnl, mode, ctx)).0),
        ctx is Some ==> e.set_pnl_with_reserve_spec(i, new_pnl, mode, ctx).1 is Some,
        ctx is Some ==> ctx->0.same_touched(
            e.set_pnl_with_reserve_spec(i, new_pnl, mode, ctx).1->0,
        ),
{
    broadcast use index_append_reserve;

    reveal(RiskEngine::set_pnl_with_reserve_spec);
    reveal(RiskEngine::admit_fresh_reserve_h_lock_spec);
    reveal(RiskEngine::apply_reserve_loss_newest_first_spec);
}

/// Releasing a reserve early moves no index.
pub broadcast proof fn index_admit(e: RiskEngine, i: int, ctx: InstructionContext)
    ensures
        e.same_indices((#[trigger] e.admit_outstanding_reserve_on_touch_spec(i, ctx)).0),
{
    reveal(RiskEngine::admit_outstanding_reserve_on_touch_spec);
}

/// Maturing a reserve moves no index.
pub broadcast proof fn index_warmup(e: RiskEngine, i: int)
    ensures
        e.same_indices((#[trigger] e.advance_profit_warmup_spec(i)).0),
{
    reveal(RiskEngine::advance_profit_warmup_spec);
}

/// Writing a position moves no index.
pub broadcast proof fn index_set_basis(e: RiskEngine, i: int, basis: i128, spike: bool)
    ensures
        e.same_indices((#[trigger] e.set_position_basis_q_inner_spec(i, basis, spike)).0),
{
    reveal(RiskEngine::set_position_basis_q_inner_spec);
}

/// Settling a position moves no index and touches no further account.
pub broadcast proof fn index_settle_side_effects(e: RiskEngine, i: int, ctx: InstructionContext)
    ensures
        e.same_indices((#[trigger] e.settle_side_effects_live_spec(i, ctx)).0),
        ctx.same_touched(e.settle_side_effects_live_spec(i, ctx).1),
{
    broadcast use {index_set_pnl, index_set_basis};

    reveal(RiskEngine::settle_side_effects_live_spec);
}

/// Settling a loss moves no index and touches no further account.
pub broadcast proof fn index_settle_losses(e: RiskEngine, i: int, ctx: Option<InstructionContext>)
    ensures
        e.same_indices((#[trigger] e.settle_losses_spec(i, ctx)).0),
        ctx is Some ==> e.settle_losses_spec(i, ctx).1 is Some,
        ctx is Some ==> ctx->0.same_touched(e.settle_losses_spec(i, ctx).1->0),
{
    broadcast use {index_set_capital, index_set_pnl};

    reveal(RiskEngine::settle_losses_spec);
}

/// Absorbing the loss of a flat account moves no index and touches no further account.
pub broadcast proof fn index_flat_negative(e: RiskEngine, i: int, ctx: Option<InstructionContext>)
    ensures
        e.same_indices((#[trigger] e.resolve_flat_negative_spec(i, ctx)).0),
        ctx is Some ==> e.resolve_flat_negative_spec(i, ctx).1 is Some,
        ctx is Some ==> ctx->0.same_touched(e.resolve_flat_negative_spec(i, ctx).1->0),
{
    broadcast use index_set_pnl;

    reveal(RiskEngine::resolve_flat_negative_spec);
}

/// Touching an account moves no index, no price and no other account. Whoever else is
/// touched, in whatever order, settles by the same indices.
pub proof fn law_touch_moves_nothing_shared(e: RiskEngine, i: int, ctx: InstructionContext)
    ensures
        ({
            let s = e.touch_spec(i, ctx).0;
            &&& e.same_indices(s)
            &&& e.only_account(s, i)
        }),
{
    broadcast use {
        step_touch,
        index_admit,
        index_warmup,
        index_settle_side_effects,
        index_settle_losses,
        index_flat_negative,
    };

    reveal(RiskEngine::touch_spec);
}

/// What an account is owed does not depend on whether another account was touched
/// before it: its settled profit and its effective position are the same.
pub proof fn law_settlement_is_order_independent(
    e: RiskEngine,
    i: int,
    j: int,
    ctx: InstructionContext,
    k: i128,
    f: i128,
)
    requires
        0 <= i < MAX_ACCOUNTS,
        i != j,
    ensures
        ({
            let s = e.touch_spec(j, ctx).0;
            &&& s.accounts@[i] == e.accounts@[i]
            &&& s.settled_pnl(i, k, f) == e.settled_pnl(i, k, f)
            &&& s.effective_pos_q_spec(i, true) == e.effective_pos_q_spec(i, true)
            &&& s.get_k_side(Side::Long) == e.get_k_side(Side::Long)
            &&& s.get_k_side(Side::Short) == e.get_k_side(Side::Short)
            &&& s.get_f_side(Side::Long) == e.get_f_side(Side::Long)
            &&& s.get_f_side(Side::Short) == e.get_f_side(Side::Short)
        }),
{
    law_touch_moves_nothing_shared(e, j, ctx);
    reveal(RiskEngine::effective_pos_q_spec);
}

impl Account {
    /// Position of the account with all that it was last settled at.
    pub open spec fn snapshots(self) -> (i128, u128, i128, i128, u64) {
        (
            self.position_basis_q,
            self.adl_a_basis,
            self.adl_k_snap,
            self.f_snap,
            self.adl_epoch_snap,
        )
    }
}

broadcast proof fn lemma_set_pnl_keeps_snapshots(
    e: RiskEngine,
    i: int,
    new_pnl: i128,
    mode: ReserveMode,
    ctx: Option<InstructionContext>,
)
    requires
        0 <= i < MAX_ACCOUNTS,
    ensures
        ({
            let (s, _, r) = #[trigger] e.set_pnl_with_reserve_spec(i, new_pnl, mode, ctx);
            r is Ok ==> s.accounts@[i].snapshots() == e.accounts@[i].snapshots()
        }),
{
    broadcast use {lemma_ledger_of_account, step_append_reserve};

    reveal(RiskEngine::set_pnl_with_reserve_spec);
    reveal(RiskEngine::append_or_route_new_reserve_spec);
    reveal(RiskEngine::admit_fresh_reserve_h_lock_spec);
    reveal(RiskEngine::apply_reserve_loss_newest_first_spec);
}

proof fn lemma_losses_keep_snapshots(e: RiskEngine, i: int, ctx: Option<InstructionContext>)
    requires
        0 <= i < MAX_ACCOUNTS,
    ensures
        e.settle_losses_spec(i, ctx).2 is Ok ==> e.settle_losses_spec(
            i,
            ctx,
        ).0.accounts@[i].snapshots() == e.accounts@[i].snapshots(),
        e.resolve_flat_negative_spec(i, ctx).2 is Ok ==> e.resolve_flat_negative_spec(
            i,
            ctx,
        ).0.accounts@[i].snapshots() == e.accounts@[i].snapshots(),
{
    broadcast use {lemma_ledger_of_account, lemma_set_pnl_keeps_snapshots};

    reveal(RiskEngine::settle_losses_spec);
    reveal(RiskEngine::resolve_flat_negative_spec);
    reveal(RiskEngine::set_capital_spec);
}

/// A touched account is settled: it has no position, or its snapshots are those of its
/// side in the present epoch. It counts as settled exactly if its multiplier has not moved
/// since its position was attached and its share in socialized losses is of the present
/// epoch and up to date, and a share of another epoch is refused as corrupt.
pub proof fn law_touched_account_is_settled(e: RiskEngine, i: int, ctx: InstructionContext)
    requires
        e.touch_spec(i, ctx).2 is Ok,
    ensures
        ({
            let s = e.touch_spec(i, ctx).0;
            let a = s.accounts@[i];
            let side = crate::sides::some_side(a.position_basis_q);
            if a.position_basis_q == 0 {
                s.unsettled_live_spec(a) == Ok::<bool, RiskError>(false)
            } else {
                &&& a.adl_epoch_snap == s.get_epoch_side(side)
                &&& a.adl_k_snap == s.get_k_side(side)
                &&& a.f_snap == s.get_f_side(side)
                &&& s.unsettled_live_spec(a) == if a.b_epoch_snap != s.get_epoch_side(side) {
                    Err::<bool, RiskError>(RiskError::CorruptState)
                } else {
                    Ok(
                        a.adl_a_basis != s.get_a_side(side) || a.b_snap != s.get_b_side(side),
                    )
                }
            }
        }),
{
    broadcast use {
        lemma_ledger_of_account,
        lemma_set_pnl_keeps_snapshots,
        step_admit_outstanding,
        step_warmup,
        step_settle_side_effects,
        step_settle_losses,
        index_admit,
        index_warmup,
        index_settle_side_effects,
        index_settle_losses,
        index_flat_negative,
        index_set_pnl,
    };

    reveal(RiskEngine::touch_spec);
    let c = ctx.add_touched_spec(i as u16).0;
    let e1 = e.admit_outstanding_reserve_on_touch_spec(i, c).0;
    let e2 = e1.advance_profit_warmup_spec(i).0;
    let (e3, c3, r3) = e2.settle_side_effects_live_spec(i, c);
    lemma_losses_keep_snapshots(e3, i, Some(c3));
    let (e4, c4, r4) = e3.settle_losses_spec(i, Some(c3));
    lemma_losses_keep_snapshots(e4, i, c4);
    let a3 = e3.accounts@[i];
    assert(r3 is Ok && a3.position_basis_q != 0 ==> ({
        let side = crate::sides::some_side(a3.position_basis_q);
        &&& a3.adl_epoch_snap == e3.get_epoch_side(side)
        &&& a3.adl_k_snap == e3.get_k_side(side)
        &&& a3.f_snap == e3.get_f_side(side)
    })) by {
        reveal(RiskEngine::settle_side_effects_live_spec);
        reveal(RiskEngine::set_position_basis_q_inner_spec);
    }
    let s = e.touch_spec(i, ctx).0;
    assert(s.accounts@[i].snapshots() == a3.snapshots());
    assert(e3.same_indices(s));
    step_touch(e, i, ctx);
}

/// A settled position owes nothing more: settling it again against the same indices
/// gives the profit it already has.
pub proof fn law_settlement_happens_once(e: RiskEngine, i: int, ctx: InstructionContext)
    requires
        0 <= i < MAX_ACCOUNTS,
        e.settle_side_effects_live_spec(i, ctx).2 is Ok,
    ensures
        ({
            let s = e.settle_side_effects_live_spec(i, ctx).0;
            let a = s.accounts@[i];
            let side = crate::sides::some_side(a.position_basis_q);
            a.position_basis_q != 0 ==> {
                &&& a.adl_epoch_snap == s.get_epoch_side(side)
                &&& s.settled_pnl(i, s.get_k_side(side), s.get_f_side(side))
                    == RiskEngine::to_non_min_i128(a.pnl as int)
            }
        }),
{
    broadcast use {lemma_ledger_of_account, index_set_pnl, index_set_basis};

    reveal(RiskEngine::settle_side_effects_live_spec);
    reveal(RiskEngine::set_position_basis_q_inner_spec);
    let s = e.settle_side_effects_live_spec(i, ctx).0;
    let a = s.accounts@[i];
    let side = crate::sides::some_side(a.position_basis_q);
    let abs = crate::wide_math::abs_int(a.position_basis_q as int);
    let den = a.adl_a_basis * crate::constants::POS_SCALE;
    if a.position_basis_q != 0 {
        lemma_set_pnl_keeps_position(e, i, ctx);
        assert(den > 0) by (nonlinear_arith)
            requires
                a.adl_a_basis > 0,
                den == a.adl_a_basis * 1_000_000,
        ;
        lemma_no_movement(abs, den);
    }
}

proof fn lemma_no_movement(abs_basis: int, den: int)
    requires
        0 <= abs_basis,
        0 < den,
    ensures
        RiskEngine::kf_pnl_delta_checked(abs_basis, 0, 0, den) == Ok::<
            i128,
            crate::types::RiskError,
        >(0),
{
    let d = den * 1_000_000_000;
    assert(abs_basis * 0 == 0) by (nonlinear_arith);
    assert(0int / d == 0) by (nonlinear_arith)
        requires
            d > 0,
    ;
    assert(crate::wide_math::two_pow_256() > 0);
}

proof fn lemma_set_pnl_keeps_position(e: RiskEngine, i: int, ctx: InstructionContext)
    requires
        0 <= i < MAX_ACCOUNTS,
    ensures
        forall|v: i128, mode: ReserveMode|
            ({
                let b = (#[trigger] e.set_pnl_with_reserve_spec(i, v, mode, Some(ctx))).0.accounts@[i];
                let a = e.accounts@[i];
                &&& b.position_basis_q == a.position_basis_q
                &&& b.adl_a_basis == a.adl_a_basis
            }),
{
    broadcast use lemma_ledger_of_account;

    reveal(RiskEngine::set_pnl_with_reserve_spec);
    reveal(RiskEngine::admit_fresh_reserve_h_lock_spec);
    reveal(RiskEngine::append_or_route_new_reserve_spec);
    reveal(RiskEngine::apply_reserve_loss_newest_first_spec);
}

/// Flat accounts keep their deposits: touching an account without a position and
/// without a loss leaves its capital, its profit and the insurance fund as they are.
pub proof fn law_touch_spares_flat_accounts(e: RiskEngine, i: int, ctx: InstructionContext)
    requires
        0 <= i < MAX_ACCOUNTS,
        e.accounts@[i].position_basis_q == 0,
        e.accounts@[i].pnl >= 0,
    ensures
        ({
            let s = e.touch_spec(i, ctx).0;
            &&& s.accounts@[i].position_basis_q == 0
            &&& s.accounts@[i].capital == e.accounts@[i].capital
            &&& s.accounts@[i].pnl == e.accounts@[i].pnl
            &&& s.accounts@[i].fee_credits == e.accounts@[i].fee_credits
            &&& s.insurance_fund == e.insurance_fund
            &&& s.c_tot == e.c_tot
        }),
{
    reveal(RiskEngine::touch_spec);
    reveal(RiskEngine::settle_side_effects_live_spec);
    reveal(RiskEngine::settle_losses_spec);
    reveal(RiskEngine::resolve_flat_negative_spec);
    reveal(RiskEngine::effective_pos_q_spec);
    let c = ctx.add_touched_spec(i as u16).0;
    lemma_maturing_keeps_claims(e, i, c);
    lemma_maturing_keeps_claims(e.admit_outstanding_reserve_on_touch_spec(i, c).0, i, c);
}

/// Maturing a reserve changes no capital, no profit, no fee credits and no position.
proof fn lemma_maturing_keeps_claims(e: RiskEngine, i: int, ctx: InstructionContext)
    requires
        0 <= i < MAX_ACCOUNTS,
    ensures
        ({
            let s = e.admit_outstanding_reserve_on_touch_spec(i, ctx).0;
            &&& same_claims(e.accounts@[i], s.accounts@[i])
            &&& s.insurance_fund == e.insurance_fund
            &&& s.c_tot == e.c_tot
        }),
        ({
            let s = e.advance_profit_warmup_spec(i).0;
            &&& same_claims(e.accounts@[i], s.accounts@[i])
            &&& s.insurance_fund == e.insurance_fund
            &&& s.c_tot == e.c_tot
        }),
{
    broadcast use lemma_ledger_of_account;

    reveal(RiskEngine::admit_outstanding_reserve_on_touch_spec);
    reveal(RiskEngine::advance_profit_warmup_spec);
}

/// Whether two states of an account agree but for the reserve.
pub open spec fn same_claims(a: Account, b: Account) -> bool {
    &&& a.capital == b.capital
    &&& a.pnl == b.pnl
    &&& a.fee_credits == b.fee_credits
    &&& a.position_basis_q == b.position_basis_q
}

/// Loss is paid from the account's own capital before anything else: what a touch
/// takes from capital is loss of the same account, atom for atom.
pub proof fn law_losses_are_paid_from_own_capital(
    e: RiskEngine,
    i: int,
    ctx: Option<InstructionContext>,
)
    requires
        0 <= i < MAX_ACCOUNTS,
        e.settle_losses_spec(i, ctx).2 is Ok,
    ensures
        ({
            let a = e.accounts@[i];
            let b = e.settle_losses_spec(i, ctx).0.accounts@[i];
            &&& b.capital.get() <= a.capital.get()
            &&& a.capital.get() - b.capital.get() == b.pnl - a.pnl
            &&& a.pnl >= 0 ==> b == a
            &&& a.pnl < 0 ==> b.pnl <= 0 && (b.pnl == 0 || b.capital.get() == 0)
        }),
{
    broadcast use lemma_ledger_of_account;

    reveal(RiskEngine::settle_losses_spec);
    reveal(RiskEngine::set_capital_spec);
    reveal(RiskEngine::set_pnl_with_reserve_spec);
    reveal(RiskEngine::admit_fresh_reserve_h_lock_spec);
    reveal(RiskEngine::append_or_route_new_reserve_spec);
    reveal(RiskEngine::apply_reserve_loss_newest_first_spec);
}

/// Booking a residual touches no further account.
pub broadcast proof fn touched_book_residual(
    e: RiskEngine,
    ctx: InstructionContext,
    side: Side,
    residual: u128,
    budget: u128,
)
    ensures
        ctx.same_touched((#[trigger] e.book_residual_chunk_spec(ctx, side, residual, budget)).1),
{
    reveal(RiskEngine::book_residual_chunk_spec);
}

/// Booking a residual or starting a close touches no further account.
pub broadcast proof fn touched_book_or_start(
    e: RiskEngine,
    ctx: InstructionContext,
    idx: u16,
    side: Side,
    price: u64,
    slot: u64,
    q: u128,
    residual: u128,
    budget: u128,
)
    ensures
        ctx.same_touched((#[trigger] e.book_or_start_spec(ctx, idx, side, price, slot, q, residual, budget)).1),
{
    broadcast use touched_book_residual;

    reveal(RiskEngine::book_or_start_spec);
}

/// Routing a deficit touches no further account.
pub broadcast proof fn touched_route_deficit(
    e: RiskEngine,
    ctx: InstructionContext,
    opp: Side,
    oi: u128,
    q: u128,
    d: u128,
)
    ensures
        ctx.same_touched((#[trigger] e.route_deficit(ctx, opp, oi, q, d)).1),
{
    broadcast use touched_book_or_start;

    reveal(RiskEngine::route_deficit);
}

/// Shrinking a side touches no further account.
pub broadcast proof fn touched_shrink_side(
    e: RiskEngine,
    ctx: InstructionContext,
    side: Side,
    oi: u128,
    q: u128,
)
    ensures
        ctx.same_touched((#[trigger] e.shrink_side(ctx, side, oi, q)).1),
{
    reveal(RiskEngine::shrink_side);
}

/// Draining a side that nobody holds touches no further account.
pub broadcast proof fn touched_drain_unheld(
    e: RiskEngine,
    ctx: InstructionContext,
    side: Side,
    q: u128,
    d: u128,
)
    ensures
        ctx.same_touched((#[trigger] e.drain_unheld_side(ctx, side, q, d)).1),
{
    reveal(RiskEngine::drain_unheld_side);
}

/// Spreading a deficit touches no further account.
pub broadcast proof fn touched_enqueue_adl(
    e: RiskEngine,
    ctx: InstructionContext,
    side: Side,
    q: u128,
    d: u128,
)
    ensures
        ctx.same_touched((#[trigger] e.enqueue_adl_spec(ctx, side, q, d)).1),
{
    broadcast use {touched_route_deficit, touched_shrink_side, touched_drain_unheld};

    reveal(RiskEngine::enqueue_adl_spec);
}

/// Closing part of a position touches no further account.
pub broadcast proof fn touched_liquidation_closed(
    e: RiskEngine,
    i: int,
    eff: i128,
    q: u128,
    price: u64,
    ctx: InstructionContext,
)
    ensures
        ctx.same_touched((#[trigger] e.liquidation_closed(i, eff, q, price, ctx)).1),
{
    broadcast use index_settle_losses;

    reveal(RiskEngine::liquidation_closed);
}

/// Liquidating part of a position touches no further account.
pub broadcast proof fn touched_liquidate_partial(
    e: RiskEngine,
    i: int,
    eff: i128,
    q: u128,
    price: u64,
    ctx: InstructionContext,
)
    ensures
        ctx.same_touched((#[trigger] e.liquidate_partial(i, eff, q, price, ctx)).1),
{
    broadcast use {touched_liquidation_closed, touched_enqueue_adl};

    reveal(RiskEngine::liquidate_partial);
}

/// Liquidating a position touches no further account.
pub broadcast proof fn touched_liquidate_full(
    e: RiskEngine,
    i: int,
    eff: i128,
    price: u64,
    ctx: InstructionContext,
)
    ensures
        ctx.same_touched((#[trigger] e.liquidate_full(i, eff, price, ctx)).1),
{
    broadcast use {touched_liquidation_closed, touched_enqueue_adl};

    reveal(RiskEngine::liquidate_full);
}

/// Liquidating an account touches no further account.
pub broadcast proof fn touched_liquidate(
    e: RiskEngine,
    i: int,
    price: u64,
    policy: LiquidationPolicy,
    ctx: InstructionContext,
)
    ensures
        ctx.same_touched((#[trigger] e.liquidate_internal_spec(i, price, policy, ctx)).1),
{
    broadcast use {touched_liquidate_partial, touched_liquidate_full};

    reveal(RiskEngine::liquidate_internal_spec);
}

/// A successful touch adds its account to the touched ones and no other.
proof fn lemma_touch_adds_one(e: RiskEngine, i: int, ctx: InstructionContext)
    requires
        ctx.touched_count <= MAX_TOUCHED_PER_INSTRUCTION,
        e.touch_spec(i, ctx).2 is Ok,
    ensures
        0 <= i < MAX_ACCOUNTS,
        ({
            let c = e.touch_spec(i, ctx).1;
            &&& c.touched_count <= MAX_TOUCHED_PER_INSTRUCTION
            &&& c.touched().contains(i as u16)
            &&& forall|x: u16|
                #[trigger] c.touched().contains(x) ==> x == i as u16 || ctx.touched().contains(x)
        }),
{
    broadcast use {index_settle_side_effects, index_settle_losses, index_flat_negative};

    reveal(RiskEngine::touch_spec);
    let idx = i as u16;
    let c = ctx.add_touched_spec(idx).0;
    if !ctx.touched().contains(idx) {
        let p = crate::context::insertion_point(ctx.touched(), idx);
        crate::context::lemma_insertion_point_in_range(ctx.touched(), idx);
        let n = ctx.touched_count as int;
        let s = ctx.touched_accounts@.remove(n).insert(p, idx);
        crate::context::lemma_array_of_seq(ctx.touched_accounts, s);
        assert(c.touched() =~= s.take(n + 1));
        assert(s.take(n + 1)[p] == idx);
        assert forall|x: u16| #[trigger] c.touched().contains(x) implies x == idx
            || ctx.touched().contains(x) by {
            let k = choose|k: int| 0 <= k < n + 1 && c.touched()[k] == x;
            if k < p {
                assert(ctx.touched()[k] == x);
            } else if k > p {
                assert(ctx.touched()[k - 1] == x);
            }
        }
    }
}

/// Finalizing changes no account that was not touched.
proof fn lemma_finalize_spares_untouched(e: RiskEngine, touched: Seq<u16>, is_whole: bool, j: int)
    requires
        0 <= j < MAX_ACCOUNTS,
        !touched.contains(j as u16),
    ensures
        e.finalize_all(touched, is_whole).0.accounts@[j] == e.accounts@[j],
    decreases touched.len(),
{
    broadcast use step_finalize_one;

    if touched.len() > 0 {
        let rest = touched.drop_last();
        assert(!rest.contains(j as u16)) by {
            if rest.contains(j as u16) {
                let k = choose|k: int| 0 <= k < rest.len() && rest[k] == j as u16;
                assert(touched[k] == j as u16);
            }
        }
        assert(touched[touched.len() - 1] != j as u16);
        lemma_finalize_spares_untouched(e, rest, is_whole, j);
    }
}

/// Finalizing what one account's instruction touched changes that account only.
proof fn lemma_finish_spares(e: RiskEngine, ctx: InstructionContext, j: int)
    requires
        0 <= j < MAX_ACCOUNTS,
        !ctx.touched().contains(j as u16),
    ensures
        e.finalize_touched_spec(ctx).0.accounts@[j] == e.accounts@[j],
        e.finish_spec(ctx).0.accounts@[j] == e.accounts@[j],
{
    broadcast use step_close_instruction;

    reveal(RiskEngine::finalize_touched_spec);
    lemma_finalize_spares_untouched(e, ctx.touched(), e.is_whole(), j);
}

/// Touching one account from a fresh context.
proof fn lemma_fresh_touch(
    e: RiskEngine,
    i: int,
    h_min: u64,
    h_max: u64,
    threshold_opt: Option<u128>,
    now_slot: u64,
    price: u64,
    rate: i128,
    j: int,
)
    requires
        0 <= j < MAX_ACCOUNTS,
        i != j,
    ensures
        ({
            let (s, c, r) = e.accrue_and_touch_spec(
                i,
                RiskEngine::admission(h_min, h_max, threshold_opt),
                now_slot,
                price,
                rate,
            );
            &&& s.accounts@[j] == e.accounts@[j]
            &&& r is Ok ==> !c.touched().contains(j as u16)
        }),
{
    broadcast use step_accrue_and_touch;

    reveal(RiskEngine::accrue_and_touch_spec);
    let ctx = RiskEngine::admission(h_min, h_max, threshold_opt);
    let s = e.accrue_market_to_spec(now_slot, price, rate).0;
    assert(ctx.touched() =~= Seq::<u16>::empty());
    if e.accrue_market_to_spec(now_slot, price, rate).1 is Ok && s.touch_spec(i, ctx).2 is Ok {
        lemma_touch_adds_one(s, i, ctx);
    }
}

/// A deposit changes no account but its own.
pub proof fn law_deposit_spares_others(
    e: RiskEngine,
    idx: u16,
    amount: u128,
    now_slot: u64,
    j: int,
)
    requires
        0 <= j < MAX_ACCOUNTS,
        j != idx,
    ensures
        e.deposit_spec(idx, amount, now_slot).0.accounts@[j] == e.accounts@[j],
{
    broadcast use {
        lemma_ledger_of_account,
        step_set_capital,
        step_settle_losses,
        step_fee_debt_sweep,
    };

    reveal(RiskEngine::deposit_spec);
    reveal(RiskEngine::materialize_at_spec);
}

/// A withdrawal changes no account but its own.
pub proof fn law_withdrawal_spares_others(
    e: RiskEngine,
    idx: u16,
    amount: u128,
    price: u64,
    now_slot: u64,
    rate: i128,
    h_min: u64,
    h_max: u64,
    threshold_opt: Option<u128>,
    j: int,
)
    requires
        0 <= j < MAX_ACCOUNTS,
        j != idx,
    ensures
        e.withdraw_spec(
            idx,
            amount,
            price,
            now_slot,
            rate,
            h_min,
            h_max,
            threshold_opt,
        ).0.accounts@[j] == e.accounts@[j],
{
    broadcast use {step_set_capital, step_close_instruction};

    reveal(RiskEngine::withdraw_spec);
    lemma_fresh_touch(e, idx as int, h_min, h_max, threshold_opt, now_slot, price, rate, j);
    let (s, c, r) = e.accrue_and_touch_spec(
        idx as int,
        RiskEngine::admission(h_min, h_max, threshold_opt),
        now_slot,
        price,
        rate,
    );
    if e.live_gate(idx as int, price, h_min, h_max, threshold_opt) is Ok && r is Ok {
        lemma_finish_spares(s, c, j);
    }
}

/// Settling an account changes no other.
pub proof fn law_settlement_spares_others(
    e: RiskEngine,
    idx: u16,
    price: u64,
    now_slot: u64,
    rate: i128,
    h_min: u64,
    h_max: u64,
    threshold_opt: Option<u128>,
    j: int,
)
    requires
        0 <= j < MAX_ACCOUNTS,
        j != idx,
    ensures
        e.settle_account_spec(
            idx,
            price,
            now_slot,
            rate,
            h_min,
            h_max,
            threshold_opt,
        ).0.accounts@[j] == e.accounts@[j],
{
    reveal(RiskEngine::settle_account_spec);
    lemma_fresh_touch(e, idx as int, h_min, h_max, threshold_opt, now_slot, price, rate, j);
    let (s, c, r) = e.accrue_and_touch_spec(
        idx as int,
        RiskEngine::admission(h_min, h_max, threshold_opt),
        now_slot,
        price,
        rate,
    );
    if r is Ok {
        lemma_finish_spares(s, c, j);
    }
}

/// Converting the profit of an account changes no other.
pub proof fn law_conversion_spares_others(
    e: RiskEngine,
    idx: u16,
    x: u128,
    price: u64,
    now_slot: u64,
    rate: i128,
    h_min: u64,
    h_max: u64,
    threshold_opt: Option<u128>,
    j: int,
)
    requires
        0 <= j < MAX_ACCOUNTS,
        j != idx,
    ensures
        e.convert_released_spec(
            idx,
            x,
            price,
            now_slot,
            rate,
            h_min,
            h_max,
            threshold_opt,
        ).0.accounts@[j] == e.accounts@[j],
{
    broadcast use step_convert;

    reveal(RiskEngine::convert_released_spec);
    lemma_fresh_touch(e, idx as int, h_min, h_max, threshold_opt, now_slot, price, rate, j);
    let (s, c, r) = e.accrue_and_touch_spec(
        idx as int,
        RiskEngine::admission(h_min, h_max, threshold_opt),
        now_slot,
        price,
        rate,
    );
    if e.live_gate(idx as int, price, h_min, h_max, threshold_opt) is Ok && r is Ok {
        lemma_finish_spares(s.convert_core_spec(idx as int, x, price).0, c, j);
    }
}

/// Nobody is singled out: a liquidation changes no account but the one liquidated.
/// Its deficit reaches the others through the indices of their side.
pub proof fn law_liquidation_spares_others(
    e: RiskEngine,
    idx: u16,
    now_slot: u64,
    price: u64,
    policy: LiquidationPolicy,
    rate: i128,
    h_min: u64,
    h_max: u64,
    threshold_opt: Option<u128>,
    j: int,
)
    requires
        0 <= j < MAX_ACCOUNTS,
        j != idx,
    ensures
        e.liquidate_spec(
            idx,
            now_slot,
            price,
            policy,
            rate,
            h_min,
            h_max,
            threshold_opt,
        ).0.accounts@[j] == e.accounts@[j],
{
    broadcast use {step_liquidate, touched_liquidate};

    reveal(RiskEngine::liquidate_spec);
    lemma_fresh_touch(e, idx as int, h_min, h_max, threshold_opt, now_slot, price, rate, j);
    let (s, c, r) = e.accrue_and_touch_spec(
        idx as int,
        RiskEngine::admission(h_min, h_max, threshold_opt),
        now_slot,
        price,
        rate,
    );
    if r is Ok {
        let (s2, c2, r2) = s.liquidate_internal_spec(idx as int, price, policy, c);
        assert(c2.touched() == c.touched());
        lemma_finish_spares(s2, c2, j);
    }
}

/// Applying a trade changes no account but its two, and no list of touched accounts.
proof fn lemma_trade_applied_spares(
    e: RiskEngine,
    a: int,
    b: int,
    new_a: i128,
    new_b: i128,
    oi: (u128, u128),
    pnl_a: i128,
    ctx: InstructionContext,
    j: int,
)
    requires
        0 <= a < MAX_ACCOUNTS,
        0 <= b < MAX_ACCOUNTS,
        0 <= j < MAX_ACCOUNTS,
        j != a,
        j != b,
    ensures
        ({
            let (s, c, r) = e.trade_applied(a, b, new_a, new_b, oi, pnl_a, ctx);
            &&& s.accounts@[j] == e.accounts@[j]
            &&& ctx.same_touched(c)
        }),
{
    broadcast use {
        step_set_pnl,
        step_attach,
        step_settle_losses,
        index_set_pnl,
        index_settle_losses,
    };

    reveal(RiskEngine::trade_applied);
}

/// A trade changes no account but its two.
pub proof fn law_trade_spares_others(
    e: RiskEngine,
    a: u16,
    b: u16,
    price: u64,
    now_slot: u64,
    size_q: i128,
    exec_price: u64,
    rate: i128,
    fee_bps: u64,
    h_min: u64,
    h_max: u64,
    threshold_opt: Option<u128>,
    j: int,
)
    requires
        0 <= j < MAX_ACCOUNTS,
        j != a,
        j != b,
    ensures
        e.execute_trade_spec(
            a,
            b,
            price,
            now_slot,
            size_q,
            exec_price,
            rate,
            fee_bps,
            h_min,
            h_max,
            threshold_opt,
        ).0.accounts@[j] == e.accounts@[j],
{
    reveal(RiskEngine::execute_trade_spec);
    reveal(RiskEngine::trade_entry_spec);
    let ctx = RiskEngine::admission(h_min, h_max, threshold_opt);
    lemma_trade_prepared_spares(
        e,
        a as int,
        b as int,
        h_min,
        h_max,
        threshold_opt,
        now_slot,
        price,
        rate,
        j,
    );
    let (s, c, r) = e.trade_prepared(a as int, b as int, ctx, now_slot, price, rate);
    if a < MAX_ACCOUNTS && b < MAX_ACCOUNTS && r is Ok {
        lemma_trade_rest_spares(s, a as int, b as int, price, size_q, exec_price, fee_bps, c, j);
    }
}

proof fn lemma_trade_prepared_spares(
    e: RiskEngine,
    a: int,
    b: int,
    h_min: u64,
    h_max: u64,
    threshold_opt: Option<u128>,
    now_slot: u64,
    price: u64,
    rate: i128,
    j: int,
)
    requires
        0 <= j < MAX_ACCOUNTS,
        j != a,
        j != b,
    ensures
        ({
            let ctx = RiskEngine::admission(h_min, h_max, threshold_opt);
            let (s, c, r) = e.trade_prepared(a, b, ctx, now_slot, price, rate);
            &&& s.accounts@[j] == e.accounts@[j]
            &&& r is Ok ==> !c.touched().contains(j as u16)
        }),
{
    broadcast use {step_touch, step_schedule_resets, step_finalize_resets};

    reveal(RiskEngine::trade_prepared);
    let ctx = RiskEngine::admission(h_min, h_max, threshold_opt);
    let first = crate::wide_math::min_int(a, b);
    let second = crate::wide_math::max_int(a, b);
    lemma_fresh_touch(e, first, h_min, h_max, threshold_opt, now_slot, price, rate, j);
    let (s, c, r) = e.accrue_and_touch_spec(first, ctx, now_slot, price, rate);
    if r is Ok {
        assert(c.touched_count <= MAX_TOUCHED_PER_INSTRUCTION) by {
            reveal(RiskEngine::accrue_and_touch_spec);
            lemma_touch_adds_one(e.accrue_market_to_spec(now_slot, price, rate).0, first, ctx);
        }
        if s.touch_spec(second, c).2 is Ok {
            lemma_touch_adds_one(s, second, c);
        }
    }
}

proof fn lemma_trade_rest_spares(
    e: RiskEngine,
    a: int,
    b: int,
    price: u64,
    size_q: i128,
    exec_price: u64,
    fee_bps: u64,
    ctx: InstructionContext,
    j: int,
)
    requires
        0 <= a < MAX_ACCOUNTS,
        0 <= b < MAX_ACCOUNTS,
        0 <= j < MAX_ACCOUNTS,
        j != a,
        j != b,
        !ctx.touched().contains(j as u16),
    ensures
        e.trade_prepared_rest(a, b, price, size_q, exec_price, fee_bps, ctx).0.accounts@[j]
            == e.accounts@[j],
{
    broadcast use step_charge_fee;

    reveal(RiskEngine::trade_prepared_rest);
    if e.trade_positions(a, b, price, size_q) is Ok {
        let olds = e.trade_positions(a, b, price, size_q)->Ok_0;
        let new_a = (olds.0 + size_q) as i128;
        let new_b = (olds.1 - size_q) as i128;
        let ready = e.with_ready_sides();
        let pnl = crate::trade::trade_pnl_spec(size_q, (price - exec_price) as i128);
        if ready.trade_interest(olds.0, new_a, olds.1, new_b) is Ok && pnl is Ok {
            let oi = ready.trade_interest(olds.0, new_a, olds.1, new_b)->Ok_0;
            lemma_trade_applied_spares(ready, a, b, new_a, new_b, oi, pnl->Ok_0, ctx, j);
            let (s, c, r) = ready.trade_applied(a, b, new_a, new_b, oi, pnl->Ok_0, ctx);
            assert(c.touched() == ctx.touched());
            lemma_finish_spares(
                s.trade_charged(a, b, RiskEngine::trade_fee(size_q, exec_price, fee_bps) as u128).0,
                c,
                j,
            );
        }
    }
}

} // verus!
