//! The books of a market: its totals are the sums over its accounts, and no step
//! moves them apart.

use vstd::prelude::*;

use crate::constants::{ADL_ONE, MAX_ACCOUNTS, MIN_A_SIDE};
use crate::context::InstructionContext;
use crate::sides::i128_clamp_pos;
use crate::types::{
    Account, LiquidationPolicy, MarketMode, ReserveMode, RiskEngine, Side, SideMode,
};

verus! {

impl Account {
    /// What the account adds to the totals: its capital, its positive profit and
    /// the part of that profit still in warmup.
    pub open spec fn entry(self) -> (int, int, int) {
        (self.capital.get() as int, i128_clamp_pos(self.pnl) as int, self.reserved_pnl as int)
    }

    /// Position of the account: its basis, and the multiplier and the epoch that it was
    /// attached at.
    pub open spec fn position(self) -> (i128, u128, u64) {
        (self.position_basis_q, self.adl_a_basis, self.adl_epoch_snap)
    }

    /// Share of the account in socialized losses: its weight, how far it has settled
    /// against `B`, the remainder carried on, and the epoch of both.
    pub open spec fn share(self) -> (u128, u128, u128, u64) {
        (self.loss_weight, self.b_snap, self.b_rem, self.b_epoch_snap)
    }
}

/// The entries of all accounts added up.
pub open spec fn ledger(accounts: Seq<Account>) -> (int, int, int)
    decreases accounts.len(),
{
    if accounts.len() == 0 {
        (0, 0, 0)
    } else {
        let rest = ledger(accounts.drop_last());
        let last = accounts.last().entry();
        (rest.0 + last.0, rest.1 + last.1, rest.2 + last.2)
    }
}

/// Whether the multiplier of a side is in range: it is positive and at most one, and
/// the side drains if it is below the threshold.
pub open spec fn multiplier_in_range(a: u128, mode: SideMode) -> bool {
    &&& 0 < a <= ADL_ONE
    &&& a < MIN_A_SIDE ==> mode == SideMode::DrainOnly
}

/// Whether a side moves on, given by its epoch, its multiplier, its index `B` and its
/// mode: the epoch does not fall, and within an epoch that is not the last one the
/// multiplier does not rise, `B` does not fall, and a draining side keeps draining.
pub open spec fn side_moves_on(
    before: (u64, u128, u128, SideMode),
    after: (u64, u128, u128, SideMode),
) -> bool {
    &&& before.0 <= after.0
    &&& before.0 == after.0 && before.0 < u64::MAX ==> {
        &&& after.1 <= before.1
        &&& before.2 <= after.2
        &&& before.3 == SideMode::DrainOnly ==> after.3 == SideMode::DrainOnly
    }
}

impl RiskEngine {
    /// Whether the multipliers of both sides are in range.
    pub open spec fn sides_in_range(self) -> bool {
        &&& multiplier_in_range(self.adl_mult_long, self.side_mode_long)
        &&& multiplier_in_range(self.adl_mult_short, self.side_mode_short)
    }

    /// Whether the clock moves on: neither the present slot, nor the slot up to which
    /// the market has accrued, nor the count of sweeps falls.
    pub open spec fn clock_moves_on(self, after: RiskEngine) -> bool {
        &&& self.current_slot <= after.current_slot
        &&& self.last_market_slot <= after.last_market_slot
        &&& self.sweep_generation <= after.sweep_generation
    }

    /// Whether the terms of the settlement stand: its prices, its slot and its last
    /// shifts are the same, and so is the payout ratio once it is locked.
    pub open spec fn settlement_stands(self, after: RiskEngine) -> bool {
        &&& after.resolved_price == self.resolved_price
        &&& after.resolved_live_price == self.resolved_live_price
        &&& after.resolved_slot == self.resolved_slot
        &&& after.resolved_k_long_terminal_delta == self.resolved_k_long_terminal_delta
        &&& after.resolved_k_short_terminal_delta == self.resolved_k_short_terminal_delta
        &&& self.resolved_payout_ready != 0 ==> {
            &&& after.resolved_payout_ready == self.resolved_payout_ready
            &&& after.resolved_payout_h_num == self.resolved_payout_h_num
            &&& after.resolved_payout_h_den == self.resolved_payout_h_den
        }
    }

    /// Whether a position is no larger than its basis: its epoch is not ahead of its
    /// side, and in the present epoch of a live market the multiplier has not risen since
    /// the position was attached.
    pub open spec fn position_fits(self, a: Account) -> bool {
        a.position_basis_q != 0 ==> {
            let side = crate::sides::some_side(a.position_basis_q);
            &&& a.adl_epoch_snap <= self.get_epoch_side(side)
            &&& a.adl_epoch_snap == self.get_epoch_side(side) && self.market_mode
                == MarketMode::Live ==> self.get_a_side(side) <= a.adl_a_basis
        }
    }

    /// Whether `after` has the same multipliers and epochs.
    pub open spec fn same_multipliers(self, after: RiskEngine) -> bool {
        &&& after.adl_mult_long == self.adl_mult_long
        &&& after.adl_mult_short == self.adl_mult_short
        &&& after.adl_epoch_long == self.adl_epoch_long
        &&& after.adl_epoch_short == self.adl_epoch_short
    }

    /// Whether no position is larger than its basis.
    pub open spec fn positions_fit(self) -> bool {
        forall|k: int| 0 <= k < MAX_ACCOUNTS ==> self.position_fits(#[trigger] self.accounts@[k])
    }

    /// Whether both sides move on.
    pub open spec fn sides_move_on(self, after: RiskEngine) -> bool {
        &&& side_moves_on(
            (self.adl_epoch_long, self.adl_mult_long, self.b_long_num, self.side_mode_long),
            (after.adl_epoch_long, after.adl_mult_long, after.b_long_num, after.side_mode_long),
        )
        &&& side_moves_on(
            (self.adl_epoch_short, self.adl_mult_short, self.b_short_num, self.side_mode_short),
            (after.adl_epoch_short, after.adl_mult_short, after.b_short_num, after.side_mode_short),
        )
    }

    /// Whether the totals are the sums over the accounts: the capital, the positive
    /// profit, and the matured profit. A live market counts what has left warmup as
    /// matured, a resolved one counts all of it.
    pub open spec fn books_balance(self) -> bool {
        let sums = ledger(self.accounts@);
        &&& self.c_tot.get() == sums.0
        &&& self.pnl_pos_tot == sums.1
        &&& self.pnl_matured_pos_tot == match self.market_mode {
            MarketMode::Live => sums.1 - sums.2,
            MarketMode::Resolved => sums.1,
        }
    }

    /// Whether `after` has the same slots in use and the same free list.
    pub open spec fn same_slots(self, after: RiskEngine) -> bool {
        &&& after.used == self.used
        &&& after.free_head == self.free_head
        &&& after.next_free == self.next_free
        &&& after.prev_free == self.prev_free
    }

    /// Whether every account has the same share in socialized losses.
    pub open spec fn same_shares(self, after: RiskEngine) -> bool {
        forall|k: int|
            0 <= k < MAX_ACCOUNTS ==> (#[trigger] after.accounts@[k]).share()
                == self.accounts@[k].share()
    }

    /// Whether `after` is the same market, with the same shares in socialized losses.
    pub open spec fn same_market(self, after: RiskEngine) -> bool {
        &&& self.same_frame(after)
        &&& self.same_shares(after)
    }

    /// Whether `after` holds the same value under the same parameters, with the
    /// same slots in use and in the same mode, agrees on its prices as before, has moved
    /// its clock and its sides on, and settles on the same terms.
    pub open spec fn same_frame(self, after: RiskEngine) -> bool {
        &&& after.vault == self.vault
        &&& after.params == self.params
        &&& after.market_mode == self.market_mode
        &&& self.same_slots(after)
        &&& self.prices_agree() ==> after.prices_agree()
        &&& self.clock_moves_on(after)
        &&& self.sides_move_on(after)
        &&& self.settlement_stands(after)
    }

    /// Whether funding is sampled at the price that positions are marked at.
    pub open spec fn prices_agree(self) -> bool {
        self.fund_px_last == self.last_oracle_price
    }

    /// Whether `after` is the same market and differs from it in no account but `i`.
    pub open spec fn only_account(self, after: RiskEngine, i: int) -> bool {
        &&& self.same_market(after)
        &&& forall|j: int|
            0 <= j < MAX_ACCOUNTS && j != i ==> #[trigger] after.accounts@[j] == self.accounts@[j]
    }

    /// What a step on account `i` keeps: the rest of the market, and on success the
    /// books, the range of the multipliers and the bounds of the positions.
    pub open spec fn account_step(self, after: RiskEngine, i: int, ok: bool) -> bool {
        &&& self.only_account(after, i)
        &&& ok && self.books_balance() ==> after.books_balance()
        &&& ok && self.sides_in_range() ==> after.sides_in_range()
        &&& ok && self.positions_fit() ==> after.positions_fit()
    }

    /// What a step that moves no account and no total keeps: all of them, and on
    /// success the range of the multipliers.
    pub open spec fn side_step(self, after: RiskEngine, ok: bool) -> bool {
        &&& self.same_market(after)
        &&& after.accounts == self.accounts
        &&& after.c_tot == self.c_tot
        &&& after.pnl_pos_tot == self.pnl_pos_tot
        &&& after.pnl_matured_pos_tot == self.pnl_matured_pos_tot
        &&& ok && self.sides_in_range() ==> after.sides_in_range()
        &&& ok && self.positions_fit() ==> after.positions_fit()
    }

    /// What a step keeps that moves no account, no total and no multiplier out of
    /// range, whether it succeeds or not.
    pub open spec fn quiet_step(self, after: RiskEngine) -> bool {
        self.side_step(after, true)
    }

    /// What a step on any accounts keeps: the market, and on success the books and the
    /// range of the multipliers.
    pub open spec fn market_step(self, after: RiskEngine, ok: bool) -> bool {
        &&& self.same_market(after)
        &&& ok && self.books_balance() ==> after.books_balance()
        &&& ok && self.sides_in_range() ==> after.sides_in_range()
        &&& ok && self.positions_fit() ==> after.positions_fit()
    }
}

proof fn lemma_ledger_update(accounts: Seq<Account>, i: int, a: Account)
    requires
        0 <= i < accounts.len(),
    ensures
        ({
            let before = ledger(accounts);
            let after = ledger(accounts.update(i, a));
            &&& after.0 == before.0 - accounts[i].entry().0 + a.entry().0
            &&& after.1 == before.1 - accounts[i].entry().1 + a.entry().1
            &&& after.2 == before.2 - accounts[i].entry().2 + a.entry().2
        }),
    decreases accounts.len(),
{
    let after = accounts.update(i, a);
    if i == accounts.len() - 1 {
        assert(after.drop_last() =~= accounts.drop_last());
    } else {
        assert(after.drop_last() =~= accounts.drop_last().update(i, a));
        lemma_ledger_update(accounts.drop_last(), i, a);
    }
}

/// Replacing one account replaces its entry in the sums.
pub broadcast proof fn lemma_ledger_of_account(e: RiskEngine, i: int, a: Account)
    requires
        0 <= i < MAX_ACCOUNTS,
    ensures
        ({
            let before = ledger(e.accounts@);
            let after = ledger((#[trigger] e.with_account(i, a)).accounts@);
            &&& after.0 == before.0 - e.accounts@[i].entry().0 + a.entry().0
            &&& after.1 == before.1 - e.accounts@[i].entry().1 + a.entry().1
            &&& after.2 == before.2 - e.accounts@[i].entry().2 + a.entry().2
            &&& e.with_account(i, a).accounts@ == e.accounts@.update(i, a)
        }),
{
    e.lemma_with_account(i, a);
    lemma_ledger_update(e.accounts@, i, a);
}

/// Setting a capital.
pub broadcast proof fn step_set_capital(e: RiskEngine, i: int, v: u128)
    requires
        0 <= i < MAX_ACCOUNTS,
    ensures
        e.account_step(
            (#[trigger] e.set_capital_spec(i, v)).0,
            i,
            e.set_capital_spec(i, v).1 is Ok,
        ),
{
    broadcast use lemma_ledger_of_account;
    reveal(RiskEngine::set_capital_spec);
}

/// Reserving fresh profit.
pub broadcast proof fn step_append_reserve(
    e: RiskEngine,
    i: int,
    add: u128,
    now_slot: u64,
    h_lock: u64,
)
    requires
        0 <= i < MAX_ACCOUNTS,
    ensures
        ({
            let (s, r) = #[trigger] e.append_or_route_new_reserve_spec(i, add, now_slot, h_lock);
            &&& e.only_account(s, i)
            &&& r is Ok ==> {
                &&& s == e.with_account(i, s.accounts@[i])
                &&& s.accounts@[i].capital == e.accounts@[i].capital
                &&& s.accounts@[i].pnl == e.accounts@[i].pnl
                &&& s.accounts@[i].reserved_pnl == e.accounts@[i].reserved_pnl + add
                &&& s.accounts@[i].position() == e.accounts@[i].position()
            }
        }),
{
    broadcast use lemma_ledger_of_account;

    reveal(RiskEngine::append_or_route_new_reserve_spec);
}

/// Writing a profit keeps the position of the account and all multipliers.
pub broadcast proof fn position_set_pnl(
    e: RiskEngine,
    i: int,
    new_pnl: i128,
    mode: ReserveMode,
    ctx: Option<InstructionContext>,
)
    requires
        0 <= i < MAX_ACCOUNTS,
    ensures
        ({
            let (s, _, r) = #[trigger] e.set_pnl_with_reserve_spec(i, new_pnl, mode, ctx);
            r is Ok ==> {
                &&& e.same_multipliers(s)
                &&& s.accounts@[i].position() == e.accounts@[i].position()
            }
        }),
{
    broadcast use {lemma_ledger_of_account, step_append_reserve};

    reveal(RiskEngine::set_pnl_with_reserve_spec);
    reveal(RiskEngine::admit_fresh_reserve_h_lock_spec);
    reveal(RiskEngine::apply_reserve_loss_newest_first_spec);
}

/// Writing a profit.
pub broadcast proof fn step_set_pnl(
    e: RiskEngine,
    i: int,
    new_pnl: i128,
    mode: ReserveMode,
    ctx: Option<InstructionContext>,
)
    requires
        0 <= i < MAX_ACCOUNTS,
    ensures
        e.account_step(
            (#[trigger] e.set_pnl_with_reserve_spec(i, new_pnl, mode, ctx)).0,
            i,
            e.set_pnl_with_reserve_spec(i, new_pnl, mode, ctx).2 is Ok,
        ),
{
    broadcast use {lemma_ledger_of_account, step_append_reserve, position_set_pnl};

    reveal(RiskEngine::set_pnl_with_reserve_spec);
    reveal(RiskEngine::admit_fresh_reserve_h_lock_spec);
    reveal(RiskEngine::apply_reserve_loss_newest_first_spec);
}


/// Turning released profit over.
pub broadcast proof fn step_consume_released(e: RiskEngine, i: int, x: u128)
    requires
        0 <= i < MAX_ACCOUNTS,
    ensures
        e.account_step(
            (#[trigger] e.consume_released_pnl_spec(i, x)).0,
            i,
            e.consume_released_pnl_spec(i, x).1 is Ok,
        ),
{
    broadcast use lemma_ledger_of_account;

    reveal(RiskEngine::consume_released_pnl_spec);
}

/// Releasing a reserve early.
pub broadcast proof fn step_admit_outstanding(e: RiskEngine, i: int, ctx: InstructionContext)
    requires
        0 <= i < MAX_ACCOUNTS,
    ensures
        e.account_step(
            (#[trigger] e.admit_outstanding_reserve_on_touch_spec(i, ctx)).0,
            i,
            e.admit_outstanding_reserve_on_touch_spec(i, ctx).1 is Ok,
        ),
{
    broadcast use lemma_ledger_of_account;

    reveal(RiskEngine::admit_outstanding_reserve_on_touch_spec);
}

/// Maturing a reserve.
pub broadcast proof fn step_warmup(e: RiskEngine, i: int)
    requires
        0 <= i < MAX_ACCOUNTS,
    ensures
        e.account_step(
            (#[trigger] e.advance_profit_warmup_spec(i)).0,
            i,
            e.advance_profit_warmup_spec(i).1 is Ok,
        ),
{
    broadcast use lemma_ledger_of_account;

    reveal(RiskEngine::advance_profit_warmup_spec);
}

/// Writing a position.
pub broadcast proof fn step_set_basis(e: RiskEngine, i: int, basis: i128, spike: bool)
    requires
        0 <= i < MAX_ACCOUNTS,
    ensures
        ({
            let (s, r) = #[trigger] e.set_position_basis_q_inner_spec(i, basis, spike);
            &&& e.only_account(s, i)
            &&& e.same_multipliers(s)
            &&& r is Ok && e.books_balance() ==> s.books_balance()
            &&& r is Ok && e.sides_in_range() ==> s.sides_in_range()
            &&& r is Ok && e.positions_fit() && basis == 0 ==> s.positions_fit()
            &&& r is Ok ==> s.accounts@[i] == (Account {
                position_basis_q: basis,
                ..e.accounts@[i]
            })
        }),
{
    broadcast use lemma_ledger_of_account;

    reveal(RiskEngine::set_position_basis_q_inner_spec);
}

/// Attaching a position.
pub broadcast proof fn step_attach(e: RiskEngine, i: int, eff: i128, spike: bool)
    requires
        0 <= i < MAX_ACCOUNTS,
    ensures
        e.account_step(
            (#[trigger] e.attach_effective_position_inner_spec(i, eff, spike)).0,
            i,
            e.attach_effective_position_inner_spec(i, eff, spike).1 is Ok,
        ),
{
    broadcast use {lemma_ledger_of_account, step_set_basis};

    reveal(RiskEngine::attach_effective_position_inner_spec);
}

/// Settling a position against the indices of its side.
pub broadcast proof fn step_settle_side_effects(e: RiskEngine, i: int, ctx: InstructionContext)
    requires
        0 <= i < MAX_ACCOUNTS,
    ensures
        e.account_step(
            (#[trigger] e.settle_side_effects_live_spec(i, ctx)).0,
            i,
            e.settle_side_effects_live_spec(i, ctx).2 is Ok,
        ),
{
    broadcast use {lemma_ledger_of_account, step_set_pnl, position_set_pnl, step_set_basis};

    reveal(RiskEngine::settle_side_effects_live_spec);
}

/// Paying a loss from capital.
pub broadcast proof fn step_settle_losses(e: RiskEngine, i: int, ctx: Option<InstructionContext>)
    requires
        0 <= i < MAX_ACCOUNTS,
    ensures
        e.account_step(
            (#[trigger] e.settle_losses_spec(i, ctx)).0,
            i,
            e.settle_losses_spec(i, ctx).2 is Ok,
        ),
{
    broadcast use {step_set_capital, step_set_pnl};

    reveal(RiskEngine::settle_losses_spec);
}

/// Absorbing the loss of a flat account.
pub broadcast proof fn step_flat_negative(e: RiskEngine, i: int, ctx: Option<InstructionContext>)
    requires
        0 <= i < MAX_ACCOUNTS,
    ensures
        e.account_step(
            (#[trigger] e.resolve_flat_negative_spec(i, ctx)).0,
            i,
            e.resolve_flat_negative_spec(i, ctx).2 is Ok,
        ),
{
    broadcast use step_set_pnl;

    reveal(RiskEngine::resolve_flat_negative_spec);
}

/// Paying fee debt from capital.
pub broadcast proof fn step_fee_debt_sweep(e: RiskEngine, i: int)
    requires
        0 <= i < MAX_ACCOUNTS,
    ensures
        e.account_step(
            (#[trigger] e.fee_debt_sweep_spec(i)).0,
            i,
            e.fee_debt_sweep_spec(i).1 is Ok,
        ),
{
    broadcast use {lemma_ledger_of_account, step_set_capital};

    reveal(RiskEngine::fee_debt_sweep_spec);
}

/// Charging a fee.
pub broadcast proof fn step_charge_fee(e: RiskEngine, i: int, fee: u128)
    requires
        0 <= i < MAX_ACCOUNTS,
    ensures
        e.account_step(
            (#[trigger] e.charge_fee_spec(i, fee)).0,
            i,
            e.charge_fee_spec(i, fee).1 is Ok,
        ),
{
    broadcast use {lemma_ledger_of_account, step_set_capital};

    reveal(RiskEngine::charge_fee_spec);
}

/// Charging recurring fees.
pub broadcast proof fn step_sync_fee(e: RiskEngine, i: int, anchor: u64, rate: u128)
    requires
        0 <= i < MAX_ACCOUNTS,
    ensures
        e.account_step(
            (#[trigger] e.sync_fee_spec(i, anchor, rate)).0,
            i,
            e.sync_fee_spec(i, anchor, rate).1 is Ok,
        ),
{
    broadcast use {lemma_ledger_of_account, step_charge_fee};

    reveal(RiskEngine::sync_fee_spec);
}

/// Touching an account.
pub broadcast proof fn step_touch(e: RiskEngine, i: int, ctx: InstructionContext)
    ensures
        e.account_step(
            (#[trigger] e.touch_spec(i, ctx)).0,
            i,
            e.touch_spec(i, ctx).2 is Ok,
        ),
{
    broadcast use {
        step_admit_outstanding,
        step_warmup,
        step_settle_side_effects,
        step_settle_losses,
        step_flat_negative,
    };

    reveal(RiskEngine::touch_spec);
}

/// Finalizing a touched account.
pub broadcast proof fn step_finalize_one(e: RiskEngine, i: int, is_whole: bool)
    requires
        0 <= i,
    ensures
        e.account_step(
            (#[trigger] e.finalize_one_spec(i, is_whole)).0,
            i,
            e.finalize_one_spec(i, is_whole).1 is Ok,
        ),
{
    broadcast use {step_consume_released, step_set_capital, step_fee_debt_sweep};

    reveal(RiskEngine::finalize_one_spec);
}

/// Finalizing touched accounts.
pub broadcast proof fn step_finalize_all(e: RiskEngine, touched: Seq<u16>, is_whole: bool)
    ensures
        e.market_step(
            (#[trigger] e.finalize_all(touched, is_whole)).0,
            e.finalize_all(touched, is_whole).1 is Ok,
        ),
    decreases touched.len(),
{
    broadcast use step_finalize_one;

    if touched.len() > 0 {
        step_finalize_all(e, touched.drop_last(), is_whole);
    }
}

/// Finalizing what an instruction touched.
pub broadcast proof fn step_finalize_touched(e: RiskEngine, ctx: InstructionContext)
    ensures
        e.market_step(
            (#[trigger] e.finalize_touched_spec(ctx)).0,
            e.finalize_touched_spec(ctx).1 is Ok,
        ),
{
    broadcast use step_finalize_all;

    reveal(RiskEngine::finalize_touched_spec);
}

/// Starting a reset.
pub broadcast proof fn step_begin_reset(e: RiskEngine, side: Side)
    ensures
        e.quiet_step((#[trigger] e.begin_reset_spec(side)).0),
{
    reveal(RiskEngine::begin_reset_spec);
}

/// Starting the last reset.
pub broadcast proof fn step_begin_terminal_reset(e: RiskEngine, side: Side)
    requires
        e.market_mode == MarketMode::Resolved,
    ensures
        e.quiet_step((#[trigger] e.begin_terminal_reset_spec(side)).0),
{
    reveal(RiskEngine::begin_terminal_reset_spec);
}

/// Scheduling resets.
pub broadcast proof fn step_schedule_resets(e: RiskEngine, ctx: InstructionContext)
    ensures
        e.quiet_step((#[trigger] e.schedule_resets_spec(ctx)).0),
{
    reveal(RiskEngine::schedule_resets_spec);
}

/// Carrying resets out.
pub broadcast proof fn step_finalize_resets(e: RiskEngine, ctx: InstructionContext)
    ensures
        e.quiet_step((#[trigger] e.finalize_resets_spec(ctx)).0),
{
    broadcast use step_begin_reset;

    reveal(RiskEngine::finalize_resets_spec);
}

/// Ending an instruction.
pub broadcast proof fn step_close_instruction(e: RiskEngine, ctx: InstructionContext)
    ensures
        e.quiet_step((#[trigger] e.close_spec(ctx)).0),
{
    broadcast use {step_schedule_resets, step_finalize_resets};

    reveal(RiskEngine::close_spec);
}

/// Accruing the market.
pub broadcast proof fn step_accrue(e: RiskEngine, now_slot: u64, price: u64, rate: i128)
    ensures
        e.quiet_step((#[trigger] e.accrue_market_to_spec(now_slot, price, rate)).0),
{
    reveal(RiskEngine::accrue_market_to_spec);
}

/// Accruing the market and touching an account.
pub broadcast proof fn step_accrue_and_touch(
    e: RiskEngine,
    i: int,
    ctx: InstructionContext,
    now_slot: u64,
    price: u64,
    rate: i128,
)
    ensures
        e.account_step(
            (#[trigger] e.accrue_and_touch_spec(i, ctx, now_slot, price, rate)).0,
            i,
            e.accrue_and_touch_spec(i, ctx, now_slot, price, rate).2 is Ok,
        ),
{
    broadcast use {step_accrue, step_touch};

    reveal(RiskEngine::accrue_and_touch_spec);
}

/// Booking a residual.
pub broadcast proof fn step_book_residual(
    e: RiskEngine,
    ctx: InstructionContext,
    side: Side,
    residual: u128,
    budget: u128,
)
    ensures
        e.quiet_step((#[trigger] e.book_residual_chunk_spec(ctx, side, residual, budget)).0),
{
    reveal(RiskEngine::book_residual_chunk_spec);
    let locked = e.trigger_bankruptcy_hmax_lock_spec(ctx).0;
    if residual > 0 && locked.residual_chunk_spec(side, residual, budget) is Ok {
        crate::bankruptcy::lemma_residual_chunk(locked, side, residual, budget);
    }
}

/// Booking a residual or leaving it to a close in flight.
pub broadcast proof fn step_book_or_start(
    e: RiskEngine,
    ctx: InstructionContext,
    idx: u16,
    side: Side,
    price: u64,
    slot: u64,
    q: u128,
    residual: u128,
    budget: u128,
)
    ensures
        e.quiet_step((#[trigger] e.book_or_start_spec(ctx, idx, side, price, slot, q, residual, budget)).0),
{
    broadcast use step_book_residual;

    reveal(RiskEngine::book_or_start_spec);
}

/// Routing a deficit.
pub broadcast proof fn step_route_deficit(
    e: RiskEngine,
    ctx: InstructionContext,
    opp: Side,
    oi: u128,
    q: u128,
    d: u128,
)
    ensures
        e.quiet_step((#[trigger] e.route_deficit(ctx, opp, oi, q, d)).0),
{
    broadcast use step_book_or_start;

    reveal(RiskEngine::route_deficit);
}

/// Shrinking a side.
pub broadcast proof fn step_shrink_side(
    e: RiskEngine,
    ctx: InstructionContext,
    side: Side,
    oi: u128,
    q: u128,
)
    requires
        q <= oi,
    ensures
        e.side_step(
            (#[trigger] e.shrink_side(ctx, side, oi, q)).0,
            e.shrink_side(ctx, side, oi, q).2 is Ok,
        ),
{
    reveal(RiskEngine::shrink_side);
    if q < oi {
        crate::equity::lemma_share_within(
            e.get_a_side(crate::sides::opposite_side(side)) as int,
            oi - q,
            oi as int,
        );
    }
}

/// Draining a side that nobody holds.
pub broadcast proof fn step_drain_unheld(
    e: RiskEngine,
    ctx: InstructionContext,
    side: Side,
    q: u128,
    d: u128,
)
    ensures
        e.quiet_step((#[trigger] e.drain_unheld_side(ctx, side, q, d)).0),
{
    reveal(RiskEngine::drain_unheld_side);
}

/// Spreading a deficit over the other side.
pub broadcast proof fn step_enqueue_adl(
    e: RiskEngine,
    ctx: InstructionContext,
    side: Side,
    q: u128,
    d: u128,
)
    ensures
        e.side_step(
            (#[trigger] e.enqueue_adl_spec(ctx, side, q, d)).0,
            e.enqueue_adl_spec(ctx, side, q, d).2 is Ok,
        ),
{
    broadcast use {step_route_deficit, step_shrink_side, step_drain_unheld};

    reveal(RiskEngine::enqueue_adl_spec);
}

/// Settling a chunk of an account against `B`.
pub broadcast proof fn step_drain_b(e: RiskEngine, i: int, ctx: InstructionContext)
    requires
        0 <= i < MAX_ACCOUNTS,
    ensures
        ({
            let (s, c, r) = #[trigger] e.b_chunk_drained(i, ctx);
            &&& e.same_frame(s)
            &&& forall|j: int|
                0 <= j < MAX_ACCOUNTS && j != i ==> #[trigger] s.accounts@[j] == e.accounts@[j]
            &&& r is Ok && e.books_balance() ==> s.books_balance()
            &&& r is Ok && e.sides_in_range() ==> s.sides_in_range()
            &&& r is Ok && e.positions_fit() ==> s.positions_fit()
        }),
{
    broadcast use {lemma_ledger_of_account, step_set_pnl};

    reveal(RiskEngine::b_chunk_drained);
}

/// Continuing a bankrupt close.
pub broadcast proof fn step_continue_close(e: RiskEngine, now_slot: u64, ctx: InstructionContext)
    ensures
        e.quiet_step((#[trigger] e.continue_close_core_spec(now_slot, ctx)).0),
{
    broadcast use step_book_residual;

    reveal(RiskEngine::continue_close_core_spec);
}

/// Completing a bankrupt close.
pub broadcast proof fn step_complete_close(e: RiskEngine)
    ensures
        e.quiet_step((#[trigger] e.complete_close_spec()).0),
{
    reveal(RiskEngine::complete_close_spec);
}

/// Closing part of a position.
pub broadcast proof fn step_liquidation_closed(
    e: RiskEngine,
    i: int,
    eff: i128,
    q: u128,
    price: u64,
    ctx: InstructionContext,
)
    requires
        0 <= i < MAX_ACCOUNTS,
    ensures
        e.account_step(
            (#[trigger] e.liquidation_closed(i, eff, q, price, ctx)).0,
            i,
            e.liquidation_closed(i, eff, q, price, ctx).2 is Ok,
        ),
{
    broadcast use {step_attach, step_settle_losses, step_charge_fee};

    reveal(RiskEngine::liquidation_closed);
}

/// Liquidating part of a position.
pub broadcast proof fn step_liquidate_partial(
    e: RiskEngine,
    i: int,
    eff: i128,
    q: u128,
    price: u64,
    ctx: InstructionContext,
)
    requires
        0 <= i < MAX_ACCOUNTS,
    ensures
        e.account_step(
            (#[trigger] e.liquidate_partial(i, eff, q, price, ctx)).0,
            i,
            e.liquidate_partial(i, eff, q, price, ctx).2 is Ok,
        ),
{
    broadcast use {step_liquidation_closed, step_enqueue_adl};

    reveal(RiskEngine::liquidate_partial);
}

/// Liquidating a position.
pub broadcast proof fn step_liquidate_full(
    e: RiskEngine,
    i: int,
    eff: i128,
    price: u64,
    ctx: InstructionContext,
)
    requires
        0 <= i < MAX_ACCOUNTS,
    ensures
        e.account_step(
            (#[trigger] e.liquidate_full(i, eff, price, ctx)).0,
            i,
            e.liquidate_full(i, eff, price, ctx).2 is Ok,
        ),
{
    broadcast use {step_liquidation_closed, step_enqueue_adl, step_set_pnl};

    reveal(RiskEngine::liquidate_full);
}

/// Liquidating an account.
pub broadcast proof fn step_liquidate(
    e: RiskEngine,
    i: int,
    price: u64,
    policy: LiquidationPolicy,
    ctx: InstructionContext,
)
    ensures
        e.account_step(
            (#[trigger] e.liquidate_internal_spec(i, price, policy, ctx)).0,
            i,
            e.liquidate_internal_spec(i, price, policy, ctx).2 is Ok,
        ),
{
    broadcast use {step_liquidate_partial, step_liquidate_full};

    reveal(RiskEngine::liquidate_internal_spec);
}

/// Processing a candidate of the keeper.
pub broadcast proof fn step_candidate(
    e: RiskEngine,
    i: int,
    hint: Option<LiquidationPolicy>,
    price: u64,
    ctx: InstructionContext,
)
    ensures
        e.account_step(
            (#[trigger] e.candidate_processed(i, hint, price, ctx)).0,
            i,
            e.candidate_processed(i, hint, price, ctx).2 is Ok,
        ),
{
    broadcast use {step_touch, step_liquidate};

    reveal(RiskEngine::candidate_processed);
}

/// Processing candidates from one on.
pub broadcast proof fn step_phase1_from(
    e: RiskEngine,
    ctx: InstructionContext,
    candidates: Seq<(u16, Option<LiquidationPolicy>)>,
    k: int,
    price: u64,
    max_attempts: u16,
    max_inspections: u16,
    inspected: int,
    attempts: int,
    liquidations: int,
)
    ensures
        e.market_step(
            (#[trigger] e.phase1_from(
                ctx,
                candidates,
                k,
                price,
                max_attempts,
                max_inspections,
                inspected,
                attempts,
                liquidations,
            )).0,
            e.phase1_from(
                ctx,
                candidates,
                k,
                price,
                max_attempts,
                max_inspections,
                inspected,
                attempts,
                liquidations,
            ).2 is Ok,
        ),
    decreases candidates.len() - k,
{
    broadcast use step_candidate;

    if k < 0 || k >= candidates.len() || attempts >= max_attempts || inspected >= max_inspections
        || ctx.pending_reset_long || ctx.pending_reset_short {
    } else if !e.account_exists(candidates[k].0 as int) {
        step_phase1_from(
            e,
            ctx,
            candidates,
            k + 1,
            price,
            max_attempts,
            max_inspections,
            inspected + 1,
            attempts,
            liquidations,
        );
    } else {
        let (s, c, r) = e.candidate_processed(candidates[k].0 as int, candidates[k].1, price, ctx);
        if r is Ok {
            step_phase1_from(
                s,
                c,
                candidates,
                k + 1,
                price,
                max_attempts,
                max_inspections,
                inspected + 1,
                attempts + 1,
                if r->Ok_0 {
                    liquidations + 1
                } else {
                    liquidations
                },
            );
        }
    }
}

/// Processing the candidates of the keeper.
pub broadcast proof fn step_phase1(
    e: RiskEngine,
    ctx: InstructionContext,
    candidates: Seq<(u16, Option<LiquidationPolicy>)>,
    price: u64,
    max_attempts: u16,
    max_inspections: u16,
)
    ensures
        e.market_step(
            (#[trigger] e.phase1_spec(ctx, candidates, price, max_attempts, max_inspections)).0,
            e.phase1_spec(ctx, candidates, price, max_attempts, max_inspections).2 is Ok,
        ),
{
    broadcast use step_phase1_from;

    reveal(RiskEngine::phase1_spec);
}

/// Sweeping slots from one on.
pub broadcast proof fn step_sweep_from(
    e: RiskEngine,
    ctx: InstructionContext,
    i: int,
    end: int,
    counted: int,
)
    ensures
        e.market_step(
            (#[trigger] e.sweep_from(ctx, i, end, counted)).0,
            e.sweep_from(ctx, i, end, counted).2 is Ok,
        ),
    decreases end - i,
{
    broadcast use step_touch;

    if i >= end {
    } else if !e.slot_used(i) {
        step_sweep_from(e, ctx, i + 1, end, counted);
    } else {
        let (s, c, r) = e.touch_spec(i, ctx);
        if r is Ok {
            step_sweep_from(s, c, i + 1, end, counted + 1);
        }
    }
}

/// Sweeping a window of slots.
pub broadcast proof fn step_swept(
    e: RiskEngine,
    ctx: InstructionContext,
    window: u64,
    now_slot: u64,
)
    ensures
        e.market_step(
            (#[trigger] e.swept(ctx, window, now_slot)).0,
            e.swept(ctx, window, now_slot).2 is Ok,
        ),
{
    broadcast use step_sweep_from;

    reveal(RiskEngine::swept);
}

/// Cranking an accrued market.
pub broadcast proof fn step_cranked(
    e: RiskEngine,
    ctx: InstructionContext,
    now_slot: u64,
    price: u64,
    candidates: Seq<(u16, Option<LiquidationPolicy>)>,
    max_revalidations: u16,
    window: u64,
)
    ensures
        e.market_step(
            (#[trigger] e.cranked(ctx, now_slot, price, candidates, max_revalidations, window)).0,
            e.cranked(ctx, now_slot, price, candidates, max_revalidations, window).1 is Ok,
        ),
{
    broadcast use {step_phase1, step_swept, step_finalize_touched, step_close_instruction};

    reveal(RiskEngine::cranked);
}

/// Bringing both accounts of a trade up to date.
pub broadcast proof fn step_trade_prepared(
    e: RiskEngine,
    a: int,
    b: int,
    ctx: InstructionContext,
    now_slot: u64,
    price: u64,
    rate: i128,
)
    ensures
        e.market_step(
            (#[trigger] e.trade_prepared(a, b, ctx, now_slot, price, rate)).0,
            e.trade_prepared(a, b, ctx, now_slot, price, rate).2 is Ok,
        ),
{
    broadcast use {step_accrue_and_touch, step_touch, step_schedule_resets, step_finalize_resets};

    reveal(RiskEngine::trade_prepared);
}

/// Applying a trade.
pub broadcast proof fn step_trade_applied(
    e: RiskEngine,
    a: int,
    b: int,
    new_a: i128,
    new_b: i128,
    oi: (u128, u128),
    pnl_a: i128,
    ctx: InstructionContext,
)
    requires
        0 <= a < MAX_ACCOUNTS,
        0 <= b < MAX_ACCOUNTS,
    ensures
        e.market_step(
            (#[trigger] e.trade_applied(a, b, new_a, new_b, oi, pnl_a, ctx)).0,
            e.trade_applied(a, b, new_a, new_b, oi, pnl_a, ctx).2 is Ok,
        ),
{
    broadcast use {step_set_pnl, step_attach, step_settle_losses};

    reveal(RiskEngine::trade_applied);
}

/// Executing a prepared trade.
pub broadcast proof fn step_trade_rest(
    e: RiskEngine,
    a: int,
    b: int,
    price: u64,
    size_q: i128,
    exec_price: u64,
    fee_bps: u64,
    ctx: InstructionContext,
)
    requires
        0 <= a < MAX_ACCOUNTS,
        0 <= b < MAX_ACCOUNTS,
    ensures
        e.market_step(
            (#[trigger] e.trade_prepared_rest(a, b, price, size_q, exec_price, fee_bps, ctx)).0,
            e.trade_prepared_rest(a, b, price, size_q, exec_price, fee_bps, ctx).1 is Ok,
        ),
{
    broadcast use {
        step_trade_applied,
        step_charge_fee,
        step_finalize_touched,
        step_close_instruction,
    };

    reveal(RiskEngine::trade_prepared_rest);
}

/// Converting released profit.
pub broadcast proof fn step_convert(e: RiskEngine, i: int, x: u128, price: u64)
    requires
        0 <= i < MAX_ACCOUNTS,
    ensures
        e.account_step(
            (#[trigger] e.convert_core_spec(i, x, price)).0,
            i,
            e.convert_core_spec(i, x, price).1 is Ok,
        ),
{
    broadcast use {step_consume_released, step_set_capital, step_fee_debt_sweep};

    reveal(RiskEngine::convert_core_spec);
}

/// Settling a position at the settlement price.
pub broadcast proof fn step_reconcile_position(e: RiskEngine, i: int)
    requires
        0 <= i < MAX_ACCOUNTS,
        e.market_mode == MarketMode::Resolved,
    ensures
        e.account_step(
            (#[trigger] e.position_reconciled(i)).0,
            i,
            e.position_reconciled(i).1 is Ok,
        ),
{
    broadcast use {lemma_ledger_of_account, step_set_pnl, step_set_basis};

    reveal(RiskEngine::position_reconciled);
}

/// Reconciling an account of a resolved market.
pub broadcast proof fn step_reconcile(e: RiskEngine, i: int)
    ensures
        e.account_step(
            (#[trigger] e.reconcile_spec(i)).0,
            i,
            e.reconcile_spec(i).1 is Ok,
        ),
{
    broadcast use {
        lemma_ledger_of_account,
        step_reconcile_position,
        step_settle_losses,
        step_flat_negative,
    };

    reveal(RiskEngine::reconcile_spec);
}

/// Paying a profit out at the locked ratio.
pub broadcast proof fn step_profit_paid(e: RiskEngine, i: int)
    requires
        0 <= i < MAX_ACCOUNTS,
        e.market_mode == MarketMode::Resolved,
    ensures
        e.account_step(
            (#[trigger] e.profit_paid(i)).0,
            i,
            e.profit_paid(i).1 is Ok,
        ),
{
    broadcast use {step_set_pnl, step_set_capital};

    reveal(RiskEngine::profit_paid);
}

} // verus!
