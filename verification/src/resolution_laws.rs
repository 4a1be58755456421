//! A market can always be settled: where the clock and the epochs allow it, a settlement
//! at the last price succeeds, and so does the recovery from a close that is stuck.

use vstd::prelude::*;

use crate::constants::{ADL_ONE, MAX_ACCOUNTS, MAX_ORACLE_PRICE};
use crate::types::{MarketMode, RecoveryReason, ResolveMode, RiskEngine, RiskError, Side, SideMode};

verus! {

impl RiskEngine {
    /// Whether neither side is in its last epoch.
    pub open spec fn epochs_left(self) -> bool {
        &&& self.adl_epoch_long < u64::MAX
        &&& self.adl_epoch_short < u64::MAX
    }

    /// The engine with its clock at a slot.
    pub open spec fn at_slot(self, slot: u64) -> RiskEngine {
        RiskEngine { current_slot: slot, last_market_slot: slot, ..self }
    }

    /// Whether a side of `after` was reset or is as before, and reopened at most if
    /// nothing is stored on it.
    pub open spec fn side_drained(self, after: RiskEngine, side: Side) -> bool {
        let held = self.get_stored_pos_count(side) != 0;
        if held && self.get_side_mode(side) != SideMode::ResetPending {
            &&& after.get_epoch_side(side) == self.get_epoch_side(side) + 1
            &&& after.get_side_mode(side) == SideMode::ResetPending
            &&& after.get_stale_count(side) == self.get_stored_pos_count(side)
        } else {
            &&& after.get_epoch_side(side) == self.get_epoch_side(side)
            &&& held ==> after.get_side_mode(side) == self.get_side_mode(side)
            &&& after.get_stale_count(side) == self.get_stale_count(side)
        }
    }
}

/// A side without stored positions has no account with one.
proof fn lemma_nothing_stored(e: RiskEngine, n: int, i: int)
    requires
        0 <= i < n <= MAX_ACCOUNTS,
        e.slot_used(i),
    ensures
        e.accounts@[i].position_basis_q > 0 ==> e.counts_below(n).stored_long > 0,
        e.accounts@[i].position_basis_q < 0 ==> e.counts_below(n).stored_short > 0,
    decreases n,
{
    lemma_counts_are_small(e, n);
    lemma_counts_are_small(e, n - 1);
    if i < n - 1 {
        lemma_nothing_stored(e, n - 1, i);
    }
}

/// No count exceeds the number of slots.
proof fn lemma_counts_are_small(e: RiskEngine, n: int)
    requires
        0 <= n <= MAX_ACCOUNTS,
    ensures
        ({
            let c = e.counts_below(n);
            &&& c.used <= n
            &&& c.stored_long <= n
            &&& c.stored_short <= n
            &&& c.stale_long <= c.stored_long
            &&& c.stale_short <= c.stored_short
        }),
    decreases n,
{
    if n > 0 {
        lemma_counts_are_small(e, n - 1);
    }
}

/// The accounts of a settled market pass their checks: what was present on a side that
/// was reset is stale now.
proof fn lemma_drained_slots(e: RiskEngine, s: RiskEngine, n: int)
    requires
        e.sound(),
        e.market_mode == MarketMode::Live,
        s.market_mode == MarketMode::Resolved,
        s.accounts == e.accounts,
        s.used == e.used,
        s.params == e.params,
        s.last_oracle_price == e.last_oracle_price,
        s.adl_mult_long == e.adl_mult_long || s.adl_epoch_long == e.adl_epoch_long + 1,
        s.adl_mult_short == e.adl_mult_short || s.adl_epoch_short == e.adl_epoch_short + 1,
        e.current_slot <= s.resolved_slot,
        e.side_drained(s, Side::Long),
        e.side_drained(s, Side::Short),
        0 <= n <= MAX_ACCOUNTS,
    ensures
        s.slots_check(n) is Ok,
        ({
            let c = e.counts_below(n);
            let d = s.counts_below(n);
            &&& d.used == c.used
            &&& d.negative == c.negative
            &&& d.stored_long == c.stored_long
            &&& d.stored_short == c.stored_short
            &&& d.stale_long == if s.adl_epoch_long == e.adl_epoch_long {
                c.stale_long
            } else {
                c.stored_long
            }
            &&& d.stale_short == if s.adl_epoch_short == e.adl_epoch_short {
                c.stale_short
            } else {
                c.stored_short
            }
        }),
    decreases n,
{
    if n > 0 {
        lemma_drained_slots(e, s, n - 1);
        let i = n - 1;
        assert(s.slot_used(i) == e.slot_used(i));
        assert(e.slot_check(i) is Ok && e.counters_match()) by {
            reveal(RiskEngine::public_post);
            crate::conservation::lemma_slots_ok(e, MAX_ACCOUNTS as int, i);
        }
        if e.slot_used(i) {
            lemma_nothing_stored(e, MAX_ACCOUNTS as int, i);
        }
        let price = e.last_oracle_price;
        if e.slot_used(i) && e.accounts@[i].position_basis_q != 0 && !s.is_stale(i) {
            assert(s.notional_spec(i, price, false) == e.notional_spec(i, price, false)) by {
                reveal(RiskEngine::notional_spec);
                reveal(RiskEngine::effective_pos_q_spec);
            }
        }
    }
}

/// The reset of a side with stored positions, in a settled market.
proof fn lemma_drain_side(e: RiskEngine, side: Side)
    requires
        e.get_oi_eff(side) == 0,
        e.signed_shape_ok(),
        e.get_epoch_side(side) < u64::MAX,
    ensures
        ({
            let (s, r) = e.drain_if_held(side, false);
            let other = crate::sides::opposite_side(side);
            &&& r is Ok
            &&& e.side_drained(s, side)
            &&& s.get_epoch_side(other) == e.get_epoch_side(other)
            &&& s.get_side_mode(other) == e.get_side_mode(other)
            &&& s.get_stale_count(other) == e.get_stale_count(other)
            &&& s.get_a_side(other) == e.get_a_side(other)
            &&& s.get_a_side(side) == e.get_a_side(side) || (s.get_a_side(side) == ADL_ONE
                && s.get_epoch_side(side) == e.get_epoch_side(side) + 1)
            &&& s.signed_shape_ok()
            &&& s.totals_rest() == e.totals_rest()
            &&& e.phantom_dust_certified_long_q <= e.phantom_dust_potential_long_q
                ==> s.phantom_dust_certified_long_q <= s.phantom_dust_potential_long_q
            &&& e.phantom_dust_certified_short_q <= e.phantom_dust_potential_short_q
                ==> s.phantom_dust_certified_short_q <= s.phantom_dust_potential_short_q
        }),
{
    reveal(RiskEngine::begin_reset_spec);
}

impl RiskEngine {
    /// The engine with all that a reset moves set to zero.
    pub open spec fn totals_rest(self) -> RiskEngine {
        RiskEngine {
            adl_mult_long: 0,
            adl_mult_short: 0,
            adl_coeff_long: 0,
            adl_coeff_short: 0,
            f_long_num: 0,
            f_short_num: 0,
            adl_epoch_start_k_long: 0,
            adl_epoch_start_k_short: 0,
            f_epoch_start_long_num: 0,
            f_epoch_start_short_num: 0,
            adl_epoch_long: 0,
            adl_epoch_short: 0,
            side_mode_long: SideMode::Normal,
            side_mode_short: SideMode::Normal,
            stale_account_count_long: 0,
            stale_account_count_short: 0,
            phantom_dust_certified_long_q: 0,
            phantom_dust_certified_short_q: 0,
            phantom_dust_potential_long_q: 0,
            phantom_dust_potential_short_q: 0,
            ..self
        }
    }
}

/// A sound live market settles: with the clock moved to the slot of the settlement, the
/// accounts are drained and all that is checked afterwards holds.
proof fn lemma_settlement_succeeds(
    e: RiskEngine,
    price: u64,
    now_slot: u64,
    shift_long: i128,
    shift_short: i128,
)
    requires
        e.sound(),
        e.market_mode == MarketMode::Live,
        e.epochs_left(),
        e.current_slot <= now_slot,
        0 < price,
        shift_long != i128::MIN,
        shift_short != i128::MIN,
    ensures
        e.at_slot(now_slot).with_resolution(
            price,
            e.last_oracle_price,
            now_slot,
            shift_long,
            shift_short,
        ).resolution_drained(false).1 is Ok,
{
    let d = e.at_slot(now_slot).with_resolution(
        price,
        e.last_oracle_price,
        now_slot,
        shift_long,
        shift_short,
    );
    assert(e.totals_ok() && e.counters_match()) by {
        reveal(RiskEngine::public_post);
    }
    lemma_drain_side(d, Side::Long);
    let d2 = d.drain_if_held(Side::Long, false).0;
    lemma_drain_side(d2, Side::Short);
    let d3 = d2.drain_if_held(Side::Short, false).0;
    let s = d3.with_ready_sides();
    lemma_drained_slots(e, s, MAX_ACCOUNTS as int);
    assert(s.totals_ok());
    assert(s.counters_match());
    assert(s.public_post() is Ok) by {
        reveal(RiskEngine::public_post);
    }
    reveal(RiskEngine::resolution_drained);
}

/// A settlement at the last live price succeeds on every sound live market with epochs
/// left and no close in flight, whatever the settlement price, from the present slot on.
pub proof fn law_degenerate_resolution_succeeds(e: RiskEngine, price: u64, now_slot: u64)
    requires
        e.sound(),
        e.market_mode == MarketMode::Live,
        e.active_close_present == 0,
        e.epochs_left(),
        e.current_slot <= now_slot,
        0 < price <= MAX_ORACLE_PRICE,
    ensures
        e.resolve_market_spec(
            ResolveMode::Degenerate,
            price,
            e.last_oracle_price,
            now_slot,
            0,
        ).1 is Ok,
        e.resolve_at_last(now_slot).1 is Ok,
{
    assert(e.totals_ok()) by {
        reveal(RiskEngine::public_post);
    }
    lemma_settles_at(e, price, now_slot);
    lemma_settles_at(e, e.last_oracle_price, now_slot);
}

proof fn lemma_settles_at(e: RiskEngine, price: u64, now_slot: u64)
    requires
        e.sound(),
        e.market_mode == MarketMode::Live,
        e.active_close_present == 0,
        e.epochs_left(),
        e.current_slot <= now_slot,
        0 < price <= MAX_ORACLE_PRICE,
    ensures
        e.resolve_market_spec(
            ResolveMode::Degenerate,
            price,
            e.last_oracle_price,
            now_slot,
            0,
        ).1 is Ok,
{
    reveal(RiskEngine::resolve_market_spec);
    reveal(RiskEngine::settled_at);
    assert(e.totals_ok()) by {
        reveal(RiskEngine::public_post);
    }
    let t = e.at_slot(now_slot);
    let diff = price - e.last_oracle_price;
    lemma_shift_fits(t, Side::Long, diff);
    lemma_shift_fits(t, Side::Short, -diff);
    lemma_settlement_succeeds(
        e,
        price,
        now_slot,
        t.terminal_shift(Side::Long, diff)->Ok_0,
        t.terminal_shift(Side::Short, -diff)->Ok_0,
    );
}

proof fn lemma_shift_fits(e: RiskEngine, side: Side, diff: int)
    requires
        e.get_a_side(side) <= ADL_ONE,
        -MAX_ORACLE_PRICE <= diff <= MAX_ORACLE_PRICE,
    ensures
        e.terminal_shift(side, diff) is Ok,
        e.terminal_shift(side, diff)->Ok_0 != i128::MIN,
{
    let a = e.get_a_side(side) as int;
    assert(-(ADL_ONE * MAX_ORACLE_PRICE) <= a * diff <= ADL_ONE * MAX_ORACLE_PRICE)
        by (nonlinear_arith)
        requires
            0 <= a <= ADL_ONE,
            -MAX_ORACLE_PRICE <= diff <= MAX_ORACLE_PRICE,
    ;
}

/// Recovery from a close that is stuck succeeds on every sound market with epochs left:
/// the residual is recorded, and the market settles at its last price.
pub proof fn law_stuck_close_recovers(e: RiskEngine, now_slot: u64, target: u64)
    requires
        e.sound(),
        e.market_mode == MarketMode::Live,
        e.close_is_stuck() == Ok::<bool, RiskError>(true),
        e.active_close_residual_recorded + e.active_close_residual_remaining <= u128::MAX,
        e.epochs_left(),
        e.current_slot <= now_slot,
        target <= MAX_ORACLE_PRICE,
    ensures
        e.recover_spec(
            RecoveryReason::ActiveBankruptCloseCannotProgress,
            now_slot,
            target,
        ).1 is Ok,
{
    broadcast use crate::books::step_complete_close;

    assert(e.totals_ok()) by {
        reveal(RiskEngine::public_post);
    }
    reveal(RiskEngine::recover_spec);
    reveal(RiskEngine::recovery_reason_spec);
    reveal(RiskEngine::complete_close_spec);
    let (s, r) = e.complete_close_spec();
    assert(s.public_post() is Ok) by {
        lemma_close_is_not_checked(e, s, MAX_ACCOUNTS as int);
        reveal(RiskEngine::public_post);
    }
    law_degenerate_resolution_succeeds(s, s.last_oracle_price, now_slot);
}

/// What is checked of the accounts does not depend on a close in flight.
proof fn lemma_close_is_not_checked(e: RiskEngine, s: RiskEngine, n: int)
    requires
        s.accounts == e.accounts,
        s.used == e.used,
        s.params == e.params,
        s.market_mode == e.market_mode,
        s.current_slot == e.current_slot,
        s.resolved_slot == e.resolved_slot,
        s.last_oracle_price == e.last_oracle_price,
        s.adl_mult_long == e.adl_mult_long,
        s.adl_mult_short == e.adl_mult_short,
        s.adl_epoch_long == e.adl_epoch_long,
        s.adl_epoch_short == e.adl_epoch_short,
        s.side_mode_long == e.side_mode_long,
        s.side_mode_short == e.side_mode_short,
        0 <= n <= MAX_ACCOUNTS,
    ensures
        s.slots_check(n) == e.slots_check(n),
        s.counts_below(n) == e.counts_below(n),
    decreases n,
{
    if n > 0 {
        lemma_close_is_not_checked(e, s, n - 1);
        assert(s.slot_used(n - 1) == e.slot_used(n - 1));
        assert(s.notional_spec(n - 1, e.last_oracle_price, false) == e.notional_spec(
            n - 1,
            e.last_oracle_price,
            false,
        )) by {
            reveal(RiskEngine::notional_spec);
            reveal(RiskEngine::effective_pos_q_spec);
        }
    }
}

} // verus!
