//! Exactly when each step is accepted: refusals are owed to what is stated here and to
//! nothing else.

use vstd::prelude::*;

use crate::constants::{MAX_ACCOUNTS, MAX_ORACLE_PRICE};
use crate::margin_laws::{
    law_above_maintenance_is_healthy, law_effective_position_is_what_is_held,
};
use crate::measures::{greater, size_of};
use crate::types::{MarketMode, RiskEngine, SideMode};

verus! {

/// A settlement price is accepted exactly if it is within the band, above and below.
pub proof fn law_band_is_accepted_exactly(e: RiskEngine, resolved: u64)
    ensures
        ({
            let last = e.last_oracle_price as int;
            let dev = e.params.resolve_price_deviation_bps as int;
            e.within_band(resolved) <==> -(dev * last) <= (resolved - last) * 10_000 <= dev * last
        }),
{
}

/// Horizons and a threshold are accepted exactly if they may be asked for.
pub proof fn law_admission_is_accepted_exactly(
    e: RiskEngine,
    h_min: u64,
    h_max: u64,
    threshold: Option<u128>,
)
    ensures
        RiskEngine::admission_pair_ok(h_min, h_max, e.params) && RiskEngine::threshold_opt_ok(
            threshold,
        ) <==> e.lets_ask_for(h_min as int, h_max as int, threshold),
{
}

/// A request on an account in order is accepted exactly if the market is live, the price is
/// within its bound, and the horizons and the threshold may be asked for.
pub proof fn law_request_is_accepted_exactly(
    e: RiskEngine,
    i: int,
    price: u64,
    h_min: u64,
    h_max: u64,
    threshold: Option<u128>,
)
    requires
        e.validate_shape_spec(i) is Ok,
    ensures
        e.live_gate(i, price, h_min, h_max, threshold) is Ok <==> {
            &&& e.market_mode == MarketMode::Live
            &&& 0 < price <= MAX_ORACLE_PRICE
            &&& e.lets_ask_for(h_min as int, h_max as int, threshold)
        },
{
}

/// A trade is let in exactly if the market is live, the accounts exist and differ, the
/// quantity and the prices are within their bounds, and it is not in the past.
pub proof fn law_trade_is_let_in_exactly(
    e: RiskEngine,
    a: u16,
    b: u16,
    price: u64,
    now_slot: u64,
    q: i128,
    paid: u64,
    bps: u64,
    h_min: u64,
    h_max: u64,
    threshold: Option<u128>,
)
    ensures
        e.trade_entry_spec(a, b, price, now_slot, q, paid, bps, h_min, h_max, threshold) is Ok
            <==> {
            &&& e.market_mode == MarketMode::Live
            &&& e.lets_ask_for(h_min as int, h_max as int, threshold)
            &&& e.has_account(a as int)
            &&& e.has_account(b as int)
            &&& a != b
            &&& 0 < q <= 100_000_000_000_000
            &&& 0 < price <= 1_000_000_000_000
            &&& 0 < paid <= 1_000_000_000_000
            &&& bps <= e.params.max_trading_fee_bps
            &&& e.current_slot <= now_slot
            &&& e.last_market_slot <= now_slot
        },
{
    reveal(RiskEngine::trade_entry_spec);
}

/// A crank of a market in order is let in exactly if the market is live, the price is within
/// its bound, it is not in the past, and it touches no more than it may.
pub proof fn law_crank_is_let_in_exactly(
    e: RiskEngine,
    now_slot: u64,
    price: u64,
    attempts: u16,
    h_min: u64,
    h_max: u64,
    threshold: Option<u128>,
    window: u64,
)
    requires
        e.public_post() is Ok,
    ensures
        e.crank_gate(now_slot, price, attempts, h_min, h_max, threshold, window) is Ok <==> {
            &&& e.market_mode == MarketMode::Live
            &&& e.lets_ask_for(h_min as int, h_max as int, threshold)
            &&& 0 < price <= MAX_ORACLE_PRICE
            &&& e.current_slot <= now_slot
            &&& e.last_market_slot <= now_slot
            &&& attempts + window <= 256
        },
{
}

/// A settlement is let in exactly if the market is live, no close is in flight, both prices
/// are within their bounds, and it is not in the past.
pub proof fn law_settlement_is_let_in_exactly(
    e: RiskEngine,
    resolved: u64,
    live: u64,
    now_slot: u64,
)
    ensures
        e.resolve_gate(resolved, live, now_slot) is Ok <==> {
            &&& e.market_mode == MarketMode::Live
            &&& e.active_close_present == 0
            &&& 0 < resolved <= MAX_ORACLE_PRICE
            &&& 0 < live <= MAX_ORACLE_PRICE
            &&& e.current_slot <= now_slot
            &&& e.last_market_slot <= now_slot
        },
{
}

/// A deposit is let in exactly if the clock may go to its slot, the vault can take it, and it
/// takes no free slot with nothing.
pub proof fn law_deposit_is_let_in_exactly(e: RiskEngine, idx: u16, amount: u128, now_slot: u64)
    ensures
        e.deposit_gate(idx, amount, now_slot) is Ok <==> {
            &&& e.may_wait_until(now_slot as int)
            &&& e.vault.0 + amount <= 10_000_000_000_000_000
            &&& e.slot_used(idx as int) || amount > 0
        },
{
}

/// The clock of a live market may go on without an accrual exactly as far as stated.
pub proof fn law_clock_goes_on_exactly(e: RiskEngine, now_slot: u64)
    ensures
        e.check_live_accrual_envelope_spec(now_slot) is Ok <==> e.may_wait_until(
            now_slot as int,
        ),
{
}

/// An account of a live market can be closed exactly if it holds nothing, has neither profit
/// nor loss nor anything in warmup, owes nothing, and the vault holds its capital.
pub proof fn law_account_is_closable_exactly(e: RiskEngine, i: int)
    requires
        0 <= i < MAX_ACCOUNTS,
        e.effective_pos_q_spec(i, false) is Ok,
    ensures
        e.closable(i) is Ok <==> {
            let a = e.accounts@[i];
            &&& e.held(i) == 0
            &&& a.pnl == 0
            &&& a.owes() == 0
            &&& a.reserved_pnl == 0
            &&& a.sched_present == 0
            &&& a.pending_present == 0
            &&& a.capital.0 <= e.vault.0
        },
{
    law_effective_position_is_what_is_held(e, i, false);
}

/// A conversion of ripe profit is let in exactly if it is of something, of no more than is
/// ripe, and with no position of no more than is safe.
pub proof fn law_conversion_is_let_in_exactly(e: RiskEngine, i: int, x: u128)
    requires
        0 <= i < MAX_ACCOUNTS,
        e.market_mode == MarketMode::Live,
        e.accounts@[i].reserved_pnl <= e.accounts@[i].profit(),
    ensures
        e.conversion_gate(i, x) is Ok <==> {
            let h = e.haircut();
            &&& 0 < x <= e.ripe(e.accounts@[i])
            &&& e.accounts@[i].position_basis_q == 0 ==> x <= e.max_safe_conversion(
                i,
                x,
                h.0,
                h.1,
            )
        },
{
}

/// A conversion leaves an account in health exactly if it is healthy with a holding, or owns
/// no less than nothing without one.
pub proof fn law_conversion_health_is_exact(e: RiskEngine, i: int, price: u64)
    requires
        0 <= i < MAX_ACCOUNTS,
        0 < price <= MAX_ORACLE_PRICE,
        e.effective_pos_q_spec(i, false) is Ok,
        i128::MIN <= e.accounts@[i].owns() <= i128::MAX,
    ensures
        e.conversion_health(i, price) is Ok <==> if e.held(i) != 0 {
            e.is_healthy(i, price as int)
        } else {
            e.accounts@[i].owns() >= 0
        },
{
    law_effective_position_is_what_is_held(e, i, false);
    law_above_maintenance_is_healthy(e, i, price);
}

/// An account in order of a settled market can be closed exactly if it holds nothing, has no
/// loss, and has no profit or everything else is wound up.
pub proof fn law_terminal_close_is_let_in_exactly(e: RiskEngine, i: int)
    requires
        e.validate_shape_spec(i) is Ok,
    ensures
        e.terminal_gate(i) is Ok <==> {
            let a = e.accounts@[i];
            &&& e.market_mode == MarketMode::Resolved
            &&& e.current_slot == e.resolved_slot
            &&& a.position_basis_q == 0
            &&& a.pnl >= 0
            &&& a.pnl > 0 ==> e.is_wound_up()
        },
{
}

/// Two positions are fit for a trade exactly if what each account then holds is within its
/// bound.
pub proof fn law_positions_fit_a_trade_exactly(e: RiskEngine, a: int, b: int, price: u64, q: i128)
    requires
        0 <= a < MAX_ACCOUNTS,
        0 <= b < MAX_ACCOUNTS,
        e.pair_positions(a, b, price) is Ok,
    ensures
        e.trade_positions(a, b, price, q) is Ok <==> size_of(e.held(a) + q)
            <= 100_000_000_000_000 && size_of(e.held(b) - q) <= 100_000_000_000_000,
{
    law_effective_position_is_what_is_held(e, a, false);
    law_effective_position_is_what_is_held(e, b, false);
}

/// A step towards a share in losses is let in exactly if the market is live and in order, it
/// is not in the past, and the horizons may be asked for.
pub proof fn law_loss_step_is_let_in_exactly(
    e: RiskEngine,
    now_slot: u64,
    h_min: u64,
    h_max: u64,
    threshold: Option<u128>,
)
    ensures
        e.account_b_gate(now_slot, h_min, h_max, threshold) is Ok <==> {
            &&& e.lets_ask_for(h_min as int, h_max as int, threshold)
            &&& e.public_post() is Ok
            &&& e.market_mode == MarketMode::Live
            &&& e.current_slot <= now_slot
            &&& e.last_market_slot <= now_slot
        },
{
}

/// What a position counts for on the longs.
pub open spec fn long_part(q: int) -> int {
    greater(q, 0)
}

/// What a position counts for on the shorts.
pub open spec fn short_part(q: int) -> int {
    greater(-q, 0)
}

/// One if a position is there, and none if not.
pub open spec fn one_if(b: bool) -> int {
    if b {
        1
    } else {
        0
    }
}

impl RiskEngine {
    /// Whether the mode of its side lets an account go from one position to another: to
    /// nothing always; on a normal side anywhere; on a draining side no further out on the
    /// same side; on a side in its reset nowhere.
    pub open spec fn lets_go(self, old: int, new: int) -> bool {
        let mode = if new > 0 {
            self.side_mode_long
        } else {
            self.side_mode_short
        };
        new == 0 || match mode {
            SideMode::Normal => true,
            SideMode::ResetPending => false,
            SideMode::DrainOnly => if new > 0 {
                new <= old
            } else {
                old <= new
            },
        }
    }
}

/// The interest after a trade is accepted exactly if each side holds what the two accounts
/// had, stays within its bound of interest and of positions, grows only if it is normal,
/// and the modes let both accounts go where they go. It is then what it was, less the old
/// positions and with the new ones, side by side.
pub proof fn law_interest_is_accepted_exactly(
    e: RiskEngine,
    old_a: i128,
    new_a: i128,
    old_b: i128,
    new_b: i128,
)
    requires
        i128::MIN < old_a,
        i128::MIN < new_a,
        i128::MIN < old_b,
        i128::MIN < new_b,
    ensures
        ({
            let had_long = long_part(old_a as int) + long_part(old_b as int);
            let had_short = short_part(old_a as int) + short_part(old_b as int);
            let long = e.oi_eff_long_q - had_long + long_part(new_a as int) + long_part(
                new_b as int,
            );
            let short = e.oi_eff_short_q - had_short + short_part(new_a as int) + short_part(
                new_b as int,
            );
            let longs = e.stored_pos_count_long + one_if(new_a > 0) + one_if(new_b > 0) - one_if(
                old_a > 0,
            ) - one_if(old_b > 0);
            let shorts = e.stored_pos_count_short + one_if(new_a < 0) + one_if(new_b < 0)
                - one_if(old_a < 0) - one_if(old_b < 0);
            let r = e.trade_interest(old_a, new_a, old_b, new_b);
            &&& r is Ok <==> {
                &&& had_long <= e.oi_eff_long_q
                &&& had_short <= e.oi_eff_short_q
                &&& long <= 100_000_000_000_000
                &&& short <= 100_000_000_000_000
                &&& e.side_mode_long == SideMode::Normal || long <= e.oi_eff_long_q
                &&& e.side_mode_short == SideMode::Normal || short <= e.oi_eff_short_q
                &&& e.lets_go(old_a as int, new_a as int)
                &&& e.lets_go(old_b as int, new_b as int)
                &&& 0 <= longs <= e.params.max_active_positions_per_side
                &&& 0 <= shorts <= e.params.max_active_positions_per_side
            }
            &&& r is Ok ==> r->Ok_0.0 == long && r->Ok_0.1 == short
        }),
{
}

} // verus!
