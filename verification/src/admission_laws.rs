//! What the instructions admit, and what each leaves of profits and movements in the end.

use vstd::prelude::*;

use crate::books::lemma_ledger_of_account;
use crate::constants::{MAX_ACCOUNTS, MAX_ORACLE_PRICE};
use crate::context::InstructionContext;
use crate::measures::{lesser, size_of};
use crate::types::{Account, LiquidationPolicy, MarketMode, RiskEngine, RiskParams};

verus! {

impl RiskEngine {
    /// Whether an instruction may ask for these horizons and this threshold: the longest is
    /// positive and within the range of the market, the shortest is no longer than that and
    /// zero or within the range too, and a threshold is positive and can be scaled.
    pub open spec fn lets_ask_for(self, h_min: int, h_max: int, threshold: Option<u128>) -> bool {
        &&& 0 < h_max
        &&& self.params.h_min <= h_max
        &&& h_max <= self.params.h_max
        &&& h_min <= h_max
        &&& h_min == 0 || self.params.h_min <= h_min
        &&& threshold is Some ==> 0 < threshold->0 && threshold->0 * 1_000_000_000 <= u128::MAX
    }

    /// Whether the slot of account `i` is one of the market and in use.
    pub open spec fn has_account(self, i: int) -> bool {
        0 <= i < MAX_ACCOUNTS && i < self.params.max_accounts && self.slot_used(i)
    }
}

/// Which trades are admitted at all: on a live market, between two different accounts that
/// exist, of a positive quantity and at prices within their bounds, at a fee within its
/// bound, and not in the past. Neither position may grow out of its bound.
pub proof fn law_trade_is_admitted(
    e: RiskEngine,
    a: u16,
    b: u16,
    price: u64,
    now_slot: u64,
    q: i128,
    paid: u64,
    rate: i128,
    bps: u64,
    h_min: u64,
    h_max: u64,
    threshold: Option<u128>,
)
    requires
        e.execute_trade_spec(a, b, price, now_slot, q, paid, rate, bps, h_min, h_max, threshold).1
            is Ok,
    ensures
        ({
            let ctx = RiskEngine::admission(h_min, h_max, threshold);
            let t = e.trade_prepared(a as int, b as int, ctx, now_slot, price, rate).0;
            &&& e.market_mode == MarketMode::Live
            &&& e.lets_ask_for(h_min as int, h_max as int, threshold)
            &&& e.has_account(a as int)
            &&& e.has_account(b as int)
            &&& a != b
            &&& 0 < q <= 100_000_000_000_000
            &&& 0 < price <= 1_000_000_000_000
            &&& 0 < paid <= 1_000_000_000_000
            &&& bps <= e.params.max_trading_fee_bps
            &&& e.current_slot <= now_slot
            &&& e.last_market_slot <= now_slot
            &&& size_of(t.held(a as int) + q) <= 100_000_000_000_000
            &&& size_of(t.held(b as int) - q) <= 100_000_000_000_000
        }),
{
    reveal(RiskEngine::execute_trade_spec);
    reveal(RiskEngine::trade_entry_spec);
    reveal(RiskEngine::trade_prepared_rest);
    let ctx = RiskEngine::admission(h_min, h_max, threshold);
    let t = e.trade_prepared(a as int, b as int, ctx, now_slot, price, rate).0;
    crate::margin_laws::law_effective_position_is_what_is_held(t, a as int, false);
    crate::margin_laws::law_effective_position_is_what_is_held(t, b as int, false);
}

/// Which cranks are admitted: on a live market, with a price within its bound, and not in the
/// past; and candidates and window together are no more than an instruction may touch.
pub proof fn law_crank_is_admitted(
    e: RiskEngine,
    now_slot: u64,
    price: u64,
    candidates: Seq<(u16, Option<LiquidationPolicy>)>,
    max_revalidations: u16,
    rate: i128,
    h_min: u64,
    h_max: u64,
    threshold: Option<u128>,
    window: u64,
)
    requires
        e.keeper_crank_spec(
            now_slot,
            price,
            candidates,
            max_revalidations,
            rate,
            h_min,
            h_max,
            threshold,
            window,
        ).1 is Ok,
    ensures
        e.market_mode == MarketMode::Live,
        e.lets_ask_for(h_min as int, h_max as int, threshold),
        0 < price <= MAX_ORACLE_PRICE,
        e.current_slot <= now_slot,
        e.last_market_slot <= now_slot,
        max_revalidations + window <= 256,
{
    reveal(RiskEngine::keeper_crank_spec);
}

/// Which requests on an account are admitted: on a live market, for an account that exists,
/// with a price within its bound and horizons that may be asked for.
pub proof fn law_request_is_admitted(
    e: RiskEngine,
    i: int,
    price: u64,
    h_min: u64,
    h_max: u64,
    threshold: Option<u128>,
)
    requires
        e.live_gate(i, price, h_min, h_max, threshold) is Ok,
    ensures
        e.market_mode == MarketMode::Live,
        e.has_account(i),
        0 < price <= MAX_ORACLE_PRICE,
        e.lets_ask_for(h_min as int, h_max as int, threshold),
{
    reveal(RiskEngine::validate_shape_at_spec);
}

/// An account of a live market is unsettled exactly if it has a position and differs from its
/// side in the epoch, the multiplier, either index, or the loss index.
pub proof fn law_unsettled_is_any_difference(e: RiskEngine, a: Account)
    requires
        e.market_mode == MarketMode::Live,
        e.unsettled_live_spec(a) is Ok,
    ensures
        e.unsettled_live_spec(a)->Ok_0 <==> {
            ||| a.position_basis_q > 0 && {
                ||| a.adl_epoch_snap != e.adl_epoch_long
                ||| a.adl_a_basis != e.adl_mult_long
                ||| a.adl_k_snap != e.adl_coeff_long
                ||| a.f_snap != e.f_long_num
                ||| a.b_snap != e.b_long_num
            }
            ||| a.position_basis_q < 0 && {
                ||| a.adl_epoch_snap != e.adl_epoch_short
                ||| a.adl_a_basis != e.adl_mult_short
                ||| a.adl_k_snap != e.adl_coeff_short
                ||| a.f_snap != e.f_short_num
                ||| a.b_snap != e.b_short_num
            }
        },
{
}

/// Finishing a touched account converts its ripe profit, one for one, if everything ripe is
/// backed and it has no position; then it pays the fees that it owes from its capital, as
/// far as that goes.
pub proof fn law_finalization_is_exact(e: RiskEngine, i: int, is_whole: bool)
    requires
        0 <= i < MAX_ACCOUNTS,
        e.market_mode == MarketMode::Live,
        e.finalize_one_spec(i, is_whole).1 is Ok,
    ensures
        ({
            let s = e.finalize_one_spec(i, is_whole).0;
            let a = e.accounts@[i];
            let b = s.accounts@[i];
            let converted = if is_whole && a.position_basis_q == 0 && a.pnl > 0 {
                a.pnl - a.reserved_pnl
            } else {
                0
            };
            let all = a.capital.0 + converted;
            let swept = lesser(a.owes(), all);
            &&& b.pnl == a.pnl - converted
            &&& b.capital.0 == all - swept
            &&& b.fee_credits.0 == a.fee_credits.0 + swept
            &&& b.reserved_pnl == a.reserved_pnl
            &&& b.stance() == a.stance()
            &&& s.insurance_fund.balance.0 == e.insurance_fund.balance.0 + swept
            &&& s.pnl_matured_pos_tot == e.pnl_matured_pos_tot - converted
            &&& s.vault == e.vault
        }),
{
    broadcast use lemma_ledger_of_account;

    reveal(RiskEngine::finalize_one_spec);
    reveal(RiskEngine::consume_released_pnl_spec);
    reveal(RiskEngine::set_capital_spec);
    reveal(RiskEngine::fee_debt_sweep_spec);
}

/// Everything ripe is backed exactly if there is some and the vault holds that much beyond
/// capital and insurance.
pub proof fn law_whole_means_backed(e: RiskEngine)
    ensures
        e.is_whole() <==> 0 < e.pnl_matured_pos_tot <= e.vault.0 - e.c_tot.0
            - e.insurance_fund.balance.0,
{
}

/// A touch releases the whole reserve of an account ahead of time exactly if the instruction
/// asks for no wait, price movement has not used up its allowance, and the vault backs it
/// along with all that is ripe.
pub proof fn law_reserve_is_released_early_when_backed(
    e: RiskEngine,
    i: int,
    ctx: InstructionContext,
)
    requires
        0 <= i < MAX_ACCOUNTS,
        e.market_mode == MarketMode::Live,
        e.accounts@[i].reserved_pnl > 0,
        e.admit_outstanding_reserve_on_touch_spec(i, ctx).1 is Ok,
    ensures
        ({
            let s = e.admit_outstanding_reserve_on_touch_spec(i, ctx).0;
            let a = e.accounts@[i];
            let b = s.accounts@[i];
            let used_up = match ctx.admit_h_max_consumption_threshold_bps_opt_shared {
                Some(t) => t <= e.price_move_consumed_bps_this_generation,
                None => false,
            };
            let backed = e.pnl_matured_pos_tot + a.reserved_pnl <= e.vault.0 - e.c_tot.0
                - e.insurance_fund.balance.0;
            if ctx.admit_h_min_shared == 0 && !used_up && backed {
                &&& b.reserved_pnl == 0
                &&& s.pnl_matured_pos_tot == e.pnl_matured_pos_tot + a.reserved_pnl
                &&& b.pnl == a.pnl
                &&& b.capital == a.capital
            } else {
                s == e
            }
        }),
{
    broadcast use lemma_ledger_of_account;

    reveal(RiskEngine::admit_outstanding_reserve_on_touch_spec);
}

/// An accrual counts what the price has moved, up or down, as a share of the price before, as
/// long as anything is open, towards the allowance of the present round.
pub proof fn law_accrual_counts_every_move(e: RiskEngine, now_slot: u64, price: u64, rate: i128)
    requires
        e.accrue_market_to_spec(now_slot, price, rate).1 is Ok,
    ensures
        ({
            let s = e.accrue_market_to_spec(now_slot, price, rate).0;
            let last = e.last_oracle_price as int;
            let share = if e.oi_eff_long_q != 0 || e.oi_eff_short_q != 0 {
                size_of(price - last) * 10_000 * 1_000_000_000 / last
            } else {
                0
            };
            s.price_move_consumed_bps_this_generation == lesser(
                e.price_move_consumed_bps_this_generation + share,
                u128::MAX as int,
            )
        }),
{
    reveal(RiskEngine::accrue_market_to_spec);
    reveal(RiskEngine::public_post);
    let last = e.last_oracle_price as int;
    if last > 0 {
        assert(0int / last == 0) by (nonlinear_arith)
            requires
                last > 0,
        ;
    }
}

/// A new market has the price and the slot that it was given, and nothing else: no money, no
/// account, nothing open, no loss, both sides whole.
pub proof fn law_new_market_starts_empty(params: RiskParams, slot: u64, price: u64, i: int)
    requires
        0 <= i < MAX_ACCOUNTS,
    ensures
        ({
            let e = RiskEngine::genesis(
                params,
                slot,
                price,
                [Account::empty_spec(); MAX_ACCOUNTS],
            );
            let a = e.accounts@[i];
            &&& e.params == params
            &&& e.market_mode == MarketMode::Live
            &&& e.current_slot == slot
            &&& e.last_market_slot == slot
            &&& e.last_oracle_price == price
            &&& e.fund_px_last == price
            &&& e.vault.0 == 0 && e.c_tot.0 == 0 && e.insurance_fund.balance.0 == 0
            &&& e.pnl_pos_tot == 0 && e.pnl_matured_pos_tot == 0
            &&& e.oi_eff_long_q == 0 && e.oi_eff_short_q == 0
            &&& e.adl_mult_long == 1_000_000_000_000_000
            &&& e.adl_mult_short == 1_000_000_000_000_000
            &&& e.num_used_accounts == 0
            &&& e.active_close_present == 0
            &&& a.capital.0 == 0 && a.pnl == 0 && a.position_basis_q == 0
            &&& a.fee_credits.0 == 0
        }),
{
}

} // verus!
