//! What an account must own for what it holds: when a position may be opened, kept, and
//! when capital may leave it.

use vstd::prelude::*;

use crate::constants::{MAX_ACCOUNTS, MAX_ORACLE_PRICE};
use crate::measures::{greater, lesser, size_of, worth_up};
use crate::types::{Account, LiquidationPolicy, MarketMode, RiskEngine, SideMode};

verus! {

/// Rounding up by adding one less than the divisor.
pub proof fn lemma_worth(q: int, price: int)
    requires
        0 <= price,
    ensures
        worth_up(q, price) == RiskEngine::risk_notional(q, price),
        0 <= worth_up(q, price),
        q == 0 ==> worth_up(q, price) == 0,
        q != 0 && 0 < price ==> 0 < worth_up(q, price),
{
    let p = size_of(q) * price;
    assert(0 <= p && (q != 0 && 0 < price ==> 0 < p) && (q == 0 ==> p == 0)) by (nonlinear_arith)
        requires
            p == size_of(q) * price,
            0 <= price,
    ;
    assert(size_of(q) == crate::wide_math::abs_int(q));
}

/// The effective position that the engine computes is what the account holds. It is
/// refused exactly where there is none to speak of: the slot does not exist, or the position
/// is of an epoch that is neither the present one nor the one before a pending reset, or its
/// attachment is broken.
pub proof fn law_effective_position_is_what_is_held(e: RiskEngine, i: int, require_used: bool)
    requires
        0 <= i,
    ensures
        ({
            let a = e.accounts@[i];
            let (epoch, mode) = if a.position_basis_q > 0 {
                (e.adl_epoch_long, e.side_mode_long)
            } else {
                (e.adl_epoch_short, e.side_mode_short)
            };
            let r = e.effective_pos_q_spec(i, require_used);
            &&& r is Ok ==> r->Ok_0 == e.held(i)
            &&& r is Ok <==> {
                &&& i < MAX_ACCOUNTS
                &&& require_used ==> i < e.params.max_accounts && e.slot_used(i)
                &&& a.position_basis_q != 0 ==> {
                    ||| a.adl_epoch_snap == epoch && a.adl_a_basis != 0 && size_of(e.held(i))
                        <= i128::MAX
                    ||| a.adl_epoch_snap + 1 == epoch && mode == SideMode::ResetPending
                }
            }
        }),
{
    reveal(RiskEngine::effective_pos_q_spec);
    let a = e.accounts@[i];
    let b = size_of(a.position_basis_q as int);
    let m = e.get_a_side(crate::sides::some_side(a.position_basis_q)) as int;
    assert(b * m >= 0) by (nonlinear_arith)
        requires
            b >= 0,
            m >= 0,
    ;
    if a.adl_a_basis != 0 {
        vstd::arithmetic::div_mod::lemma_div_pos_is_pos(b * m, a.adl_a_basis as int);
    }
}

/// An account is above maintenance exactly if it is healthy: it owns more than its holding,
/// long or short, needs to be kept.
pub proof fn law_above_maintenance_is_healthy(e: RiskEngine, i: int, price: u64)
    requires
        0 <= i,
        0 < price <= MAX_ORACLE_PRICE,
        e.effective_pos_q_spec(i, false) is Ok,
    ensures
        e.above_maintenance(e.accounts@[i], i, price) <==> e.is_healthy(i, price as int),
{
    reveal(RiskEngine::above_maintenance);
    reveal(RiskEngine::notional_spec);
    law_effective_position_is_what_is_held(e, i, false);
    lemma_worth(e.held(i), price as int);
    let w = worth_up(e.held(i), price as int);
    assert(w * e.params.maintenance_margin_bps >= 0) by (nonlinear_arith)
        requires
            w >= 0,
    ;
}

/// An equity meets the initial requirement of an account exactly if it is at least what the
/// holding of the account, long or short, needs to be opened. Without a holding it must not
/// be negative.
pub proof fn law_initial_requirement(e: RiskEngine, equity: i128, i: int, price: u64)
    requires
        0 <= i,
        0 < price <= MAX_ORACLE_PRICE,
        e.effective_pos_q_spec(i, false) is Ok,
    ensures
        e.meets_initial(equity, i, price) <==> if e.held(i) == 0 {
            0 <= equity
        } else {
            &&& worth_up(e.held(i), price as int) <= u128::MAX
            &&& lesser(e.need_to_open(e.held(i), price as int), i128::MAX as int) <= equity
        },
{
    reveal(RiskEngine::notional_spec);
    law_effective_position_is_what_is_held(e, i, false);
    lemma_worth(e.held(i), price as int);
}

/// What an account can open a position with leaves the gain of the trade out.
pub proof fn law_trade_equity_is_without_the_gain(e: RiskEngine, a: Account, gain: i128)
    requires
        a.profit() <= e.pnl_pos_tot,
        i128::MIN <= a.pnl - greater(gain as int, 0),
    ensures
        e.equity_trade_open(a, gain) == if i128::MIN <= e.can_open(a, gain as int) <= i128::MAX {
            e.can_open(a, gain as int)
        } else {
            i128::MIN + 1
        },
{
    reveal(RiskEngine::equity_trade_open);
    let profit = greater(a.profit() - greater(gain as int, 0), 0);
    let all = e.pnl_pos_tot - a.profit() + profit;
    if 0 < all <= e.backing() {
        assert(profit * all / all == profit) by (nonlinear_arith)
            requires
                0 < all,
        ;
    }
}

/// What an account can carry a withdrawal with counts ripe profit at its worth.
pub proof fn law_withdrawal_equity(e: RiskEngine, i: int)
    requires
        0 <= i < MAX_ACCOUNTS,
        e.market_mode == MarketMode::Live ==> e.accounts@[i].reserved_pnl
            <= e.accounts@[i].profit(),
    ensures
        e.equity_init(e.accounts@[i], i) == if i128::MIN <= e.can_carry(i) <= i128::MAX {
            e.can_carry(i)
        } else {
            i128::MIN + 1
        },
{
    let a = e.accounts@[i];
    let x = e.ripe(a);
    let h = e.haircut();
    if e.pnl_matured_pos_tot <= e.backing() {
        assert(x * h.1 / (h.1 as int) == x) by (nonlinear_arith)
            requires
                0 < h.1,
        ;
    }
    crate::equity::lemma_share_within(x, h.0 as int, h.1 as int);
}

/// The margin of one account of a trade, for a long and a short alike: with nothing left its
/// shortfall, fees aside, must be no worse than before; with a position that is new, larger
/// or on the other side it must be able to open what it holds, without the gain of the
/// trade; otherwise it must be healthy, or smaller with a larger buffer and a shortfall
/// that is no worse.
pub proof fn law_trade_margin_of_one_account(
    e: RiskEngine,
    i: int,
    price: u64,
    old: i128,
    new: i128,
    buffer: int,
    fee: u128,
    gain: i128,
)
    requires
        0 <= i < MAX_ACCOUNTS,
        0 < price <= MAX_ORACLE_PRICE,
        e.effective_pos_q_spec(i, false) is Ok,
        e.held(i) == new,
        worth_up(new as int, price as int) <= u128::MAX,
        e.accounts@[i].profit() <= e.pnl_pos_tot,
        i128::MIN <= e.accounts@[i].pnl - greater(gain as int, 0),
    ensures
        ({
            let a = e.accounts@[i];
            let after = lesser(a.owns() + fee, 0);
            let before = lesser(
                buffer + if old == 0 {
                    0
                } else {
                    e.need_to_keep(old as int, price as int)
                },
                0,
            );
            let grew = old == 0 || (old > 0 && new < 0) || (old < 0 && new > 0) || size_of(
                new as int,
            ) > size_of(old as int);
            let can_open = e.can_open(a, gain as int);
            e.one_side_margin_spec(i, price, old, new, buffer, fee, gain) is Ok <==> if new == 0 {
                before <= after < before + crate::wide_math::two_pow_255()
            } else if grew {
                lesser(e.need_to_open(new as int, price as int), i128::MAX as int) <= can_open
                    <= i128::MAX
            } else {
                ||| e.is_healthy(i, price as int)
                ||| {
                    &&& size_of(new as int) < size_of(old as int)
                    &&& buffer < a.owns() + fee - e.need_to_keep(new as int, price as int)
                    &&& before <= after
                }
            }
        }),
{
    reveal(RiskEngine::one_side_margin_spec);
    reveal(RiskEngine::notional_spec);
    let a = e.accounts@[i];
    law_effective_position_is_what_is_held(e, i, false);
    law_above_maintenance_is_healthy(e, i, price);
    law_trade_equity_is_without_the_gain(e, a, gain);
    law_initial_requirement(e, e.equity_trade_open(a, gain), i, price);
    lemma_worth(old as int, price as int);
    lemma_worth(new as int, price as int);
}

/// An amount may leave an account exactly if the account has it as capital and what is left
/// can still open what it holds, long or short. Nothing more is asked of an account that
/// holds nothing.
pub proof fn law_withdrawal_leaves_the_margin(e: RiskEngine, i: int, amount: u128, price: u64)
    requires
        0 <= i < MAX_ACCOUNTS,
        0 < price <= MAX_ORACLE_PRICE,
        e.effective_pos_q_spec(i, false) is Ok,
        worth_up(e.held(i), price as int) <= u128::MAX,
        e.accounts@[i].reserved_pnl <= e.accounts@[i].profit(),
    ensures
        e.withdrawal_check(i, amount, price) is Ok <==> {
            &&& amount <= e.accounts@[i].capital.0
            &&& e.held(i) != 0 ==> e.can_carry(i) <= i128::MAX && e.need_to_open(
                e.held(i),
                price as int,
            ) <= e.can_carry(i) - amount
        },
{
    reveal(RiskEngine::notional_spec);
    law_effective_position_is_what_is_held(e, i, false);
    law_withdrawal_equity(e, i);
    lemma_worth(e.held(i), price as int);
    let w = worth_up(e.held(i), price as int);
    assert(w * e.params.initial_margin_bps >= 0) by (nonlinear_arith)
        requires
            w >= 0,
    ;
}

/// Rounding up once more: the fee on a liquidated quantity is its share of the worth,
/// rounded up, within the bounds of the market.
pub proof fn law_liquidation_fee(e: RiskEngine, q: u128, price: u64)
    ensures
        e.liquidation_fee_spec(q, price) == lesser(
            greater(
                (q * price / 1_000_000 * e.params.liquidation_fee_bps + 9_999) / 10_000,
                e.params.min_liquidation_abs.0 as int,
            ),
            e.params.liquidation_fee_cap.0 as int,
        ),
{
}

/// A hint of a keeper is taken as it is given, or not at all. A full close is always taken.
/// A part is taken exactly if it is a proper part of the position and would heal the
/// account: what the account owns less the fee on the part, as far as the account can bear
/// it, is more than the rest needs to be kept.
pub proof fn law_hint_is_taken_as_given(
    e: RiskEngine,
    i: int,
    eff: i128,
    hint: Option<LiquidationPolicy>,
    price: u64,
)
    requires
        eff > i128::MIN,
    ensures
        ({
            let r = e.keeper_hint_spec(i, eff, hint, price);
            &&& r is Ok <==> e.validate_shape_spec(i) is Ok
            &&& r is Ok ==> match hint {
                None => r->Ok_0 is None,
                Some(LiquidationPolicy::FullClose) => r->Ok_0 == hint,
                Some(LiquidationPolicy::ExactPartial(q)) => {
                    let a = e.accounts@[i];
                    let fee = lesser(
                        greater(
                            (q * price / 1_000_000 * e.params.liquidation_fee_bps + 9_999)
                                / 10_000,
                            e.params.min_liquidation_abs.0 as int,
                        ),
                        e.params.liquidation_fee_cap.0 as int,
                    );
                    let borne = lesser(fee, a.capital.0 + (a.fee_credits.0 + i128::MAX));
                    let rest = size_of(eff as int) - q;
                    if 0 < q && 0 < rest && a.owns() - borne > e.need_to_keep(
                        rest,
                        price as int,
                    ) {
                        r->Ok_0 == hint
                    } else {
                        r->Ok_0 is None
                    }
                },
            }
        }),
{
    reveal(RiskEngine::keeper_hint_spec);
    if let Some(LiquidationPolicy::ExactPartial(q)) = hint {
        law_liquidation_fee(e, q, price);
        let rest = size_of(eff as int) - q;
        lemma_worth(rest, price as int);
        assert(q * price >= 0) by (nonlinear_arith);
        let n = q * price / 1_000_000;
        assert(n * e.params.liquidation_fee_bps >= 0) by (nonlinear_arith)
            requires
                n >= 0,
        ;
    }
}

} // verus!
