//! Closing an account at a fee rate of zero is closing it without fees.

use vstd::prelude::*;

use crate::books::lemma_ledger_of_account;
use crate::constants::MAX_ACCOUNTS;
use crate::types::{Account, MarketMode, ReserveMode, RiskEngine};

verus! {

impl RiskEngine {
    /// Whether `after` differs in nothing but the fee slot of account `i`.
    pub open spec fn same_but_fee_slot(self, after: RiskEngine, i: int) -> bool {
        &&& after == (RiskEngine { accounts: after.accounts, ..self })
        &&& forall|j: int|
            0 <= j < MAX_ACCOUNTS && j != i ==> #[trigger] after.accounts@[j] == self.accounts@[j]
        &&& after.accounts@[i] == (Account {
            last_fee_slot: after.accounts@[i].last_fee_slot,
            ..self.accounts@[i]
        })
    }

    /// Whether `after` differs in nothing but the fee slot of account `i`, and both fee
    /// slots are within bounds.
    pub open spec fn fee_slot_moved(self, after: RiskEngine, i: int) -> bool {
        &&& 0 <= i < MAX_ACCOUNTS
        &&& self.same_but_fee_slot(after, i)
        &&& self.accounts@[i].last_fee_slot <= self.fee_slot_anchor()
        &&& after.accounts@[i].last_fee_slot <= self.fee_slot_anchor()
    }
}

proof fn lemma_slots_agree(e: RiskEngine, s: RiskEngine, i: int, n: int)
    requires
        e.fee_slot_moved(s, i),
        e.slot_used(i),
        0 <= n <= MAX_ACCOUNTS,
    ensures
        s.slots_check(n) == e.slots_check(n),
        s.counts_below(n) == e.counts_below(n),
    decreases n,
{
    if n > 0 {
        lemma_slots_agree(e, s, i, n - 1);
        assert(s.slot_used(n - 1) == e.slot_used(n - 1));
        assert(s.notional_spec(n - 1, e.last_oracle_price, false) == e.notional_spec(
            n - 1,
            e.last_oracle_price,
            false,
        )) by {
            reveal(RiskEngine::notional_spec);
            reveal(RiskEngine::effective_pos_q_spec);
        }
    }
}

proof fn lemma_post_agrees(e: RiskEngine, s: RiskEngine, i: int)
    requires
        e.fee_slot_moved(s, i),
        e.slot_used(i),
    ensures
        s.public_post() == e.public_post(),
        s.validate_shape_spec(i) == e.validate_shape_spec(i),
        s.terminal_gate(i) == e.terminal_gate(i),
{
    reveal(RiskEngine::public_post);
    lemma_slots_agree(e, s, i, MAX_ACCOUNTS as int);
}

proof fn lemma_capital_agrees(e: RiskEngine, s: RiskEngine, i: int, v: u128)
    requires
        e.fee_slot_moved(s, i),
    ensures
        e.fee_slot_moved(s, i) && e.set_capital_spec(i, v).0.fee_slot_moved(
            s.set_capital_spec(i, v).0,
            i,
        ),
        s.set_capital_spec(i, v).1 == e.set_capital_spec(i, v).1,
{
    broadcast use lemma_ledger_of_account;

    reveal(RiskEngine::set_capital_spec);
}

proof fn lemma_account_agrees(e: RiskEngine, s: RiskEngine, i: int, a: Account, b: Account)
    requires
        e.fee_slot_moved(s, i),
        b == (Account { last_fee_slot: b.last_fee_slot, ..a }),
        a.last_fee_slot <= e.fee_slot_anchor(),
        b.last_fee_slot <= e.fee_slot_anchor(),
    ensures
        e.with_account(i, a).fee_slot_moved(s.with_account(i, b), i),
{
    broadcast use lemma_ledger_of_account;

}

proof fn lemma_pnl_agrees(e: RiskEngine, s: RiskEngine, i: int)
    requires
        e.fee_slot_moved(s, i),
        e.market_mode == MarketMode::Resolved,
    ensures
        ({
            let (x, _, r) = e.set_pnl_with_reserve_spec(
                i,
                0,
                ReserveMode::NoPositiveIncreaseAllowed,
                None,
            );
            let (y, _, t) = s.set_pnl_with_reserve_spec(
                i,
                0,
                ReserveMode::NoPositiveIncreaseAllowed,
                None,
            );
            &&& x.fee_slot_moved(y, i)
            &&& x.market_mode == e.market_mode
            &&& t == r
        }),
{
    broadcast use lemma_ledger_of_account;

    reveal(RiskEngine::set_pnl_with_reserve_spec);
}

proof fn lemma_payout_agrees(e: RiskEngine, s: RiskEngine, i: int)
    requires
        e.fee_slot_moved(s, i),
        e.market_mode == MarketMode::Resolved,
    ensures
        e.profit_paid(i).0.fee_slot_moved(s.profit_paid(i).0, i),
        s.profit_paid(i).1 == e.profit_paid(i).1,
{
    reveal(RiskEngine::profit_paid);
    let (x, y) = (e.with_payout_locked(), s.with_payout_locked());
    assert(x.fee_slot_moved(y, i));
    lemma_pnl_agrees(x, y, i);
    let mode = ReserveMode::NoPositiveIncreaseAllowed;
    let (x2, _, _) = x.set_pnl_with_reserve_spec(i, 0, mode, None);
    let (y2, _, _) = y.set_pnl_with_reserve_spec(i, 0, mode, None);
    if x.released_pos_spec(i, false) is Ok {
        let cap = x2.accounts@[i].capital.get() + x.payout_of(
            x.released_pos_spec(i, false)->Ok_0 as int,
        );
        lemma_capital_agrees(x2, y2, i, cap as u128);
    }
}

proof fn lemma_sweep_agrees(e: RiskEngine, s: RiskEngine, i: int)
    requires
        e.fee_slot_moved(s, i),
        e.slot_used(i),
    ensures
        e.fee_debt_sweep_spec(i).0.fee_slot_moved(s.fee_debt_sweep_spec(i).0, i),
        s.fee_debt_sweep_spec(i).1 == e.fee_debt_sweep_spec(i).1,
{
    broadcast use lemma_ledger_of_account;

    reveal(RiskEngine::fee_debt_sweep_spec);
    lemma_post_agrees(e, s, i);
    let a = e.accounts@[i];
    let pay = crate::wide_math::min_int(a.fee_debt(), a.capital.get() as int) as u128;
    lemma_capital_agrees(e, s, i, (a.capital.get() - pay) as u128);
}

/// Giving the slot back leaves nothing of the fee slot.
proof fn lemma_release_agrees(e: RiskEngine, s: RiskEngine, idx: u16)
    requires
        e.fee_slot_moved(s, idx as int),
        e.release_slot(idx).1 is Ok,
    ensures
        s.release_slot(idx) == e.release_slot(idx),
{
    broadcast use lemma_ledger_of_account;

    reveal(RiskEngine::release_slot);
    reveal(RiskEngine::free_slot_spec);
    let i = idx as int;
    let x = e.with_account(i, e.accounts@[i].cleared_spec(0));
    let y = s.with_account(i, s.accounts@[i].cleared_spec(0));
    assert(x == y) by {
        assert(x.accounts@ =~= y.accounts@);
        crate::context::lemma_array_of(x.accounts);
        crate::context::lemma_array_of(y.accounts);
    }
    assert(s.free_slot_spec(idx) == e.free_slot_spec(idx));
}

proof fn lemma_terminal_close_agrees(e: RiskEngine, s: RiskEngine, idx: u16)
    requires
        e.fee_slot_moved(s, idx as int),
        e.slot_used(idx as int),
        e.market_mode == MarketMode::Resolved,
        e.terminal_closed(idx).1 is Ok,
    ensures
        s.terminal_closed(idx) == e.terminal_closed(idx),
{
    broadcast use {
        lemma_ledger_of_account,
        crate::books::step_profit_paid,
        crate::books::step_fee_debt_sweep,
    };

    reveal(RiskEngine::terminal_released);
    let i = idx as int;
    let (x, y) = (e.with_reserve_released(i), s.with_reserve_released(i));
    lemma_account_agrees(
        e,
        s,
        i,
        e.accounts@[i].without_reserve(),
        s.accounts@[i].without_reserve(),
    );
    lemma_payout_agrees(x, y, i);
    let (x2, y2) = (x.profit_paid(i).0, y.profit_paid(i).0);
    lemma_sweep_agrees(x2, y2, i);
    let (x3, y3) = (x2.fee_debt_sweep_spec(i).0, y2.fee_debt_sweep_spec(i).0);
    let (x4, y4) = (x3.with_debt_forgiven(i), y3.with_debt_forgiven(i));
    assert(x4.fee_slot_moved(y4, i));
    let capital = x4.accounts@[i].capital.get();
    let x5 = RiskEngine { vault: crate::int128::U128((x4.vault.get() - capital) as u128), ..x4 };
    let y5 = RiskEngine { vault: crate::int128::U128((y4.vault.get() - capital) as u128), ..y4 };
    lemma_capital_agrees(x5, y5, i, 0);
    lemma_release_agrees(x5.set_capital_spec(i, 0).0, y5.set_capital_spec(i, 0).0, idx);
}

/// A forced close at a fee rate of zero is the forced close without fees: where the one
/// without fees succeeds, the other gives the same result and the same market, but for
/// the fee slot of an account that stays open.
pub proof fn law_zero_rate_close_is_free(e: RiskEngine, idx: u16)
    requires
        e.force_close_spec(idx, None).1 is Ok,
    ensures
        ({
            let (s, r) = e.force_close_spec(idx, None);
            let (t, q) = e.force_close_spec(idx, Some(0));
            &&& q == r
            &&& idx < MAX_ACCOUNTS
            &&& s.same_but_fee_slot(t, idx as int)
            &&& r->Ok_0 is Closed ==> t == s
        }),
{
    broadcast use {lemma_ledger_of_account, crate::books::step_reconcile};

    reveal(RiskEngine::force_close_spec);
    reveal(RiskEngine::sync_fee_spec);
    reveal(RiskEngine::close_terminal_spec);
    let i = idx as int;
    let d = e.reconcile_spec(i).0.with_ready_sides();
    crate::resolve::lemma_reconciled(e, i);
    if d.accounts@[i].position_basis_q == 0 {
        assert(d.public_post() is Ok);
        assert(d.slot_used(i)) by {
            reveal(RiskEngine::reconcile_spec);
        }
        assert(d.slot_check(i) is Ok) by {
            reveal(RiskEngine::public_post);
            crate::conservation::lemma_slots_ok(d, MAX_ACCOUNTS as int, i);
        }
        assert(d.market_mode == MarketMode::Resolved) by {
            reveal(RiskEngine::reconcile_spec);
        }
        assert(d.sync_fee_spec(i, d.resolved_slot, 0).1 is Ok);
        let t = d.sync_fee_spec(i, d.resolved_slot, 0).0;
        assert(d.fee_slot_moved(t, i));
        lemma_post_agrees(d, t, i);
        assert(e.force_close_spec(idx, Some(0)) == t.close_if_due(idx));
        if d.close_if_due(idx).1->Ok_0 is Closed {
            lemma_terminal_close_agrees(d, t, idx);
        }
    }
}

} // verus!
