//! The haircut on matured profit, the equity of an account, and its margin.

use vstd::prelude::*;

use crate::constants::{MAX_ACCOUNTS, MAX_ORACLE_PRICE, POS_SCALE};
use crate::sides::i128_clamp_pos;
use crate::types::{Account, MarketMode, RiskEngine, RiskError};
use crate::wide_math::{
    abs_i128, ceil_div_positive_checked, div_rem_u256, fee_debt_u128_checked, min_u128,
    wide_mul_div_floor_u128, widening_mul, I256, U256,
};

verus! {

/// A signed value, or the lowest one that stored state can hold if it does not fit.
pub open spec fn clamp_conservative(x: int) -> i128 {
    if i128::MIN <= x <= i128::MAX {
        x as i128
    } else {
        (i128::MIN + 1) as i128
    }
}

/// Requirement of a position: the proportional part, and at least the floor.
pub open spec fn margin_req(notional: int, bps: int, floor: int) -> int {
    crate::wide_math::max_int(notional * bps / 10_000, floor)
}

/// A requirement as a signed value.
pub open spec fn clamp_req(req: int) -> int {
    crate::wide_math::min_int(req, i128::MAX as int)
}

/// The negative part.
pub open spec fn neg_part(v: int) -> int {
    crate::wide_math::min_int(v, 0)
}

/// Computes a requirement exactly.
pub fn margin_requirement(notional: u128, bps: u64, floor: u128) -> (r: U256)
    ensures
        r@ == margin_req(notional as int, bps as int, floor as int),
{
    let (proportional, _) = div_rem_u256(
        widening_mul(notional, bps as u128),
        U256::from_u128(10_000),
    );
    let floor_wide = U256::from_u128(floor);
    if proportional.is_below(floor_wide) {
        floor_wide
    } else {
        proportional
    }
}

/// A requirement as a signed 128-bit integer.
pub fn requirement_as_i128(req: U256) -> (r: i128)
    ensures
        r == clamp_req(req@),
{
    match req.try_into_u128() {
        None => i128::MAX,
        Some(v) => if v > i128::MAX as u128 {
            i128::MAX
        } else {
            v as i128
        },
    }
}

/// A requirement as a wide signed integer.
pub fn requirement_as_i256(req: U256) -> (r: I256)
    requires
        req@ < crate::wide_math::two_pow_255(),
    ensures
        r@ == req@,
{
    I256 { hi: req.hi as i128, lo: req.lo }
}

/// A margin requirement leaves room in a wide integer.
pub proof fn lemma_margin_req_small(notional: int, bps: int, floor: int)
    requires
        0 <= notional <= u128::MAX,
        0 <= bps <= u64::MAX,
        0 <= floor <= u128::MAX,
    ensures
        0 <= margin_req(notional, bps, floor) < crate::wide_math::two_pow_255() / 4,
{
    assert(0 <= notional * bps <= u128::MAX * u64::MAX) by (nonlinear_arith)
        requires
            0 <= notional <= u128::MAX,
            0 <= bps <= u64::MAX,
    ;
}

fn to_i128_conservative(x: I256) -> (r: i128)
    ensures
        r == clamp_conservative(x@),
{
    match x.try_into_i128() {
        Some(v) => v,
        None => i128::MIN + 1,
    }
}

/// A share of an amount stays within the amount.
pub proof fn lemma_share_within(a: int, num: int, den: int)
    requires
        0 <= a,
        0 <= num <= den,
        0 < den,
    ensures
        0 <= a * num / den <= a,
{
    assert(0 <= a * num <= a * den) by (nonlinear_arith)
        requires
            0 <= a,
            0 <= num <= den,
    ;
    vstd::arithmetic::div_mod::lemma_div_is_ordered(a * num, a * den, den);
    vstd::arithmetic::div_mod::lemma_div_pos_is_pos(a * num, den);
    vstd::arithmetic::div_mod::lemma_div_multiples_vanish(a, den);
    assert(a * den == den * a) by (nonlinear_arith);
}

impl Account {
    /// Debt of unpaid fees.
    pub open spec fn fee_debt(self) -> int {
        crate::wide_math::max_int(-(self.fee_credits.get() as int), 0)
    }

    /// Equity with all of the profit: capital, profit, less fee debt.
    pub open spec fn equity_maint(self) -> int {
        self.capital.get() + self.pnl - self.fee_debt()
    }

    /// Equity with this much of positive profit in place of the account's own.
    pub open spec fn equity_with(self, pnl: int, effective_profit: int) -> int {
        self.capital.get() + neg_part(pnl) + effective_profit - self.fee_debt()
    }
}

impl RiskEngine {
    /// What is left of the vault after capital and insurance, zero if nothing is.
    pub open spec fn residual(self) -> int {
        crate::wide_math::max_int(
            self.vault.get() - (self.c_tot.get() + self.insurance_fund.balance.get()),
            0,
        )
    }

    /// Computes what is left of the vault after capital and insurance.
    pub fn residual_or_zero(&self) -> (r: u128)
        ensures
            r == self.residual(),
    {
        match self.c_tot.get().checked_add(self.insurance_fund.balance.get()) {
            Some(senior) => if self.vault.get() >= senior {
                self.vault.get() - senior
            } else {
                0
            },
            None => 0,
        }
    }

    /// The haircut on matured profit: the residual over all matured profit, at most
    /// one.
    pub open spec fn haircut(self) -> (u128, u128) {
        if self.pnl_matured_pos_tot == 0 {
            (1, 1)
        } else {
            (
                crate::wide_math::min_int(
                    self.residual(),
                    self.pnl_matured_pos_tot as int,
                ) as u128,
                self.pnl_matured_pos_tot,
            )
        }
    }

    /// The haircut on matured profit, as numerator and denominator.
    pub fn haircut_ratio(&self) -> (r: (u128, u128))
        ensures
            r == self.haircut(),
            r.0 <= r.1,
            r.1 > 0,
    {
        if self.pnl_matured_pos_tot == 0 {
            return (1, 1);
        }
        (min_u128(self.residual_or_zero(), self.pnl_matured_pos_tot), self.pnl_matured_pos_tot)
    }

    /// Profit of account `i` that is out of warmup.
    pub open spec fn released_pos_spec(self, i: int, require_used: bool) -> Result<
        u128,
        RiskError,
    > {
        let a = self.accounts@[i];
        if i >= MAX_ACCOUNTS || (require_used && !self.account_exists(i)) {
            Err(RiskError::AccountNotFound)
        } else if self.market_mode == MarketMode::Resolved {
            Ok(i128_clamp_pos(a.pnl))
        } else if a.reserved_pnl > i128_clamp_pos(a.pnl) {
            Err(RiskError::CorruptState)
        } else {
            Ok((i128_clamp_pos(a.pnl) - a.reserved_pnl) as u128)
        }
    }

    /// Computes the profit of an account that is out of warmup.
    pub fn released_pos_checked(&self, idx: usize, require_used: bool) -> (r: Result<
        u128,
        RiskError,
    >)
        ensures
            r == self.released_pos_spec(idx as int, require_used),
    {
        if idx >= MAX_ACCOUNTS {
            return Err(RiskError::AccountNotFound);
        }
        if require_used && idx as u64 >= self.params.max_accounts {
            return Err(RiskError::AccountNotFound);
        }
        if require_used && !self.is_used(idx) {
            return Err(RiskError::AccountNotFound);
        }
        let pos_pnl: u128 = i128_clamp_pos(self.accounts[idx].pnl);
        if self.market_mode == MarketMode::Resolved {
            return Ok(pos_pnl);
        }
        if self.accounts[idx].reserved_pnl > pos_pnl {
            return Err(RiskError::CorruptState);
        }
        Ok(pos_pnl - self.accounts[idx].reserved_pnl)
    }

    /// Computes the released profit of an account of the market.
    pub fn try_released_pos(&self, idx: usize) -> (r: Result<u128, RiskError>)
        ensures
            r == self.released_pos_spec(idx as int, true),
    {
        self.released_pos_checked(idx, true)
    }

    /// The released profit of a sound account.
    pub fn released_pos(&self, idx: usize) -> (r: u128)
        requires
            self.released_pos_spec(idx as int, false) is Ok,
        ensures
            self.released_pos_spec(idx as int, false) == Ok::<u128, RiskError>(r),
    {
        match self.released_pos_checked(idx, false) {
            Ok(v) => v,
            Err(_) => 0,
        }
    }

    /// What a released profit is worth after the haircut, rounded down.
    pub open spec fn haircut_of(self, released: int) -> int {
        released * self.haircut().0 / (self.haircut().1 as int)
    }

    /// Released profit of account `i` after the haircut.
    pub open spec fn effective_matured_pnl_spec(self, i: int, require_used: bool) -> Result<
        u128,
        RiskError,
    > {
        match self.released_pos_spec(i, require_used) {
            Err(e) => Err(e),
            Ok(released) => Ok(self.haircut_of(released as int) as u128),
        }
    }

    /// Computes the released profit of an account after the haircut.
    pub fn effective_matured_pnl_checked(&self, idx: usize, require_used: bool) -> (r: Result<
        u128,
        RiskError,
    >)
        ensures
            r == self.effective_matured_pnl_spec(idx as int, require_used),
            r is Ok ==> r->Ok_0 <= self.released_pos_spec(idx as int, require_used)->Ok_0,
    {
        let released: u128 = self.released_pos_checked(idx, require_used)?;
        let (h_num, h_den) = self.haircut_ratio();
        proof {
            lemma_share_within(released as int, h_num as int, h_den as int);
        }
        Ok(wide_mul_div_floor_u128(released, h_num, h_den))
    }

    /// Computes the released profit of an account of the market after the haircut.
    pub fn try_effective_matured_pnl(&self, idx: usize) -> (r: Result<u128, RiskError>)
        ensures
            r == self.effective_matured_pnl_spec(idx as int, true),
    {
        self.effective_matured_pnl_checked(idx, true)
    }

    /// The released profit of a sound account after the haircut.
    pub fn effective_matured_pnl(&self, idx: usize) -> (r: u128)
        requires
            self.effective_matured_pnl_spec(idx as int, false) is Ok,
        ensures
            self.effective_matured_pnl_spec(idx as int, false) == Ok::<u128, RiskError>(r),
    {
        match self.effective_matured_pnl_checked(idx, false) {
            Ok(v) => v,
            Err(_) => 0,
        }
    }

    /// Equity for maintenance. What does not fit counts as lowest.
    pub fn account_equity_maint_raw(&self, account: &Account) -> (r: i128)
        ensures
            r == clamp_conservative(account.equity_maint()),
    {
        to_i128_conservative(self.account_equity_maint_raw_wide(account))
    }

    /// Equity for maintenance, exactly.
    pub fn account_equity_maint_raw_wide(&self, account: &Account) -> (r: I256)
        ensures
            r@ == account.equity_maint(),
    {
        let cap = I256::from_u128(account.capital.get());
        let pnl = I256::from_i128(account.pnl);
        let fee_debt = I256::from_u128(fee_debt_u128_checked(account.fee_credits.get()));
        cap.checked_add(pnl).unwrap().checked_sub(fee_debt).unwrap()
    }

    /// Equity for maintenance, at least zero.
    pub open spec fn equity_net(self, account: Account) -> int {
        crate::wide_math::max_int(clamp_conservative(account.equity_maint()) as int, 0)
    }

    /// Equity for maintenance, at least zero.
    pub fn account_equity_net(&self, account: &Account, _oracle_price: u64) -> (r: i128)
        ensures
            r == self.equity_net(*account),
    {
        let raw: i128 = self.account_equity_maint_raw(account);
        if raw < 0 {
            0
        } else {
            raw
        }
    }

    /// Equity with the released profit of account `i` after the haircut.
    pub open spec fn equity_init(self, account: Account, i: int) -> i128 {
        match self.effective_matured_pnl_spec(i, false) {
            Err(_) => (i128::MIN + 1) as i128,
            Ok(eff) => clamp_conservative(account.equity_with(account.pnl as int, eff as int)),
        }
    }

    /// Equity for initial margin: only released profit counts, after the haircut.
    pub fn account_equity_init_raw(&self, account: &Account, idx: usize) -> (r: i128)
        ensures
            r == self.equity_init(*account, idx as int),
    {
        let eff_matured: u128 = match self.effective_matured_pnl_checked(idx, false) {
            Ok(v) => v,
            Err(_) => return i128::MIN + 1,
        };
        to_i128_conservative(Self::equity_from(account, account.pnl, eff_matured))
    }

    fn equity_from(account: &Account, pnl: i128, effective_profit: u128) -> (r: I256)
        ensures
            r@ == account.equity_with(pnl as int, effective_profit as int),
    {
        let cap = I256::from_u128(account.capital.get());
        let neg_pnl = I256::from_i128(
            if pnl < 0 {
                pnl
            } else {
                0
            },
        );
        let fee_debt = I256::from_u128(fee_debt_u128_checked(account.fee_credits.get()));
        cap.checked_add(neg_pnl).unwrap().checked_add(
            I256::from_u128(effective_profit),
        ).unwrap().checked_sub(fee_debt).unwrap()
    }

    /// Equity for initial margin, at least zero.
    pub fn account_equity_init_net(&self, account: &Account, idx: usize) -> (r: i128)
        ensures
            r == crate::wide_math::max_int(self.equity_init(*account, idx as int) as int, 0),
    {
        let raw: i128 = self.account_equity_init_raw(account, idx);
        if raw < 0 {
            0
        } else {
            raw
        }
    }

    /// Equity for withdrawals: only released profit counts, after the haircut.
    pub fn account_equity_withdraw_raw(&self, account: &Account, idx: usize) -> (r: i128)
        ensures
            r == self.equity_init(*account, idx as int),
    {
        self.account_equity_init_raw(account, idx)
    }

    /// How much released profit account `i` can convert under the haircut without
    /// its equity falling below zero.
    pub open spec fn max_safe_conversion(
        self,
        i: int,
        x_cap: u128,
        h_num: u128,
        h_den: u128,
    ) -> int {
        let equity = clamp_conservative(self.accounts@[i].equity_maint());
        if !self.account_exists(i) || equity <= 0 || h_den == 0 || h_num > h_den {
            0
        } else if h_num == h_den {
            x_cap as int
        } else {
            crate::wide_math::min_int(x_cap as int, equity * h_den / (h_den - h_num))
        }
    }

    /// How much released profit a flat account can convert under the haircut
    /// without its equity falling below zero.
    pub fn max_safe_flat_conversion_released(
        &self,
        idx: usize,
        x_cap: u128,
        h_num: u128,
        h_den: u128,
    ) -> (r: u128)
        ensures
            r == self.max_safe_conversion(idx as int, x_cap, h_num, h_den),
    {
        if idx >= MAX_ACCOUNTS || idx as u64 >= self.params.max_accounts || !self.is_used(idx) {
            return 0;
        }
        let e_before: i128 = self.account_equity_maint_raw(&self.accounts[idx]);
        if e_before <= 0 {
            return 0;
        }
        if h_den == 0 || h_num > h_den {
            return 0;
        }
        if h_num == h_den {
            return x_cap;
        }
        let haircut_loss_num: u128 = h_den - h_num;
        let (safe, _) = div_rem_u256(
            widening_mul(e_before as u128, h_den),
            U256::from_u128(haircut_loss_num),
        );
        match safe.try_into_u128() {
            Some(v) => min_u128(x_cap, v),
            None => x_cap,
        }
    }

    /// Risk notional of an effective position, rounded up.
    pub open spec fn risk_notional(eff: int, oracle_price: int) -> int {
        crate::wide_math::ceil_div(
            crate::wide_math::abs_int(eff) * oracle_price,
            POS_SCALE as int,
        )
    }

    /// The risk notional of an effective position, if it fits.
    pub fn risk_notional_checked(eff: i128, oracle_price: u64) -> (r: Option<u128>)
        ensures
            r is Some <==> RiskEngine::risk_notional(eff as int, oracle_price as int) <= u128::MAX,
            r is Some ==> r->0 == RiskEngine::risk_notional(eff as int, oracle_price as int),
    {
        ceil_div_positive_checked(
            widening_mul(abs_i128(eff), oracle_price as u128),
            U256::from_u128(POS_SCALE),
        ).try_into_u128()
    }

    /// The risk notional of an effective position.
    pub fn risk_notional_from_eff_q(eff: i128, oracle_price: u64) -> (r: u128)
        requires
            RiskEngine::risk_notional(eff as int, oracle_price as int) <= u128::MAX,
        ensures
            r == RiskEngine::risk_notional(eff as int, oracle_price as int),
    {
        Self::risk_notional_checked(eff, oracle_price).unwrap()
    }

    /// Risk notional of account `i`.
    #[verifier::opaque]
    pub open spec fn notional_spec(self, i: int, oracle_price: u64, require_used: bool) -> Result<
        u128,
        RiskError,
    > {
        if oracle_price == 0 || oracle_price > MAX_ORACLE_PRICE {
            Err(RiskError::Overflow)
        } else {
            match self.effective_pos_q_spec(i, require_used) {
                Err(e) => Err(e),
                Ok(eff) => if RiskEngine::risk_notional(eff as int, oracle_price as int)
                    > u128::MAX {
                    Err(RiskError::Overflow)
                } else {
                    Ok(RiskEngine::risk_notional(eff as int, oracle_price as int) as u128)
                },
            }
        }
    }

    /// Computes the risk notional of an account.
    pub fn notional_checked(&self, idx: usize, oracle_price: u64, require_used: bool) -> (r: Result<
        u128,
        RiskError,
    >)
        ensures
            r == self.notional_spec(idx as int, oracle_price, require_used),
    {
        reveal(RiskEngine::notional_spec);
        if oracle_price == 0 || oracle_price > MAX_ORACLE_PRICE {
            return Err(RiskError::Overflow);
        }
        let eff: i128 = self.effective_pos_q_checked(idx, require_used)?;
        Self::risk_notional_checked(eff, oracle_price).ok_or(RiskError::Overflow)
    }

    /// Computes the risk notional of an account of the market.
    pub fn try_notional(&self, idx: usize, oracle_price: u64) -> (r: Result<u128, RiskError>)
        ensures
            r == self.notional_spec(idx as int, oracle_price, true),
    {
        self.notional_checked(idx, oracle_price, true)
    }

    /// The risk notional of a sound account.
    pub fn notional(&self, idx: usize, oracle_price: u64) -> (r: u128)
        requires
            self.notional_spec(idx as int, oracle_price, false) is Ok,
        ensures
            self.notional_spec(idx as int, oracle_price, false) == Ok::<u128, RiskError>(r),
    {
        match self.notional_checked(idx, oracle_price, false) {
            Ok(v) => v,
            Err(_) => 0,
        }
    }

    /// Whether the maintenance equity of an account is above its requirement. An
    /// account without a position needs only positive equity.
    #[verifier::opaque]
    pub open spec fn above_maintenance(self, account: Account, i: int, oracle_price: u64) -> bool {
        match self.effective_pos_q_spec(i, false) {
            Err(_) => false,
            Ok(eff) => if eff == 0 {
                self.equity_net(account) > 0
            } else {
                match self.notional_spec(i, oracle_price, false) {
                    Err(_) => false,
                    Ok(notional) => self.equity_net(account) > clamp_req(
                        margin_req(
                            notional as int,
                            self.params.maintenance_margin_bps as int,
                            self.params.min_nonzero_mm_req as int,
                        ),
                    ),
                }
            },
        }
    }

    /// Decides whether an account is above its maintenance requirement.
    pub fn is_above_maintenance_margin(
        &self,
        account: &Account,
        idx: usize,
        oracle_price: u64,
    ) -> (r: bool)
        ensures
            r == self.above_maintenance(*account, idx as int, oracle_price),
    {
        reveal(RiskEngine::above_maintenance);
        let eq_net: i128 = self.account_equity_net(account, oracle_price);
        let eff: i128 = match self.effective_pos_q_checked(idx, false) {
            Ok(v) => v,
            Err(_) => return false,
        };
        if eff == 0 {
            return eq_net > 0;
        }
        let not: u128 = match self.notional_checked(idx, oracle_price, false) {
            Ok(v) => v,
            Err(_) => return false,
        };
        let mm_req = margin_requirement(
            not,
            self.params.maintenance_margin_bps,
            self.params.min_nonzero_mm_req,
        );
        eq_net > requirement_as_i128(mm_req)
    }

    /// Whether an equity meets the initial requirement of account `i`. An account
    /// without a position needs only nonnegative equity.
    pub open spec fn meets_initial(self, equity: i128, i: int, oracle_price: u64) -> bool {
        match self.effective_pos_q_spec(i, false) {
            Err(_) => false,
            Ok(eff) => if eff == 0 {
                equity >= 0
            } else {
                match self.notional_spec(i, oracle_price, false) {
                    Err(_) => false,
                    Ok(notional) => equity >= clamp_req(
                        margin_req(
                            notional as int,
                            self.params.initial_margin_bps as int,
                            self.params.min_nonzero_im_req as int,
                        ),
                    ),
                }
            },
        }
    }

    fn equity_meets_initial(&self, equity: i128, idx: usize, oracle_price: u64) -> (r: bool)
        ensures
            r == self.meets_initial(equity, idx as int, oracle_price),
    {
        let eff: i128 = match self.effective_pos_q_checked(idx, false) {
            Ok(v) => v,
            Err(_) => return false,
        };
        if eff == 0 {
            return equity >= 0;
        }
        let not: u128 = match self.notional_checked(idx, oracle_price, false) {
            Ok(v) => v,
            Err(_) => return false,
        };
        let im_req = margin_requirement(
            not,
            self.params.initial_margin_bps,
            self.params.min_nonzero_im_req,
        );
        equity >= requirement_as_i128(im_req)
    }

    /// Decides whether an account meets its initial requirement.
    pub fn is_above_initial_margin(&self, account: &Account, idx: usize, oracle_price: u64) -> (r:
        bool)
        ensures
            r == self.meets_initial(
                self.equity_init(*account, idx as int),
                idx as int,
                oracle_price,
            ),
    {
        let eq_init_raw: i128 = self.account_equity_init_raw(account, idx);
        self.equity_meets_initial(eq_init_raw, idx, oracle_price)
    }

    /// Profit of an account without the gain of the trade under approval.
    pub open spec fn pnl_without_gain(account: Account, trade_pnl: i128) -> int {
        clamp_conservative(account.pnl - i128_clamp_pos(trade_pnl)) as int
    }

    /// Equity for the approval of a trade: all positive profit counts after a
    /// haircut of its own, but not the gain of the trade itself.
    #[verifier::opaque]
    pub open spec fn equity_trade_open(self, account: Account, trade_pnl: i128) -> i128 {
        let gain = i128_clamp_pos(trade_pnl);
        let pos = i128_clamp_pos(account.pnl);
        let pos_open = crate::wide_math::max_int(pos - gain, 0);
        let tot_open = self.pnl_pos_tot - pos + pos_open;
        if self.pnl_pos_tot < pos || tot_open > u128::MAX {
            (i128::MIN + 1) as i128
        } else {
            let eff = if tot_open == 0 {
                pos_open
            } else {
                pos_open * crate::wide_math::min_int(self.residual(), tot_open) / tot_open
            };
            clamp_conservative(
                account.equity_with(RiskEngine::pnl_without_gain(account, trade_pnl), eff),
            )
        }
    }

    /// Equity for the approval of a trade, without the gain of the trade itself.
    pub fn account_equity_trade_open_raw(
        &self,
        account: &Account,
        _idx: usize,
        candidate_trade_pnl: i128,
    ) -> (r: i128)
        ensures
            r == self.equity_trade_open(*account, candidate_trade_pnl),
    {
        reveal(RiskEngine::equity_trade_open);
        let trade_gain: u128 = i128_clamp_pos(candidate_trade_pnl);
        let pos_pnl: u128 = i128_clamp_pos(account.pnl);
        let pos_open: u128 = if pos_pnl >= trade_gain {
            pos_pnl - trade_gain
        } else {
            0
        };
        let pnl_trade_open: i128 = match account.pnl.checked_sub(trade_gain as i128) {
            Some(v) => v,
            None => i128::MIN + 1,
        };
        let tot_open: u128 = match self.pnl_pos_tot.checked_sub(pos_pnl) {
            Some(v) => match v.checked_add(pos_open) {
                Some(v2) => v2,
                None => return i128::MIN + 1,
            },
            None => return i128::MIN + 1,
        };
        let eff: u128 = if tot_open == 0 {
            pos_open
        } else {
            let g_num: u128 = min_u128(self.residual_or_zero(), tot_open);
            proof {
                lemma_share_within(pos_open as int, g_num as int, tot_open as int);
            }
            wide_mul_div_floor_u128(pos_open, g_num, tot_open)
        };
        to_i128_conservative(Self::equity_from(account, pnl_trade_open, eff))
    }

    /// Equity for the approval of a trade of an account with no profit to count.
    pub fn account_equity_trade_open_no_pos_raw(
        &self,
        account: &Account,
        candidate_trade_pnl: i128,
    ) -> (r: i128)
        ensures
            r == clamp_conservative(
                account.equity_with(
                    RiskEngine::pnl_without_gain(*account, candidate_trade_pnl),
                    0,
                ),
            ),
    {
        let trade_gain: u128 = i128_clamp_pos(candidate_trade_pnl);
        let pnl_trade_open: i128 = match account.pnl.checked_sub(trade_gain as i128) {
            Some(v) => v,
            None => i128::MIN + 1,
        };
        to_i128_conservative(Self::equity_from(account, pnl_trade_open, 0))
    }

    /// Equity for withdrawals of an account with no profit to count.
    pub fn account_equity_withdraw_no_pos_raw(&self, account: &Account) -> (r: i128)
        ensures
            r == clamp_conservative(account.equity_with(account.pnl as int, 0)),
    {
        to_i128_conservative(Self::equity_from(account, account.pnl, 0))
    }

    /// Decides whether a trade leaves an account with its initial requirement.
    pub fn is_above_initial_margin_trade_open(
        &self,
        account: &Account,
        idx: usize,
        oracle_price: u64,
        candidate_trade_pnl: i128,
    ) -> (r: bool)
        ensures
            r == self.meets_initial(
                self.equity_trade_open(*account, candidate_trade_pnl),
                idx as int,
                oracle_price,
            ),
    {
        let eq: i128 = self.account_equity_trade_open_raw(account, idx, candidate_trade_pnl);
        self.equity_meets_initial(eq, idx, oracle_price)
    }

    /// As `is_above_initial_margin_trade_open`, with no profit to count.
    pub fn is_above_initial_margin_trade_open_no_pos(
        &self,
        account: &Account,
        idx: usize,
        oracle_price: u64,
        candidate_trade_pnl: i128,
    ) -> (r: bool)
        ensures
            r == self.meets_initial(
                clamp_conservative(
                    account.equity_with(
                        RiskEngine::pnl_without_gain(*account, candidate_trade_pnl),
                        0,
                    ),
                ),
                idx as int,
                oracle_price,
            ),
    {
        let eq: i128 = self.account_equity_trade_open_no_pos_raw(account, candidate_trade_pnl);
        self.equity_meets_initial(eq, idx, oracle_price)
    }

    /// Whether the vault covers capital and insurance, `V >= C_tot + I`.
    pub open spec fn conserves(self) -> bool {
        self.vault.get() >= self.c_tot.get() + self.insurance_fund.balance.get()
    }

    /// Decides whether the vault covers capital and insurance.
    pub fn check_conservation(&self) -> (r: bool)
        ensures
            r == self.conserves(),
    {
        match self.c_tot.get().checked_add(self.insurance_fund.balance.get()) {
            Some(s) => self.vault.get() >= s,
            None => false,
        }
    }
}

} // verus!
