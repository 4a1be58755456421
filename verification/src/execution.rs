//! Execution of a trade.

use vstd::prelude::*;

use crate::constants::{
    MAX_ACCOUNTS, MAX_ACCOUNT_NOTIONAL, MAX_OI_SIDE_Q, MAX_ORACLE_PRICE, MAX_POSITION_ABS_Q,
    MAX_PROTOCOL_FEE_ABS, MAX_TRADE_SIZE_Q, POS_SCALE,
};
use crate::context::InstructionContext;
use crate::equity::{margin_requirement, requirement_as_i256};
use crate::trade::compute_trade_pnl;
use crate::types::{ReserveMode, RiskEngine, RiskError};
use crate::wide_math::{abs_i128, mul_div_ceil_u128, mul_div_floor_u128, I256};

verus! {

/// One account of a trade: its effective position before and after, and its
/// maintenance buffer before.
pub struct TradeLeg {
    pub old_eff: i128,
    pub new_eff: i128,
    pub buffer: I256,
}

impl RiskEngine {
    /// Refuses two accounts of which one has not settled.
    pub open spec fn pair_settled(self, a: int, b: int) -> Result<(), RiskError> {
        match self.unsettled_live_spec(self.accounts@[a]) {
            Err(err) => Err(err),
            Ok(true) => Err(RiskError::Undercollateralized),
            Ok(false) => match self.unsettled_live_spec(self.accounts@[b]) {
                Err(err) => Err(err),
                Ok(true) => Err(RiskError::Undercollateralized),
                Ok(false) => Ok(()),
            },
        }
    }

    fn ensure_pair_settled(&self, a: usize, b: usize) -> (r: Result<(), RiskError>)
        requires
            a < MAX_ACCOUNTS,
            b < MAX_ACCOUNTS,
        ensures
            r == self.pair_settled(a as int, b as int),
    {
        if self.account_has_unsettled_live_effects(a)? {
            return Err(RiskError::Undercollateralized);
        }
        if self.account_has_unsettled_live_effects(b)? {
            return Err(RiskError::Undercollateralized);
        }
        Ok(())
    }

    /// Accrues the market, brings both accounts up to date in the order of their
    /// slots, and clears sides that hold only dust.
    #[verifier::opaque]
    pub open spec fn trade_prepared(
        self,
        a: int,
        b: int,
        ctx: InstructionContext,
        now_slot: u64,
        oracle_price: u64,
        funding_rate_e9: i128,
    ) -> (RiskEngine, InstructionContext, Result<(), RiskError>) {
        let first = crate::wide_math::min_int(a, b);
        let second = crate::wide_math::max_int(a, b);
        let (e, c, r) = self.accrue_and_touch_spec(
            first,
            ctx,
            now_slot,
            oracle_price,
            funding_rate_e9,
        );
        if r is Err {
            (e, c, r)
        } else {
            let (e2, c2, r2) = e.touch_spec(second, c);
            if r2 is Err {
                (e2, c2, r2)
            } else if e2.pair_settled(a, b) is Err {
                (e2, c2, e2.pair_settled(a, b))
            } else {
                let (e3, _, r3) = e2.end_resets_spec(InstructionContext::fresh(0, 0, None));
                (e3, c2, r3)
            }
        }
    }

    fn prepare_trade(
        &mut self,
        a: usize,
        b: usize,
        ctx: &mut InstructionContext,
        now_slot: u64,
        oracle_price: u64,
        funding_rate_e9: i128,
    ) -> (r: Result<(), RiskError>)
        requires
            a < MAX_ACCOUNTS,
            b < MAX_ACCOUNTS,
            old(ctx).wf(),
        ensures
            (*final(self), *final(ctx), r) == old(self).trade_prepared(
                a as int,
                b as int,
                *old(ctx),
                now_slot,
                oracle_price,
                funding_rate_e9,
            ),
            final(ctx).wf(),
    {
        reveal(RiskEngine::trade_prepared);
        let (first, second) = if a <= b {
            (a, b)
        } else {
            (b, a)
        };
        self.accrue_and_touch(first, ctx, now_slot, oracle_price, funding_rate_e9)?;
        self.touch_account_live_local(second, ctx)?;
        self.ensure_pair_settled(a, b)?;
        let mut reset_ctx = InstructionContext::new();
        self.run_end_of_instruction_resets(&mut reset_ctx)
    }

    /// Effective positions of two accounts, where both have a notional.
    pub open spec fn pair_positions(self, a: int, b: int, oracle_price: u64) -> Result<
        (i128, i128),
        RiskError,
    > {
        match self.effective_pos_q_spec(a, false) {
            Err(err) => Err(err),
            Ok(old_a) => match self.effective_pos_q_spec(b, false) {
                Err(err) => Err(err),
                Ok(old_b) => if old_a != 0 && self.notional_spec(a, oracle_price, false) is Err {
                    Err(self.notional_spec(a, oracle_price, false)->Err_0)
                } else if old_b != 0 && self.notional_spec(b, oracle_price, false) is Err {
                    Err(self.notional_spec(b, oracle_price, false)->Err_0)
                } else {
                    Ok((old_a, old_b))
                },
            },
        }
    }

    /// Effective positions of two accounts before a trade: `a` buys, `b` sells.
    pub open spec fn trade_positions(self, a: int, b: int, oracle_price: u64, size_q: i128)
        -> Result<(i128, i128), RiskError> {
        match self.pair_positions(a, b, oracle_price) {
            Err(err) => Err(err),
            Ok((old_a, old_b)) => if crate::wide_math::abs_int(old_a + size_q) > MAX_POSITION_ABS_Q
                || crate::wide_math::abs_int(old_b - size_q) > MAX_POSITION_ABS_Q {
                Err(RiskError::Overflow)
            } else {
                Ok((old_a, old_b))
            },
        }
    }

    /// Maintenance buffer of account `i` with an effective position.
    pub open spec fn buffer_of(self, i: int, eff: i128, oracle_price: u64) -> int {
        self.accounts@[i].equity_maint() - self.mm_of(eff, oracle_price)
    }

    fn maintenance_buffer(&self, idx: usize, eff: i128, oracle_price: u64) -> (r: Result<
        I256,
        RiskError,
    >)
        requires
            idx < MAX_ACCOUNTS,
            self.effective_pos_q_spec(idx as int, false) == Ok::<i128, RiskError>(eff),
        ensures
            eff != 0 && self.notional_spec(idx as int, oracle_price, false) is Err ==> r == Err::<
                I256,
                RiskError,
            >(self.notional_spec(idx as int, oracle_price, false)->Err_0),
            !(eff != 0 && self.notional_spec(idx as int, oracle_price, false) is Err) ==> r is Ok,
            r is Ok ==> r->Ok_0@ == self.buffer_of(idx as int, eff, oracle_price),
            r is Ok ==> -crate::wide_math::two_pow_255() / 2 <= r->Ok_0@
                <= crate::wide_math::two_pow_255() / 2,
    {
        let equity = self.account_equity_maint_raw_wide(&self.accounts[idx]);
        if eff == 0 {
            return Ok(equity);
        }
        let not: u128 = self.notional_checked(idx, oracle_price, false)?;
        proof {
            reveal(RiskEngine::notional_spec);
            crate::equity::lemma_margin_req_small(
                not as int,
                self.params.maintenance_margin_bps as int,
                self.params.min_nonzero_mm_req as int,
            );
        }
        let mm_req = margin_requirement(
            not,
            self.params.maintenance_margin_bps,
            self.params.min_nonzero_mm_req,
        );
        Ok(equity.checked_sub(requirement_as_i256(mm_req)).unwrap())
    }

    /// The legs of a trade, if positions stay in range.
    fn trade_legs(&self, a: usize, b: usize, oracle_price: u64, size_q: i128) -> (r: Result<
        (TradeLeg, TradeLeg),
        RiskError,
    >)
        requires
            a < MAX_ACCOUNTS,
            b < MAX_ACCOUNTS,
            0 < size_q <= MAX_TRADE_SIZE_Q,
            oracle_price <= MAX_ORACLE_PRICE,
        ensures
            match self.trade_positions(a as int, b as int, oracle_price, size_q) {
                Err(err) => r == Err::<(TradeLeg, TradeLeg), RiskError>(err),
                Ok((old_a, old_b)) => {
                    &&& r is Ok
                    &&& r->Ok_0.0.old_eff == old_a
                    &&& r->Ok_0.0.new_eff == old_a + size_q
                    &&& r->Ok_0.0.buffer@ == self.buffer_of(a as int, old_a, oracle_price)
                    &&& -crate::wide_math::two_pow_255() / 2 <= r->Ok_0.0.buffer@
                        <= crate::wide_math::two_pow_255() / 2
                    &&& r->Ok_0.1.old_eff == old_b
                    &&& r->Ok_0.1.new_eff == old_b - size_q
                    &&& r->Ok_0.1.buffer@ == self.buffer_of(b as int, old_b, oracle_price)
                    &&& -crate::wide_math::two_pow_255() / 2 <= r->Ok_0.1.buffer@
                        <= crate::wide_math::two_pow_255() / 2
                },
            },
    {
        let old_eff_a: i128 = self.effective_pos_q_checked(a, false)?;
        let old_eff_b: i128 = self.effective_pos_q_checked(b, false)?;
        let buffer_a = self.maintenance_buffer(a, old_eff_a, oracle_price)?;
        let buffer_b = self.maintenance_buffer(b, old_eff_b, oracle_price)?;
        let new_eff_a: i128 = old_eff_a.checked_add(size_q).ok_or(RiskError::Overflow)?;
        let new_eff_b: i128 = old_eff_b.checked_sub(size_q).ok_or(RiskError::Overflow)?;
        if abs_i128(new_eff_a) > MAX_POSITION_ABS_Q {
            return Err(RiskError::Overflow);
        }
        if abs_i128(new_eff_b) > MAX_POSITION_ABS_Q {
            return Err(RiskError::Overflow);
        }
        proof {
            lemma_risk_notional_bound(new_eff_a, oracle_price);
            lemma_risk_notional_bound(new_eff_b, oracle_price);
        }
        let notional_a: u128 = Self::risk_notional_from_eff_q(new_eff_a, oracle_price);
        if notional_a > MAX_ACCOUNT_NOTIONAL {
            return Err(RiskError::Overflow);
        }
        let notional_b: u128 = Self::risk_notional_from_eff_q(new_eff_b, oracle_price);
        if notional_b > MAX_ACCOUNT_NOTIONAL {
            return Err(RiskError::Overflow);
        }
        Ok(
            (
                TradeLeg { old_eff: old_eff_a, new_eff: new_eff_a, buffer: buffer_a },
                TradeLeg { old_eff: old_eff_b, new_eff: new_eff_b, buffer: buffer_b },
            ),
        )
    }

    /// Positions among two that are long.
    pub open spec fn longs(x: i128, y: i128) -> int {
        (if x > 0 {
            1int
        } else {
            0
        }) + (if y > 0 {
            1int
        } else {
            0
        })
    }

    /// Positions among two that are short.
    pub open spec fn shorts(x: i128, y: i128) -> int {
        (if x < 0 {
            1int
        } else {
            0
        }) + (if y < 0 {
            1int
        } else {
            0
        })
    }

    /// Refuses a trade that would leave a side with too many positions.
    pub open spec fn position_cap_check(self, old_a: i128, new_a: i128, old_b: i128, new_b: i128)
        -> Result<(), RiskError> {
        let long = self.stored_pos_count_long + RiskEngine::longs(new_a, new_b)
            - RiskEngine::longs(old_a, old_b);
        let short = self.stored_pos_count_short + RiskEngine::shorts(new_a, new_b)
            - RiskEngine::shorts(old_a, old_b);
        let cap = self.params.max_active_positions_per_side;
        if long < 0 || short < 0 {
            Err(RiskError::CorruptState)
        } else if long > cap || short > cap {
            Err(RiskError::Overflow)
        } else {
            Ok(())
        }
    }

    fn count_longs(x: i128, y: i128) -> (r: i128)
        ensures
            r == RiskEngine::longs(x, y),
    {
        (if x > 0 {
            1i128
        } else {
            0
        }) + (if y > 0 {
            1i128
        } else {
            0
        })
    }

    fn count_shorts(x: i128, y: i128) -> (r: i128)
        ensures
            r == RiskEngine::shorts(x, y),
    {
        (if x < 0 {
            1i128
        } else {
            0
        }) + (if y < 0 {
            1i128
        } else {
            0
        })
    }

    fn check_position_cap(&self, old_a: i128, new_a: i128, old_b: i128, new_b: i128) -> (r: Result<
        (),
        RiskError,
    >)
        ensures
            r == self.position_cap_check(old_a, new_a, old_b, new_b),
    {
        let final_long: i128 = self.stored_pos_count_long as i128 + Self::count_longs(new_a, new_b)
            - Self::count_longs(old_a, old_b);
        let final_short: i128 = self.stored_pos_count_short as i128 + Self::count_shorts(
            new_a,
            new_b,
        ) - Self::count_shorts(old_a, old_b);
        if final_long < 0 || final_short < 0 {
            return Err(RiskError::CorruptState);
        }
        let cap: i128 = self.params.max_active_positions_per_side as i128;
        if final_long > cap || final_short > cap {
            return Err(RiskError::Overflow);
        }
        Ok(())
    }

    /// Open interest of both sides after a trade, if the sides allow it.
    pub open spec fn trade_interest(self, old_a: i128, new_a: i128, old_b: i128, new_b: i128)
        -> Result<(u128, u128), RiskError> {
        match self.bilateral_oi_spec(old_a, new_a, old_b, new_b) {
            Err(err) => Err(err),
            Ok((long, short)) => if long > MAX_OI_SIDE_Q || short > MAX_OI_SIDE_Q {
                Err(RiskError::Overflow)
            } else if !self.side_gate_ok(old_a, new_a, old_b, new_b, long, short) {
                Err(RiskError::SideBlocked)
            } else {
                match self.position_cap_check(old_a, new_a, old_b, new_b) {
                    Err(err) => Err(err),
                    Ok(_) => Ok((long, short)),
                }
            },
        }
    }

    fn interest_after_trade(&self, old_a: i128, new_a: i128, old_b: i128, new_b: i128) -> (r:
        Result<(u128, u128), RiskError>)
        ensures
            r == self.trade_interest(old_a, new_a, old_b, new_b),
    {
        let (oi_long_after, oi_short_after) = self.bilateral_oi_after(
            &old_a,
            &new_a,
            &old_b,
            &new_b,
        )?;
        if oi_long_after > MAX_OI_SIDE_Q || oi_short_after > MAX_OI_SIDE_Q {
            return Err(RiskError::Overflow);
        }
        self.enforce_side_mode_oi_gate(
            old_a,
            new_a,
            old_b,
            new_b,
            oi_long_after,
            oi_short_after,
        )?;
        self.check_position_cap(old_a, new_a, old_b, new_b)?;
        Ok((oi_long_after, oi_short_after))
    }

    /// Adds a profit or loss to account `i`, under the admission of an instruction.
    pub open spec fn add_pnl(self, i: int, delta: i128, ctx: InstructionContext) -> (
        RiskEngine,
        InstructionContext,
        Result<(), RiskError>,
    ) {
        match RiskEngine::to_non_min_i128(self.accounts@[i].pnl + delta) {
            Err(err) => (self, ctx, Err(err)),
            Ok(pnl) => {
                let (e, c, r) = self.set_pnl_with_reserve_spec(
                    i,
                    pnl,
                    ReserveMode::UseAdmissionPair(ctx.admit_h_min_shared, ctx.admit_h_max_shared),
                    Some(ctx),
                );
                (e, c->0, r)
            },
        }
    }

    /// Adds a profit or loss to an account, under the admission of an instruction.
    pub fn add_account_pnl(&mut self, idx: usize, delta: i128, ctx: &mut InstructionContext) -> (r:
        Result<(), RiskError>)
        requires
            idx < MAX_ACCOUNTS,
            old(ctx).wf(),
        ensures
            (*final(self), *final(ctx), r) == old(self).add_pnl(idx as int, delta, *old(ctx)),
            final(ctx).wf(),
    {
        let pnl: i128 = self.accounts[idx].pnl.checked_add(delta).ok_or(RiskError::Overflow)?;
        if pnl == i128::MIN {
            return Err(RiskError::Overflow);
        }
        let mode = ReserveMode::UseAdmissionPair(ctx.admit_h_min_shared, ctx.admit_h_max_shared);
        self.set_pnl_with_reserve(idx, pnl, mode, Some(&mut *ctx))
    }

    /// Moves the profit of a trade between two accounts.
    pub open spec fn exchange_pnl(self, a: int, b: int, pnl_a: i128, ctx: InstructionContext) -> (
        RiskEngine,
        InstructionContext,
        Result<(), RiskError>,
    ) {
        let (e, c, r) = self.add_pnl(a, pnl_a, ctx);
        if r is Err {
            (e, c, r)
        } else {
            e.add_pnl(b, (-pnl_a) as i128, c)
        }
    }

    /// Attaches the positions of a trade and its open interest.
    pub open spec fn attach_pair(self, a: int, b: int, new_a: i128, new_b: i128, oi: (u128, u128))
        -> (RiskEngine, Result<(), RiskError>) {
        let (e, r) = self.attach_effective_position_inner_spec(a, new_a, true);
        if r is Err {
            (e, r)
        } else {
            let (e2, r2) = e.attach_effective_position_inner_spec(b, new_b, true);
            if r2 is Err {
                (e2, r2)
            } else {
                (RiskEngine { oi_eff_long_q: oi.0, oi_eff_short_q: oi.1, ..e2 }, Ok(()))
            }
        }
    }

    /// Pays the losses of two accounts out of their capital.
    pub open spec fn settle_pair(self, a: int, b: int, ctx: InstructionContext) -> (
        RiskEngine,
        InstructionContext,
        Result<(), RiskError>,
    ) {
        let (e, c, r) = self.settle_losses_spec(a, Some(ctx));
        if r is Err {
            (e, c->0, r)
        } else {
            let (e2, c2, r2) = e.settle_losses_spec(b, c);
            (e2, c2->0, r2)
        }
    }

    /// Carries a trade out on the books: profit, positions, losses.
    #[verifier::opaque]
    pub open spec fn trade_applied(
        self,
        a: int,
        b: int,
        new_a: i128,
        new_b: i128,
        oi: (u128, u128),
        pnl_a: i128,
        ctx: InstructionContext,
    ) -> (RiskEngine, InstructionContext, Result<(), RiskError>) {
        let (e, c, r) = self.exchange_pnl(a, b, pnl_a, ctx);
        if r is Err {
            (e, c, r)
        } else {
            let (e2, r2) = e.attach_pair(a, b, new_a, new_b, oi);
            if r2 is Err {
                (e2, c, r2)
            } else {
                e2.settle_pair(a, b, c)
            }
        }
    }

    fn apply_trade(
        &mut self,
        a: usize,
        b: usize,
        new_a: i128,
        new_b: i128,
        oi: (u128, u128),
        pnl_a: i128,
        ctx: &mut InstructionContext,
    ) -> (r: Result<(), RiskError>)
        requires
            a < MAX_ACCOUNTS,
            b < MAX_ACCOUNTS,
            pnl_a > i128::MIN,
            old(ctx).wf(),
        ensures
            (*final(self), *final(ctx), r) == old(self).trade_applied(
                a as int,
                b as int,
                new_a,
                new_b,
                oi,
                pnl_a,
                *old(ctx),
            ),
            final(ctx).wf(),
    {
        reveal(RiskEngine::trade_applied);
        self.add_account_pnl(a, pnl_a, ctx)?;
        self.add_account_pnl(b, -pnl_a, ctx)?;
        self.attach_effective_position_allow_spike(a, new_a)?;
        self.attach_effective_position_allow_spike(b, new_b)?;
        self.oi_eff_long_q = oi.0;
        self.oi_eff_short_q = oi.1;
        self.settle_losses_with_context(a, Some(&mut *ctx))?;
        self.settle_losses_with_context(b, Some(&mut *ctx))
    }

    /// Fee of a trade: the share of its notional, rounded up.
    pub open spec fn trade_fee(size_q: i128, exec_price: u64, fee_bps: u64) -> int {
        crate::wide_math::ceil_div(
            size_q * exec_price / (POS_SCALE as int) * fee_bps,
            10_000,
        )
    }

    /// Charges the fee of a trade to both accounts. Gives what each of them lost.
    pub open spec fn trade_charged(self, a: int, b: int, fee: u128) -> (RiskEngine, Result<
        (u128, u128),
        RiskError,
    >) {
        if fee == 0 {
            (self, Ok((0, 0)))
        } else {
            let (e, r) = self.charge_fee_spec(a, fee);
            match r {
                Err(err) => (e, Err(err)),
                Ok((_, impact_a, _)) => {
                    let (e2, r2) = e.charge_fee_spec(b, fee);
                    match r2 {
                        Err(err) => (e2, Err(err)),
                        Ok((_, impact_b, _)) => (e2, Ok((impact_a, impact_b))),
                    }
                },
            }
        }
    }

    fn charge_trade(
        &mut self,
        a: usize,
        b: usize,
        size_q: i128,
        exec_price: u64,
        fee_bps: u64,
    ) -> (r:
        Result<(u128, u128), RiskError>)
        requires
            0 < size_q <= MAX_TRADE_SIZE_Q,
            exec_price <= MAX_ORACLE_PRICE,
        ensures
            (*final(self), r) == old(self).trade_charged(
                a as int,
                b as int,
                RiskEngine::trade_fee(size_q, exec_price, fee_bps) as u128,
            ),
            0 <= RiskEngine::trade_fee(size_q, exec_price, fee_bps) <= MAX_PROTOCOL_FEE_ABS,
    {
        proof {
            lemma_fee_bound(size_q as int, exec_price as int, fee_bps as int);
        }
        let trade_notional: u128 = mul_div_floor_u128(
            abs_i128(size_q),
            exec_price as u128,
            POS_SCALE,
        );
        let fee: u128 = mul_div_ceil_u128(trade_notional, fee_bps as u128, 10_000);
        if fee == 0 {
            return Ok((0, 0));
        }
        let (_, impact_a, _) = self.charge_fee_to_insurance(a, fee)?;
        let (_, impact_b, _) = self.charge_fee_to_insurance(b, fee)?;
        Ok((impact_a, impact_b))
    }

    /// Refuses a trade that the margin of either account does not allow.
    pub open spec fn trade_margin_check(
        self,
        a: int,
        b: int,
        oracle_price: u64,
        olds: (i128, i128),
        size_q: i128,
        buffers: (int, int),
        fees: (u128, u128),
        pnl_a: i128,
    ) -> Result<(), RiskError> {
        match self.one_side_margin_spec(
            a,
            oracle_price,
            olds.0,
            (olds.0 + size_q) as i128,
            buffers.0,
            fees.0,
            pnl_a,
        ) {
            Err(err) => Err(err),
            Ok(_) => self.one_side_margin_spec(
                b,
                oracle_price,
                olds.1,
                (olds.1 - size_q) as i128,
                buffers.1,
                fees.1,
                (-pnl_a) as i128,
            ),
        }
    }

    /// The rest of a trade once the market and both accounts are up to date.
    #[verifier::opaque]
    pub open spec fn trade_prepared_rest(
        self,
        a: int,
        b: int,
        oracle_price: u64,
        size_q: i128,
        exec_price: u64,
        fee_bps: u64,
        ctx: InstructionContext,
    ) -> (RiskEngine, Result<(), RiskError>) {
        match self.trade_positions(a, b, oracle_price, size_q) {
            Err(err) => (self, Err(err)),
            Ok(olds) => {
                let new_a = (olds.0 + size_q) as i128;
                let new_b = (olds.1 - size_q) as i128;
                let ready = self.with_ready_sides();
                match ready.trade_interest(olds.0, new_a, olds.1, new_b) {
                    Err(err) => (ready, Err(err)),
                    Ok(oi) => match crate::trade::trade_pnl_spec(
                        size_q,
                        (oracle_price - exec_price) as i128,
                    ) {
                        Err(err) => (ready, Err(err)),
                        Ok(pnl_a) => {
                            let (e, c, r) = ready.trade_applied(
                                a,
                                b,
                                new_a,
                                new_b,
                                oi,
                                pnl_a,
                                ctx,
                            );
                            if r is Err {
                                (e, r)
                            } else {
                                let (e2, r2) = e.trade_charged(
                                    a,
                                    b,
                                    RiskEngine::trade_fee(size_q, exec_price, fee_bps) as u128,
                                );
                                match r2 {
                                    Err(err) => (e2, Err(err)),
                                    Ok(fees) => match e2.trade_margin_check(
                                        a,
                                        b,
                                        oracle_price,
                                        olds,
                                        size_q,
                                        (
                                            self.buffer_of(a, olds.0, oracle_price),
                                            self.buffer_of(b, olds.1, oracle_price),
                                        ),
                                        fees,
                                        pnl_a,
                                    ) {
                                        Err(err) => (e2, Err(err)),
                                        Ok(_) => e2.finish_spec(c),
                                    },
                                }
                            }
                        },
                    },
                }
            },
        }
    }

    fn run_prepared_trade(
        &mut self,
        a: usize,
        b: usize,
        oracle_price: u64,
        size_q: i128,
        exec_price: u64,
        fee_bps: u64,
        ctx: &mut InstructionContext,
    ) -> (r: Result<(), RiskError>)
        requires
            a < MAX_ACCOUNTS,
            b < MAX_ACCOUNTS,
            0 < size_q <= MAX_TRADE_SIZE_Q,
            exec_price <= MAX_ORACLE_PRICE,
            oracle_price <= MAX_ORACLE_PRICE,
            old(ctx).wf(),
        ensures
            (*final(self), r) == old(self).trade_prepared_rest(
                a as int,
                b as int,
                oracle_price,
                size_q,
                exec_price,
                fee_bps,
                *old(ctx),
            ),
            r is Ok ==> final(self).public_post() is Ok,
    {
        reveal(RiskEngine::trade_prepared_rest);
        let (leg_a, leg_b) = self.trade_legs(a, b, oracle_price, size_q)?;
        self.maybe_finalize_ready_reset_sides();
        let oi = self.interest_after_trade(
            leg_a.old_eff,
            leg_a.new_eff,
            leg_b.old_eff,
            leg_b.new_eff,
        )?;
        let trade_pnl_a: i128 = compute_trade_pnl(
            size_q,
            oracle_price as i128 - exec_price as i128,
        )?;
        self.apply_trade(a, b, leg_a.new_eff, leg_b.new_eff, oi, trade_pnl_a, ctx)?;
        let (fee_impact_a, fee_impact_b) = self.charge_trade(a, b, size_q, exec_price, fee_bps)?;
        proof {
            crate::trade::lemma_mm_of_small(*self, leg_a.old_eff, oracle_price);
            crate::trade::lemma_mm_of_small(*self, leg_b.old_eff, oracle_price);
        }
        self.enforce_post_trade_margin(
            a,
            b,
            oracle_price,
            &leg_a.old_eff,
            &leg_a.new_eff,
            &leg_b.old_eff,
            &leg_b.new_eff,
            leg_a.buffer,
            leg_b.buffer,
            fee_impact_a,
            fee_impact_b,
            trade_pnl_a,
            -trade_pnl_a,
        )?;
        self.finish_instruction(ctx)
    }

    /// Trades a quantity between two accounts: `a` buys it from `b`.
    #[verifier::opaque]
    pub open spec fn execute_trade_spec(
        self,
        a: u16,
        b: u16,
        oracle_price: u64,
        now_slot: u64,
        size_q: i128,
        exec_price: u64,
        funding_rate_e9: i128,
        trade_fee_bps: u64,
        h_min: u64,
        h_max: u64,
        threshold_opt: Option<u128>,
    ) -> (RiskEngine, Result<(), RiskError>) {
        let entry = self.trade_entry_spec(
            a,
            b,
            oracle_price,
            now_slot,
            size_q,
            exec_price,
            trade_fee_bps,
            h_min,
            h_max,
            threshold_opt,
        );
        if entry is Err {
            (self, entry)
        } else if self.validate_shape_spec(a as int) is Err {
            (self, self.validate_shape_spec(a as int))
        } else if self.validate_shape_spec(b as int) is Err {
            (self, self.validate_shape_spec(b as int))
        } else {
            let (e, c, r) = self.trade_prepared(
                a as int,
                b as int,
                RiskEngine::admission(h_min, h_max, threshold_opt),
                now_slot,
                oracle_price,
                funding_rate_e9,
            );
            if r is Err {
                (e, r)
            } else {
                e.trade_prepared_rest(
                    a as int,
                    b as int,
                    oracle_price,
                    size_q,
                    exec_price,
                    trade_fee_bps,
                    c,
                )
            }
        }
    }

    /// Trades a quantity between two accounts at a price: `a` buys it from `b`.
    ///
    /// Both accounts are brought up to date first. The difference of the price from
    /// the oracle's is profit of one and loss of the other, losses are paid before
    /// fees, and the margin of both accounts has to allow the outcome.
    pub fn execute_trade_not_atomic(
        &mut self,
        a: u16,
        b: u16,
        oracle_price: u64,
        now_slot: u64,
        size_q: i128,
        exec_price: u64,
        funding_rate_e9: i128,
        trade_fee_bps: u64,
        admit_h_min: u64,
        admit_h_max: u64,
        admit_h_max_consumption_threshold_bps_opt: Option<u128>,
    ) -> (r: Result<(), RiskError>)
        ensures
            (*final(self), r) == old(self).execute_trade_spec(
                a,
                b,
                oracle_price,
                now_slot,
                size_q,
                exec_price,
                funding_rate_e9,
                trade_fee_bps,
                admit_h_min,
                admit_h_max,
                admit_h_max_consumption_threshold_bps_opt,
            ),
            r is Ok ==> final(self).public_post() is Ok,
    {
        reveal(RiskEngine::execute_trade_spec);
        self.validate_execute_trade_entry(
            a,
            b,
            oracle_price,
            now_slot,
            size_q,
            exec_price,
            trade_fee_bps,
            admit_h_min,
            admit_h_max,
            admit_h_max_consumption_threshold_bps_opt,
        )?;
        proof {
            reveal(RiskEngine::trade_entry_spec);
        }
        self.validate_touched_account_shape(a as usize)?;
        self.validate_touched_account_shape(b as usize)?;
        let mut ctx = InstructionContext::new_with_admission_and_threshold(
            admit_h_min,
            admit_h_max,
            admit_h_max_consumption_threshold_bps_opt,
        );
        self.prepare_trade(
            a as usize,
            b as usize,
            &mut ctx,
            now_slot,
            oracle_price,
            funding_rate_e9,
        )?;
        self.run_prepared_trade(
            a as usize,
            b as usize,
            oracle_price,
            size_q,
            exec_price,
            trade_fee_bps,
            &mut ctx,
        )
    }
}

proof fn lemma_risk_notional_bound(eff: i128, oracle_price: u64)
    requires
        crate::wide_math::abs_int(eff as int) <= MAX_POSITION_ABS_Q,
        oracle_price <= MAX_ORACLE_PRICE,
    ensures
        0 <= RiskEngine::risk_notional(eff as int, oracle_price as int) <= MAX_ACCOUNT_NOTIONAL,
{
    let p = crate::wide_math::abs_int(eff as int) * oracle_price;
    assert(0 <= p <= MAX_POSITION_ABS_Q * MAX_ORACLE_PRICE) by (nonlinear_arith)
        requires
            p == crate::wide_math::abs_int(eff as int) * oracle_price,
            0 <= crate::wide_math::abs_int(eff as int) <= MAX_POSITION_ABS_Q,
            0 <= oracle_price <= MAX_ORACLE_PRICE,
    ;
}

proof fn lemma_fee_bound(size: int, price: int, bps: int)
    requires
        0 <= size <= MAX_TRADE_SIZE_Q,
        0 <= price <= MAX_ORACLE_PRICE,
        0 <= bps <= u64::MAX,
    ensures
        0 <= size * price / (POS_SCALE as int) <= MAX_ACCOUNT_NOTIONAL,
        0 <= crate::wide_math::ceil_div(size * price / (POS_SCALE as int) * bps, 10_000)
            <= MAX_PROTOCOL_FEE_ABS,
{
    assert(0 <= size * price <= MAX_TRADE_SIZE_Q * MAX_ORACLE_PRICE) by (nonlinear_arith)
        requires
            0 <= size <= MAX_TRADE_SIZE_Q,
            0 <= price <= MAX_ORACLE_PRICE,
    ;
    let n = size * price / (POS_SCALE as int);
    assert(0 <= n <= MAX_ACCOUNT_NOTIONAL);
    assert(0 <= n * bps <= MAX_ACCOUNT_NOTIONAL * u64::MAX) by (nonlinear_arith)
        requires
            0 <= n <= MAX_ACCOUNT_NOTIONAL,
            0 <= bps <= u64::MAX,
    ;
}

} // verus!
