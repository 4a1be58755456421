//! Changes of profit and of capital, each with the totals that it moves.

use vstd::prelude::*;

use crate::constants::{MAX_ACCOUNTS, MAX_ACCOUNT_POSITIVE_PNL, MAX_PNL_POS_TOT};
use crate::context::InstructionContext;
use crate::int128::U128;
use crate::sides::i128_clamp_pos;
use crate::types::{Account, MarketMode, ReserveMode, RiskEngine, RiskError};
use crate::wide_math::min_u128;

verus! {

impl RiskEngine {
    /// What is left of the vault after capital and insurance, `V - (C_tot + I)`.
    pub open spec fn residual_checked(self) -> Result<u128, RiskError> {
        if self.c_tot.get() + self.insurance_fund.balance.get() > u128::MAX {
            Err(RiskError::Overflow)
        } else if self.vault.get() < self.c_tot.get() + self.insurance_fund.balance.get() {
            Err(RiskError::CorruptState)
        } else {
            Ok(
                (self.vault.get() - (self.c_tot.get() + self.insurance_fund.balance.get())) as u128,
            )
        }
    }

    /// Computes what is left of the vault after capital and insurance.
    pub fn checked_residual(&self) -> (r: Result<u128, RiskError>)
        ensures
            r == self.residual_checked(),
    {
        let senior: u128 = self.c_tot.get().checked_add(self.insurance_fund.balance.get()).ok_or(
            RiskError::Overflow,
        )?;
        self.vault.get().checked_sub(senior).ok_or(RiskError::CorruptState)
    }

    /// Horizon of new profit: the short one if the residual covers it along with
    /// all matured profit, else the long one.
    pub open spec fn admission_residual_lane_spec(
        self,
        fresh_positive_pnl: u128,
        admit_h_min: u64,
        admit_h_max: u64,
    ) -> Result<u64, RiskError> {
        match self.residual_checked() {
            Err(e) => Err(e),
            Ok(residual) => if self.pnl_matured_pos_tot + fresh_positive_pnl > u128::MAX {
                Err(RiskError::Overflow)
            } else if self.pnl_matured_pos_tot + fresh_positive_pnl <= residual {
                Ok(admit_h_min)
            } else {
                Ok(admit_h_max)
            },
        }
    }

    /// Picks the horizon of new profit by what the residual covers.
    pub fn admission_residual_lane(
        &self,
        fresh_positive_pnl: u128,
        admit_h_min: u64,
        admit_h_max: u64,
    ) -> (r: Result<u64, RiskError>)
        ensures
            r == self.admission_residual_lane_spec(fresh_positive_pnl, admit_h_min, admit_h_max),
    {
        let residual: u128 = self.checked_residual()?;
        let matured_plus_fresh: u128 = self.pnl_matured_pos_tot.checked_add(
            fresh_positive_pnl,
        ).ok_or(RiskError::Overflow)?;
        Ok(
            if matured_plus_fresh <= residual {
                admit_h_min
            } else {
                admit_h_max
            },
        )
    }

    /// Whether consumed price movement has reached the instruction's threshold.
    pub open spec fn consumption_gate(self, ctx: InstructionContext) -> bool {
        match ctx.admit_h_max_consumption_threshold_bps_opt_shared {
            Some(threshold) => self.price_move_consumed_bps_this_generation >= threshold,
            None => false,
        }
    }

    /// Horizon of new profit of account `i`. Once an account got the long horizon
    /// it keeps it for the whole instruction.
    #[verifier::opaque]
    pub open spec fn admit_fresh_reserve_h_lock_spec(
        self,
        i: int,
        fresh_positive_pnl: u128,
        ctx: InstructionContext,
        admit_h_min: u64,
        admit_h_max: u64,
    ) -> (InstructionContext, Result<u64, RiskError>) {
        if ctx.sticky(i) {
            (ctx, Ok(admit_h_max))
        } else {
            let picked = if self.consumption_gate(ctx) {
                Ok(admit_h_max)
            } else {
                self.admission_residual_lane_spec(fresh_positive_pnl, admit_h_min, admit_h_max)
            };
            match picked {
                Err(e) => (ctx, Err(e)),
                Ok(h) => if h == admit_h_max {
                    (ctx.with_sticky(i), Ok(h))
                } else {
                    (ctx, Ok(h))
                },
            }
        }
    }

    /// Picks the horizon of new profit of an account.
    pub fn admit_fresh_reserve_h_lock(
        &self,
        idx: usize,
        fresh_positive_pnl: u128,
        ctx: &mut InstructionContext,
        admit_h_min: u64,
        admit_h_max: u64,
    ) -> (r: Result<u64, RiskError>)
        requires
            idx < MAX_ACCOUNTS,
            old(ctx).wf(),
        ensures
            (*final(ctx), r) == self.admit_fresh_reserve_h_lock_spec(
                idx as int,
                fresh_positive_pnl,
                *old(ctx),
                admit_h_min,
                admit_h_max,
            ),
            final(ctx).wf(),
    {
        reveal(RiskEngine::admit_fresh_reserve_h_lock_spec);
        if ctx.is_h_max_sticky(idx as u16) {
            return Ok(admit_h_max);
        }
        let gated: bool = match ctx.admit_h_max_consumption_threshold_bps_opt_shared {
            Some(threshold) => self.price_move_consumed_bps_this_generation >= threshold,
            None => false,
        };
        let admitted_h_eff: u64 = if gated {
            admit_h_max
        } else {
            self.admission_residual_lane(fresh_positive_pnl, admit_h_min, admit_h_max)?
        };
        if admitted_h_eff == admit_h_max {
            if !ctx.mark_h_max_sticky(idx as u16) {
                return Err(RiskError::Overflow);
            }
        }
        Ok(admitted_h_eff)
    }

    /// Releases the whole reserve of account `i` at once if the instruction allows a
    /// zero horizon and the residual covers it along with all matured profit.
    #[verifier::opaque]
    pub open spec fn admit_outstanding_reserve_on_touch_spec(self, i: int, ctx: InstructionContext)
        -> (RiskEngine, Result<(), RiskError>) {
        let a = self.accounts@[i];
        if self.market_mode != MarketMode::Live {
            (self, Ok(()))
        } else if !a.reserve_ok(self.params) {
            (self, Err(RiskError::CorruptState))
        } else if a.reserved_pnl == 0 || ctx.admit_h_min_shared != 0 || self.consumption_gate(
            ctx,
        ) {
            (self, Ok(()))
        } else {
            match self.residual_checked() {
                Err(e) => (self, Err(e)),
                Ok(residual) => {
                    let new_matured = self.pnl_matured_pos_tot + a.reserved_pnl;
                    if new_matured > u128::MAX {
                        (self, Err(RiskError::Overflow))
                    } else if new_matured > residual {
                        (self, Ok(()))
                    } else if new_matured > self.pnl_pos_tot {
                        (self, Err(RiskError::CorruptState))
                    } else {
                        (
                            RiskEngine {
                                pnl_matured_pos_tot: new_matured as u128,
                                ..self.with_account(i, a.without_reserve())
                            },
                            Ok(()),
                        )
                    }
                },
            }
        }
    }

    /// Releases the whole reserve of an account at once where that is allowed and
    /// covered.
    pub fn admit_outstanding_reserve_on_touch(
        &mut self,
        idx: usize,
        ctx: &InstructionContext,
    ) -> (r:
        Result<(), RiskError>)
        requires
            idx < MAX_ACCOUNTS,
        ensures
            (*final(self), r) == old(self).admit_outstanding_reserve_on_touch_spec(
                idx as int,
                *ctx,
            ),
    {
        reveal(RiskEngine::admit_outstanding_reserve_on_touch_spec);
        if self.market_mode != MarketMode::Live {
            return Ok(());
        }
        self.validate_reserve_shape(idx)?;
        let mut a = self.accounts[idx];
        let reserve_total: u128 = a.sched_amount().checked_add(a.pending_amount()).ok_or(
            RiskError::CorruptState,
        )?;
        if reserve_total == 0 {
            return Ok(());
        }
        if ctx.admit_h_min_shared != 0 {
            return Ok(());
        }
        if let Some(threshold) = ctx.admit_h_max_consumption_threshold_bps_opt_shared {
            if self.price_move_consumed_bps_this_generation >= threshold {
                return Ok(());
            }
        }
        let residual: u128 = self.checked_residual()?;
        let new_matured: u128 = self.pnl_matured_pos_tot.checked_add(reserve_total).ok_or(
            RiskError::Overflow,
        )?;
        if new_matured > residual {
            return Ok(());
        }
        if new_matured > self.pnl_pos_tot {
            return Err(RiskError::CorruptState);
        }
        self.pnl_matured_pos_tot = new_matured;
        a.clear_reserve();
        self.accounts[idx] = a;
        Ok(())
    }

    /// The last checks of a change of profit: matured profit within all positive
    /// profit, the reserve within the account's.
    pub open spec fn pnl_invariant_pair(self, i: int) -> Result<(), RiskError> {
        if self.pnl_matured_pos_tot > self.pnl_pos_tot || self.accounts@[i].reserved_pnl
            > i128_clamp_pos(self.accounts@[i].pnl) {
            Err(RiskError::CorruptState)
        } else {
            Ok(())
        }
    }

    fn check_pnl_invariant_pair(&self, idx: usize) -> (r: Result<(), RiskError>)
        requires
            idx < MAX_ACCOUNTS,
        ensures
            r == self.pnl_invariant_pair(idx as int),
    {
        if self.pnl_matured_pos_tot > self.pnl_pos_tot {
            return Err(RiskError::CorruptState);
        }
        if self.accounts[idx].reserved_pnl > i128_clamp_pos(self.accounts[idx].pnl) {
            return Err(RiskError::CorruptState);
        }
        Ok(())
    }

    /// The number of accounts with a negative profit after one account goes from
    /// `before` to `after`.
    pub open spec fn neg_count_after(self, before: i128, after: i128) -> Option<u64> {
        if before < 0 && after >= 0 {
            self.neg_pnl_account_count.checked_sub(1)
        } else if before >= 0 && after < 0 {
            self.neg_pnl_account_count.checked_add(1)
        } else {
            Some(self.neg_pnl_account_count)
        }
    }

    fn next_neg_count(&self, before: i128, after: i128) -> (r: Option<u64>)
        ensures
            r == self.neg_count_after(before, after),
    {
        if before < 0 && after >= 0 {
            self.neg_pnl_account_count.checked_sub(1)
        } else if before >= 0 && after < 0 {
            self.neg_pnl_account_count.checked_add(1)
        } else {
            Some(self.neg_pnl_account_count)
        }
    }

    /// What has to hold before the profit of account `i` changes to `new_pnl`.
    pub open spec fn set_pnl_precheck(self, i: int, new_pnl: i128, mode: ReserveMode) -> Result<
        (),
        RiskError,
    > {
        let a = self.accounts@[i];
        let old_pos = i128_clamp_pos(a.pnl);
        let new_pos = i128_clamp_pos(new_pnl);
        let live = self.market_mode == MarketMode::Live;
        if new_pnl == i128::MIN {
            Err(RiskError::Overflow)
        } else if a.reserved_pnl > old_pos || (!live && a.reserved_pnl != 0) {
            Err(RiskError::CorruptState)
        } else if new_pos > old_pos && mode is NoPositiveIncreaseAllowed {
            Err(RiskError::Overflow)
        } else if new_pos > old_pos && (mode is ImmediateReleaseResolvedOnly) == live {
            Err(RiskError::Unauthorized)
        } else if live && new_pos > MAX_ACCOUNT_POSITIVE_PNL {
            Err(RiskError::Overflow)
        } else if new_pos > old_pos && (self.pnl_pos_tot + (new_pos - old_pos) > u128::MAX || (live
            && self.pnl_pos_tot + (new_pos - old_pos) > MAX_PNL_POS_TOT)) {
            Err(RiskError::Overflow)
        } else if new_pos < old_pos && self.pnl_pos_tot < old_pos - new_pos {
            Err(RiskError::Overflow)
        } else {
            Ok(())
        }
    }

    fn check_set_pnl(&self, idx: usize, new_pnl: i128, reserve_mode: ReserveMode) -> (r: Result<
        (),
        RiskError,
    >)
        requires
            idx < MAX_ACCOUNTS,
        ensures
            r == self.set_pnl_precheck(idx as int, new_pnl, reserve_mode),
    {
        if new_pnl == i128::MIN {
            return Err(RiskError::Overflow);
        }
        let old_pos: u128 = i128_clamp_pos(self.accounts[idx].pnl);
        if self.accounts[idx].reserved_pnl > old_pos {
            return Err(RiskError::CorruptState);
        }
        if self.market_mode != MarketMode::Live && self.accounts[idx].reserved_pnl != 0 {
            return Err(RiskError::CorruptState);
        }
        let new_pos: u128 = i128_clamp_pos(new_pnl);
        if new_pos > old_pos {
            match reserve_mode {
                ReserveMode::NoPositiveIncreaseAllowed => {
                    return Err(RiskError::Overflow);
                },
                ReserveMode::ImmediateReleaseResolvedOnly => {
                    if self.market_mode == MarketMode::Live {
                        return Err(RiskError::Unauthorized);
                    }
                },
                ReserveMode::UseAdmissionPair(_, _) => {
                    if self.market_mode != MarketMode::Live {
                        return Err(RiskError::Unauthorized);
                    }
                },
            }
        }
        if self.market_mode == MarketMode::Live && new_pos > MAX_ACCOUNT_POSITIVE_PNL {
            return Err(RiskError::Overflow);
        }
        if new_pos > old_pos {
            let new_tot: u128 = self.pnl_pos_tot.checked_add(new_pos - old_pos).ok_or(
                RiskError::Overflow,
            )?;
            if self.market_mode == MarketMode::Live && new_tot > MAX_PNL_POS_TOT {
                return Err(RiskError::Overflow);
            }
        } else if self.pnl_pos_tot < old_pos - new_pos {
            return Err(RiskError::Overflow);
        }
        Ok(())
    }

    /// The end of an increase of positive profit, once the totals of positive and
    /// negative profit have moved: it is reserved, or matured at once.
    pub open spec fn route_increase(
        self,
        i: int,
        add: u128,
        mode: ReserveMode,
        ctx: Option<InstructionContext>,
    ) -> (RiskEngine, Option<InstructionContext>, Result<(), RiskError>) {
        match mode {
            ReserveMode::NoPositiveIncreaseAllowed => (self, ctx, Err(RiskError::Overflow)),
            ReserveMode::ImmediateReleaseResolvedOnly => {
                let (s, r) = self.mature_at_once(i, add);
                (s, ctx, r)
            },
            ReserveMode::UseAdmissionPair(h_min, h_max) => match ctx {
                None => (self, ctx, Err(RiskError::CorruptState)),
                Some(c) => {
                    let (c1, h) = self.admit_fresh_reserve_h_lock_spec(i, add, c, h_min, h_max);
                    match h {
                        Err(e) => (self, Some(c1), Err(e)),
                        Ok(h_eff) => if h_eff == 0 {
                            let (s, r) = self.mature_at_once(i, add);
                            (s, Some(c1), r)
                        } else {
                            let (s, r) = self.append_or_route_new_reserve_spec(
                                i,
                                add,
                                self.current_slot,
                                h_eff,
                            );
                            if r is Err {
                                (s, Some(c1), r)
                            } else {
                                (s, Some(c1), s.pnl_invariant_pair(i))
                            }
                        },
                    }
                },
            },
        }
    }

    /// The engine with `add` more of matured profit.
    pub open spec fn mature_at_once(self, i: int, add: u128) -> (RiskEngine, Result<
        (),
        RiskError,
    >) {
        if self.pnl_matured_pos_tot + add > u128::MAX {
            (self, Err(RiskError::Overflow))
        } else {
            let s = RiskEngine {
                pnl_matured_pos_tot: (self.pnl_matured_pos_tot + add) as u128,
                ..self
            };
            (s, s.pnl_invariant_pair(i))
        }
    }

    fn route_positive_increase(
        &mut self,
        idx: usize,
        reserve_add: u128,
        reserve_mode: ReserveMode,
        ctx: Option<&mut InstructionContext>,
    ) -> (r: Result<(), RiskError>)
        requires
            idx < MAX_ACCOUNTS,
            ctx matches Some(c) ==> c.wf(),
        ensures
            match ctx {
                Some(c) => (*final(self), Some(*final(c)), r) == old(self).route_increase(
                    idx as int,
                    reserve_add,
                    reserve_mode,
                    Some(*c),
                ) && final(c).wf(),
                None => (*final(self), None::<InstructionContext>, r) == old(self).route_increase(
                    idx as int,
                    reserve_add,
                    reserve_mode,
                    None,
                ),
            },
    {
        match reserve_mode {
            ReserveMode::NoPositiveIncreaseAllowed => {
                return Err(RiskError::Overflow);
            },
            ReserveMode::ImmediateReleaseResolvedOnly => {
                self.pnl_matured_pos_tot = self.pnl_matured_pos_tot.checked_add(reserve_add).ok_or(
                    RiskError::Overflow,
                )?;
            },
            ReserveMode::UseAdmissionPair(admit_h_min, admit_h_max) => {
                match ctx {
                    None => {
                        return Err(RiskError::CorruptState);
                    },
                    Some(c) => {
                        let admitted_h_eff: u64 = self.admit_fresh_reserve_h_lock(
                            idx,
                            reserve_add,
                            c,
                            admit_h_min,
                            admit_h_max,
                        )?;
                        if admitted_h_eff == 0 {
                            self.pnl_matured_pos_tot = self.pnl_matured_pos_tot.checked_add(
                                reserve_add,
                            ).ok_or(RiskError::Overflow)?;
                        } else {
                            self.append_or_route_new_reserve(
                                idx,
                                reserve_add,
                                self.current_slot,
                                admitted_h_eff,
                            )?;
                        }
                    },
                }
            },
        }
        self.check_pnl_invariant_pair(idx)
    }

    /// The end of a change that does not increase positive profit, once the total
    /// of positive profit has moved: the loss falls on the reserve first, then on
    /// matured profit.
    pub open spec fn take_decrease(self, i: int, new_pnl: i128, loss: u128) -> (RiskEngine, Result<
        (),
        RiskError,
    >) {
        let live = self.market_mode == MarketMode::Live;
        let a = self.accounts@[i];
        let reserve_loss = if live {
            crate::wide_math::min_int(loss as int, a.reserved_pnl as int) as u128
        } else {
            0u128
        };
        let (s1, r1) = if reserve_loss > 0 {
            self.apply_reserve_loss_newest_first_spec(i, reserve_loss)
        } else {
            (self, Ok(()))
        };
        if r1 is Err {
            (s1, r1)
        } else if s1.pnl_matured_pos_tot < loss - reserve_loss {
            (s1, Err(RiskError::CorruptState))
        } else {
            let s2 = RiskEngine {
                pnl_matured_pos_tot: (s1.pnl_matured_pos_tot - (loss - reserve_loss)) as u128,
                ..s1
            };
            match s2.neg_count_after(a.pnl, new_pnl) {
                None => (s2, Err(RiskError::CorruptState)),
                Some(n) => {
                    let s3 = RiskEngine {
                        neg_pnl_account_count: n,
                        ..s2.with_account(i, Account { pnl: new_pnl, ..s2.accounts@[i] })
                    };
                    let b = s3.accounts@[i];
                    if live && new_pnl <= 0 && (b.reserved_pnl != 0 || b.sched_present != 0
                        || b.pending_present != 0) {
                        (s3, Err(RiskError::CorruptState))
                    } else {
                        (s3, s3.pnl_invariant_pair(i))
                    }
                },
            }
        }
    }

    fn take_pnl_decrease(&mut self, idx: usize, new_pnl: i128, pos_loss: u128) -> (r: Result<
        (),
        RiskError,
    >)
        requires
            idx < MAX_ACCOUNTS,
        ensures
            (*final(self), r) == old(self).take_decrease(idx as int, new_pnl, pos_loss),
    {
        let before: i128 = self.accounts[idx].pnl;
        let reserve_loss: u128 = if self.market_mode == MarketMode::Live {
            min_u128(pos_loss, self.accounts[idx].reserved_pnl)
        } else {
            0
        };
        proof {
            reveal(RiskEngine::apply_reserve_loss_newest_first_spec);
        }
        if reserve_loss > 0 {
            self.apply_reserve_loss_newest_first(idx, reserve_loss)?;
        }
        self.pnl_matured_pos_tot = self.pnl_matured_pos_tot.checked_sub(
            pos_loss - reserve_loss,
        ).ok_or(RiskError::CorruptState)?;
        let n: u64 = self.next_neg_count(before, new_pnl).ok_or(RiskError::CorruptState)?;
        self.neg_pnl_account_count = n;
        self.accounts[idx].pnl = new_pnl;
        if new_pnl <= 0 && self.market_mode == MarketMode::Live {
            if self.accounts[idx].reserved_pnl != 0 {
                return Err(RiskError::CorruptState);
            }
            if self.accounts[idx].sched_present != 0 {
                return Err(RiskError::CorruptState);
            }
            if self.accounts[idx].pending_present != 0 {
                return Err(RiskError::CorruptState);
            }
        }
        self.check_pnl_invariant_pair(idx)
    }

    /// Sets the profit of account `i`. An increase of positive profit goes where
    /// `mode` says, a decrease falls on the reserve first.
    #[verifier::opaque]
    pub open spec fn set_pnl_with_reserve_spec(
        self,
        i: int,
        new_pnl: i128,
        mode: ReserveMode,
        ctx: Option<InstructionContext>,
    ) -> (RiskEngine, Option<InstructionContext>, Result<(), RiskError>) {
        let a = self.accounts@[i];
        let old_pos = i128_clamp_pos(a.pnl);
        let new_pos = i128_clamp_pos(new_pnl);
        let pre = self.set_pnl_precheck(i, new_pnl, mode);
        if pre is Err {
            (self, ctx, pre)
        } else {
            let s = RiskEngine {
                pnl_pos_tot: (self.pnl_pos_tot + new_pos - old_pos) as u128,
                ..self
            };
            if new_pos > old_pos {
                match s.neg_count_after(a.pnl, new_pnl) {
                    None => (s, ctx, Err(RiskError::CorruptState)),
                    Some(n) => RiskEngine {
                        neg_pnl_account_count: n,
                        ..s.with_account(i, Account { pnl: new_pnl, ..a })
                    }.route_increase(i, (new_pos - old_pos) as u128, mode, ctx),
                }
            } else {
                let (s2, r) = s.take_decrease(i, new_pnl, (old_pos - new_pos) as u128);
                (s2, ctx, r)
            }
        }
    }

    /// Sets the profit of an account. An increase of positive profit goes where
    /// `reserve_mode` says, a decrease falls on the reserve first.
    pub fn set_pnl_with_reserve(
        &mut self,
        idx: usize,
        new_pnl: i128,
        reserve_mode: ReserveMode,
        ctx: Option<&mut InstructionContext>,
    ) -> (r: Result<(), RiskError>)
        requires
            idx < MAX_ACCOUNTS,
            ctx matches Some(c) ==> c.wf(),
        ensures
            match ctx {
                Some(c) => {
                    &&& (*final(self), Some(*final(c)), r) == old(self).set_pnl_with_reserve_spec(
                        idx as int,
                        new_pnl,
                        reserve_mode,
                        Some(*c),
                    )
                    &&& final(c).wf()
                },
                None => (*final(self), None::<InstructionContext>, r)
                    == old(self).set_pnl_with_reserve_spec(
                    idx as int,
                    new_pnl,
                    reserve_mode,
                    None,
                ),
            },
    {
        reveal(RiskEngine::set_pnl_with_reserve_spec);
        self.check_set_pnl(idx, new_pnl, reserve_mode)?;
        let before: i128 = self.accounts[idx].pnl;
        let old_pos: u128 = i128_clamp_pos(before);
        let new_pos: u128 = i128_clamp_pos(new_pnl);
        if new_pos > old_pos {
            let reserve_add: u128 = new_pos - old_pos;
            self.pnl_pos_tot = self.pnl_pos_tot + reserve_add;
            let n: u64 = self.next_neg_count(before, new_pnl).ok_or(RiskError::CorruptState)?;
            self.neg_pnl_account_count = n;
            self.accounts[idx].pnl = new_pnl;
            self.route_positive_increase(idx, reserve_add, reserve_mode, ctx)
        } else {
            let pos_loss: u128 = old_pos - new_pos;
            self.pnl_pos_tot = self.pnl_pos_tot - pos_loss;
            self.take_pnl_decrease(idx, new_pnl, pos_loss)
        }
    }

    /// Sets the profit of account `i` outside of an instruction.
    pub open spec fn set_pnl_spec(self, i: int, new_pnl: i128) -> (RiskEngine, Result<
        (),
        RiskError,
    >) {
        let (s, _, r) = self.set_pnl_with_reserve_spec(
            i,
            new_pnl,
            ReserveMode::ImmediateReleaseResolvedOnly,
            None,
        );
        (s, r)
    }

    /// Sets the profit of an account. Only a resolved market lets it increase.
    pub fn set_pnl(&mut self, idx: usize, new_pnl: i128) -> (r: Result<(), RiskError>)
        requires
            idx < MAX_ACCOUNTS,
        ensures
            (*final(self), r) == old(self).set_pnl_spec(idx as int, new_pnl),
    {
        self.set_pnl_with_reserve(idx, new_pnl, ReserveMode::ImmediateReleaseResolvedOnly, None)
    }

    /// Removes `x` of the released profit of account `i`.
    #[verifier::opaque]
    pub open spec fn consume_released_pnl_spec(self, i: int, x: u128) -> (RiskEngine, Result<
        (),
        RiskError,
    >) {
        let a = self.accounts@[i];
        if x == 0 || a.reserved_pnl + x > i128_clamp_pos(a.pnl) || self.pnl_pos_tot < x {
            (self, Err(RiskError::CorruptState))
        } else {
            let s = RiskEngine { pnl_pos_tot: (self.pnl_pos_tot - x) as u128, ..self };
            if self.pnl_matured_pos_tot < x {
                (s, Err(RiskError::CorruptState))
            } else {
                let s2 = RiskEngine {
                    pnl_matured_pos_tot: (self.pnl_matured_pos_tot - x) as u128,
                    ..s
                };
                if s2.pnl_matured_pos_tot > s2.pnl_pos_tot {
                    (s2, Err(RiskError::CorruptState))
                } else {
                    (s2.with_account(i, Account { pnl: (a.pnl - x) as i128, ..a }), Ok(()))
                }
            }
        }
    }

    /// Removes `x` of the released profit of an account, and leaves its reserve.
    pub fn consume_released_pnl(&mut self, idx: usize, x: u128) -> (r: Result<(), RiskError>)
        requires
            idx < MAX_ACCOUNTS,
        ensures
            (*final(self), r) == old(self).consume_released_pnl_spec(idx as int, x),
    {
        reveal(RiskEngine::consume_released_pnl_spec);
        if x == 0 {
            return Err(RiskError::CorruptState);
        }
        let old_pos: u128 = i128_clamp_pos(self.accounts[idx].pnl);
        let old_r: u128 = self.accounts[idx].reserved_pnl;
        let old_rel: u128 = old_pos.checked_sub(old_r).ok_or(RiskError::CorruptState)?;
        if x > old_rel {
            return Err(RiskError::CorruptState);
        }
        self.pnl_pos_tot = self.pnl_pos_tot.checked_sub(x).ok_or(RiskError::CorruptState)?;
        self.pnl_matured_pos_tot = self.pnl_matured_pos_tot.checked_sub(x).ok_or(
            RiskError::CorruptState,
        )?;
        if self.pnl_matured_pos_tot > self.pnl_pos_tot {
            return Err(RiskError::CorruptState);
        }
        let new_pnl: i128 = self.accounts[idx].pnl - (x as i128);
        self.accounts[idx].pnl = new_pnl;
        Ok(())
    }

    /// Sets the capital of account `i`, and moves the sum of capital by as much.
    #[verifier::opaque]
    pub open spec fn set_capital_spec(self, i: int, new_capital: u128) -> (RiskEngine, Result<
        (),
        RiskError,
    >) {
        let a = self.accounts@[i];
        let total = self.c_tot.get() + new_capital - a.capital.get();
        if total > u128::MAX {
            (self, Err(RiskError::Overflow))
        } else if total < 0 {
            (self, Err(RiskError::CorruptState))
        } else {
            (
                RiskEngine {
                    c_tot: U128(total as u128),
                    ..self.with_account(i, Account { capital: U128(new_capital), ..a })
                },
                Ok(()),
            )
        }
    }

    /// Sets the capital of an account, and moves the sum of capital by as much.
    pub fn set_capital(&mut self, idx: usize, new_capital: u128) -> (r: Result<(), RiskError>)
        requires
            idx < MAX_ACCOUNTS,
        ensures
            (*final(self), r) == old(self).set_capital_spec(idx as int, new_capital),
    {
        reveal(RiskEngine::set_capital_spec);
        let before: u128 = self.accounts[idx].capital.get();
        if new_capital >= before {
            let delta: u128 = new_capital - before;
            self.c_tot = U128::new(
                self.c_tot.get().checked_add(delta).ok_or(RiskError::Overflow)?,
            );
        } else {
            let delta: u128 = before - new_capital;
            self.c_tot = U128::new(
                self.c_tot.get().checked_sub(delta).ok_or(RiskError::CorruptState)?,
            );
        }
        self.accounts[idx].capital = U128::new(new_capital);
        Ok(())
    }
}

} // verus!
