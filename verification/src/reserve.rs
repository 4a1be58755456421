//! The two-bucket reserve in which new profit warms up: a scheduled bucket that
//! matures linearly, and a pending bucket that waits behind it.

use vstd::prelude::*;

use crate::constants::MAX_ACCOUNTS;
use crate::types::{Account, RiskEngine, RiskError};
use crate::wide_math::{min_u128, mul_div_floor_u128};

verus! {

impl Account {
    /// The account with the pending bucket moved to the empty scheduled one.
    pub open spec fn promoted(self, now_slot: u64) -> Account {
        Account {
            sched_present: 1,
            sched_remaining_q: self.pending_remaining_q,
            sched_anchor_q: self.pending_remaining_q,
            sched_start_slot: now_slot,
            sched_horizon: self.pending_horizon,
            sched_release_q: 0,
            pending_present: 0,
            pending_remaining_q: 0,
            pending_horizon: 0,
            pending_created_slot: 0,
            ..self
        }
    }

    /// Moves the pending bucket to the empty scheduled one.
    pub fn promote(&mut self, now_slot: u64)
        ensures
            *final(self) == old(self).promoted(now_slot),
    {
        self.sched_present = 1;
        self.sched_remaining_q = self.pending_remaining_q;
        self.sched_anchor_q = self.pending_remaining_q;
        self.sched_start_slot = now_slot;
        self.sched_horizon = self.pending_horizon;
        self.sched_release_q = 0;
        self.pending_present = 0;
        self.pending_remaining_q = 0;
        self.pending_horizon = 0;
        self.pending_created_slot = 0;
    }

    /// The account with the pending bucket promoted if the scheduled one is absent.
    pub open spec fn promoted_if_due(self, now_slot: u64) -> Account {
        if self.sched_present == 0 && self.pending_present != 0 {
            self.promoted(now_slot)
        } else {
            self
        }
    }

    /// The account with an empty scheduled bucket removed.
    pub open spec fn without_sched(self) -> Account {
        Account {
            sched_present: 0,
            sched_anchor_q: 0,
            sched_start_slot: 0,
            sched_horizon: 0,
            sched_release_q: 0,
            ..self
        }
    }

    /// The account with both buckets and the reserve emptied.
    pub open spec fn without_reserve(self) -> Account {
        Account {
            sched_present: 0,
            sched_remaining_q: 0,
            sched_anchor_q: 0,
            sched_start_slot: 0,
            sched_horizon: 0,
            sched_release_q: 0,
            pending_present: 0,
            pending_remaining_q: 0,
            pending_horizon: 0,
            pending_created_slot: 0,
            reserved_pnl: 0,
            ..self
        }
    }

    /// Empties both buckets and the reserve.
    pub fn clear_reserve(&mut self)
        ensures
            *final(self) == old(self).without_reserve(),
    {
        self.sched_present = 0;
        self.sched_remaining_q = 0;
        self.sched_anchor_q = 0;
        self.sched_start_slot = 0;
        self.sched_horizon = 0;
        self.sched_release_q = 0;
        self.pending_present = 0;
        self.pending_remaining_q = 0;
        self.pending_horizon = 0;
        self.pending_created_slot = 0;
        self.reserved_pnl = 0;
    }

    /// The account with `add` put into the pending bucket.
    pub open spec fn into_pending(self, add: u128, now_slot: u64, h_lock: u64) -> (Account, Result<
        (),
        RiskError,
    >) {
        if self.pending_present == 0 {
            (
                Account {
                    pending_present: 1,
                    pending_remaining_q: add,
                    pending_horizon: h_lock,
                    pending_created_slot: now_slot,
                    ..self
                },
                Ok(()),
            )
        } else if self.pending_remaining_q + add > u128::MAX {
            (self, Err(RiskError::Overflow))
        } else {
            (
                Account {
                    pending_remaining_q: (self.pending_remaining_q + add) as u128,
                    pending_horizon: if self.pending_horizon >= h_lock {
                        self.pending_horizon
                    } else {
                        h_lock
                    },
                    ..self
                },
                Ok(()),
            )
        }
    }

    /// Puts `add` into the pending bucket, which keeps the longer horizon.
    pub fn add_to_pending(&mut self, add: u128, now_slot: u64, h_lock: u64) -> (r: Result<
        (),
        RiskError,
    >)
        ensures
            (*final(self), r) == old(self).into_pending(add, now_slot, h_lock),
    {
        if self.pending_present == 0 {
            self.pending_present = 1;
            self.pending_remaining_q = add;
            self.pending_horizon = h_lock;
            self.pending_created_slot = now_slot;
        } else {
            self.pending_remaining_q = self.pending_remaining_q.checked_add(add).ok_or(
                RiskError::Overflow,
            )?;
            if self.pending_horizon < h_lock {
                self.pending_horizon = h_lock;
            }
        }
        Ok(())
    }

    /// The account with `add` put into the bucket where it belongs: a new scheduled
    /// bucket, a scheduled bucket of the same slot and horizon that has released
    /// nothing, or the pending bucket.
    pub open spec fn into_buckets(self, add: u128, now_slot: u64, h_lock: u64) -> (Account, Result<
        (),
        RiskError,
    >) {
        let a = self.promoted_if_due(now_slot);
        if a.sched_present == 0 {
            (
                Account {
                    sched_present: 1,
                    sched_remaining_q: add,
                    sched_anchor_q: add,
                    sched_start_slot: now_slot,
                    sched_horizon: h_lock,
                    sched_release_q: 0,
                    ..a
                },
                Ok(()),
            )
        } else if a.pending_present == 0 && a.sched_start_slot == now_slot && a.sched_horizon
            == h_lock && a.sched_release_q == 0 {
            if a.sched_remaining_q + add > u128::MAX {
                (a, Err(RiskError::Overflow))
            } else {
                let b = Account { sched_remaining_q: (a.sched_remaining_q + add) as u128, ..a };
                if a.sched_anchor_q + add > u128::MAX {
                    (b, Err(RiskError::Overflow))
                } else {
                    (Account { sched_anchor_q: (a.sched_anchor_q + add) as u128, ..b }, Ok(()))
                }
            }
        } else {
            a.into_pending(add, now_slot, h_lock)
        }
    }

    /// Puts `add` into the bucket where it belongs.
    pub fn add_to_buckets(&mut self, add: u128, now_slot: u64, h_lock: u64) -> (r: Result<
        (),
        RiskError,
    >)
        ensures
            (*final(self), r) == old(self).into_buckets(add, now_slot, h_lock),
    {
        if self.sched_present == 0 && self.pending_present != 0 {
            self.promote(now_slot);
        }
        if self.sched_present == 0 {
            self.sched_present = 1;
            self.sched_remaining_q = add;
            self.sched_anchor_q = add;
            self.sched_start_slot = now_slot;
            self.sched_horizon = h_lock;
            self.sched_release_q = 0;
        } else if self.pending_present == 0 && self.sched_start_slot == now_slot
            && self.sched_horizon == h_lock && self.sched_release_q == 0 {
            self.sched_remaining_q = self.sched_remaining_q.checked_add(add).ok_or(
                RiskError::Overflow,
            )?;
            self.sched_anchor_q = self.sched_anchor_q.checked_add(add).ok_or(RiskError::Overflow)?;
        } else {
            self.add_to_pending(add, now_slot, h_lock)?;
        }
        Ok(())
    }

    /// The account with `add` more in reserve.
    pub open spec fn with_reserve_added(a: (Account, Result<(), RiskError>), add: u128) -> (
        Account,
        Result<(), RiskError>,
    ) {
        if a.1 is Err {
            a
        } else if a.0.reserved_pnl + add > u128::MAX {
            (a.0, Err(RiskError::Overflow))
        } else {
            (Account { reserved_pnl: (a.0.reserved_pnl + add) as u128, ..a.0 }, Ok(()))
        }
    }

    /// The account with `loss` taken out of the pending bucket, then out of the
    /// scheduled one.
    pub open spec fn reserve_loss_taken(self, loss: u128) -> Account {
        let take_pend = crate::wide_math::min_int(loss as int, self.pending_amount() as int);
        let take_sched = loss - take_pend;
        let a = if take_pend > 0 {
            if self.pending_remaining_q == take_pend {
                Account {
                    pending_remaining_q: 0,
                    pending_present: 0,
                    pending_horizon: 0,
                    pending_created_slot: 0,
                    ..self
                }
            } else {
                Account { pending_remaining_q: (self.pending_remaining_q - take_pend) as u128, ..self
                }
            }
        } else {
            self
        };
        let b = if take_sched > 0 {
            if a.sched_remaining_q == take_sched {
                Account { sched_remaining_q: 0, ..a.without_sched() }
            } else {
                Account { sched_remaining_q: (a.sched_remaining_q - take_sched) as u128, ..a }
            }
        } else {
            a
        };
        Account { reserved_pnl: (self.reserved_pnl - loss) as u128, ..b }
    }

    /// What the scheduled bucket has matured in all after `elapsed` slots: all of
    /// it behind the horizon, a proportional part before.
    pub open spec fn sched_matured(self, elapsed: int) -> int {
        if elapsed >= self.sched_horizon {
            self.sched_anchor_q as int
        } else {
            self.sched_anchor_q * elapsed / (self.sched_horizon as int)
        }
    }
}

impl RiskEngine {
    /// Reserves `reserve_add` of account `i`, to mature over `h_lock` slots.
    #[verifier::opaque]
    pub open spec fn append_or_route_new_reserve_spec(
        self,
        i: int,
        reserve_add: u128,
        now_slot: u64,
        h_lock: u64,
    ) -> (RiskEngine, Result<(), RiskError>) {
        let a = self.accounts@[i];
        if !a.reserve_ok(self.params) {
            (self, Err(RiskError::CorruptState))
        } else {
            let (b, r) = Account::with_reserve_added(
                a.into_buckets(reserve_add, now_slot, h_lock),
                reserve_add,
            );
            (self.with_account(i, b), r)
        }
    }

    /// Reserves `reserve_add` of an account, to mature over `h_lock` slots.
    pub fn append_or_route_new_reserve(
        &mut self,
        idx: usize,
        reserve_add: u128,
        now_slot: u64,
        h_lock: u64,
    ) -> (r: Result<(), RiskError>)
        requires
            idx < MAX_ACCOUNTS,
        ensures
            (*final(self), r) == old(self).append_or_route_new_reserve_spec(
                idx as int,
                reserve_add,
                now_slot,
                h_lock,
            ),
    {
        reveal(RiskEngine::append_or_route_new_reserve_spec);
        self.append_or_route_new_reserve_with_stress(idx, reserve_add, now_slot, h_lock, false)
    }

    /// As `append_or_route_new_reserve`. Under stress the pending bucket takes it all.
    pub open spec fn append_or_route_new_reserve_with_stress_spec(
        self,
        i: int,
        reserve_add: u128,
        now_slot: u64,
        h_lock: u64,
        stress_active: bool,
    ) -> (RiskEngine, Result<(), RiskError>) {
        let a = self.accounts@[i];
        if !a.reserve_ok(self.params) {
            (self, Err(RiskError::CorruptState))
        } else {
            let (b, r) = Account::with_reserve_added(
                if stress_active {
                    a.into_pending(reserve_add, now_slot, h_lock)
                } else {
                    a.into_buckets(reserve_add, now_slot, h_lock)
                },
                reserve_add,
            );
            (self.with_account(i, b), r)
        }
    }

    /// Reserves `reserve_add` of an account. Under stress the pending bucket takes
    /// it all.
    pub fn append_or_route_new_reserve_with_stress(
        &mut self,
        idx: usize,
        reserve_add: u128,
        now_slot: u64,
        h_lock: u64,
        stress_active: bool,
    ) -> (r: Result<(), RiskError>)
        requires
            idx < MAX_ACCOUNTS,
        ensures
            (*final(self), r) == old(self).append_or_route_new_reserve_with_stress_spec(
                idx as int,
                reserve_add,
                now_slot,
                h_lock,
                stress_active,
            ),
    {
        self.validate_reserve_shape(idx)?;
        let mut a = self.accounts[idx];
        let mut r: Result<(), RiskError> = if stress_active {
            a.add_to_pending(reserve_add, now_slot, h_lock)
        } else {
            a.add_to_buckets(reserve_add, now_slot, h_lock)
        };
        if r.is_ok() {
            match a.reserved_pnl.checked_add(reserve_add) {
                Some(v) => {
                    a.reserved_pnl = v;
                },
                None => {
                    r = Err(RiskError::Overflow);
                },
            }
        }
        self.accounts[idx] = a;
        r
    }

    /// Takes a loss out of the reserve of account `i`.
    #[verifier::opaque]
    pub open spec fn apply_reserve_loss_newest_first_spec(self, i: int, reserve_loss: u128) -> (
        RiskEngine,
        Result<(), RiskError>,
    ) {
        let a = self.accounts@[i];
        if !a.reserve_ok(self.params) || reserve_loss > a.reserved_pnl {
            (self, Err(RiskError::CorruptState))
        } else {
            (self.with_account(i, a.reserve_loss_taken(reserve_loss)), Ok(()))
        }
    }

    /// Takes a loss out of the reserve of an account: out of the pending bucket
    /// first, then out of the scheduled one.
    pub fn apply_reserve_loss_newest_first(&mut self, idx: usize, reserve_loss: u128) -> (r: Result<
        (),
        RiskError,
    >)
        requires
            idx < MAX_ACCOUNTS,
        ensures
            (*final(self), r) == old(self).apply_reserve_loss_newest_first_spec(
                idx as int,
                reserve_loss,
            ),
    {
        reveal(RiskEngine::apply_reserve_loss_newest_first_spec);
        self.validate_reserve_shape(idx)?;
        let mut a = self.accounts[idx];
        let pend_avail: u128 = a.pending_amount();
        let sched_avail: u128 = a.sched_amount();
        let total_avail: u128 = pend_avail.checked_add(sched_avail).ok_or(RiskError::CorruptState)?;
        if reserve_loss > total_avail {
            return Err(RiskError::CorruptState);
        }
        let new_reserved_pnl: u128 = a.reserved_pnl.checked_sub(reserve_loss).ok_or(
            RiskError::CorruptState,
        )?;
        let take_pend: u128 = min_u128(reserve_loss, pend_avail);
        let take_sched: u128 = reserve_loss - take_pend;
        if take_pend > 0 {
            a.pending_remaining_q = a.pending_remaining_q - take_pend;
            if a.pending_remaining_q == 0 {
                a.pending_present = 0;
                a.pending_horizon = 0;
                a.pending_created_slot = 0;
            }
        }
        if take_sched > 0 {
            a.sched_remaining_q = a.sched_remaining_q - take_sched;
            if a.sched_remaining_q == 0 {
                a.sched_present = 0;
                a.sched_anchor_q = 0;
                a.sched_start_slot = 0;
                a.sched_horizon = 0;
                a.sched_release_q = 0;
            }
        }
        a.reserved_pnl = new_reserved_pnl;
        self.accounts[idx] = a;
        Ok(())
    }

    /// Empties the reserve of an account of a resolved market.
    pub fn prepare_account_for_resolved_touch(&mut self, idx: usize)
        requires
            idx < MAX_ACCOUNTS,
        ensures
            *final(self) == old(self).with_account(
                idx as int,
                old(self).accounts@[idx as int].without_reserve(),
            ),
    {
        let mut a = self.accounts[idx];
        a.clear_reserve();
        self.accounts[idx] = a;
    }

    /// Matures the scheduled bucket of account `i` up to the present slot, once the
    /// pending bucket has been promoted where it was due.
    pub open spec fn mature_scheduled(self, i: int) -> (RiskEngine, Result<(), RiskError>) {
        let a = self.accounts@[i];
        if a.sched_present == 0 || self.current_slot < a.sched_start_slot || a.sched_horizon == 0 {
            (self, Err(RiskError::CorruptState))
        } else {
            let total = a.sched_matured(self.current_slot - a.sched_start_slot);
            if total < a.sched_release_q {
                (self, Err(RiskError::CorruptState))
            } else {
                let release = crate::wide_math::min_int(
                    a.sched_remaining_q as int,
                    total - a.sched_release_q,
                );
                if release > a.reserved_pnl {
                    (
                        self.with_account(
                            i,
                            Account {
                                sched_remaining_q: (a.sched_remaining_q - release) as u128,
                                ..a
                            },
                        ),
                        Err(RiskError::CorruptState),
                    )
                } else {
                    let b = Account {
                        sched_remaining_q: (a.sched_remaining_q - release) as u128,
                        reserved_pnl: (a.reserved_pnl - release) as u128,
                        ..a
                    };
                    if self.pnl_matured_pos_tot + release > u128::MAX {
                        (self.with_account(i, b), Err(RiskError::Overflow))
                    } else {
                        let c = Account { sched_release_q: total as u128, ..b };
                        let d = if c.sched_remaining_q == 0 {
                            if c.pending_present != 0 {
                                c.without_sched().promoted(self.current_slot)
                            } else {
                                c.without_sched()
                            }
                        } else {
                            c
                        };
                        let s = RiskEngine {
                            pnl_matured_pos_tot: (self.pnl_matured_pos_tot + release) as u128,
                            ..self.with_account(i, d)
                        };
                        if d.reserved_pnl == 0 && (d.sched_present != 0 || d.pending_present != 0) {
                            (s, Err(RiskError::CorruptState))
                        } else if s.pnl_matured_pos_tot > s.pnl_pos_tot {
                            (s, Err(RiskError::CorruptState))
                        } else {
                            (s, Ok(()))
                        }
                    }
                }
            }
        }
    }

    /// Matures the reserve of account `i` up to the present slot.
    #[verifier::opaque]
    pub open spec fn advance_profit_warmup_spec(self, i: int) -> (RiskEngine, Result<
        (),
        RiskError,
    >) {
        let a = self.accounts@[i];
        if !a.reserve_ok(self.params) {
            (self, Err(RiskError::CorruptState))
        } else if a.reserved_pnl == 0 {
            (self, Ok(()))
        } else {
            self.with_account(i, a.promoted_if_due(self.current_slot)).mature_scheduled(i)
        }
    }

    fn mature(&mut self, idx: usize) -> (r: Result<(), RiskError>)
        requires
            idx < MAX_ACCOUNTS,
            ({
                let a = old(self).accounts@[idx as int];
                a.sched_remaining_q + a.sched_release_q <= a.sched_anchor_q
            }),
        ensures
            (*final(self), r) == old(self).mature_scheduled(idx as int),
    {
        let mut a = self.accounts[idx];
        if a.sched_present == 0 {
            return Err(RiskError::CorruptState);
        }
        if self.current_slot < a.sched_start_slot {
            return Err(RiskError::CorruptState);
        }
        let elapsed: u128 = (self.current_slot - a.sched_start_slot) as u128;
        if a.sched_horizon == 0 {
            return Err(RiskError::CorruptState);
        }
        let sched_total: u128 = if elapsed >= a.sched_horizon as u128 {
            a.sched_anchor_q
        } else {
            proof {
                crate::equity::lemma_share_within(
                    a.sched_anchor_q as int,
                    elapsed as int,
                    a.sched_horizon as int,
                );
            }
            mul_div_floor_u128(a.sched_anchor_q, elapsed, a.sched_horizon as u128)
        };
        if sched_total < a.sched_release_q {
            return Err(RiskError::CorruptState);
        }
        let sched_increment: u128 = sched_total - a.sched_release_q;
        let release: u128 = min_u128(a.sched_remaining_q, sched_increment);
        let mut matured: u128 = self.pnl_matured_pos_tot;
        if release > 0 {
            a.sched_remaining_q = a.sched_remaining_q - release;
            match a.reserved_pnl.checked_sub(release) {
                Some(v) => {
                    a.reserved_pnl = v;
                },
                None => {
                    self.accounts[idx] = a;
                    return Err(RiskError::CorruptState);
                },
            }
            match matured.checked_add(release) {
                Some(v) => {
                    matured = v;
                },
                None => {
                    self.accounts[idx] = a;
                    return Err(RiskError::Overflow);
                },
            }
        }
        a.sched_release_q = sched_total;
        if a.sched_remaining_q == 0 {
            a.sched_present = 0;
            a.sched_anchor_q = 0;
            a.sched_start_slot = 0;
            a.sched_horizon = 0;
            a.sched_release_q = 0;
            if a.pending_present != 0 {
                a.promote(self.current_slot);
            }
        }
        self.accounts[idx] = a;
        self.pnl_matured_pos_tot = matured;
        if a.reserved_pnl == 0 && (a.sched_present != 0 || a.pending_present != 0) {
            return Err(RiskError::CorruptState);
        }
        if self.pnl_matured_pos_tot > self.pnl_pos_tot {
            return Err(RiskError::CorruptState);
        }
        Ok(())
    }

    /// Matures the reserve of an account up to the present slot.
    pub fn advance_profit_warmup(&mut self, idx: usize) -> (r: Result<(), RiskError>)
        requires
            idx < MAX_ACCOUNTS,
        ensures
            (*final(self), r) == old(self).advance_profit_warmup_spec(idx as int),
    {
        reveal(RiskEngine::advance_profit_warmup_spec);
        self.validate_reserve_shape(idx)?;
        let mut a = self.accounts[idx];
        if a.reserved_pnl == 0 {
            return Ok(());
        }
        if a.sched_present == 0 && a.pending_present != 0 {
            a.promote(self.current_slot);
        }
        self.accounts[idx] = a;
        self.mature(idx)
    }
}


} // verus!
