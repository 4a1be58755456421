//! Creation of a market, and the slots of its accounts.

use vstd::prelude::*;

use crate::constants::{
    ACTIVE_CLOSE_PHASE_NONE, ACTIVE_CLOSE_SIDE_NONE, ADL_ONE, BITMAP_WORDS, KEY_BYTES, MAX_ACCOUNTS,
    MAX_ORACLE_PRICE, NO_SLOT,
};
use crate::int128::{I128, U128};
use crate::types::{
    Account, InsuranceFund, MarketMode, RiskEngine, RiskError, RiskParams, SideMode,
};

verus! {

impl Account {
    /// An account that was never used.
    pub open spec fn empty_spec() -> Account {
        Account {
            capital: U128(0),
            kind: 0,
            pnl: 0,
            reserved_pnl: 0,
            position_basis_q: 0,
            adl_a_basis: ADL_ONE,
            adl_k_snap: 0,
            f_snap: 0,
            adl_epoch_snap: 0,
            loss_weight: 0,
            b_snap: 0,
            b_rem: 0,
            b_epoch_snap: 0,
            matcher_program: [0u8; KEY_BYTES],
            matcher_context: [0u8; KEY_BYTES],
            owner: [0u8; KEY_BYTES],
            fee_credits: I128(0),
            last_fee_slot: 0,
            sched_present: 0,
            sched_remaining_q: 0,
            sched_anchor_q: 0,
            sched_start_slot: 0,
            sched_horizon: 0,
            sched_release_q: 0,
            pending_present: 0,
            pending_remaining_q: 0,
            pending_horizon: 0,
            pending_created_slot: 0,
        }
    }

    /// The account with everything cleared but its share in socialized losses, and
    /// its recurring fees anchored at a slot.
    pub open spec fn cleared_spec(self, last_fee_slot: u64) -> Account {
        Account {
            last_fee_slot,
            loss_weight: self.loss_weight,
            b_snap: self.b_snap,
            b_rem: self.b_rem,
            b_epoch_snap: self.b_epoch_snap,
            ..Account::empty_spec()
        }
    }

    /// Clears everything but the share in socialized losses, with recurring fees
    /// anchored at a slot.
    fn cleared(&self, last_fee_slot: u64) -> (r: Account)
        ensures
            r == self.cleared_spec(last_fee_slot),
    {
        Account {
            last_fee_slot,
            loss_weight: self.loss_weight,
            b_snap: self.b_snap,
            b_rem: self.b_rem,
            b_epoch_snap: self.b_epoch_snap,
            ..empty_account()
        }
    }
}

/// An account that was never used.
pub fn empty_account() -> (r: Account)
    ensures
        r == Account::empty_spec(),
{
    Account {
        capital: U128::new(0),
        kind: 0,
        pnl: 0,
        reserved_pnl: 0,
        position_basis_q: 0,
        adl_a_basis: ADL_ONE,
        adl_k_snap: 0,
        f_snap: 0,
        adl_epoch_snap: 0,
        loss_weight: 0,
        b_snap: 0,
        b_rem: 0,
        b_epoch_snap: 0,
        matcher_program: [0u8; KEY_BYTES],
        matcher_context: [0u8; KEY_BYTES],
        owner: [0u8; KEY_BYTES],
        fee_credits: I128::new(0),
        last_fee_slot: 0,
        sched_present: 0,
        sched_remaining_q: 0,
        sched_anchor_q: 0,
        sched_start_slot: 0,
        sched_horizon: 0,
        sched_release_q: 0,
        pending_present: 0,
        pending_remaining_q: 0,
        pending_horizon: 0,
        pending_created_slot: 0,
    }
}

impl RiskEngine {
    /// The free list of a new market, forwards: each slot points to the next.
    pub open spec fn fresh_next_free() -> Seq<u16> {
        Seq::new(
            MAX_ACCOUNTS as nat,
            |i: int|
                if i == MAX_ACCOUNTS - 1 {
                    u16::MAX
                } else {
                    (i + 1) as u16
                },
        )
    }

    /// The free list of a new market, backwards: each slot points to the previous.
    pub open spec fn fresh_prev_free() -> Seq<u16> {
        Seq::new(
            MAX_ACCOUNTS as nat,
            |i: int|
                if i == 0 {
                    u16::MAX
                } else {
                    (i - 1) as u16
                },
        )
    }

    /// A market at its start, with these accounts.
    pub open spec fn genesis(
        params: RiskParams,
        init_slot: u64,
        init_oracle_price: u64,
        accounts: [Account; MAX_ACCOUNTS],
    ) -> RiskEngine {
        RiskEngine {
            vault: U128(0),
            insurance_fund: InsuranceFund { balance: U128(0) },
            params,
            current_slot: init_slot,
            market_mode: MarketMode::Live,
            resolved_price: 0,
            resolved_slot: 0,
            resolved_payout_h_num: 0,
            resolved_payout_h_den: 0,
            resolved_payout_ready: 0,
            resolved_k_long_terminal_delta: 0,
            resolved_k_short_terminal_delta: 0,
            resolved_live_price: 0,
            c_tot: U128(0),
            pnl_pos_tot: 0,
            pnl_matured_pos_tot: 0,
            adl_mult_long: ADL_ONE,
            adl_mult_short: ADL_ONE,
            adl_coeff_long: 0,
            adl_coeff_short: 0,
            adl_epoch_long: 0,
            adl_epoch_short: 0,
            adl_epoch_start_k_long: 0,
            adl_epoch_start_k_short: 0,
            oi_eff_long_q: 0,
            oi_eff_short_q: 0,
            side_mode_long: SideMode::Normal,
            side_mode_short: SideMode::Normal,
            stored_pos_count_long: 0,
            stored_pos_count_short: 0,
            stale_account_count_long: 0,
            stale_account_count_short: 0,
            phantom_dust_certified_long_q: 0,
            phantom_dust_certified_short_q: 0,
            phantom_dust_potential_long_q: 0,
            phantom_dust_potential_short_q: 0,
            b_long_num: 0,
            b_short_num: 0,
            b_epoch_start_long_num: 0,
            b_epoch_start_short_num: 0,
            loss_weight_sum_long: 0,
            loss_weight_sum_short: 0,
            social_loss_remainder_long_num: 0,
            social_loss_remainder_short_num: 0,
            social_loss_dust_long_num: 0,
            social_loss_dust_short_num: 0,
            explicit_unallocated_loss_long: U128(0),
            explicit_unallocated_loss_short: U128(0),
            explicit_unallocated_protocol_loss: U128(0),
            explicit_unallocated_loss_saturated: 0,
            materialized_account_count: 0,
            neg_pnl_account_count: 0,
            bankruptcy_hmax_lock_active: false,
            active_close_present: 0,
            active_close_phase: ACTIVE_CLOSE_PHASE_NONE,
            active_close_account_idx: u16::MAX,
            active_close_opp_side: ACTIVE_CLOSE_SIDE_NONE,
            active_close_close_price: 0,
            active_close_close_slot: 0,
            active_close_q_close_q: 0,
            active_close_residual_remaining: 0,
            active_close_residual_booked: 0,
            active_close_residual_recorded: 0,
            active_close_b_chunks_booked: 0,
            rr_cursor_position: 0,
            sweep_generation: 0,
            price_move_consumed_bps_this_generation: 0,
            stress_consumed_bps_e9_since_envelope: 0,
            stress_envelope_remaining_indices: 0,
            stress_envelope_start_slot: NO_SLOT,
            stress_envelope_start_generation: NO_SLOT,
            last_sweep_generation_advance_slot: NO_SLOT,
            oracle_target_price_e6: 0,
            oracle_target_publish_time: 0,
            last_oracle_price: init_oracle_price,
            fund_px_last: init_oracle_price,
            last_market_slot: init_slot,
            f_long_num: 0,
            f_short_num: 0,
            f_epoch_start_long_num: 0,
            f_epoch_start_short_num: 0,
            used: [0u64; BITMAP_WORDS],
            num_used_accounts: 0,
            free_head: 0,
            next_free: crate::context::array_of(RiskEngine::fresh_next_free()),
            prev_free: crate::context::array_of(RiskEngine::fresh_prev_free()),
            accounts,
        }
    }

    /// A market with these accounts, at its start.
    fn build(
        params: RiskParams,
        init_slot: u64,
        init_oracle_price: u64,
        accounts: [Account; MAX_ACCOUNTS],
    ) -> (r: RiskEngine)
        ensures
            r == RiskEngine::genesis(params, init_slot, init_oracle_price, accounts),
    {
        let mut next_free: [u16; MAX_ACCOUNTS] = [0u16; MAX_ACCOUNTS];
        let mut prev_free: [u16; MAX_ACCOUNTS] = [0u16; MAX_ACCOUNTS];
        prev_free[0] = u16::MAX;
        let mut i: usize = 0;
        while i < MAX_ACCOUNTS - 1
            invariant
                i <= MAX_ACCOUNTS - 1,
                forall|k: int| 0 <= k < i ==> #[trigger] next_free@[k] == k + 1,
                forall|k: int|
                    0 <= k <= i ==> #[trigger] prev_free@[k] == if k == 0 {
                        u16::MAX as int
                    } else {
                        k - 1
                    },
            decreases MAX_ACCOUNTS - i,
        {
            next_free[i] = (i + 1) as u16;
            prev_free[i + 1] = i as u16;
            i = i + 1;
        }
        next_free[MAX_ACCOUNTS - 1] = u16::MAX;
        proof {
            assert(next_free@ =~= RiskEngine::fresh_next_free());
            assert(prev_free@ =~= RiskEngine::fresh_prev_free());
            crate::context::lemma_array_of(next_free);
            crate::context::lemma_array_of(prev_free);
        }
        RiskEngine {
            vault: U128::new(0),
            insurance_fund: InsuranceFund { balance: U128::new(0) },
            params,
            current_slot: init_slot,
            market_mode: MarketMode::Live,
            resolved_price: 0,
            resolved_slot: 0,
            resolved_payout_h_num: 0,
            resolved_payout_h_den: 0,
            resolved_payout_ready: 0,
            resolved_k_long_terminal_delta: 0,
            resolved_k_short_terminal_delta: 0,
            resolved_live_price: 0,
            c_tot: U128::new(0),
            pnl_pos_tot: 0,
            pnl_matured_pos_tot: 0,
            adl_mult_long: ADL_ONE,
            adl_mult_short: ADL_ONE,
            adl_coeff_long: 0,
            adl_coeff_short: 0,
            adl_epoch_long: 0,
            adl_epoch_short: 0,
            adl_epoch_start_k_long: 0,
            adl_epoch_start_k_short: 0,
            oi_eff_long_q: 0,
            oi_eff_short_q: 0,
            side_mode_long: SideMode::Normal,
            side_mode_short: SideMode::Normal,
            stored_pos_count_long: 0,
            stored_pos_count_short: 0,
            stale_account_count_long: 0,
            stale_account_count_short: 0,
            phantom_dust_certified_long_q: 0,
            phantom_dust_certified_short_q: 0,
            phantom_dust_potential_long_q: 0,
            phantom_dust_potential_short_q: 0,
            b_long_num: 0,
            b_short_num: 0,
            b_epoch_start_long_num: 0,
            b_epoch_start_short_num: 0,
            loss_weight_sum_long: 0,
            loss_weight_sum_short: 0,
            social_loss_remainder_long_num: 0,
            social_loss_remainder_short_num: 0,
            social_loss_dust_long_num: 0,
            social_loss_dust_short_num: 0,
            explicit_unallocated_loss_long: U128::new(0),
            explicit_unallocated_loss_short: U128::new(0),
            explicit_unallocated_protocol_loss: U128::new(0),
            explicit_unallocated_loss_saturated: 0,
            materialized_account_count: 0,
            neg_pnl_account_count: 0,
            bankruptcy_hmax_lock_active: false,
            active_close_present: 0,
            active_close_phase: ACTIVE_CLOSE_PHASE_NONE,
            active_close_account_idx: u16::MAX,
            active_close_opp_side: ACTIVE_CLOSE_SIDE_NONE,
            active_close_close_price: 0,
            active_close_close_slot: 0,
            active_close_q_close_q: 0,
            active_close_residual_remaining: 0,
            active_close_residual_booked: 0,
            active_close_residual_recorded: 0,
            active_close_b_chunks_booked: 0,
            rr_cursor_position: 0,
            sweep_generation: 0,
            price_move_consumed_bps_this_generation: 0,
            stress_consumed_bps_e9_since_envelope: 0,
            stress_envelope_remaining_indices: 0,
            stress_envelope_start_slot: NO_SLOT,
            stress_envelope_start_generation: NO_SLOT,
            last_sweep_generation_advance_slot: NO_SLOT,
            oracle_target_price_e6: 0,
            oracle_target_publish_time: 0,
            last_oracle_price: init_oracle_price,
            fund_px_last: init_oracle_price,
            last_market_slot: init_slot,
            f_long_num: 0,
            f_short_num: 0,
            f_epoch_start_long_num: 0,
            f_epoch_start_short_num: 0,
            used: [0u64; BITMAP_WORDS],
            num_used_accounts: 0,
            free_head: 0,
            next_free,
            prev_free,
            accounts,
        }
    }

    /// A market that starts at slot zero with an oracle price of one.
    pub fn new(params: RiskParams) -> (r: RiskEngine)
        requires
            params.valid(),
        ensures
            r == RiskEngine::genesis(params, 0, 1, [Account::empty_spec(); MAX_ACCOUNTS]),
    {
        Self::new_with_market(params, 0, 1)
    }

    /// A market that starts at this slot with this oracle price.
    pub fn new_with_market(params: RiskParams, init_slot: u64, init_oracle_price: u64) -> (r:
        RiskEngine)
        requires
            params.valid(),
            0 < init_oracle_price <= MAX_ORACLE_PRICE,
        ensures
            r == RiskEngine::genesis(
                params,
                init_slot,
                init_oracle_price,
                [Account::empty_spec(); MAX_ACCOUNTS],
            ),
    {
        let accounts: [Account; MAX_ACCOUNTS] = [empty_account(); MAX_ACCOUNTS];
        Self::build(params, init_slot, init_oracle_price, accounts)
    }

    /// Starts the market anew in place.
    pub open spec fn init_in_place_spec(
        self,
        params: RiskParams,
        init_slot: u64,
        init_oracle_price: u64,
    ) -> (RiskEngine, Result<(), RiskError>) {
        if !params.valid() || init_oracle_price == 0 || init_oracle_price > MAX_ORACLE_PRICE {
            (self, Err(RiskError::Overflow))
        } else {
            (
                RiskEngine::genesis(
                    params,
                    init_slot,
                    init_oracle_price,
                    [Account::empty_spec(); MAX_ACCOUNTS],
                ),
                Ok(()),
            )
        }
    }

    /// Starts the market anew in place: every account is one that was never used.
    /// Refused parameters leave the market as it is.
    pub fn init_in_place(
        &mut self,
        params: RiskParams,
        init_slot: u64,
        init_oracle_price: u64,
    ) -> (r: Result<(), RiskError>)
        ensures
            (*final(self), r) == old(self).init_in_place_spec(params, init_slot, init_oracle_price),
    {
        Self::try_validate_params(&params)?;
        if init_oracle_price == 0 || init_oracle_price > MAX_ORACLE_PRICE {
            return Err(RiskError::Overflow);
        }
        *self = Self::new_with_market(params, init_slot, init_oracle_price);
        Ok(())
    }

    /// Whether slot `i` is in use.
    pub open spec fn slot_used(self, i: int) -> bool {
        slot_marked(self.used@, i)
    }

    /// Whether slot `idx` is in use.
    pub fn is_used(&self, idx: usize) -> (r: bool)
        ensures
            r == self.slot_used(idx as int),
    {
        if idx >= MAX_ACCOUNTS {
            return false;
        }
        let w: usize = idx / 64;
        let b: u64 = (idx % 64) as u64;
        (self.used[w] >> b) & 1u64 == 1u64
    }

    /// The engine with slot `i` marked as in use.
    pub open spec fn with_used(self, i: int) -> RiskEngine {
        RiskEngine {
            used: vstd::array::spec_array_update(
                self.used,
                i / 64,
                self.used@[i / 64] | (1u64 << ((i % 64) as u64)),
            ),
            ..self
        }
    }

    /// Marks a slot as in use.
    pub fn set_used(&mut self, idx: usize)
        requires
            idx < MAX_ACCOUNTS,
        ensures
            *final(self) == old(self).with_used(idx as int),
            forall|j: int|
                #[trigger] final(self).slot_used(j) == (old(self).slot_used(j) || j == idx),
    {
        let w: usize = idx / 64;
        let b: u64 = (idx % 64) as u64;
        let v: u64 = self.used[w] | (1u64 << b);
        self.used[w] = v;
        proof {
            old(self).lemma_with_used(idx as int);
        }
    }

    /// The engine with slot `i` marked as free.
    pub open spec fn with_unused(self, i: int) -> RiskEngine {
        RiskEngine {
            used: vstd::array::spec_array_update(
                self.used,
                i / 64,
                self.used@[i / 64] & !(1u64 << ((i % 64) as u64)),
            ),
            ..self
        }
    }

    /// Marks a slot as free.
    pub fn clear_used(&mut self, idx: usize)
        requires
            idx < MAX_ACCOUNTS,
        ensures
            *final(self) == old(self).with_unused(idx as int),
            forall|j: int|
                #[trigger] final(self).slot_used(j) == (old(self).slot_used(j) && j != idx),
    {
        let w: usize = idx / 64;
        let b: u64 = (idx % 64) as u64;
        let v: u64 = self.used[w] & !(1u64 << b);
        self.used[w] = v;
        proof {
            old(self).lemma_with_unused(idx as int);
        }
    }

    /// Marking a slot as used marks that slot alone.
    pub proof fn lemma_with_used(self, i: int)
        requires
            0 <= i < MAX_ACCOUNTS,
        ensures
            forall|j: int|
                #[trigger] self.with_used(i).slot_used(j) == (self.slot_used(j) || j == i),
    {
        assert forall|j: int| #[trigger] self.with_used(i).slot_used(j) == (self.slot_used(j) || j
            == i) by {
            if 0 <= j < MAX_ACCOUNTS && j / 64 == i / 64 {
                crate::context::lemma_bit_set(self.used@[i / 64], (i % 64) as u64, (j % 64) as u64);
            }
        }
    }

    /// Marking a slot as free marks that slot alone.
    pub proof fn lemma_with_unused(self, i: int)
        requires
            0 <= i < MAX_ACCOUNTS,
        ensures
            forall|j: int|
                #[trigger] self.with_unused(i).slot_used(j) == (self.slot_used(j) && j != i),
    {
        assert forall|j: int| #[trigger] self.with_unused(i).slot_used(j) == (self.slot_used(j) && j
            != i) by {
            if 0 <= j < MAX_ACCOUNTS && j / 64 == i / 64 {
                crate::context::lemma_bit_clear(
                    self.used@[i / 64],
                    (i % 64) as u64,
                    (j % 64) as u64,
                );
            }
        }
    }

    /// Number of slots in use below `n`.
    pub open spec fn used_below(self, n: int) -> int
        decreases n,
    {
        if n <= 0 {
            0
        } else {
            self.used_below(n - 1) + if self.slot_used(n - 1) {
                1int
            } else {
                0int
            }
        }
    }

    /// Calls `f` with each slot in use and its account, in ascending order.
    pub fn for_each_used<F: FnMut(usize, &Account)>(&self, mut f: F)
        requires
            forall|i: usize|
                self.slot_used(i as int) ==> #[trigger] call_requires(
                    f,
                    (i, &self.accounts@[i as int]),
                ),
        ensures
            forall|i: usize|
                self.slot_used(i as int) ==> #[trigger] call_ensures(
                    f,
                    (i, &self.accounts@[i as int]),
                    (),
                ),
    {
        let ghost start = f;
        let mut i: usize = 0;
        while i < MAX_ACCOUNTS
            invariant
                i <= MAX_ACCOUNTS,
                f == start,
                forall|k: usize|
                    self.slot_used(k as int) ==> #[trigger] call_requires(
                        f,
                        (k, &self.accounts@[k as int]),
                    ),
                forall|k: usize|
                    k < i && self.slot_used(k as int) ==> #[trigger] call_ensures(
                        f,
                        (k, &self.accounts@[k as int]),
                        (),
                    ),
            decreases MAX_ACCOUNTS - i,
        {
            if self.is_used(i) {
                f(i, &self.accounts[i]);
            }
            i = i + 1;
        }
    }

    /// Number of slots in use.
    pub fn count_used(&self) -> (r: u64)
        ensures
            r == self.used_below(MAX_ACCOUNTS as int),
    {
        let mut count: u64 = 0;
        let mut i: usize = 0;
        while i < MAX_ACCOUNTS
            invariant
                i <= MAX_ACCOUNTS,
                count == self.used_below(i as int),
                count <= i,
            decreases MAX_ACCOUNTS - i,
        {
            if self.is_used(i) {
                count = count + 1;
            }
            i = i + 1;
        }
        count
    }

    /// Whether account `i` holds nothing, so that its slot can be freed.
    pub open spec fn slot_is_empty(self, i: int) -> bool {
        let a = self.accounts@[i];
        &&& a.pnl == 0
        &&& a.reserved_pnl == 0
        &&& a.position_basis_q == 0
        &&& a.sched_present == 0
        &&& a.pending_present == 0
        &&& a.capital.get() == 0
        &&& a.fee_credits.get() <= 0
        &&& a.fee_credits.get() != i128::MIN
    }

    /// Whether the head of the free list is free and has no predecessor.
    pub open spec fn free_head_is_sound(self) -> bool {
        head_is_free(self.used@, self.free_head, self.prev_free@)
    }

    /// The engine with slot `i` put in front of the free list.
    pub open spec fn push_free(self, i: int) -> RiskEngine {
        let linked = vstd::array::spec_array_update(self.prev_free, i, u16::MAX);
        RiskEngine {
            next_free: vstd::array::spec_array_update(self.next_free, i, self.free_head),
            prev_free: if self.free_head != u16::MAX {
                vstd::array::spec_array_update(linked, self.free_head as int, i as u16)
            } else {
                linked
            },
            free_head: i as u16,
            ..self
        }
    }

    /// Gives slot `idx` back.
    #[verifier::opaque]
    pub open spec fn free_slot_spec(self, idx: u16) -> (RiskEngine, Result<(), RiskError>) {
        let i = idx as int;
        if i >= MAX_ACCOUNTS || idx >= self.params.max_accounts {
            (self, Err(RiskError::AccountNotFound))
        } else if !self.slot_used(i) || !self.slot_is_empty(i) || !self.free_head_is_sound() {
            (self, Err(RiskError::CorruptState))
        } else {
            let freed = self.with_account(i, self.accounts@[i].cleared_spec(0)).with_unused(
                i,
            ).push_free(i);
            if self.num_used_accounts == 0 {
                (freed, Err(RiskError::CorruptState))
            } else {
                let counted = RiskEngine {
                    num_used_accounts: (self.num_used_accounts - 1) as u16,
                    ..freed
                };
                if self.materialized_account_count == 0 {
                    (counted, Err(RiskError::CorruptState))
                } else {
                    (
                        RiskEngine {
                            materialized_account_count: (self.materialized_account_count
                                - 1) as u64,
                            ..counted
                        },
                        Ok(()),
                    )
                }
            }
        }
    }

    /// Gives slot `idx` back to the free list. The account must hold nothing; its share
    /// in socialized losses stays.
    pub fn free_slot(&mut self, idx: u16) -> (r: Result<(), RiskError>)
        ensures
            (*final(self), r) == old(self).free_slot_spec(idx),
    {
        reveal(RiskEngine::free_slot_spec);
        let i: usize = idx as usize;
        if i >= MAX_ACCOUNTS || idx as u64 >= self.params.max_accounts {
            return Err(RiskError::AccountNotFound);
        }
        if !self.is_used(i) {
            return Err(RiskError::CorruptState);
        }
        if self.accounts[i].pnl != 0 {
            return Err(RiskError::CorruptState);
        }
        if self.accounts[i].reserved_pnl != 0 {
            return Err(RiskError::CorruptState);
        }
        if self.accounts[i].position_basis_q != 0 {
            return Err(RiskError::CorruptState);
        }
        if self.accounts[i].sched_present != 0 || self.accounts[i].pending_present != 0 {
            return Err(RiskError::CorruptState);
        }
        if !self.accounts[i].capital.is_zero() {
            return Err(RiskError::CorruptState);
        }
        self.validate_fee_credits_shape(i)?;
        if self.free_head != u16::MAX {
            let h: usize = self.free_head as usize;
            if h >= MAX_ACCOUNTS {
                return Err(RiskError::CorruptState);
            }
            if self.is_used(h) {
                return Err(RiskError::CorruptState);
            }
            if self.prev_free[h] != u16::MAX {
                return Err(RiskError::CorruptState);
            }
        }
        let cleared = self.accounts[i].cleared(0);
        self.accounts[i] = cleared;
        self.clear_used(i);
        self.next_free[i] = self.free_head;
        self.prev_free[i] = u16::MAX;
        if self.free_head != u16::MAX {
            let h: usize = self.free_head as usize;
            self.prev_free[h] = idx;
        }
        self.free_head = idx;
        self.num_used_accounts = self.num_used_accounts.checked_sub(1).ok_or(
            RiskError::CorruptState,
        )?;
        self.materialized_account_count = self.materialized_account_count.checked_sub(1).ok_or(
            RiskError::CorruptState,
        )?;
        Ok(())
    }

    /// Whether the free list holds slot `i` with links that agree in both
    /// directions.
    pub open spec fn free_links_agree(self, i: int) -> bool {
        links_agree(self.used@, self.free_head, self.next_free@, self.prev_free@, i)
    }

    /// Whether the free list holds every free slot, with links that agree.
    pub open spec fn free_list_ok(self) -> bool {
        free_slots_linked(self.used@, self.free_head, self.next_free@, self.prev_free@)
    }

    /// The engine with slot `i` taken out of the free list.
    pub open spec fn unlink_free(self, i: int) -> RiskEngine {
        let next = self.next_free@[i];
        let prev = self.prev_free@[i];
        let next_free = if prev == u16::MAX {
            self.next_free
        } else {
            vstd::array::spec_array_update(self.next_free, prev as int, next)
        };
        let prev_free = if next == u16::MAX {
            self.prev_free
        } else {
            vstd::array::spec_array_update(self.prev_free, next as int, prev)
        };
        RiskEngine {
            free_head: if prev == u16::MAX {
                next
            } else {
                self.free_head
            },
            next_free: vstd::array::spec_array_update(next_free, i, u16::MAX),
            prev_free: vstd::array::spec_array_update(prev_free, i, u16::MAX),
            ..self
        }
    }

    /// Takes slot `idx` into use.
    #[verifier::opaque]
    pub open spec fn materialize_at_spec(self, idx: u16, slot_anchor: u64) -> (RiskEngine, Result<
        (),
        RiskError,
    >) {
        let i = idx as int;
        if i >= MAX_ACCOUNTS || idx >= self.params.max_accounts {
            (self, Err(RiskError::AccountNotFound))
        } else if self.num_used_accounts >= self.params.max_accounts
            || self.materialized_account_count >= self.params.max_accounts {
            (self, Err(RiskError::Overflow))
        } else if self.slot_used(i) || !self.free_links_agree(i) || self.num_used_accounts
            == u16::MAX {
            (self, Err(RiskError::CorruptState))
        } else {
            let taken = self.unlink_free(i).with_used(i);
            (
                RiskEngine {
                    materialized_account_count: (self.materialized_account_count + 1) as u64,
                    num_used_accounts: (self.num_used_accounts + 1) as u16,
                    ..taken.with_account(i, self.accounts@[i].cleared_spec(slot_anchor))
                },
                Ok(()),
            )
        }
    }

    /// Takes the free slot `idx` into use, with recurring fees anchored at
    /// `slot_anchor`. Its share in socialized losses stays. A refusal leaves the engine as it is.
    pub fn materialize_at(&mut self, idx: u16, slot_anchor: u64) -> (r: Result<(), RiskError>)
        ensures
            (*final(self), r) == old(self).materialize_at_spec(idx, slot_anchor),
    {
        reveal(RiskEngine::materialize_at_spec);
        let i: usize = idx as usize;
        if i >= MAX_ACCOUNTS {
            return Err(RiskError::AccountNotFound);
        }
        if (idx as u64) >= self.params.max_accounts {
            return Err(RiskError::AccountNotFound);
        }
        if self.num_used_accounts as u64 >= self.params.max_accounts {
            return Err(RiskError::Overflow);
        }
        if self.materialized_account_count >= self.params.max_accounts {
            return Err(RiskError::Overflow);
        }
        if self.is_used(i) || self.num_used_accounts == u16::MAX {
            return Err(RiskError::CorruptState);
        }
        let next: u16 = self.next_free[i];
        let prev: u16 = self.prev_free[i];
        if prev != u16::MAX && (prev as usize) >= MAX_ACCOUNTS {
            return Err(RiskError::CorruptState);
        }
        if next != u16::MAX && (next as usize) >= MAX_ACCOUNTS {
            return Err(RiskError::CorruptState);
        }
        if prev == u16::MAX {
            if self.free_head != idx {
                return Err(RiskError::CorruptState);
            }
        } else {
            if self.next_free[prev as usize] != idx {
                return Err(RiskError::CorruptState);
            }
            if self.is_used(prev as usize) {
                return Err(RiskError::CorruptState);
            }
        }
        if next != u16::MAX {
            if self.prev_free[next as usize] != idx {
                return Err(RiskError::CorruptState);
            }
            if self.is_used(next as usize) {
                return Err(RiskError::CorruptState);
            }
        }
        if prev == u16::MAX {
            self.free_head = next;
        } else {
            self.next_free[prev as usize] = next;
        }
        if next != u16::MAX {
            self.prev_free[next as usize] = prev;
        }
        self.next_free[i] = u16::MAX;
        self.prev_free[i] = u16::MAX;
        self.set_used(i);
        self.materialized_account_count = self.materialized_account_count + 1;
        self.num_used_accounts = self.num_used_accounts + 1;
        let cleared = self.accounts[i].cleared(slot_anchor);
        self.accounts[i] = cleared;
        Ok(())
    }
}

/// Whether a bitmap marks slot `i`.
pub open spec fn slot_marked(used: Seq<u64>, i: int) -> bool {
    0 <= i < MAX_ACCOUNTS && crate::context::bit_is_set(used[i / 64], (i % 64) as u64)
}

/// Whether the head of a free list, if there is one, is free and has no predecessor.
pub open spec fn head_is_free(used: Seq<u64>, head: u16, prev_free: Seq<u16>) -> bool {
    head != u16::MAX ==> {
        &&& head < MAX_ACCOUNTS
        &&& !slot_marked(used, head as int)
        &&& prev_free[head as int] == u16::MAX
    }
}

/// Whether a free list holds slot `i` with links that agree in both directions.
pub open spec fn links_agree(
    used: Seq<u64>,
    head: u16,
    next_free: Seq<u16>,
    prev_free: Seq<u16>,
    i: int,
) -> bool {
    let next = next_free[i];
    let prev = prev_free[i];
    &&& if prev == u16::MAX {
        head == i
    } else {
        &&& prev < MAX_ACCOUNTS
        &&& next_free[prev as int] == i
        &&& !slot_marked(used, prev as int)
    }
    &&& next != u16::MAX ==> {
        &&& next < MAX_ACCOUNTS
        &&& prev_free[next as int] == i
        &&& !slot_marked(used, next as int)
    }
}

/// Whether a free list holds every slot that is not marked.
#[verifier::opaque]
pub open spec fn free_slots_linked(
    used: Seq<u64>,
    head: u16,
    next_free: Seq<u16>,
    prev_free: Seq<u16>,
) -> bool {
    &&& head_is_free(used, head, prev_free)
    &&& forall|i: int|
        0 <= i < MAX_ACCOUNTS && !slot_marked(used, i) ==> #[trigger] links_agree(
            used,
            head,
            next_free,
            prev_free,
            i,
        )
}

/// Taking a slot into use keeps the free list.
pub proof fn lemma_materialize_keeps_free_list(e: RiskEngine, idx: u16, slot_anchor: u64)
    requires
        e.free_list_ok(),
        e.materialize_at_spec(idx, slot_anchor).1 is Ok,
    ensures
        e.materialize_at_spec(idx, slot_anchor).0.free_list_ok(),
{
    reveal(RiskEngine::materialize_at_spec);
    reveal(free_slots_linked);
    let i = idx as int;
    let s = e.materialize_at_spec(idx, slot_anchor).0;
    e.unlink_free(i).lemma_with_used(i);
    assert forall|j: int| #[trigger]
        slot_marked(s.used@, j) == (slot_marked(e.used@, j) || j == i) by {
        assert(s.slot_used(j) == e.unlink_free(i).with_used(i).slot_used(j));
        assert(e.unlink_free(i).slot_used(j) == e.slot_used(j));
    }
    assert forall|j: int| 0 <= j < MAX_ACCOUNTS && !slot_marked(s.used@, j) implies
        #[trigger] links_agree(s.used@, s.free_head, s.next_free@, s.prev_free@, j) by {
        assert(e.free_links_agree(j));
    }
    if s.free_head != u16::MAX {
        assert(e.free_links_agree(s.free_head as int));
    }
}

/// Giving a slot back keeps the free list.
pub proof fn lemma_free_slot_keeps_free_list(e: RiskEngine, idx: u16)
    requires
        e.free_list_ok(),
        e.free_slot_spec(idx).1 is Ok,
    ensures
        e.free_slot_spec(idx).0.free_list_ok(),
{
    reveal(RiskEngine::free_slot_spec);
    reveal(free_slots_linked);
    let i = idx as int;
    let s = e.free_slot_spec(idx).0;
    let cleared = e.with_account(i, e.accounts@[i].cleared_spec(0));
    cleared.lemma_with_unused(i);
    assert forall|j: int| #[trigger]
        slot_marked(s.used@, j) == (slot_marked(e.used@, j) && j != i) by {
        assert(s.slot_used(j) == cleared.with_unused(i).slot_used(j));
        assert(cleared.slot_used(j) == e.slot_used(j));
    }
    assert forall|j: int| 0 <= j < MAX_ACCOUNTS && !slot_marked(s.used@, j) implies
        #[trigger] links_agree(s.used@, s.free_head, s.next_free@, s.prev_free@, j) by {
        if j != i {
            assert(e.free_links_agree(j));
        }
    }
}

} // verus!
