//! The state of a market, its accounts and its parameters, and the requests and
//! outcomes of the keeper.

use vstd::prelude::*;

use crate::constants::{BITMAP_WORDS, MAX_ACCOUNTS, MAX_TOUCHED_PER_INSTRUCTION};
use crate::int128::{I128, U128};

verus! {

/// Whether the market trades or has been settled.
#[derive(Clone, Copy, Debug, PartialEq, Eq, Structural)]
pub enum MarketMode {
    Live,
    Resolved,
}

/// How `resolve_market_not_atomic` brings the market to its settlement price.
///
/// The branch is chosen by the caller. Equal prices or a zero funding rate never
/// choose it.
#[derive(Clone, Copy, Debug, PartialEq, Eq, Structural)]
pub enum ResolveMode {
    /// Accrues to the present slot and holds the settlement price to the
    /// deviation band.
    Ordinary,
    /// Skips the accrual and the band. The live price must be the last oracle
    /// price and the funding rate zero.
    Degenerate,
}

/// What happens to an increase of positive profit.
#[derive(Clone, Copy, Debug, PartialEq, Eq, Structural)]
pub enum ReserveMode {
    /// The engine picks the warmup horizon out of the pair `(h_min, h_max)`.
    UseAdmissionPair(u64, u64),
    /// Released at once. Only a resolved market allows it.
    ImmediateReleaseResolvedOnly,
    /// Refused.
    NoPositiveIncreaseAllowed,
}

/// Mode of one side of the market.
#[derive(Clone, Copy, Debug, PartialEq, Eq, Structural)]
pub enum SideMode {
    Normal,
    DrainOnly,
    ResetPending,
}

/// Side of a position: positive is long, negative is short.
#[derive(Clone, Copy, Debug, PartialEq, Eq, Structural)]
pub enum Side {
    Long,
    Short,
}

/// One account slot.
#[derive(Clone, Copy, Debug, PartialEq, Eq)]
pub struct Account {
    /// Principal of the account.
    pub capital: U128,
    /// Kind of the account, kept for the caller: `0` user, `1` liquidity provider.
    pub kind: u8,
    /// Realized profit or loss.
    pub pnl: i128,
    /// Positive profit still in warmup.
    pub reserved_pnl: u128,
    /// Signed position quantity at the last attachment.
    pub position_basis_q: i128,
    /// Side multiplier `A` at the last attachment.
    pub adl_a_basis: u128,
    /// Side coefficient `K` at the last attachment.
    pub adl_k_snap: i128,
    /// Side funding index `F` at the last attachment.
    pub f_snap: i128,
    /// Side epoch at the last attachment.
    pub adl_epoch_snap: u64,
    /// Share of the account in the side's socialized losses.
    pub loss_weight: u128,
    /// Side index `B` up to which the account has settled.
    pub b_snap: u128,
    /// Carried remainder of the `B` settlement.
    pub b_rem: u128,
    /// Side epoch of the `B` settlement.
    pub b_epoch_snap: u64,
    /// Opaque payload of the caller.
    pub matcher_program: [u8; 32],
    /// Opaque payload of the caller.
    pub matcher_context: [u8; 32],
    /// Owner key: all zero while the account is unclaimed.
    pub owner: [u8; 32],
    /// Fee credits. Negative credits are fee debt.
    pub fee_credits: I128,
    /// Slot up to which recurring fees have been charged.
    pub last_fee_slot: u64,
    /// Whether the scheduled reserve bucket is present.
    pub sched_present: u8,
    /// What is left in the scheduled bucket.
    pub sched_remaining_q: u128,
    /// What the scheduled bucket held when it started.
    pub sched_anchor_q: u128,
    /// Slot at which the scheduled bucket started.
    pub sched_start_slot: u64,
    /// Slots over which the scheduled bucket matures.
    pub sched_horizon: u64,
    /// What the scheduled bucket has released.
    pub sched_release_q: u128,
    /// Whether the pending reserve bucket is present.
    pub pending_present: u8,
    /// What the pending bucket holds.
    pub pending_remaining_q: u128,
    /// Horizon that the pending bucket will mature over.
    pub pending_horizon: u64,
    /// Slot at which the pending bucket was created.
    pub pending_created_slot: u64,
}

impl Account {
    /// Kind of a user account.
    pub const KIND_USER: u8 = 0;

    /// Kind of a liquidity provider.
    pub const KIND_LP: u8 = 1;

    /// Whether the account is marked as a liquidity provider.
    pub fn is_lp(&self) -> (r: bool)
        ensures
            r == (self.kind == 1),
    {
        self.kind == Self::KIND_LP
    }

    /// Whether the account is marked as a user.
    pub fn is_user(&self) -> (r: bool)
        ensures
            r == (self.kind == 0),
    {
        self.kind == Self::KIND_USER
    }
}

/// The insurance fund.
#[derive(Clone, Copy, Debug, PartialEq, Eq, Structural)]
pub struct InsuranceFund {
    pub balance: U128,
}

/// Parameters of a market.
#[derive(Clone, Copy, Debug, PartialEq, Eq, Structural)]
pub struct RiskParams {
    pub maintenance_margin_bps: u64,
    pub initial_margin_bps: u64,
    /// Upper bound on the fee of a single trade.
    pub max_trading_fee_bps: u64,
    pub max_accounts: u64,
    pub liquidation_fee_bps: u64,
    pub liquidation_fee_cap: U128,
    pub min_liquidation_abs: U128,
    /// Floor of the maintenance requirement of a nonzero position.
    pub min_nonzero_mm_req: u128,
    /// Floor of the initial requirement of a nonzero position.
    pub min_nonzero_im_req: u128,
    /// Shortest warmup horizon.
    pub h_min: u64,
    /// Longest warmup horizon.
    pub h_max: u64,
    /// Allowed deviation of a settlement price.
    pub resolve_price_deviation_bps: u64,
    /// Slots that one accrual may cover on an exposed market.
    pub max_accrual_dt_slots: u64,
    /// Largest absolute funding rate per slot.
    pub max_abs_funding_e9_per_slot: u64,
    /// Slots over which the funding indices stay in range at the largest rate.
    pub min_funding_lifetime_slots: u64,
    /// Positions that one side may hold.
    pub max_active_positions_per_side: u64,
    /// Price movement allowed per slot.
    pub max_price_move_bps_per_slot: u64,
}

/// State of a market.
#[derive(Clone, Debug, PartialEq, Eq)]
pub struct RiskEngine {
    /// Value held by the market, `V`.
    pub vault: U128,
    /// Insurance fund, `I`.
    pub insurance_fund: InsuranceFund,
    pub params: RiskParams,
    pub current_slot: u64,
    pub market_mode: MarketMode,
    pub resolved_price: u64,
    pub resolved_slot: u64,
    /// Numerator of the payout ratio, locked by the first terminal close.
    pub resolved_payout_h_num: u128,
    /// Denominator of the payout ratio, locked by the first terminal close.
    pub resolved_payout_h_den: u128,
    /// `1` once the payout ratio is locked.
    pub resolved_payout_ready: u8,
    /// Shift of `K` that settlement adds to long positions.
    pub resolved_k_long_terminal_delta: i128,
    /// Shift of `K` that settlement adds to short positions.
    pub resolved_k_short_terminal_delta: i128,
    pub resolved_live_price: u64,
    /// Sum of the capital of all accounts, `C_tot`.
    pub c_tot: U128,
    /// Sum of the positive profits of all accounts.
    pub pnl_pos_tot: u128,
    /// Sum of the matured positive profits of all accounts.
    pub pnl_matured_pos_tot: u128,
    pub adl_mult_long: u128,
    pub adl_mult_short: u128,
    pub adl_coeff_long: i128,
    pub adl_coeff_short: i128,
    pub adl_epoch_long: u64,
    pub adl_epoch_short: u64,
    pub adl_epoch_start_k_long: i128,
    pub adl_epoch_start_k_short: i128,
    pub oi_eff_long_q: u128,
    pub oi_eff_short_q: u128,
    pub side_mode_long: SideMode,
    pub side_mode_short: SideMode,
    pub stored_pos_count_long: u64,
    pub stored_pos_count_short: u64,
    pub stale_account_count_long: u64,
    pub stale_account_count_short: u64,
    /// Certified part of the open interest that no account holds any more.
    pub phantom_dust_certified_long_q: u128,
    pub phantom_dust_certified_short_q: u128,
    /// Upper bound on the open interest that no account holds any more.
    pub phantom_dust_potential_long_q: u128,
    pub phantom_dust_potential_short_q: u128,
    /// Index `B` of socialized loss.
    pub b_long_num: u128,
    pub b_short_num: u128,
    pub b_epoch_start_long_num: u128,
    pub b_epoch_start_short_num: u128,
    /// Sum of the loss weights of a side.
    pub loss_weight_sum_long: u128,
    pub loss_weight_sum_short: u128,
    /// Remainder that a booking carries to the next one.
    pub social_loss_remainder_long_num: u128,
    pub social_loss_remainder_short_num: u128,
    pub social_loss_dust_long_num: u128,
    pub social_loss_dust_short_num: u128,
    /// Losses that no claim carries, for audit only.
    pub explicit_unallocated_loss_long: U128,
    pub explicit_unallocated_loss_short: U128,
    pub explicit_unallocated_protocol_loss: U128,
    /// `1` once a bucket of unallocated loss has overflowed.
    pub explicit_unallocated_loss_saturated: u8,
    pub materialized_account_count: u64,
    /// Number of accounts with a negative profit.
    pub neg_pnl_account_count: u64,
    /// Holds positive profit at the longest horizon after a bankruptcy.
    pub bankruptcy_hmax_lock_active: bool,
    /// `1` while a bankrupt close is in flight.
    pub active_close_present: u8,
    pub active_close_phase: u8,
    pub active_close_account_idx: u16,
    pub active_close_opp_side: u8,
    pub active_close_close_price: u64,
    pub active_close_close_slot: u64,
    pub active_close_q_close_q: u128,
    pub active_close_residual_remaining: u128,
    pub active_close_residual_booked: u128,
    pub active_close_residual_recorded: u128,
    pub active_close_b_chunks_booked: u64,
    /// Cursor of the round-robin sweep.
    pub rr_cursor_position: u64,
    /// Number of completed sweeps.
    pub sweep_generation: u64,
    /// Price movement consumed since the last completed sweep.
    pub price_move_consumed_bps_this_generation: u128,
    pub stress_consumed_bps_e9_since_envelope: u128,
    pub stress_envelope_remaining_indices: u64,
    pub stress_envelope_start_slot: u64,
    pub stress_envelope_start_generation: u64,
    pub last_sweep_generation_advance_slot: u64,
    pub oracle_target_price_e6: u64,
    pub oracle_target_publish_time: i64,
    /// Last accepted oracle price, `P_last`.
    pub last_oracle_price: u64,
    /// Price of the last funding sample.
    pub fund_px_last: u64,
    /// Slot of the last accrual.
    pub last_market_slot: u64,
    pub f_long_num: i128,
    pub f_short_num: i128,
    pub f_epoch_start_long_num: i128,
    pub f_epoch_start_short_num: i128,
    /// One bit for each slot in use.
    pub used: [u64; BITMAP_WORDS],
    pub num_used_accounts: u16,
    /// First free slot, `u16::MAX` if there is none.
    pub free_head: u16,
    /// Next slot of the free list.
    pub next_free: [u16; MAX_ACCOUNTS],
    /// Previous slot of the free list.
    pub prev_free: [u16; MAX_ACCOUNTS],
    pub accounts: [Account; MAX_ACCOUNTS],
}

/// Why an instruction was refused.
#[derive(Clone, Copy, Debug, PartialEq, Eq, Structural)]
pub enum RiskError {
    InsufficientBalance,
    Undercollateralized,
    Unauthorized,
    PnlNotWarmedUp,
    Overflow,
    AccountNotFound,
    SideBlocked,
    CorruptState,
    /// A bankrupt close is in flight, or no bounded step is left.
    RecoveryRequired,
}

/// Outcome of closing an account of a resolved market.
#[derive(Clone, Copy, Debug, PartialEq, Eq, Structural)]
pub enum ResolvedCloseResult {
    /// The account was reconciled and stays open.
    ProgressOnly,
    /// The account was freed and this capital paid out.
    Closed(u128),
}

impl ResolvedCloseResult {
    /// The capital paid out, if the account was closed.
    pub fn closed(self) -> (r: Option<u128>)
        ensures
            r == match self {
                ResolvedCloseResult::Closed(cap) => Some(cap),
                ResolvedCloseResult::ProgressOnly => None,
            },
    {
        match self {
            ResolvedCloseResult::Closed(cap) => Some(cap),
            ResolvedCloseResult::ProgressOnly => None,
        }
    }

    /// The capital paid out of a closed account.
    pub fn expect_closed(self, msg: &str) -> (r: u128)
        requires
            self is Closed,
        ensures
            self == ResolvedCloseResult::Closed(r),
    {
        match self {
            ResolvedCloseResult::Closed(cap) => cap,
            ResolvedCloseResult::ProgressOnly => 0,
        }
    }

    /// Whether the account stays open.
    pub fn is_progress_only(self) -> (r: bool)
        ensures
            r == (self is ProgressOnly),
    {
        matches!(self, ResolvedCloseResult::ProgressOnly)
    }
}

/// How much of a position a liquidation closes.
#[derive(Clone, Copy, Debug, PartialEq, Eq, Structural)]
pub enum LiquidationPolicy {
    FullClose,
    /// Closes exactly this quantity.
    ExactPartial(u128),
}

/// Outcome of a keeper crank.
#[derive(Clone, Copy, Debug, PartialEq, Eq, Structural)]
pub struct CrankOutcome {
    pub num_liquidations: u32,
}

/// Why a market is settled at its last oracle price without a privileged caller.
#[derive(Clone, Copy, Debug, PartialEq, Eq, Structural)]
pub enum RecoveryReason {
    /// The raw target is away from the last price, but the bounded step is zero.
    BelowProgressFloor,
    /// An index `B` has no headroom left.
    BIndexHeadroomExhausted,
    /// A bucket of unallocated loss has overflowed.
    ExplicitLossOrDustAuditOverflow,
    /// The next bounded price segment cannot be represented.
    BlockedSegmentHeadroomOrRepresentability,
    /// An account has no bounded step left towards its `B` target.
    AccountBSettlementCannotProgress,
    /// A bankrupt close has no bounded step left.
    ActiveBankruptCloseCannotProgress,
    /// The oracle is unavailable. The engine cannot check this and refuses it.
    OracleOrTargetUnavailableByAuthenticatedPolicy,
    /// A counter or an epoch has reached its last value.
    CounterOrEpochOverflowDeclaredRecovery,
}

/// Which branch `permissionless_progress_not_atomic` took.
#[derive(Clone, Copy, Debug, PartialEq, Eq, Structural)]
pub enum PermissionlessProgressOutcome {
    Cranked(CrankOutcome),
    ResolvedClose(ResolvedCloseResult),
    ActiveCloseContinued,
    AccountBProgress(u16),
    Recovered(RecoveryReason),
    AccountBRecovered(u16),
}

/// A keeper crank.
#[derive(Clone, Copy, Debug)]
pub struct KeeperCrankRequest<'a> {
    pub now_slot: u64,
    pub oracle_price: u64,
    pub ordered_candidates: &'a [(u16, Option<LiquidationPolicy>)],
    pub max_revalidations: u16,
    /// Kept in the request. The crank applies its own bound.
    pub max_candidate_inspections: u16,
    pub funding_rate_e9: i128,
    pub admit_h_min: u64,
    pub admit_h_max: u64,
    pub admit_h_max_consumption_threshold_bps_opt: Option<u128>,
    /// Slots that the sweep visits.
    pub rr_touch_limit: u64,
    /// Kept in the request. The crank applies its own bound.
    pub rr_scan_limit: u64,
}

/// A request for whatever progress the market can make.
#[derive(Clone, Copy, Debug)]
pub struct PermissionlessProgressRequest<'a> {
    pub now_slot: u64,
    pub oracle_price: u64,
    /// Evidence for a recovery. Settlement still happens at the last price.
    pub authenticated_raw_target_price: u64,
    pub ordered_candidates: &'a [(u16, Option<LiquidationPolicy>)],
    pub account_hint: Option<u16>,
    pub max_revalidations: u16,
    pub max_candidate_inspections: u16,
    pub funding_rate_e9: i128,
    pub admit_h_min: u64,
    pub admit_h_max: u64,
    pub admit_h_max_consumption_threshold_bps_opt: Option<u128>,
    pub rr_touch_limit: u64,
    pub rr_scan_limit: u64,
    pub resolved_scan_limit: u64,
    pub resolved_fee_rate_per_slot: u128,
}

impl<'a> PermissionlessProgressRequest<'a> {
    /// Widens a keeper crank to a progress request.
    pub fn from_keeper_request(
        req: KeeperCrankRequest<'a>,
        authenticated_raw_target_price: u64,
        account_hint: Option<u16>,
        resolved_scan_limit: u64,
        resolved_fee_rate_per_slot: u128,
    ) -> (r: PermissionlessProgressRequest<'a>)
        ensures
            r == (PermissionlessProgressRequest {
                now_slot: req.now_slot,
                oracle_price: req.oracle_price,
                authenticated_raw_target_price,
                ordered_candidates: req.ordered_candidates,
                account_hint,
                max_revalidations: req.max_revalidations,
                max_candidate_inspections: req.max_candidate_inspections,
                funding_rate_e9: req.funding_rate_e9,
                admit_h_min: req.admit_h_min,
                admit_h_max: req.admit_h_max,
                admit_h_max_consumption_threshold_bps_opt: req.admit_h_max_consumption_threshold_bps_opt,
                rr_touch_limit: req.rr_touch_limit,
                rr_scan_limit: req.rr_scan_limit,
                resolved_scan_limit,
                resolved_fee_rate_per_slot,
            }),
    {
        PermissionlessProgressRequest {
            now_slot: req.now_slot,
            oracle_price: req.oracle_price,
            authenticated_raw_target_price,
            ordered_candidates: req.ordered_candidates,
            account_hint,
            max_revalidations: req.max_revalidations,
            max_candidate_inspections: req.max_candidate_inspections,
            funding_rate_e9: req.funding_rate_e9,
            admit_h_min: req.admit_h_min,
            admit_h_max: req.admit_h_max,
            admit_h_max_consumption_threshold_bps_opt: req.admit_h_max_consumption_threshold_bps_opt,
            rr_touch_limit: req.rr_touch_limit,
            rr_scan_limit: req.rr_scan_limit,
            resolved_scan_limit,
            resolved_fee_rate_per_slot,
        }
    }
}

impl<'a> KeeperCrankRequest<'a> {
    /// A crank that inspects as many candidates and slots as it can.
    pub fn full_scan(
        now_slot: u64,
        oracle_price: u64,
        ordered_candidates: &'a [(u16, Option<LiquidationPolicy>)],
        max_revalidations: u16,
        funding_rate_e9: i128,
        admit_h_min: u64,
        admit_h_max: u64,
        admit_h_max_consumption_threshold_bps_opt: Option<u128>,
        rr_touch_limit: u64,
    ) -> (r: KeeperCrankRequest<'a>)
        ensures
            r == (KeeperCrankRequest {
                now_slot,
                oracle_price,
                ordered_candidates,
                max_revalidations,
                max_candidate_inspections: MAX_TOUCHED_PER_INSTRUCTION as u16,
                funding_rate_e9,
                admit_h_min,
                admit_h_max,
                admit_h_max_consumption_threshold_bps_opt,
                rr_touch_limit,
                rr_scan_limit: u64::MAX,
            }),
    {
        KeeperCrankRequest {
            now_slot,
            oracle_price,
            ordered_candidates,
            max_revalidations,
            max_candidate_inspections: MAX_TOUCHED_PER_INSTRUCTION as u16,
            funding_rate_e9,
            admit_h_min,
            admit_h_max,
            admit_h_max_consumption_threshold_bps_opt,
            rr_touch_limit,
            rr_scan_limit: u64::MAX,
        }
    }
}

/// What one chunk of a residual booking would do.
#[derive(Clone, Copy, Debug, PartialEq, Eq, Structural)]
pub struct BResidualChunkPlan {
    /// Atoms of the residual that the chunk takes.
    pub booked: u128,
    /// Increase of the side's index `B`.
    pub delta_b: u128,
    /// Remainder carried to the next booking.
    pub rem_new: u128,
    /// Whether the chunk is recorded as unallocated loss instead.
    pub records_explicit: bool,
}

/// Indices after one accrual segment.
#[derive(Clone, Copy, Debug, PartialEq, Eq, Structural)]
pub struct AccrualSegmentPlan {
    pub k_long: i128,
    pub k_short: i128,
    pub f_long: i128,
    pub f_short: i128,
    /// Price movement and funding that the segment consumes.
    pub consumed_this_step: u128,
}

/// Outcome of scanning the sweep window.
#[derive(Clone, Copy, Debug, PartialEq, Eq, Structural)]
pub struct Phase2ScanOutcome {
    pub next_cursor: u64,
    pub inspected: u64,
    pub touched: u64,
    pub stress_counted_inspected: u64,
    pub wrapped: bool,
}

/// How far the market is from having nothing left to do.
#[derive(Clone, Copy, Debug, PartialEq, Eq, Structural)]
pub struct PermissionlessProgressRank {
    pub live_catchup_slots: u64,
    pub stress_envelope_indices: u64,
    pub active_close_residual_atoms: u128,
    pub resolved_blocker_units: u64,
}

impl PermissionlessProgressRank {
    /// Whether this rank comes strictly before `before` in the order of progress:
    /// catchup first, then the residual, then the blockers, then the envelope.
    pub open spec fn reduces_from(self, before: PermissionlessProgressRank) -> bool {
        ||| self.live_catchup_slots < before.live_catchup_slots
        ||| {
            &&& self.live_catchup_slots == before.live_catchup_slots
            &&& {
                ||| self.active_close_residual_atoms < before.active_close_residual_atoms
                ||| {
                    &&& self.active_close_residual_atoms == before.active_close_residual_atoms
                    &&& {
                        ||| self.resolved_blocker_units < before.resolved_blocker_units
                        ||| {
                            &&& self.resolved_blocker_units == before.resolved_blocker_units
                            &&& self.stress_envelope_indices < before.stress_envelope_indices
                        }
                    }
                }
            }
        }
    }

    /// Decides whether progress was made from `before` to this rank.
    pub fn strictly_reduces_from(&self, before: &PermissionlessProgressRank) -> (r: bool)
        ensures
            r == self.reduces_from(*before),
    {
        self.live_catchup_slots < before.live_catchup_slots
            || (self.live_catchup_slots == before.live_catchup_slots
                && self.active_close_residual_atoms < before.active_close_residual_atoms)
            || (self.live_catchup_slots == before.live_catchup_slots
                && self.active_close_residual_atoms == before.active_close_residual_atoms
                && self.resolved_blocker_units < before.resolved_blocker_units)
            || (self.live_catchup_slots == before.live_catchup_slots
                && self.active_close_residual_atoms == before.active_close_residual_atoms
                && self.resolved_blocker_units == before.resolved_blocker_units
                && self.stress_envelope_indices < before.stress_envelope_indices)
    }
}

/// Progress is a strict order: no rank reduces from itself, and two reductions in
/// a row are a reduction.
pub proof fn law_progress_rank_is_a_strict_order(
    a: PermissionlessProgressRank,
    b: PermissionlessProgressRank,
    c: PermissionlessProgressRank,
)
    ensures
        !a.reduces_from(a),
        a.reduces_from(b) ==> !b.reduces_from(a),
        a.reduces_from(b) && b.reduces_from(c) ==> a.reduces_from(c),
        a.reduces_from(b) || b.reduces_from(a) || a == b,
{
}

/// How far one account is from its `B` target.
#[derive(Clone, Copy, Debug, PartialEq, Eq, Structural)]
pub struct PermissionlessAccountProgressRank {
    pub account_b_remaining_num: u128,
}

} // verus!
