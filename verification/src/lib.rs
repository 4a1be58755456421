//! Risk engine of a perpetual futures market: one vault, one oracle, two sides,
//! and accounts whose profits mature, are haircut, and settle against shared
//! indices.

pub mod accrual;
pub mod accrual_laws;
pub mod adl;
pub mod admission_laws;
pub mod bankruptcy;
pub mod books;
pub mod closing;
pub mod closing_laws;
pub mod conservation;
pub mod constants;
pub mod context;
pub mod crank_laws;
pub mod deposits;
pub mod dispatch_laws;
pub mod envelope;
pub mod envelope_laws;
pub mod equity;
pub mod execution;
pub mod frames;
pub mod gate_laws;
pub mod history;
pub mod instruction_laws;
pub mod instructions;
pub mod insurance;
pub mod int128;
pub mod isolation;
pub mod keeper;
pub mod liquidation;
pub mod liquidation_laws;
pub mod loss_laws;
pub mod losses;
pub mod margin_laws;
pub mod market_laws;
pub mod measures;
pub mod payout_laws;
pub mod pnl;
pub mod positions;
pub mod post;
pub mod profit_laws;
pub mod progress_laws;
pub mod recovery;
pub mod reserve;
pub mod resolution_laws;
pub mod resolve;
pub mod settlement_laws;
pub mod shape;
pub mod side_laws;
pub mod sides;
pub mod slab;
pub mod solvency_laws;
pub mod state_laws;
pub mod stress;
pub mod stress_laws;
pub mod trade;
pub mod trade_laws;
pub mod treasury_laws;
pub mod types;
pub mod upkeep_laws;
pub mod warmup_laws;
pub mod wide_math;

pub use constants::{
    ACTIVE_CLOSE_MAX_RESIDUAL_B_CHUNKS, ACTIVE_CLOSE_PHASE_NONE, ACTIVE_CLOSE_PHASE_RESIDUAL_B,
    ACTIVE_CLOSE_SIDE_LONG, ACTIVE_CLOSE_SIDE_NONE, ACTIVE_CLOSE_SIDE_SHORT, ADL_ONE, BITMAP_WORDS,
    FUNDING_DEN, MAX_ABS_FUNDING_E9_PER_SLOT, MAX_ACCOUNTS, MAX_ACCOUNT_NOTIONAL,
    MAX_ACCOUNT_POSITIVE_PNL, MAX_LIQUIDATION_FEE_BPS, MAX_MARGIN_BPS, MAX_OI_SIDE_Q,
    MAX_ORACLE_PRICE, MAX_PNL_POS_TOT, MAX_POSITION_ABS_Q, MAX_PROTOCOL_FEE_ABS,
    MAX_RESOLVE_PRICE_DEVIATION_BPS, MAX_ROUNDING_SLACK, MAX_TOUCHED_PER_INSTRUCTION,
    MAX_TRADE_SIZE_Q, MAX_TRADING_FEE_BPS, MAX_VAULT_TVL, MAX_WARMUP_SLOTS, MIN_A_SIDE, NO_SLOT,
    POS_SCALE, PRICE_MOVE_CONSUMPTION_SCALE, PUBLIC_ACCOUNT_B_SETTLEMENT_LOSS_ATOMS,
    PUBLIC_B_CHUNK_ATOMS, SOCIAL_LOSS_DEN, SOCIAL_WEIGHT_SCALE, STRESS_CONSUMPTION_SCALE,
};
pub use context::InstructionContext;
pub use int128::{I128, U128};
pub use trade::{checked_u128_mul_i128, compute_trade_pnl};
pub use types::{
    Account, AccrualSegmentPlan, BResidualChunkPlan, CrankOutcome, InsuranceFund,
    KeeperCrankRequest, LiquidationPolicy, MarketMode, PermissionlessAccountProgressRank,
    PermissionlessProgressOutcome, PermissionlessProgressRank, PermissionlessProgressRequest,
    Phase2ScanOutcome, RecoveryReason, ReserveMode, ResolveMode, ResolvedCloseResult, RiskEngine,
    RiskError, RiskParams, Side, SideMode,
};
