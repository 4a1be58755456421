//! Scales, bounds and sentinels of the risk engine.

use vstd::prelude::*;

verus! {

/// Number of account slots in one market.
pub const MAX_ACCOUNTS: usize = 64;

/// Words of a bitmap with one bit for each account slot.
pub const BITMAP_WORDS: usize = (MAX_ACCOUNTS + 63) / 64;

/// Atoms that per-account rounding may leave behind over a whole market.
pub const MAX_ROUNDING_SLACK: u128 = MAX_ACCOUNTS as u128;

/// Fixed-point scale of a position quantity.
pub const POS_SCALE: u128 = 1_000_000;

/// Fixed-point one of the side multipliers `A`.
pub const ADL_ONE: u128 = 1_000_000_000_000_000;

/// Scale by which a basis becomes a loss weight.
pub const SOCIAL_WEIGHT_SCALE: u128 = ADL_ONE;

/// Smallest side multiplier with which a side stays in normal mode.
pub const MIN_A_SIDE: u128 = 100_000_000_000_000;

/// Largest oracle price that the engine accepts.
pub const MAX_ORACLE_PRICE: u64 = 1_000_000_000_000;

/// Denominator of the funding indices `F`.
pub const FUNDING_DEN: u128 = 1_000_000_000;

/// Scale of the consumed price movement, in parts of a basis point.
pub const PRICE_MOVE_CONSUMPTION_SCALE: u128 = 1_000_000_000;

/// Scale of the consumption that a stress envelope records.
pub const STRESS_CONSUMPTION_SCALE: u128 = 1_000_000_000;

/// Marks a slot or a generation that was never observed.
pub const NO_SLOT: u64 = u64::MAX;

/// Phase of a bankrupt close: none is in flight.
pub const ACTIVE_CLOSE_PHASE_NONE: u8 = 0;

/// Phase of a bankrupt close: a residual is being booked to the `B` index.
pub const ACTIVE_CLOSE_PHASE_RESIDUAL_B: u8 = 1;

/// Encoded side of a bankrupt close: no side.
pub const ACTIVE_CLOSE_SIDE_NONE: u8 = 0;

/// Encoded side of a bankrupt close: long.
pub const ACTIVE_CLOSE_SIDE_LONG: u8 = 1;

/// Encoded side of a bankrupt close: short.
pub const ACTIVE_CLOSE_SIDE_SHORT: u8 = 2;

/// Chunks that one bankrupt close may book before recovery has to end it.
pub const ACTIVE_CLOSE_MAX_RESIDUAL_B_CHUNKS: u64 = 1;

/// Denominator of the `B` index and of the loss weights.
pub const SOCIAL_LOSS_DEN: u128 = 1_000_000_000_000_000_000_000;

/// Largest residual that one booking chunk takes.
pub const PUBLIC_B_CHUNK_ATOMS: u128 = MAX_VAULT_TVL;

/// Largest loss that one account settles against the `B` index in one chunk.
pub const PUBLIC_ACCOUNT_B_SETTLEMENT_LOSS_ATOMS: u128 = MAX_VAULT_TVL;

/// Largest absolute funding rate per slot, in parts per billion.
pub const MAX_ABS_FUNDING_E9_PER_SLOT: i128 = 10_000;

/// Largest value that the vault holds.
pub const MAX_VAULT_TVL: u128 = 10_000_000_000_000_000;

/// Largest absolute position of one account.
pub const MAX_POSITION_ABS_Q: u128 = 100_000_000_000_000;

/// Largest risk notional of one account.
pub const MAX_ACCOUNT_NOTIONAL: u128 = 100_000_000_000_000_000_000;

/// Largest quantity of one trade.
pub const MAX_TRADE_SIZE_Q: u128 = MAX_POSITION_ABS_Q;

/// Largest open interest of one side.
pub const MAX_OI_SIDE_Q: u128 = 100_000_000_000_000;

/// Largest positive profit of one account.
pub const MAX_ACCOUNT_POSITIVE_PNL: u128 = 100_000_000_000_000_000_000_000_000_000_000;

/// Largest sum of the positive profits of all accounts.
pub const MAX_PNL_POS_TOT: u128 = 100_000_000_000_000_000_000_000_000_000_000_000_000;

/// Largest trading fee, in basis points.
pub const MAX_TRADING_FEE_BPS: u64 = 10_000;

/// Largest margin, in basis points.
pub const MAX_MARGIN_BPS: u64 = 10_000;

/// Largest liquidation fee, in basis points.
pub const MAX_LIQUIDATION_FEE_BPS: u64 = 10_000;

/// Largest fee that is charged at once.
pub const MAX_PROTOCOL_FEE_ABS: u128 = 1_000_000_000_000_000_000_000_000_000_000_000_000;

/// Largest warmup horizon.
pub const MAX_WARMUP_SLOTS: u64 = u64::MAX;

/// Largest deviation of a settlement price from the last oracle price.
pub const MAX_RESOLVE_PRICE_DEVIATION_BPS: u64 = 10_000;

/// Accounts that one instruction can touch.
pub const MAX_TOUCHED_PER_INSTRUCTION: usize = 256;

/// Bytes of a key.
pub const KEY_BYTES: usize = 32;

} // verus!
