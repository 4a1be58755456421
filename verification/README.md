# percolator

A risk engine for perpetual futures markets, with its behaviour stated in contracts
and proved by Verus.

A market holds one vault, an insurance fund, and a fixed number of accounts. Three
mechanisms keep it solvent:

- profit is a junior claim: it waits in warmup and is scaled by the haircut
  `min(residual, matured) / matured`, so that all claims together never exceed what
  the vault holds beyond capital and insurance;
- positions settle lazily against the indices of their side, so that no account is
  singled out when another one goes bankrupt;
- prices and funding move only inside a budget for each window, and the maintenance
  requirement covers the whole budget and the liquidation fee.

## Layout

- `types`, `constants`, `int128`, `wide_math`, `context`: state, scales, and wide
  arithmetic.
- `envelope`, `shape`, `sides`, `slab`, `reserve`, `stress`, `pnl`, `positions`,
  `equity`, `post`, `accrual`, `bankruptcy`, `adl`, `losses`: the parts of the engine.
- `instructions`, `trade`, `execution`, `liquidation`, `keeper`, `closing`, `resolve`,
  `recovery`, `insurance`: the instructions that callers send.
- `books`, `conservation`, `history`: the totals are the sums over the accounts, value
  enters and leaves the vault only by what an instruction moves, and the clock, the
  sides and a settlement only move on.
- `deposits`: an account without a position keeps its deposit whatever else happens,
  and can withdraw it.
- `envelope_laws`, `solvency_laws`, `profit_laws`, `isolation`, `market_laws`,
  `accrual_laws`, `closing_laws`, `resolution_laws`: what holds of the engine as a whole.
- `progress_laws`, `stress_laws`, `dispatch_laws`: how far a market is from having nothing
  left to do, and what a request that anyone may send does about it.

A market has room for `MAX_ACCOUNTS` accounts, held inline.

Each operation has a specification that gives the state after it and its result, for
success and for every refusal. Instructions whose name ends in `_not_atomic` may leave
a partly changed state behind when they fail; their callers roll it back.
