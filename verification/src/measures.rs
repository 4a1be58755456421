//! What an account holds, owns and needs, read off the stored state alone: the yardsticks
//! that the laws of the instructions are stated with.

use vstd::prelude::*;

use crate::types::{Account, MarketMode, RiskEngine};

verus! {

/// The smaller of two numbers.
pub open spec fn lesser(x: int, y: int) -> int {
    if x < y {
        x
    } else {
        y
    }
}

/// The larger of two numbers.
pub open spec fn greater(x: int, y: int) -> int {
    if x < y {
        y
    } else {
        x
    }
}

/// The size of a number, whatever its sign.
pub open spec fn size_of(x: int) -> int {
    if x < 0 {
        -x
    } else {
        x
    }
}

/// Worth of a quantity at a price, rounded up.
pub open spec fn worth_up(q: int, price: int) -> int {
    (size_of(q) * price + 999_999) / 1_000_000
}

impl Account {
    /// Fees that the account owes.
    pub open spec fn owes(self) -> int {
        if self.fee_credits.0 < 0 {
            -(self.fee_credits.0 as int)
        } else {
            0
        }
    }

    /// Capital and profit or loss, less the fees that the account owes.
    pub open spec fn owns(self) -> int {
        self.capital.0 + self.pnl - self.owes()
    }

    /// Profit of the account, zero if it has a loss.
    pub open spec fn profit(self) -> int {
        if self.pnl > 0 {
            self.pnl as int
        } else {
            0
        }
    }

    /// Loss of the account, zero if it has a profit.
    pub open spec fn loss(self) -> int {
        if self.pnl < 0 {
            -(self.pnl as int)
        } else {
            0
        }
    }

    /// All that the position of the account is: its basis, and the indices, the multiplier
    /// and the epoch that it was attached at.
    pub open spec fn stance(self) -> (i128, u128, i128, i128, u64) {
        (
            self.position_basis_q,
            self.adl_a_basis,
            self.adl_k_snap,
            self.f_snap,
            self.adl_epoch_snap,
        )
    }
}

impl RiskEngine {
    /// What account `i` holds: its basis times the multiplier of its side over that at its
    /// attachment, toward zero, and nothing of an epoch that is over.
    pub open spec fn held(self, i: int) -> int {
        let a = self.accounts@[i];
        let b = a.position_basis_q as int;
        let of = a.adl_a_basis as int;
        if b > 0 && a.adl_epoch_snap == self.adl_epoch_long {
            b * self.adl_mult_long / of
        } else if b < 0 && a.adl_epoch_snap == self.adl_epoch_short {
            -((-b) * self.adl_mult_short / of)
        } else {
            0
        }
    }

    /// What a holding needs to be opened: a share of its worth, and at least the floor.
    pub open spec fn need_to_open(self, q: int, price: int) -> int {
        greater(
            worth_up(q, price) * self.params.initial_margin_bps / 10_000,
            self.params.min_nonzero_im_req as int,
        )
    }

    /// What a holding needs to be kept: a share of its worth, and at least the floor.
    pub open spec fn need_to_keep(self, q: int, price: int) -> int {
        greater(
            worth_up(q, price) * self.params.maintenance_margin_bps / 10_000,
            self.params.min_nonzero_mm_req as int,
        )
    }

    /// What the vault holds beyond all capital and the insurance fund.
    pub open spec fn backing(self) -> int {
        greater(self.vault.0 - self.c_tot.0 - self.insurance_fund.balance.0, 0)
    }

    /// Profit of an account that has left warmup.
    pub open spec fn ripe(self, a: Account) -> int {
        if self.market_mode == MarketMode::Resolved {
            a.profit()
        } else {
            a.profit() - a.reserved_pnl
        }
    }

    /// What ripe profit is worth: all of it, or its share in the backing.
    pub open spec fn ripe_worth(self, x: int) -> int {
        if self.pnl_matured_pos_tot <= self.backing() {
            x
        } else {
            x * self.backing() / (self.pnl_matured_pos_tot as int)
        }
    }

    /// What an account can carry a withdrawal with: capital less losses and owed fees, and
    /// what its ripe profit is worth.
    pub open spec fn can_carry(self, i: int) -> int {
        let a = self.accounts@[i];
        a.capital.0 - a.loss() - a.owes() + self.ripe_worth(self.ripe(a))
    }

    /// What an account can open a position with, where a trade has just gained it `gain`:
    /// capital less losses and owed fees, and the share in the backing of its profit, all of
    /// that without the gain.
    pub open spec fn can_open(self, a: Account, gain: int) -> int {
        let without = a.pnl - greater(gain, 0);
        let profit = greater(a.profit() - greater(gain, 0), 0);
        let all = self.pnl_pos_tot - a.profit() + profit;
        a.capital.0 + lesser(without, 0) - a.owes() + if all <= self.backing() {
            profit
        } else {
            profit * self.backing() / all
        }
    }

    /// Whether account `i` can be left alone at a price: it owns more than its holding needs,
    /// or more than nothing if it holds nothing.
    pub open spec fn is_healthy(self, i: int, price: int) -> bool {
        let owns = self.accounts@[i].owns();
        &&& owns <= i128::MAX
        &&& if self.held(i) == 0 {
            owns > 0
        } else {
            &&& worth_up(self.held(i), price) <= u128::MAX
            &&& owns > self.need_to_keep(self.held(i), price)
        }
    }
}

} // verus!
