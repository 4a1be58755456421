//! How losses that nobody covers are shared out, step by step.

use vstd::prelude::*;

use crate::bankruptcy::law_account_b_settlement_is_exact;
use crate::books::lemma_ledger_of_account;
use crate::constants::{MAX_ACCOUNTS, PUBLIC_ACCOUNT_B_SETTLEMENT_LOSS_ATOMS};
use crate::context::InstructionContext;
use crate::envelope::lemma_ceil_by_adding;
use crate::frames::frame_set_pnl;
use crate::measures::{greater, lesser};
use crate::types::{Account, ReserveMode, RiskEngine, Side};

verus! {

/// The weight of a position in shared losses is its size before any shrinking, rounded up;
/// and a position of no size has none.
pub proof fn law_loss_weight_is_the_full_size(basis: u128, a_basis: u128)
    ensures
        ({
            let r = RiskEngine::loss_weight_for_basis_spec(basis, a_basis);
            let w = (basis * 1_000_000_000_000_000 + a_basis - 1) / (a_basis as int);
            &&& r is Ok <==> 0 < basis && 0 < a_basis && w <= 1_000_000_000_000_000_000_000
            &&& r is Ok ==> r->Ok_0 == w
        }),
{
    assert(basis * 1_000_000_000_000_000 >= 0) by (nonlinear_arith);
    if a_basis > 0 {
        lemma_ceil_by_adding(basis * 1_000_000_000_000_000, a_basis as int);
    }
}

/// Stored positions are counted on the side that they are on: one that goes is taken off its
/// side, one that comes is added to its own.
pub proof fn law_stored_positions_are_counted(e: RiskEngine, i: int, basis: i128, spike: bool)
    requires
        0 <= i < MAX_ACCOUNTS,
        e.set_position_basis_q_inner_spec(i, basis, spike).1 is Ok,
    ensures
        ({
            let s = e.set_position_basis_q_inner_spec(i, basis, spike).0;
            let before = e.accounts@[i].position_basis_q;
            let one = |b: bool|
                if b {
                    1int
                } else {
                    0
                };
            &&& s.accounts@[i].position_basis_q == basis
            &&& s.stored_pos_count_long == e.stored_pos_count_long - one(before > 0) + one(
                basis > 0,
            )
            &&& s.stored_pos_count_short == e.stored_pos_count_short - one(before < 0) + one(
                basis < 0,
            )
            &&& !spike ==> s.stored_pos_count_long <= e.params.max_active_positions_per_side
                && s.stored_pos_count_short <= e.params.max_active_positions_per_side
        }),
{
    broadcast use lemma_ledger_of_account;

    reveal(RiskEngine::set_position_basis_q_inner_spec);
}

/// An account settles shared losses in steps that go as far as they may: a step that does
/// not reach its target would lose more than the limit if it went one further.
pub proof fn law_loss_step_goes_as_far_as_it_may(a: Account, target: u128, limit: u128)
    requires
        RiskEngine::account_b_chunk_spec(a, target, limit) is Ok,
    ensures
        ({
            let (delta, loss, _, reached) = RiskEngine::account_b_chunk_spec(
                a,
                target,
                limit,
            )->Ok_0;
            let most = lesser(limit as int, 10_000_000_000_000_000);
            !reached ==> (most + 1) * 1_000_000_000_000_000_000_000 <= a.loss_weight * (delta + 1)
                + a.b_rem
        }),
{
    let w = a.loss_weight as int;
    let room = RiskEngine::max_loss_num(limit) - a.b_rem;
    let q = room / w;
    if w > 0 {
        vstd::arithmetic::div_mod::lemma_fundamental_div_mod(room, w);
        assert(room < w * (q + 1)) by (nonlinear_arith)
            requires
                room == w * q + room % w,
                room % w < w,
        ;
        vstd::arithmetic::div_mod::lemma_div_pos_is_pos(room, w);
        if q > target - a.b_snap {
        } else {
            assert(q <= u128::MAX);
        }
    }
}

/// A chunk of a loss is booked on a side as far as the budget and the index allow: what is
/// booked is all of the residual or of the budget, or one more atom would not fit the index.
pub proof fn law_loss_chunk_books_as_much_as_it_may(
    e: RiskEngine,
    side: Side,
    residual: u128,
    budget: u128,
)
    requires
        residual > 0,
        e.residual_chunk_spec(side, residual, budget) is Ok,
    ensures
        ({
            let plan = e.residual_chunk_spec(side, residual, budget)->Ok_0;
            let (w, b, rem) = match side {
                Side::Long => (
                    e.loss_weight_sum_long as int,
                    e.b_long_num as int,
                    e.social_loss_remainder_long_num as int,
                ),
                Side::Short => (
                    e.loss_weight_sum_short as int,
                    e.b_short_num as int,
                    e.social_loss_remainder_short_num as int,
                ),
            };
            let den = 1_000_000_000_000_000_000_000int;
            let most = lesser(
                residual as int,
                greater(1, lesser(budget as int, 10_000_000_000_000_000)),
            );
            &&& plan.records_explicit <==> w == 0
            &&& w == 0 ==> plan.booked == residual
            &&& w != 0 ==> {
                &&& 0 < plan.booked <= most
                &&& plan.booked < most ==> (u128::MAX - b) * w - rem < (plan.booked + 1) * den
            }
        }),
{
    reveal(RiskEngine::residual_chunk_spec);
    let room = e.b_headroom(side) * e.get_loss_weight_sum(side) - e.get_social_remainder(side);
    vstd::arithmetic::div_mod::lemma_fundamental_div_mod(room, 1_000_000_000_000_000_000_000);
}

/// Ending a close that cannot go on puts what it had left to book on record, on the side
/// that it was to be booked on, and clears the close.
pub proof fn law_ended_close_is_on_record(e: RiskEngine)
    requires
        e.complete_close_spec().1 is Ok,
    ensures
        ({
            let s = e.complete_close_spec().0;
            let rest = e.active_close_residual_remaining as int;
            let long = e.explicit_unallocated_loss_long.0 + rest;
            let short = e.explicit_unallocated_loss_short.0 + rest;
            &&& e.active_close_present != 0
            &&& s.active_close_present == 0
            &&& s.active_close_residual_remaining == 0
            &&& e.active_close_opp_side == 1 ==> {
                &&& s.explicit_unallocated_loss_long.0 == lesser(long, u128::MAX as int)
                &&& s.explicit_unallocated_loss_short == e.explicit_unallocated_loss_short
            }
            &&& e.active_close_opp_side == 2 ==> {
                &&& s.explicit_unallocated_loss_short.0 == lesser(short, u128::MAX as int)
                &&& s.explicit_unallocated_loss_long == e.explicit_unallocated_loss_long
            }
            &&& s.accounts == e.accounts
            &&& s.vault == e.vault
            &&& s.insurance_fund == e.insurance_fund
        }),
{
    reveal(RiskEngine::complete_close_spec);
    reveal(RiskEngine::close_is_stuck);
}

/// A step of an account towards its share in losses is paid by the account, to the last
/// fraction: its profit falls by what its weight makes of the step, and the fraction that
/// is left is carried on.
pub proof fn law_loss_step_is_paid_by_the_account(e: RiskEngine, i: int, ctx: InstructionContext)
    requires
        0 <= i < MAX_ACCOUNTS,
        e.b_chunk_drained(i, ctx).2 is Ok,
    ensures
        ({
            let s = e.b_chunk_drained(i, ctx).0;
            let a = e.accounts@[i];
            let b = s.accounts@[i];
            let den = 1_000_000_000_000_000_000_000int;
            &&& a.b_snap <= b.b_snap
            &&& 0 <= b.b_rem < den
            &&& (a.pnl - b.pnl) * den + b.b_rem == a.loss_weight * (b.b_snap - a.b_snap)
                + a.b_rem
            &&& b.pnl <= a.pnl
            &&& b.capital == a.capital
            &&& b.stance() == a.stance()
            &&& s.vault == e.vault
            &&& s.insurance_fund == e.insurance_fund
        }),
{
    broadcast use {lemma_ledger_of_account, frame_set_pnl, profit_moves_no_share};

    reveal(RiskEngine::b_chunk_drained);
    let a = e.accounts@[i];
    let target = e.b_target_spec(a, crate::sides::some_side(a.position_basis_q));
    if target is Ok && RiskEngine::account_b_chunk_spec(
        a,
        target->Ok_0,
        PUBLIC_ACCOUNT_B_SETTLEMENT_LOSS_ATOMS,
    ) is Ok {
        law_account_b_settlement_is_exact(a, target->Ok_0, PUBLIC_ACCOUNT_B_SETTLEMENT_LOSS_ATOMS);
    }
}

broadcast proof fn profit_moves_no_share(
    e: RiskEngine,
    i: int,
    new_pnl: i128,
    mode: ReserveMode,
    ctx: Option<InstructionContext>,
)
    requires
        0 <= i < MAX_ACCOUNTS,
    ensures
        ({
            let s = (#[trigger] e.set_pnl_with_reserve_spec(i, new_pnl, mode, ctx)).0;
            &&& s.accounts@[i].b_snap == e.accounts@[i].b_snap
            &&& s.accounts@[i].b_rem == e.accounts@[i].b_rem
            &&& s.accounts@[i].loss_weight == e.accounts@[i].loss_weight
        }),
{
    broadcast use lemma_ledger_of_account;

    reveal(RiskEngine::set_pnl_with_reserve_spec);
    reveal(RiskEngine::append_or_route_new_reserve_spec);
    reveal(RiskEngine::admit_fresh_reserve_h_lock_spec);
    reveal(RiskEngine::apply_reserve_loss_newest_first_spec);
}

} // verus!
