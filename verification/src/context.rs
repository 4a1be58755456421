//! What one instruction carries along: resets to come, the admission pair, and the
//! accounts it has touched.

use vstd::prelude::*;

use crate::constants::{
    BITMAP_WORDS, MAX_ACCOUNTS, MAX_TOUCHED_PER_INSTRUCTION, PRICE_MOVE_CONSUMPTION_SCALE,
};
use crate::types::Side;

verus! {

/// State of one instruction.
pub struct InstructionContext {
    pub pending_reset_long: bool,
    pub pending_reset_short: bool,
    /// The instruction has met a loss that principal does not cover.
    pub bankruptcy_hmax_candidate_active: bool,
    /// The instruction has used positive profit.
    pub positive_pnl_usability_mutated: bool,
    /// The instruction has started the stress envelope anew.
    pub stress_envelope_restarted: bool,
    pub speculative_hmax_guard_active: bool,
    pub partial_b_settlement_active: bool,
    pub admit_h_min_shared: u64,
    pub admit_h_max_shared: u64,
    /// Scaled consumption from which new profit gets the longest horizon.
    pub admit_h_max_consumption_threshold_bps_opt_shared: Option<u128>,
    /// Touched accounts, ascending and without repetition up to `touched_count`.
    pub touched_accounts: [u16; MAX_TOUCHED_PER_INSTRUCTION],
    pub touched_count: u16,
    /// One bit for each account that got the longest horizon.
    pub h_max_sticky_bitmap: [u64; BITMAP_WORDS],
}

/// Whether bit `b` of `w` is set.
pub open spec fn bit_is_set(w: u64, b: u64) -> bool {
    (w >> b) & 1u64 == 1u64
}

/// The array with these elements.
pub open spec fn array_of<T, const N: usize>(s: Seq<T>) -> [T; N] {
    choose|a: [T; N]| a@ == s
}

/// An array is determined by its elements.
pub proof fn lemma_array_of<T, const N: usize>(a: [T; N])
    ensures
        array_of::<T, N>(a@) == a,
{
    let c = array_of::<T, N>(a@);
    assert(c@ == a@);
    assert forall|i: int| 0 <= i < N implies c[i] == a[i] by {
        assert(c@[i] == a@[i]);
    }
    assert(c =~= a);
}

proof fn lemma_array_prefix<T, const N: usize>(base: [T; N], s: Seq<T>, n: int) -> (a: [T; N])
    requires
        s.len() == N,
        0 <= n <= N,
    ensures
        forall|i: int| 0 <= i < n ==> a@[i] == s[i],
    decreases n,
{
    if n == 0 {
        base
    } else {
        let b = lemma_array_prefix(base, s, n - 1);
        vstd::array::spec_array_update(b, n - 1, s[n - 1])
    }
}

/// Every sequence of the right length is the content of an array.
pub proof fn lemma_array_of_seq<T, const N: usize>(base: [T; N], s: Seq<T>)
    requires
        s.len() == N,
    ensures
        array_of::<T, N>(s)@ == s,
{
    let a = lemma_array_prefix(base, s, N as int);
    assert(a@ =~= s);
}

/// Where `idx` belongs in an ascending sequence: behind the last smaller element.
pub open spec fn insertion_point(s: Seq<u16>, idx: u16) -> int
    decreases s.len(),
{
    if s.len() == 0 {
        0
    } else if s.last() < idx {
        s.len() as int
    } else {
        insertion_point(s.drop_last(), idx)
    }
}

/// Where an element belongs lies within the sequence.
pub proof fn lemma_insertion_point_in_range(s: Seq<u16>, idx: u16)
    ensures
        0 <= insertion_point(s, idx) <= s.len(),
    decreases s.len(),
{
    if s.len() > 0 && s.last() >= idx {
        lemma_insertion_point_in_range(s.drop_last(), idx);
    }
}

proof fn lemma_insertion_point(s: Seq<u16>, idx: u16, p: int)
    requires
        0 <= p <= s.len(),
        forall|i: int| 0 <= i < p ==> #[trigger] s[i] < idx,
        forall|i: int| p <= i < s.len() ==> #[trigger] s[i] > idx,
    ensures
        insertion_point(s, idx) == p,
    decreases s.len(),
{
    if s.len() > 0 && !(s.last() < idx) {
        assert(p < s.len());
        lemma_insertion_point(s.drop_last(), idx, p);
    }
}

/// Setting a bit sets that bit alone.
pub proof fn lemma_bit_set(w: u64, b: u64, c: u64)
    requires
        b < 64,
        c < 64,
    ensures
        bit_is_set(w | (1u64 << b), c) == (b == c || bit_is_set(w, c)),
{
    assert(((w | (1u64 << b)) >> c) & 1u64 == 1u64 <==> (b == c || (w >> c) & 1u64 == 1u64))
        by (bit_vector)
        requires
            b < 64,
            c < 64,
    ;
}

/// Clearing a bit clears that bit alone.
pub proof fn lemma_bit_clear(w: u64, b: u64, c: u64)
    requires
        b < 64,
        c < 64,
    ensures
        bit_is_set(w & !(1u64 << b), c) == (b != c && bit_is_set(w, c)),
{
    assert(((w & !(1u64 << b)) >> c) & 1u64 == 1u64 <==> (b != c && (w >> c) & 1u64 == 1u64))
        by (bit_vector)
        requires
            b < 64,
            c < 64,
    ;
}

/// Zero has no bit set.
pub proof fn lemma_no_bit_of_zero(c: u64)
    requires
        c < 64,
    ensures
        !bit_is_set(0u64, c),
{
    assert((0u64 >> c) & 1u64 != 1u64) by (bit_vector)
        requires
            c < 64,
    ;
}

impl InstructionContext {
    /// The touched accounts.
    pub open spec fn touched(self) -> Seq<u16> {
        self.touched_accounts@.take(self.touched_count as int)
    }

    /// The touched accounts are ascending and without repetition.
    pub open spec fn wf(self) -> bool {
        &&& self.touched_count <= MAX_TOUCHED_PER_INSTRUCTION
        &&& forall|i: int, j: int|
            0 <= i < j < self.touched_count ==> #[trigger] self.touched_accounts@[i]
                < #[trigger] self.touched_accounts@[j]
    }

    /// The state at the start of an instruction.
    pub open spec fn fresh(
        admit_h_min: u64,
        admit_h_max: u64,
        threshold_scaled: Option<u128>,
    ) -> InstructionContext {
        InstructionContext {
            pending_reset_long: false,
            pending_reset_short: false,
            bankruptcy_hmax_candidate_active: false,
            positive_pnl_usability_mutated: false,
            stress_envelope_restarted: false,
            speculative_hmax_guard_active: false,
            partial_b_settlement_active: false,
            admit_h_min_shared: admit_h_min,
            admit_h_max_shared: admit_h_max,
            admit_h_max_consumption_threshold_bps_opt_shared: threshold_scaled,
            touched_accounts: [0u16; MAX_TOUCHED_PER_INSTRUCTION],
            touched_count: 0,
            h_max_sticky_bitmap: [0u64; BITMAP_WORDS],
        }
    }

    /// A threshold in basis points on the scale of the consumption counter.
    pub open spec fn scaled_threshold(threshold_opt: Option<u128>) -> Option<u128> {
        match threshold_opt {
            None => None,
            Some(t) => Some(
                crate::wide_math::min_int(
                    t * PRICE_MOVE_CONSUMPTION_SCALE,
                    u128::MAX as int,
                ) as u128,
            ),
        }
    }

    /// An instruction with no admission pair.
    pub fn new() -> (r: InstructionContext)
        ensures
            r == InstructionContext::fresh(0, 0, None),
            r.wf(),
            r.touched() == Seq::<u16>::empty(),
    {
        Self::new_with_admission(0, 0)
    }

    /// An instruction with an admission pair.
    pub fn new_with_admission(admit_h_min: u64, admit_h_max: u64) -> (r: InstructionContext)
        ensures
            r == InstructionContext::fresh(admit_h_min, admit_h_max, None),
            r.wf(),
            r.touched() == Seq::<u16>::empty(),
    {
        Self::new_with_admission_and_threshold(admit_h_min, admit_h_max, None)
    }

    /// An instruction with an admission pair and a consumption threshold in basis
    /// points.
    pub fn new_with_admission_and_threshold(
        admit_h_min: u64,
        admit_h_max: u64,
        threshold_opt: Option<u128>,
    ) -> (r: InstructionContext)
        ensures
            r == InstructionContext::fresh(
                admit_h_min,
                admit_h_max,
                InstructionContext::scaled_threshold(threshold_opt),
            ),
            r.wf(),
            r.touched() == Seq::<u16>::empty(),
    {
        let threshold_scaled: Option<u128> = match threshold_opt {
            None => None,
            Some(t) => match t.checked_mul(PRICE_MOVE_CONSUMPTION_SCALE) {
                Some(v) => Some(v),
                None => Some(u128::MAX),
            },
        };
        InstructionContext {
            pending_reset_long: false,
            pending_reset_short: false,
            bankruptcy_hmax_candidate_active: false,
            positive_pnl_usability_mutated: false,
            stress_envelope_restarted: false,
            speculative_hmax_guard_active: false,
            partial_b_settlement_active: false,
            admit_h_min_shared: admit_h_min,
            admit_h_max_shared: admit_h_max,
            admit_h_max_consumption_threshold_bps_opt_shared: threshold_scaled,
            touched_accounts: [0u16; MAX_TOUCHED_PER_INSTRUCTION],
            touched_count: 0,
            h_max_sticky_bitmap: [0u64; BITMAP_WORDS],
        }
    }

    /// Records that positive profit was used.
    pub fn mark_positive_pnl_usability(&mut self)
        ensures
            *final(self) == (InstructionContext {
                positive_pnl_usability_mutated: true,
                ..*old(self)
            }),
    {
        self.positive_pnl_usability_mutated = true;
    }

    /// Whether account `i` got the longest horizon.
    pub open spec fn sticky(self, i: int) -> bool {
        0 <= i < MAX_ACCOUNTS && bit_is_set(self.h_max_sticky_bitmap@[i / 64], (i % 64) as u64)
    }

    /// Whether account `idx` got the longest horizon.
    pub fn is_h_max_sticky(&self, idx: u16) -> (r: bool)
        ensures
            r == self.sticky(idx as int),
    {
        let i: usize = idx as usize;
        if i >= MAX_ACCOUNTS {
            return false;
        }
        let word: usize = i / 64;
        let bit: u64 = (i % 64) as u64;
        (self.h_max_sticky_bitmap[word] >> bit) & 1u64 == 1u64
    }

    /// The context with account `i` marked.
    pub open spec fn with_sticky(self, i: int) -> InstructionContext {
        if 0 <= i < MAX_ACCOUNTS {
            InstructionContext {
                h_max_sticky_bitmap: vstd::array::spec_array_update(
                    self.h_max_sticky_bitmap,
                    i / 64,
                    self.h_max_sticky_bitmap@[i / 64] | (1u64 << ((i % 64) as u64)),
                ),
                ..self
            }
        } else {
            self
        }
    }

    /// Marks account `idx`. Fails if there is no such slot.
    pub fn mark_h_max_sticky(&mut self, idx: u16) -> (r: bool)
        ensures
            r == (idx < MAX_ACCOUNTS),
            *final(self) == old(self).with_sticky(idx as int),
            forall|j: int|
                #[trigger] final(self).sticky(j) == (old(self).sticky(j) || (r && j == idx)),
            old(self).wf() ==> final(self).wf(),
            final(self).touched() == old(self).touched(),
    {
        let i: usize = idx as usize;
        if i >= MAX_ACCOUNTS {
            return false;
        }
        let word: usize = i / 64;
        let bit: u64 = (i % 64) as u64;
        let v: u64 = self.h_max_sticky_bitmap[word] | (1u64 << bit);
        self.h_max_sticky_bitmap[word] = v;
        proof {
            assert forall|j: int|
                #[trigger] self.sticky(j) == (old(self).sticky(j) || j == idx) by {
                if 0 <= j < MAX_ACCOUNTS {
                    if j / 64 == word {
                        lemma_bit_set(
                            old(self).h_max_sticky_bitmap@[word as int],
                            bit,
                            (j % 64) as u64,
                        );
                    }
                }
            }
        }
        true
    }

    /// The context with `idx` among the touched accounts, and whether there was
    /// room for it.
    pub open spec fn add_touched_spec(self, idx: u16) -> (InstructionContext, bool) {
        if self.touched().contains(idx) {
            (self, true)
        } else if self.touched_count >= MAX_TOUCHED_PER_INSTRUCTION {
            (self, false)
        } else {
            (
                InstructionContext {
                    touched_accounts: array_of(
                        self.touched_accounts@.remove(self.touched_count as int).insert(
                            insertion_point(self.touched(), idx),
                            idx,
                        ),
                    ),
                    touched_count: (self.touched_count + 1) as u16,
                    ..self
                },
                true,
            )
        }
    }

    /// Adds an account to the touched ones. Fails if there is no room.
    pub fn add_touched(&mut self, idx: u16) -> (r: bool)
        requires
            old(self).wf(),
        ensures
            (*final(self), r) == old(self).add_touched_spec(idx),
            final(self).wf(),
            r == (old(self).touched().contains(idx) || old(self).touched_count
                < MAX_TOUCHED_PER_INSTRUCTION),
            forall|k: u16|
                final(self).touched().contains(k) <==> (old(self).touched().contains(k) || (r && k
                    == idx)),
    {
        let count: usize = self.touched_count as usize;
        let mut lo: usize = 0;
        let mut hi: usize = count;
        while lo < hi
            invariant
                *self == *old(self),
                self.wf(),
                count == self.touched_count,
                lo <= hi <= count,
                forall|i: int| 0 <= i < lo ==> #[trigger] self.touched_accounts@[i] < idx,
                forall|i: int| hi <= i < count ==> #[trigger] self.touched_accounts@[i] > idx,
            decreases hi - lo,
        {
            let mid: usize = (lo + hi) / 2;
            let v: u16 = self.touched_accounts[mid];
            if v == idx {
                assert(self.touched()[mid as int] == idx);
                return true;
            }
            if v < idx {
                lo = mid + 1;
            } else {
                hi = mid;
            }
        }
        proof {
            assert forall|i: int| 0 <= i < count implies self.touched()[i] != idx by {
                assert(self.touched()[i] == self.touched_accounts@[i]);
            }
            lemma_insertion_point(self.touched(), idx, lo as int);
        }
        if count >= MAX_TOUCHED_PER_INSTRUCTION {
            return false;
        }
        let ghost before = self.touched_accounts@;
        let mut j: usize = count;
        while j > lo
            invariant
                count < MAX_TOUCHED_PER_INSTRUCTION,
                lo <= j <= count,
                before.len() == MAX_TOUCHED_PER_INSTRUCTION,
                *self == (InstructionContext { touched_accounts: self.touched_accounts, ..*old(self) }),
                forall|i: int|
                    0 <= i < MAX_TOUCHED_PER_INSTRUCTION ==> #[trigger] self.touched_accounts@[i]
                        == if j < i <= count {
                        before[i - 1]
                    } else {
                        before[i]
                    },
            decreases j,
        {
            let v: u16 = self.touched_accounts[j - 1];
            self.touched_accounts[j] = v;
            j = j - 1;
        }
        self.touched_accounts[lo] = idx;
        self.touched_count = self.touched_count + 1;
        proof {
            let want = before.remove(count as int).insert(lo as int, idx);
            assert(self.touched_accounts@ =~= want);
            lemma_array_of(self.touched_accounts);
            assert forall|k: u16| self.touched().contains(k) <==> (old(self).touched().contains(k)
                || k == idx) by {
                let new = self.touched();
                let prev = old(self).touched();
                if new.contains(k) {
                    let i = choose|i: int| 0 <= i < new.len() && new[i] == k;
                    if i < lo {
                        assert(prev[i] == k);
                    } else if i > lo {
                        assert(prev[i - 1] == k);
                    }
                }
                if prev.contains(k) {
                    let i = choose|i: int| 0 <= i < prev.len() && prev[i] == k;
                    if i < lo {
                        assert(new[i] == k);
                    } else {
                        assert(new[i + 1] == k);
                    }
                }
                assert(new[lo as int] == idx);
            }
        }
        true
    }
}

/// The context with a reset pending on `side`.
pub open spec fn with_pending_reset(ctx: InstructionContext, side: Side) -> InstructionContext {
    match side {
        Side::Long => InstructionContext { pending_reset_long: true, ..ctx },
        Side::Short => InstructionContext { pending_reset_short: true, ..ctx },
    }
}

/// Schedules a reset of `side`.
pub fn set_pending_reset(ctx: &mut InstructionContext, side: Side)
    ensures
        *final(ctx) == with_pending_reset(*old(ctx), side),
{
    match side {
        Side::Long => {
            ctx.pending_reset_long = true;
        },
        Side::Short => {
            ctx.pending_reset_short = true;
        },
    }
}

} // verus!
