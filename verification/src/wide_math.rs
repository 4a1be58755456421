//! 256-bit integers for intermediate results, and exact multiply-divide.

use vstd::prelude::*;

verus! {

/// An unsigned integer below `2^256`.
#[derive(Clone, Copy, Debug, PartialEq, Eq, Structural)]
pub struct U256 {
    pub hi: u128,
    pub lo: u128,
}

/// A signed integer in `-2^255 .. 2^255`.
#[derive(Clone, Copy, Debug, PartialEq, Eq, Structural)]
pub struct I256 {
    pub hi: i128,
    pub lo: u128,
}

/// `2^128`.
pub open spec fn two_pow_128() -> int {
    0x1_0000_0000_0000_0000_0000_0000_0000_0000int
}

/// `2^256`.
pub open spec fn two_pow_256() -> int {
    0x1_0000_0000_0000_0000_0000_0000_0000_0000_0000_0000_0000_0000_0000_0000_0000_0000int
}

/// `2^255`.
pub open spec fn two_pow_255() -> int {
    0x8000_0000_0000_0000_0000_0000_0000_0000_0000_0000_0000_0000_0000_0000_0000_0000int
}

/// The quotient rounded up, for a positive divisor.
pub open spec fn ceil_div(n: int, d: int) -> int {
    if n % d == 0 {
        n / d
    } else {
        n / d + 1
    }
}

/// The smaller of two integers.
pub open spec fn min_int(a: int, b: int) -> int {
    if a <= b {
        a
    } else {
        b
    }
}

/// The larger of two integers.
pub open spec fn max_int(a: int, b: int) -> int {
    if a >= b {
        a
    } else {
        b
    }
}

/// The absolute value.
pub open spec fn abs_int(a: int) -> int {
    if a >= 0 {
        a
    } else {
        -a
    }
}

impl View for U256 {
    type V = int;

    open spec fn view(&self) -> int {
        self.hi * two_pow_128() + self.lo
    }
}

impl View for I256 {
    type V = int;

    open spec fn view(&self) -> int {
        self.hi * two_pow_128() + self.lo
    }
}

/// The smaller of two 128-bit integers.
pub fn min_u128(a: u128, b: u128) -> (r: u128)
    ensures
        r == min_int(a as int, b as int),
{
    if a <= b {
        a
    } else {
        b
    }
}

/// The larger of two 128-bit integers.
pub fn max_u128(a: u128, b: u128) -> (r: u128)
    ensures
        r == max_int(a as int, b as int),
{
    if a >= b {
        a
    } else {
        b
    }
}

/// The smaller of two 64-bit integers.
pub fn min_u64(a: u64, b: u64) -> (r: u64)
    ensures
        r == min_int(a as int, b as int),
{
    if a <= b {
        a
    } else {
        b
    }
}

/// The absolute value of a signed 128-bit integer.
pub fn abs_i128(v: i128) -> (r: u128)
    ensures
        r == abs_int(v as int),
{
    if v >= 0 {
        v as u128
    } else {
        (-(v + 1)) as u128 + 1
    }
}

/// The difference of two unsigned integers, zero if it would be negative.
pub fn saturating_diff_u64(a: u64, b: u64) -> (r: u64)
    ensures
        r == max_int(a - b, 0),
{
    if a >= b {
        a - b
    } else {
        0
    }
}

proof fn lemma_split_product(a: int, b: int, a1: int, a0: int, b1: int, b0: int, base: int)
    requires
        a == a1 * base + a0,
        b == b1 * base + b0,
    ensures
        a * b == (a1 * b1) * (base * base) + (a1 * b0 + a0 * b1) * base + a0 * b0,
{
    let x = a1 * base;
    let y = b1 * base;
    assert((x + a0) * (y + b0) == x * y + x * b0 + a0 * y + a0 * b0) by (nonlinear_arith);
    assert(x * y == (a1 * b1) * (base * base)) by (nonlinear_arith)
        requires
            x == a1 * base,
            y == b1 * base,
    ;
    assert(x * b0 == (a1 * b0) * base) by (nonlinear_arith)
        requires
            x == a1 * base,
    ;
    assert(a0 * y == (a0 * b1) * base) by (nonlinear_arith)
        requires
            y == b1 * base,
    ;
    assert((a1 * b0 + a0 * b1) * base == (a1 * b0) * base + (a0 * b1) * base) by (nonlinear_arith);
}

/// The product of two 64-bit values fits in 128 bits.
pub proof fn lemma_half_product_bound(x: int, y: int)
    requires
        0 <= x < 0x1_0000_0000_0000_0000,
        0 <= y < 0x1_0000_0000_0000_0000,
    ensures
        0 <= x * y <= 0xffff_ffff_ffff_ffff * 0xffff_ffff_ffff_ffff,
{
    assert(0 <= x * y <= 0xffff_ffff_ffff_ffff * 0xffff_ffff_ffff_ffff) by (nonlinear_arith)
        requires
            0 <= x <= 0xffff_ffff_ffff_ffff,
            0 <= y <= 0xffff_ffff_ffff_ffff,
    ;
}

/// The whole product of two 128-bit integers.
pub fn widening_mul(a: u128, b: u128) -> (r: U256)
    ensures
        r@ == a * b,
{
    let base: u128 = 0x1_0000_0000_0000_0000;
    let a1: u128 = a / base;
    let a0: u128 = a % base;
    let b1: u128 = b / base;
    let b0: u128 = b % base;
    proof {
        lemma_half_product_bound(a0 as int, b0 as int);
        lemma_half_product_bound(a0 as int, b1 as int);
        lemma_half_product_bound(a1 as int, b0 as int);
        lemma_half_product_bound(a1 as int, b1 as int);
    }
    let p00: u128 = a0 * b0;
    let p01: u128 = a0 * b1;
    let p10: u128 = a1 * b0;
    let p11: u128 = a1 * b1;
    let mid: u128 = p00 / base + p01 % base + p10 % base;
    let lo: u128 = (mid % base) * base + p00 % base;
    proof {
        lemma_split_product(
            a as int,
            b as int,
            a1 as int,
            a0 as int,
            b1 as int,
            b0 as int,
            base as int,
        );
    }
    let hi: u128 = p11 + p01 / base + p10 / base + mid / base;
    U256 { hi, lo }
}

impl U256 {
    /// Zero.
    pub fn zero() -> (r: U256)
        ensures
            r@ == 0,
    {
        U256 { hi: 0, lo: 0 }
    }

    /// One.
    pub fn one() -> (r: U256)
        ensures
            r@ == 1,
    {
        U256 { hi: 0, lo: 1 }
    }

    /// Widens a 128-bit integer.
    pub fn from_u128(v: u128) -> (r: U256)
        ensures
            r@ == v,
    {
        U256 { hi: 0, lo: v }
    }

    /// Whether the value is zero.
    pub fn is_zero(self) -> (r: bool)
        ensures
            r == (self@ == 0),
    {
        self.hi == 0 && self.lo == 0
    }

    /// Whether this value is below `other`.
    pub fn is_below(self, other: U256) -> (r: bool)
        ensures
            r == (self@ < other@),
    {
        self.hi < other.hi || (self.hi == other.hi && self.lo < other.lo)
    }

    /// The sum, if it is below `2^256`.
    pub fn checked_add(self, other: U256) -> (r: Option<U256>)
        ensures
            r is Some <==> self@ + other@ < two_pow_256(),
            r is Some ==> r->0@ == self@ + other@,
    {
        let carry: bool = self.lo > u128::MAX - other.lo;
        let lo: u128 = if carry {
            self.lo - (u128::MAX - other.lo) - 1
        } else {
            self.lo + other.lo
        };
        match self.hi.checked_add(other.hi) {
            None => None,
            Some(hi) => {
                if !carry {
                    Some(U256 { hi, lo })
                } else {
                    match hi.checked_add(1) {
                        None => None,
                        Some(hi2) => Some(U256 { hi: hi2, lo }),
                    }
                }
            },
        }
    }

    /// The difference, if it is not negative.
    pub fn checked_sub(self, other: U256) -> (r: Option<U256>)
        ensures
            r is Some <==> self@ >= other@,
            r is Some ==> r->0@ == self@ - other@,
    {
        if self.is_below(other) {
            return None;
        }
        if self.lo >= other.lo {
            Some(U256 { hi: self.hi - other.hi, lo: self.lo - other.lo })
        } else {
            Some(
                U256 {
                    hi: self.hi - other.hi - 1,
                    lo: u128::MAX - (other.lo - self.lo) + 1,
                },
            )
        }
    }

    /// The product, if it is below `2^256`.
    pub fn checked_mul(self, other: U256) -> (r: Option<U256>)
        ensures
            r is Some <==> self@ * other@ < two_pow_256(),
            r is Some ==> r->0@ == self@ * other@,
    {
        if self.hi != 0 && other.hi != 0 {
            proof {
                assert(self@ * other@ >= two_pow_256()) by (nonlinear_arith)
                    requires
                        self@ >= two_pow_128(),
                        other@ >= two_pow_128(),
                        two_pow_256() == two_pow_128() * two_pow_128(),
                ;
            }
            return None;
        }
        let (big, small) = if self.hi != 0 {
            (self, other)
        } else {
            (other, self)
        };
        assert(small.hi == 0);
        assert(self@ * other@ == big@ * small.lo) by (nonlinear_arith)
            requires
                (big == self && small == other) || (big == other && small == self),
                small@ == small.lo as int,
        ;
        let low = widening_mul(big.lo, small.lo);
        proof {
            assert(big@ * small.lo == (big.hi * small.lo) * two_pow_128() + low@) by (nonlinear_arith)
                requires
                    big@ == big.hi * two_pow_128() + big.lo,
                    low@ == big.lo * small.lo,
            ;
            assert(0 <= big.hi * small.lo) by (nonlinear_arith);
        }
        match big.hi.checked_mul(small.lo) {
            None => None,
            Some(cross) => match cross.checked_add(low.hi) {
                None => None,
                Some(hi) => Some(U256 { hi, lo: low.lo }),
            },
        }
    }

    /// Half the value, rounded down, and the bit that was shifted out.
    fn halve(self) -> (r: (U256, bool))
        ensures
            self@ == 2 * r.0@ + (if r.1 {
                1int
            } else {
                0int
            }),
    {
        let hi: u128 = self.hi / 2;
        let lo: u128 = if self.hi % 2 == 1 {
            self.lo / 2 + 0x8000_0000_0000_0000_0000_0000_0000_0000
        } else {
            self.lo / 2
        };
        (U256 { hi, lo }, self.lo % 2 == 1)
    }

    /// The quotient, unless the divisor is zero.
    pub fn checked_div(self, other: U256) -> (r: Option<U256>)
        ensures
            r is Some <==> other@ != 0,
            r is Some ==> r->0@ == self@ / other@,
    {
        if other.is_zero() {
            return None;
        }
        let (q, _) = div_rem_u256(self, other);
        Some(q)
    }

    /// The value as a 128-bit integer, if it fits.
    pub fn try_into_u128(self) -> (r: Option<u128>)
        ensures
            r is Some <==> self@ <= u128::MAX,
            r is Some ==> r->0 == self@,
    {
        if self.hi == 0 {
            Some(self.lo)
        } else {
            None
        }
    }
}

/// Quotient and remainder are unique.
pub proof fn lemma_quotient_is(n: int, d: int, q: int, r: int)
    requires
        d > 0,
        n == q * d + r,
        0 <= r < d,
    ensures
        q == n / d,
        r == n % d,
{
    vstd::arithmetic::div_mod::lemma_fundamental_div_mod_converse(n, d, q, r);
}

/// Quotient and remainder.
pub fn div_rem_u256(n: U256, d: U256) -> (r: (U256, U256))
    requires
        d@ > 0,
    ensures
        r.0@ == n@ / d@,
        r.1@ == n@ % d@,
    decreases n@ - d@,
{
    if n.is_below(d) {
        proof {
            lemma_quotient_is(n@, d@, 0, n@);
        }
        return (U256::zero(), n);
    }
    if n.hi == 0 && d.hi == 0 {
        return (U256::from_u128(n.lo / d.lo), U256::from_u128(n.lo % d.lo));
    }
    let rest = n.checked_sub(d).unwrap();
    if rest.is_below(d) {
        proof {
            lemma_quotient_is(n@, d@, 1, rest@);
        }
        return (U256::one(), rest);
    }
    let double = d.checked_add(d).unwrap();
    let (half, r2) = div_rem_u256(n, double);
    proof {
        vstd::arithmetic::div_mod::lemma_fundamental_div_mod(n@, double@);
        assert(n@ == (2 * half@) * d@ + r2@) by (nonlinear_arith)
            requires
                n@ == double@ * half@ + r2@,
                double@ == 2 * d@,
        ;
        assert(half@ * 2 <= n@) by (nonlinear_arith)
            requires
                n@ == (2 * half@) * d@ + r2@,
                d@ >= 1,
                half@ >= 0,
                r2@ >= 0,
        ;
    }
    let q = half.checked_add(half).unwrap();
    if r2.is_below(d) {
        proof {
            lemma_quotient_is(n@, d@, q@, r2@);
        }
        (q, r2)
    } else {
        proof {
            assert(q@ < n@) by (nonlinear_arith)
                requires
                    n@ == q@ * d@ + r2@,
                    r2@ >= d@,
                    d@ >= 1,
                    q@ >= 0,
            ;
            assert((q@ + 1) * d@ == q@ * d@ + d@) by (nonlinear_arith);
            lemma_quotient_is(n@, d@, q@ + 1, r2@ - d@);
        }
        (q.checked_add(U256::one()).unwrap(), r2.checked_sub(d).unwrap())
    }
}

/// `floor(a * b / d)` and the remainder, through an exact product.
pub fn mul_div_floor_u256_with_rem(a: U256, b: U256, d: U256) -> (r: (U256, U256))
    requires
        d@ > 0,
        a@ * b@ / d@ < two_pow_256(),
    ensures
        r.0@ == a@ * b@ / d@,
        r.1@ == a@ * b@ % d@,
    decreases a@,
{
    if a.is_zero() {
        proof {
            assert(a@ * b@ == 0) by (nonlinear_arith)
                requires
                    a@ == 0,
            ;
            lemma_quotient_is(0, d@, 0, 0);
        }
        return (U256::zero(), U256::zero());
    }
    let (half, odd) = a.halve();
    let ghost bit: int = if odd {
        1
    } else {
        0
    };
    let ghost total = a@ * b@;
    proof {
        assert(total == 2 * (half@ * b@) + bit * b@) by (nonlinear_arith)
            requires
                total == a@ * b@,
                a@ == 2 * half@ + bit,
        ;
        assert(0 <= half@ * b@ <= total && 0 <= bit * b@) by (nonlinear_arith)
            requires
                total == 2 * (half@ * b@) + bit * b@,
                half@ >= 0,
                b@ >= 0,
                bit >= 0,
        ;
        vstd::arithmetic::div_mod::lemma_div_is_ordered(half@ * b@, total, d@);
    }
    let (q1, r1) = mul_div_floor_u256_with_rem(half, b, d);
    proof {
        vstd::arithmetic::div_mod::lemma_fundamental_div_mod(half@ * b@, d@);
        vstd::arithmetic::div_mod::lemma_fundamental_div_mod(total, d@);
    }
    let ghost q0 = total / d@;
    let ghost r0 = total % d@;
    // 2 * half * b = 2 * q1 * d + 2 * r1
    let rest = d.checked_sub(r1).unwrap();
    let wraps: bool = !r1.is_below(rest);
    let ghost w: int = if wraps {
        1
    } else {
        0
    };
    proof {
        lemma_partial_quotient_bound(
            total,
            d@,
            2 * q1@ + w,
            2 * r1@ - w * d@,
            bit * b@,
            q1@,
            r1@,
            half@ * b@,
            w,
        );
    }
    let q2a = q1.checked_add(q1).unwrap();
    let q2 = if wraps {
        q2a.checked_add(U256::one()).unwrap()
    } else {
        q2a
    };
    let r2 = if wraps {
        r1.checked_sub(rest).unwrap()
    } else {
        r1.checked_add(r1).unwrap()
    };
    assert(2 * (half@ * b@) == q2@ * d@ + r2@) by (nonlinear_arith)
        requires
            half@ * b@ == d@ * q1@ + r1@,
            q2@ == 2 * q1@ + w,
            r2@ == 2 * r1@ - w * d@,
    ;
    if !odd {
        proof {
            assert(bit * b@ == 0) by (nonlinear_arith)
                requires
                    bit == 0,
            ;
            lemma_quotient_is(total, d@, q2@, r2@);
        }
        return (q2, r2);
    }
    let (qb, rb) = div_rem_u256(b, d);
    proof {
        vstd::arithmetic::div_mod::lemma_fundamental_div_mod(b@, d@);
        assert(bit * b@ == b@) by (nonlinear_arith)
            requires
                bit == 1,
        ;
        assert(total == (q2@ + qb@) * d@ + (r2@ + rb@)) by (nonlinear_arith)
            requires
                total == q2@ * d@ + r2@ + b@,
                b@ == d@ * qb@ + rb@,
        ;
    }
    let room = d.checked_sub(r2).unwrap();
    if rb.is_below(room) {
        proof {
            lemma_quotient_is(total, d@, q2@ + qb@, r2@ + rb@);
        }
        (q2.checked_add(qb).unwrap(), r2.checked_add(rb).unwrap())
    } else {
        proof {
            assert((q2@ + qb@ + 1) * d@ == (q2@ + qb@) * d@ + d@) by (nonlinear_arith);
            lemma_quotient_is(total, d@, q2@ + qb@ + 1, r2@ + rb@ - d@);
        }
        (
            q2.checked_add(qb).unwrap().checked_add(U256::one()).unwrap(),
            rb.checked_sub(room).unwrap(),
        )
    }
}

proof fn lemma_partial_quotient_bound(
    total: int,
    d: int,
    q2: int,
    r2: int,
    add: int,
    q1: int,
    r1: int,
    half_product: int,
    w: int,
)
    requires
        d > 0,
        total == 2 * half_product + add,
        add >= 0,
        half_product == d * q1 + r1,
        0 <= r1 < d,
        q1 >= 0,
        q2 == 2 * q1 + w,
        r2 == 2 * r1 - w * d,
        w == 0 || w == 1,
        w == 1 <==> 2 * r1 >= d,
    ensures
        0 <= q2 <= total / d,
        0 <= r2 < d,
{
    assert(w * d == (if w == 1 {
        d
    } else {
        0
    })) by (nonlinear_arith)
        requires
            w == 0 || w == 1,
    ;
    assert(total == q2 * d + (r2 + add)) by (nonlinear_arith)
        requires
            total == 2 * half_product + add,
            half_product == d * q1 + r1,
            q2 == 2 * q1 + w,
            r2 == 2 * r1 - w * d,
    ;
    assert(q2 * d <= total);
    vstd::arithmetic::div_mod::lemma_div_is_ordered(q2 * d, total, d);
    vstd::arithmetic::div_mod::lemma_div_multiples_vanish(q2, d);
    assert(q2 * d == d * q2) by (nonlinear_arith);
}

/// `ceil(a * b / d)`, through an exact product.
pub fn mul_div_ceil_u256(a: U256, b: U256, d: U256) -> (r: U256)
    requires
        d@ > 0,
        ceil_div(a@ * b@, d@) < two_pow_256(),
    ensures
        r@ == ceil_div(a@ * b@, d@),
{
    let (q, r) = mul_div_floor_u256_with_rem(a, b, d);
    if r.is_zero() {
        q
    } else {
        q.checked_add(U256::one()).unwrap()
    }
}

/// The quotient of a positive divisor, rounded up.
pub fn ceil_div_positive_checked(n: U256, d: U256) -> (r: U256)
    requires
        d@ > 0,
    ensures
        r@ == ceil_div(n@, d@),
{
    let (q, r) = div_rem_u256(n, d);
    if r.is_zero() {
        q
    } else {
        proof {
            vstd::arithmetic::div_mod::lemma_fundamental_div_mod(n@, d@);
            assert(q@ < n@) by (nonlinear_arith)
                requires
                    n@ == d@ * q@ + r@,
                    r@ > 0,
                    d@ >= 1,
                    q@ >= 0,
            ;
        }
        q.checked_add(U256::one()).unwrap()
    }
}

/// `floor(a * b / d)` where it fits.
pub fn wide_mul_div_floor_u128(a: u128, b: u128, d: u128) -> (r: u128)
    requires
        d > 0,
        a * b / (d as int) <= u128::MAX,
    ensures
        r == a * b / (d as int),
{
    let (q, _) = div_rem_u256(widening_mul(a, b), U256::from_u128(d));
    q.try_into_u128().unwrap()
}

/// `floor(a * b / d)` where it fits.
pub fn mul_div_floor_u128(a: u128, b: u128, d: u128) -> (r: u128)
    requires
        d > 0,
        a * b / (d as int) <= u128::MAX,
    ensures
        r == a * b / (d as int),
{
    wide_mul_div_floor_u128(a, b, d)
}

/// `ceil(a * b / d)` where it fits.
pub fn mul_div_ceil_u128(a: u128, b: u128, d: u128) -> (r: u128)
    requires
        d > 0,
        ceil_div(a * b, d as int) <= u128::MAX,
    ensures
        r == ceil_div(a * b, d as int),
{
    ceil_div_positive_checked(widening_mul(a, b), U256::from_u128(d)).try_into_u128().unwrap()
}

/// The debt that negative fee credits stand for.
pub fn fee_debt_u128_checked(fee_credits: i128) -> (r: u128)
    ensures
        r == max_int(-(fee_credits as int), 0),
{
    if fee_credits < 0 {
        abs_i128(fee_credits)
    } else {
        0
    }
}

impl I256 {
    /// Zero.
    pub fn zero() -> (r: I256)
        ensures
            r@ == 0,
    {
        I256 { hi: 0, lo: 0 }
    }

    /// Widens a signed 128-bit integer.
    pub fn from_i128(v: i128) -> (r: I256)
        ensures
            r@ == v,
    {
        if v >= 0 {
            I256 { hi: 0, lo: v as u128 }
        } else {
            I256 { hi: -1, lo: u128::MAX - abs_i128(v) + 1 }
        }
    }

    /// Widens an unsigned 128-bit integer.
    pub fn from_u128(v: u128) -> (r: I256)
        ensures
            r@ == v,
    {
        I256 { hi: 0, lo: v }
    }

    /// Whether the value is negative.
    pub fn is_negative(self) -> (r: bool)
        ensures
            r == (self@ < 0),
    {
        self.hi < 0
    }

    /// Whether the value is zero.
    pub fn is_zero(self) -> (r: bool)
        ensures
            r == (self@ == 0),
    {
        self.hi == 0 && self.lo == 0
    }

    /// Whether this value is below `other`.
    pub fn is_below(self, other: I256) -> (r: bool)
        ensures
            r == (self@ < other@),
    {
        self.hi < other.hi || (self.hi == other.hi && self.lo < other.lo)
    }

    /// The sum, if it is in range.
    pub fn checked_add(self, other: I256) -> (r: Option<I256>)
        ensures
            r is Some <==> -two_pow_255() <= self@ + other@ < two_pow_255(),
            r is Some ==> r->0@ == self@ + other@,
    {
        let carry: bool = self.lo > u128::MAX - other.lo;
        if !carry {
            let lo: u128 = self.lo + other.lo;
            match self.hi.checked_add(other.hi) {
                None => None,
                Some(hi) => Some(I256 { hi, lo }),
            }
        } else {
            let lo: u128 = self.lo - (u128::MAX - other.lo) - 1;
            if self.hi < other.hi {
                match (self.hi + 1).checked_add(other.hi) {
                    None => None,
                    Some(hi) => Some(I256 { hi, lo }),
                }
            } else if other.hi < i128::MAX {
                match self.hi.checked_add(other.hi + 1) {
                    None => None,
                    Some(hi) => Some(I256 { hi, lo }),
                }
            } else {
                None
            }
        }
    }

    /// The difference, if it is in range.
    pub fn checked_sub(self, other: I256) -> (r: Option<I256>)
        ensures
            r is Some <==> -two_pow_255() <= self@ - other@ < two_pow_255(),
            r is Some ==> r->0@ == self@ - other@,
    {
        if self.lo >= other.lo {
            let lo: u128 = self.lo - other.lo;
            match self.hi.checked_sub(other.hi) {
                None => None,
                Some(hi) => Some(I256 { hi, lo }),
            }
        } else {
            let lo: u128 = u128::MAX - (other.lo - self.lo) + 1;
            if other.hi < i128::MAX {
                match self.hi.checked_sub(other.hi + 1) {
                    None => None,
                    Some(hi) => Some(I256 { hi, lo }),
                }
            } else if self.hi >= 0 {
                Some(I256 { hi: self.hi - i128::MAX - 1, lo })
            } else {
                None
            }
        }
    }

    /// The absolute value.
    pub fn abs_u256(self) -> (r: U256)
        ensures
            r@ == abs_int(self@),
    {
        if self.hi >= 0 {
            U256 { hi: self.hi as u128, lo: self.lo }
        } else if self.lo == 0 {
            U256 { hi: abs_i128(self.hi), lo: 0 }
        } else {
            U256 { hi: abs_i128(self.hi) - 1, lo: u128::MAX - self.lo + 1 }
        }
    }

    /// The value with this magnitude and sign, if it is in range.
    pub fn from_magnitude(mag: U256, negative: bool) -> (r: Option<I256>)
        ensures
            r is Some <==> (if negative {
                mag@ <= two_pow_255()
            } else {
                mag@ < two_pow_255()
            }),
            r is Some ==> r->0@ == (if negative {
                -mag@
            } else {
                mag@
            }),
    {
        if !negative {
            if mag.hi <= i128::MAX as u128 {
                Some(I256 { hi: mag.hi as i128, lo: mag.lo })
            } else {
                None
            }
        } else if mag.lo == 0 {
            if mag.hi <= i128::MAX as u128 {
                Some(I256 { hi: -(mag.hi as i128), lo: 0 })
            } else if mag.hi == i128::MAX as u128 + 1 {
                Some(I256 { hi: i128::MIN, lo: 0 })
            } else {
                None
            }
        } else if mag.hi <= i128::MAX as u128 {
            Some(I256 { hi: -(mag.hi as i128) - 1, lo: u128::MAX - mag.lo + 1 })
        } else {
            None
        }
    }

    /// The product, if it is in range.
    pub fn checked_mul_i256(self, other: I256) -> (r: Option<I256>)
        ensures
            r is Some <==> -two_pow_255() <= self@ * other@ < two_pow_255(),
            r is Some ==> r->0@ == self@ * other@,
    {
        let negative: bool = self.is_negative() != other.is_negative();
        let a = self.abs_u256();
        let b = other.abs_u256();
        assert(self@ * other@ == (if negative {
            -(a@ * b@)
        } else {
            a@ * b@
        })) by (nonlinear_arith)
            requires
                a@ == (if self@ < 0 {
                    -self@
                } else {
                    self@
                }),
                b@ == (if other@ < 0 {
                    -other@
                } else {
                    other@
                }),
                negative == ((self@ < 0) != (other@ < 0)),
        ;
        assert(a@ * b@ >= 0) by (nonlinear_arith)
            requires
                a@ >= 0,
                b@ >= 0,
        ;
        match a.checked_mul(b) {
            None => None,
            Some(mag) => I256::from_magnitude(mag, negative),
        }
    }

    /// The value as a signed 128-bit integer, if it fits.
    pub fn try_into_i128(self) -> (r: Option<i128>)
        ensures
            r is Some <==> i128::MIN <= self@ <= i128::MAX,
            r is Some ==> r->0 == self@,
    {
        if self.hi == 0 && self.lo <= i128::MAX as u128 {
            Some(self.lo as i128)
        } else if self.hi == -1 && self.lo > i128::MAX as u128 {
            Some(-((u128::MAX - self.lo) as i128) - 1)
        } else {
            None
        }
    }
}

} // verus!
