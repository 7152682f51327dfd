use vstd::prelude::*;

verus! {

/// The scale of a `Decimal`: its raw bits count units of `2^-48`.
pub const FRAC_SCALE: i128 = 0x1_0000_0000_0000;

pub open spec fn fits_i128(x: int) -> bool {
    i128::MIN <= x <= i128::MAX
}

pub open spec fn fits_i64(x: int) -> bool {
    i64::MIN <= x <= i64::MAX
}

pub open spec fn abs_int(x: int) -> int {
    if x < 0 { -x } else { x }
}

/// Integer division rounding toward zero.
pub open spec fn trunc_div(n: int, d: int) -> int {
    if (n >= 0) == (d > 0) {
        abs_int(n) / abs_int(d)
    } else {
        -(abs_int(n) / abs_int(d))
    }
}

/// Raw bits of the product of two fixed-point values, rounded toward negative infinity.
pub open spec fn mul_bits(a: int, b: int) -> int {
    (a * b) / (FRAC_SCALE as int)
}

/// Raw bits of the quotient of two fixed-point values, rounded toward zero.
pub open spec fn div_bits(a: int, b: int) -> int {
    trunc_div(a * (FRAC_SCALE as int), b)
}

/// The integer part of a fixed-point value, rounded toward negative infinity.
pub open spec fn floor_bits(a: int) -> int {
    a / (FRAC_SCALE as int)
}

/// A signed fixed-point number with 80 integer and 48 fractional bits, held as its raw bits.
/// Its value is `bits / 2^48`.
#[derive(Clone, Copy, Debug, PartialEq, Eq, Structural)]
pub struct Decimal {
    pub bits: i128,
}

/// Relies on fixed's `I80F48::from_num` for an `i64`: the exact value, `n * 2^48` in bits.
#[verifier::external_body]
fn fixed_from_i64(n: i64) -> (r: Decimal)
    ensures
        r.bits == n as int * FRAC_SCALE as int,
{
    Decimal { bits: fixed::types::I80F48::from_num(n).to_bits() }
}

/// Relies on fixed's `I80F48::checked_mul`: the 256-bit product shifted right by 48 bits
/// (rounding toward negative infinity), or `None` when that does not fit.
#[verifier::external_body]
fn fixed_checked_mul(a: Decimal, b: Decimal) -> (r: Option<Decimal>)
    ensures
        fits_i128(mul_bits(a.bits as int, b.bits as int)) ==> r == Some(
            Decimal { bits: mul_bits(a.bits as int, b.bits as int) as i128 },
        ),
        !fits_i128(mul_bits(a.bits as int, b.bits as int)) ==> r is None,
{
    let x = fixed::types::I80F48::from_bits(a.bits);
    match x.checked_mul(fixed::types::I80F48::from_bits(b.bits)) {
        Some(p) => Some(Decimal { bits: p.to_bits() }),
        None => None,
    }
}

/// Relies on fixed's `I80F48::checked_div`: `None` for a zero divisor, else the quotient
/// rounded toward zero, or `None` when that does not fit.
#[verifier::external_body]
fn fixed_checked_div(a: Decimal, b: Decimal) -> (r: Option<Decimal>)
    ensures
        b.bits == 0 ==> r is None,
        b.bits != 0 && fits_i128(div_bits(a.bits as int, b.bits as int)) ==> r == Some(
            Decimal { bits: div_bits(a.bits as int, b.bits as int) as i128 },
        ),
        b.bits != 0 && !fits_i128(div_bits(a.bits as int, b.bits as int)) ==> r is None,
{
    let x = fixed::types::I80F48::from_bits(a.bits);
    match x.checked_div(fixed::types::I80F48::from_bits(b.bits)) {
        Some(q) => Some(Decimal { bits: q.to_bits() }),
        None => None,
    }
}

/// Relies on fixed's `I80F48::checked_add`: the exact sum, or `None` when it does not fit.
#[verifier::external_body]
fn fixed_checked_add(a: Decimal, b: Decimal) -> (r: Option<Decimal>)
    ensures
        fits_i128(a.bits + b.bits) ==> r == Some(Decimal { bits: (a.bits + b.bits) as i128 }),
        !fits_i128(a.bits + b.bits) ==> r is None,
{
    let x = fixed::types::I80F48::from_bits(a.bits);
    match x.checked_add(fixed::types::I80F48::from_bits(b.bits)) {
        Some(s) => Some(Decimal { bits: s.to_bits() }),
        None => None,
    }
}

/// Relies on fixed's `I80F48::checked_to_num::<i64>`: the value with its fractional bits
/// discarded (rounding toward negative infinity), or `None` when that does not fit an `i64`.
#[verifier::external_body]
fn fixed_checked_to_i64(a: Decimal) -> (r: Option<i64>)
    ensures
        fits_i64(floor_bits(a.bits as int)) ==> r == Some(floor_bits(a.bits as int) as i64),
        !fits_i64(floor_bits(a.bits as int)) ==> r is None,
{
    fixed::types::I80F48::from_bits(a.bits).checked_to_num::<i64>()
}

impl Decimal {
    pub fn zero() -> (r: Decimal)
        ensures
            r.bits == 0,
    {
        Decimal { bits: 0 }
    }

    pub fn one() -> (r: Decimal)
        ensures
            r.bits == FRAC_SCALE,
    {
        Decimal { bits: FRAC_SCALE }
    }

    pub fn max_value() -> (r: Decimal)
        ensures
            r.bits == i128::MAX,
    {
        Decimal { bits: i128::MAX }
    }

    pub fn from_int(n: i64) -> (r: Decimal)
        ensures
            r.bits == n as int * FRAC_SCALE as int,
    {
        fixed_from_i64(n)
    }

    pub fn checked_mul(self, rhs: Decimal) -> (r: Option<Decimal>)
        ensures
            r == (if fits_i128(mul_bits(self.bits as int, rhs.bits as int)) {
                Some(Decimal { bits: mul_bits(self.bits as int, rhs.bits as int) as i128 })
            } else {
                None
            }),
    {
        fixed_checked_mul(self, rhs)
    }

    pub fn checked_div(self, rhs: Decimal) -> (r: Option<Decimal>)
        ensures
            r == (if rhs.bits != 0 && fits_i128(div_bits(self.bits as int, rhs.bits as int)) {
                Some(Decimal { bits: div_bits(self.bits as int, rhs.bits as int) as i128 })
            } else {
                None
            }),
    {
        fixed_checked_div(self, rhs)
    }

    pub fn checked_add(self, rhs: Decimal) -> (r: Option<Decimal>)
        ensures
            r == (if fits_i128(self.bits + rhs.bits) {
                Some(Decimal { bits: (self.bits + rhs.bits) as i128 })
            } else {
                None
            }),
    {
        fixed_checked_add(self, rhs)
    }

    pub fn checked_to_i64(self) -> (r: Option<i64>)
        ensures
            r == (if fits_i64(floor_bits(self.bits as int)) {
                Some(floor_bits(self.bits as int) as i64)
            } else {
                None
            }),
    {
        fixed_checked_to_i64(self)
    }

    pub fn gt(self, rhs: Decimal) -> (r: bool)
        ensures
            r == (self.bits > rhs.bits),
    {
        self.bits > rhs.bits
    }
}

/// `10^exp` as a fixed-point value, for `-12 <= exp <= 12`; a negative power is the
/// quotient `1 / 10^-exp`, rounded toward zero.
pub fn power_of_ten(exp: i8) -> (r: Decimal)
    requires
        -12 <= exp <= 12,
    ensures
        exp >= 0 ==> r.bits == pow10(exp as nat) * FRAC_SCALE as int,
        exp < 0 ==> r.bits == (FRAC_SCALE as int) / pow10((-exp) as nat),
{
    let mut p: i64 = 1;
    let n: i8 = if exp < 0 { -exp } else { exp };
    let mut i: i8 = 0;
    while i < n
        invariant
            0 <= i <= n <= 12,
            n == (if exp < 0 { -exp } else { exp as int }),
            p as int == pow10(i as nat),
            pow10(i as nat) <= 1_000_000_000_000,
        decreases n - i,
    {
        proof {
            lemma_pow10_bound(i as nat + 1);
        }
        p = p * 10;
        i = i + 1;
    }
    let d = Decimal::from_int(p);
    if exp >= 0 {
        d
    } else {
        proof {
            lemma_pow10_bound(n as nat);
            assert(0 < d.bits <= 1_000_000_000_000 * FRAC_SCALE) by (nonlinear_arith)
                requires
                    d.bits == p as int * FRAC_SCALE as int,
                    1 <= p <= 1_000_000_000_000,
            ;
            let q = div_bits(FRAC_SCALE as int, d.bits as int);
            assert(q == (FRAC_SCALE as int * FRAC_SCALE as int) / (p as int * FRAC_SCALE as int));
            lemma_div_cancel(FRAC_SCALE as int, FRAC_SCALE as int, p as int);
        }
        match Decimal::one().checked_div(d) {
            Some(q) => q,
            None => Decimal::zero(),
        }
    }
}

pub open spec fn pow10(n: nat) -> int
    decreases n,
{
    if n == 0 { 1 } else { 10 * pow10((n - 1) as nat) }
}

proof fn lemma_pow10_bound(n: nat)
    requires
        n <= 12,
    ensures
        1 <= pow10(n) <= 1_000_000_000_000,
        n < 12 ==> pow10(n) <= 100_000_000_000,
    decreases n,
{
    reveal_with_fuel(pow10, 13);
    if n > 0 {
        lemma_pow10_bound((n - 1) as nat);
    }
}

proof fn lemma_div_cancel(a: int, s: int, p: int)
    requires
        a >= 0,
        s > 0,
        p > 0,
    ensures
        (a * s) / (p * s) == a / p,
{
    vstd::arithmetic::div_mod::lemma_div_denominator(a * s, s, p);
    vstd::arithmetic::div_mod::lemma_div_multiples_vanish(a, s);
    assert((a * s) / (s * p) == (a * s) / (p * s)) by {
        vstd::arithmetic::mul::lemma_mul_is_commutative(s, p);
    }
    assert((a * s) / s == a) by {
        vstd::arithmetic::mul::lemma_mul_is_commutative(a, s);
        vstd::arithmetic::div_mod::lemma_div_multiples_vanish(a, s);
    }
}

} // verus!
