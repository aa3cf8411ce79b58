//! Numbers of double precision, by their bits.
//!
//! An edit may carry any number that JSON can write. What the library decides
//! about one is read off its IEEE 754 bits: whether it is finite, and whether
//! it is a whole number that an integer column can hold.
use vstd::arithmetic::power2::{
    lemma2_to64, lemma2_to64_rest, lemma_pow2_pos, lemma_pow2_strictly_increases,
    lemma_pow2_unfold, pow2,
};
use vstd::prelude::*;

verus! {

/// A number of double precision.
#[derive(Debug, Clone, Copy)]
pub struct Number {
    pub bits: u64,
}

/// "Not a number".
pub open spec fn nan(bits: u64) -> bool {
    !finite(bits) && bits as int % 0x10_0000_0000_0000 != 0
}

/// Zero, with either sign.
pub open spec fn is_zero(bits: u64) -> bool {
    bits as int % 0x8000_0000_0000_0000 == 0
}

/// Equal as numbers: "not a number" equals nothing, and the two zeros are equal.
pub open spec fn equal_numbers(a: u64, b: u64) -> bool {
    !nan(a) && !nan(b) && (a == b || (is_zero(a) && is_zero(b)))
}

impl PartialEq for Number {
    fn eq(&self, other: &Self) -> (r: bool) {
        !self.is_nan() && !other.is_nan() && (self.bits == other.bits || (self.bits
            % 0x8000_0000_0000_0000 == 0 && other.bits % 0x8000_0000_0000_0000 == 0))
    }
}

impl vstd::std_specs::cmp::PartialEqSpecImpl for Number {
    open spec fn obeys_eq_spec() -> bool {
        true
    }

    open spec fn eq_spec(&self, other: &Self) -> bool {
        equal_numbers(self.bits, other.bits)
    }
}

/// Whether the sign bit is set.
pub open spec fn negative(bits: u64) -> bool {
    bits >= 0x8000_0000_0000_0000
}

/// The eleven bits of the exponent.
pub open spec fn exponent(bits: u64) -> int {
    (bits as int % 0x8000_0000_0000_0000) / 0x10_0000_0000_0000
}

/// The digits of the number as an integer: the fraction, with a leading one
/// unless the number is zero or subnormal.
pub open spec fn significand(bits: u64) -> int {
    let fraction = bits as int % 0x10_0000_0000_0000;
    if exponent(bits) == 0 {
        fraction
    } else {
        fraction + 0x10_0000_0000_0000
    }
}

/// The power of two by which the significand is multiplied.
pub open spec fn scale(bits: u64) -> int {
    if exponent(bits) == 0 {
        -1074
    } else {
        exponent(bits) - 1075
    }
}

/// Neither infinite nor "not a number".
pub open spec fn finite(bits: u64) -> bool {
    exponent(bits) != 0x7ff
}

/// The integer that a finite number is apart from its sign, where it is one.
pub open spec fn whole_magnitude(bits: u64) -> Option<int> {
    if scale(bits) >= 0 {
        Some(significand(bits) * pow2(scale(bits) as nat))
    } else if significand(bits) % (pow2((-scale(bits)) as nat) as int) == 0 {
        Some(significand(bits) / (pow2((-scale(bits)) as nat) as int))
    } else {
        None
    }
}

/// The integer that a finite number is, where it is one.
pub open spec fn whole(bits: u64) -> Option<int> {
    match whole_magnitude(bits) {
        Some(m) => Some(
            if negative(bits) {
                -m
            } else {
                m
            },
        ),
        None => None,
    }
}

/// The integer under which a finite number is stored: a whole number between
/// -2^63 and 2^63 inclusive, of which the last saturates.
pub open spec fn as_stored(bits: u64) -> Option<int> {
    match whole(bits) {
        Some(n) => if i64::MIN <= n <= i64::MAX {
            Some(n)
        } else if n == i64::MAX + 1 {
            Some(i64::MAX as int)
        } else {
            None
        },
        None => None,
    }
}

/// A number that is not finite.
#[derive(Debug, Clone, Copy, PartialEq, Eq, Structural)]
pub enum Oddity {
    NotANumber,
    Infinity,
    NegativeInfinity,
}

impl Oddity {
    /// How the number is written.
    pub open spec fn text(self) -> Seq<char> {
        match self {
            Oddity::NotANumber => "NaN"@,
            Oddity::Infinity => "inf"@,
            Oddity::NegativeInfinity => "-inf"@,
        }
    }

    /// How the number is written.
    pub fn message(self) -> (r: String)
        ensures
            r@ == self.text(),
    {
        match self {
            Oddity::NotANumber => "NaN".to_owned(),
            Oddity::Infinity => "inf".to_owned(),
            Oddity::NegativeInfinity => "-inf".to_owned(),
        }
    }
}

/// What a number is that is not finite.
pub open spec fn odd(bits: u64) -> Option<Oddity> {
    if finite(bits) {
        None
    } else if nan(bits) {
        Some(Oddity::NotANumber)
    } else if negative(bits) {
        Some(Oddity::NegativeInfinity)
    } else {
        Some(Oddity::Infinity)
    }
}

impl Number {
    pub fn from_bits(bits: u64) -> (r: Self)
        ensures
            r.bits == bits,
    {
        Number { bits }
    }

    pub fn is_finite(self) -> (r: bool)
        ensures
            r == finite(self.bits),
    {
        (self.bits % 0x8000_0000_0000_0000) / 0x10_0000_0000_0000 != 0x7ff
    }

    pub fn is_nan(self) -> (r: bool)
        ensures
            r == nan(self.bits),
    {
        !self.is_finite() && self.bits % 0x10_0000_0000_0000 != 0
    }

    /// What the number is, where it is not finite.
    pub fn oddity(self) -> (r: Option<Oddity>)
        ensures
            r == odd(self.bits),
    {
        if self.is_finite() {
            None
        } else if self.is_nan() {
            Some(Oddity::NotANumber)
        } else if self.bits >= 0x8000_0000_0000_0000 {
            Some(Oddity::NegativeInfinity)
        } else {
            Some(Oddity::Infinity)
        }
    }

    /// The integer under which a finite number is stored, where it is stored
    /// under one.
    pub fn stored_integer(self) -> (r: Option<i64>)
        requires
            finite(self.bits),
        ensures
            match r {
                Some(n) => as_stored(self.bits) == Some(n as int),
                None => as_stored(self.bits) is None,
            },
    {
        let exp: u64 = (self.bits % 0x8000_0000_0000_0000) / 0x10_0000_0000_0000;
        let fraction: u64 = self.bits % 0x10_0000_0000_0000;
        let sig: u64 = if exp == 0 {
            fraction
        } else {
            fraction + 0x10_0000_0000_0000
        };
        assert(exp == exponent(self.bits));
        assert(sig == significand(self.bits));
        proof {
            lemma2_to64();
            lemma2_to64_rest();
        }
        let magnitude: u128 = if exp >= 1075 {
            let up: u64 = exp - 1075;
            if up > 11 {
                proof {
                    lemma_pow2_strictly_increases(11, up as nat);
                    lemma_pow2_unfold(12);
                    if up > 12 {
                        lemma_pow2_strictly_increases(12, up as nat);
                    }
                    assert(sig * pow2(up as nat) >= 0x10_0000_0000_0000 * 4096) by (nonlinear_arith)
                        requires
                            sig >= 0x10_0000_0000_0000,
                            pow2(up as nat) >= 4096,
                    ;
                }
                return None;
            }
            let factor: u64 = power(up);
            assert(pow2(up as nat) <= 2048) by {
                if up < 11 {
                    lemma_pow2_strictly_increases(up as nat, 11);
                }
            }
            assert(0 <= sig * factor <= 0x20_0000_0000_0000 * 2048) by (nonlinear_arith)
                requires
                    0 <= sig <= 0x20_0000_0000_0000,
                    0 <= factor <= 2048,
            ;
            (sig as u128) * (factor as u128)
        } else {
            let down: u64 = if exp == 0 {
                1074
            } else {
                1075 - exp
            };
            assert(down == -scale(self.bits));
            if down >= 53 {
                proof {
                    if down > 53 {
                        lemma_pow2_strictly_increases(53, down as nat);
                    }
                    assert(sig < pow2(53));
                    small_remainder(sig as int, pow2(down as nat) as int);
                }
                if sig != 0 {
                    return None;
                }
                0
            } else {
                let divisor: u64 = power(down);
                if sig % divisor != 0 {
                    return None;
                }
                assert(sig / divisor <= sig) by (nonlinear_arith)
                    requires
                        divisor >= 1,
                        sig >= 0,
                ;
                (sig / divisor) as u128
            }
        };
        assert(whole_magnitude(self.bits) == Some(magnitude as int));
        if self.bits >= 0x8000_0000_0000_0000 {
            if magnitude < 0x8000_0000_0000_0000 {
                Some(-(magnitude as i64))
            } else if magnitude == 0x8000_0000_0000_0000 {
                Some(i64::MIN)
            } else {
                None
            }
        } else if magnitude < 0x8000_0000_0000_0000 {
            Some(magnitude as i64)
        } else if magnitude == 0x8000_0000_0000_0000 {
            Some(i64::MAX)
        } else {
            None
        }
    }
}

proof fn small_remainder(n: int, d: int)
    requires
        0 <= n < d,
    ensures
        n % d == n,
        n / d == 0,
{
    vstd::arithmetic::div_mod::lemma_small_mod(n as nat, d as nat);
    vstd::arithmetic::div_mod::lemma_basic_div(n, d);
}

/// A power of two.
fn power(exponent: u64) -> (r: u64)
    requires
        exponent <= 52,
    ensures
        r == pow2(exponent as nat),
        r >= 1,
{
    let mut r: u64 = 1;
    let mut i: u64 = 0;
    proof {
        lemma2_to64();
    }
    while i < exponent
        invariant
            i <= exponent <= 52,
            r == pow2(i as nat),
        decreases exponent - i,
    {
        proof {
            lemma2_to64_rest();
            lemma_pow2_unfold((i + 1) as nat);
            lemma_pow2_strictly_increases(i as nat, 53);
        }
        r = r * 2;
        i += 1;
    }
    proof {
        lemma_pow2_pos(exponent as nat);
    }
    r
}

// ----------------------------------------------------------------- laws -----
/// A number is stored as an integer exactly when it is whole and in range, and
/// then as itself; only 2^63, which no integer column can hold, becomes its
/// neighbour.
pub proof fn whole_numbers_are_stored_as_themselves(bits: u64)
    ensures
        as_stored(bits) matches Some(n) ==> i64::MIN <= n <= i64::MAX,
        as_stored(bits) is Some <==> (whole(bits) matches Some(n) && i64::MIN <= n <= i64::MAX + 1),
        whole(bits) matches Some(n) ==> (i64::MIN <= n <= i64::MAX ==> as_stored(bits) == Some(n)),
{
}

/// Whole numbers of 53 binary digits have the bits that they should: the exponent
/// of 52 and what stands behind the leading one. Zero has none.
pub proof fn whole_numbers_have_their_bits(k: u64)
    requires
        0x10_0000_0000_0000 <= k < 0x20_0000_0000_0000,
    ensures
        whole((1074 * 0x10_0000_0000_0000 + k) as u64) == Some(k as int),
        whole(0) == Some(0int),
{
    let bits = (1074 * 0x10_0000_0000_0000 + k) as u64;
    assert(bits == 1074 * 0x10_0000_0000_0000 + k);
    assert(bits < 0x8000_0000_0000_0000);
    assert(exponent(bits) == 1075);
    assert(significand(bits) == k);
    lemma2_to64();
    assert(pow2(0) == 1);
    assert(k * 1 == k);
    assert(exponent(0) == 0);
    assert(significand(0) == 0);
    lemma_pow2_pos(1074);
    assert(0int % (pow2(1074) as int) == 0 && 0int / (pow2(1074) as int) == 0) by (nonlinear_arith)
        requires
            pow2(1074) > 0,
    ;
}

/// The sign bit changes the sign and nothing else.
pub proof fn a_sign_is_only_a_sign(bits: u64)
    requires
        bits < 0x8000_0000_0000_0000,
    ensures
        whole((bits + 0x8000_0000_0000_0000) as u64) == (match whole(bits) {
            Some(n) => Some(-n),
            None => None,
        }),
        finite((bits + 0x8000_0000_0000_0000) as u64) <==> finite(bits),
        finite(bits) <==> bits < 0x7ff0_0000_0000_0000,
{
    let signed = (bits + 0x8000_0000_0000_0000) as u64;
    assert(signed == bits + 0x8000_0000_0000_0000);
    assert(exponent(signed) == exponent(bits));
    assert(significand(signed) == significand(bits));
}

/// One more in the exponent is twice the number: a number is whole where its
/// double is even.
pub proof fn one_more_in_the_exponent_doubles(bits: u64)
    requires
        bits < 0x7fe0_0000_0000_0000,
        bits >= 0x10_0000_0000_0000,
    ensures
        whole(bits) matches Some(n) ==> whole((bits + 0x10_0000_0000_0000) as u64) == Some(2 * n),
        whole((bits + 0x10_0000_0000_0000) as u64) matches Some(m) ==> (whole(bits) is Some <==> m
            % 2 == 0),
{
    let more = (bits + 0x10_0000_0000_0000) as u64;
    assert(more == bits + 0x10_0000_0000_0000);
    assert(exponent(more) == exponent(bits) + 1);
    assert(significand(more) == significand(bits));
    let s = significand(bits);
    if scale(bits) >= 0 {
        let e = scale(bits) as nat;
        lemma_pow2_unfold(e + 1);
        let p = pow2(e) as int;
        assert(s * (2 * p) == 2 * (s * p)) by (nonlinear_arith);
        assert((2 * (s * p)) % 2 == 0);
    } else {
        let j = (-scale(bits)) as nat;
        lemma_pow2_unfold(j);
        lemma_pow2_pos((j - 1) as nat);
        let p = pow2((j - 1) as nat) as int;
        halves(s, p);
        if j == 1 {
            lemma2_to64();
            assert(s * 1 == s);
            assert(s % 1 == 0 && s / 1 == s);
        }
    }
}

proof fn halves(s: int, p: int)
    requires
        p > 0,
        s >= 0,
    ensures
        s % (2 * p) == 0 ==> s % p == 0 && s / p == 2 * (s / (2 * p)),
        s % p == 0 ==> (s % (2 * p) == 0 <==> (s / p) % 2 == 0),
{
    let (q, r) = (s / p, s % p);
    let (h, b) = (q / 2, q % 2);
    vstd::arithmetic::div_mod::lemma_fundamental_div_mod(s, p);
    assert(s == p * q + r);
    assert(q == 2 * h + b);
    assert(s == (2 * p) * h + (p * b + r)) by (nonlinear_arith)
        requires
            s == p * q + r,
            q == 2 * h + b,
    ;
    assert(0 <= p * b + r < 2 * p) by (nonlinear_arith)
        requires
            0 <= b < 2,
            0 <= r < p,
    ;
    vstd::arithmetic::div_mod::lemma_fundamental_div_mod_converse(s, 2 * p, h, p * b + r);
    assert(p * b + r == 0 ==> r == 0 && b == 0) by (nonlinear_arith)
        requires
            0 <= b < 2,
            0 <= r,
            p > 0,
    ;
    assert(r == 0 && b == 0 ==> p * b + r == 0) by (nonlinear_arith);
}

} // verus!
