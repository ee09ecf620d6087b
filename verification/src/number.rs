//! Numbers as they occur in records and literals.
//!
//! A number is an integer, or a double given by its IEEE-754 bit pattern.
//! Numbers compare by value, and a double that is an integer coerces to it.

use vstd::prelude::*;
use vstd::arithmetic::div_mod::{lemma_fundamental_div_mod, lemma_small_mod};
use vstd::arithmetic::power2::{
    lemma2_to64,
    lemma2_to64_rest,
    lemma_pow2_adds,
    lemma_pow2_pos,
    lemma_pow2_strictly_increases,
    pow2,
};
use vstd::bits::lemma_u64_shl_is_mul;

verus! {

/// The sign bit of a double.
pub const SIGN_BIT: u64 = 0x8000_0000_0000_0000;

/// The bits of positive infinity: among the bit patterns without sign, the
/// ones above it are the NaNs.
pub const INFINITY_BITS: u64 = 0x7FF0_0000_0000_0000;

/// Two to the power of 52: the weight of a double's exponent field in its
/// bits, and of the leading one of its significand.
pub const HIDDEN_BIT: u64 = 0x0010_0000_0000_0000;

/// The exponent field of the doubles whose significand counts units of one.
pub const UNIT_EXPONENT: u64 = 1075;

/// A number: an integer, or a double kept by its IEEE-754 bit pattern.
#[derive(Clone, Copy, Debug)]
pub enum Number {
    /// An integer.
    Int(i64),
    /// A double, as its 64 bits: sign, 11 bits of exponent, 52 of fraction.
    Float(u64),
}

/// The bit pattern `bits` with its sign bit cleared.
pub open spec fn magnitude(bits: u64) -> int {
    if bits >= SIGN_BIT {
        bits - SIGN_BIT
    } else {
        bits as int
    }
}

/// Whether the double with these bits is a NaN.
pub open spec fn is_nan(bits: u64) -> bool {
    magnitude(bits) > INFINITY_BITS
}

/// Equality of two doubles given by their bits: a NaN equals nothing, the
/// two zeros equal each other, and any other double equals only itself.
pub open spec fn float_equals(a: u64, b: u64) -> bool {
    &&& !is_nan(a)
    &&& !is_nan(b)
    &&& (a == b || (magnitude(a) == 0 && magnitude(b) == 0))
}

/// The integer that the double with these bits is, if it is one.
///
/// With exponent field `e` between 1 and 2046 and fraction field `f`, the
/// double is the significand `2^52 + f` times `2^(e - 1075)`, negated where
/// the sign bit is set. With `e` zero it is `f` times `2^-1074`, which is an
/// integer only for the two zeros; with `e` 2047 it is no number or infinite.
pub open spec fn float_integer(bits: u64) -> Option<int> {
    let exponent = magnitude(bits) / (HIDDEN_BIT as int);
    let fraction = magnitude(bits) % (HIDDEN_BIT as int);
    let significand = HIDDEN_BIT + fraction;
    let size: Option<int> = if exponent == 0 {
        if fraction == 0 {
            Some(0)
        } else {
            None
        }
    } else if exponent == 2047 {
        None
    } else if exponent >= UNIT_EXPONENT {
        Some(significand * pow2((exponent - UNIT_EXPONENT) as nat))
    } else if significand % (pow2((UNIT_EXPONENT - exponent) as nat) as int) == 0 {
        Some(significand / (pow2((UNIT_EXPONENT - exponent) as nat) as int))
    } else {
        None
    };
    match size {
        Some(n) => Some(if bits >= SIGN_BIT { -n } else { n }),
        None => None,
    }
}

/// An integer that may be absent, kept only where an `i64` can hold it.
pub open spec fn within_i64(n: Option<int>) -> Option<int> {
    match n {
        Some(n) if i64::MIN <= n <= i64::MAX => Some(n),
        _ => None,
    }
}

/// The integer that an `i64` that may be absent stands for.
pub open spec fn option_int(n: Option<i64>) -> Option<int> {
    match n {
        Some(n) => Some(n as int),
        None => None,
    }
}

/// The integer that the double with these bits is, where an `i64` holds it.
fn float_as_i64(bits: u64) -> (result: Option<i64>)
    ensures
        option_int(result) == within_i64(float_integer(bits)),
{
    let negative = bits >= SIGN_BIT;
    let size: u64 = if negative { bits - SIGN_BIT } else { bits };
    let exponent: u64 = size / HIDDEN_BIT;
    let fraction: u64 = size % HIDDEN_BIT;
    let significand: u64 = HIDDEN_BIT + fraction;
    proof {
        lemma2_to64();
        lemma2_to64_rest();
        assert(size == magnitude(bits));
        assert(exponent <= 2047);
    }
    if size == 0 {
        assert(float_integer(bits) == Some(0int));
        Some(0)
    } else if exponent < 1023 {
        proof {
            // The double is below one in size, and not zero.
            if exponent > 0 {
                let down = (UNIT_EXPONENT - exponent) as nat;
                if down > 53 {
                    lemma_pow2_strictly_increases(53, down);
                }
                lemma_small_mod(significand as nat, pow2(down));
            }
            assert(float_integer(bits) is None);
        }
        None
    } else if exponent < UNIT_EXPONENT {
        let down: u64 = UNIT_EXPONENT - exponent;
        let unit: u64 = 1u64 << down;
        proof {
            if down < 52 {
                lemma_pow2_strictly_increases(down as nat, 52);
            }
            lemma_u64_shl_is_mul(1, down);
            assert(unit == pow2((UNIT_EXPONENT - exponent) as nat));
        }
        if significand % unit == 0 {
            let n: u64 = significand / unit;
            assert(float_integer(bits) == Some(if negative { -(n as int) } else { n as int }));
            Some(if negative { -(n as i64) } else { n as i64 })
        } else {
            assert(float_integer(bits) is None);
            None
        }
    } else if exponent <= UNIT_EXPONENT + 10 {
        let up: u64 = exponent - UNIT_EXPONENT;
        proof {
            if up < 10 {
                lemma_pow2_strictly_increases(up as nat, 10);
            }
            lemma_pow2_pos(up as nat);
            assert(significand * pow2(up as nat) < 0x8000_0000_0000_0000) by (nonlinear_arith)
                requires
                    significand < 0x20_0000_0000_0000,
                    0 < pow2(up as nat) <= 0x400,
            ;
            lemma_u64_shl_is_mul(significand, up);
        }
        let n: u64 = significand << up;
        assert(n == significand * pow2((exponent - UNIT_EXPONENT) as nat));
        assert(float_integer(bits) == Some(if negative { -(n as int) } else { n as int }));
        Some(if negative { -(n as i64) } else { n as i64 })
    } else if exponent == UNIT_EXPONENT + 11 && negative && fraction == 0 {
        assert(float_integer(bits) == Some(-(HIDDEN_BIT * pow2(11))));
        Some(i64::MIN)
    } else {
        proof {
            // The double is at least two to the power of 63 in size, and
            // only the negative of that power is an `i64`.
            if exponent < 2047 {
                let up = (exponent - UNIT_EXPONENT) as nat;
                if up > 11 {
                    lemma_pow2_strictly_increases(11, up);
                }
                assert(significand * pow2(up) >= 0x8000_0000_0000_0000) by (nonlinear_arith)
                    requires
                        significand >= 0x10_0000_0000_0000,
                        pow2(up) >= 0x800,
                ;
                assert(fraction > 0 || up > 11 ==> significand * pow2(up)
                    > 0x8000_0000_0000_0000) by (nonlinear_arith)
                    requires
                        significand >= 0x10_0000_0000_0000,
                        pow2(up) >= 0x800,
                        fraction > 0 ==> significand > 0x10_0000_0000_0000,
                        up > 11 ==> pow2(up) > 0x800,
                ;
                assert(float_integer(bits) == Some(
                    if negative {
                        -(significand * pow2(up))
                    } else {
                        significand * pow2(up)
                    },
                ));
            } else {
                assert(float_integer(bits) is None);
            }
        }
        None
    }
}

impl Number {
    /// The integer that the number is, if it is one.
    pub open spec fn integer(self) -> Option<int> {
        match self {
            Number::Int(n) => Some(n as int),
            Number::Float(bits) => float_integer(bits),
        }
    }

    /// Equality of numbers, by value: an integer equals the double that is
    /// that integer.
    pub open spec fn equals(self, other: Number) -> bool {
        match (self, other) {
            (Number::Int(a), Number::Int(b)) => a == b,
            (Number::Float(a), Number::Float(b)) => float_equals(a, b),
            (Number::Int(a), Number::Float(b)) => float_integer(b) == Some(a as int),
            (Number::Float(a), Number::Int(b)) => float_integer(a) == Some(b as int),
        }
    }

    /// The number as an `i64`: it has one where it is an integer that an
    /// `i64` can hold.
    pub fn as_i64(&self) -> (result: Option<i64>)
        ensures
            option_int(result) == within_i64(self.integer()),
    {
        match self {
            Number::Int(n) => Some(*n),
            Number::Float(bits) => float_as_i64(*bits),
        }
    }
}

/// Whether the doubles with these bits are equal.
fn float_same(a: u64, b: u64) -> (result: bool)
    ensures
        result == float_equals(a, b),
{
    let size_a: u64 = if a >= SIGN_BIT { a - SIGN_BIT } else { a };
    let size_b: u64 = if b >= SIGN_BIT { b - SIGN_BIT } else { b };
    size_a <= INFINITY_BITS && size_b <= INFINITY_BITS && (a == b || (size_a == 0 && size_b == 0))
}

/// Whether the double with these bits is the integer `n`.
fn float_is(bits: u64, n: i64) -> (result: bool)
    ensures
        result == (float_integer(bits) == Some(n as int)),
{
    match float_as_i64(bits) {
        Some(m) => m == n,
        None => false,
    }
}

impl PartialEq for Number {
    fn eq(&self, other: &Number) -> (result: bool) {
        match (self, other) {
            (Number::Int(a), Number::Int(b)) => *a == *b,
            (Number::Float(a), Number::Float(b)) => float_same(*a, *b),
            (Number::Int(a), Number::Float(b)) => float_is(*b, *a),
            (Number::Float(a), Number::Int(b)) => float_is(*a, *b),
        }
    }
}

impl vstd::std_specs::cmp::PartialEqSpecImpl for Number {
    open spec fn obeys_eq_spec() -> bool {
        true
    }

    open spec fn eq_spec(&self, other: &Number) -> bool {
        self.equals(*other)
    }
}

/// An integer without its sign.
pub open spec fn absolute(n: int) -> int {
    if n < 0 {
        -n
    } else {
        n
    }
}

/// Where a double is an integer other than zero, its exponent field says
/// between which powers of two the integer lies, and the significand is the
/// integer scaled by the power of two that the exponent field stands for.
proof fn lemma_float_integer_scale(bits: u64)
    requires
        float_integer(bits) is Some,
        magnitude(bits) != 0,
    ensures
        ({
            let exponent = magnitude(bits) / (HIDDEN_BIT as int);
            let significand = HIDDEN_BIT + magnitude(bits) % (HIDDEN_BIT as int);
            let size = absolute(float_integer(bits)->0);
            &&& 1023 <= exponent <= 2046
            &&& pow2((exponent - 1023) as nat) <= size < pow2((exponent - 1022) as nat)
            &&& exponent >= UNIT_EXPONENT ==> size == significand * pow2(
                (exponent - UNIT_EXPONENT) as nat,
            )
            &&& exponent < UNIT_EXPONENT ==> significand == size * pow2(
                (UNIT_EXPONENT - exponent) as nat,
            )
            &&& (float_integer(bits)->0 < 0) == (bits >= SIGN_BIT)
        }),
{
    let exponent = magnitude(bits) / (HIDDEN_BIT as int);
    let fraction = magnitude(bits) % (HIDDEN_BIT as int);
    let significand = HIDDEN_BIT + fraction;
    let size = absolute(float_integer(bits)->0);
    lemma2_to64();
    lemma2_to64_rest();
    assert(0x10_0000_0000_0000 <= significand < 0x20_0000_0000_0000);
    if exponent >= UNIT_EXPONENT {
        let up = (exponent - UNIT_EXPONENT) as nat;
        let unit = pow2(up);
        lemma_pow2_pos(up);
        lemma_pow2_adds(52, up);
        lemma_pow2_adds(53, up);
        assert(pow2(52) * unit <= significand * unit < pow2(53) * unit) by (nonlinear_arith)
            requires
                pow2(52) <= significand < pow2(53),
                unit > 0,
        ;
    } else {
        let down = (UNIT_EXPONENT - exponent) as nat;
        let unit = pow2(down);
        lemma_pow2_pos(down);
        if down > 52 {
            lemma_pow2_strictly_increases(52, down);
            if down > 53 {
                lemma_pow2_strictly_increases(53, down);
            }
            lemma_small_mod(significand as nat, unit);
            assert(false);
        }
        lemma_fundamental_div_mod(significand, unit as int);
        assert(significand == size * unit) by (nonlinear_arith)
            requires
                significand == unit * (significand / (unit as int)) + 0,
                size == significand / (unit as int),
        ;
        lemma_pow2_adds((52 - down) as nat, down);
        lemma_pow2_adds((53 - down) as nat, down);
        let low = pow2((52 - down) as nat);
        let high = pow2((53 - down) as nat);
        assert(low <= size < high) by (nonlinear_arith)
            requires
                low * unit <= size * unit < high * unit,
                unit > 0,
        ;
    }
}

/// Two doubles that are the same integer are equal.
pub proof fn lemma_float_integer_injective(a: u64, b: u64)
    requires
        float_integer(a) is Some,
        float_integer(a) == float_integer(b),
    ensures
        float_equals(a, b),
{
    lemma2_to64();
    lemma2_to64_rest();
    if magnitude(a) == 0 || magnitude(b) == 0 {
        if magnitude(a) != 0 {
            lemma_float_integer_scale(a);
            lemma_pow2_pos((magnitude(a) / (HIDDEN_BIT as int) - 1023) as nat);
        }
        if magnitude(b) != 0 {
            lemma_float_integer_scale(b);
            lemma_pow2_pos((magnitude(b) / (HIDDEN_BIT as int) - 1023) as nat);
        }
    } else {
        lemma_float_integer_scale(a);
        lemma_float_integer_scale(b);
        let ea = magnitude(a) / (HIDDEN_BIT as int);
        let eb = magnitude(b) / (HIDDEN_BIT as int);
        let sa = HIDDEN_BIT + magnitude(a) % (HIDDEN_BIT as int);
        let sb = HIDDEN_BIT + magnitude(b) % (HIDDEN_BIT as int);
        let size = absolute(float_integer(a)->0);
        if ea < eb {
            if ea + 1 < eb {
                lemma_pow2_strictly_increases((ea - 1022) as nat, (eb - 1023) as nat);
            }
            assert(false);
        }
        if eb < ea {
            if eb + 1 < ea {
                lemma_pow2_strictly_increases((eb - 1022) as nat, (ea - 1023) as nat);
            }
            assert(false);
        }
        if ea >= UNIT_EXPONENT {
            let unit = pow2((ea - UNIT_EXPONENT) as nat);
            lemma_pow2_pos((ea - UNIT_EXPONENT) as nat);
            assert(sa == sb) by (nonlinear_arith)
                requires
                    sa * unit == sb * unit,
                    unit > 0,
            ;
        }
        lemma_fundamental_div_mod(magnitude(a), HIDDEN_BIT as int);
        lemma_fundamental_div_mod(magnitude(b), HIDDEN_BIT as int);
        assert(magnitude(a) == magnitude(b));
        assert(magnitude(a) < INFINITY_BITS) by {
            assert(HIDDEN_BIT * ea + (sa - HIDDEN_BIT) < 0x7FF0_0000_0000_0000) by (nonlinear_arith)
                requires
                    ea <= 2046,
                    HIDDEN_BIT == 0x10_0000_0000_0000,
                    HIDDEN_BIT <= sa < 2 * HIDDEN_BIT,
            ;
        }
    }
}

impl Number {
    /// Equality of numbers does not depend on the order of its operands, it
    /// carries over from one pair of numbers to the next, and equal numbers
    /// are the same integer or both none.
    pub proof fn lemma_equality(self, other: Number, third: Number)
        ensures
            self.equals(other) == other.equals(self),
            self.equals(other) && other.equals(third) ==> self.equals(third),
            self.equals(other) ==> self.integer() == other.integer(),
    {
        if self.equals(other) {
            match (self, other) {
                (Number::Float(a), Number::Float(b)) => {
                    if a != b {
                        assert(float_integer(a) == Some(0int));
                        assert(float_integer(b) == Some(0int));
                    }
                },
                _ => {},
            }
            if other.equals(third) {
                match (self, other, third) {
                    (Number::Float(a), Number::Int(_), Number::Float(c)) => {
                        lemma_float_integer_injective(a, c);
                    },
                    (Number::Float(_), Number::Float(b), Number::Float(c))
                    | (Number::Int(_), Number::Float(b), Number::Float(c)) => {
                        if b != c {
                            assert(float_integer(b) == Some(0int));
                            assert(float_integer(c) == Some(0int));
                        }
                    },
                    _ => {},
                }
            }
        }
    }
}

} // verus!
