//! JavaScript numbers as the analyzer holds them: an exact integer, or a
//! double kept by its IEEE-754 bit pattern together with its decimal rendering.

use vstd::prelude::*;
use vstd::arithmetic::power2::{lemma2_to64, lemma2_to64_rest, lemma_pow2_strictly_increases, pow2};
use crate::text::{joined, chars_of, text_of_range, signed_decimal, signed_decimal_text};

verus! {

/// Two to the power 52: the weight of the implicit leading bit of a double.
pub const HIDDEN_BIT: u64 = 0x10_0000_0000_0000;

/// Two to the power 63: the weight of the sign bit of a double.
pub const SIGN_BIT: u64 = 0x8000_0000_0000_0000;

/// Two to the power 53: up to this magnitude every integer is a double.
pub const SAFE_LIMIT: i64 = 0x20_0000_0000_0000;

/// A number of a static value.
#[derive(Debug)]
pub enum JsNumber {
    /// An integer in the signed 64-bit range.
    Int(i64),
    /// A finite double that is not such an integer: its bit pattern and the
    /// decimal text that stands for it in JSON.
    Real { bits: u64, text: String },
}

/// The mathematical value of a [`JsNumber`].
pub enum Num {
    Int(int),
    Real { bits: u64, text: Seq<char> },
}

impl View for JsNumber {
    type V = Num;

    open spec fn view(&self) -> Num {
        match self {
            JsNumber::Int(n) => Num::Int(*n as int),
            JsNumber::Real { bits, text } => Num::Real { bits: *bits, text: text@ },
        }
    }
}

/// The biased exponent field of a double.
pub open spec fn exponent_field(bits: u64) -> nat {
    ((bits as nat) / 0x10_0000_0000_0000) % 2048
}

/// The fraction field of a double.
pub open spec fn fraction_field(bits: u64) -> nat {
    (bits as nat) % 0x10_0000_0000_0000
}

/// Whether the sign bit of a double is set.
pub open spec fn is_negative(bits: u64) -> bool {
    bits >= 0x8000_0000_0000_0000
}

/// The integer `s` such that the magnitude of the double is `s * 2^scale`.
pub open spec fn significand(bits: u64) -> nat {
    if exponent_field(bits) == 0 {
        fraction_field(bits)
    } else {
        0x10_0000_0000_0000 + fraction_field(bits)
    }
}

/// The power of two by which the significand is scaled.
pub open spec fn scale(bits: u64) -> int {
    if exponent_field(bits) == 0 {
        -1074
    } else {
        exponent_field(bits) - 1075
    }
}

/// The magnitude of a finite double when it is a whole number.
pub open spec fn integral_magnitude(bits: u64) -> Option<nat> {
    let s = significand(bits);
    let e = scale(bits);
    if s == 0 {
        Some(0)
    } else if e >= 0 {
        Some(s * pow2(e as nat))
    } else if s % pow2((-e) as nat) == 0 {
        Some(s / pow2((-e) as nat))
    } else {
        None
    }
}

/// What a double is to the analyzer.
#[derive(Clone, Copy, Debug, PartialEq, Eq, Structural)]
pub enum DoubleClass {
    /// Not a number, or infinite.
    NotFinite,
    /// A whole number in the signed 64-bit range, as that integer.
    Integer(i64),
    /// Any other finite double.
    Fractional,
}

/// The class of the double with the given bit pattern: a whole number from
/// -2^63 to 2^63 - 1 is that integer, and any other finite double is
/// fractional: a whole number beyond the signed 64-bit range stays the
/// double that it is.
pub open spec fn spec_classify(bits: u64) -> DoubleClass {
    if exponent_field(bits) == 2047 {
        DoubleClass::NotFinite
    } else {
        match integral_magnitude(bits) {
            Some(m) => if is_negative(bits) && m <= 0x8000_0000_0000_0000 {
                DoubleClass::Integer((-(m as int)) as i64)
            } else if !is_negative(bits) && m < 0x8000_0000_0000_0000 {
                DoubleClass::Integer(m as i64)
            } else {
                DoubleClass::Fractional
            },
            None => DoubleClass::Fractional,
        }
    }
}

fn power_of_two(k: u64) -> (r: u64)
    requires
        k <= 52,
    ensures
        r == pow2(k as nat),
        r <= 0x10_0000_0000_0000,
{
    let mut r: u64 = 1;
    let mut i: u64 = 0;
    proof {
        lemma2_to64();
        lemma2_to64_rest();
    }
    while i < k
        invariant
            i <= k <= 52,
            r == pow2(i as nat),
            pow2(52) == 0x10_0000_0000_0000,
        decreases k - i,
    {
        proof {
            vstd::arithmetic::power2::lemma_pow2_unfold((i + 1) as nat);
            if i + 1 < 52 {
                lemma_pow2_strictly_increases((i + 1) as nat, 52);
            }
        }
        r = r * 2;
        i = i + 1;
    }
    proof {
        if k < 52 {
            lemma_pow2_strictly_increases(k as nat, 52);
        }
    }
    r
}

/// Classifies the double with the given bit pattern.
pub fn classify_double(bits: u64) -> (r: DoubleClass)
    ensures
        r == spec_classify(bits),
{
    let exponent: u64 = (bits / HIDDEN_BIT) % 2048;
    let fraction: u64 = bits % HIDDEN_BIT;
    let negative = bits >= SIGN_BIT;
    proof {
        lemma2_to64();
        lemma2_to64_rest();
    }
    if exponent == 2047 {
        return DoubleClass::NotFinite;
    }
    if exponent == 0 {
        if fraction == 0 {
            return DoubleClass::Integer(0);
        }
        proof {
            lemma_pow2_strictly_increases(52, 1074);
            vstd::arithmetic::div_mod::lemma_small_mod(fraction as nat, pow2(1074));
        }
        return DoubleClass::Fractional;
    }
    let s: u64 = HIDDEN_BIT + fraction;
    if exponent >= 1075 {
        let shift: u64 = exponent - 1075;
        if shift <= 10 {
            let p = power_of_two(shift);
            proof {
                if shift < 10 {
                    lemma_pow2_strictly_increases(shift as nat, 10);
                }
                assert(s * p < 0x8000_0000_0000_0000) by (nonlinear_arith)
                    requires
                        s < 0x20_0000_0000_0000,
                        p <= 0x400,
                ;
            }
            let m: u64 = s * p;
            if negative {
                DoubleClass::Integer(-(m as i64))
            } else {
                DoubleClass::Integer(m as i64)
            }
        } else if shift == 11 && fraction == 0 {
            assert(s * pow2(11) == 0x8000_0000_0000_0000);
            if negative {
                DoubleClass::Integer(i64::MIN)
            } else {
                DoubleClass::Fractional
            }
        } else {
            proof {
                let p = pow2(shift as nat);
                if shift == 11 {
                    assert(s * p > 0x8000_0000_0000_0000) by (nonlinear_arith)
                        requires
                            s > 0x10_0000_0000_0000,
                            p == 0x800,
                    ;
                } else {
                    if shift > 12 {
                        lemma_pow2_strictly_increases(12, shift as nat);
                    }
                    assert(s * p > 0x8000_0000_0000_0000) by (nonlinear_arith)
                        requires
                            s >= 0x10_0000_0000_0000,
                            p >= 0x1000,
                    ;
                }
            }
            DoubleClass::Fractional
        }
    } else {
        let k: u64 = 1075 - exponent;
        if k >= 53 {
            proof {
                if k > 53 {
                    lemma_pow2_strictly_increases(53, k as nat);
                }
                vstd::arithmetic::div_mod::lemma_small_mod(s as nat, pow2(k as nat));
            }
            DoubleClass::Fractional
        } else {
            let d = power_of_two(k);
            proof {
                vstd::arithmetic::power2::lemma_pow2_pos(k as nat);
            }
            if s % d == 0 {
                let m: u64 = s / d;
                if negative {
                    DoubleClass::Integer(-(m as i64))
                } else {
                    DoubleClass::Integer(m as i64)
                }
            } else {
                DoubleClass::Fractional
            }
        }
    }
}

/// The number that a double stands for, if it is finite: see [`spec_classify`].
pub open spec fn spec_from_double(bits: u64, text: Seq<char>) -> Option<Num> {
    match spec_classify(bits) {
        DoubleClass::NotFinite => None,
        DoubleClass::Integer(n) => Some(Num::Int(n as int)),
        DoubleClass::Fractional => Some(Num::Real { bits, text }),
    }
}

/// The text of a number, as it stands in JSON and in a concatenated string.
pub open spec fn number_text(n: Num) -> Seq<char> {
    match n {
        Num::Int(v) => signed_decimal(v),
        Num::Real { bits, text } => text,
    }
}

/// A decimal text with its sign reversed.
pub open spec fn flip_sign(text: Seq<char>) -> Seq<char> {
    if text.len() > 0 && text[0] == '-' {
        text.subrange(1, text.len() as int)
    } else {
        seq!['-'] + text
    }
}

/// The bit pattern of a double with its sign reversed.
pub open spec fn flip_sign_bit(bits: u64) -> u64 {
    if bits >= 0x8000_0000_0000_0000 {
        (bits - 0x8000_0000_0000_0000) as u64
    } else {
        (bits + 0x8000_0000_0000_0000) as u64
    }
}

/// Whether an integer is a double without rounding.
pub open spec fn is_safe(v: int) -> bool {
    -0x20_0000_0000_0000 <= v <= 0x20_0000_0000_0000
}

/// The negation of a number, where it is known without floating-point
/// arithmetic: an integer that is a double without rounding, or a double
/// that is not an integer.
pub open spec fn spec_negated(n: Num) -> Option<Num> {
    match n {
        Num::Int(v) => if is_safe(v) {
            Some(Num::Int(-v))
        } else {
            None
        },
        Num::Real { bits, text } => Some(
            Num::Real { bits: flip_sign_bit(bits), text: flip_sign(text) },
        ),
    }
}

/// The sum of two numbers, where it is known without floating-point
/// arithmetic: both are integers that are doubles without rounding, and so
/// is their sum.
pub open spec fn spec_sum(a: Num, b: Num) -> Option<Num> {
    match (a, b) {
        (Num::Int(x), Num::Int(y)) => if is_safe(x) && is_safe(y) && is_safe(x + y) {
            Some(Num::Int(x + y))
        } else {
            None
        },
        _ => None,
    }
}

/// The number as an unsigned integer: only a non-negative integer is one.
pub open spec fn spec_unsigned(n: Num) -> Option<nat> {
    match n {
        Num::Int(v) => if v >= 0 {
            Some(v as nat)
        } else {
            None
        },
        Num::Real { .. } => None,
    }
}

/// The view of an optional number.
pub open spec fn number_view(o: Option<JsNumber>) -> Option<Num> {
    match o {
        Some(n) => Some(n@),
        None => None,
    }
}

impl JsNumber {
    /// The number for the double with the given bit pattern, whose decimal
    /// rendering is `text`; `None` when the double is not finite.
    pub fn from_double(bits: u64, text: String) -> (r: Option<JsNumber>)
        ensures
            number_view(r) == spec_from_double(bits, text@),
    {
        match classify_double(bits) {
            DoubleClass::NotFinite => None,
            DoubleClass::Integer(n) => Some(JsNumber::Int(n)),
            DoubleClass::Fractional => Some(JsNumber::Real { bits, text }),
        }
    }

    /// The text of the number.
    pub fn text(&self) -> (r: String)
        ensures
            r@ == number_text(self@),
    {
        match self {
            JsNumber::Int(v) => signed_decimal_text(*v),
            JsNumber::Real { bits, text } => text.clone(),
        }
    }

    /// A copy of the number.
    pub fn duplicate(&self) -> (r: JsNumber)
        ensures
            r@ == self@,
    {
        match self {
            JsNumber::Int(v) => JsNumber::Int(*v),
            JsNumber::Real { bits, text } => JsNumber::Real { bits: *bits, text: text.clone() },
        }
    }

    /// The negation of the number: see [`spec_negated`].
    pub fn negated(&self) -> (r: Option<JsNumber>)
        ensures
            number_view(r) == spec_negated(self@),
    {
        match self {
            JsNumber::Int(v) => {
                if -SAFE_LIMIT <= *v && *v <= SAFE_LIMIT {
                    Some(JsNumber::Int(-*v))
                } else {
                    None
                }
            },
            JsNumber::Real { bits, text } => {
                let flipped: u64 = if *bits >= SIGN_BIT {
                    *bits - SIGN_BIT
                } else {
                    *bits + SIGN_BIT
                };
                let chars = chars_of(text.as_str());
                let new_text = if chars.len() > 0 && chars[0] == '-' {
                    text_of_range(&chars, 1, chars.len())
                } else {
                    joined("-", text.as_str())
                };
                proof {
                    reveal_strlit("-");
                    assert("-"@ == seq!['-']);
                }
                Some(JsNumber::Real { bits: flipped, text: new_text })
            },
        }
    }

    /// The sum of two numbers: see [`spec_sum`].
    pub fn plus(&self, other: &JsNumber) -> (r: Option<JsNumber>)
        ensures
            number_view(r) == spec_sum(self@, other@),
    {
        match (self, other) {
            (JsNumber::Int(x), JsNumber::Int(y)) => {
                if -SAFE_LIMIT <= *x && *x <= SAFE_LIMIT && -SAFE_LIMIT <= *y && *y <= SAFE_LIMIT {
                    let sum: i64 = *x + *y;
                    if -SAFE_LIMIT <= sum && sum <= SAFE_LIMIT {
                        Some(JsNumber::Int(sum))
                    } else {
                        None
                    }
                } else {
                    None
                }
            },
            _ => None,
        }
    }

    /// The number as an unsigned integer: see [`spec_unsigned`].
    pub fn as_unsigned(&self) -> (r: Option<u64>)
        ensures
            match r {
                Some(v) => spec_unsigned(self@) == Some(v as nat),
                None => spec_unsigned(self@) is None,
            },
    {
        match self {
            JsNumber::Int(v) => if *v >= 0 {
                Some(*v as u64)
            } else {
                None
            },
            JsNumber::Real { .. } => None,
        }
    }
}

} // verus!
