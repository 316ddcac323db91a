//! Whole numbers as double-precision numbers, by integer arithmetic on the bit pattern.
//!
//! A finite double with the exponent field `e` (from 1 to 2046) and the fraction field
//! `f` has the value `(2^52 + f) * 2^(e - 1075)`, and its bit pattern is
//! `e * 2^52 + f`, with `2^63` added where it is negative. A whole number is held
//! exactly by a double when it is 0 or can be written as `s * 2^k` with
//! `2^52 <= s < 2^53`, doubling or halving as often as needed. The conversion is proved
//! against that value: what it gives has the number as its value, and where it gives
//! nothing, no double has.

use crate::json::{is_finite_bits, JsonNumber};
use vstd::arithmetic::power2::{
    lemma2_to64, lemma2_to64_rest, lemma_pow2_pos, lemma_pow2_strictly_increases,
    lemma_pow2_unfold, pow2,
};
use vstd::prelude::*;

verus! {

/// A significand of 53 bits or fewer reached from `sig` by halving, and the exponent
/// that goes with it; `None` where an odd number stands in the way, so that the value
/// needs more than 53 bits.
pub open spec fn narrowed(sig: nat, exp: nat) -> Option<(nat, nat)>
    decreases sig,
{
    if sig < 0x20_0000_0000_0000 {
        Some((sig, exp))
    } else if sig % 2 == 1 {
        None
    } else {
        narrowed(sig / 2, exp + 1)
    }
}

/// The significand of exactly 53 bits reached from `sig` by doubling, and the exponent
/// that goes with it.
pub open spec fn widened(sig: nat, exp: nat) -> (nat, nat)
    decreases 0x20_0000_0000_0000 - sig,
{
    if sig == 0 || sig >= 0x10_0000_0000_0000 || exp == 0 {
        (sig, exp)
    } else {
        widened(sig * 2, (exp - 1) as nat)
    }
}

/// The bit pattern of the positive double whose value is `magnitude`, if there is one.
pub open spec fn double_of_magnitude(magnitude: nat) -> Option<u64> {
    match narrowed(magnitude, 1075) {
        None => None,
        Some((sig, exp)) => {
            let (s, e) = widened(sig, exp);
            if s < 0x10_0000_0000_0000 || e == 0 || e >= 2047 {
                None
            } else {
                Some((e * 0x10_0000_0000_0000 + (s - 0x10_0000_0000_0000)) as u64)
            }
        },
    }
}

/// The bit pattern of the double whose value is `n`, if there is one.
pub open spec fn double_of_unsigned(n: u64) -> Option<u64> {
    if n == 0 {
        Some(0)
    } else {
        double_of_magnitude(n as nat)
    }
}

/// The bit pattern of the double whose value is `n`, if there is one. A negative
/// number has the pattern of its magnitude with the sign bit set.
pub open spec fn double_of_signed(n: i64) -> Option<u64> {
    if n >= 0 {
        double_of_unsigned(n as u64)
    } else {
        match double_of_magnitude((-n) as nat) {
            Some(bits) => Some((bits + 0x8000_0000_0000_0000) as u64),
            None => None,
        }
    }
}

/// The bit pattern of the finite double that a JSON number stands for exactly, if
/// there is one: a double that is finite, or a whole number that a double holds.
pub open spec fn double_of_number(number: JsonNumber) -> Option<u64> {
    match number {
        JsonNumber::Double(bits) => if is_finite_bits(bits) {
            Some(bits)
        } else {
            None
        },
        JsonNumber::Unsigned(n) => double_of_unsigned(n),
        JsonNumber::Signed(n) => double_of_signed(n),
    }
}

/// Computes the bit pattern of the positive double whose value is `magnitude`.
fn magnitude_to_double(magnitude: u64) -> (r: Option<u64>)
    ensures
        r == double_of_magnitude(magnitude as nat),
        r matches Some(bits) ==> bits < 0x7ff0_0000_0000_0000,
{
    let mut sig: u64 = magnitude;
    let mut exp: u64 = 1075;
    while sig >= 0x20_0000_0000_0000
        invariant
            narrowed(sig as nat, exp as nat) == narrowed(magnitude as nat, 1075),
            exp * 0x10_0000_0000_0000 + sig <= 1075 * 0x10_0000_0000_0000 + magnitude,
        decreases sig,
    {
        if sig % 2 == 1 {
            return None;
        }
        sig = sig / 2;
        exp = exp + 1;
    }
    let ghost narrow = (sig as nat, exp as nat);
    assert(narrowed(magnitude as nat, 1075) == Some(narrow));
    while sig != 0 && sig < 0x10_0000_0000_0000 && exp != 0
        invariant
            widened(sig as nat, exp as nat) == widened(narrow.0, narrow.1),
            sig < 0x20_0000_0000_0000,
            exp <= 6000,
        decreases 0x20_0000_0000_0000 - sig,
    {
        sig = sig * 2;
        exp = exp - 1;
    }
    if sig < 0x10_0000_0000_0000 || exp == 0 || exp >= 2047 {
        None
    } else {
        Some(exp * 0x10_0000_0000_0000 + (sig - 0x10_0000_0000_0000))
    }
}

/// Gives the bit pattern of the finite double that a JSON number stands for exactly.
/// `None` says that there is none: the number is an infinity or a NaN, or a whole
/// number that no double holds.
pub fn number_to_double(number: JsonNumber) -> (r: Option<u64>)
    ensures
        r == double_of_number(number),
{
    match number {
        JsonNumber::Double(bits) => if crate::json::double_is_finite(bits) {
            Some(bits)
        } else {
            None
        },
        JsonNumber::Unsigned(n) => if n == 0 {
            Some(0)
        } else {
            magnitude_to_double(n)
        },
        JsonNumber::Signed(n) => if n == 0 {
            Some(0)
        } else if n > 0 {
            magnitude_to_double(n as u64)
        } else {
            let magnitude: u64 = if n == i64::MIN {
                0x8000_0000_0000_0000
            } else {
                (-n) as u64
            };
            match magnitude_to_double(magnitude) {
                Some(bits) => Some(bits + 0x8000_0000_0000_0000),
                None => None,
            }
        },
    }
}

/// The positive finite double with the bit pattern `bits` has the whole number
/// `value` as its value: with the exponent field `e` and the fraction field `f` of the
/// pattern, `value` is `(2^52 + f) * 2^(e - 1075)`.
pub open spec fn double_has_value(bits: u64, value: nat) -> bool {
    let e = bits as nat / 0x10_0000_0000_0000;
    let f = bits as nat % 0x10_0000_0000_0000;
    &&& 1 <= e < 2047
    &&& if e >= 1075 {
        value == (0x10_0000_0000_0000 + f) * pow2((e - 1075) as nat)
    } else {
        value * pow2((1075 - e) as nat) == 0x10_0000_0000_0000 + f
    }
}

/// A number times two to the power of nothing is itself.
proof fn lemma_times_one(x: nat)
    ensures
        x * pow2(0) == x,
{
    lemma2_to64();
    assert(x * pow2(0) == x) by (nonlinear_arith)
        requires
            pow2(0) == 1,
    ;
}

/// Halving keeps the value: what comes out, times two to the number of halvings, is
/// what went in. And where anything was halved, what comes out has exactly 53 bits.
proof fn lemma_narrowed(sig: nat, exp: nat)
    requires
        narrowed(sig, exp) is Some,
    ensures
        ({
            let (s, e) = narrowed(sig, exp)->Some_0;
            &&& e >= exp
            &&& s < 0x20_0000_0000_0000
            &&& sig == s * pow2((e - exp) as nat)
            &&& e > exp ==> s >= 0x10_0000_0000_0000
            &&& e == exp ==> s == sig
        }),
    decreases sig,
{
    if sig < 0x20_0000_0000_0000 {
        lemma_times_one(sig);
    } else {
        lemma_narrowed(sig / 2, exp + 1);
        let (s, e) = narrowed(sig, exp)->Some_0;
        assert(narrowed(sig / 2, exp + 1) == Some((s, e)));
        let k = (e - exp - 1) as nat;
        let half = sig / 2;
        assert(half == s * pow2(k));
        assert(sig == 2 * half);
        assert(pow2((e - exp) as nat) == 2 * pow2(k)) by {
            lemma_pow2_unfold((e - exp) as nat);
        }
        assert(s * pow2((e - exp) as nat) == 2 * half) by (nonlinear_arith)
            requires
                pow2((e - exp) as nat) == 2 * pow2(k),
                half == s * pow2(k),
        ;
        if e == exp + 1 {
            assert(s == half);
        }
    }
}

/// Doubling keeps the value: what comes out is what went in, times two to the number
/// of doublings.
proof fn lemma_widened(sig: nat, exp: nat)
    requires
        sig < 0x20_0000_0000_0000,
    ensures
        ({
            let (s, e) = widened(sig, exp);
            &&& e <= exp
            &&& s < 0x20_0000_0000_0000
            &&& s == sig * pow2((exp - e) as nat)
            &&& sig >= 0x10_0000_0000_0000 ==> e == exp && s == sig
            &&& s == 0 || s >= 0x10_0000_0000_0000 || e == 0
        }),
    decreases 0x20_0000_0000_0000 - sig,
{
    if sig == 0 || sig >= 0x10_0000_0000_0000 || exp == 0 {
        lemma_times_one(sig);
    } else {
        let twice = sig * 2;
        lemma_widened(twice, (exp - 1) as nat);
        let (s, e) = widened(sig, exp);
        assert(widened(twice, (exp - 1) as nat) == (s, e));
        let k = (exp - 1 - e) as nat;
        assert(s == twice * pow2(k));
        assert(pow2((exp - e) as nat) == 2 * pow2(k)) by {
            lemma_pow2_unfold((exp - e) as nat);
        }
        assert(sig * pow2((exp - e) as nat) == twice * pow2(k)) by (nonlinear_arith)
            requires
                pow2((exp - e) as nat) == 2 * pow2(k),
                twice == sig * 2,
        ;
    }
}

/// The conversion is exact: the double that it gives for a whole number has that
/// number as its value.
pub proof fn lemma_double_of_magnitude_has_value(magnitude: nat)
    requires
        double_of_magnitude(magnitude) is Some,
    ensures
        double_has_value(double_of_magnitude(magnitude)->Some_0, magnitude),
{
    lemma_narrowed(magnitude, 1075);
    let (sig, exp) = narrowed(magnitude, 1075)->Some_0;
    lemma_widened(sig, exp);
    let (s, e) = widened(sig, exp);
    let f = (s - 0x10_0000_0000_0000) as nat;
    let bits = double_of_magnitude(magnitude)->Some_0;
    assert(bits as nat == e * 0x10_0000_0000_0000 + f);
    assert(bits as nat / 0x10_0000_0000_0000 == e && bits as nat % 0x10_0000_0000_0000 == f)
        by (nonlinear_arith)
        requires
            bits as nat == e * 0x10_0000_0000_0000 + f,
            f < 0x10_0000_0000_0000,
    ;
    assert(0x10_0000_0000_0000 + f == s);
    if exp > 1075 {
        assert(e == exp && s == sig);
        assert(magnitude == s * pow2((e - 1075) as nat));
    } else {
        assert(sig == magnitude);
        assert(s == magnitude * pow2((1075 - e) as nat));
        if e == 1075 {
            lemma_times_one(magnitude);
            lemma_times_one(s);
        }
    }
}

/// Where halving meets an odd number of more than 53 bits, the number that went in is
/// that odd number times a power of two.
proof fn lemma_narrowed_none(sig: nat, exp: nat) -> (r: (nat, nat))
    requires
        narrowed(sig, exp) is None,
    ensures
        r.0 % 2 == 1,
        r.0 >= 0x20_0000_0000_0000,
        sig == r.0 * pow2(r.1),
    decreases sig,
{
    if sig % 2 == 1 {
        lemma_times_one(sig);
        (sig, 0)
    } else {
        let (odd, j) = lemma_narrowed_none(sig / 2, exp + 1);
        let half = sig / 2;
        assert(pow2(j + 1) == 2 * pow2(j)) by {
            lemma_pow2_unfold(j + 1);
        }
        assert(odd * pow2(j + 1) == 2 * half) by (nonlinear_arith)
            requires
                pow2(j + 1) == 2 * pow2(j),
                half == odd * pow2(j),
        ;
        (odd, j + 1)
    }
}

/// A number is at least its odd part: where `s * 2^k` is `odd * 2^j` with `odd` odd,
/// `s` is not below `odd`.
proof fn lemma_odd_part(s: nat, k: nat, odd: nat, j: nat)
    requires
        odd % 2 == 1,
        s * pow2(k) == odd * pow2(j),
    ensures
        s >= odd,
    decreases k + j,
{
    lemma_pow2_pos(k);
    lemma_pow2_pos(j);
    if k == 0 {
        lemma_times_one(s);
        assert(odd * pow2(j) >= odd) by (nonlinear_arith)
            requires
                pow2(j) >= 1,
        ;
    } else if j == 0 {
        lemma_times_one(odd);
        let lower = pow2((k - 1) as nat);
        assert(pow2(k) == 2 * lower) by {
            lemma_pow2_unfold(k);
        }
        assert(s * pow2(k) == 2 * (s * lower)) by (nonlinear_arith)
            requires
                pow2(k) == 2 * lower,
        ;
    } else {
        let lower_k = pow2((k - 1) as nat);
        let lower_j = pow2((j - 1) as nat);
        assert(pow2(k) == 2 * lower_k) by {
            lemma_pow2_unfold(k);
        }
        assert(pow2(j) == 2 * lower_j) by {
            lemma_pow2_unfold(j);
        }
        assert(s * lower_k == odd * lower_j) by (nonlinear_arith)
            requires
                s * pow2(k) == odd * pow2(j),
                pow2(k) == 2 * lower_k,
                pow2(j) == 2 * lower_j,
        ;
        lemma_odd_part(s, (k - 1) as nat, odd, (j - 1) as nat);
    }
}

/// The conversion misses nothing: where it gives no double for a whole number that is
/// not 0 and below `2^64`, no finite double has that number as its value.
pub proof fn lemma_no_double_has_value(magnitude: nat, bits: u64)
    requires
        0 < magnitude < 0x1_0000_0000_0000_0000,
        double_of_magnitude(magnitude) is None,
    ensures
        !double_has_value(bits, magnitude),
{
    lemma2_to64();
    lemma2_to64_rest();
    if narrowed(magnitude, 1075) is None {
        let (odd, j) = lemma_narrowed_none(magnitude, 1075);
        lemma_pow2_pos(j);
        assert(magnitude >= odd) by (nonlinear_arith)
            requires
                magnitude == odd * pow2(j),
                pow2(j) >= 1,
        ;
        if double_has_value(bits, magnitude) {
            let e = bits as nat / 0x10_0000_0000_0000;
            let f = bits as nat % 0x10_0000_0000_0000;
            let s = 0x10_0000_0000_0000 + f;
            if e >= 1075 {
                lemma_odd_part(s, (e - 1075) as nat, odd, j);
            } else {
                let k = (1075 - e) as nat;
                lemma_pow2_pos(k);
                assert(magnitude * pow2(k) >= magnitude) by (nonlinear_arith)
                    requires
                        pow2(k) >= 1,
                ;
            }
        }
    } else {
        lemma_narrowed(magnitude, 1075);
        let (sig, exp) = narrowed(magnitude, 1075)->Some_0;
        lemma_widened(sig, exp);
        let (s, e) = widened(sig, exp);
        let up = (exp - 1075) as nat;
        lemma_pow2_pos(up);
        assert(sig > 0) by (nonlinear_arith)
            requires
                magnitude == sig * pow2(up),
                magnitude > 0,
        ;
        if exp >= 1087 {
            if up > 12 {
                lemma_pow2_strictly_increases(12, up);
            }
            assert(sig * pow2(up) >= 0x10_0000_0000_0000 * 0x1000) by (nonlinear_arith)
                requires
                    sig >= 0x10_0000_0000_0000,
                    pow2(up) >= 0x1000,
            ;
        }
        assert(e < 2047);
        let down = (exp - e) as nat;
        lemma_pow2_pos(down);
        assert(s >= sig) by (nonlinear_arith)
            requires
                s == sig * pow2(down),
                pow2(down) >= 1,
        ;
        if e == 0 {
            lemma_pow2_strictly_increases(53, down);
            assert(sig * pow2(down) >= 0x20_0000_0000_0000) by (nonlinear_arith)
                requires
                    sig >= 1,
                    pow2(down) > 0x20_0000_0000_0000,
            ;
        }
    }
}

} // verus!
