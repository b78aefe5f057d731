//! Comparison of IEEE-754 doubles, held as their bit patterns, with 64-bit
//! integers converted to doubles as `as f64` converts them (to nearest,
//! ties to even).

use vstd::prelude::*;
use vstd::arithmetic::power2::{pow2, lemma_pow2_unfold, lemma_pow2_pos, lemma_pow2_strictly_increases, lemma_pow2_adds, lemma2_to64};

verus! {

/// 2^52, the weight of the hidden bit.
pub open spec fn two_52() -> int {
    0x10_0000_0000_0000
}

/// 2^53: doubles hold every integer below it exactly.
pub open spec fn two_53() -> int {
    0x20_0000_0000_0000
}

/// The sign bit is set.
pub open spec fn dbl_negative(bits: u64) -> bool {
    bits as int / 0x8000_0000_0000_0000 == 1
}

/// The biased exponent field.
pub open spec fn dbl_biased_exp(bits: u64) -> int {
    (bits as int / two_52()) % 2048
}

/// The fraction field.
pub open spec fn dbl_frac(bits: u64) -> int {
    bits as int % two_52()
}

/// A NaN: the exponent field all ones and a non-zero fraction.
pub open spec fn dbl_is_nan(bits: u64) -> bool {
    dbl_biased_exp(bits) == 2047 && dbl_frac(bits) != 0
}

/// An infinity: the exponent field all ones and a zero fraction.
pub open spec fn dbl_is_inf(bits: u64) -> bool {
    dbl_biased_exp(bits) == 2047 && dbl_frac(bits) == 0
}

/// The significand of a finite double, hidden bit included.
pub open spec fn dbl_significand(bits: u64) -> nat {
    if dbl_biased_exp(bits) == 0 {
        dbl_frac(bits) as nat
    } else {
        (dbl_frac(bits) + two_52()) as nat
    }
}

/// The power of two the significand of a finite double is scaled by.
pub open spec fn dbl_exponent(bits: u64) -> int {
    if dbl_biased_exp(bits) == 0 {
        -1074
    } else {
        dbl_biased_exp(bits) - 1075
    }
}

/// The largest integer not above a finite double.
pub open spec fn dbl_floor(bits: u64) -> int {
    let m = dbl_significand(bits) as int;
    let e = dbl_exponent(bits);
    if e >= 0 {
        let v = m * pow2(e as nat);
        if dbl_negative(bits) { -v } else { v }
    } else {
        let d = pow2((-e) as nat) as int;
        if dbl_negative(bits) { -((m + d - 1) / d) } else { m / d }
    }
}

/// The smallest integer not below a finite double.
pub open spec fn dbl_ceil(bits: u64) -> int {
    let m = dbl_significand(bits) as int;
    let e = dbl_exponent(bits);
    if e >= 0 {
        let v = m * pow2(e as nat);
        if dbl_negative(bits) { -v } else { v }
    } else {
        let d = pow2((-e) as nat) as int;
        if dbl_negative(bits) { -(m / d) } else { (m + d - 1) / d }
    }
}

/// The number of binary digits of `n`.
pub open spec fn bit_length(n: nat) -> nat
    decreases n,
{
    if n == 0 {
        0
    } else {
        1 + bit_length(n / 2)
    }
}

/// The double nearest to `n`, ties to even significand.
pub open spec fn round_to_double(n: nat) -> nat {
    if n < two_53() {
        n
    } else {
        let d = pow2((bit_length(n) - 53) as nat) as int;
        let q = n as int / d;
        let r = n as int % d;
        (if 2 * r > d || (2 * r == d && q % 2 == 1) { q + 1 } else { q } * d) as nat
    }
}

/// The value of `b as f64`.
pub open spec fn int_to_double(b: int) -> int {
    if b < 0 {
        -(round_to_double((-b) as nat) as int)
    } else {
        round_to_double(b as nat) as int
    }
}

/// The double is at least `b as f64`.
pub open spec fn double_ge_int(bits: u64, b: int) -> bool {
    if dbl_is_nan(bits) {
        false
    } else if dbl_is_inf(bits) {
        !dbl_negative(bits)
    } else {
        dbl_floor(bits) >= int_to_double(b)
    }
}

/// The double is at most `b as f64`.
pub open spec fn double_le_int(bits: u64, b: int) -> bool {
    if dbl_is_nan(bits) {
        false
    } else if dbl_is_inf(bits) {
        dbl_negative(bits)
    } else {
        dbl_ceil(bits) <= int_to_double(b)
    }
}

/// The powers of two this module works with.
proof fn lemma_pow2_values()
    ensures
        pow2(0) == 1,
        pow2(11) == 2048,
        pow2(53) == 0x20_0000_0000_0000,
        pow2(64) == 0x1_0000_0000_0000_0000,
        pow2(74) == 0x400_0000_0000_0000_0000,
        pow2(75) == 0x800_0000_0000_0000_0000,
        pow2(100) == 0x10_0000_0000_0000_0000_0000_0000,
        pow2(127) == 0x8000_0000_0000_0000_0000_0000_0000_0000,
{
    lemma2_to64();
    lemma_pow2_adds(53, 11);
    lemma_pow2_adds(64, 10);
    lemma_pow2_adds(64, 11);
    lemma_pow2_adds(64, 36);
    lemma_pow2_adds(64, 63);
    lemma_pow2_adds(32, 4);
    lemma_pow2_adds(32, 31);
}

/// `n < 2^k` exactly when `n` has at most `k` binary digits.
proof fn lemma_bit_length_bound(n: nat, k: nat)
    ensures
        (n < pow2(k)) == (bit_length(n) <= k),
    decreases k,
{
    if k == 0 {
        lemma_pow2_values();
    } else {
        lemma_pow2_unfold(k);
        lemma_bit_length_bound(n / 2, (k - 1) as nat);
    }
}

/// 2^k as a 128-bit number.
fn pow2_u128(k: u32) -> (r: u128)
    requires
        k < 127,
    ensures
        r == pow2(k as nat),
{
    let mut r: u128 = 1;
    let mut i: u32 = 0;
    proof {
        lemma_pow2_values();
    }
    while i < k
        invariant
            i <= k < 127,
            r == pow2(i as nat),
        decreases k - i,
    {
        proof {
            lemma_pow2_unfold((i + 1) as nat);
            lemma_pow2_strictly_increases((i + 1) as nat, 127);
            lemma_pow2_values();
        }
        r = r * 2;
        i = i + 1;
    }
    r
}

/// The number of binary digits of `n`.
fn bit_length_u64(n: u64) -> (r: u32)
    ensures
        r == bit_length(n as nat),
        r <= 64,
{
    let mut t: u64 = n;
    let mut l: u32 = 0;
    proof {
        lemma_bit_length_bound(n as nat, 64);
        lemma_pow2_values();
    }
    while t > 0
        invariant
            bit_length(n as nat) == l + bit_length(t as nat),
            l + bit_length(t as nat) <= 64,
        decreases t,
    {
        t = t / 2;
        l = l + 1;
    }
    proof {
        lemma_bit_length_bound(n as nat, 64);
        lemma_pow2_values();
    }
    l
}

/// The magnitude `n` rounded to a double.
fn round_magnitude(n: u64) -> (r: u128)
    ensures
        r == round_to_double(n as nat),
        r <= 0x1_0000_0000_0000_0000,
{
    if n < 0x20_0000_0000_0000 {
        return n as u128;
    }
    let l = bit_length_u64(n);
    proof {
        lemma_pow2_values();
        lemma_bit_length_bound(n as nat, 53);
        lemma_bit_length_bound(n as nat, 64);
        lemma_pow2_values();
    }
    let k: u32 = l - 53;
    let d = pow2_u128(k);
    proof {
        lemma_bit_length_bound(n as nat, l as nat);
        lemma_pow2_adds(53, k as nat);
        lemma_pow2_values();
        if k < 11 {
            lemma_pow2_strictly_increases(k as nat, 11);
        }
    }
    let nn: u128 = n as u128;
    let q: u128 = nn / d;
    let rem: u128 = nn % d;
    assert(q < 0x20_0000_0000_0000) by (nonlinear_arith)
        requires
            nn < 0x20_0000_0000_0000 * d,
            d > 0,
            q == nn / d,
    ;
    let q2: u128 = if 2 * rem > d || (2 * rem == d && q % 2 == 1) { q + 1 } else { q };
    assert(q2 * d <= 0x1_0000_0000_0000_0000) by (nonlinear_arith)
        requires
            q2 <= 0x20_0000_0000_0000,
            d <= 2048,
    ;
    q2 * d
}

/// The value of `b as f64`, as a 128-bit integer.
fn i64_to_double_value(b: i64) -> (r: i128)
    ensures
        r == int_to_double(b as int),
        -0x1_0000_0000_0000_0000 <= r <= 0x1_0000_0000_0000_0000,
{
    if b < 0 {
        let m: u64 = if b == i64::MIN { 0x8000_0000_0000_0000u64 } else { (-b) as u64 };
        let r = round_magnitude(m);
        -(r as i128)
    } else {
        let r = round_magnitude(b as u64);
        r as i128
    }
}

/// The floor and ceiling of a finite double, or `None` when its magnitude
/// is at least 2^127.
fn floor_ceil(bits: u64) -> (r: Option<(i128, i128)>)
    requires
        !dbl_is_nan(bits),
        !dbl_is_inf(bits),
    ensures
        match r {
            Some((f, c)) => f == dbl_floor(bits) && c == dbl_ceil(bits),
            None => if dbl_negative(bits) {
                dbl_floor(bits) <= -0x8000_0000_0000_0000_0000_0000_0000_0000
                    && dbl_ceil(bits) <= -0x8000_0000_0000_0000_0000_0000_0000_0000
            } else {
                dbl_floor(bits) >= 0x8000_0000_0000_0000_0000_0000_0000_0000
                    && dbl_ceil(bits) >= 0x8000_0000_0000_0000_0000_0000_0000_0000
            },
        },
{
    let negative = bits / 0x8000_0000_0000_0000 == 1;
    let exp: u64 = (bits / 0x10_0000_0000_0000) % 2048;
    let frac: u64 = bits % 0x10_0000_0000_0000;
    let m: u128 = if exp == 0 { frac as u128 } else { (frac + 0x10_0000_0000_0000) as u128 };
    let e: i64 = if exp == 0 { -1074 } else { exp as i64 - 1075 };
    assert(m == dbl_significand(bits) && e == dbl_exponent(bits));
    assert(m < 0x20_0000_0000_0000);
    if e >= 0 {
        if e > 74 {
            proof {
                assert(exp != 0);
                if e > 75 {
                    lemma_pow2_strictly_increases(75, e as nat);
                }
                lemma_pow2_values();
                let p = pow2(e as nat) as int;
                assert(m as int * p >= 0x8000_0000_0000_0000_0000_0000_0000_0000) by (nonlinear_arith)
                    requires
                        m >= 0x10_0000_0000_0000,
                        p >= 0x800_0000_0000_0000_0000,
                ;
            }
            return None;
        }
        let p = pow2_u128(e as u32);
        proof {
            if e < 74 {
                lemma_pow2_strictly_increases(e as nat, 74);
            }
            lemma_pow2_values();
        }
        assert(m * p < 0x8000_0000_0000_0000_0000_0000_0000_0000) by (nonlinear_arith)
            requires
                m < 0x20_0000_0000_0000,
                p <= 0x400_0000_0000_0000_0000,
        ;
        let v: i128 = (m * p) as i128;
        if negative {
            Some((-v, -v))
        } else {
            Some((v, v))
        }
    } else {
        let ne: i64 = -e;
        if ne > 100 {
            proof {
                lemma_pow2_strictly_increases(53, ne as nat);
                lemma_pow2_values();
                let d = pow2(ne as nat) as int;
                assert(m as int / d == 0) by (nonlinear_arith)
                    requires
                        0 <= m < d,
                ;
                assert((m as int + d - 1) / d == if m == 0 { 0int } else { 1int }) by (nonlinear_arith)
                    requires
                        0 <= m < d,
                ;
            }
            let up: i128 = if m == 0 { 0 } else { 1 };
            if negative {
                Some((-up, 0))
            } else {
                Some((0, up))
            }
        } else {
            let d = pow2_u128(ne as u32);
            proof {
                lemma_pow2_pos(ne as nat);
                if ne < 100 {
                    lemma_pow2_strictly_increases(ne as nat, 100);
                }
                lemma_pow2_values();
            }
            let q: u128 = m / d;
            let up: u128 = (m + d - 1) / d;
            assert(q <= m && up <= m + 1) by (nonlinear_arith)
                requires
                    d >= 1,
                    q == m / d,
                    up == (m as int + d as int - 1) / (d as int),
            ;
            if negative {
                Some((-(up as i128), -(q as i128)))
            } else {
                Some((q as i128, up as i128))
            }
        }
    }
}

/// The value of `x as i64` for the double `x` with bit pattern `bits`: the
/// value rounded toward zero, held to the range of `i64`; NaN gives 0.
pub open spec fn double_as_i64(bits: u64) -> i64 {
    if dbl_is_nan(bits) {
        0
    } else if dbl_is_inf(bits) {
        if dbl_negative(bits) { i64::MIN } else { i64::MAX }
    } else {
        let t = if dbl_negative(bits) { dbl_ceil(bits) } else { dbl_floor(bits) };
        if t < i64::MIN { i64::MIN } else if t > i64::MAX { i64::MAX } else { t as i64 }
    }
}

/// The double with bit pattern `bits` converted as `as i64` converts it.
pub fn double_to_i64(bits: u64) -> (r: i64)
    ensures
        r == double_as_i64(bits),
{
    let exp: u64 = (bits / 0x10_0000_0000_0000) % 2048;
    let frac: u64 = bits % 0x10_0000_0000_0000;
    let negative = bits / 0x8000_0000_0000_0000 == 1;
    if exp == 2047 {
        return if frac != 0 { 0 } else if negative { i64::MIN } else { i64::MAX };
    }
    match floor_ceil(bits) {
        Some((f, c)) => {
            let t = if negative { c } else { f };
            if t < i64::MIN as i128 {
                i64::MIN
            } else if t > i64::MAX as i128 {
                i64::MAX
            } else {
                t as i64
            }
        },
        None => if negative { i64::MIN } else { i64::MAX },
    }
}

/// Whether the double with bit pattern `bits` is at least `b as f64`.
pub fn double_ge_i64(bits: u64, b: i64) -> (r: bool)
    ensures
        r == double_ge_int(bits, b as int),
{
    let exp: u64 = (bits / 0x10_0000_0000_0000) % 2048;
    let frac: u64 = bits % 0x10_0000_0000_0000;
    let negative = bits / 0x8000_0000_0000_0000 == 1;
    if exp == 2047 {
        return frac == 0 && !negative;
    }
    let v = i64_to_double_value(b);
    match floor_ceil(bits) {
        Some((f, _)) => f >= v,
        None => !negative,
    }
}

/// Whether the double with bit pattern `bits` is at most `b as f64`.
pub fn double_le_i64(bits: u64, b: i64) -> (r: bool)
    ensures
        r == double_le_int(bits, b as int),
{
    let exp: u64 = (bits / 0x10_0000_0000_0000) % 2048;
    let frac: u64 = bits % 0x10_0000_0000_0000;
    let negative = bits / 0x8000_0000_0000_0000 == 1;
    if exp == 2047 {
        return frac == 0 && negative;
    }
    let v = i64_to_double_value(b);
    match floor_ceil(bits) {
        Some((_, c)) => c <= v,
        None => negative,
    }
}

/// A key that orders doubles other than NaN as IEEE-754 compares them:
/// the magnitude bits, negated for negative numbers (both zeros get 0).
pub open spec fn dbl_order_key(bits: u64) -> int {
    let mag = bits as int % 0x8000_0000_0000_0000;
    if dbl_negative(bits) { -mag } else { mag }
}

/// IEEE-754 `==` of two doubles.
pub open spec fn double_eq(a: u64, b: u64) -> bool {
    !dbl_is_nan(a) && !dbl_is_nan(b) && dbl_order_key(a) == dbl_order_key(b)
}

/// IEEE-754 `>=` of two doubles.
pub open spec fn double_ge(a: u64, b: u64) -> bool {
    !dbl_is_nan(a) && !dbl_is_nan(b) && dbl_order_key(a) >= dbl_order_key(b)
}

/// The order key of a double that is not NaN, or `None` for a NaN.
pub(crate) fn order_key(bits: u64) -> (r: Option<i64>)
    ensures
        match r {
            Some(k) => !dbl_is_nan(bits) && k == dbl_order_key(bits),
            None => dbl_is_nan(bits),
        },
{
    let exp: u64 = (bits / 0x10_0000_0000_0000) % 2048;
    let frac: u64 = bits % 0x10_0000_0000_0000;
    if exp == 2047 && frac != 0 {
        return None;
    }
    let mag: i64 = (bits % 0x8000_0000_0000_0000) as i64;
    if bits / 0x8000_0000_0000_0000 == 1 {
        Some(-mag)
    } else {
        Some(mag)
    }
}

/// IEEE-754 `==` of two doubles given by their bit patterns.
pub fn double_bits_eq(a: u64, b: u64) -> (r: bool)
    ensures
        r == double_eq(a, b),
{
    match (order_key(a), order_key(b)) {
        (Some(x), Some(y)) => x == y,
        _ => false,
    }
}

/// IEEE-754 `>=` of two doubles given by their bit patterns.
pub fn double_bits_ge(a: u64, b: u64) -> (r: bool)
    ensures
        r == double_ge(a, b),
{
    match (order_key(a), order_key(b)) {
        (Some(x), Some(y)) => x >= y,
        _ => false,
    }
}

} // verus!
