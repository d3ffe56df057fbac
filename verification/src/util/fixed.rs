//! Double-precision results computed exactly with integers.
//!
//! The displayed percentage, byte sizes and speeds, and the byte target of
//! a run, are defined by IEEE-754 double-precision arithmetic: an integer
//! converted to `f64` keeps its 53 most significant bits (rounded to
//! nearest, ties to even); a quotient or product of doubles is the exact
//! result rounded the same way; scaling by a power of two is exact; a
//! conversion back to an unsigned integer truncates and saturates; and
//! printing with one decimal rounds the exact binary value to the nearest
//! tenth, ties to even. The functions here compute those results with
//! integer arithmetic only. A double is represented as an integer
//! significand over a power of two.

use crate::util::text::{decimal, digit_char, push_decimal};
use vstd::arithmetic::div_mod::{
    lemma_div_is_ordered, lemma_div_is_ordered_by_denominator, lemma_div_multiples_vanish,
    lemma_div_multiples_vanish_quotient, lemma_fundamental_div_mod, lemma_mod_multiples_basic,
};
use vstd::prelude::*;

verus! {

pub open spec fn two_pow(e: nat) -> nat
    decreases e,
{
    if e == 0 {
        1
    } else {
        2 * two_pow((e - 1) as nat)
    }
}

/// Number of binary digits of `n` (0 for 0).
pub open spec fn bit_len(n: nat) -> nat
    decreases n,
{
    if n == 0 {
        0
    } else {
        1 + bit_len(n / 2)
    }
}

/// `n / d` rounded to the nearest integer, ties to the even neighbour.
pub open spec fn round_half_even(n: nat, d: nat) -> nat {
    let q = n / d;
    let r = n % d;
    if r * 2 > d || (r * 2 == d && q % 2 == 1) {
        q + 1
    } else {
        q
    }
}

/// `n` rounded to 53 significant bits, ties to even: the value of `n` as a
/// double (and of any double scaled by a power of two, rounded).
pub open spec fn f64_value(n: nat) -> nat {
    if bit_len(n) <= 53 {
        n
    } else {
        let unit = two_pow((bit_len(n) - 53) as nat);
        round_half_even(n, unit) * unit
    }
}

/// `n / d` printed with exactly one decimal, rounded to the nearest tenth
/// with ties to even (the `{:.1}` rendering of that exact value).
pub open spec fn one_decimal(n: nat, d: nat) -> Seq<char> {
    let tenths = round_half_even(n * 10, d);
    decimal(tenths / 10) + seq!['.', digit_char(tenths % 10)]
}

/// `a * 2^k / b` lies in `[2^52, 2^53)`: scaled by `2^k`, the quotient
/// `a / b` has 53 bits before the binary point.
pub open spec fn is_ratio_scale(a: nat, b: nat, k: nat) -> bool {
    two_pow(52) * b <= a * two_pow(k) && a * two_pow(k) < two_pow(53) * b
}

/// The scale of the double nearest to `a / b`.
pub open spec fn ratio_scale(a: nat, b: nat) -> nat {
    choose|k: nat| is_ratio_scale(a, b, k)
}

/// Significand of the double nearest to `a / b`: that double equals
/// `ratio_significand(a, b) / 2^ratio_scale(a, b)`.
pub open spec fn ratio_significand(a: nat, b: nat) -> nat {
    round_half_even(a * two_pow(ratio_scale(a, b)), b)
}

/// `(a / b * 100).clamp(0, 100)` truncated to an integer, evaluated on the
/// doubles `a` and `b` (`b > 0`).
pub open spec fn f64_percent(a: nat, b: nat) -> nat {
    if a == 0 {
        0
    } else if a >= b {
        100
    } else {
        let p = f64_value(100 * ratio_significand(a, b)) / two_pow(ratio_scale(a, b));
        if p > 100 { 100 } else { p }
    }
}

/// `((x as f64) * (percent as f64 / 100.0)) as u64`.
pub open spec fn f64_scaled(x: u64, percent: u8) -> u64 {
    if percent == 0 {
        0
    } else {
        let whole = f64_value(f64_value(x as nat) * ratio_significand(percent as nat, 100))
            / two_pow(ratio_scale(percent as nat, 100));
        if whole > u64::MAX { u64::MAX } else { whole as u64 }
    }
}

proof fn lemma_two_pow_pos(e: nat)
    ensures
        two_pow(e) >= 1,
    decreases e,
{
    if e > 0 {
        lemma_two_pow_pos((e - 1) as nat);
    }
}

proof fn lemma_two_pow_mono(a: nat, b: nat)
    requires
        a <= b,
    ensures
        two_pow(a) <= two_pow(b),
    decreases b,
{
    if a < b {
        lemma_two_pow_mono(a, (b - 1) as nat);
        lemma_two_pow_pos((b - 1) as nat);
    }
}

proof fn lemma_two_pow_adds(a: nat, b: nat)
    ensures
        two_pow(a + b) == two_pow(a) * two_pow(b),
    decreases b,
{
    if b > 0 {
        let c = (b - 1) as nat;
        lemma_two_pow_adds(a, c);
        assert(two_pow(a + b) == 2 * two_pow(a + c));
        assert(two_pow(b) == 2 * two_pow(c));
        assert(two_pow(a) * two_pow(b) == 2 * (two_pow(a) * two_pow(c))) by (nonlinear_arith)
            requires
                two_pow(b) == 2 * two_pow(c),
        ;
    } else {
        assert(two_pow(0) == 1);
        assert(two_pow(a) * two_pow(0) == two_pow(a)) by (nonlinear_arith)
            requires
                two_pow(0) == 1,
        ;
    }
}

#[verifier::spinoff_prover]
proof fn lemma_two_pow_values()
    ensures
        two_pow(0) == 1,
        two_pow(1) == 2,
        two_pow(52) == 0x10_0000_0000_0000,
        two_pow(53) == 0x20_0000_0000_0000,
        two_pow(60) == 0x1000_0000_0000_0000,
        two_pow(120) == 0x100_0000_0000_0000_0000_0000_0000_0000,
{
    reveal_with_fuel(two_pow, 61);
    lemma_two_pow_adds(60, 60);
}

proof fn lemma_double_step(e: nat, a: nat)
    ensures
        two_pow(e + 1) * a == 2 * (two_pow(e) * a),
        a * two_pow(e + 1) == 2 * (a * two_pow(e)),
{
    assert(two_pow(e + 1) == 2 * two_pow(e));
    assert(two_pow(e + 1) * a == 2 * (two_pow(e) * a)) by (nonlinear_arith)
        requires
            two_pow(e + 1) == 2 * two_pow(e),
    ;
    assert(a * two_pow(e + 1) == 2 * (a * two_pow(e))) by (nonlinear_arith)
        requires
            two_pow(e + 1) == 2 * two_pow(e),
    ;
}

/// `v >= 2^k` whenever `v` has more than `k` binary digits.
proof fn lemma_bit_len_ge(v: nat, k: nat)
    requires
        bit_len(v) > k,
    ensures
        v >= two_pow(k),
    decreases k,
{
    if k > 0 {
        lemma_bit_len_ge(v / 2, (k - 1) as nat);
    }
}

/// `bit_len(v) <= k` whenever `v < 2^k`.
proof fn lemma_bit_len_lt(v: nat, k: nat)
    requires
        v < two_pow(k),
    ensures
        bit_len(v) <= k,
    decreases v,
{
    if v > 0 {
        assert(k > 0) by {
            if k == 0 {
                assert(two_pow(0) == 1);
            }
        }
        lemma_bit_len_lt(v / 2, (k - 1) as nat);
    }
}

proof fn lemma_ratio_scale_unique(a: nat, b: nat, k1: nat, k2: nat)
    requires
        is_ratio_scale(a, b, k1),
        is_ratio_scale(a, b, k2),
    ensures
        k1 == k2,
{
    if k1 < k2 {
        lemma_two_pow_adds(k1 + 1, (k2 - k1 - 1) as nat);
        lemma_two_pow_pos((k2 - k1 - 1) as nat);
        lemma_double_step(k1, a);
        lemma_two_pow_adds(1, 52);
        lemma_two_pow_values();
        assert(a * two_pow(k2) >= a * two_pow(k1 + 1)) by (nonlinear_arith)
            requires
                two_pow(k2) == two_pow(k1 + 1) * two_pow((k2 - k1 - 1) as nat),
                two_pow((k2 - k1 - 1) as nat) >= 1,
        ;
    } else if k2 < k1 {
        lemma_two_pow_adds(k2 + 1, (k1 - k2 - 1) as nat);
        lemma_two_pow_pos((k1 - k2 - 1) as nat);
        lemma_double_step(k2, a);
        lemma_two_pow_values();
        assert(a * two_pow(k1) >= a * two_pow(k2 + 1)) by (nonlinear_arith)
            requires
                two_pow(k1) == two_pow(k2 + 1) * two_pow((k1 - k2 - 1) as nat),
                two_pow((k1 - k2 - 1) as nat) >= 1,
        ;
    }
}

/// Integer division rounded to nearest, ties to even.
fn div_round_half_even(n: u128, d: u128) -> (r: u128)
    requires
        d > 0,
        n / d < u128::MAX,
        d <= u128::MAX / 2,
    ensures
        r == round_half_even(n as nat, d as nat),
        r >= n / d,
        r <= n / d + 1,
{
    let q = n / d;
    let rem = n % d;
    if rem * 2 > d || (rem * 2 == d && q % 2 == 1) {
        q + 1
    } else {
        q
    }
}

/// `2^e` as an integer, for `e <= 120`.
fn two_pow_of(e: u32) -> (r: u128)
    requires
        e <= 120,
    ensures
        r == two_pow(e as nat),
{
    let mut r: u128 = 1;
    let mut i: u32 = 0;
    while i < e
        invariant
            i <= e,
            e <= 120,
            r == two_pow(i as nat),
        decreases e - i,
    {
        proof {
            lemma_two_pow_mono((i + 1) as nat, 120);
            lemma_two_pow_values();
        }
        r = r * 2;
        i = i + 1;
    }
    r
}

/// `n` rounded to 53 significant bits, ties to even.
pub fn f64_round(n: u128) -> (r: u128)
    requires
        n < 0x100_0000_0000_0000_0000_0000_0000_0000,
    ensures
        r == f64_value(n as nat),
        r <= 2 * n,
        n > 0 ==> r > 0,
{
    proof {
        lemma_two_pow_values();
        lemma_bit_len_lt(n as nat, 120);
    }
    let mut len: u32 = 0;
    let mut v: u128 = n;
    while v > 0
        invariant
            bit_len(n as nat) == len + bit_len(v as nat),
            bit_len(n as nat) <= 120,
        decreases v,
    {
        v = v / 2;
        len = len + 1;
    }
    if len <= 53 {
        return n;
    }
    let unit = two_pow_of(len - 53);
    proof {
        lemma_two_pow_pos((len - 53) as nat);
        lemma_bit_len_ge(n as nat, (len - 1) as nat);
        lemma_two_pow_mono((len - 53) as nat, (len - 1) as nat);
        lemma_fundamental_div_mod(n as int, unit as int);
        assert(unit <= n);
        assert(n / unit >= 1) by (nonlinear_arith)
            requires
                unit <= n,
                unit > 0,
        ;
        assert(n / unit * unit <= n) by (nonlinear_arith)
            requires
                unit > 0,
                n as int == unit * ((n as int) / (unit as int)) + (n as int) % (unit as int),
                (n as int) % (unit as int) >= 0,
        ;
    }
    let q = div_round_half_even(n, unit);
    proof {
        assert(q * unit <= n + unit) by (nonlinear_arith)
            requires
                q <= n / unit + 1,
                n / unit * unit <= n,
                unit > 0,
        ;
        assert(q * unit >= 1) by (nonlinear_arith)
            requires
                q >= 1,
                unit >= 1,
        ;
    }
    q * unit
}

/// The value `n as f64` represents, as an integer.
pub fn f64_value_of(n: u64) -> (r: u128)
    ensures
        r == f64_value(n as nat),
        r <= 2 * (n as nat),
        n > 0 ==> r > 0,
{
    f64_round(n as u128)
}

/// The scale of the double nearest to `a / b`, for `a / b` in
/// `[2^-68, 2^53)`.
fn find_ratio_scale(a: u128, b: u128) -> (k: u32)
    requires
        0 < a <= 0x4_0000_0000_0000_0000,
        0 < b <= 0x4_0000_0000_0000_0000,
        two_pow(52) * b <= a * two_pow(120),
        a < two_pow(53) * b,
    ensures
        k <= 120,
        k == ratio_scale(a as nat, b as nat),
        is_ratio_scale(a as nat, b as nat, k as nat),
{
    proof {
        lemma_two_pow_values();
    }
    let threshold: u128 = b * 0x10_0000_0000_0000;
    let mut k: u32 = 0;
    let mut s: u128 = a;
    proof {
        assert(a * two_pow(0) == a);
    }
    while s < threshold
        invariant
            k <= 120,
            0 < a <= 0x4_0000_0000_0000_0000,
            0 < b <= 0x4_0000_0000_0000_0000,
            threshold == two_pow(52) * b,
            s == a * two_pow(k as nat),
            two_pow(52) * b <= a * two_pow(120),
            s < two_pow(53) * b,
            two_pow(52) == 0x10_0000_0000_0000,
            two_pow(53) == 0x20_0000_0000_0000,
        decreases 120 - k,
    {
        proof {
            lemma_double_step(k as nat, a as nat);
            if k == 120 {
                assert(false);
            }
        }
        s = s * 2;
        k = k + 1;
    }
    proof {
        assert(is_ratio_scale(a as nat, b as nat, k as nat));
        lemma_ratio_scale_unique(a as nat, b as nat, k as nat, ratio_scale(a as nat, b as nat));
    }
    k
}

/// Double-precision percentage of `a` over `b` (see `f64_percent`), for
/// doubles `a` and `b` that are integers up to `2^66`.
pub fn percent_of(a: u128, b: u128) -> (r: u8)
    requires
        0 < b <= 0x4_0000_0000_0000_0000,
        a <= 0x4_0000_0000_0000_0000,
    ensures
        r == f64_percent(a as nat, b as nat),
{
    if a == 0 {
        return 0;
    }
    if a >= b {
        return 100;
    }
    proof {
        lemma_two_pow_values();
        assert(two_pow(52) * b <= a * two_pow(120)) by (nonlinear_arith)
            requires
                a >= 1,
                b <= 0x4_0000_0000_0000_0000,
                two_pow(52) == 0x10_0000_0000_0000,
                two_pow(120) == 0x100_0000_0000_0000_0000_0000_0000_0000,
        ;
        assert(a < two_pow(53) * b) by (nonlinear_arith)
            requires
                a < b,
                two_pow(53) == 0x20_0000_0000_0000,
        ;
    }
    let k = find_ratio_scale(a, b);
    let scale = two_pow_of(k);
    proof {
        assert(a * scale < 0x20_0000_0000_0000 * b);
        assert(((a * scale) as u128) / b < 0x20_0000_0000_0000) by (nonlinear_arith)
            requires
                a * scale < 0x20_0000_0000_0000 * b,
                b > 0,
        ;
    }
    let q = div_round_half_even(a * scale, b);
    let p = f64_round(100 * q);
    let whole = p / scale;
    if whole > 100 {
        100
    } else {
        whole as u8
    }
}

/// Rounding to nearest adds at most half a unit: `d * round(n / d) <= n + d / 2`.
proof fn lemma_round_half_even_upper(n: nat, d: nat)
    requires
        d > 0,
    ensures
        2 * d * round_half_even(n, d) <= 2 * n + d,
{
    lemma_fundamental_div_mod(n as int, d as int);
    let q = n / d;
    let r = n % d;
    if r * 2 > d || (r * 2 == d && q % 2 == 1) {
        assert(2 * d * (q + 1) <= 2 * n + d) by (nonlinear_arith)
            requires
                n == d * q + r,
                r * 2 >= d,
        ;
    } else {
        assert(2 * d * q <= 2 * n + d) by (nonlinear_arith)
            requires
                n == d * q + r,
                r >= 0,
                d > 0,
        ;
    }
}

/// Converting to a double loses at most one part in `2^53` upwards.
proof fn lemma_f64_value_upper(n: nat)
    ensures
        two_pow(53) * f64_value(n) <= (two_pow(53) + 1) * n,
{
    lemma_two_pow_values();
    if bit_len(n) > 53 {
        let len = bit_len(n);
        let unit = two_pow((len - 53) as nat);
        lemma_two_pow_pos((len - 53) as nat);
        lemma_bit_len_ge(n, (len - 1) as nat);
        lemma_two_pow_adds(52, (len - 53) as nat);
        assert((52 + (len - 53)) as nat == (len - 1) as nat);
        lemma_round_half_even_upper(n, unit);
        let q = round_half_even(n, unit);
        assert(two_pow(53) * (q * unit) <= (two_pow(53) + 1) * n) by (nonlinear_arith)
            requires
                2 * unit * q <= 2 * n + unit,
                two_pow(52) * unit <= n,
                two_pow(53) == 2 * two_pow(52),
        ;
    } else {
        assert(two_pow(53) * n <= (two_pow(53) + 1) * n) by (nonlinear_arith);
    }
}

/// `v < 2^bit_len(v)`.
proof fn lemma_bit_len_upper(v: nat)
    ensures
        v < two_pow(bit_len(v)),
    decreases v,
{
    if v > 0 {
        lemma_bit_len_upper(v / 2);
        assert(two_pow(bit_len(v)) == 2 * two_pow(bit_len(v / 2)));
    }
}

/// Rounding a quotient to nearest is monotone in the dividend.
proof fn lemma_round_half_even_mono(n: nat, m: nat, d: nat)
    requires
        n <= m,
        d > 0,
    ensures
        round_half_even(n, d) <= round_half_even(m, d),
{
    lemma_fundamental_div_mod(n as int, d as int);
    lemma_fundamental_div_mod(m as int, d as int);
    let qn = n / d;
    let qm = m / d;
    assert(qn <= qm) by (nonlinear_arith)
        requires
            n == d * qn + n % d,
            m == d * qm + m % d,
            n % d < d,
            m % d >= 0,
            n % d >= 0,
            n <= m,
            d > 0,
    ;
    if qn == qm {
        assert(n % d <= m % d);
    }
}

/// Converting to a double is monotone: `n <= m` gives
/// `f64_value(n) <= f64_value(m)`.
pub proof fn lemma_f64_value_mono(n: nat, m: nat)
    requires
        n <= m,
    ensures
        f64_value(n) <= f64_value(m),
{
    lemma_two_pow_values();
    let ln = bit_len(n);
    let lm = bit_len(m);
    lemma_bit_len_upper(n);
    lemma_bit_len_upper(m);
    if ln > lm {
        lemma_bit_len_ge(n, (ln - 1) as nat);
        lemma_two_pow_mono(lm, (ln - 1) as nat);
        assert(false);
    }
    if lm <= 53 {
    } else if ln == lm {
        let unit = two_pow((lm - 53) as nat);
        lemma_two_pow_pos((lm - 53) as nat);
        lemma_round_half_even_mono(n, m, unit);
        let a = round_half_even(n, unit);
        let b = round_half_even(m, unit);
        assert(a * unit <= b * unit) by (nonlinear_arith)
            requires
                a <= b,
        ;
    } else {
        // `n` has fewer digits: its double is at most `2^ln`, while that of
        // `m` is at least `2^(lm - 1) >= 2^ln`.
        let um = two_pow((lm - 53) as nat);
        lemma_two_pow_pos((lm - 53) as nat);
        lemma_bit_len_ge(m, (lm - 1) as nat);
        lemma_two_pow_adds(52, (lm - 53) as nat);
        assert((52 + (lm - 53)) as nat == (lm - 1) as nat);
        lemma_fundamental_div_mod(m as int, um as int);
        let qm = m / um;
        assert(qm >= two_pow(52)) by (nonlinear_arith)
            requires
                m == um * qm + m % um,
                m % um < um,
                two_pow(52) * um <= m,
                um > 0,
        ;
        assert(round_half_even(m, um) >= qm);
        let b = round_half_even(m, um);
        assert(b * um >= two_pow(52) * um) by (nonlinear_arith)
            requires
                b >= two_pow(52),
                um > 0,
        ;
        lemma_two_pow_mono(ln, (lm - 1) as nat);
        if ln <= 53 {
        } else {
            let un = two_pow((ln - 53) as nat);
            lemma_two_pow_pos((ln - 53) as nat);
            lemma_two_pow_adds(53, (ln - 53) as nat);
            assert((53 + (ln - 53)) as nat == ln);
            lemma_fundamental_div_mod(n as int, un as int);
            let qn = n / un;
            assert(qn < two_pow(53)) by (nonlinear_arith)
                requires
                    n == un * qn + n % un,
                    n % un >= 0,
                    n < two_pow(53) * un,
                    un > 0,
            ;
            let a = round_half_even(n, un);
            assert(a <= qn + 1);
            assert(a * un <= two_pow(53) * un) by (nonlinear_arith)
                requires
                    a <= two_pow(53),
                    un > 0,
            ;
        }
    }
}

/// Some power of two brings `a / b` to 53 binary digits when `0 < a < b`.
/// Starting from a scale `k` that does not overshoot, doubling finds one.
proof fn lemma_ratio_scale_from(a: nat, b: nat, k: nat)
    requires
        0 < a,
        0 < b,
        a * two_pow(k) < two_pow(53) * b,
    ensures
        is_ratio_scale(a, b, ratio_scale(a, b)),
    decreases two_pow(53) * b - a * two_pow(k),
{
    lemma_two_pow_values();
    lemma_two_pow_pos(k);
    if two_pow(52) * b <= a * two_pow(k) {
        assert(is_ratio_scale(a, b, k));
    } else {
        lemma_double_step(k, a);
        assert(a * two_pow(k) > 0) by (nonlinear_arith)
            requires
                a > 0,
                two_pow(k) >= 1,
        ;
        lemma_ratio_scale_from(a, b, k + 1);
    }
}

/// A larger quotient never needs a larger scale.
proof fn lemma_ratio_scale_order(a1: nat, a2: nat, b: nat, k1: nat, k2: nat)
    requires
        0 < a1 <= a2,
        is_ratio_scale(a1, b, k1),
        is_ratio_scale(a2, b, k2),
    ensures
        k2 <= k1,
{
    if k1 < k2 {
        let d = (k2 - k1 - 1) as nat;
        lemma_two_pow_adds(k1 + 1, d);
        assert((k1 + 1 + d) as nat == k2);
        lemma_two_pow_pos(d);
        lemma_double_step(k1, a1);
        lemma_two_pow_values();
        assert(a2 * two_pow(k2) >= a1 * two_pow(k1 + 1)) by (nonlinear_arith)
            requires
                two_pow(k2) == two_pow(k1 + 1) * two_pow(d),
                two_pow(d) >= 1,
                a1 <= a2,
        ;
    }
}

/// The significand of a quotient has exactly 53 binary digits, or is
/// `2^53` after rounding up.
proof fn lemma_significand_bounds(a: nat, b: nat, k: nat)
    requires
        b > 0,
        is_ratio_scale(a, b, k),
    ensures
        two_pow(52) <= round_half_even(a * two_pow(k), b) <= two_pow(53),
{
    let n = a * two_pow(k);
    lemma_fundamental_div_mod(n as int, b as int);
    let q = n / b;
    assert(two_pow(52) <= q < two_pow(53)) by (nonlinear_arith)
        requires
            n == b * q + n % b,
            0 <= n % b < b,
            two_pow(52) * b <= n,
            n < two_pow(53) * b,
            b > 0,
    ;
}

/// A value with at most 53 significant bits converts to a double exactly.
proof fn lemma_f64_value_exact(m: nat, j: nat)
    requires
        m < two_pow(53),
    ensures
        f64_value(m * two_pow(j)) == m * two_pow(j),
{
    let n = m * two_pow(j);
    let len = bit_len(n);
    if len > 53 {
        lemma_two_pow_adds(53, j);
        assert(n < two_pow(53 + j)) by (nonlinear_arith)
            requires
                m < two_pow(53),
                n == m * two_pow(j),
                two_pow(53 + j) == two_pow(53) * two_pow(j),
                two_pow(j) > 0,
        {
        }
        lemma_bit_len_ge(n, (len - 1) as nat);
        if (len - 1) as nat >= 53 + j {
            lemma_two_pow_mono(53 + j, (len - 1) as nat);
        }
        let e = (len - 53) as nat;
        let rest = (j - e) as nat;
        lemma_two_pow_adds(e, rest);
        assert((e + rest) as nat == j);
        let unit = two_pow(e);
        lemma_two_pow_pos(e);
        let x = m * two_pow(rest);
        assert(n == x * unit) by (nonlinear_arith)
            requires
                n == m * two_pow(j),
                two_pow(j) == unit * two_pow(rest),
                x == m * two_pow(rest),
        ;
        lemma_div_multiples_vanish(x as int, unit as int);
        lemma_mod_multiples_basic(x as int, unit as int);
        assert(unit * x == x * unit) by (nonlinear_arith);
        assert(n / unit == x);
        assert(n % unit == 0);
        assert(round_half_even(n, unit) == x);
    } else {
        lemma_two_pow_pos(j);
    }
}

/// The double-precision percentage never decreases as the numerator
/// grows.
pub proof fn lemma_f64_percent_mono(a1: nat, a2: nat, b: nat)
    requires
        a1 <= a2,
        b > 0,
    ensures
        f64_percent(a1, b) <= f64_percent(a2, b),
{
    if a1 == 0 || a2 >= b {
    } else {
        lemma_two_pow_values();
        lemma_ratio_scale_from(a1, b, 0);
        lemma_ratio_scale_from(a2, b, 0);
        let k1 = ratio_scale(a1, b);
        let k2 = ratio_scale(a2, b);
        lemma_ratio_scale_order(a1, a2, b, k1, k2);
        let s1 = ratio_significand(a1, b);
        let s2 = ratio_significand(a2, b);
        let v1 = f64_value(100 * s1);
        let v2 = f64_value(100 * s2);
        lemma_two_pow_pos(k1);
        lemma_two_pow_pos(k2);
        if k1 == k2 {
            assert(a1 * two_pow(k1) <= a2 * two_pow(k1)) by (nonlinear_arith)
                requires
                    a1 <= a2,
            ;
            lemma_round_half_even_mono(a1 * two_pow(k1), a2 * two_pow(k1), b);
            lemma_f64_value_mono(100 * s1, 100 * s2);
            lemma_div_is_ordered(v1 as int, v2 as int, two_pow(k1) as int);
        } else {
            lemma_significand_bounds(a1, b, k1);
            lemma_significand_bounds(a2, b, k2);
            lemma_f64_value_mono(100 * s1, 100 * two_pow(53));
            lemma_f64_value_mono(100 * two_pow(52), 100 * s2);
            lemma_f64_value_exact(100, 53);
            lemma_f64_value_exact(100, 52);
            let c = 100 * two_pow(52);
            let h = (k1 - 1) as nat;
            lemma_two_pow_adds(1, h);
            assert((1 + h) as nat == k1);
            lemma_two_pow_pos(h);
            lemma_two_pow_mono(k2, h);
            lemma_div_is_ordered(v1 as int, (2 * c) as int, two_pow(k1) as int);
            lemma_div_multiples_vanish_quotient(2, c as int, two_pow(h) as int);
            assert(2 * c == 100 * two_pow(53));
            assert(two_pow(k1) == 2 * two_pow(h));
            lemma_div_is_ordered_by_denominator(c as int, two_pow(k2) as int, two_pow(h) as int);
            lemma_div_is_ordered(c as int, v2 as int, two_pow(k2) as int);
        }
    }
}

/// Rounding to nearest loses at most half a unit: `d * round(n / d) >= n - d / 2`.
proof fn lemma_round_half_even_lower(n: nat, d: nat)
    requires
        d > 0,
    ensures
        2 * d * round_half_even(n, d) + d >= 2 * n,
{
    lemma_fundamental_div_mod(n as int, d as int);
    let q = n / d;
    let r = n % d;
    if r * 2 > d || (r * 2 == d && q % 2 == 1) {
        assert(2 * d * (q + 1) + d >= 2 * n) by (nonlinear_arith)
            requires
                n == d * q + r,
                r < d,
        ;
    } else {
        assert(2 * d * q + d >= 2 * n) by (nonlinear_arith)
            requires
                n == d * q + r,
                r * 2 <= d,
        ;
    }
}

/// Converting to a double loses at most one part in `2^53` downwards.
proof fn lemma_f64_value_lower(n: nat)
    ensures
        two_pow(53) * f64_value(n) + n >= two_pow(53) * n,
{
    lemma_two_pow_values();
    if bit_len(n) > 53 {
        let len = bit_len(n);
        let unit = two_pow((len - 53) as nat);
        lemma_two_pow_pos((len - 53) as nat);
        lemma_bit_len_ge(n, (len - 1) as nat);
        lemma_two_pow_adds(52, (len - 53) as nat);
        assert((52 + (len - 53)) as nat == (len - 1) as nat);
        lemma_round_half_even_lower(n, unit);
        let q = round_half_even(n, unit);
        assert(two_pow(53) * (q * unit) + n >= two_pow(53) * n) by (nonlinear_arith)
            requires
                2 * unit * q + unit >= 2 * n,
                two_pow(52) * unit <= n,
                two_pow(53) == 2 * two_pow(52),
        ;
    }
}

/// The double-precision percentage of `w` out of `t` (`0 < w < t`) is
/// within 1 of the exact integer percentage `100 * w / t`.
pub proof fn lemma_f64_percent_near(w: nat, t: nat)
    requires
        0 < w < t,
    ensures
        f64_percent(f64_value(w), f64_value(t)) <= 100 * w / t + 1,
        100 * w / t <= f64_percent(f64_value(w), f64_value(t)) + 1,
{
    lemma_two_pow_values();
    let e = two_pow(53);
    let a = f64_value(w);
    let b = f64_value(t);
    lemma_f64_value_upper(w);
    lemma_f64_value_lower(w);
    lemma_f64_value_upper(t);
    lemma_f64_value_lower(t);
    lemma_fundamental_div_mod((100 * w) as int, t as int);
    let f = 100 * w / t;
    assert(f <= 99) by (nonlinear_arith)
        requires
            100 * w == t * f + (100 * w) % t,
            (100 * w) % t >= 0,
            w < t,
    ;
    if a == 0 {
        assert(false) by (nonlinear_arith)
            requires
                e * a + w >= e * w,
                a == 0,
                w > 0,
                e == 0x20_0000_0000_0000,
        ;
    } else if a >= b {
        // Rounding made the two equal: the exact share is at least 99%.
        assert(100 * w >= 99 * t) by (nonlinear_arith)
            requires
                e * a <= (e + 1) * w,
                e * b + t >= e * t,
                a >= b,
                e == 0x20_0000_0000_0000,
        ;
        let r = (100 * w) % t;
        assert(100 * w == t * f + r);
        assert(r < t);
        assert(t * f > t * 98);
        assert(f >= 99) by (nonlinear_arith)
            requires
                t * f > t * 98,
                t > 0,
        ;
    } else {
        lemma_ratio_scale_from(a, b, 0);
        let k = ratio_scale(a, b);
        let kk = two_pow(k);
        lemma_two_pow_pos(k);
        let s = ratio_significand(a, b);
        lemma_significand_bounds(a, b, k);
        lemma_round_half_even_upper(a * kk, b);
        lemma_round_half_even_lower(a * kk, b);
        let v = f64_value(100 * s);
        lemma_f64_value_upper(100 * s);
        lemma_f64_value_lower(100 * s);
        // The significand is within one part in 2^53 of `a * 2^k / b`.
        assert(e * b * s <= (e + 1) * (a * kk)) by (nonlinear_arith)
            requires
                2 * b * s <= 2 * (a * kk) + b,
                two_pow(52) * b <= a * kk,
                e == 2 * two_pow(52),
        ;
        assert(e * b * s + a * kk >= e * (a * kk)) by (nonlinear_arith)
            requires
                2 * b * s + b >= 2 * (a * kk),
                two_pow(52) * b <= a * kk,
                e == 2 * two_pow(52),
        ;
        // Upper bound on the shown value.
        assert((e - 1) * e * e * v * t <= 100 * (e + 1) * (e + 1) * (e + 1) * kk * w) by (nonlinear_arith)
            requires
                e * v <= (e + 1) * (100 * s),
                e * b * s <= (e + 1) * (a * kk),
                e * a <= (e + 1) * w,
                e * b + t >= e * t,
                e == 0x20_0000_0000_0000,
                kk > 0,
        ;
        assert(v * t < (100 * w + t) * kk) by (nonlinear_arith)
            requires
                (e - 1) * e * e * v * t <= 100 * (e + 1) * (e + 1) * (e + 1) * kk * w,
                w < t,
                kk > 0,
                e == 0x20_0000_0000_0000,
        ;
        // Lower bound on the shown value.
        assert((e + 1) * e * e * v * t >= 100 * (e - 1) * (e - 1) * (e - 1) * kk * w) by (nonlinear_arith)
            requires
                e * v + 100 * s >= e * (100 * s),
                e * b * s + a * kk >= e * (a * kk),
                e * a + w >= e * w,
                e * b <= (e + 1) * t,
                e == 0x20_0000_0000_0000,
                kk > 0,
        ;
        assert(v * t + t * kk > 100 * w * kk) by (nonlinear_arith)
            requires
                (e + 1) * e * e * v * t >= 100 * (e - 1) * (e - 1) * (e - 1) * kk * w,
                w < t,
                kk > 0,
                e == 0x20_0000_0000_0000,
        ;
        lemma_fundamental_div_mod(v as int, kk as int);
        let q = v / kk;
        assert(q <= f + 1) by (nonlinear_arith)
            requires
                v == kk * q + v % kk,
                v % kk >= 0,
                v * t < (100 * w + t) * kk,
                100 * w == t * f + (100 * w) % t,
                (100 * w) % t < t,
                kk > 0,
                t > 0,
        ;
        assert(f <= q + 1) by (nonlinear_arith)
            requires
                v == kk * q + v % kk,
                v % kk < kk,
                v * t + t * kk > 100 * w * kk,
                100 * w == t * f + (100 * w) % t,
                (100 * w) % t >= 0,
                kk > 0,
                t > 0,
        ;
    }
}

/// For fill percentages up to 95 the double-precision scaling never
/// exceeds the value scaled: `f64_scaled(x, percent) <= x`.
proof fn lemma_scaled_at_most(x: nat, a: nat, k: nat, ratio: nat, value: nat, product: nat, whole: nat)
    requires
        1 <= a <= 95,
        is_ratio_scale(a, 100, k),
        ratio == round_half_even(a * two_pow(k), 100),
        value == f64_value(x),
        product == f64_value(value * ratio),
        whole == product / two_pow(k),
    ensures
        whole <= x,
{
    lemma_two_pow_values();
    lemma_two_pow_pos(k);
    let s = two_pow(k);
    let e = two_pow(53);
    lemma_round_half_even_upper(a * s, 100);
    lemma_f64_value_upper(x);
    lemma_f64_value_upper(value * ratio);
    lemma_fundamental_div_mod(product as int, s as int);
    // The ratio: 2^53 * 100 * ratio <= (2^53 + 1) * a * s.
    assert(e * 100 * ratio <= (e + 1) * (a * s)) by (nonlinear_arith)
        requires
            2 * 100 * ratio <= 2 * (a * s) + 100,
            two_pow(52) * 100 <= a * s,
            e == 2 * two_pow(52),
    ;
    // The product: 2^53 * 100 * product <= (2^53 + 1)^2 * value * a * s / 2^53.
    let vr = value * ratio;
    assert(e * e * 100 * product <= (e + 1) * (e + 1) * value * (a * s)) by (nonlinear_arith)
        requires
            e * product <= (e + 1) * vr,
            vr == value * ratio,
            e * 100 * ratio <= (e + 1) * (a * s),
            e > 0,
    ;
    assert(e * e * e * 100 * product <= (e + 1) * (e + 1) * (e + 1) * x * (a * s)) by (nonlinear_arith)
        requires
            e * e * 100 * product <= (e + 1) * (e + 1) * value * (a * s),
            e * value <= (e + 1) * x,
            e > 0,
    ;
    assert(whole * s <= product) by (nonlinear_arith)
        requires
            product == s * whole + product % s,
            product % s >= 0,
    ;
    assert(e * e * e * 100 * whole <= (e + 1) * (e + 1) * (e + 1) * x * a) by (nonlinear_arith)
        requires
            e * e * e * 100 * product <= (e + 1) * (e + 1) * (e + 1) * x * (a * s),
            whole * s <= product,
            s > 0,
    ;
    assert(whole <= x) by (nonlinear_arith)
        requires
            e * e * e * 100 * whole <= (e + 1) * (e + 1) * (e + 1) * x * a,
            a <= 95,
            e == 0x20_0000_0000_0000,
    ;
}

/// Some power of two brings `a / 100` to 53 binary digits, for
/// `1 <= a < 100`.
proof fn lemma_percent_ratio_scale_exists(a: nat)
    requires
        1 <= a < 100,
    ensures
        is_ratio_scale(a, 100, ratio_scale(a, 100)),
{
    let m: nat = if a >= 50 {
        2
    } else if a >= 25 {
        4
    } else if a >= 13 {
        8
    } else if a >= 7 {
        16
    } else if a >= 4 {
        32
    } else if a >= 2 {
        64
    } else {
        128
    };
    let j: nat = if a >= 50 {
        1
    } else if a >= 25 {
        2
    } else if a >= 13 {
        3
    } else if a >= 7 {
        4
    } else if a >= 4 {
        5
    } else if a >= 2 {
        6
    } else {
        7
    };
    assert(two_pow(j) == m) by {
        reveal_with_fuel(two_pow, 8);
    }
    lemma_two_pow_adds(52, j);
    lemma_two_pow_adds(52, 1);
    lemma_two_pow_values();
    let p = two_pow(52);
    assert(100 <= a * m < 200);
    assert(is_ratio_scale(a, 100, 52 + j)) by (nonlinear_arith)
        requires
            two_pow(52 + j) == p * m,
            two_pow(53) == p * 2,
            100 <= a * m < 200,
            p > 0,
    ;
}

/// Scaling in double precision by a percentage of at most 95 never exceeds
/// the value scaled.
pub proof fn lemma_f64_scaled_at_most(x: u64, percent: u8)
    requires
        percent <= 95,
    ensures
        f64_scaled(x, percent) <= x,
{
    if percent > 0 {
        let a = percent as nat;
        lemma_percent_ratio_scale_exists(a);
        let k = ratio_scale(a, 100);
        let ratio = round_half_even(a * two_pow(k), 100);
        let value = f64_value(x as nat);
        let product = f64_value(value * ratio);
        let whole = product / two_pow(k);
        lemma_scaled_at_most(x as nat, a, k, ratio, value, product, whole);
    }
}

/// `((x as f64) * (percent as f64 / 100.0)) as u64`, computed exactly.
pub fn scale_by_percent(x: u64, percent: u8) -> (r: u64)
    ensures
        r == f64_scaled(x, percent),
        percent <= 95 ==> r <= x,
{
    if percent == 0 {
        return 0;
    }
    let a = percent as u128;
    proof {
        lemma_two_pow_values();
        assert(two_pow(52) * 100 <= a * two_pow(120)) by (nonlinear_arith)
            requires
                a >= 1,
                two_pow(52) == 0x10_0000_0000_0000,
                two_pow(120) == 0x100_0000_0000_0000_0000_0000_0000_0000,
        ;
    }
    let k = find_ratio_scale(a, 100);
    let scale = two_pow_of(k);
    proof {
        assert(a * scale < 0x20_0000_0000_0000 * 100);
        assert(((a * scale) as u128) / 100 < 0x20_0000_0000_0000) by (nonlinear_arith)
            requires
                a * scale < 0x20_0000_0000_0000 * 100,
        ;
    }
    let ratio = div_round_half_even(a * scale, 100);
    let value = f64_value_of(x);
    proof {
        assert(value * ratio < 0x100_0000_0000_0000_0000_0000_0000_0000) by (nonlinear_arith)
            requires
                value <= 2 * 0xffff_ffff_ffff_ffffu128,
                ratio <= 0x20_0000_0000_0000,
        ;
    }
    let product = f64_round(value * ratio);
    let whole = product / scale;
    proof {
        if percent <= 95 {
            lemma_scaled_at_most(x as nat, a as nat, k as nat, ratio as nat, value as nat, product as nat, whole as nat);
        }
    }
    if whole > u64::MAX as u128 {
        u64::MAX
    } else {
        whole as u64
    }
}

/// Appends `n / d` with one decimal, rounded to the nearest tenth (ties to
/// even).
pub fn push_one_decimal(out: &mut String, n: u128, d: u128)
    requires
        d > 0,
        d <= 0x100_0000_0000,
        n <= 0x4_0000_0000_0000_0000,
    ensures
        final(out)@ == old(out)@ + one_decimal(n as nat, d as nat),
{
    let tenths = div_round_half_even(n * 10, d);
    push_decimal(out, tenths / 10);
    proof {
        reveal_strlit(".");
    }
    out.append(".");
    crate::util::text::push_digit(out, tenths % 10);
}

} // verus!
