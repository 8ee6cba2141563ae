//! Reasoning about decimals written at a common scale: a relation between
//! decimals shown at one fine enough scale holds at every finer one.
use crate::num::{
    at_scale, common_scale, dec_cmp, dec_lt, dec_lt_sum, dec_nonneg, is_difference, is_difference2,
    is_integral, is_sum, is_sum_minus, max_int, ordering_of, pow10, scale_of3, truncated,
};
use vstd::prelude::*;

verus! {

pub proof fn lemma_pow10_positive(n: nat)
    ensures
        pow10(n) > 0,
    decreases n,
{
    if n > 0 {
        lemma_pow10_positive((n - 1) as nat);
    }
}

pub proof fn lemma_pow10_add(a: nat, b: nat)
    ensures
        pow10(a + b) == pow10(a) * pow10(b),
    decreases a,
{
    if a > 0 {
        lemma_pow10_add((a - 1) as nat, b);
        assert(pow10(a + b) == 10 * pow10((a - 1 + b) as nat));
        let x = pow10((a - 1) as nat);
        let y = pow10(b);
        assert(10 * (x * y) == (10 * x) * y) by (nonlinear_arith);
    }
}

/// Writing a decimal at a finer scale multiplies its mantissa by a power of ten.
pub proof fn lemma_rescale(d: (int, int), k1: int, k2: int)
    requires
        d.1 <= k1 <= k2,
    ensures
        at_scale(d, k2) == at_scale(d, k1) * pow10((k2 - k1) as nat),
{
    lemma_pow10_add((k1 - d.1) as nat, (k2 - k1) as nat);
    assert(((k1 - d.1) as nat + (k2 - k1) as nat) as nat == (k2 - d.1) as nat);
    let x = pow10((k1 - d.1) as nat);
    let y = pow10((k2 - k1) as nat);
    assert(d.0 * (x * y) == (d.0 * x) * y) by (nonlinear_arith);
}

/// Decimals compare the same way at every scale fine enough for both.
pub proof fn lemma_cmp_at(a: (int, int), b: (int, int), k: int)
    requires
        k >= common_scale(a, b),
    ensures
        dec_cmp(a, b) == ordering_of(at_scale(a, k), at_scale(b, k)),
{
    let k0 = common_scale(a, b);
    lemma_rescale(a, k0, k);
    lemma_rescale(b, k0, k);
    lemma_pow10_positive((k - k0) as nat);
    let p = pow10((k - k0) as nat);
    let x = at_scale(a, k0);
    let y = at_scale(b, k0);
    assert(x < y ==> x * p < y * p) by (nonlinear_arith)
        requires p > 0;
    assert(x > y ==> x * p > y * p) by (nonlinear_arith)
        requires p > 0;
}

/// A sum holds at every scale fine enough for its three decimals.
pub proof fn lemma_sum_at(r: (int, int), a: (int, int), b: (int, int), k: int)
    requires
        is_sum(r, a, b),
        k >= max_int(common_scale(a, b), r.1),
    ensures
        at_scale(r, k) == at_scale(a, k) + at_scale(b, k),
{
    let k0 = max_int(common_scale(a, b), r.1);
    lemma_rescale(r, k0, k);
    lemma_rescale(a, k0, k);
    lemma_rescale(b, k0, k);
    let p = pow10((k - k0) as nat);
    let (x, y, z) = (at_scale(r, k0), at_scale(a, k0), at_scale(b, k0));
    assert(x == y + z ==> x * p == y * p + z * p) by (nonlinear_arith);
}

/// A difference holds at every scale fine enough for its three decimals.
pub proof fn lemma_difference_at(r: (int, int), a: (int, int), b: (int, int), k: int)
    requires
        is_difference(r, a, b),
        k >= max_int(common_scale(a, b), r.1),
    ensures
        at_scale(r, k) == at_scale(a, k) - at_scale(b, k),
{
    let k0 = max_int(common_scale(a, b), r.1);
    lemma_rescale(r, k0, k);
    lemma_rescale(a, k0, k);
    lemma_rescale(b, k0, k);
    let p = pow10((k - k0) as nat);
    let (x, y, z) = (at_scale(r, k0), at_scale(a, k0), at_scale(b, k0));
    assert(x == y - z ==> x * p == y * p - z * p) by (nonlinear_arith);
}

/// The sign of a decimal is the sign of its mantissa at any scale.
pub proof fn lemma_sign_at(d: (int, int), k: int)
    requires
        k >= d.1,
    ensures
        d.0 >= 0 <==> at_scale(d, k) >= 0,
        d.0 == 0 <==> at_scale(d, k) == 0,
{
    lemma_pow10_positive((k - d.1) as nat);
    let p = pow10((k - d.1) as nat);
    assert(d.0 >= 0 <==> d.0 * p >= 0) by (nonlinear_arith)
        requires p > 0;
    assert(d.0 == 0 <==> d.0 * p == 0) by (nonlinear_arith)
        requires p > 0;
}

/// `a < b + c` may be checked at any scale fine enough for the three.
pub proof fn lemma_lt_sum_at(a: (int, int), b: (int, int), c: (int, int), k: int)
    requires
        k >= scale_of3(a, b, c),
    ensures
        dec_lt_sum(a, b, c) <==> at_scale(a, k) < at_scale(b, k) + at_scale(c, k),
{
    let k0 = scale_of3(a, b, c);
    lemma_rescale(a, k0, k);
    lemma_rescale(b, k0, k);
    lemma_rescale(c, k0, k);
    lemma_pow10_positive((k - k0) as nat);
    let p = pow10((k - k0) as nat);
    let (x, y, z) = (at_scale(a, k0), at_scale(b, k0), at_scale(c, k0));
    assert(x < y + z <==> x * p < y * p + z * p) by (nonlinear_arith)
        requires p > 0;
}

/// A linear identity between four decimals, shown at a finer scale, holds at
/// the coarsest scale that fits them.
pub proof fn lemma_identity4_down(
    r: (int, int), a: (int, int), b: (int, int), c: (int, int), sb: int, sc: int, k: int,
)
    requires
        sb == 1 || sb == -1,
        sc == 1 || sc == -1,
        k >= max_int(scale_of3(a, b, c), r.1),
        at_scale(r, k) == at_scale(a, k) + sb * at_scale(b, k) + sc * at_scale(c, k),
    ensures
        ({
            let k0 = max_int(scale_of3(a, b, c), r.1);
            at_scale(r, k0) == at_scale(a, k0) + sb * at_scale(b, k0) + sc * at_scale(c, k0)
        }),
{
    let k0 = max_int(scale_of3(a, b, c), r.1);
    lemma_rescale(r, k0, k);
    lemma_rescale(a, k0, k);
    lemma_rescale(b, k0, k);
    lemma_rescale(c, k0, k);
    lemma_pow10_positive((k - k0) as nat);
    let p = pow10((k - k0) as nat);
    let (w, x, y, z) = (at_scale(r, k0), at_scale(a, k0), at_scale(b, k0), at_scale(c, k0));
    let v = x + sb * y + sc * z;
    assert(x * p + sb * (y * p) + sc * (z * p) == v * p) by (nonlinear_arith)
        requires v == x + sb * y + sc * z;
    assert(w * p == v * p ==> w == v) by (nonlinear_arith)
        requires p > 0;
}

/// A linear identity between three decimals, shown at a finer scale, holds at
/// the coarsest scale that fits them.
pub proof fn lemma_identity3_down(r: (int, int), a: (int, int), b: (int, int), sb: int, k: int)
    requires
        sb == 1 || sb == -1,
        k >= max_int(common_scale(a, b), r.1),
        at_scale(r, k) == at_scale(a, k) + sb * at_scale(b, k),
    ensures
        ({
            let k0 = max_int(common_scale(a, b), r.1);
            at_scale(r, k0) == at_scale(a, k0) + sb * at_scale(b, k0)
        }),
{
    let k0 = max_int(common_scale(a, b), r.1);
    lemma_rescale(r, k0, k);
    lemma_rescale(a, k0, k);
    lemma_rescale(b, k0, k);
    lemma_pow10_positive((k - k0) as nat);
    let p = pow10((k - k0) as nat);
    let (w, x, y) = (at_scale(r, k0), at_scale(a, k0), at_scale(b, k0));
    let v = x + sb * y;
    assert(x * p + sb * (y * p) == v * p) by (nonlinear_arith)
        requires v == x + sb * y;
    assert(w * p == v * p ==> w == v) by (nonlinear_arith)
        requires p > 0;
}

/// Zero plus a sum is that sum.
pub proof fn lemma_zero_plus_sum(s: (int, int), t: (int, int), a: (int, int), b: (int, int))
    requires
        is_sum(t, a, b),
        is_sum(s, (0int, 0int), t),
    ensures
        is_sum(s, a, b),
{
    let k = max_int(max_int(scale_of3(a, b, t), s.1), 0);
    lemma_sum_at(t, a, b, k);
    lemma_sum_at(s, (0int, 0int), t, k);
    assert(at_scale((0int, 0int), k) == 0);
    lemma_identity3_down(s, a, b, 1, k);
}

/// Taking a sum off in one step is taking `a + b` off.
pub proof fn lemma_difference_of_sum(r: (int, int), x: (int, int), t: (int, int), a: (int, int), b: (int, int))
    requires
        is_sum(t, a, b),
        is_difference(r, x, t),
    ensures
        is_difference2(r, x, a, b),
{
    let k = max_int(max_int(scale_of3(x, a, b), t.1), r.1);
    lemma_sum_at(t, a, b, k);
    lemma_difference_at(r, x, t, k);
    lemma_identity4_down(r, x, a, b, -1, -1, k);
}

/// `x < a + b` is the same test as `x < t` for `t = a + b`.
pub proof fn lemma_lt_of_sum(x: (int, int), t: (int, int), a: (int, int), b: (int, int))
    requires
        is_sum(t, a, b),
    ensures
        dec_lt(x, t) <==> dec_lt_sum(x, a, b),
{
    let k = max_int(scale_of3(x, a, b), t.1);
    lemma_sum_at(t, a, b, k);
    lemma_cmp_at(x, t, k);
    lemma_lt_sum_at(x, a, b, k);
}

pub proof fn lemma_sum_nonneg(r: (int, int), a: (int, int), b: (int, int))
    requires
        is_sum(r, a, b),
        dec_nonneg(a),
        dec_nonneg(b),
    ensures
        dec_nonneg(r),
{
    let k = max_int(common_scale(a, b), r.1);
    lemma_sign_at(a, k);
    lemma_sign_at(b, k);
    lemma_sign_at(r, k);
}

pub proof fn lemma_difference2_nonneg(r: (int, int), x: (int, int), a: (int, int), b: (int, int))
    requires
        is_difference2(r, x, a, b),
        !dec_lt_sum(x, a, b) || !dec_lt_sum(x, b, a),
    ensures
        dec_nonneg(r),
{
    let k = max_int(scale_of3(x, a, b), r.1);
    lemma_lt_sum_at(x, a, b, k);
    lemma_lt_sum_at(x, b, a, k);
    lemma_sign_at(r, k);
}

pub proof fn lemma_sum_minus_nonneg(r: (int, int), x: (int, int), a: (int, int), b: (int, int))
    requires
        is_sum_minus(r, x, a, b),
        !dec_lt(x, b),
        dec_nonneg(a),
    ensures
        dec_nonneg(r),
{
    let k = max_int(scale_of3(x, a, b), r.1);
    lemma_cmp_at(x, b, k);
    lemma_sign_at(a, k);
    lemma_sign_at(r, k);
}

pub proof fn lemma_truncated_nonneg(d: (int, int))
    requires
        dec_nonneg(d),
    ensures
        truncated(d) >= 0,
{
    if d.1 <= 0 {
        lemma_pow10_positive((-d.1) as nat);
        let p = pow10((-d.1) as nat);
        assert(d.0 * p >= 0) by (nonlinear_arith)
            requires d.0 >= 0, p > 0;
    } else {
        lemma_pow10_positive(d.1 as nat);
    }
}

/// `r = a - b - c` holds at every scale fine enough for the four decimals.
pub proof fn lemma_difference2_at(r: (int, int), a: (int, int), b: (int, int), c: (int, int), k: int)
    requires
        is_difference2(r, a, b, c),
        k >= max_int(scale_of3(a, b, c), r.1),
    ensures
        at_scale(r, k) == at_scale(a, k) - at_scale(b, k) - at_scale(c, k),
{
    let k0 = max_int(scale_of3(a, b, c), r.1);
    lemma_rescale(r, k0, k);
    lemma_rescale(a, k0, k);
    lemma_rescale(b, k0, k);
    lemma_rescale(c, k0, k);
    let p = pow10((k - k0) as nat);
    let (w, x, y, z) = (at_scale(r, k0), at_scale(a, k0), at_scale(b, k0), at_scale(c, k0));
    assert(w == x - y - z ==> w * p == x * p - y * p - z * p) by (nonlinear_arith);
}

/// `r = a + b - c` holds at every scale fine enough for the four decimals.
pub proof fn lemma_sum_minus_at(r: (int, int), a: (int, int), b: (int, int), c: (int, int), k: int)
    requires
        is_sum_minus(r, a, b, c),
        k >= max_int(scale_of3(a, b, c), r.1),
    ensures
        at_scale(r, k) == at_scale(a, k) + at_scale(b, k) - at_scale(c, k),
{
    let k0 = max_int(scale_of3(a, b, c), r.1);
    lemma_rescale(r, k0, k);
    lemma_rescale(a, k0, k);
    lemma_rescale(b, k0, k);
    lemma_rescale(c, k0, k);
    let p = pow10((k - k0) as nat);
    let (w, x, y, z) = (at_scale(r, k0), at_scale(a, k0), at_scale(b, k0), at_scale(c, k0));
    assert(w == x + y - z ==> w * p == x * p + y * p - z * p) by (nonlinear_arith);
}

/// An integral decimal's integer value, written at scale `k`, is the decimal
/// written at scale `k`.
pub proof fn lemma_integral_at(d: (int, int), k: int)
    requires
        is_integral(d),
        k >= max_int(d.1, 0),
    ensures
        truncated(d) * pow10(k as nat) == at_scale(d, k),
{
    if d.1 <= 0 {
        lemma_pow10_add((-d.1) as nat, k as nat);
        assert(((-d.1) as nat + k as nat) as nat == (k - d.1) as nat);
        let x = pow10((-d.1) as nat);
        let y = pow10(k as nat);
        assert(d.0 * x * y == d.0 * (x * y)) by (nonlinear_arith);
    } else {
        let p = pow10(d.1 as nat);
        lemma_pow10_positive(d.1 as nat);
        lemma_pow10_add(d.1 as nat, (k - d.1) as nat);
        assert((d.1 as nat + (k - d.1) as nat) as nat == k as nat);
        let q = pow10((k - d.1) as nat);
        vstd::arithmetic::div_mod::lemma_fundamental_div_mod(d.0, p);
        let m = d.0 / p;
        assert(d.0 == p * m);
        if d.0 < 0 {
            assert(-d.0 == p * (-m)) by (nonlinear_arith)
                requires d.0 == p * m;
            vstd::arithmetic::div_mod::lemma_div_multiples_vanish(-m, p);
        }
        assert(truncated(d) == m);
        assert(m * (p * q) == (p * m) * q) by (nonlinear_arith);
    }
}

} // verus!
