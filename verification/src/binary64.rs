//! Shares of a whole as 64-bit floating-point numbers have them, worked out with integers: a
//! quotient of two counts, rounded to 53 significant bits, times a small whole number, rounded to
//! 53 significant bits again. The least whole number with 53 bits is 2 to the power of 52, or
//! `0x10_0000_0000_0000`.
use vstd::prelude::*;

verus! {

/// A number that is `top` divided by `bottom`.
#[derive(Debug, Clone, Copy)]
pub struct Ratio {
    pub top: u128,
    pub bottom: u128,
}

/// What a `Ratio` holds.
pub struct RatioView {
    pub top: nat,
    pub bottom: nat,
}

impl View for Ratio {
    type V = RatioView;

    open spec fn view(&self) -> RatioView {
        RatioView { top: self.top as nat, bottom: self.bottom as nat }
    }
}

/// The whole number nearest to `n` divided by `d`; of two that are as near, the even one.
pub open spec fn nearest(n: nat, d: nat) -> nat {
    let floor = n / d;
    let twice_rest = 2 * (n % d);
    if twice_rest < d || (twice_rest == d && floor % 2 == 0) {
        floor
    } else {
        floor + 1
    }
}

/// `n` and `scale`, both doubled until `n` divided by `d` has 53 bits before the point.
pub open spec fn scaled_up(n: nat, d: nat, scale: nat) -> (nat, nat)
    decreases
        (if n >= 0x10_0000_0000_0000 * d {
            0
        } else {
            0x10_0000_0000_0000 * d - n
        }),
{
    if n == 0 || n >= 0x10_0000_0000_0000 * d {
        (n, scale)
    } else {
        scaled_up(2 * n, d, 2 * scale)
    }
}

/// `n` divided by `d`, rounded to 53 bits.
pub open spec fn quotient(n: nat, d: nat) -> RatioView {
    let (m, scale) = scaled_up(n, d, 1);
    RatioView { top: nearest(m, d), bottom: scale }
}

/// The weight of the last of the 53 highest bits of a whole number: `unit`, doubled as often as
/// needed.
pub open spec fn last_bit(p: nat, unit: nat) -> nat
    decreases
        (if p < 0x20_0000_0000_0000 * unit {
            0
        } else {
            p - 0x20_0000_0000_0000 * unit + 1
        }),
{
    if unit == 0 || p < 0x20_0000_0000_0000 * unit {
        unit
    } else {
        last_bit(p, 2 * unit)
    }
}

/// A number times a whole number, rounded to 53 bits.
pub open spec fn times(r: RatioView, w: nat) -> RatioView {
    let p = r.top * w;
    let unit = last_bit(p, 1);
    RatioView { top: nearest(p, unit) * unit, bottom: r.bottom }
}

/// `w` times the share of `n` in `d`.
pub open spec fn share(n: nat, d: nat, w: nat) -> RatioView {
    times(quotient(n, d), w)
}

/// The whole part.
pub open spec fn floor(r: RatioView) -> nat {
    r.top / r.bottom
}

/// The nearest whole number; of two that are as near, the greater one.
pub open spec fn round(r: RatioView) -> nat {
    (2 * r.top + r.bottom) / (2 * r.bottom)
}

/// The nearest whole number; of two that are as near, the even one.
pub open spec fn round_even(r: RatioView) -> nat {
    nearest(r.top, r.bottom)
}

/// The number, or `most` where it is greater.
pub open spec fn at_most(r: RatioView, most: nat) -> RatioView {
    if r.top > most * r.bottom {
        RatioView { top: most, bottom: 1 }
    } else {
        r
    }
}

proof fn lemma_nearest(n: nat, d: nat)
    requires
        d > 0,
    ensures
        2 * nearest(n, d) * d <= 2 * n + d,
        2 * nearest(n, d) * d + d >= 2 * n,
{
    let f = n / d;
    let r = n % d;
    assert(n == f * d + r && 0 <= r < d) by (nonlinear_arith)
        requires
            d > 0,
            f == n / d,
            r == n % d,
    ;
    assert((f + 1) * d == f * d + d) by (nonlinear_arith);
    assert(2 * f * d == 2 * (f * d)) by (nonlinear_arith);
    assert(2 * (f + 1) * d == 2 * ((f + 1) * d)) by (nonlinear_arith);
}

proof fn lemma_scaled_up(n: nat, d: nat, scale: nat)
    requires
        n > 0,
        d > 0,
        n < 0x20_0000_0000_0000 * d,
    ensures
        ({
            let (m, s) = scaled_up(n, d, scale);
            &&& 0x10_0000_0000_0000 * d <= m < 0x20_0000_0000_0000 * d
            &&& m * scale == n * s
            &&& s >= scale
        }),
    decreases
            (if n >= 0x10_0000_0000_0000 * d {
                0
            } else {
                0x10_0000_0000_0000 * d - n
            }),
{
    if n < 0x10_0000_0000_0000 * d {
        lemma_scaled_up(2 * n, d, 2 * scale);
        let (m, s) = scaled_up(2 * n, d, 2 * scale);
        assert(m * scale == n * s) by (nonlinear_arith)
            requires
                m * (2 * scale) == (2 * n) * s,
        ;
    }
}

proof fn lemma_last_bit(p: nat, unit: nat)
    requires
        unit > 0,
    ensures
        last_bit(p, unit) > 0,
        last_bit(p, unit) >= unit,
        p < 0x20_0000_0000_0000 * last_bit(p, unit),
        last_bit(p, unit) > unit ==> 0x10_0000_0000_0000 * last_bit(p, unit) <= p,
    decreases
            (if p < 0x20_0000_0000_0000 * unit {
                0
            } else {
                p - 0x20_0000_0000_0000 * unit + 1
            }),
{
    if p >= 0x20_0000_0000_0000 * unit {
        lemma_last_bit(p, 2 * unit);
    }
}

/// A share is a number.
pub proof fn lemma_share_is_number(n: nat, d: nat, w: nat)
    requires
        d > 0,
        n <= u32::MAX,
    ensures
        share(n, d, w).bottom > 0,
{
    if n > 0 {
        assert(n < 0x20_0000_0000_0000 * d);
        lemma_scaled_up(n, d, 1);
    }
}

/// A number that is cut off at a whole number is not rounded to a greater one.
pub proof fn law_rounding_keeps_the_limit(r: RatioView, most: nat)
    requires
        r.bottom > 0,
    ensures
        round_even(at_most(r, most)) <= most,
{
    let cut = at_most(r, most);
    lemma_nearest(cut.top, cut.bottom);
    let near = nearest(cut.top, cut.bottom);
    assert(near <= most) by (nonlinear_arith)
        requires
            2 * near * cut.bottom <= 2 * cut.top + cut.bottom,
            cut.top <= most * cut.bottom,
            cut.bottom > 0,
    ;
}

/// The share of a part in a whole is at most the whole.
pub proof fn law_share_of_a_part(n: nat, d: nat, w: nat)
    requires
        0 < d <= u32::MAX,
        n <= d,
        w <= 0x10_0000_0000_0000,
    ensures
        floor(share(n, d, w)) <= w,
        share(n, d, w).bottom > 0,
{
    let q = quotient(n, d);
    let (m, scale) = scaled_up(n, d, 1);
    if n > 0 {
        assert(n < 0x20_0000_0000_0000 * d);
        lemma_scaled_up(n, d, 1);
        lemma_nearest(m, d);
        // m == n * scale <= d * scale, so the quotient is at most the scale.
        assert(m == n * scale) by (nonlinear_arith)
            requires
                m * 1 == n * scale,
        ;
        assert(n * scale <= d * scale) by (nonlinear_arith)
            requires
                n <= d,
        ;
        assert(q.top <= scale) by {
            if q.top >= scale + 1 {
                assert(q.top * d >= scale * d + d) by (nonlinear_arith)
                    requires
                        q.top >= scale + 1,
                ;
                assert(2 * q.top * d == 2 * (q.top * d)) by (nonlinear_arith);
                assert(d * scale == scale * d) by (nonlinear_arith);
            }
        }
    } else {
        assert(m == 0 && scale == 1);
        assert(0nat / d == 0 && 0nat % d == 0) by (nonlinear_arith)
            requires
                d > 0,
        ;
    }
    let p = q.top * w;
    let unit = last_bit(p, 1);
    lemma_last_bit(p, 1);
    lemma_nearest(p, unit);
    let top = nearest(p, unit) * unit;
    assert(p <= scale * w) by (nonlinear_arith)
        requires
            q.top <= scale,
            p == q.top * w,
    ;
    assert(2 * nearest(p, unit) * unit == 2 * top) by (nonlinear_arith)
        requires
            top == nearest(p, unit) * unit,
    ;
    assert(scale > 0);
    // The rounding adds at most half a unit, which is less than the scale.
    assert(top < scale * w + scale) by {
        if unit == 1 {
            assert(2 * top <= 2 * p + 1);
        } else {
            assert(0x10_0000_0000_0000 * unit <= p);
            assert(scale * w <= scale * 0x10_0000_0000_0000) by (nonlinear_arith)
                requires
                    w <= 0x10_0000_0000_0000,
            ;
            assert(unit <= scale) by (nonlinear_arith)
                requires
                    0x10_0000_0000_0000 * unit <= scale * 0x10_0000_0000_0000,
            ;
        }
    }
    assert(top / scale <= w) by (nonlinear_arith)
        requires
            top < scale * w + scale,
            scale > 0,
    ;
}

fn nearest_of(n: u128, d: u128) -> (r: u128)
    requires
        d > 0,
        d < 0x8000_0000_0000_0000_0000_0000_0000_0000,
        n < 0x8000_0000_0000_0000_0000_0000_0000_0000,
    ensures
        r == nearest(n as nat, d as nat),
{
    let whole: u128 = n / d;
    let rest: u128 = n % d;
    assert(whole <= n) by (nonlinear_arith)
        requires
            d > 0,
            whole == n / d,
    ;
    if 2 * rest < d || (2 * rest == d && whole % 2 == 0) {
        whole
    } else {
        whole + 1
    }
}

/// `w` times the share of `n` in `d`, as two 64-bit floating-point operations give it.
pub fn share_of(n: u32, d: u32, w: u32) -> (r: Ratio)
    requires
        d > 0,
        w <= 100,
    ensures
        r@ == share(n as nat, d as nat, w as nat),
        0 < r.bottom < 0x40_0000_0000_0000_0000_0000,
        r.top < 0x1000_0000_0000_0000,
{
    let divisor: u128 = d as u128;
    let least: u128 = 0x10_0000_0000_0000 * divisor;
    let mut m: u128 = n as u128;
    let mut scale: u128 = 1;
    assert(0x10_0000_0000_0000 * divisor <= 0x10_0000_0000_0000 * 0xffff_ffff) by (nonlinear_arith)
        requires
            divisor <= 0xffff_ffff,
    ;
    assert(least >= 0x10_0000_0000_0000) by (nonlinear_arith)
        requires
            least == 0x10_0000_0000_0000 * divisor,
            divisor > 0,
    ;
    while m != 0 && m < least
        invariant
            least == 0x10_0000_0000_0000 * divisor,
            0x10_0000_0000_0000 <= least <= 0x10_0000_0000_0000 * 0xffff_ffff,
            divisor == d,
            scaled_up(m as nat, d as nat, scale as nat) == scaled_up(n as nat, d as nat, 1),
            m == n * scale,
            m < 2 * least,
            scale >= 1,
            n == 0 ==> scale == 1,
            scale < 2 * least,
        decreases
                (if m >= least {
                    0
                } else {
                    least - m
                }),
    {
        assert(n >= 1) by (nonlinear_arith)
            requires
                m == n * scale,
                m != 0,
        ;
        assert(scale <= m) by (nonlinear_arith)
            requires
                m == n * scale,
                n >= 1,
        ;
        assert(2 * m == n * (2 * scale)) by (nonlinear_arith)
            requires
                m == n * scale,
        ;
        m = 2 * m;
        scale = 2 * scale;
    }
    let mantissa: u128 = nearest_of(m, divisor);
    proof {
        lemma_nearest(m as nat, divisor as nat);
        assert(mantissa <= 0x20_0000_0000_0000) by {
            if mantissa > 0x20_0000_0000_0000 {
                assert(mantissa * divisor >= 2 * (0x10_0000_0000_0000 * divisor) + divisor)
                    by (nonlinear_arith)
                    requires
                        mantissa >= 0x20_0000_0000_0000 + 1,
                ;
                assert(2 * mantissa * divisor == 2 * (mantissa * divisor)) by (nonlinear_arith);
            }
        }
    }
    assert(mantissa * w <= 0x20_0000_0000_0000 * 100) by (nonlinear_arith)
        requires
            mantissa <= 0x20_0000_0000_0000,
            w <= 100,
    ;
    let p: u128 = mantissa * w as u128;
    let mut unit: u128 = 1;
    while p >= 0x20_0000_0000_0000 * unit
        invariant
            p <= 0x20_0000_0000_0000 * 100,
            1 <= unit <= 200,
            last_bit(p as nat, unit as nat) == last_bit(p as nat, 1),
        decreases 200 - unit,
    {
        unit = 2 * unit;
    }
    let rounded: u128 = nearest_of(p, unit);
    proof {
        lemma_nearest(p as nat, unit as nat);
        assert(2 * rounded * unit == 2 * (rounded * unit)) by (nonlinear_arith);
        assert(rounded * unit >= 0) by (nonlinear_arith);
    }
    Ratio { top: rounded * unit, bottom: scale }
}

/// The whole part.
pub fn floor_of(r: Ratio) -> (n: u128)
    requires
        r.bottom > 0,
    ensures
        n == floor(r@),
{
    r.top / r.bottom
}

/// The nearest whole number; of two that are as near, the greater one.
pub fn round_of(r: Ratio) -> (n: u128)
    requires
        r.bottom > 0,
        r.bottom < 0x40_0000_0000_0000_0000_0000,
        r.top < 0x1000_0000_0000_0000,
    ensures
        n == round(r@),
{
    (2 * r.top + r.bottom) / (2 * r.bottom)
}

/// The nearest whole number, at most `most`; of two that are as near, the even one.
pub fn round_even_of(r: Ratio, most: u32) -> (n: u128)
    requires
        r.bottom > 0,
        r.bottom < 0x40_0000_0000_0000_0000_0000,
        r.top < 0x1000_0000_0000_0000,
    ensures
        n == round_even(at_most(r@, most as nat)),
{
    assert(most * r.bottom <= 0xffff_ffff * 0x40_0000_0000_0000_0000_0000) by (nonlinear_arith)
        requires
            most <= 0xffff_ffff,
            r.bottom <= 0x40_0000_0000_0000_0000_0000,
    ;
    if r.top > most as u128 * r.bottom {
        assert(nearest(most as nat, 1) == most as nat);
        most as u128
    } else {
        nearest_of(r.top, r.bottom)
    }
}

/// The nearest whole number is no farther from a fraction than one half, and even where it is that
/// far.
pub proof fn law_nearest(n: nat, d: nat)
    requires
        d > 0,
    ensures
        2 * nearest(n, d) * d <= 2 * n + d,
        2 * n <= 2 * nearest(n, d) * d + d,
        2 * nearest(n, d) * d == 2 * n + d || 2 * n == 2 * nearest(n, d) * d + d ==> nearest(n, d)
            % 2 == 0,
{
    lemma_nearest(n, d);
    let f = n / d;
    let r = n % d;
    assert(n == f * d + r && 0 <= r < d) by (nonlinear_arith)
        requires
            d > 0,
            f == n / d,
            r == n % d,
    ;
    assert((f + 1) * d == f * d + d) by (nonlinear_arith);
    assert(2 * f * d == 2 * (f * d)) by (nonlinear_arith);
    assert(2 * (f + 1) * d == 2 * ((f + 1) * d)) by (nonlinear_arith);
}

/// A quotient has 53 binary digits, and no number of as many is nearer.
pub proof fn law_quotient(n: nat, d: nat)
    requires
        d > 0,
        0 < n < 0x20_0000_0000_0000 * d,
    ensures
        ({
            let q = quotient(n, d);
            &&& q.bottom > 0
            &&& 0x10_0000_0000_0000 <= q.top <= 0x20_0000_0000_0000
            &&& 2 * q.top * d <= 2 * (n * q.bottom) + d
            &&& 2 * (n * q.bottom) <= 2 * q.top * d + d
        }),
{
    let (m, scale) = scaled_up(n, d, 1);
    lemma_scaled_up(n, d, 1);
    lemma_nearest(m, d);
    assert(m == n * scale) by (nonlinear_arith)
        requires
            m * 1 == n * scale,
    ;
    let near = nearest(m, d);
    assert(near >= 0x10_0000_0000_0000) by (nonlinear_arith)
        requires
            2 * m <= 2 * near * d + d,
            0x10_0000_0000_0000 * d <= m,
            d > 0,
    ;
    assert(near <= 0x20_0000_0000_0000) by (nonlinear_arith)
        requires
            2 * near * d <= 2 * m + d,
            m < 0x20_0000_0000_0000 * d,
            d > 0,
    ;
}

/// A product is exact where it has no more than 53 binary digits, and otherwise is off by no more
/// than half of its last.
pub proof fn law_product(r: RatioView, w: nat)
    ensures
        times(r, w).bottom == r.bottom,
        r.top * w < 0x20_0000_0000_0000 ==> times(r, w).top == r.top * w,
        0x20_0000_0000_0000 * times(r, w).top <= 0x20_0000_0000_0001 * (r.top * w),
        0x1f_ffff_ffff_ffff * (r.top * w) <= 0x20_0000_0000_0000 * times(r, w).top,
{
    let p = r.top * w;
    let unit = last_bit(p, 1);
    lemma_last_bit(p, 1);
    let near = nearest(p, unit);
    lemma_nearest(p, unit);
    assert(2 * near * unit == 2 * (near * unit)) by (nonlinear_arith);
    if p < 0x20_0000_0000_0000 {
        assert(unit == 1);
        assert(p / 1 == p && p % 1 == 0);
        assert(near * unit == p);
    } else {
        assert(unit > 1);
    }
}

/// The whole number below, and the whole number nearest.
pub proof fn law_whole_numbers(r: RatioView)
    requires
        r.bottom > 0,
    ensures
        floor(r) * r.bottom <= r.top < (floor(r) + 1) * r.bottom,
        2 * (round(r) * r.bottom) <= 2 * r.top + r.bottom,
        2 * r.top < 2 * (round(r) * r.bottom) + r.bottom,
{
    let f = floor(r);
    let b = r.bottom;
    let t = r.top;
    assert(f * b <= t < (f + 1) * b) by (nonlinear_arith)
        requires
            b > 0,
            f == t / b,
    ;
    let n = round(r);
    assert(n * (2 * b) <= 2 * t + b < (n + 1) * (2 * b)) by (nonlinear_arith)
        requires
            b > 0,
            n == (2 * t + b) / (2 * b),
    ;
    assert(n * (2 * b) == 2 * (n * b)) by (nonlinear_arith);
    assert((n + 1) * (2 * b) == 2 * (n * b) + 2 * b) by (nonlinear_arith);
}

/// A number that is greater than the limit becomes the limit, and any other stays.
pub proof fn law_limit(r: RatioView, most: nat)
    requires
        r.bottom > 0,
    ensures
        at_most(r, most).bottom > 0,
        r.top <= most * r.bottom ==> at_most(r, most) == r,
        r.top > most * r.bottom ==> at_most(r, most).top == most * at_most(r, most).bottom,
{
    assert(most * 1 == most);
}

} // verus!
