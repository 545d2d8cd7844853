//! The arithmetic of binary floating-point numbers with 53 significant bits, on
//! whole numbers and on fractions whose denominator is a power of two.
//!
//! Every result is rounded to the nearest such number; halfway, to the one whose
//! last bit is zero. The numbers here are far from the ends of the exponent's
//! range, so nothing overflows or underflows.
use vstd::prelude::*;

verus! {

/// From here on a whole number has more than 53 bits.
pub const TOP: u128 = 0x20_0000_0000_0000;

/// From here on a whole number has at least 53 bits.
pub const LOW: u128 = 0x10_0000_0000_0000;

/// The largest numerator or denominator that is rounded here.
pub const LARGEST: u128 = 0x40_0000_0000_0000_0000_0000_0000_0000;

/// `n / d` as a whole number: the nearest one; halfway, the even one.
pub open spec fn nearest(n: nat, d: nat) -> nat {
    let below = n / d;
    let rest = n % d;
    if rest * 2 > d || (rest * 2 == d && below % 2 == 1) {
        below + 1
    } else {
        below
    }
}

/// `n / d` to the nearest multiple of a unit: the first of `unit`, its double and
/// so on, of which there are no more in it than 53 bits count.
pub open spec fn counted(n: nat, d: nat, unit: nat) -> nat
    decreases n - d * unit,
{
    if d == 0 || unit == 0 || n < TOP * (d * unit) {
        nearest(n, d * unit) * unit
    } else {
        proof {
            lemma_twice(d, unit);
        }
        counted(n, d, 2 * unit)
    }
}

/// `n / d` as a whole number with 53 significant bits: the nearest one;
/// halfway, the one whose last bit is zero.
pub open spec fn significant(n: nat, d: nat) -> nat {
    counted(n, d, 1)
}

/// `n / d / scale` as a floating-point number: a numerator over a power of two.
pub open spec fn scaled_quotient(n: nat, d: nat, scale: nat) -> (nat, nat)
    decreases TOP * d - n,
{
    if 0 < n < LOW * d {
        scaled_quotient(2 * n, d, 2 * scale)
    } else {
        (significant(n, d), scale)
    }
}

/// `n / d` as a floating-point number: a numerator over a power of two.
pub open spec fn quotient(n: nat, d: nat) -> (nat, nat) {
    scaled_quotient(n, d, 1)
}

/// A step in units that are twice as large.
pub proof fn lemma_twice(d: nat, unit: nat)
    requires
        d > 0,
        unit > 0,
    ensures
        d * (2 * unit) == 2 * (d * unit),
        d * unit > 0,
        d * unit >= unit,
{
    assert(d * (2 * unit) == 2 * (d * unit)) by (nonlinear_arith);
    assert(d * unit > 0 && d * unit >= unit) by (nonlinear_arith)
        requires
            d > 0,
            unit > 0,
    ;
}

/// A positive whole number does not vanish.
pub proof fn lemma_positive(n: nat)
    requires
        n > 0,
    ensures
        significant(n, 1) > 0,
{
    lemma_counted_positive(n, 1);
}

proof fn lemma_counted_positive(n: nat, unit: nat)
    requires
        n >= unit > 0,
    ensures
        counted(n, 1, unit) > 0,
    decreases n - unit,
{
    assert(1 * unit == unit);
    if n < TOP * (1 * unit) {
        assert(n / unit >= 1) by (nonlinear_arith)
            requires
                n >= unit > 0,
        ;
        assert(nearest(n, 1 * unit) * unit > 0) by (nonlinear_arith)
            requires
                nearest(n, 1 * unit) >= 1,
                unit > 0,
        ;
    } else {
        lemma_twice(1, unit);
        lemma_counted_positive(n, 2 * unit);
    }
}

/// A larger fraction has no smaller nearest whole number.
pub proof fn lemma_nearest_grows(n: nat, d: nat, more: nat, e: nat)
    requires
        d > 0,
        e > 0,
        n * e <= more * d,
    ensures
        nearest(n, d) <= nearest(more, e),
{
    let (below, rest) = (n / d, n % d);
    let (above, left) = (more / e, more % e);
    vstd::arithmetic::div_mod::lemma_fundamental_div_mod(n as int, d as int);
    vstd::arithmetic::div_mod::lemma_fundamental_div_mod(more as int, e as int);
    assert(below <= above) by (nonlinear_arith)
        requires
            n == d * below + rest,
            more == e * above + left,
            left < e,
            rest >= 0,
            n * e <= more * d,
            d > 0,
            e > 0,
    ;
    if below == above {
        assert(rest * e <= left * d) by (nonlinear_arith)
            requires
                n == d * below + rest,
                more == e * below + left,
                n * e <= more * d,
        ;
        assert(2 * rest > d ==> 2 * left > e) by (nonlinear_arith)
            requires
                rest * e <= left * d,
                d > 0,
                e > 0,
        ;
        assert(2 * rest == d ==> 2 * left >= e) by (nonlinear_arith)
            requires
                rest * e <= left * d,
                d > 0,
                e > 0,
        ;
    }
}

proof fn lemma_counted_least(n: nat, d: nat, unit: nat)
    requires
        d > 0,
        unit > 0,
        n >= LOW * (d * unit),
    ensures
        counted(n, d, unit) >= LOW * unit,
    decreases n - d * unit,
{
    let step = d * unit;
    lemma_twice(d, unit);
    if n < TOP * step {
        assert(n / step >= LOW) by (nonlinear_arith)
            requires
                n >= LOW * step,
                step > 0,
        ;
        assert(nearest(n, step) * unit >= LOW * unit) by (nonlinear_arith)
            requires
                nearest(n, step) >= LOW,
                unit > 0,
        ;
    } else {
        lemma_counted_least(n, d, 2 * unit);
    }
}

/// Rounding to 53 significant bits keeps the order.
pub proof fn lemma_counted_grows(n: nat, more: nat, d: nat, unit: nat)
    requires
        n <= more,
        d > 0,
        unit > 0,
    ensures
        counted(n, d, unit) <= counted(more, d, unit),
    decreases more - d * unit,
{
    let step = d * unit;
    lemma_twice(d, unit);
    if more < TOP * step {
        assert(n * step <= more * step) by (nonlinear_arith)
            requires
                n <= more,
        ;
        lemma_nearest_grows(n, step, more, step);
        assert(nearest(n, step) * unit <= nearest(more, step) * unit) by (nonlinear_arith)
            requires
                nearest(n, step) <= nearest(more, step),
        ;
    } else if n < TOP * step {
        assert(n / step < TOP) by (nonlinear_arith)
            requires
                n < TOP * step,
                step > 0,
        ;
        assert(nearest(n, step) * unit <= TOP * unit) by (nonlinear_arith)
            requires
                nearest(n, step) <= TOP,
        ;
        lemma_counted_least(more, d, 2 * unit);
    } else {
        lemma_counted_grows(n, more, d, 2 * unit);
    }
}

proof fn lemma_scaled_bounds(n: nat, d: nat, scale: nat)
    requires
        d > 0,
        0 < n < TOP * d,
    ensures
        scaled_quotient(n, d, scale).0 <= TOP,
        scaled_quotient(n, d, scale).1 >= scale,
    decreases TOP * d - n,
{
    if n < LOW * d {
        lemma_scaled_bounds(2 * n, d, 2 * scale);
    } else {
        assert(d * 1 == d);
        assert(n / d < TOP) by (nonlinear_arith)
            requires
                n < TOP * d,
                d > 0,
        ;
    }
}

/// The hundredfold of a quotient grows with the dividend.
pub proof fn lemma_percent_grows(n: nat, more: nat, d: nat, scale: nat)
    requires
        n <= more,
        d > 0,
        scale > 0,
    ensures
        ({
            let (a, c) = scaled_quotient(n, d, scale);
            let (b, e) = scaled_quotient(more, d, scale);
            &&& c > 0
            &&& e > 0
            &&& significant(100 * a, 1) * e <= significant(100 * b, 1) * c
        }),
    decreases TOP * d - more,
{
    let (a, c) = scaled_quotient(n, d, scale);
    let (b, e) = scaled_quotient(more, d, scale);
    let (p, q) = (significant(100 * a, 1), significant(100 * b, 1));
    if 0 < n && more < LOW * d {
        lemma_percent_grows(2 * n, 2 * more, d, 2 * scale);
    } else if n == 0 {
        assert(d * 1 == d);
        assert(a == 0);
        assert(p == 0);
        if 0 < more < LOW * d {
            lemma_scaled_bounds(more, d, scale);
        }
        assert(p * e == 0 && q * c >= 0) by (nonlinear_arith)
            requires
                p == 0,
                q >= 0,
                c >= 0,
        ;
    } else if n < LOW * d {
        assert(d * 1 == d);
        lemma_scaled_bounds(2 * n, d, 2 * scale);
        lemma_counted_least(more, d, 1);
        assert(significant(100 * TOP as nat, 1) == 100 * TOP && significant(100 * LOW as nat, 1)
            == 100 * LOW) by {
            reveal_with_fuel(counted, 9);
        }
        lemma_counted_grows(100 * a, 100 * TOP as nat, 1, 1);
        lemma_counted_grows(100 * LOW as nat, 100 * b, 1, 1);
        assert(p * e <= q * c) by (nonlinear_arith)
            requires
                p <= 200 * LOW,
                q >= 100 * LOW,
                e == scale,
                c >= 2 * scale,
                scale > 0,
        ;
    } else {
        lemma_counted_grows(n, more, d, 1);
        lemma_counted_grows(100 * a, 100 * b, 1, 1);
        assert(p * e <= q * c) by (nonlinear_arith)
            requires
                p <= q,
                e == c,
        ;
    }
}

/// `n / d` as a whole number: the nearest one; halfway, the even one.
pub fn to_nearest(n: u128, d: u128) -> (r: u128)
    requires
        n <= LARGEST,
        0 < d <= LARGEST,
    ensures
        r == nearest(n as nat, d as nat),
        r <= n / d + 1,
{
    let below: u128 = n / d;
    let rest: u128 = n % d;
    assert(below <= n) by (nonlinear_arith)
        requires
            below == n / d,
            d > 0,
    ;
    if rest * 2 > d || (rest * 2 == d && below % 2 == 1) {
        below + 1
    } else {
        below
    }
}

/// `n / d` as a whole number with 53 significant bits.
pub fn to_significant(n: u128, d: u128) -> (r: u128)
    requires
        n <= LARGEST,
        0 < d,
        TOP * d <= 2 * LARGEST,
    ensures
        r == significant(n as nat, d as nat),
        r <= TOP || r <= 2 * n,
{
    let mut unit: u128 = 1;
    let mut step: u128 = d;
    assert(d * 1 == d);
    while n >= TOP * step
        invariant
            n <= LARGEST,
            0 < d,
            0 < unit,
            unit <= step,
            step == d * unit,
            TOP * step <= 2 * LARGEST,
            significant(n as nat, d as nat) == counted(n as nat, d as nat, unit as nat),
            unit > 1 ==> TOP * step <= 2 * n,
        decreases n - step,
    {
        proof {
            lemma_twice(d as nat, unit as nat);
        }
        unit = unit * 2;
        step = step * 2;
    }
    let count: u128 = to_nearest(n, step);
    proof {
        assert(n / step < TOP) by (nonlinear_arith)
            requires
                n < TOP * step,
                step > 0,
        ;
        assert(count <= TOP);
        assert(count * unit <= TOP * unit) by (nonlinear_arith)
            requires
                count <= TOP,
                unit >= 0,
        ;
        assert(TOP * unit <= TOP * step);
    }
    count * unit
}

/// `n / d` as a floating-point number: a numerator over a power of two.
pub fn to_quotient(n: u128, d: u128) -> (r: (u128, u128))
    requires
        0 < d,
        n <= 0x2_0000_0000_0000_0000,
        d <= 0x2_0000_0000_0000_0000,
    ensures
        (r.0 as nat, r.1 as nat) == quotient(n as nat, d as nat),
        r.0 <= 0x4_0000_0000_0000_0000,
        0 < r.1 <= LARGEST,
{
    let mut top: u128 = n;
    let mut scale: u128 = 1;
    while 0 < top && top < LOW * d
        invariant
            0 < d <= 0x2_0000_0000_0000_0000,
            n <= 0x2_0000_0000_0000_0000,
            top == n || top < TOP * d,
            0 < scale,
            scale == 1 || scale <= top,
            scaled_quotient(top as nat, d as nat, scale as nat) == quotient(n as nat, d as nat),
        decreases TOP * d - top,
    {
        top = top * 2;
        scale = scale * 2;
    }
    proof {
        if top != n {
            assert(significant(top as nat, d as nat) <= TOP) by {
                assert(d * 1 == d);
                assert(top / d < TOP) by (nonlinear_arith)
                    requires
                        top < TOP * d,
                        d > 0,
                ;
            }
        }
    }
    (to_significant(top, d), scale)
}

} // verus!
