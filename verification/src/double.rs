//! Decimal figures as they come out of double-precision arithmetic.

use vstd::prelude::*;

use crate::clock::{padded, padded_decimal};
use crate::text::{dec, decimal, nearest_even};

verus! {

/// The smallest of `p`, twice `p` and so on that scales `n` to at least 53
/// binary digits above `d`.
pub open spec fn scale_from(n: nat, d: nat, p: nat) -> nat
    decreases
        if p < 0x10_0000_0000_0000 * d {
            0x10_0000_0000_0000 * d - p
        } else {
            0
        },
{
    if n == 0 || p == 0 || p >= 0x10_0000_0000_0000 * d || n * p >= 0x10_0000_0000_0000 * d {
        p
    } else {
        scale_from(n, d, 2 * p)
    }
}

/// `f` times the double-precision number nearest to `n / d`, to the nearest
/// whole number with halves to the even one. That number is `m / p` for a
/// power of two `p` and a whole number `m` of 53 binary digits.
pub open spec fn through_double(n: nat, d: nat, f: nat) -> nat {
    let p = scale_from(n, d, 1);
    let m = nearest_even(n * p, d);
    nearest_even(f * m, p)
}

/// `n / d` to the nearest whole number, halves to the even one.
pub fn nearest_wide(n: u128, d: u128) -> (r: u128)
    requires
        1 <= d <= 0x100_0000_0000_0000_0000_0000_0000,
        n <= 0x40_0000_0000_0000_0000_0000_0000_0000,
    ensures
        r == nearest_even(n as nat, d as nat),
        r <= n + 1,
{
    let q: u128 = n / d;
    let m: u128 = n % d;
    proof {
        assert(q <= n) by (nonlinear_arith)
            requires
                q == n / d,
                d >= 1,
        ;
        assert(m < d);
    }
    if 2 * m < d || (2 * m == d && q % 2 == 0) {
        q
    } else {
        q + 1
    }
}

fn scale(n: u128, d: u128) -> (p: u128)
    requires
        1 <= n <= 0x1_0000_0000_0000_0000,
        1 <= d <= 1_000_000_000,
    ensures
        p == scale_from(n as nat, d as nat, 1),
        1 <= p <= 0x20_0000_0000_0000 * d,
        0x10_0000_0000_0000 * d <= n * p,
        p > 1 ==> n * p <= 0x20_0000_0000_0000 * d,
{
    let goal: u128 = 0x10_0000_0000_0000 * d;
    let mut p: u128 = 1;
    assert(n * p == n);
    while n * p < goal
        invariant
            1 <= n <= 0x1_0000_0000_0000_0000,
            1 <= d <= 1_000_000_000,
            goal == 0x10_0000_0000_0000 * d,
            1 <= p <= 2 * goal,
            n * p <= 0x1_0000_0000_0000_0000 + 2 * goal,
            p > 1 ==> n * p <= 2 * goal,
            scale_from(n as nat, d as nat, 1) == scale_from(n as nat, d as nat, p as nat),
        decreases 2 * goal - p,
    {
        proof {
            assert(n * (2 * p) == 2 * (n * p)) by (nonlinear_arith);
            assert(n * p >= p) by (nonlinear_arith)
                requires
                    n >= 1,
                    p >= 1,
            ;
        }
        p = 2 * p;
    }
    p
}

/// A quotient rounded to the nearest is within a half of it.
proof fn lemma_nearest_bounds(n: int, d: int)
    requires
        n >= 0,
        d >= 1,
    ensures
        2 * nearest_even(n as nat, d as nat) * d <= 2 * n + d,
        2 * nearest_even(n as nat, d as nat) * d >= 2 * n - d,
{
    let (q, r) = (n / d, n % d);
    assert(n == q * d + r && 0 <= r < d) by (nonlinear_arith)
        requires
            q == n / d,
            r == n % d,
            d >= 1,
    ;
    assert(2 * q * d == 2 * (q * d)) by (nonlinear_arith);
    assert(2 * (q + 1) * d == 2 * (q * d) + 2 * d) by (nonlinear_arith);
}

/// Computes [`through_double`].
#[verifier::rlimit(30)]
pub fn rounded_through_double(n: u128, d: u128, f: u128) -> (r: u128)
    requires
        1 <= n <= 0x1_0000_0000_0000_0000,
        1 <= d <= 1_000_000_000,
        1 <= f <= 1_000_000,
        n <= 0x5_0000_0000 * d,
    ensures
        r == through_double(n as nat, d as nat, f as nat),
        r <= 0x1000_0000_0000_0000,
{
    let p: u128 = scale(n, d);
    let m: u128 = nearest_wide(n * p, d);
    proof {
        lemma_nearest_bounds(n * p, d as int);
        assert(m <= 0x5_0000_0000 * p + 1) by (nonlinear_arith)
            requires
                2 * m * d <= 2 * (n * p) + d,
                n <= 0x5_0000_0000 * d,
                d >= 1,
                p >= 1,
        ;
        assert(m <= 0x1_0000_0000_0000_0000 + 1) by {
            if p == 1 {
                assert(n * p == n);
            } else {
                assert(m <= 0x20_0000_0000_0000 + 1) by (nonlinear_arith)
                    requires
                        2 * m * d <= 2 * (n * p) + d,
                        n * p <= 0x20_0000_0000_0000 * d,
                        d >= 1,
                ;
            }
        }
        assert(f * m <= 1_000_000 * m) by (nonlinear_arith)
            requires
                f <= 1_000_000,
                m >= 0,
        ;
    }
    let r: u128 = nearest_wide(f * m, p);
    proof {
        lemma_nearest_bounds(f * m, p as int);
        assert(r <= 0x1000_0000_0000_0000) by (nonlinear_arith)
            requires
                2 * r * p <= 2 * (f * m) + p,
                f * m <= 1_000_000 * m,
                m <= 0x5_0000_0000 * p + 1,
                p >= 1,
        ;
    }
    r
}

proof fn lemma_scale_reached(n: nat, d: nat, p: nat)
    requires
        n >= 1,
        p >= 1,
        d >= 1,
    ensures
        scale_from(n, d, p) >= p,
        n * scale_from(n, d, p) >= 0x10_0000_0000_0000 * d,
    decreases
        if p < 0x10_0000_0000_0000 * d {
            0x10_0000_0000_0000 * d - p
        } else {
            0
        },
{
    if p >= 0x10_0000_0000_0000 * d || n * p >= 0x10_0000_0000_0000 * d {
        assert(n * p >= p) by (nonlinear_arith)
            requires
                n >= 1,
                p >= 1,
        ;
    } else {
        lemma_scale_reached(n, d, 2 * p);
    }
}

/// A result stays below `limit` where `f * n / d` is below `limit` and a half
/// by at least one part in `2 * d`.
#[verifier::rlimit(30)]
pub proof fn lemma_through_double_below(n: nat, d: nat, f: nat, limit: nat)
    requires
        n >= 1,
        1 <= d <= 1_000_000_000,
        1 <= f <= 10,
        2 * f * n + 1 <= (2 * limit - 1) * d,
        f * n < 0x10_0000_0000_0000,
    ensures
        through_double(n, d, f) < limit,
{
    let p = scale_from(n, d, 1) as int;
    lemma_scale_reached(n, d, 1);
    let m = nearest_even((n * p) as nat, d) as int;
    let r = nearest_even((f * m) as nat, p as nat) as int;
    lemma_nearest_bounds(n * p, d as int);
    lemma_nearest_bounds(f * m, p);
    if r >= limit {
        // 2 * limit * p <= 2 * f * m + p, and 2 * m * d <= 2 * n * p + d.
        assert((2 * limit - 1) * p <= 2 * (f * m)) by (nonlinear_arith)
            requires
                2 * r * p <= 2 * (f * m) + p,
                r >= limit,
                p >= 1,
        ;
        assert((2 * limit - 1) * p * d <= f * (2 * m * d)) by (nonlinear_arith)
            requires
                (2 * limit - 1) * p <= 2 * (f * m),
                d >= 1,
        ;
        assert(f * (2 * m * d) <= f * (2 * (n * p) + d)) by (nonlinear_arith)
            requires
                2 * m * d <= 2 * (n * p) + d,
                f >= 1,
        ;
        assert(((2 * limit - 1) * d - 2 * f * n) * p <= f * d) by (nonlinear_arith)
            requires
                (2 * limit - 1) * p * d <= f * (2 * m * d),
                f * (2 * m * d) <= f * (2 * (n * p) + d),
        ;
        assert(p <= f * d) by (nonlinear_arith)
            requires
                ((2 * limit - 1) * d - 2 * f * n) * p <= f * d,
                (2 * limit - 1) * d - 2 * f * n >= 1,
                p >= 1,
        ;
        assert(n * p <= n * (f * d)) by (nonlinear_arith)
            requires
                p <= f * d,
                n >= 1,
        ;
        assert(n * (f * d) < 0x10_0000_0000_0000 * d) by (nonlinear_arith)
            requires
                f * n < 0x10_0000_0000_0000,
                d >= 1,
        ;
    }
}

/// Ten to the power of `k`.
pub open spec fn ten_to(k: nat) -> nat
    decreases k,
{
    if k == 0 {
        1
    } else {
        10 * ten_to((k - 1) as nat)
    }
}

/// A frequency in megahertz with `places` decimals, from the whole hertz.
pub open spec fn mhz_text(hz: nat, places: nat) -> Seq<char> {
    let t = if hz == 0 {
        0
    } else {
        through_double(hz, 1_000_000, ten_to(places))
    };
    dec(t / ten_to(places)) + seq!['.'] + padded(t % ten_to(places), places)
}

/// Where doubles stop holding every whole number.
pub const WHOLE_END: u64 = 0x20_0000_0000_0000;

/// A frequency written with four decimals of a megahertz, read in whole hundreds
/// of hertz, is within 50 Hz of what it was.
pub proof fn lemma_four_places_are_near(hz: nat)
    requires
        1 <= hz < WHOLE_END,
    ensures
        -50 <= 100 * through_double(hz, 1_000_000, 10_000) - hz <= 50,
{
    let d = 1_000_000int;
    let f = 10_000int;
    let n = hz as int;
    let p = scale_from(hz, 1_000_000, 1) as int;
    lemma_scale_reached(hz, 1_000_000, 1);
    let m = nearest_even((n * p) as nat, 1_000_000) as int;
    let r = nearest_even((f * m) as nat, p as nat) as int;
    assert(n * p >= 0) by (nonlinear_arith)
        requires
            n >= 1,
            p >= 1,
    ;
    lemma_nearest_bounds(n * p, d);
    lemma_nearest_bounds(f * m, p);
    assert(p > 500_000) by (nonlinear_arith)
        requires
            n * p >= 0x10_0000_0000_0000 * 1_000_000,
            n < 0x20_0000_0000_0000,
            p >= 1,
    ;
    let x = 100 * r - n;
    assert(2 * r * p == 2 * (r * p)) by (nonlinear_arith);
    assert(2 * m * d == 2_000_000 * m);
    assert(p * x == 100 * (r * p) - n * p) by (nonlinear_arith)
        requires
            x == 100 * r - n,
    ;
    assert(p * x <= 50 * p + 500_000 && p * x >= -50 * p - 500_000);
    assert(x < 51 && x > -51) by (nonlinear_arith)
        requires
            p * x <= 50 * p + 500_000,
            p * x >= -50 * p - 500_000,
            p > 500_000,
    ;
}

/// Writes a frequency in megahertz with `places` decimals.
pub fn mhz(hz: u64, places: usize) -> (t: String)
    requires
        hz < WHOLE_END,
        1 <= places <= 6,
    ensures
        t@ == mhz_text(hz as nat, places as nat),
{
    proof {
        reveal_with_fuel(ten_to, 7);
    }
    let f: u64 = if places == 1 {
        10
    } else if places == 2 {
        100
    } else if places == 3 {
        1_000
    } else if places == 4 {
        10_000
    } else if places == 5 {
        100_000
    } else {
        1_000_000
    };
    assert(f == ten_to(places as nat));
    let v: u64 = if hz == 0 {
        0
    } else {
        rounded_through_double(hz as u128, 1_000_000, f as u128) as u64
    };
    let mut t = decimal(v / f);
    let ghost head = t@;
    t.push('.');
    t.append(padded_decimal(v % f, places).as_str());
    assert(t@ =~= head + seq!['.'] + padded((v % f) as nat, places as nat));
    t
}

/// Each power of ten is ten times the one before.
pub proof fn law_powers_of_ten(k: nat)
    ensures
        ten_to(0) == 1,
        ten_to(k + 1) == 10 * ten_to(k),
{
}

proof fn lemma_whole_hertz(hz: nat)
    requires
        1 <= hz < 0x10_0000_0000_0000,
    ensures
        through_double(hz, 1_000_000, 1_000_000) == hz,
{
    let d = 1_000_000int;
    let n = hz as int;
    let p = scale_from(hz, 1_000_000, 1) as int;
    lemma_scale_reached(hz, 1_000_000, 1);
    let m = nearest_even((n * p) as nat, 1_000_000) as int;
    let r = nearest_even((d * m) as nat, p as nat) as int;
    assert(n * p >= 0) by (nonlinear_arith)
        requires
            n >= 1,
            p >= 1,
    ;
    lemma_nearest_bounds(n * p, d);
    lemma_nearest_bounds(d * m, p);
    assert(p > 1_000_000) by (nonlinear_arith)
        requires
            n * p >= 0x10_0000_0000_0000 * 1_000_000,
            n < 0x10_0000_0000_0000,
            p >= 1,
    ;
    let x = r - n;
    assert(2 * r * p == 2 * (r * p)) by (nonlinear_arith);
    assert(2 * m * d == 2_000_000 * m);
    assert(p * x == r * p - n * p) by (nonlinear_arith)
        requires
            x == r - n,
    ;
    assert(2 * (p * x) <= p + 1_000_000 && 2 * (p * x) >= -p - 1_000_000);
    assert(x == 0) by (nonlinear_arith)
        requires
            2 * (p * x) <= p + 1_000_000,
            2 * (p * x) >= -p - 1_000_000,
            p > 1_000_000,
    ;
}

/// With six decimals a frequency in megahertz shows every hertz.
pub proof fn law_six_places_show_every_hertz(hz: nat)
    requires
        hz < 0x10_0000_0000_0000,
    ensures
        mhz_text(hz, 6) == dec(hz / 1_000_000) + seq!['.'] + padded(hz % 1_000_000, 6),
{
    assert(ten_to(6) == 1_000_000) by {
        reveal_with_fuel(ten_to, 7);
    }
    if hz > 0 {
        lemma_whole_hertz(hz);
    }
}

/// With four decimals what is shown is within half a place, fifty hertz, of the
/// frequency.
pub proof fn law_four_places_are_near(hz: nat)
    requires
        hz < WHOLE_END,
    ensures
        exists|t: nat|
            -50 <= 100 * t - hz <= 50 && mhz_text(hz, 4) == #[trigger] dec(t / 10_000) + seq!['.']
                + padded(t % 10_000, 4),
{
    assert(ten_to(4) == 10_000) by {
        reveal_with_fuel(ten_to, 5);
    }
    let t = if hz == 0 {
        0
    } else {
        through_double(hz, 1_000_000, 10_000)
    };
    if hz > 0 {
        lemma_four_places_are_near(hz);
    }
    assert(mhz_text(hz, 4) == dec(t / 10_000) + seq!['.'] + padded(t % 10_000, 4));
}

} // verus!
