//! Numbers with a decimal point, as they are typed and shown.

use vstd::prelude::*;

use crate::clock::{padded, padded_decimal};
use crate::double::{nearest_wide, ten_to};
use crate::text::{chars_of, dec, decimal, digits_value, lemma_dec_value, nearest_even};

verus! {

/// The most digits that are read.
pub const MOST_DIGITS: usize = 28;

/// Where the first point of a text stands; its length where it has none.
pub open spec fn point_of(s: Seq<char>) -> int
    decreases s.len(),
{
    if s.len() == 0 || s[0] == '.' {
        0
    } else {
        1 + point_of(s.drop_first())
    }
}

/// What stands behind the first point.
pub open spec fn places_of(s: Seq<char>) -> Seq<char> {
    if point_of(s) < s.len() {
        s.skip(point_of(s) + 1)
    } else {
        Seq::empty()
    }
}

/// A text without its first point.
pub open spec fn unpointed(s: Seq<char>) -> Seq<char> {
    s.take(point_of(s)) + places_of(s)
}

/// The number that `s` writes, in units of which ten to the power of `k` make
/// one, to the nearest whole unit. Only digits with at most one point among them
/// write one, and a number that is too large is not read.
pub open spec fn units(s: Seq<char>, k: nat) -> Option<u64> {
    match digits_value(unpointed(s)) {
        Some(v) => {
            let n = nearest_even(v * ten_to(k), ten_to(places_of(s).len()));
            if 1 <= unpointed(s).len() <= MOST_DIGITS && n <= u64::MAX {
                Some(n as u64)
            } else {
                None
            }
        },
        None => None,
    }
}

proof fn lemma_point(s: Seq<char>, i: int)
    requires
        0 <= i <= s.len(),
        forall|j: int| 0 <= j < i ==> #[trigger] s[j] != '.',
        i < s.len() ==> s[i] == '.',
    ensures
        point_of(s) == i,
    decreases s.len(),
{
    if i > 0 {
        assert(s[0] != '.');
        assert forall|j: int| 0 <= j < i - 1 implies #[trigger] s.drop_first()[j] != '.' by {
            assert(s[j + 1] != '.');
        }
        lemma_point(s.drop_first(), i - 1);
    }
}

/// `a / n`, rounded down.
pub fn floor_div(a: i128, n: i128) -> (q: i128)
    requires
        n >= 1,
    ensures
        q == a as int / n as int,
{
    if a >= 0 {
        a / n
    } else {
        let m: i128 = -(a + 1);
        let q: i128 = -(m / n) - 1;
        assert(q == a as int / n as int) by (nonlinear_arith)
            requires
                m == -(a + 1),
                m >= 0,
                n >= 1,
                q == -(m as int / n as int) - 1,
        ;
        q
    }
}

/// Ten to the power of `k`.
fn ten_power(k: usize) -> (r: u128)
    requires
        k <= MOST_DIGITS,
    ensures
        r == ten_to(k as nat),
        1 <= r <= 10_000_000_000_000_000_000_000_000_000,
{
    proof {
        reveal_with_fuel(ten_to, 29);
    }
    let mut r: u128 = 1;
    let mut i: usize = 0;
    while i < k
        invariant
            i <= k <= MOST_DIGITS,
            r == ten_to(i as nat),
            1 <= r,
        decreases k - i,
    {
        proof {
            lemma_ten_to_grows((i + 1) as nat, 28);
            reveal_with_fuel(ten_to, 29);
        }
        r = 10 * r;
        i = i + 1;
    }
    proof {
        lemma_ten_to_grows(k as nat, 28);
    }
    r
}

proof fn lemma_ten_to_grows(a: nat, b: nat)
    requires
        a <= b,
    ensures
        1 <= ten_to(a) <= ten_to(b),
    decreases b,
{
    if a < b {
        lemma_ten_to_grows(a, (b - 1) as nat);
    } else if a > 0 {
        lemma_ten_to_grows((a - 1) as nat, (a - 1) as nat);
    }
}

proof fn lemma_value_below(s: Seq<char>)
    ensures
        digits_value(s) matches Some(v) ==> v < ten_to(s.len()),
    decreases s.len(),
{
    if s.len() > 0 {
        lemma_value_below(s.drop_last());
    }
}

proof fn lemma_no_value(s: Seq<char>, n: int)
    requires
        0 <= n <= s.len(),
        digits_value(s.take(n)) is None,
    ensures
        digits_value(s) is None,
    decreases s.len(),
{
    if n < s.len() {
        assert(s.drop_last().take(n) =~= s.take(n));
        lemma_no_value(s.drop_last(), n);
    } else {
        assert(s.take(n) =~= s);
    }
}

fn value(s: &Vec<char>) -> (r: Option<u128>)
    requires
        s@.len() <= MOST_DIGITS,
    ensures
        match digits_value(s@) {
            Some(v) => r == Some(v as u128) && v < 10_000_000_000_000_000_000_000_000_000,
            None => r is None,
        },
{
    let mut v: u128 = 0;
    let mut i: usize = 0;
    while i < s.len()
        invariant
            i <= s@.len() <= MOST_DIGITS,
            digits_value(s@.take(i as int)) == Some(v as nat),
        decreases s@.len() - i,
    {
        proof {
            assert(s@.take(i + 1).drop_last() =~= s@.take(i as int));
            lemma_value_below(s@.take(i as int));
            lemma_ten_to_grows(i as nat, 28);
            reveal_with_fuel(ten_to, 29);
        }
        let c = s[i];
        if !('0' <= c && c <= '9') {
            proof {
                lemma_no_value(s@, i + 1);
            }
            return None;
        }
        v = 10 * v + (c as u32 - 48) as u128;
        i = i + 1;
    }
    proof {
        assert(s@.take(i as int) =~= s@);
        lemma_value_below(s@);
        lemma_ten_to_grows(i as nat, 28);
        reveal_with_fuel(ten_to, 29);
    }
    Some(v)
}

/// Reads a number in units of which ten to the power of `k` make one.
pub fn read_units(s: &str, k: usize) -> (r: Option<u64>)
    requires
        k <= 6,
    ensures
        r == units(s@, k as nat),
{
    let c = chars_of(s);
    let mut i: usize = 0;
    let mut all: Vec<char> = Vec::new();
    while i < c.len() && c[i] != '.'
        invariant
            i <= c@.len(),
            all@ == c@.take(i as int),
            forall|j: int| 0 <= j < i ==> #[trigger] c@[j] != '.',
        decreases c@.len() - i,
    {
        all.push(c[i]);
        i = i + 1;
        assert(all@ =~= c@.take(i as int));
    }
    proof {
        lemma_point(c@, i as int);
    }
    let whole: usize = i;
    if i < c.len() {
        i = i + 1;
    }
    let from: usize = i;
    assert(all@ =~= c@.take(whole as int) + c@.subrange(from as int, i as int));
    while i < c.len()
        invariant
            whole <= from <= i <= c@.len(),
            all@ == c@.take(whole as int) + c@.subrange(from as int, i as int),
        decreases c@.len() - i,
    {
        all.push(c[i]);
        i = i + 1;
        assert(all@ =~= c@.take(whole as int) + c@.subrange(from as int, i as int));
    }
    assert(c@.subrange(from as int, i as int) =~= places_of(c@));
    assert(all@ == unpointed(s@));
    if all.len() == 0 || all.len() > MOST_DIGITS {
        return None;
    }
    let places: usize = c.len() - from;
    match value(&all) {
        Some(v) => {
            proof {
                lemma_ten_to_grows(k as nat, 6);
                reveal_with_fuel(ten_to, 7);
            }
            let scale: u128 = ten_power(k);
            assert(v * scale <= 10_000_000_000_000_000_000_000_000_000 * 1_000_000)
                by (nonlinear_arith)
                requires
                    0 <= v <= 10_000_000_000_000_000_000_000_000_000,
                    0 <= scale <= 1_000_000,
            ;
            let n: u128 = nearest_wide(v * scale, ten_power(places));
            if n <= u64::MAX as u128 {
                Some(n as u64)
            } else {
                None
            }
        },
        None => None,
    }
}

/// `v` of the units that ten to the power of `p` make one of, with its point
/// and `p` places.
pub open spec fn pointed(v: nat, p: nat) -> Seq<char> {
    dec(v / ten_to(p)) + seq!['.'] + padded(v % ten_to(p), p)
}

/// A power in watts, from the thousandths of one, with no more places than it
/// takes.
pub open spec fn watts(milliwatts: nat) -> Seq<char> {
    if milliwatts % 1_000 == 0 {
        dec(milliwatts / 1_000)
    } else if milliwatts % 100 == 0 {
        pointed(milliwatts / 100, 1)
    } else if milliwatts % 10 == 0 {
        pointed(milliwatts / 10, 2)
    } else {
        pointed(milliwatts, 3)
    }
}

fn write_pointed(v: u64, p: usize, scale: u64) -> (t: String)
    requires
        p <= 16,
        scale == ten_to(p as nat),
        scale > 0,
    ensures
        t@ == pointed(v as nat, p as nat),
{
    let mut t = decimal(v / scale);
    let ghost head = t@;
    t.push('.');
    t.append(padded_decimal(v % scale, p).as_str());
    assert(t@ =~= head + seq!['.'] + padded((v % scale) as nat, p as nat));
    t
}

/// Writes a power in watts.
pub fn power_text(milliwatts: u64) -> (t: String)
    ensures
        t@ == watts(milliwatts as nat),
{
    proof {
        reveal_with_fuel(ten_to, 4);
    }
    if milliwatts % 1_000 == 0 {
        decimal(milliwatts / 1_000)
    } else if milliwatts % 100 == 0 {
        write_pointed(milliwatts / 100, 1, 10)
    } else if milliwatts % 10 == 0 {
        write_pointed(milliwatts / 10, 2, 100)
    } else {
        write_pointed(milliwatts, 3, 1_000)
    }
}

proof fn lemma_joined_value(a: Seq<char>, b: Seq<char>)
    requires
        digits_value(a) is Some,
        digits_value(b) is Some,
    ensures
        digits_value(a + b) == Some(
            digits_value(a)->0 * ten_to(b.len()) + digits_value(b)->0,
        ),
    decreases b.len(),
{
    if b.len() == 0 {
        assert(a + b =~= a);
        assert(digits_value(a)->0 * 1 == digits_value(a)->0);
    } else {
        assert((a + b).drop_last() =~= a + b.drop_last());
        lemma_joined_value(a, b.drop_last());
        let (x, y) = (digits_value(a)->0, digits_value(b.drop_last())->0);
        let t = ten_to((b.len() - 1) as nat);
        assert(10 * (x * t + y) == x * (10 * t) + 10 * y) by (nonlinear_arith);
    }
}

/// A number below ten to the power of `k` has no more than `k` digits.
pub proof fn lemma_dec_len(n: nat, k: nat)
    requires
        n < ten_to(k),
        k >= 1,
    ensures
        dec(n).len() <= k,
    decreases k,
{
    if n >= 10 {
        lemma_dec_len(n / 10, (k - 1) as nat);
    }
}

proof fn lemma_zeros(n: nat)
    ensures
        digits_value(Seq::new(n, |i: int| '0')) == Some(0nat),
    decreases n,
{
    let z = Seq::new(n, |i: int| '0');
    if n > 0 {
        assert(z.drop_last() =~= Seq::new((n - 1) as nat, |i: int| '0'));
        lemma_zeros((n - 1) as nat);
        assert(z.last() == '0');
    }
}

proof fn lemma_padded(n: nat, p: nat)
    requires
        p >= 1,
        n < ten_to(p),
    ensures
        padded(n, p).len() == p,
        digits_value(padded(n, p)) == Some(n),
{
    lemma_dec_value(n);
    lemma_dec_len(n, p);
    let d = dec(n);
    if d.len() < p {
        let z = Seq::new((p - d.len()) as nat, |i: int| '0');
        lemma_zeros((p - d.len()) as nat);
        lemma_joined_value(z, d);
        assert(0 * ten_to(d.len()) == 0) by (nonlinear_arith);
    }
}

proof fn lemma_nearest_of_multiple(x: nat, d: nat)
    requires
        d >= 1,
    ensures
        nearest_even(x * d, d) == x,
{
    assert((x * d) / d == x && (x * d) % d == 0) by (nonlinear_arith)
        requires
            d >= 1,
    ;
}

proof fn lemma_ten_to_sum(a: nat, b: nat)
    ensures
        ten_to(a + b) == ten_to(a) * ten_to(b),
    decreases a,
{
    if a > 0 {
        lemma_ten_to_sum((a - 1) as nat, b);
        let (x, y) = (ten_to((a - 1) as nat), ten_to(b));
        assert(ten_to(a + b) == 10 * ten_to((a - 1 + b) as nat));
        assert(10 * (x * y) == (10 * x) * y) by (nonlinear_arith);
    } else {
        assert(1 * ten_to(b) == ten_to(b));
    }
}

/// What is written with its point is read as it was.
pub proof fn lemma_pointed_is_read(v: nat, p: nat, k: nat)
    requires
        1 <= p <= k,
        dec(v / ten_to(p)).len() + p <= MOST_DIGITS,
        v * ten_to((k - p) as nat) <= u64::MAX,
    ensures
        units(pointed(v, p), k) == Some((v * ten_to((k - p) as nat)) as u64),
{
    lemma_ten_to_grows(p, p);
    let t = ten_to(p);
    let (q, r) = (v / t, v % t);
    assert(v == q * t + r && r < t) by (nonlinear_arith)
        requires
            q == v / t,
            r == v % t,
            t >= 1,
    ;
    let a = dec(q);
    let f = padded(r, p);
    lemma_dec_value(q);
    lemma_padded(r, p);
    let s = pointed(v, p);
    assert forall|j: int| 0 <= j < a.len() implies #[trigger] s[j] != '.' by {
        assert(s[j] == a[j]);
    }
    lemma_point(s, a.len() as int);
    assert(places_of(s) =~= f);
    assert(unpointed(s) =~= a + f);
    lemma_joined_value(a, f);
    lemma_ten_to_sum((k - p) as nat, p);
    let u = ten_to((k - p) as nat);
    assert(v * (u * t) == (v * u) * t) by (nonlinear_arith);
    lemma_nearest_of_multiple(v * u, t);
}

/// A whole number is read as it was.
proof fn lemma_whole_is_read(v: nat, k: nat)
    requires
        dec(v).len() <= MOST_DIGITS,
        v * ten_to(k) <= u64::MAX,
    ensures
        units(dec(v), k) == Some((v * ten_to(k)) as u64),
{
    let s = dec(v);
    lemma_dec_value(v);
    lemma_point(s, s.len() as int);
    assert(unpointed(s) =~= s);
    lemma_nearest_of_multiple(v * ten_to(k), 1);
}

/// A power that is shown is read back as itself.
pub proof fn law_a_shown_power_is_read_back(milliwatts: u64)
    ensures
        units(watts(milliwatts as nat), 3) == Some(milliwatts),
{
    let n = milliwatts as nat;
    assert(ten_to(0) == 1 && ten_to(1) == 10 && ten_to(2) == 100 && ten_to(3) == 1_000) by {
        reveal_with_fuel(ten_to, 4);
    }
    assert(u64::MAX < ten_to(20)) by {
        reveal_with_fuel(ten_to, 21);
    }
    if n % 1_000 == 0 {
        lemma_dec_len(n / 1_000, 20);
        assert((n / 1_000) * ten_to(3) == n);
        lemma_whole_is_read(n / 1_000, 3);
    } else if n % 100 == 0 {
        lemma_dec_len(n / 100 / 10, 20);
        assert((3 - 1) as nat == 2);
        assert((n / 100) * ten_to(2) == n);
        lemma_pointed_is_read(n / 100, 1, 3);
    } else if n % 10 == 0 {
        lemma_dec_len(n / 10 / 100, 20);
        assert((3 - 2) as nat == 1);
        assert((n / 10) * ten_to(1) == n);
        lemma_pointed_is_read(n / 10, 2, 3);
    } else {
        lemma_dec_len(n / 1_000, 20);
        assert((3 - 3) as nat == 0);
        assert(n * ten_to(0) == n);
        lemma_pointed_is_read(n, 3, 3);
    }
}

/// A typed number is read in its units: digits alone are a whole number, and each
/// place behind the point is a tenth of the one before.
pub proof fn law_a_typed_number_is_read(whole: nat, part: nat, places: nat, k: nat)
    requires
        1 <= places <= k,
        part < ten_to(places),
        dec(whole).len() + places <= MOST_DIGITS,
        whole * ten_to(k) + part * ten_to((k - places) as nat) <= u64::MAX,
    ensures
        units(dec(whole), k) == Some((whole * ten_to(k)) as u64),
        units(dec(whole) + seq!['.'] + padded(part, places), k) == Some(
            (whole * ten_to(k) + part * ten_to((k - places) as nat)) as u64,
        ),
{
    let t = ten_to(places);
    let u = ten_to((k - places) as nat);
    let v = whole * t + part;
    lemma_ten_to_grows(places, places);
    lemma_ten_to_grows(k, k);
    lemma_ten_to_sum((k - places) as nat, places);
    assert(whole * ten_to(k) <= u64::MAX) by {
        assert(part * u >= 0) by (nonlinear_arith);
    }
    lemma_whole_is_read(whole, k);
    assert(v / t == whole && v % t == part) by (nonlinear_arith)
        requires
            v == whole * t + part,
            0 <= part < t,
    ;
    assert(v * u == whole * (u * t) + part * u) by (nonlinear_arith)
        requires
            v == whole * t + part,
    ;
    lemma_pointed_is_read(v, places, k);
}

/// Nothing typed, a point alone, two points or any other character is no number.
pub proof fn law_no_number_without_digits(s: Seq<char>, k: nat, i: int, h: int)
    requires
        0 <= i < s.len(),
    ensures
        0 <= h < i && s[h] == '.' && s[i] == '.' ==> units(s, k) is None,
        units(Seq::empty(), k) is None,
        s.len() == 1 && s[0] == '.' ==> units(s, k) is None,
        !('0' <= s[i] <= '9') && s[i] != '.' ==> units(s, k) is None,
{
    let e = Seq::<char>::empty();
    assert(unpointed(e) =~= e);
    lemma_point_bounds(s);
    let p = point_of(s);
    let u = unpointed(s);
    if s.len() == 1 && s[0] == '.' {
        assert(u =~= e);
    }
    if 0 <= h < i && s[h] == '.' && s[i] == '.' {
        assert(p <= h);
        assert(u[i - 1] == s[i]);
        lemma_bad_digit(u, i - 1);
    }
    if !('0' <= s[i] <= '9') && s[i] != '.' {
        let j = if i < p {
            i
        } else {
            i - 1
        };
        assert(u[j] == s[i]);
        lemma_bad_digit(u, j);
    }
}

proof fn lemma_point_bounds(s: Seq<char>)
    ensures
        0 <= point_of(s) <= s.len(),
        point_of(s) < s.len() ==> s[point_of(s)] == '.',
        forall|i: int| 0 <= i < point_of(s) ==> #[trigger] s[i] != '.',
    decreases s.len(),
{
    if s.len() > 0 && s[0] != '.' {
        let t = s.drop_first();
        lemma_point_bounds(t);
        assert forall|i: int| 0 <= i < point_of(s) implies #[trigger] s[i] != '.' by {
            if i > 0 {
                assert(t[i - 1] == s[i]);
            }
        }
    }
}

proof fn lemma_bad_digit(s: Seq<char>, i: int)
    requires
        0 <= i < s.len(),
        !('0' <= s[i] <= '9'),
    ensures
        digits_value(s) is None,
    decreases s.len(),
{
    if i < s.len() - 1 {
        assert(s.drop_last()[i] == s[i]);
        lemma_bad_digit(s.drop_last(), i);
    }
}

/// A power is shown with as many places as it takes and no more.
pub proof fn law_a_power_has_no_idle_places(n: nat)
    ensures
        watts(1_000 * n) == dec(n),
        n % 10 != 0 ==> watts(100 * n) == dec(n / 10) + seq!['.'] + padded(n % 10, 1),
        n % 10 != 0 ==> watts(10 * n) == dec(n / 100) + seq!['.'] + padded(n % 100, 2),
        n % 10 != 0 ==> watts(n) == dec(n / 1_000) + seq!['.'] + padded(n % 1_000, 3),
{
    assert(ten_to(1) == 10 && ten_to(2) == 100 && ten_to(3) == 1_000) by {
        reveal_with_fuel(ten_to, 4);
    }
    if n % 10 != 0 {
        assert((100 * n) % 1_000 != 0 && (100 * n) % 100 == 0 && (100 * n) / 100 == n);
        assert((10 * n) % 1_000 != 0 && (10 * n) % 100 != 0 && (10 * n) % 10 == 0 && (10 * n) / 10
            == n);
        assert(n % 1_000 != 0 && n % 100 != 0);
    }
}

} // verus!
