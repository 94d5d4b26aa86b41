//! Calendar dates and clock times of UTC second counts.

use vstd::prelude::*;

use crate::text::{dec, dec2, decimal, decimal2};

verus! {

/// Seconds in a day.
pub const DAY_S: i64 = 86_400;

/// The day that a moment falls on, counted from 1970-01-01.
pub open spec fn day_of(t: int) -> int {
    t / 86_400
}

/// The seconds that have passed of the day a moment falls on.
pub open spec fn second_of_day(t: int) -> int {
    t % 86_400
}

/// A calendar date of the Gregorian calendar, carried backwards without end.
#[derive(Clone, Copy, PartialEq, Eq, Structural, Debug)]
pub struct Date {
    pub year: i64,
    pub month: u32,
    pub day: u32,
}

/// True of the years with a 29th of February.
pub open spec fn is_leap(y: int) -> bool {
    y % 4 == 0 && (y % 100 != 0 || y % 400 == 0)
}

/// The days of a month.
pub open spec fn month_len(y: int, m: int) -> int {
    if m == 2 {
        if is_leap(y) {
            29
        } else {
            28
        }
    } else if m == 4 || m == 6 || m == 9 || m == 11 {
        30
    } else {
        31
    }
}

/// True of a date that the calendar has.
pub open spec fn is_date(d: Date) -> bool {
    1 <= d.month <= 12 && 1 <= d.day <= month_len(d.year as int, d.month as int)
}

/// The days from 0000-03-01 to the first of March of year `y`.
pub open spec fn march_first(y: int) -> int {
    365 * y + y / 4 - y / 100 + y / 400
}

/// The year, begun in March, that a date falls in.
pub open spec fn march_year(d: Date) -> int {
    if d.month <= 2 {
        d.year - 1
    } else {
        d.year as int
    }
}

/// The days from the first of March to a date of the twelve months after it.
pub open spec fn march_offset(d: Date) -> int {
    let mp = if d.month <= 2 {
        d.month + 9
    } else {
        d.month - 3
    };
    (153 * mp + 2) / 5 + d.day - 1
}

/// The number of a date's day, counted from 1970-01-01.
pub open spec fn day_number(d: Date) -> int {
    march_first(march_year(d)) + march_offset(d) - 719_468
}

/// The date of a day counted from 1970-01-01.
pub open spec fn date_of(n: int) -> Date {
    choose|d: Date| is_date(d) && #[trigger] day_number(d) == n
}

#[verifier::rlimit(30)]
proof fn lemma_march_step(y: int)
    ensures
        march_first(y + 1) - march_first(y) == if is_leap(y + 1) {
            366int
        } else {
            365int
        },
{
    assert((y + 1) / 4 - y / 4 == if (y + 1) % 4 == 0 {
        1int
    } else {
        0int
    });
    assert((y + 1) / 100 - y / 100 == if (y + 1) % 100 == 0 {
        1int
    } else {
        0int
    });
    assert((y + 1) / 400 - y / 400 == if (y + 1) % 400 == 0 {
        1int
    } else {
        0int
    });
    assert((y + 1) % 100 == 0 ==> (y + 1) % 4 == 0);
    assert((y + 1) % 400 == 0 ==> (y + 1) % 100 == 0);
}

proof fn lemma_march_monotone(a: int, b: int)
    requires
        a <= b,
    ensures
        march_first(a) <= march_first(b),
    decreases b - a,
{
    if a < b {
        lemma_march_monotone(a, b - 1);
        lemma_march_step(b - 1);
    }
}

proof fn lemma_march_offset(d: Date)
    requires
        is_date(d),
    ensures
        0 <= march_offset(d) < (if is_leap(march_year(d) + 1) {
            366int
        } else {
            365int
        }),
{
    if d.month == 2 {
        assert(march_year(d) + 1 == d.year);
    }
}

/// No two dates have the same day number.
#[verifier::rlimit(30)]
pub proof fn lemma_day_number_injective(a: Date, b: Date)
    requires
        is_date(a),
        is_date(b),
        day_number(a) == day_number(b),
    ensures
        a == b,
{
    lemma_march_offset(a);
    lemma_march_offset(b);
    let (ya, yb) = (march_year(a), march_year(b));
    lemma_march_step(ya);
    lemma_march_step(yb);
    if ya < yb {
        lemma_march_monotone(ya + 1, yb);
    }
    if yb < ya {
        lemma_march_monotone(yb + 1, ya);
    }
    assert(ya == yb);
    assert(march_offset(a) == march_offset(b));
    assert(a.month == b.month);
}

#[verifier::rlimit(30)]
proof fn lemma_year_parts(era: int, c: int, q: int, y4: int)
    requires
        0 <= c <= 3,
        0 <= q <= 24,
        0 <= y4 <= 3,
    ensures
        march_first(400 * era + 100 * c + 4 * q + y4) == 146_097 * era + 36_524 * c + 1_461 * q
            + 365 * y4,
        y4 == 3 && (q < 24 || c == 3) ==> is_leap(400 * era + 100 * c + 4 * q + y4 + 1),
{
    let y = 400 * era + 100 * c + 4 * q + y4;
    assert(y / 4 == 100 * era + 25 * c + q);
    assert(y / 100 == 4 * era + c);
    assert(y / 400 == era);
    if y4 == 3 {
        let n = y + 1;
        assert(n % 4 == 0);
        if q < 24 {
            assert(n % 100 == 4 * (q + 1));
        } else if c == 3 {
            assert(n % 400 == 0);
        }
    }
}

/// The year, begun in March, and the day in it, of a day counted from
/// 0000-03-01.
#[verifier::rlimit(30)]
fn march_parts(z: i64) -> (r: (i64, i64))
    requires
        -300_000_000_000_000 <= z <= 300_000_000_000_000,
    ensures
        march_first(r.0 as int) + r.1 == z,
        0 <= r.1 <= 365,
        r.1 == 365 ==> is_leap(r.0 + 1),
        -1_000_000_000_000 < r.0 < 1_000_000_000_000,
{
    let era: i64 = if z >= 0 {
        z / 146_097
    } else {
        -((-(z + 1)) / 146_097) - 1
    };
    let doe: i64 = z - era * 146_097;
    let c: i64 = if doe / 36_524 < 3 {
        doe / 36_524
    } else {
        3
    };
    let doc: i64 = doe - c * 36_524;
    let q: i64 = doc / 1_461;
    let doq: i64 = doc - q * 1_461;
    let y4: i64 = if doq / 365 < 3 {
        doq / 365
    } else {
        3
    };
    let doy: i64 = doq - y4 * 365;
    proof {
        lemma_year_parts(era as int, c as int, q as int, y4 as int);
    }
    (400 * era + 100 * c + 4 * q + y4, doy)
}

/// The month, counted from March, and the day in it, of a day of the year.
fn month_day(doy: i64) -> (r: (i64, i64))
    requires
        0 <= doy <= 365,
    ensures
        0 <= r.0 <= 11,
        (153 * r.0 + 2) / 5 + r.1 - 1 == doy,
        1 <= r.1,
        r.0 < 11 ==> r.1 <= (if r.0 == 1 || r.0 == 3 || r.0 == 6 || r.0 == 8 {
            30int
        } else {
            31int
        }),
        r.0 == 11 ==> r.1 <= 29 && (r.1 == 29 ==> doy == 365),
{
    let mp: i64 = (5 * doy + 2) / 153;
    (mp, doy - (153 * mp + 2) / 5 + 1)
}

/// The date of a day.
#[verifier::rlimit(30)]
pub fn civil(n: i64) -> (r: Date)
    requires
        -200_000_000_000_000 <= n <= 200_000_000_000_000,
    ensures
        is_date(r),
        day_number(r) == n,
        r == date_of(n as int),
{
    let (yy, doy) = march_parts(n + 719_468);
    let (mp, day) = month_day(doy);
    let (year, month): (i64, i64) = if mp < 10 {
        (yy, mp + 3)
    } else {
        (yy + 1, mp - 9)
    };
    let r = Date { year, month: month as u32, day: day as u32 };
    proof {
        assert(march_year(r) == yy);
        assert(march_offset(r) == doy);
        assert(is_date(r));
        assert(day_number(r) == n);
        let d = date_of(n as int);
        lemma_day_number_injective(r, d);
    }
    r
}

/// The day that a moment falls on.
pub fn day_index(t: i64) -> (r: i64)
    ensures
        r == day_of(t as int),
        -200_000_000_000_000 <= r <= 200_000_000_000_000,
{
    if t >= 0 {
        t / 86_400
    } else {
        -((-(t + 1)) / 86_400) - 1
    }
}

/// The seconds that have passed of a moment's day.
pub fn day_second(t: i64) -> (r: u64)
    ensures
        r == second_of_day(t as int),
{
    if t >= 0 {
        (t % 86_400) as u64
    } else {
        (86_399 - (-(t + 1)) % 86_400) as u64
    }
}

/// A year with at least four characters, its sign counted.
pub open spec fn year_text(y: int) -> Seq<char> {
    if y >= 0 {
        padded(y as nat, 4)
    } else {
        seq!['-'] + padded((-y) as nat, 3)
    }
}

/// `n` in decimal with zeros in front up to `width` characters.
pub open spec fn padded(n: nat, width: nat) -> Seq<char> {
    let d = dec(n);
    if d.len() < width {
        Seq::new((width - d.len()) as nat, |i: int| '0') + d
    } else {
        d
    }
}

/// A date as year, month and day with hyphens between.
pub open spec fn date_text(d: Date) -> Seq<char> {
    year_text(d.year as int) + seq!['-'] + dec2(d.month as nat) + seq!['-'] + dec2(d.day as nat)
}

/// The hour and minute of a moment.
pub open spec fn hm_text(t: int) -> Seq<char> {
    let s = second_of_day(t);
    dec2((s / 3600) as nat) + seq![':'] + dec2((s / 60 % 60) as nat)
}

/// The hour, minute and second of a moment.
pub open spec fn hms_text(t: int) -> Seq<char> {
    hm_text(t) + seq![':'] + dec2((second_of_day(t) % 60) as nat)
}

/// Writes `n` in decimal with zeros in front.
pub fn padded_decimal(n: u64, width: usize) -> (r: String)
    requires
        width <= 16,
    ensures
        r@ == padded(n as nat, width as nat),
{
    let d = decimal(n);
    let len: usize = d.as_str().unicode_len();
    let mut r = String::new();
    let mut k: usize = len;
    let ghost zeros = Seq::new((width - len) as nat, |i: int| '0');
    assert(r@ =~= zeros.take(0));
    while k < width
        invariant
            len <= k,
            k <= width || len >= width,
            len < width ==> zeros == Seq::new((width - len) as nat, |i: int| '0'),
            len < width ==> r@ == zeros.take(k - len),
            len >= width ==> r@.len() == 0 && k == len,
        decreases width - k,
    {
        r.push('0');
        assert(zeros.take(k - len + 1) =~= zeros.take(k - len).push('0'));
        k = k + 1;
    }
    r.append(d.as_str());
    assert(r@ =~= padded(n as nat, width as nat));
    r
}

/// Writes the date of a moment.
pub fn date_str(t: i64) -> (r: String)
    ensures
        r@ == date_text(date_of(day_of(t as int))),
{
    let d = civil(day_index(t));
    let mut r = String::new();
    proof {
        lemma_year_bound(d);
    }
    if d.year >= 0 {
        r.append(padded_decimal(d.year as u64, 4).as_str());
    } else {
        r.push('-');
        r.append(padded_decimal((-d.year) as u64, 3).as_str());
    }
    assert(r@ =~= year_text(d.year as int));
    r.push('-');
    r.append(decimal2(d.month as u64).as_str());
    r.push('-');
    r.append(decimal2(d.day as u64).as_str());
    assert(r@ =~= date_text(d));
    r
}

proof fn lemma_year_bound(d: Date)
    requires
        is_date(d),
        -200_000_000_000_000 <= day_number(d) <= 200_000_000_000_000,
    ensures
        -1_000_000_000_000 < d.year < 1_000_000_000_000,
{
    lemma_march_offset(d);
}

/// Writes the hour and minute of a moment.
pub fn time_str(t: i64) -> (r: String)
    ensures
        r@ == hm_text(t as int),
{
    let s: u64 = day_second(t);
    let mut r = decimal2(s / 3600);
    r.push(':');
    r.append(decimal2(s / 60 % 60).as_str());
    assert(r@ =~= hm_text(t as int));
    r
}

/// Writes the hour, minute and second of a moment.
pub fn hms_str(t: i64) -> (r: String)
    ensures
        r@ == hms_text(t as int),
{
    let mut r = time_str(t);
    r.push(':');
    r.append(decimal2(day_second(t) % 60).as_str());
    assert(r@ =~= hms_text(t as int));
    r
}

/// A moment is its day and what has passed of it.
pub proof fn law_a_moment_is_its_day_and_second(t: int)
    ensures
        t == 86_400 * day_of(t) + second_of_day(t),
        0 <= second_of_day(t) < 86_400,
{
}

/// Every fourth year has a day more, of the full centuries only every fourth.
pub proof fn law_the_gregorian_calendar(y: int)
    ensures
        y % 4 != 0 ==> !is_leap(y),
        y % 4 == 0 && y % 100 != 0 ==> is_leap(y),
        y % 400 == 0 ==> is_leap(y),
        y % 100 == 0 && y % 400 != 0 ==> !is_leap(y),
        month_len(y, 2) == (if is_leap(y) {
            29int
        } else {
            28int
        }),
        month_len(y, 1) == 31 && month_len(y, 3) == 31 && month_len(y, 5) == 31 && month_len(y, 7)
            == 31 && month_len(y, 8) == 31 && month_len(y, 10) == 31 && month_len(y, 12) == 31,
        month_len(y, 4) == 30 && month_len(y, 6) == 30 && month_len(y, 9) == 30 && month_len(y, 11)
            == 30,
{
    if y % 400 == 0 {
        assert(y % 4 == 0 && y % 100 == 0);
    }
    if y % 100 == 0 {
        assert(y % 4 == 0);
    }
}

/// The date after a date: the next of its month, else the first of the next
/// month, else the first of the next year.
pub open spec fn next_date(d: Date) -> Date {
    if d.day < month_len(d.year as int, d.month as int) {
        Date { day: (d.day + 1) as u32, ..d }
    } else if d.month < 12 {
        Date { year: d.year, month: (d.month + 1) as u32, day: 1 }
    } else {
        Date { year: (d.year + 1) as i64, month: 1, day: 1 }
    }
}

/// Days are counted one by one from the first of January 1970, each date having
/// the number after that of the date before it.
#[verifier::rlimit(60)]
pub proof fn law_days_are_counted_one_by_one(d: Date)
    requires
        is_date(d),
        d.year < i64::MAX,
    ensures
        is_date(next_date(d)),
        day_number(next_date(d)) == day_number(d) + 1,
        day_number(Date { year: 1970, month: 1, day: 1 }) == 0,
{
    let n = next_date(d);
    lemma_march_step(d.year - 1);
    if d.day < month_len(d.year as int, d.month as int) {
        assert(march_year(n) == march_year(d));
        assert(march_offset(n) == march_offset(d) + 1);
    } else if d.month == 2 {
        assert(march_year(d) == d.year - 1 && march_year(n) == d.year);
        assert(march_offset(n) == 0);
        assert(march_offset(d) == 336 + d.day);
    } else if d.month < 12 {
        assert(march_year(n) == march_year(d));
        assert(march_offset(n) == march_offset(d) + 1);
    } else {
        assert(march_year(n) == march_year(d));
        assert(march_offset(n) == march_offset(d) + 1);
    }
}

/// The date of a date's day is that date.
pub proof fn law_a_date_is_found_by_its_day(d: Date)
    requires
        is_date(d),
    ensures
        date_of(day_number(d)) == d,
{
    let e = date_of(day_number(d));
    assert(is_date(e) && day_number(e) == day_number(d));
    lemma_day_number_injective(e, d);
}

/// A clock shows hour, minute and second with two digits each, colons between, and
/// the same on every day.
pub proof fn law_the_clock_shows_the_time(day: int, h: int, m: int, s: int)
    requires
        0 <= h < 24,
        0 <= m < 60,
        0 <= s < 60,
    ensures
        hm_text(86_400 * day + 3_600 * h + 60 * m + s) == dec2(h as nat) + seq![':'] + dec2(
            m as nat,
        ),
        hms_text(86_400 * day + 3_600 * h + 60 * m + s) == dec2(h as nat) + seq![':'] + dec2(
            m as nat,
        ) + seq![':'] + dec2(s as nat),
{
    let t = 86_400 * day + 3_600 * h + 60 * m + s;
    let r = 3_600 * h + 60 * m + s;
    assert(second_of_day(t) == r);
    assert(r / 3_600 == h);
    assert(r / 60 == 60 * h + m);
    assert((60 * h + m) % 60 == m);
    assert(r % 60 == s);
}

/// A date of a four-digit year shows year, month and day with hyphens between,
/// month and day with two digits each.
pub proof fn law_a_date_is_written_year_first(d: Date)
    ensures
        1000 <= d.year ==> date_text(d) == dec(d.year as nat) + seq!['-'] + dec2(d.month as nat)
            + seq!['-'] + dec2(d.day as nat),
        0 <= d.year <= 9999 && d.month < 100 && d.day < 100 ==> date_text(d).len() == 10
            && date_text(d)[4] == '-' && date_text(d)[7] == '-',
{
    if 1000 <= d.year {
        lemma_dec_len(d.year as nat, 4);
    }
    if 0 <= d.year <= 9999 && d.month < 100 && d.day < 100 {
        crate::text::law_two_digits(d.month as nat);
        crate::text::law_two_digits(d.day as nat);
        lemma_dec_short(d.year as nat);
        assert(year_text(d.year as int).len() == 4);
    }
}

proof fn lemma_dec_short(n: nat)
    requires
        n <= 9999,
    ensures
        dec(n).len() <= 4,
{
    reveal_with_fuel(dec, 5);
}

proof fn lemma_dec_len(n: nat, k: nat)
    requires
        k == 4,
        n >= 1000,
    ensures
        dec(n).len() >= k,
    decreases n,
{
    reveal_with_fuel(dec, 4);
    if n >= 10_000 {
        lemma_dec_len(n / 10, k);
    }
}

/// Zeros fill a number up to its width and change nothing else about it.
pub proof fn law_padding_is_zeros(n: nat, width: nat)
    ensures
        padded(n, width).len() >= width,
        dec(n).is_suffix_of(padded(n, width)),
        forall|i: int| 0 <= i < padded(n, width).len() - dec(n).len() ==> #[trigger] padded(n, width)[i] == '0',
        dec(n).len() >= width ==> padded(n, width) == dec(n),
{
    let p = padded(n, width);
    let d = dec(n);
    assert(d =~= p.subrange(p.len() - d.len(), p.len() as int));
}

} // verus!
