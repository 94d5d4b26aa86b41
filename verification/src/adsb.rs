//! The aircraft table: its rows, their order, its columns and its counters.

use vstd::prelude::*;

use crate::command::Command;
use crate::double::{lemma_through_double_below, rounded_through_double, ten_to, through_double};
use crate::figure::lemma_dec_len;
use crate::ink::Ink;
use crate::keys::{
    lemma_text_asymmetric, name_chars, num_key, text_less, NameDown, NameUp, NumKey,
};
use crate::layout::HEIGHT_END;
use crate::net::opt_text;
use crate::order::{is_stable_order, listed_before, stable_order, Ranked};
use crate::text::{
    ascii_upper, cat, contains, dec, dec_int, dec_signed, decimal, decimal_int, decimal_signed,
    digit, has_part, nearest_even, round_even, to_ascii_upper, trim, trimmed,
};

verus! {

/// One aircraft. The ranks are numbers that order aircraft by what was
/// measured of them.
#[derive(Debug)]
pub struct Aircraft {
    pub icao: u32,
    /// The address in hexadecimal.
    pub hex: String,
    pub callsign: String,
    pub category: Option<String>,
    pub emergency: Option<String>,
    pub on_ground: bool,
    pub altitude_ft: Option<i32>,
    pub vertical_rate_fpm: Option<i32>,
    pub speed_rank: Option<i64>,
    /// By its distance, where both ends are known.
    pub range_rank: Option<i64>,
    pub signal_rank: i64,
    pub last_at: i64,
    /// No fresh enough position to draw.
    pub stale: bool,
}

impl Aircraft {
    /// The text that [`Aircraft::label`] returns.
    pub open spec fn name(&self) -> Seq<char> {
        if self.callsign@.len() > 0 {
            self.callsign@
        } else {
            self.hex@
        }
    }

    /// What an aircraft is called: its callsign, else its address.
    pub fn label(&self) -> (r: &str)
        ensures
            r@ == self.name(),
    {
        if self.callsign.as_str().is_empty() {
            self.hex.as_str()
        } else {
            self.callsign.as_str()
        }
    }
}

/// How the aircraft table is ordered.
#[derive(Clone, Copy, PartialEq, Eq, Structural, Debug)]
pub enum AdsbSort {
    /// Most recently heard first.
    Heard,
    Callsign,
    Altitude,
    Speed,
    /// Nearest first; offered once the operator's own position is known.
    Range,
    Signal,
}

impl Default for AdsbSort {
    fn default() -> (s: AdsbSort)
        ensures
            s == AdsbSort::Heard,
    {
        AdsbSort::Heard
    }
}

impl AdsbSort {
    /// Every order, as the chips stand.
    pub fn all() -> (v: Vec<AdsbSort>)
        ensures
            v@ == seq![
                AdsbSort::Heard,
                AdsbSort::Callsign,
                AdsbSort::Altitude,
                AdsbSort::Speed,
                AdsbSort::Range,
                AdsbSort::Signal,
            ],
    {
        let v = vec![
            AdsbSort::Heard,
            AdsbSort::Callsign,
            AdsbSort::Altitude,
            AdsbSort::Speed,
            AdsbSort::Range,
            AdsbSort::Signal,
        ];
        assert(v@ =~= seq![
            AdsbSort::Heard,
            AdsbSort::Callsign,
            AdsbSort::Altitude,
            AdsbSort::Speed,
            AdsbSort::Range,
            AdsbSort::Signal,
        ]);
        v
    }

    /// The label of an order's chip.
    pub fn label(self) -> (t: &'static str)
        ensures
            t@ == match self {
                AdsbSort::Heard => "HEARD"@,
                AdsbSort::Callsign => "CALL"@,
                AdsbSort::Altitude => "ALT"@,
                AdsbSort::Speed => "SPD"@,
                AdsbSort::Range => "RANGE"@,
                AdsbSort::Signal => "SIG"@,
            },
    {
        match self {
            AdsbSort::Heard => "HEARD",
            AdsbSort::Callsign => "CALL",
            AdsbSort::Altitude => "ALT",
            AdsbSort::Speed => "SPD",
            AdsbSort::Range => "RANGE",
            AdsbSort::Signal => "SIG",
        }
    }

    /// True when an order can be chosen: by range only with a place to measure
    /// from.
    pub fn offered(self, have_home: bool) -> (r: bool)
        ensures
            r == (self != AdsbSort::Range || have_home),
    {
        self != AdsbSort::Range || have_home
    }
}

/// Presses an order's chip: the active one turns round, another one starts
/// descending.
pub fn press_sort(by: AdsbSort, desc: bool, pressed: AdsbSort) -> (r: (AdsbSort, bool))
    ensures
        r == if by == pressed {
            (by, !desc)
        } else {
            (pressed, true)
        },
{
    if by == pressed {
        (by, !desc)
    } else {
        (pressed, true)
    }
}

/// The number that an aircraft is ordered by.
pub open spec fn sort_value(by: AdsbSort, a: Aircraft) -> Option<i64> {
    match by {
        AdsbSort::Heard => Some(a.last_at),
        AdsbSort::Callsign => None,
        AdsbSort::Altitude => match a.altitude_ft {
            Some(v) => Some(v as i64),
            None => None,
        },
        AdsbSort::Speed => a.speed_rank,
        AdsbSort::Range => a.range_rank,
        AdsbSort::Signal => Some(a.signal_rank),
    }
}

/// Which way the numbers run: descending is nearest first in the range column,
/// the largest first everywhere else.
pub open spec fn runs_down(by: AdsbSort, desc: bool) -> bool {
    if by == AdsbSort::Range {
        !desc
    } else {
        desc
    }
}

/// True when aircraft `a` is to stand ahead of aircraft `b`. One that has not
/// said the value stands last either way.
pub open spec fn aircraft_before(by: AdsbSort, desc: bool, a: Aircraft, b: Aircraft) -> bool {
    if by == AdsbSort::Callsign {
        if desc {
            text_less(b.name(), a.name())
        } else {
            text_less(a.name(), b.name())
        }
    } else {
        num_key(sort_value(by, a), runs_down(by, desc)).before(
            &num_key(sort_value(by, b), runs_down(by, desc)),
        )
    }
}

/// True when `out` is `rows` put in order by the permutation `order`, with
/// rows that tie left as they came.
pub open spec fn is_sorted_by(
    list: Seq<Aircraft>,
    by: AdsbSort,
    desc: bool,
    rows: Seq<usize>,
    order: Seq<usize>,
    out: Seq<usize>,
) -> bool {
    &&& order.len() == rows.len() && out.len() == rows.len()
    &&& forall|k: int| 0 <= k < order.len() ==> #[trigger] order[k] < rows.len()
    &&& forall|x: usize| x < rows.len() ==> #[trigger] order.contains(x)
    &&& forall|k: int| 0 <= k < out.len() ==> #[trigger] out[k] == rows[order[k] as int]
    &&& forall|i: int, j: int|
        0 <= i < j < order.len() ==> stands_ahead(
            list,
            by,
            desc,
            rows,
            #[trigger] order[i] as int,
            #[trigger] order[j] as int,
        )
}

/// True when the row at `i` is listed ahead of the one at `j`.
pub open spec fn stands_ahead(
    list: Seq<Aircraft>,
    by: AdsbSort,
    desc: bool,
    rows: Seq<usize>,
    i: int,
    j: int,
) -> bool {
    aircraft_before(by, desc, list[rows[i] as int], list[rows[j] as int]) || (!aircraft_before(
        by,
        desc,
        list[rows[j] as int],
        list[rows[i] as int],
    ) && i < j)
}

proof fn lemma_sorted<K: Ranked>(
    list: Seq<Aircraft>,
    by: AdsbSort,
    desc: bool,
    rows: Seq<usize>,
    keys: Seq<K>,
    order: Seq<usize>,
    out: Seq<usize>,
)
    requires
        keys.len() == rows.len(),
        is_stable_order(keys, order),
        out.len() == rows.len(),
        forall|k: int| 0 <= k < out.len() ==> #[trigger] out[k] == rows[order[k] as int],
        forall|a: int, b: int|
            0 <= a < rows.len() && 0 <= b < rows.len() ==> #[trigger] keys[a].before(&keys[b])
                == aircraft_before(by, desc, list[rows[a] as int], list[rows[b] as int]),
    ensures
        is_sorted_by(list, by, desc, rows, order, out),
{
    assert forall|i: int, j: int| 0 <= i < j < order.len() implies stands_ahead(
        list,
        by,
        desc,
        rows,
        #[trigger] order[i] as int,
        #[trigger] order[j] as int,
    ) by {
        let (a, b) = (order[i] as int, order[j] as int);
        assert(listed_before(keys, a, b));
        assert(keys[a].before(&keys[b]) == aircraft_before(
            by,
            desc,
            list[rows[a] as int],
            list[rows[b] as int],
        ));
        assert(keys[b].before(&keys[a]) == aircraft_before(
            by,
            desc,
            list[rows[b] as int],
            list[rows[a] as int],
        ));
    }
}

fn arrange(rows: &Vec<usize>, order: &Vec<usize>) -> (out: Vec<usize>)
    requires
        order@.len() == rows@.len(),
        forall|k: int| 0 <= k < order@.len() ==> #[trigger] order@[k] < rows@.len(),
    ensures
        out@.len() == rows@.len(),
        forall|k: int| 0 <= k < out@.len() ==> #[trigger] out@[k] == rows@[order@[k] as int],
{
    let mut out: Vec<usize> = Vec::new();
    let mut k: usize = 0;
    while k < order.len()
        invariant
            k <= order@.len(),
            order@.len() == rows@.len(),
            forall|k: int| 0 <= k < order@.len() ==> #[trigger] order@[k] < rows@.len(),
            out@.len() == k,
            forall|i: int| 0 <= i < k ==> #[trigger] out@[i] == rows@[order@[i] as int],
        decreases order@.len() - k,
    {
        assert(order@[k as int] < rows@.len());
        out.push(rows[order[k]]);
        k = k + 1;
    }
    out
}

/// Order the table. A missing value sorts last, whichever way the arrow
/// points: an aircraft that has not said its altitude is not the lowest one in
/// the sky.
pub fn sort_rows(list: &Vec<Aircraft>, rows: &mut Vec<usize>, by: AdsbSort, desc: bool)
    requires
        forall|k: int| 0 <= k < old(rows)@.len() ==> #[trigger] old(rows)@[k] < list@.len(),
    ensures
        exists|order: Seq<usize>| #[trigger]
            is_sorted_by(list@, by, desc, old(rows)@, order, final(rows)@),
{
    let ghost before = rows@;
    if by == AdsbSort::Callsign && desc {
        let mut keys: Vec<NameDown> = Vec::new();
        let mut i: usize = 0;
        while i < rows.len()
            invariant
                i <= rows@.len(),
                rows@ == before,
                forall|k: int| 0 <= k < before.len() ==> #[trigger] before[k] < list@.len(),
                keys@.len() == i,
                forall|k: int|
                    0 <= k < i ==> ((#[trigger] keys@[k]).name matches Some(n) && n@
                        == list@[before[k] as int].name()),
            decreases rows@.len() - i,
        {
            keys.push(NameDown { name: name_chars(Some(list[rows[i]].label())) });
            i = i + 1;
        }
        let order = stable_order(&keys);
        let out = arrange(rows, &order);
        proof {
            assert forall|a: int, b: int|
                0 <= a < before.len() && 0 <= b < before.len() implies #[trigger] keys@[a].before(
                &keys@[b],
            ) == aircraft_before(by, desc, list@[before[a] as int], list@[before[b] as int]) by {
                assert(keys@[a].name is Some && keys@[b].name is Some);
            }
            lemma_sorted(list@, by, desc, before, keys@, order@, out@);
        }
        *rows = out;
    } else if by == AdsbSort::Callsign {
        let mut keys: Vec<NameUp> = Vec::new();
        let mut i: usize = 0;
        while i < rows.len()
            invariant
                i <= rows@.len(),
                rows@ == before,
                forall|k: int| 0 <= k < before.len() ==> #[trigger] before[k] < list@.len(),
                keys@.len() == i,
                forall|k: int|
                    0 <= k < i ==> ((#[trigger] keys@[k]).name matches Some(n) && n@
                        == list@[before[k] as int].name()),
            decreases rows@.len() - i,
        {
            keys.push(NameUp { name: name_chars(Some(list[rows[i]].label())) });
            i = i + 1;
        }
        let order = stable_order(&keys);
        let out = arrange(rows, &order);
        proof {
            assert forall|a: int, b: int|
                0 <= a < before.len() && 0 <= b < before.len() implies #[trigger] keys@[a].before(
                &keys@[b],
            ) == aircraft_before(by, desc, list@[before[a] as int], list@[before[b] as int]) by {
                assert(keys@[a].name is Some && keys@[b].name is Some);
            }
            lemma_sorted(list@, by, desc, before, keys@, order@, out@);
        }
        *rows = out;
    } else {
        let down = if by == AdsbSort::Range {
            !desc
        } else {
            desc
        };
        let mut keys: Vec<NumKey> = Vec::new();
        let mut i: usize = 0;
        while i < rows.len()
            invariant
                i <= rows@.len(),
                rows@ == before,
                down == runs_down(by, desc),
                forall|k: int| 0 <= k < before.len() ==> #[trigger] before[k] < list@.len(),
                keys@.len() == i,
                forall|k: int|
                    0 <= k < i ==> #[trigger] keys@[k] == num_key(
                        sort_value(by, list@[before[k] as int]),
                        down,
                    ),
            decreases rows@.len() - i,
        {
            let a = &list[rows[i]];
            let value: Option<i64> = match by {
                AdsbSort::Heard => Some(a.last_at),
                AdsbSort::Callsign => None,
                AdsbSort::Altitude => match a.altitude_ft {
                    Some(v) => Some(v as i64),
                    None => None,
                },
                AdsbSort::Speed => a.speed_rank,
                AdsbSort::Range => a.range_rank,
                AdsbSort::Signal => Some(a.signal_rank),
            };
            keys.push(NumKey::of(value, down));
            i = i + 1;
        }
        let order = stable_order(&keys);
        let out = arrange(rows, &order);
        proof {
            lemma_sorted(list@, by, desc, before, keys@, order@, out@);
        }
        *rows = out;
    }
}

/// An aircraft that has said a value stands ahead of every one that has not,
/// in both directions.
pub proof fn law_missing_last_both_ways(
    list: Seq<Aircraft>,
    by: AdsbSort,
    desc: bool,
    rows: Seq<usize>,
    order: Seq<usize>,
    out: Seq<usize>,
    i: int,
    j: int,
)
    requires
        by != AdsbSort::Callsign,
        is_sorted_by(list, by, desc, rows, order, out),
        0 <= i < j < out.len(),
        sort_value(by, list[out[i] as int]) is None,
    ensures
        sort_value(by, list[out[j] as int]) is None,
{
    assert(out[i] == rows[order[i] as int] && out[j] == rows[order[j] as int]);
    assert(stands_ahead(list, by, desc, rows, order[i] as int, order[j] as int));
}

/// The range column descends from the nearest aircraft to the farthest.
pub proof fn law_nearest_at_the_top(
    list: Seq<Aircraft>,
    rows: Seq<usize>,
    order: Seq<usize>,
    out: Seq<usize>,
    i: int,
    j: int,
)
    requires
        is_sorted_by(list, AdsbSort::Range, true, rows, order, out),
        0 <= i < j < out.len(),
        list[out[j] as int].range_rank is Some,
    ensures
        list[out[i] as int].range_rank is Some,
        list[out[i] as int].range_rank->0 <= list[out[j] as int].range_rank->0,
{
    assert(out[i] == rows[order[i] as int] && out[j] == rows[order[j] as int]);
    assert(stands_ahead(list, AdsbSort::Range, true, rows, order[i] as int, order[j] as int));
}

/// True of an aircraft that the filter lets through: any part of its callsign,
/// in either case, or of its address.
pub open spec fn matches_filter(a: Aircraft, filter: Seq<char>) -> bool {
    let f = ascii_upper(trim(filter));
    f.len() == 0 || has_part(ascii_upper(a.callsign@), f) || has_part(a.hex@, f)
}

/// The places of the first `upto` aircraft that pass the filter.
pub open spec fn filtered(list: Seq<Aircraft>, filter: Seq<char>, upto: nat) -> Seq<usize>
    decreases upto,
{
    if upto == 0 {
        Seq::empty()
    } else {
        let rest = filtered(list, filter, (upto - 1) as nat);
        if matches_filter(list[upto - 1], filter) {
            rest.push((upto - 1) as usize)
        } else {
            rest
        }
    }
}

/// The rows of the table: the aircraft that pass the filter, in order.
pub fn table_rows(list: &Vec<Aircraft>, filter: &str, by: AdsbSort, desc: bool) -> (rows: Vec<usize>)
    ensures
        exists|order: Seq<usize>| #[trigger]
            is_sorted_by(list@, by, desc, filtered(list@, filter@, list@.len()), order, rows@),
{
    let f = to_ascii_upper(trimmed(filter).as_str());
    let mut rows: Vec<usize> = Vec::new();
    let mut i: usize = 0;
    while i < list.len()
        invariant
            i <= list@.len(),
            f@ == ascii_upper(trim(filter@)),
            rows@ == filtered(list@, filter@, i as nat),
            forall|k: int| 0 <= k < rows@.len() ==> #[trigger] rows@[k] < i,
        decreases list@.len() - i,
    {
        let a = &list[i];
        if f.as_str().is_empty() || contains(
            to_ascii_upper(a.callsign.as_str()).as_str(),
            f.as_str(),
        ) || contains(a.hex.as_str(), f.as_str()) {
            rows.push(i);
        }
        i = i + 1;
    }
    sort_rows(list, &mut rows, by, desc);
    rows
}

/// Presses a row: its card opens, or closes where it was open.
pub fn press_row(selected: Option<u32>, icao: u32) -> (r: Option<u32>)
    ensures
        r == if selected == Some(icao) {
            None
        } else {
            Some(icao)
        },
{
    match selected {
        Some(s) => if s == icao {
            None
        } else {
            Some(icao)
        },
        None => Some(icao),
    }
}

/// The colours of a row: the bar at its left, its text, and its lesser text.
/// An emergency outranks everything; a position that aged out greys the row.
pub fn row_inks(a: &Aircraft, selected: bool) -> (r: (Ink, Ink, Ink))
    ensures
        r == (
            if a.emergency is Some {
                Ink::Hazard
            } else if selected {
                Ink::Yellow
            } else if a.stale {
                Ink::Gray(80)
            } else if a.on_ground {
                Ink::Green
            } else {
                Ink::CyanDim
            },
            if a.emergency is Some {
                Ink::Hazard
            } else if selected {
                Ink::Yellow
            } else if a.stale {
                Ink::Gray(115)
            } else {
                Ink::Cyan
            },
            if a.stale {
                Ink::Gray(95)
            } else {
                Ink::Gray(140)
            },
        ),
{
    let (bar, text) = if a.emergency.is_some() {
        (Ink::Hazard, Ink::Hazard)
    } else if selected {
        (Ink::Yellow, Ink::Yellow)
    } else if a.stale {
        (Ink::Gray(80), Ink::Gray(115))
    } else if a.on_ground {
        (Ink::Green, Ink::Cyan)
    } else {
        (Ink::CyanDim, Ink::Cyan)
    };
    let dim = if a.stale {
        Ink::Gray(95)
    } else {
        Ink::Gray(140)
    };
    (bar, text, dim)
}

/// The address column, empty where the address is the label already.
pub fn address_cell(a: &Aircraft) -> (t: String)
    ensures
        t@ == if a.callsign@.len() > 0 {
            a.hex@
        } else {
            Seq::empty()
        },
{
    if a.callsign.as_str().is_empty() {
        String::new()
    } else {
        a.hex.clone()
    }
}

/// The vertical-rate column, empty below 64 ft/min.
pub fn rate_cell(a: &Aircraft) -> (t: String)
    ensures
        t@ == match a.vertical_rate_fpm {
            Some(v) => if v >= 64 || v <= -64 {
                dec_signed(v as int)
            } else {
                Seq::empty()
            },
            None => Seq::empty(),
        },
{
    match a.vertical_rate_fpm {
        Some(v) => if v >= 64 || v <= -64 {
            decimal_signed(v as i64)
        } else {
            String::new()
        },
        None => String::new(),
    }
}

/// The hover text of a row.
pub fn row_hover(a: &Aircraft) -> (t: String)
    ensures
        t@ == match a.category {
            Some(c) => a.hex@ + " — "@ + c@,
            None => a.hex@,
        },
{
    match &a.category {
        Some(c) => {
            let mut t = cat(a.hex.as_str(), " — ");
            t.append(c.as_str());
            t
        },
        None => a.hex.clone(),
    }
}

/// Below this width, in thousandths of a point, the table drops columns.
pub const NARROW_W: i64 = 330_000;

/// The least distance between two columns.
pub const COLUMN_GAP: i64 = 28_000;

/// Where the speed ends, the last of the columns that always stand in their
/// place.
pub const SPEED_X: i64 = 196_000;

/// Where each column sits, in thousandths of a point from the left of a row.
/// `None` for one that is not drawn.
#[derive(Clone, Copy, PartialEq, Eq, Structural, Debug)]
pub struct Cols {
    pub call: i64,
    pub icao: i64,
    pub alt: i64,
    pub spd: i64,
    pub trk: Option<i64>,
    pub vs: Option<i64>,
    pub sqk: Option<i64>,
    pub range: Option<i64>,
    pub age: Option<i64>,
}

/// The columns that always stand in their place, and no others.
pub open spec fn fixed_columns() -> Cols {
    Cols {
        call: 5_000,
        icao: 62_000,
        alt: 158_000,
        spd: SPEED_X,
        trk: None,
        vs: None,
        sqk: None,
        range: None,
        age: None,
    }
}

/// True when a column at `x` keeps its distance from the speed.
pub open spec fn clears_speed(x: int) -> bool {
    x - SPEED_X >= COLUMN_GAP
}

/// Where each column sits, given the width available. The trailing columns
/// stand at the right end. They drop out rather than overprint each other or
/// the speed: the range first, then squawk and rate, which a table below
/// [`NARROW_W`] never has, then the track, and the age last.
pub open spec fn columns_of(w: int, have_home: bool) -> Cols {
    let age = w - 4_000;
    let tail = age - 34_000;
    if w >= NARROW_W && have_home && clears_speed(tail - 124_000) {
        Cols {
            trk: Some((tail - 124_000) as i64),
            vs: Some((tail - 80_000) as i64),
            sqk: Some((tail - 40_000) as i64),
            range: Some(tail as i64),
            age: Some(age as i64),
            ..fixed_columns()
        }
    } else if w >= NARROW_W && clears_speed(tail - 84_000) {
        Cols {
            trk: Some((tail - 84_000) as i64),
            vs: Some((tail - 40_000) as i64),
            sqk: Some(tail as i64),
            age: Some(age as i64),
            ..fixed_columns()
        }
    } else if clears_speed(tail) {
        Cols { trk: Some(tail as i64), age: Some(age as i64), ..fixed_columns() }
    } else if clears_speed(age) {
        Cols { age: Some(age as i64), ..fixed_columns() }
    } else {
        fixed_columns()
    }
}

/// Where each column sits, given the width available.
pub fn columns(w: i64, have_home: bool) -> (c: Cols)
    requires
        0 <= w <= 1_000_000_000_000,
    ensures
        c == columns_of(w as int, have_home),
{
    let age: i64 = w - 4_000;
    let tail: i64 = age - 34_000;
    let free: i64 = SPEED_X + COLUMN_GAP;
    let mut c = Cols {
        call: 5_000,
        icao: 62_000,
        alt: 158_000,
        spd: SPEED_X,
        trk: None,
        vs: None,
        sqk: None,
        range: None,
        age: None,
    };
    if age < free {
        return c;
    }
    c.age = Some(age);
    if w >= NARROW_W && have_home && tail - 124_000 >= free {
        c.range = Some(tail);
        c.sqk = Some(tail - 40_000);
        c.vs = Some(tail - 80_000);
        c.trk = Some(tail - 124_000);
    } else if w >= NARROW_W && tail - 84_000 >= free {
        c.sqk = Some(tail);
        c.vs = Some(tail - 40_000);
        c.trk = Some(tail - 84_000);
    } else if tail >= free {
        c.trk = Some(tail);
    }
    c
}

/// One column, where it is drawn.
pub open spec fn drawn_at(x: Option<i64>) -> Seq<i64> {
    match x {
        Some(v) => seq![v],
        None => Seq::empty(),
    }
}

/// The columns that are drawn, left to right.
pub open spec fn drawn(c: Cols) -> Seq<i64> {
    seq![c.call, c.icao, c.alt, c.spd] + drawn_at(c.trk) + drawn_at(c.vs) + drawn_at(c.sqk)
        + drawn_at(c.range) + drawn_at(c.age)
}

/// No two columns that are drawn come closer than their distance, at any
/// width. A table that has room for them all draws them all, and a narrow one
/// drops squawk, rate and range.
pub proof fn law_columns_never_overprint(w: int, have_home: bool)
    requires
        0 <= w <= 1_000_000_000_000,
    ensures
        forall|i: int, j: int|
            0 <= i < j < drawn(columns_of(w, have_home)).len() ==> #[trigger] drawn(
                columns_of(w, have_home),
            )[j] - #[trigger] drawn(columns_of(w, have_home))[i] >= COLUMN_GAP,
        w >= 386_000 ==> drawn(columns_of(w, have_home)).len() == if have_home {
            9int
        } else {
            8int
        },
        w < NARROW_W ==> columns_of(w, have_home).vs is None && columns_of(w, have_home).sqk is None
            && columns_of(w, have_home).range is None,
{
    let c = columns_of(w, have_home);
    let d = drawn(c);
    let head = seq![c.call, c.icao, c.alt, c.spd];
    let age = w - 4_000;
    let tail = age - 34_000;
    if c.range is Some {
        assert(d =~= head + seq![
            (tail - 124_000) as i64,
            (tail - 80_000) as i64,
            (tail - 40_000) as i64,
            tail as i64,
            age as i64,
        ]);
    } else if c.sqk is Some {
        assert(d =~= head + seq![
            (tail - 84_000) as i64,
            (tail - 40_000) as i64,
            tail as i64,
            age as i64,
        ]);
    } else if c.trk is Some {
        assert(d =~= head + seq![tail as i64, age as i64]);
    } else if c.age is Some {
        assert(d =~= head + seq![age as i64]);
    } else {
        assert(d =~= head);
    }
}

/// A counter as the header shows it: the figure itself, or thousands, or
/// millions with one decimal, or thousand millions, computed in double
/// precision. One that is too large even for those is shown in whole millions
/// of millions, or in thousands of them.
pub open spec fn count_text(n: nat) -> Seq<char> {
    if n < 10_000 {
        dec(n)
    } else if n < 995_000 {
        dec(through_double(n, 1_000, 1)).push('k')
    } else if n < 999_500_000 {
        let t = through_double(n, 1_000_000, 10);
        dec(t / 10) + seq!['.', digit(t % 10), 'M']
    } else if n < 99_999_500_000_000 {
        dec(through_double(n, 1_000_000_000, 1)).push('G')
    } else if n < 99_999_500_000_000_000 {
        dec(nearest_even(n, 1_000_000_000_000)).push('T')
    } else {
        dec(nearest_even(n, 1_000_000_000_000_000)).push('P')
    }
}

/// A counter, short enough for its slot.
pub fn count(n: u64) -> (t: String)
    ensures
        t@ == count_text(n as nat),
        t@.len() <= 6,
{
    proof {
        law_a_counter_fits_its_slot(n);
    }
    if n < 10_000 {
        decimal(n)
    } else if n < 995_000 {
        let mut t = decimal(rounded_through_double(n as u128, 1_000, 1) as u64);
        t.push('k');
        t
    } else if n < 999_500_000 {
        let v: u64 = rounded_through_double(n as u128, 1_000_000, 10) as u64;
        let mut t = decimal(v / 10);
        let ghost head = t@;
        t.push('.');
        t.push((48 + v % 10) as u8 as char);
        t.push('M');
        assert(t@ =~= head + seq!['.', digit((v % 10) as nat), 'M']);
        t
    } else if n < 99_999_500_000_000 {
        let mut t = decimal(rounded_through_double(n as u128, 1_000_000_000, 1) as u64);
        t.push('G');
        t
    } else if n < 99_999_500_000_000_000 {
        let mut t = decimal(round_even(n, 1_000_000_000_000));
        t.push('T');
        t
    } else {
        let mut t = decimal(round_even(n, 1_000_000_000_000_000));
        t.push('P');
        t
    }
}

/// No counter outgrows its slot of six characters.
pub proof fn law_a_counter_fits_its_slot(n: u64)
    ensures
        count_text(n as nat).len() <= 6,
{
    let n = n as nat;
    reveal_with_fuel(ten_to, 6);
    if n < 10_000 {
        lemma_dec_len(n, 4);
    } else if n < 995_000 {
        assert(2 * 1 * n + 1 <= (2 * 1_000 - 1) * 1_000) by (nonlinear_arith)
            requires
                n < 995_000,
        ;
        assert(1 * n < 0x10_0000_0000_0000) by (nonlinear_arith)
            requires
                n < 995_000,
        ;
        lemma_through_double_below(n, 1_000, 1, 1_000);
        lemma_dec_len(through_double(n, 1_000, 1), 3);
    } else if n < 999_500_000 {
        assert(2 * 10 * n + 1 <= (2 * 9_999 - 1) * 1_000_000) by (nonlinear_arith)
            requires
                n < 999_500_000,
        ;
        assert(10 * n < 0x10_0000_0000_0000) by (nonlinear_arith)
            requires
                n < 999_500_000,
        ;
        lemma_through_double_below(n, 1_000_000, 10, 9_999);
        lemma_dec_len(through_double(n, 1_000_000, 10) / 10, 3);
    } else if n < 99_999_500_000_000 {
        assert(2 * 1 * n + 1 <= (2 * 100_000 - 1) * 1_000_000_000) by (nonlinear_arith)
            requires
                n < 99_999_500_000_000,
        ;
        assert(1 * n < 0x10_0000_0000_0000) by (nonlinear_arith)
            requires
                n < 99_999_500_000_000,
        ;
        lemma_through_double_below(n, 1_000_000_000, 1, 100_000);
        lemma_dec_len(through_double(n, 1_000_000_000, 1), 5);
    } else if n < 99_999_500_000_000_000 {
        lemma_dec_len(nearest_even(n, 1_000_000_000_000), 5);
    } else {
        lemma_dec_len(nearest_even(n, 1_000_000_000_000_000), 5);
    }
}

/// How the decoder keeps its aircraft.
#[derive(Clone, Copy, PartialEq, Eq, Structural, Debug)]
pub struct AdsbConfig {
    /// Seconds without a position after which an aircraft leaves the map.
    pub drop_map_s: u16,
    /// Seconds of silence after which it leaves the list.
    pub drop_list_s: u16,
    /// Dots behind each target.
    pub history_points: u16,
    /// How far ahead the speed vectors reach, in tenths of a minute.
    pub vector_tenths: u16,
    pub max_aircraft: u16,
}

/// A change made in the setup window.
#[derive(Clone, Copy, PartialEq, Eq, Structural, Debug)]
pub enum AdsbEdit {
    DropMap(u16),
    DropList(u16),
    History(u16),
    Vector(u16),
    MaxAircraft(u16),
}

/// A figure held to its range.
pub open spec fn held(v: u16, lo: u16, hi: u16) -> u16 {
    if v < lo {
        lo
    } else if v > hi {
        hi
    } else {
        v
    }
}

fn hold(v: u16, lo: u16, hi: u16) -> (r: u16)
    ensures
        r == held(v, lo, hi),
{
    if v < lo {
        lo
    } else if v > hi {
        hi
    } else {
        v
    }
}

/// The settings after a change. An aircraft stays in the list for at least as
/// long as on the map: raising the one figure takes the other with it.
pub open spec fn adsb_edited(c: AdsbConfig, track_max: u16, e: AdsbEdit) -> AdsbConfig {
    match e {
        AdsbEdit::DropMap(v) => AdsbConfig {
            drop_map_s: held(v, 2, 600),
            drop_list_s: held(c.drop_list_s, held(v, 2, 600), 3600),
            ..c
        },
        AdsbEdit::DropList(v) => AdsbConfig { drop_list_s: held(v, c.drop_map_s, 3600), ..c },
        AdsbEdit::History(v) => AdsbConfig { history_points: held(v, 0, track_max), ..c },
        AdsbEdit::Vector(v) => AdsbConfig { vector_tenths: held(v, 0, 100), ..c },
        AdsbEdit::MaxAircraft(v) => AdsbConfig { max_aircraft: held(v, 10, 2000), ..c },
    }
}

/// Makes a change in the setup window, and sends the settings where they differ
/// from the ones in use.
pub fn edit_adsb(c: &mut AdsbConfig, track_max: u16, e: AdsbEdit) -> (send: Option<Command>)
    ensures
        *final(c) == adsb_edited(*old(c), track_max, e),
        send == if *final(c) != *old(c) {
            Some(Command::SetAdsbConfig(*final(c)))
        } else {
            None
        },
{
    let before: AdsbConfig = *c;
    match e {
        AdsbEdit::DropMap(v) => {
            c.drop_map_s = hold(v, 2, 600);
            c.drop_list_s = hold(c.drop_list_s, c.drop_map_s, 3600);
        },
        AdsbEdit::DropList(v) => {
            c.drop_list_s = hold(v, c.drop_map_s, 3600);
        },
        AdsbEdit::History(v) => {
            c.history_points = hold(v, 0, track_max);
        },
        AdsbEdit::Vector(v) => {
            c.vector_tenths = hold(v, 0, 100);
        },
        AdsbEdit::MaxAircraft(v) => {
            c.max_aircraft = hold(v, 10, 2000);
        },
    }
    if *c != before {
        Some(Command::SetAdsbConfig(*c))
    } else {
        None
    }
}

/// No change lets an aircraft leave the list before it leaves the map.
pub proof fn law_the_list_outlasts_the_map(c: AdsbConfig, track_max: u16, e: AdsbEdit)
    requires
        c.drop_map_s <= 600,
        c.drop_map_s <= c.drop_list_s <= 3600,
    ensures
        adsb_edited(c, track_max, e).drop_map_s <= 600,
        adsb_edited(c, track_max, e).drop_map_s <= adsb_edited(c, track_max, e).drop_list_s <= 3600,
{
}

/// What the card of one aircraft has to say, as it is written.
#[derive(Debug)]
pub struct CardFacts {
    pub altitude_ft: Option<i32>,
    pub gnss_altitude_ft: Option<i32>,
    pub ground_speed: Option<String>,
    pub track: Option<String>,
    pub turning: Option<String>,
    pub vertical_rate_fpm: Option<i32>,
    pub squawk: Option<String>,
    pub range: Option<String>,
    pub position: Option<String>,
    pub signal: String,
    pub frames: u64,
    pub source: String,
    pub first_heard: String,
}

/// One line of the card, where there is something to say.
pub open spec fn fact(label: Seq<char>, value: Option<Seq<char>>) -> Seq<(Seq<char>, Seq<char>)> {
    match value {
        Some(v) => seq![(label, v)],
        None => seq![],
    }
}

/// An optional figure with its unit.
pub open spec fn figure(v: Option<i32>, signed: bool, unit: Seq<char>) -> Option<Seq<char>> {
    match v {
        Some(n) => Some(
            (if signed {
                dec_signed(n as int)
            } else {
                dec_int(n as int)
            }) + unit,
        ),
        None => None,
    }
}

/// The lines of the card: label and value, in order.
pub open spec fn card_lines(f: CardFacts) -> Seq<(Seq<char>, Seq<char>)> {
    fact("altitude"@, figure(f.altitude_ft, false, " ft barometric"@)) + fact(
        "GNSS altitude"@,
        figure(f.gnss_altitude_ft, false, " ft"@),
    ) + fact("ground speed"@, opt_text(f.ground_speed)) + fact("track"@, opt_text(f.track)) + fact(
        "turning"@,
        opt_text(f.turning),
    ) + fact("vertical rate"@, figure(f.vertical_rate_fpm, true, " ft/min"@)) + fact(
        "squawk"@,
        opt_text(f.squawk),
    ) + fact("range"@, opt_text(f.range)) + fact("position"@, opt_text(f.position)) + seq![
        ("signal"@, f.signal@),
        ("frames"@, dec(f.frames as nat) + " ("@ + f.source@ + ")"@),
        ("first heard"@, f.first_heard@),
    ]
}

/// The labels and values of a list of lines.
pub open spec fn line_views(v: Seq<(&'static str, String)>) -> Seq<(Seq<char>, Seq<char>)> {
    Seq::new(v.len(), |i: int| (v[i].0@, v[i].1@))
}

fn put_fact(v: &mut Vec<(&'static str, String)>, label: &'static str, value: &Option<String>)
    ensures
        line_views(final(v)@) == line_views(old(v)@) + fact(label@, opt_text(*value)),
{
    if let Some(s) = value {
        v.push((label, s.clone()));
    }
    assert(line_views(v@) =~= line_views(old(v)@) + fact(label@, opt_text(*value)));
}

fn put_figure(
    v: &mut Vec<(&'static str, String)>,
    label: &'static str,
    value: Option<i32>,
    signed: bool,
    unit: &str,
)
    ensures
        line_views(final(v)@) == line_views(old(v)@) + fact(label@, figure(value, signed, unit@)),
{
    if let Some(n) = value {
        let mut t = if signed {
            decimal_signed(n as i64)
        } else {
            decimal_int(n as i64)
        };
        t.append(unit);
        v.push((label, t));
    }
    assert(line_views(v@) =~= line_views(old(v)@) + fact(label@, figure(value, signed, unit@)));
}

/// The lines of the card of one aircraft.
pub fn card_rows(f: &CardFacts) -> (v: Vec<(&'static str, String)>)
    ensures
        line_views(v@) == card_lines(*f),
{
    let mut v: Vec<(&'static str, String)> = Vec::new();
    assert(line_views(v@) =~= Seq::empty());
    put_figure(&mut v, "altitude", f.altitude_ft, false, " ft barometric");
    assert(line_views(v@) =~= fact("altitude"@, figure(f.altitude_ft, false, " ft barometric"@)));
    put_figure(&mut v, "GNSS altitude", f.gnss_altitude_ft, false, " ft");
    put_fact(&mut v, "ground speed", &f.ground_speed);
    put_fact(&mut v, "track", &f.track);
    put_fact(&mut v, "turning", &f.turning);
    put_figure(&mut v, "vertical rate", f.vertical_rate_fpm, true, " ft/min");
    put_fact(&mut v, "squawk", &f.squawk);
    put_fact(&mut v, "range", &f.range);
    put_fact(&mut v, "position", &f.position);
    let ghost head = line_views(v@);
    v.push(("signal", f.signal.clone()));
    let mut frames = decimal(f.frames);
    frames.append(" (");
    frames.append(f.source.as_str());
    frames.append(")");
    v.push(("frames", frames));
    v.push(("first heard", f.first_heard.clone()));
    assert(line_views(v@) =~= head + seq![
        ("signal"@, f.signal@),
        ("frames"@, dec(f.frames as nat) + " ("@ + f.source@ + ")"@),
        ("first heard"@, f.first_heard@),
    ]);
    v
}

/// The width of the list beside the map: a share of what there is, between 240
/// and 460 points.
pub fn list_width(full: u64) -> (w: u64)
    requires
        full < HEIGHT_END,
    ensures
        w == if full * 42 / 100 < 240_000 {
            240_000
        } else if full * 42 / 100 > 460_000 {
            460_000
        } else {
            full * 42 / 100
        },
{
    let w: u64 = full * 42 / 100;
    if w < 240_000 {
        240_000
    } else if w > 460_000 {
        460_000
    } else {
        w
    }
}

/// The height of the card under the list: none without one, else two fifths of
/// what there is, between 120 and 250 points.
pub open spec fn card_of(room: int, card: bool) -> int {
    if !card {
        0
    } else if room * 40 / 100 < 120_000 {
        120_000
    } else if room * 40 / 100 > 250_000 {
        250_000
    } else {
        room * 40 / 100
    }
}

/// The heights of the list and of the card under it. The list keeps 48 points.
pub fn list_and_card(room: u64, card: bool) -> (h: (u64, u64))
    requires
        room < HEIGHT_END,
    ensures
        h.1 == card_of(room as int, card),
        h.0 == if room - h.1 - 46_000 > 48_000 {
            room - h.1 - 46_000
        } else {
            48_000
        },
{
    let share: u64 = room * 40 / 100;
    let c: u64 = if !card {
        0
    } else if share < 120_000 {
        120_000
    } else if share > 250_000 {
        250_000
    } else {
        share
    };
    let list: u64 = if room > c + 94_000 {
        room - c - 46_000
    } else {
        48_000
    };
    (list, c)
}

/// The one channel of the downlink, in hertz.
pub const ADSB_FREQ_HZ: u64 = 1_090_000_000;

/// True when the receiver is on the channel: within 100 kHz of it, and able to
/// decode.
pub fn on_channel(dial_hz: u64, available: bool) -> (r: bool)
    ensures
        r == (available && -100_000 < dial_hz - ADSB_FREQ_HZ < 100_000),
{
    let apart: i128 = dial_hz as i128 - ADSB_FREQ_HZ as i128;
    available && -100_000 < apart && apart < 100_000
}

/// The frequency that the decoder suggests, offered while it cannot decode and
/// the dial is more than a hertz away from it.
pub fn suggested(dial_hz: u64, available: bool, suggestion: Option<u64>) -> (r: Option<u64>)
    ensures
        r == match suggestion {
            Some(hz) => if available || -1 <= dial_hz - hz <= 1 {
                None
            } else {
                Some(hz)
            },
            None => None,
        },
{
    match suggestion {
        Some(hz) => {
            let apart: i128 = dial_hz as i128 - hz as i128;
            if available || (-1 <= apart && apart <= 1) {
                None
            } else {
                Some(hz)
            }
        },
        None => None,
    }
}

/// A counter with what it counts.
pub fn counter_slot(n: u64, what: &str) -> (t: String)
    ensures
        t@ == count_text(n as nat) + " "@ + what@,
{
    let mut t = count(n);
    t.append(" ");
    t.append(what);
    t
}

/// One column's heading: where it sits, whether it ends there, and its text.
#[derive(Clone, Copy, Debug)]
pub struct Heading {
    pub x: i64,
    pub right: bool,
    pub text: &'static str,
}

/// A heading, where its column is drawn.
pub open spec fn heading(x: Option<i64>, text: Seq<char>) -> Seq<(i64, bool, Seq<char>)> {
    match x {
        Some(v) => seq![(v, true, text)],
        None => seq![],
    }
}

/// The headings of the columns that are drawn, left to right.
pub open spec fn headings_of(c: Cols) -> Seq<(i64, bool, Seq<char>)> {
    seq![(c.call, false, "CALL"@), (c.icao, false, "ICAO"@), (c.alt, true, "ALT"@), (
        c.spd,
        true,
        "GS"@,
    )] + heading(c.trk, "TRK"@) + heading(c.vs, "V/S"@) + heading(c.sqk, "SQK"@) + heading(
        c.range,
        "KM"@,
    ) + heading(c.age, "AGE"@)
}

/// What a list of headings holds.
pub open spec fn heading_views(v: Seq<Heading>) -> Seq<(i64, bool, Seq<char>)> {
    Seq::new(v.len(), |i: int| (v[i].x, v[i].right, v[i].text@))
}

fn put_heading(v: &mut Vec<Heading>, x: Option<i64>, text: &'static str)
    ensures
        heading_views(final(v)@) == heading_views(old(v)@) + heading(x, text@),
{
    if let Some(at) = x {
        v.push(Heading { x: at, right: true, text });
    }
    assert(heading_views(v@) =~= heading_views(old(v)@) + heading(x, text@));
}

/// The headings of the columns that are drawn.
pub fn headings(c: Cols) -> (v: Vec<Heading>)
    ensures
        heading_views(v@) == headings_of(c),
{
    let mut v: Vec<Heading> = Vec::new();
    v.push(Heading { x: c.call, right: false, text: "CALL" });
    v.push(Heading { x: c.icao, right: false, text: "ICAO" });
    v.push(Heading { x: c.alt, right: true, text: "ALT" });
    v.push(Heading { x: c.spd, right: true, text: "GS" });
    assert(heading_views(v@) =~= seq![
        (c.call, false, "CALL"@),
        (c.icao, false, "ICAO"@),
        (c.alt, true, "ALT"@),
        (c.spd, true, "GS"@),
    ]);
    put_heading(&mut v, c.trk, "TRK");
    put_heading(&mut v, c.vs, "V/S");
    put_heading(&mut v, c.sqk, "SQK");
    put_heading(&mut v, c.range, "KM");
    put_heading(&mut v, c.age, "AGE");
    v
}

/// Two rows of a sorted table stand in the order of its column: the latest heard,
/// the highest, the fastest, the strongest and the nearest at the top of a
/// descending one, the other way round in an ascending one; names by their
/// letters. Rows that tie stay as they came.
pub proof fn law_a_table_is_in_the_order_of_its_column(
    list: Seq<Aircraft>,
    by: AdsbSort,
    desc: bool,
    rows: Seq<usize>,
    order: Seq<usize>,
    out: Seq<usize>,
    i: int,
    j: int,
)
    requires
        is_sorted_by(list, by, desc, rows, order, out),
        0 <= i < j < out.len(),
    ensures
        ({
            let (a, b) = (list[out[i] as int], list[out[j] as int]);
            &&& by == AdsbSort::Heard && desc ==> a.last_at >= b.last_at
            &&& by == AdsbSort::Heard && !desc ==> a.last_at <= b.last_at
            &&& by == AdsbSort::Signal && desc ==> a.signal_rank >= b.signal_rank
            &&& by == AdsbSort::Signal && !desc ==> a.signal_rank <= b.signal_rank
            &&& by == AdsbSort::Altitude && b.altitude_ft is Some ==> a.altitude_ft is Some && (if desc {
                a.altitude_ft->0 >= b.altitude_ft->0
            } else {
                a.altitude_ft->0 <= b.altitude_ft->0
            })
            &&& by == AdsbSort::Speed && b.speed_rank is Some ==> a.speed_rank is Some && (if desc {
                a.speed_rank->0 >= b.speed_rank->0
            } else {
                a.speed_rank->0 <= b.speed_rank->0
            })
            &&& by == AdsbSort::Range && b.range_rank is Some ==> a.range_rank is Some && (if desc {
                a.range_rank->0 <= b.range_rank->0
            } else {
                a.range_rank->0 >= b.range_rank->0
            })
            &&& by == AdsbSort::Callsign && desc ==> !text_less(a.name(), b.name())
            &&& by == AdsbSort::Callsign && !desc ==> !text_less(b.name(), a.name())
        }),
{
    assert(out[i] == rows[order[i] as int] && out[j] == rows[order[j] as int]);
    assert(stands_ahead(list, by, desc, rows, order[i] as int, order[j] as int));
    let (a, b) = (list[out[i] as int], list[out[j] as int]);
    lemma_text_asymmetric(a.name(), b.name());
}

/// Sorting loses no row and adds none.
pub proof fn law_sorting_keeps_the_rows(
    list: Seq<Aircraft>,
    by: AdsbSort,
    desc: bool,
    rows: Seq<usize>,
    order: Seq<usize>,
    out: Seq<usize>,
    x: usize,
)
    requires
        rows.len() <= usize::MAX,
        is_sorted_by(list, by, desc, rows, order, out),
    ensures
        out.len() == rows.len(),
        out.contains(x) == rows.contains(x),
{
    if out.contains(x) {
        let k = choose|k: int| 0 <= k < out.len() && out[k] == x;
        assert(rows[order[k] as int] == x);
    }
    if rows.contains(x) {
        let k = choose|k: int| 0 <= k < rows.len() && rows[k] == x;
        assert(order.contains(k as usize));
        let n = choose|n: int| 0 <= n < order.len() && order[n] == k as usize;
        assert(out[n] == rows[order[n] as int]);
    }
}

/// An aircraft is listed exactly where the filter is blank, or where what was
/// typed, in upper case, is part of its callsign in upper case or of its address.
pub proof fn law_the_filter_decides(list: Seq<Aircraft>, filter: Seq<char>, n: nat, i: int)
    requires
        0 <= i < n <= list.len() <= usize::MAX,
    ensures
        filtered(list, filter, n).contains(i as usize) == (trim(filter).len() == 0 || has_part(
            ascii_upper(list[i].callsign@),
            ascii_upper(trim(filter)),
        ) || has_part(list[i].hex@, ascii_upper(trim(filter)))),
        forall|k: int|
            0 <= k < filtered(list, filter, n).len() ==> #[trigger] filtered(list, filter, n)[k] < n,
        forall|a: int, b: int|
            0 <= a < b < filtered(list, filter, n).len() ==> #[trigger] filtered(list, filter, n)[a]
                < #[trigger] filtered(list, filter, n)[b],
    decreases n,
{
    let all = filtered(list, filter, n);
    let rest = filtered(list, filter, (n - 1) as nat);
    if n > 1 {
        law_the_filter_decides(list, filter, (n - 1) as nat, if i < n - 1 {
            i
        } else {
            0
        });
    }
    if i < n - 1 {
        if rest.contains(i as usize) {
            let k = choose|k: int| 0 <= k < rest.len() && rest[k] == i as usize;
            assert(all[k] == i as usize);
        }
        if all.contains(i as usize) {
            let k = choose|k: int| 0 <= k < all.len() && all[k] == i as usize;
            assert(rest[k] == i as usize);
        }
    } else {
        if all.contains(i as usize) {
            let k = choose|k: int| 0 <= k < all.len() && all[k] == i as usize;
            if k < rest.len() {
                assert(rest[k] < n - 1);
            }
        }
        if all.len() > rest.len() {
            assert(all[rest.len() as int] == i as usize);
        }
    }
}

/// An aircraft goes by its callsign, and by its address until it has said one.
pub proof fn law_an_aircraft_goes_by_its_callsign(a: Aircraft)
    ensures
        a.callsign@.len() > 0 ==> a.name() == a.callsign@,
        a.callsign@.len() == 0 ==> a.name() == a.hex@,
{
}

/// A change in the setup window sets its own figure, held to its range, and
/// leaves the others; only a longer stay on the map takes the list with it.
pub proof fn law_a_change_sets_its_own_figure(c: AdsbConfig, track_max: u16, v: u16)
    ensures
        2 <= v <= 600 ==> adsb_edited(c, track_max, AdsbEdit::DropMap(v)).drop_map_s == v,
        v < 2 ==> adsb_edited(c, track_max, AdsbEdit::DropMap(v)).drop_map_s == 2,
        v > 600 ==> adsb_edited(c, track_max, AdsbEdit::DropMap(v)).drop_map_s == 600,
        2 <= v <= 600 && v <= c.drop_list_s <= 3600 ==> adsb_edited(
            c,
            track_max,
            AdsbEdit::DropMap(v),
        ) == (AdsbConfig { drop_map_s: v, ..c }),
        2 <= v <= 600 && c.drop_list_s < v ==> adsb_edited(c, track_max, AdsbEdit::DropMap(v)) == (
        AdsbConfig { drop_map_s: v, drop_list_s: v, ..c }),
        c.drop_map_s <= v <= 3600 ==> adsb_edited(c, track_max, AdsbEdit::DropList(v)) == (
        AdsbConfig { drop_list_s: v, ..c }),
        v <= track_max ==> adsb_edited(c, track_max, AdsbEdit::History(v)) == (AdsbConfig {
            history_points: v,
            ..c
        }),
        v > track_max ==> adsb_edited(c, track_max, AdsbEdit::History(v)).history_points == track_max,
        v <= 100 ==> adsb_edited(c, track_max, AdsbEdit::Vector(v)) == (AdsbConfig {
            vector_tenths: v,
            ..c
        }),
        10 <= v <= 2000 ==> adsb_edited(c, track_max, AdsbEdit::MaxAircraft(v)) == (AdsbConfig {
            max_aircraft: v,
            ..c
        }),
        v < 10 ==> adsb_edited(c, track_max, AdsbEdit::MaxAircraft(v)).max_aircraft == 10,
        v > 2000 ==> adsb_edited(c, track_max, AdsbEdit::MaxAircraft(v)).max_aircraft == 2000,
{
}

/// The card of an aircraft of which everything is known has a line for each
/// fact, with that fact's own value, in the order of the card.
pub proof fn law_a_full_card_has_every_line(f: CardFacts)
    requires
        f.altitude_ft is Some && f.gnss_altitude_ft is Some && f.ground_speed is Some
            && f.track is Some && f.turning is Some && f.vertical_rate_fpm is Some
            && f.squawk is Some && f.range is Some && f.position is Some,
    ensures
        card_lines(f).len() == 12,
        card_lines(f)[0] == ("altitude"@, dec_int(f.altitude_ft->0 as int) + " ft barometric"@),
        card_lines(f)[1] == ("GNSS altitude"@, dec_int(f.gnss_altitude_ft->0 as int) + " ft"@),
        card_lines(f)[2] == ("ground speed"@, f.ground_speed->0@),
        card_lines(f)[3] == ("track"@, f.track->0@),
        card_lines(f)[4] == ("turning"@, f.turning->0@),
        card_lines(f)[5] == (
            "vertical rate"@,
            dec_signed(f.vertical_rate_fpm->0 as int) + " ft/min"@,
        ),
        card_lines(f)[6] == ("squawk"@, f.squawk->0@),
        card_lines(f)[7] == ("range"@, f.range->0@),
        card_lines(f)[8] == ("position"@, f.position->0@),
        card_lines(f)[9] == ("signal"@, f.signal@),
        card_lines(f)[10] == ("frames"@, dec(f.frames as nat) + " ("@ + f.source@ + ")"@),
        card_lines(f)[11] == ("first heard"@, f.first_heard@),
{
}

/// The card of an aircraft of which nothing is known beside its frames has three
/// lines.
pub proof fn law_a_bare_card_has_three_lines(f: CardFacts)
    requires
        f.altitude_ft is None && f.gnss_altitude_ft is None && f.ground_speed is None
            && f.track is None && f.turning is None && f.vertical_rate_fpm is None
            && f.squawk is None && f.range is None && f.position is None,
    ensures
        card_lines(f).len() == 3,
        card_lines(f)[0] == ("signal"@, f.signal@),
        card_lines(f)[2] == ("first heard"@, f.first_heard@),
{
}

proof fn lemma_one_of_four(
    a: (i64, bool, Seq<char>),
    b: (i64, bool, Seq<char>),
    c: (i64, bool, Seq<char>),
    d: (i64, bool, Seq<char>),
    e: (i64, bool, Seq<char>),
)
    ensures
        seq![a, b, c, d].contains(e) <==> e == a || e == b || e == c || e == d,
{
    let s = seq![a, b, c, d];
    assert(s[0] == a && s[1] == b && s[2] == c && s[3] == d);
}

proof fn lemma_heading_joins(
    before: Seq<(i64, bool, Seq<char>)>,
    x: Option<i64>,
    text: Seq<char>,
    e: (i64, bool, Seq<char>),
)
    ensures
        (before + heading(x, text)).contains(e) <==> before.contains(e) || (x == Some(e.0) && e.1
            && e.2 == text),
{
    let all = before + heading(x, text);
    if before.contains(e) {
        let k: int = choose|k: int| 0 <= k < before.len() && before[k] == e;
        assert(all[k] == e);
    }
    if x == Some(e.0) && e.1 && e.2 == text {
        assert(all[before.len() as int] == e);
    }
    if all.contains(e) {
        let k: int = choose|k: int| 0 <= k < all.len() && all[k] == e;
        if k < before.len() {
            assert(before[k] == e);
        } else {
            assert(heading(x, text)[k - before.len()] == e);
        }
    }
}

/// Each column that is drawn has its own heading over it, at its own place: call
/// and address are set flush left, the figures flush right. A column that is not
/// drawn has none.
#[verifier::rlimit(40)]
pub proof fn law_a_heading_stands_over_its_column(c: Cols, x: i64, right: bool, text: Seq<char>)
    ensures
        headings_of(c).contains((x, right, text)) <==> {
            ||| !right && x == c.call && text == "CALL"@
            ||| !right && x == c.icao && text == "ICAO"@
            ||| right && x == c.alt && text == "ALT"@
            ||| right && x == c.spd && text == "GS"@
            ||| right && c.trk == Some(x) && text == "TRK"@
            ||| right && c.vs == Some(x) && text == "V/S"@
            ||| right && c.sqk == Some(x) && text == "SQK"@
            ||| right && c.range == Some(x) && text == "KM"@
            ||| right && c.age == Some(x) && text == "AGE"@
        },
{
    let e = (x, right, text);
    let (a0, a1) = ((c.call, false, "CALL"@), (c.icao, false, "ICAO"@));
    let (a2, a3) = ((c.alt, true, "ALT"@), (c.spd, true, "GS"@));
    let s0 = seq![a0, a1, a2, a3];
    lemma_one_of_four(a0, a1, a2, a3, e);
    let s1 = s0 + heading(c.trk, "TRK"@);
    let s2 = s1 + heading(c.vs, "V/S"@);
    let s3 = s2 + heading(c.sqk, "SQK"@);
    let s4 = s3 + heading(c.range, "KM"@);
    lemma_heading_joins(s0, c.trk, "TRK"@, e);
    lemma_heading_joins(s1, c.vs, "V/S"@, e);
    lemma_heading_joins(s2, c.sqk, "SQK"@, e);
    lemma_heading_joins(s3, c.range, "KM"@, e);
    lemma_heading_joins(s4, c.age, "AGE"@, e);
}

/// The card under the list has two fifths of the height, within its bounds, and
/// none where no card is open.
pub proof fn law_a_card_has_two_fifths(room: int)
    requires
        0 <= room,
    ensures
        card_of(room, false) == 0,
        300_000 <= room <= 625_000 ==> 5 * card_of(room, true) <= 2 * room < 5 * (card_of(room, true)
            + 1),
        room <= 300_000 ==> card_of(room, true) == 120_000,
        room >= 625_000 ==> card_of(room, true) == 250_000,
{
}

/// The columns stand from the right edge inward: age, then range, squawk, rate and
/// track, as far as they are drawn. The first four always have the same place.
pub proof fn law_columns_stand_from_the_right(w: int, have_home: bool)
    requires
        0 <= w <= 1_000_000_000_000,
    ensures
        ({
            let c = columns_of(w, have_home);
            &&& c.call == 5_000 && c.icao == 62_000 && c.alt == 158_000 && c.spd == SPEED_X
            &&& c.age matches Some(x) ==> x == w - 4_000
            &&& c.range matches Some(x) ==> x == w - 38_000 && have_home
            &&& c.range is Some ==> c.sqk == Some((w - 78_000) as i64) && c.vs == Some(
                (w - 118_000) as i64,
            ) && c.trk == Some((w - 162_000) as i64)
            &&& c.range is None && c.sqk is Some ==> c.sqk == Some((w - 38_000) as i64) && c.vs
                == Some((w - 78_000) as i64) && c.trk == Some((w - 122_000) as i64)
            &&& c.sqk is None && c.trk is Some ==> c.trk == Some((w - 38_000) as i64)
            &&& c.sqk is Some <==> c.vs is Some
            &&& c.trk is Some ==> c.age is Some
            &&& c.sqk is Some ==> c.trk is Some
            &&& c.age is None <==> w - 4_000 - SPEED_X < COLUMN_GAP
        }),
{
}

} // verus!
