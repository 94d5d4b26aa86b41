//! The map of aircraft: which one the pointer is on, what a click selects, and
//! how each is drawn.

use vstd::prelude::*;

use crate::adsb::Aircraft;
use crate::figure::floor_div;
use crate::text::{dec_int, dec_signed, decimal_int, decimal_signed};

verus! {

/// More targets than this, and only the chosen ones carry a data block.
pub const LABEL_LIMIT: usize = 25;

/// What the map shows, in millionths of a degree.
#[derive(Clone, Copy, PartialEq, Eq, Structural, Debug)]
pub struct MapView {
    pub clat: i64,
    pub clon: i64,
    pub lon_span: i64,
    /// The view has been placed once.
    pub initialized: bool,
    /// The operator moved it, so it stays where it is.
    pub manual: bool,
}

/// The map's own state, which outlives a frame.
#[derive(Clone, Copy, PartialEq, Eq, Structural, Debug)]
pub struct AdsbMapState {
    pub view: MapView,
    /// The aircraft whose card is open, by its address.
    pub selected: Option<u32>,
}

impl Default for AdsbMapState {
    fn default() -> (s: AdsbMapState)
        ensures
            s.selected is None,
            s.view == (MapView { clat: 0, clon: 0, lon_span: 0, initialized: false, manual: false }),
    {
        AdsbMapState {
            view: MapView { clat: 0, clon: 0, lon_span: 0, initialized: false, manual: false },
            selected: None,
        }
    }
}

/// What a frame does with the view.
#[derive(Clone, Copy, PartialEq, Eq, Structural, Debug)]
pub enum ViewStep {
    /// It was put where the targets are.
    Placed,
    /// It stays where the operator put it.
    Held,
    /// It eases toward the targets.
    Eases,
}

impl AdsbMapState {
    /// One frame of the view: the first puts it where the targets are, and
    /// from then on it follows them unless the operator moved it.
    pub fn view_step(&mut self, clat: i64, clon: i64, lon_span: i64) -> (s: ViewStep)
        ensures
            final(self).selected == old(self).selected,
            s == if !old(self).view.initialized {
                ViewStep::Placed
            } else if old(self).view.manual {
                ViewStep::Held
            } else {
                ViewStep::Eases
            },
            final(self).view == if s == ViewStep::Placed {
                MapView { clat, clon, lon_span, initialized: true, ..old(self).view }
            } else {
                old(self).view
            },
    {
        if !self.view.initialized {
            self.view.clat = clat;
            self.view.clon = clon;
            self.view.lon_span = lon_span;
            self.view.initialized = true;
            ViewStep::Placed
        } else if self.view.manual {
            ViewStep::Held
        } else {
            ViewStep::Eases
        }
    }

    /// A click on the map: on a target it opens that one's card, beside every
    /// target it closes the card. Returns the aircraft that was clicked.
    pub fn click(&mut self, hover: Option<u32>, clicked: bool) -> (r: Option<u32>)
        ensures
            final(self).view == old(self).view,
            final(self).selected == if clicked {
                hover
            } else {
                old(self).selected
            },
            r == if clicked {
                hover
            } else {
                None
            },
    {
        if clicked {
            self.selected = hover;
            hover
        } else {
            None
        }
    }
}

/// The places of the first `upto` aircraft with a position fresh enough to
/// draw.
pub open spec fn live_places(list: Seq<Aircraft>, upto: nat) -> Seq<usize>
    decreases upto,
{
    if upto == 0 {
        Seq::empty()
    } else if list[upto - 1].stale {
        live_places(list, (upto - 1) as nat)
    } else {
        live_places(list, (upto - 1) as nat).push((upto - 1) as usize)
    }
}

/// The aircraft that are drawn, as places in the list.
pub fn live(list: &Vec<Aircraft>) -> (v: Vec<usize>)
    ensures
        v@ == live_places(list@, list@.len()),
{
    let mut v: Vec<usize> = Vec::new();
    let mut i: usize = 0;
    while i < list.len()
        invariant
            i <= list@.len(),
            v@ == live_places(list@, i as nat),
        decreases list@.len() - i,
    {
        if !list[i].stale {
            v.push(i);
        }
        i = i + 1;
    }
    v
}

/// True when `i` is the target nearest the pointer, no farther than `reach`.
/// Of several equally near the last one counts.
pub open spec fn is_nearest(dist: Seq<Option<u64>>, reach: u64, i: int) -> bool {
    &&& 0 <= i < dist.len()
    &&& dist[i] is Some && dist[i]->0 <= reach
    &&& forall|j: int|
        0 <= j < dist.len() && (#[trigger] dist[j]) is Some ==> dist[i]->0 <= dist[j]->0 && (j > i
            ==> dist[i]->0 < dist[j]->0)
}

/// The target that the pointer is on, given each one's distance from it;
/// `None` for one that is not on the map.
pub fn hovered(dist: &Vec<Option<u64>>, reach: u64) -> (r: Option<usize>)
    ensures
        match r {
            Some(i) => is_nearest(dist@, reach, i as int),
            None => forall|j: int|
                0 <= j < dist@.len() ==> ((#[trigger] dist@[j]) matches Some(d) ==> d > reach),
        },
{
    let mut best: Option<usize> = None;
    let mut limit: u64 = reach;
    let mut i: usize = 0;
    while i < dist.len()
        invariant
            i <= dist@.len(),
            limit <= reach,
            match best {
                Some(b) => {
                    &&& b < i
                    &&& dist@[b as int] == Some(limit)
                    &&& forall|j: int|
                        0 <= j < i ==> ((#[trigger] dist@[j]) matches Some(d) ==> limit <= d && (j
                            > b ==> limit < d))
                },
                None => limit == reach && forall|j: int|
                    0 <= j < i ==> ((#[trigger] dist@[j]) matches Some(d) ==> d > reach),
            },
        decreases dist@.len() - i,
    {
        if let Some(d) = dist[i] {
            if d <= limit {
                limit = d;
                best = Some(i);
            }
        }
        i = i + 1;
    }
    best
}

/// What a target is drawn in.
#[derive(Clone, Copy, PartialEq, Eq, Structural, Debug)]
pub enum Tint {
    /// The ink of what matters most.
    Dx,
    Hover,
    Station,
}

/// How a target is drawn: an emergency and the selected one stand out, then
/// the one under the pointer.
pub fn tint(emergency: bool, selected: bool, top: bool) -> (t: Tint)
    ensures
        t == if emergency || selected {
            Tint::Dx
        } else if top {
            Tint::Hover
        } else {
            Tint::Station
        },
{
    if emergency {
        Tint::Dx
    } else if selected {
        Tint::Dx
    } else if top {
        Tint::Hover
    } else {
        Tint::Station
    }
}

/// True when a target carries its data block: every one while few are on
/// screen, else the one under the pointer and the selected one.
pub fn labelled(on_screen: usize, selected: bool, top: bool) -> (r: bool)
    ensures
        r == (on_screen <= LABEL_LIMIT || selected || top),
{
    on_screen <= LABEL_LIMIT || top || selected
}

/// The order in which the targets are drawn: the one under the pointer last,
/// so that it lies on top.
pub open spec fn draw_places(n: nat, hover: Option<usize>) -> Seq<usize> {
    let rest = all_but(n, hover);
    match hover {
        Some(i) => rest.push(i),
        None => rest,
    }
}

/// The numbers below `n` in order, without one of them.
pub open spec fn all_but(n: nat, hole: Option<usize>) -> Seq<usize>
    decreases n,
{
    if n == 0 {
        Seq::empty()
    } else if hole == Some((n - 1) as usize) {
        all_but((n - 1) as nat, hole)
    } else {
        all_but((n - 1) as nat, hole).push((n - 1) as usize)
    }
}

/// The order in which the targets are drawn.
pub fn draw_order(n: usize, hover: Option<usize>) -> (v: Vec<usize>)
    ensures
        v@ == draw_places(n as nat, hover),
{
    let mut v: Vec<usize> = Vec::new();
    let mut i: usize = 0;
    while i < n
        invariant
            i <= n,
            v@ == all_but(i as nat, hover),
        decreases n - i,
    {
        let skip = match hover {
            Some(h) => h == i,
            None => false,
        };
        if !skip {
            v.push(i);
        }
        i = i + 1;
    }
    if let Some(h) = hover {
        v.push(h);
    }
    v
}

/// Every target is drawn, and the one under the pointer after all others.
pub proof fn law_every_target_is_drawn(n: nat, hover: Option<usize>, i: usize)
    requires
        i < n <= usize::MAX,
        hover matches Some(h) ==> h < n,
    ensures
        draw_places(n, hover).contains(i),
        draw_places(n, hover).len() == n,
        hover matches Some(h) ==> draw_places(n, hover).last() == h,
{
    lemma_all_but(n, hover, i);
    let rest = all_but(n, hover);
    let all = draw_places(n, hover);
    if hover != Some(i) {
        let k = choose|k: int| 0 <= k < rest.len() && rest[k] == i;
        assert(all[k] == i);
    } else {
        assert(all[rest.len() as int] == i);
    }
}

proof fn lemma_all_but(n: nat, hole: Option<usize>, i: usize)
    requires
        n <= usize::MAX,
    ensures
        i < n && hole != Some(i) ==> all_but(n, hole).contains(i),
        all_but(n, hole).len() == n - (if hole is Some && hole->0 < n {
            1int
        } else {
            0int
        }),
    decreases n,
{
    if n > 0 {
        lemma_all_but((n - 1) as nat, hole, i);
        let rest = all_but((n - 1) as nat, hole);
        let all = all_but(n, hole);
        if i < n && hole != Some(i) {
            if i == n - 1 {
                assert(all[rest.len() as int] == i);
            } else {
                let k = choose|k: int| 0 <= k < rest.len() && rest[k] == i;
                assert(all[k] == i);
            }
        }
    }
}

/// The text at the pointer, with the speed and the range as they are written.
pub open spec fn tip_text(a: Aircraft, speed: Seq<char>, range: Option<Seq<char>>) -> Seq<char> {
    a.name() + (if a.callsign@.len() > 0 {
        "  "@ + a.hex@
    } else {
        Seq::empty()
    }) + (match a.category {
        Some(c) => "\n"@ + c@,
        None => Seq::empty(),
    }) + ("\n"@ + dec_int(
        match a.altitude_ft {
            Some(v) => v as int,
            None => 0,
        },
    ) + " ft   "@ + speed + " kt"@) + (match a.vertical_rate_fpm {
        Some(v) => if v > 100 || v < -100 {
            "\n"@ + dec_signed(v as int) + " ft/min"@
        } else {
            Seq::empty()
        },
        None => Seq::empty(),
    }) + (match range {
        Some(r) => "\n"@ + r,
        None => Seq::empty(),
    }) + (match a.emergency {
        Some(e) => "\n"@ + e@,
        None => Seq::empty(),
    })
}

fn append_line(t: &mut String, s: &str)
    ensures
        final(t)@ == old(t)@ + ("\n"@ + s@),
{
    t.append("\n");
    t.append(s);
    assert(t@ =~= old(t)@ + ("\n"@ + s@));
}

/// The text at the pointer.
pub fn tip(a: &Aircraft, speed: &str, range: Option<&str>) -> (t: String)
    ensures
        t@ == tip_text(
            *a,
            speed@,
            match range {
                Some(r) => Some(r@),
                None => None,
            },
        ),
{
    let mut t = a.label().to_owned();
    let ghost p0 = t@;
    if !a.callsign.as_str().is_empty() {
        t.append("  ");
        t.append(a.hex.as_str());
        assert(t@ =~= p0 + ("  "@ + a.hex@));
    } else {
        assert(t@ =~= p0 + Seq::empty());
    }
    let ghost p1 = t@;
    if let Some(c) = &a.category {
        append_line(&mut t, c.as_str());
    } else {
        assert(t@ =~= p1 + Seq::empty());
    }
    let ghost p2 = t@;
    let alt: i64 = match a.altitude_ft {
        Some(v) => v as i64,
        None => 0,
    };
    t.append("\n");
    t.append(decimal_int(alt).as_str());
    t.append(" ft   ");
    t.append(speed);
    t.append(" kt");
    assert(t@ =~= p2 + ("\n"@ + dec_int(alt as int) + " ft   "@ + speed@ + " kt"@));
    let ghost p3 = t@;
    let rate: i64 = match a.vertical_rate_fpm {
        Some(v) => v as i64,
        None => 0,
    };
    if rate > 100 || rate < -100 {
        t.append("\n");
        t.append(decimal_signed(rate).as_str());
        t.append(" ft/min");
        assert(t@ =~= p3 + ("\n"@ + dec_signed(rate as int) + " ft/min"@));
    } else {
        assert(t@ =~= p3 + Seq::empty());
    }
    let ghost p4 = t@;
    if let Some(r) = range {
        append_line(&mut t, r);
    } else {
        assert(t@ =~= p4 + Seq::empty());
    }
    let ghost p5 = t@;
    if let Some(e) = &a.emergency {
        append_line(&mut t, e.as_str());
    } else {
        assert(t@ =~= p5 + Seq::empty());
    }
    t
}

/// A place, in millionths of a degree.
#[derive(Clone, Copy, PartialEq, Eq, Structural, Debug)]
pub struct Pos {
    pub lat: i64,
    pub lon: i64,
}

/// What a view shows: its centre, and the degrees of longitude across it.
#[derive(Clone, Copy, PartialEq, Eq, Structural, Debug)]
pub struct Framing {
    pub clat: i64,
    pub clon: i64,
    pub lon_span: i64,
}

/// A half turn, and a whole one.
pub const HALF_TURN: i64 = 180_000_000;

pub const TURN: i64 = 360_000_000;

/// The narrowest view that is framed. Aircraft are far apart, and one overhead
/// must not blow the map up to street level.
pub const MIN_LON_SPAN: i64 = 500_000;

/// True of a place that the earth has.
pub open spec fn on_earth(p: Pos) -> bool {
    -90_000_000 <= p.lat <= 90_000_000 && -HALF_TURN <= p.lon <= HALF_TURN
}

/// An angle brought to at least minus a half turn and below a half turn.
pub open spec fn wrapped(d: int) -> int {
    (d + HALF_TURN) % TURN as int - HALF_TURN
}

fn wrap(d: i64) -> (r: i64)
    requires
        -4_000_000_000 <= d <= 4_000_000_000,
    ensures
        r == wrapped(d as int),
        -HALF_TURN <= r < HALF_TURN,
{
    let v: i64 = d + HALF_TURN + 20 * TURN;
    assert(v % 360_000_000 == (d + 180_000_000int) % 360_000_000);
    v % TURN - HALF_TURN
}

/// The sum of the latitudes of the first `n` places.
pub open spec fn lat_sum(pts: Seq<Pos>, n: nat) -> int
    decreases n,
{
    if n == 0 {
        0
    } else {
        lat_sum(pts, (n - 1) as nat) + pts[n - 1].lat
    }
}

/// The sum of how far east of `from` the first `n` places are.
pub open spec fn lon_sum(pts: Seq<Pos>, from: int, n: nat) -> int
    decreases n,
{
    if n == 0 {
        0
    } else {
        lon_sum(pts, from, (n - 1) as nat) + wrapped(pts[n - 1].lon - from)
    }
}

/// What a view is centred on: the station, or the middle of the places.
pub open spec fn middle(home: Option<Pos>, pts: Seq<Pos>) -> (int, int) {
    match home {
        Some(h) => (h.lat as int, h.lon as int),
        None => (
            lat_sum(pts, pts.len()) / pts.len() as int,
            wrapped(pts[0].lon + lon_sum(pts, pts[0].lon as int, pts.len()) / pts.len() as int),
        ),
    }
}

/// The size of a number.
pub open spec fn size_of(n: int) -> int {
    if n < 0 {
        -n
    } else {
        n
    }
}

/// How far north or south of `clat` the farthest of the first `n` places is.
pub open spec fn far_lat(pts: Seq<Pos>, clat: int, n: nat) -> int
    decreases n,
{
    if n == 0 {
        0
    } else {
        let m = far_lat(pts, clat, (n - 1) as nat);
        let d = size_of(pts[n - 1].lat - clat);
        if d > m {
            d
        } else {
            m
        }
    }
}

/// How far east or west of `clon` the farthest of the first `n` places is.
pub open spec fn far_lon(pts: Seq<Pos>, clon: int, n: nat) -> int
    decreases n,
{
    if n == 0 {
        0
    } else {
        let m = far_lon(pts, clon, (n - 1) as nat);
        let d = size_of(wrapped(pts[n - 1].lon - clon));
        if d > m {
            d
        } else {
            m
        }
    }
}

/// The width of a view that shows what is `dlat` and `dlon` from its centre,
/// with a quarter to spare, on a map that is `aspect` millionths as high as
/// wide.
pub open spec fn span_for(dlat: int, dlon: int, aspect: int) -> int {
    let across = 5 * dlon / 2;
    let up = 5 * dlat / 2 * 1_000_000 / (if aspect < 1_000 {
        1_000
    } else {
        aspect
    });
    let need = if across > up {
        across
    } else {
        up
    };
    if need < MIN_LON_SPAN {
        MIN_LON_SPAN as int
    } else if need > TURN {
        TURN as int
    } else {
        need
    }
}

/// A latitude at which a view of this height stays on the map.
pub open spec fn centred(clat: int, lon_span: int, aspect: int) -> int {
    let high = lon_span * aspect / 1_000_000;
    if high >= HALF_TURN {
        0
    } else if clat < -90_000_000 + high / 2 {
        -90_000_000 + high / 2
    } else if clat > 90_000_000 - high / 2 {
        90_000_000 - high / 2
    } else {
        clat
    }
}

/// The view that frames every target and the station; the whole world where
/// there is neither.
pub open spec fn framing_of(home: Option<Pos>, pts: Seq<Pos>, aspect: int) -> Framing {
    if home is None && pts.len() == 0 {
        Framing { clat: 20_000_000, clon: 0, lon_span: TURN }
    } else {
        let (clat, clon) = middle(home, pts);
        let span = span_for(
            far_lat(pts, clat, pts.len()),
            far_lon(pts, clon, pts.len()),
            aspect,
        );
        Framing {
            clat: centred(clat, span, aspect) as i64,
            clon: clon as i64,
            lon_span: span as i64,
        }
    }
}

proof fn lemma_mean(sum: int, n: int, bound: int)
    requires
        n >= 1,
        -bound * n <= sum <= bound * n,
    ensures
        -bound <= sum / n <= bound,
{
    assert(-bound <= sum / n <= bound) by (nonlinear_arith)
        requires
            n >= 1,
            -bound * n <= sum <= bound * n,
    ;
}

fn mean_of(pts: &Vec<Pos>) -> (r: (i64, i64))
    requires
        1 <= pts@.len(),
        forall|i: int| 0 <= i < pts@.len() ==> on_earth(#[trigger] pts@[i]),
    ensures
        (r.0 as int, r.1 as int) == middle(None, pts@),
        -90_000_000 <= r.0 <= 90_000_000,
        -HALF_TURN <= r.1 <= HALF_TURN,
{
    let from: i64 = pts[0].lon;
    assert(on_earth(pts@[0]));
    let mut lat: i128 = 0;
    let mut lon: i128 = 0;
    let mut i: usize = 0;
    while i < pts.len()
        invariant
            i <= pts@.len(),
            -HALF_TURN <= from <= HALF_TURN,
            forall|i: int| 0 <= i < pts@.len() ==> on_earth(#[trigger] pts@[i]),
            lat == lat_sum(pts@, i as nat),
            lon == lon_sum(pts@, from as int, i as nat),
            -90_000_000 * i <= lat <= 90_000_000 * i,
            -180_000_000 * i <= lon <= 180_000_000 * i,
        decreases pts@.len() - i,
    {
        assert(on_earth(pts@[i as int]));
        lat = lat + pts[i].lat as i128;
        lon = lon + wrap(pts[i].lon - from) as i128;
        i = i + 1;
    }
    let n: i128 = pts.len() as i128;
    proof {
        lemma_mean(lat as int, n as int, 90_000_000);
        lemma_mean(lon as int, n as int, 180_000_000);
    }
    (floor_div(lat, n) as i64, wrap(from + floor_div(lon, n) as i64))
}

/// The view that frames every target and the station.
pub fn target_view(home: Option<Pos>, pts: &Vec<Pos>, aspect: u32) -> (f: Framing)
    requires
        forall|i: int| 0 <= i < pts@.len() ==> on_earth(#[trigger] pts@[i]),
        home matches Some(h) ==> on_earth(h),
    ensures
        f == framing_of(home, pts@, aspect as int),
{
    let (clat, clon): (i64, i64) = match home {
        Some(h) => (h.lat, h.lon),
        None => {
            if pts.len() == 0 {
                return Framing { clat: 20_000_000, clon: 0, lon_span: TURN };
            }
            mean_of(pts)
        },
    };
    let mut dlat: i64 = 0;
    let mut dlon: i64 = 0;
    let mut i: usize = 0;
    while i < pts.len()
        invariant
            i <= pts@.len(),
            -90_000_000 <= clat <= 90_000_000,
            -HALF_TURN <= clon <= HALF_TURN,
            forall|i: int| 0 <= i < pts@.len() ==> on_earth(#[trigger] pts@[i]),
            dlat == far_lat(pts@, clat as int, i as nat),
            dlon == far_lon(pts@, clon as int, i as nat),
            0 <= dlat <= 180_000_000,
            0 <= dlon <= 180_000_000,
        decreases pts@.len() - i,
    {
        assert(on_earth(pts@[i as int]));
        let north: i64 = pts[i].lat - clat;
        let a: i64 = if north < 0 {
            -north
        } else {
            north
        };
        let east: i64 = wrap(pts[i].lon - clon);
        let b: i64 = if east < 0 {
            -east
        } else {
            east
        };
        if a > dlat {
            dlat = a;
        }
        if b > dlon {
            dlon = b;
        }
        i = i + 1;
    }
    let tall: i64 = if aspect < 1_000 {
        1_000
    } else {
        aspect as i64
    };
    let across: i64 = 5 * dlon / 2;
    let up: i64 = 5 * dlat / 2 * 1_000_000 / tall;
    let need: i64 = if across > up {
        across
    } else {
        up
    };
    let span: i64 = if need < MIN_LON_SPAN {
        MIN_LON_SPAN
    } else if need > TURN {
        TURN
    } else {
        need
    };
    proof {
        assert(0 <= span * aspect <= 360_000_000 * 0x1_0000_0000) by (nonlinear_arith)
            requires
                0 <= span <= 360_000_000,
                0 <= aspect <= 0x1_0000_0000,
        ;
    }
    let high: i64 = span * aspect as i64 / 1_000_000;
    let lat: i64 = if high >= HALF_TURN {
        0
    } else if clat < -90_000_000 + high / 2 {
        -90_000_000 + high / 2
    } else if clat > 90_000_000 - high / 2 {
        90_000_000 - high / 2
    } else {
        clat
    };
    Framing { clat: lat, clon, lon_span: span }
}

proof fn lemma_lat_sum(pts: Seq<Pos>, n: nat)
    requires
        n <= pts.len(),
        forall|i: int| 0 <= i < pts.len() ==> on_earth(#[trigger] pts[i]),
    ensures
        -90_000_000 * n <= lat_sum(pts, n) <= 90_000_000 * n,
    decreases n,
{
    if n > 0 {
        lemma_lat_sum(pts, (n - 1) as nat);
        assert(on_earth(pts[n - 1]));
    }
}

/// A framed view is never tighter than its floor nor wider than the world, it
/// shows the whole world where there is nothing to frame, and its centre lies
/// on the earth.
pub proof fn law_framing_has_a_floor(home: Option<Pos>, pts: Seq<Pos>, aspect: int)
    requires
        0 <= aspect,
        home matches Some(h) ==> on_earth(h),
        forall|i: int| 0 <= i < pts.len() ==> on_earth(#[trigger] pts[i]),
    ensures
        MIN_LON_SPAN <= framing_of(home, pts, aspect).lon_span <= TURN,
        home is None && pts.len() == 0 ==> framing_of(home, pts, aspect).lon_span == TURN,
        -90_000_000 <= framing_of(home, pts, aspect).clat <= 90_000_000,
{
    if !(home is None && pts.len() == 0) {
        let (clat, clon) = middle(home, pts);
        if home is None {
            lemma_lat_sum(pts, pts.len());
            lemma_mean(lat_sum(pts, pts.len()), pts.len() as int, 90_000_000);
        }
        let span = span_for(
            far_lat(pts, clat, pts.len()),
            far_lon(pts, clon, pts.len()),
            aspect,
        );
        assert(span * aspect >= 0) by (nonlinear_arith)
            requires
                span >= 0,
                aspect >= 0,
        ;
        assert(span * aspect / 1_000_000 >= 0);
    }
}

proof fn lemma_none_is_farther(pts: Seq<Pos>, clat: int, clon: int, n: nat, i: int)
    requires
        0 <= i < n <= pts.len(),
    ensures
        size_of(pts[i].lat - clat) <= far_lat(pts, clat, n),
        size_of(wrapped(pts[i].lon - clon)) <= far_lon(pts, clon, n),
    decreases n,
{
    if i < n - 1 {
        lemma_none_is_farther(pts, clat, clon, (n - 1) as nat, i);
    }
}

proof fn lemma_far_bounds(pts: Seq<Pos>, clat: int, clon: int, n: nat)
    ensures
        0 <= far_lat(pts, clat, n),
        0 <= far_lon(pts, clon, n) <= HALF_TURN,
    decreases n,
{
    if n > 0 {
        lemma_far_bounds(pts, clat, clon, (n - 1) as nat);
    }
}

/// How high a framed view is.
pub open spec fn height_of(f: Framing, aspect: int) -> int {
    f.lon_span * aspect / 1_000_000
}

proof fn lemma_high_enough(dlat: int, dlon: int, aspect: int)
    requires
        0 <= dlat,
        0 <= dlon,
        1_000 <= aspect <= 1_000_000,
        span_for(dlat, dlon, aspect) < TURN,
    ensures
        2 * dlat <= span_for(dlat, dlon, aspect) * aspect / 1_000_000,
{
    let span = span_for(dlat, dlon, aspect);
    let need = 5 * dlat / 2;
    let up = need * 1_000_000 / aspect;
    assert(span >= up && span >= MIN_LON_SPAN);
    assert(up * aspect > need * 1_000_000 - aspect) by (nonlinear_arith)
        requires
            up == need * 1_000_000 / aspect,
            aspect >= 1_000,
    ;
    assert(span * aspect >= up * aspect) by (nonlinear_arith)
        requires
            span >= up,
            aspect >= 1_000,
    ;
    assert(span * aspect >= 500_000 * 1_000) by (nonlinear_arith)
        requires
            span >= 500_000,
            aspect >= 1_000,
    ;
    let high = span * aspect / 1_000_000;
    assert(high >= 500);
    assert(high >= need - 2);
}

/// A framed view shows every target from side to side. On a map no higher than
/// it is wide it shows them from top to bottom as well, unless even a view of
/// the whole way round is too low for that.
pub proof fn law_every_target_is_framed(home: Option<Pos>, pts: Seq<Pos>, aspect: int, i: int)
    requires
        1_000 <= aspect <= 1_000_000,
        home matches Some(h) ==> on_earth(h),
        forall|k: int| 0 <= k < pts.len() ==> on_earth(#[trigger] pts[k]),
        0 <= i < pts.len(),
    ensures
        ({
            let f = framing_of(home, pts, aspect);
            let dlat = far_lat(pts, middle(home, pts).0, pts.len());
            &&& 2 * size_of(wrapped(pts[i].lon - f.clon)) <= f.lon_span
            &&& f.lon_span < TURN || 2 * dlat <= height_of(f, aspect) || height_of(f, aspect)
                >= HALF_TURN ==> size_of(pts[i].lat - f.clat) <= height_of(f, aspect) / 2
        }),
{
    let (clat, clon) = middle(home, pts);
    let n = pts.len();
    assert(on_earth(pts[i]));
    if home is None {
        lemma_lat_sum(pts, n);
        lemma_mean(lat_sum(pts, n), n as int, 90_000_000);
    }
    lemma_none_is_farther(pts, clat, clon, n, i);
    lemma_far_bounds(pts, clat, clon, n);
    let dlat = far_lat(pts, clat, n);
    let dlon = far_lon(pts, clon, n);
    let span = span_for(dlat, dlon, aspect);
    assert(span * aspect >= 0) by (nonlinear_arith)
        requires
            span >= 0,
            aspect >= 0,
    ;
    if span < TURN {
        lemma_high_enough(dlat, dlon, aspect);
    }
    law_framing_has_a_floor(home, pts, aspect);
    assert(framing_of(home, pts, aspect).clon == clon);
}

proof fn lemma_live(list: Seq<Aircraft>, n: nat, i: usize)
    requires
        n <= list.len() <= usize::MAX,
    ensures
        live_places(list, n).contains(i) <==> i < n && !list[i as int].stale,
    decreases n,
{
    if n > 0 {
        lemma_live(list, (n - 1) as nat, i);
        let rest = live_places(list, (n - 1) as nat);
        let all = live_places(list, n);
        if rest.contains(i) {
            let k: int = choose|k: int| 0 <= k < rest.len() && rest[k] == i;
            assert(all[k] == i);
        }
        if i == n - 1 && !list[i as int].stale {
            assert(all[rest.len() as int] == i);
        }
        if all.contains(i) {
            let k: int = choose|k: int| 0 <= k < all.len() && all[k] == i;
            if k < rest.len() {
                assert(rest[k] == i);
            }
        }
    }
}

proof fn lemma_live_rise(list: Seq<Aircraft>, n: nat)
    requires
        n <= list.len() <= usize::MAX,
    ensures
        forall|i: int| 0 <= i < live_places(list, n).len() ==> #[trigger] live_places(list, n)[i] < n,
        forall|i: int, j: int|
            0 <= i < j < live_places(list, n).len() ==> #[trigger] live_places(list, n)[i]
                < #[trigger] live_places(list, n)[j],
    decreases n,
{
    if n > 0 {
        lemma_live_rise(list, (n - 1) as nat);
        let rest = live_places(list, (n - 1) as nat);
        let all = live_places(list, n);
        assert forall|i: int| 0 <= i < all.len() implies #[trigger] all[i] < n by {
            if i < rest.len() {
                assert(all[i] == rest[i]);
            }
        }
        assert forall|i: int, j: int| 0 <= i < j < all.len() implies #[trigger] all[i]
            < #[trigger] all[j] by {
            assert(all[i] == rest[i]);
            if j < rest.len() {
                assert(all[j] == rest[j]);
            }
        }
    }
}

/// Every aircraft that was heard lately is drawn once, in the order of the list,
/// and one that went stale is not.
pub proof fn law_stale_aircraft_leave_the_map(list: Seq<Aircraft>, i: usize)
    requires
        list.len() <= usize::MAX,
    ensures
        live_places(list, list.len()).contains(i) <==> i < list.len() && !list[i as int].stale,
        forall|j: int, k: int|
            0 <= j < k < live_places(list, list.len()).len() ==> #[trigger] live_places(
                list,
                list.len(),
            )[j] < #[trigger] live_places(list, list.len())[k],
{
    lemma_live(list, list.len(), i);
    lemma_live_rise(list, list.len());
}

proof fn lemma_lat_between(pts: Seq<Pos>, n: nat, lo: int, hi: int)
    requires
        n <= pts.len(),
        forall|i: int| 0 <= i < pts.len() ==> lo <= (#[trigger] pts[i]).lat <= hi,
    ensures
        lo * n <= lat_sum(pts, n) <= hi * n,
    decreases n,
{
    if n > 0 {
        lemma_lat_between(pts, (n - 1) as nat, lo, hi);
        assert(lo <= pts[n - 1].lat <= hi);
        assert(lo * n == lo * (n - 1) + lo) by (nonlinear_arith);
        assert(hi * n == hi * (n - 1) + hi) by (nonlinear_arith);
    } else {
        assert(lo * n == 0 && hi * n == 0) by (nonlinear_arith)
            requires
                n == 0,
        ;
    }
}

proof fn lemma_lon_between(pts: Seq<Pos>, from: int, n: nat, lo: int, hi: int)
    requires
        n <= pts.len(),
        -HALF_TURN <= from <= HALF_TURN,
        forall|i: int| 0 <= i < pts.len() ==> lo <= (#[trigger] pts[i]).lon <= hi,
        lo <= from <= hi,
        hi - lo < HALF_TURN,
    ensures
        (lo - from) * n <= lon_sum(pts, from, n) <= (hi - from) * n,
    decreases n,
{
    if n > 0 {
        lemma_lon_between(pts, from, (n - 1) as nat, lo, hi);
        assert(lo <= pts[n - 1].lon <= hi);
        let d = pts[n - 1].lon - from;
        assert((d + 180_000_000) % 360_000_000 == d + 180_000_000);
        assert(wrapped(d) == d);
        assert((lo - from) * n == (lo - from) * (n - 1) + (lo - from)) by (nonlinear_arith);
        assert((hi - from) * n == (hi - from) * (n - 1) + (hi - from)) by (nonlinear_arith);
    }
}

proof fn lemma_mean_between(sum: int, n: int, lo: int, hi: int)
    requires
        n >= 1,
        lo * n <= sum <= hi * n,
    ensures
        lo <= sum / n <= hi,
{
    assert(lo <= sum / n <= hi) by (nonlinear_arith)
        requires
            n >= 1,
            lo * n <= sum <= hi * n,
    ;
}

/// With a station the map is centred on it. Without one its centre is among the
/// targets: no farther south, north, west or east than all of them.
pub proof fn law_the_centre_is_among_the_targets(
    home: Option<Pos>,
    pts: Seq<Pos>,
    south: int,
    north: int,
    west: int,
    east: int,
)
    requires
        pts.len() > 0,
        forall|i: int| 0 <= i < pts.len() ==> south <= (#[trigger] pts[i]).lat <= north,
        forall|i: int| 0 <= i < pts.len() ==> west <= (#[trigger] pts[i]).lon <= east,
        -HALF_TURN <= west,
        east < HALF_TURN,
        east - west < HALF_TURN,
    ensures
        home matches Some(h) ==> middle(home, pts) == (h.lat as int, h.lon as int),
        home is None ==> south <= middle(home, pts).0 <= north,
        home is None ==> west <= middle(home, pts).1 <= east,
{
    let n = pts.len();
    let from = pts[0].lon as int;
    assert(west <= pts[0].lon <= east);
    lemma_lat_between(pts, n, south, north);
    lemma_mean_between(lat_sum(pts, n), n as int, south, north);
    lemma_lon_between(pts, from, n, west, east);
    lemma_mean_between(lon_sum(pts, from, n), n as int, west - from, east - from);
    let m = from + lon_sum(pts, from, n) / n as int;
    assert((m + 180_000_000) % 360_000_000 == m + 180_000_000);
    assert(wrapped(m) == m);
}

/// An angle that is wrapped stays the same direction and lies within a half turn.
pub proof fn law_a_wrapped_angle_points_the_same_way(d: int, turns: int)
    ensures
        -HALF_TURN <= wrapped(d) < HALF_TURN,
        (wrapped(d) - d) % TURN as int == 0,
        -HALF_TURN <= d < HALF_TURN ==> wrapped(d) == d,
        wrapped(d + turns * TURN) == wrapped(d),
{
    let t = turns * 360_000_000;
    assert((d + t + 180_000_000) % 360_000_000 == (d + 180_000_000) % 360_000_000) by (nonlinear_arith)
        requires
            t == turns * 360_000_000,
    ;
    if -HALF_TURN <= d < HALF_TURN {
        assert((d + 180_000_000) % 360_000_000 == d + 180_000_000);
    }
    let q = (d + 180_000_000) / 360_000_000;
    assert(wrapped(d) - d == -360_000_000 * q);
    assert((-360_000_000 * q) % 360_000_000 == 0);
}

/// The text at the pointer begins with the aircraft's name.
pub proof fn law_a_tip_begins_with_the_name(a: Aircraft, speed: Seq<char>, range: Option<Seq<char>>)
    ensures
        a.name().is_prefix_of(tip_text(a, speed, range)),
{
    let t = tip_text(a, speed, range);
    let n = a.name();
    assert(n =~= t.subrange(0, n.len() as int));
}

/// The text at the pointer ends with the aircraft's emergency, where it has one,
/// or else with its range.
pub proof fn law_a_tip_ends_with_what_matters(
    a: Aircraft,
    speed: Seq<char>,
    range: Option<Seq<char>>,
)
    ensures
        a.emergency matches Some(e) ==> ("\n"@ + e@).is_suffix_of(tip_text(a, speed, range)),
        a.emergency is None && range is Some ==> ("\n"@ + range->0).is_suffix_of(
            tip_text(a, speed, range),
        ),
{
    let t = tip_text(a, speed, range);
    if let Some(e) = a.emergency {
        let last = "\n"@ + e@;
        assert(last =~= t.subrange(t.len() - last.len(), t.len() as int));
    } else if range is Some {
        let last = "\n"@ + range->0;
        assert(last =~= t.subrange(t.len() - last.len(), t.len() as int));
    }
}

/// An aircraft that sent no more than its height and speed shows just these under
/// its name; an unknown height is a zero.
pub proof fn law_a_bare_tip_has_height_and_speed(a: Aircraft, speed: Seq<char>)
    requires
        a.callsign@.len() == 0,
        a.category is None,
        a.vertical_rate_fpm is None,
        a.emergency is None,
    ensures
        a.altitude_ft matches Some(v) ==> tip_text(a, speed, None) == a.name() + ("\n"@ + dec_int(
            v as int,
        ) + " ft   "@ + speed + " kt"@),
        a.altitude_ft is None ==> tip_text(a, speed, None) == a.name() + ("\n"@ + dec_int(0)
            + " ft   "@ + speed + " kt"@),
{
    let t = tip_text(a, speed, None);
    let mid = "\n"@ + dec_int(
        match a.altitude_ft {
            Some(v) => v as int,
            None => 0,
        },
    ) + " ft   "@ + speed + " kt"@;
    assert(t =~= a.name() + mid);
}

/// A climb or descent is shown on a line of its own, with its sign, above a
/// hundred feet a minute; a slower one is level flight.
pub proof fn law_only_a_real_climb_is_shown(a: Aircraft, speed: Seq<char>, v: i32)
    requires
        a.callsign@.len() == 0,
        a.category is None,
        a.vertical_rate_fpm == Some(v),
        a.emergency is None,
    ensures
        ({
            let level = Aircraft { vertical_rate_fpm: None, ..a };
            &&& -100 <= v <= 100 ==> tip_text(a, speed, None) == tip_text(level, speed, None)
            &&& v < -100 || v > 100 ==> tip_text(a, speed, None) == tip_text(level, speed, None) + (
            "\n"@ + dec_signed(v as int) + " ft/min"@)
        }),
{
    let level = Aircraft { vertical_rate_fpm: None, ..a };
    let t = tip_text(a, speed, None);
    let u = tip_text(level, speed, None);
    assert(a.name() == level.name());
    if -100 <= v <= 100 {
        assert(t =~= u);
    } else {
        assert(t =~= u + ("\n"@ + dec_signed(v as int) + " ft/min"@));
    }
}

/// A view of some height is moved no farther than it must be to stay on the map:
/// one that fits keeps its latitude, and one that would reach over a pole just
/// touches it. One as high as the map stands in its middle.
pub proof fn law_a_view_stays_on_the_map(clat: int, lon_span: int, aspect: int)
    requires
        -90_000_000 <= clat <= 90_000_000,
        0 <= lon_span,
        0 <= aspect,
    ensures
        ({
            let high = lon_span * aspect / 1_000_000;
            let c = centred(clat, lon_span, aspect);
            &&& high >= 180_000_000 ==> c == 0
            &&& high < 180_000_000 && clat - high / 2 >= -90_000_000 && clat + high / 2
                <= 90_000_000 ==> c == clat
            &&& high < 180_000_000 && clat - high / 2 < -90_000_000 ==> c - high / 2
                == -90_000_000
            &&& high < 180_000_000 && clat + high / 2 > 90_000_000 ==> c + high / 2 == 90_000_000
        }),
{
    assert(lon_span * aspect >= 0) by (nonlinear_arith)
        requires
            lon_span >= 0,
            aspect >= 0,
    ;
}

/// A framed view is two and a half times as wide as the farthest target is away, or
/// as wide as its height asks for, whichever is more, between its floor and the
/// whole way round. A map lower than a thousandth of its width counts as that low.
pub proof fn law_a_view_has_a_quarter_to_spare(dlat: int, dlon: int, aspect: int)
    requires
        0 <= dlat,
        0 <= dlon,
    ensures
        aspect <= 1_000 ==> span_for(dlat, dlon, aspect) == span_for(dlat, dlon, 1_000),
        span_for(dlat, dlon, aspect) < TURN ==> 2 * span_for(dlat, dlon, aspect) >= 5 * dlon - 1,
        dlat == 0 && 500_000 <= 5 * dlon / 2 <= 360_000_000 ==> span_for(dlat, dlon, aspect) == 5
            * dlon / 2,
        dlon == 0 && 500_000 <= 5 * dlat / 2 <= 360_000_000 ==> span_for(dlat, dlon, 1_000_000)
            == 5 * dlat / 2,
        dlat == 0 && 5 * dlon / 2 <= 500_000 ==> span_for(dlat, dlon, aspect) == 500_000,
        5 * dlon / 2 >= 360_000_000 ==> span_for(dlat, dlon, aspect) == 360_000_000,
{
    let tall = if aspect < 1_000 {
        1_000
    } else {
        aspect
    };
    if dlat == 0 {
        assert(0int * 1_000_000 / tall == 0) by (nonlinear_arith)
            requires
                tall >= 1_000,
        ;
    }
    let n = 5 * dlat / 2;
    assert(n * 1_000_000 / 1_000_000 == n);
}

/// The target under the pointer is within reach, and no other is nearer.
pub proof fn law_the_nearest_is_hovered(dist: Seq<Option<u64>>, reach: u64, i: int, j: int)
    requires
        is_nearest(dist, reach, i),
        0 <= j < dist.len(),
        dist[j] is Some,
    ensures
        0 <= i < dist.len() && dist[i] is Some,
        dist[i]->0 <= reach,
        dist[i]->0 <= dist[j]->0,
        is_nearest(dist, reach, j) ==> i == j,
{
}

} // verus!
