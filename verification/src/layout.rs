//! How the window's height is shared out, in thousandths of a point.

use vstd::prelude::*;

use crate::figure::floor_div;
use crate::mode::Mode;

verus! {

/// The least height of the operating panel.
pub const PANEL_FLOOR: u64 = 190_000;

/// The least height of the waterfall.
pub const WATERFALL_FLOOR: u64 = 80_000;

/// Heights stay below this.
pub const HEIGHT_END: u64 = 1_000_000_000;

/// A share of one, in millionths.
pub const WHOLE: u64 = 1_000_000;

/// What is left of `total` beside the divider.
pub open spec fn usable(total: int, divider: int) -> int {
    if total > divider {
        total - divider
    } else {
        0
    }
}

/// The smaller of two.
pub open spec fn smaller(a: int, b: int) -> int {
    if a < b {
        a
    } else {
        b
    }
}

/// The height of the operating panel: its share of what is left, held between
/// its own floor and what the waterfall's leaves. Neither floor is more than
/// half of what there is.
pub open spec fn panel_height(total: int, divider: int, fraction: int) -> int {
    let u = usable(total, divider);
    let lo = smaller(PANEL_FLOOR as int, u / 2);
    let top = u - smaller(WATERFALL_FLOOR as int, u / 2);
    let hi = if top < lo {
        lo
    } else {
        top
    };
    let v = u * fraction / WHOLE as int;
    if v < lo {
        lo
    } else if v > hi {
        hi
    } else {
        v
    }
}

/// Shares a height between the waterfall and the operating panel. `divider` is
/// everything between the two, `fraction` the panel's share in millionths.
pub fn digi_split(total: u64, divider: u64, fraction: u64) -> (r: (u64, u64))
    requires
        total < HEIGHT_END,
        divider < HEIGHT_END,
        fraction <= WHOLE,
    ensures
        r.1 == panel_height(total as int, divider as int, fraction as int),
        r.0 == usable(total as int, divider as int) - r.1,
{
    let u: u64 = if total > divider {
        total - divider
    } else {
        0
    };
    let half: u64 = u / 2;
    let lo: u64 = if PANEL_FLOOR < half {
        PANEL_FLOOR
    } else {
        half
    };
    let wf: u64 = if WATERFALL_FLOOR < half {
        WATERFALL_FLOOR
    } else {
        half
    };
    let top: u64 = u - wf;
    let hi: u64 = if top < lo {
        lo
    } else {
        top
    };
    proof {
        assert(0 <= u * fraction <= 1_000_000_000 * 1_000_000) by (nonlinear_arith)
            requires
                0 <= u <= 1_000_000_000,
                0 <= fraction <= 1_000_000,
        ;
    }
    let v: u64 = u * fraction / WHOLE;
    let panel: u64 = if v < lo {
        lo
    } else if v > hi {
        hi
    } else {
        v
    };
    (u - panel, panel)
}

/// The two heights and the divider fit the height there is, whatever it is,
/// and together they use all of it.
pub proof fn law_the_split_always_fits(total: int, divider: int, fraction: int)
    requires
        0 <= total,
        0 <= divider,
        0 <= fraction <= WHOLE,
    ensures
        0 <= panel_height(total, divider, fraction) <= usable(total, divider),
        divider <= total ==> usable(total, divider) + divider == total,
{
}

/// A roomy window honours both floors, and the share where neither stands in
/// the way.
pub proof fn law_a_roomy_window_keeps_the_floors(total: int, divider: int, fraction: int)
    requires
        0 <= divider,
        usable(total, divider) >= 2 * PANEL_FLOOR,
        0 <= fraction <= WHOLE,
    ensures
        panel_height(total, divider, fraction) >= PANEL_FLOOR,
        usable(total, divider) - panel_height(total, divider, fraction) >= WATERFALL_FLOOR,
        ({
            let share = usable(total, divider) * fraction / WHOLE as int;
            PANEL_FLOOR <= share <= usable(total, divider) - WATERFALL_FLOOR ==> panel_height(
                total,
                divider,
                fraction,
            ) == share
        }),
{
}

/// The slot length of a mode in milliseconds, given the one of its clock. A
/// mode without a clock answers with a length that can be divided by.
pub fn slot_period_ms(timing: Option<u32>) -> (ms: u32)
    requires
        timing matches Some(t) ==> t > 0,
    ensures
        ms == match timing {
            Some(t) => t,
            None => 15_000,
        },
        ms > 0,
{
    match timing {
        Some(t) => t,
        None => 15_000,
    }
}

/// A share of `total` held between `lo` and what leaves `reserve` for the rest,
/// and never below `lo`.
pub open spec fn left_of(total: int, fraction: int, lo: int, reserve: int) -> int {
    let top = if total - reserve > lo {
        total - reserve
    } else {
        lo
    };
    let v = total * fraction / WHOLE as int;
    if v < lo {
        lo
    } else if v > top {
        top
    } else {
        v
    }
}

/// The width of the left column of a split panel.
pub fn left_width(total: u64, fraction: u64, lo: u64, reserve: u64) -> (w: u64)
    requires
        total < HEIGHT_END,
        fraction <= WHOLE,
        lo < HEIGHT_END,
        reserve < HEIGHT_END,
    ensures
        w == left_of(total as int, fraction as int, lo as int, reserve as int),
{
    let top: u64 = if total > reserve && total - reserve > lo {
        total - reserve
    } else {
        lo
    };
    proof {
        assert(0 <= total * fraction <= 1_000_000_000 * 1_000_000) by (nonlinear_arith)
            requires
                0 <= total <= 1_000_000_000,
                0 <= fraction <= 1_000_000,
        ;
    }
    let v: u64 = total * fraction / WHOLE;
    if v < lo {
        lo
    } else if v > top {
        top
    } else {
        v
    }
}

/// The left column keeps its floor, and where there is room for both the right
/// one keeps what is reserved for it.
pub proof fn law_both_columns_keep_their_floor(total: int, fraction: int, lo: int, reserve: int)
    ensures
        left_of(total, fraction, lo, reserve) >= lo,
        total >= lo + reserve ==> total - left_of(total, fraction, lo, reserve) >= reserve,
{
}

/// The height of a map: a share of the range from its least height to what the
/// rest of the column leaves, never more than the width there is.
pub open spec fn map_of(lo: int, full: int, reserved: int, width: int, fraction: int) -> int {
    let room = smaller(full - reserved, width);
    let hi = if room > lo {
        room
    } else {
        lo
    };
    lo + (hi - lo) * fraction / WHOLE as int
}

/// The height of a map.
pub fn map_budget(lo: u64, full: u64, reserved: u64, width: u64, fraction: u64) -> (h: u64)
    requires
        lo < HEIGHT_END,
        full < HEIGHT_END,
        reserved < HEIGHT_END,
        width < HEIGHT_END,
        fraction <= WHOLE,
    ensures
        h == map_of(lo as int, full as int, reserved as int, width as int, fraction as int),
{
    let left: u64 = if full > reserved {
        full - reserved
    } else {
        0
    };
    let room: u64 = if left < width {
        left
    } else {
        width
    };
    let hi: u64 = if room > lo {
        room
    } else {
        lo
    };
    let span: u64 = hi - lo;
    proof {
        assert(0 <= span * fraction <= 1_000_000_000 * 1_000_000) by (nonlinear_arith)
            requires
                0 <= span <= 1_000_000_000,
                0 <= fraction <= 1_000_000,
        ;
        assert(span * fraction / 1_000_000 <= span) by (nonlinear_arith)
            requires
                0 <= span,
                0 <= fraction <= 1_000_000,
        ;
    }
    lo + span * fraction / WHOLE
}

/// A map is at least as high as the least height, and where there is room for
/// more it leaves what is reserved and stays within the width.
pub proof fn law_map_leaves_the_rest_its_room(
    lo: int,
    full: int,
    reserved: int,
    width: int,
    fraction: int,
)
    requires
        0 <= fraction <= WHOLE,
    ensures
        map_of(lo, full, reserved, width, fraction) >= lo,
        full - reserved >= lo && width >= lo ==> map_of(lo, full, reserved, width, fraction)
            <= full - reserved && map_of(lo, full, reserved, width, fraction) <= width,
{
    let room = smaller(full - reserved, width);
    let hi = if room > lo {
        room
    } else {
        lo
    };
    let span = hi - lo;
    assert(0 <= span * fraction / 1_000_000 <= span) by (nonlinear_arith)
        requires
            0 <= span,
            0 <= fraction <= 1_000_000,
    ;
}

/// The width of the decode list: it keeps 180 points, and the exchange beside
/// the divider 220.
pub fn decode_column(total: u64, fraction: u64) -> (w: u64)
    requires
        total < HEIGHT_END,
        fraction <= WHOLE,
    ensures
        w == left_of(total as int, fraction as int, 180_000, 227_000),
{
    left_width(total, fraction, 180_000, 227_000)
}

/// The width of the list of receptions: it keeps 240 points, and what stands
/// beside it 260.
pub fn reception_column(total: u64, fraction: u64) -> (w: u64)
    requires
        total < HEIGHT_END,
        fraction <= WHOLE,
    ensures
        w == left_of(total as int, fraction as int, 240_000, 260_000),
{
    left_width(total, fraction, 240_000, 260_000)
}

/// The height of the map above an exchange. The divider, the station's card and
/// what stands `below` it keep their room.
pub fn exchange_map(least: u64, full: u64, below: u64, width: u64, fraction: u64) -> (h: u64)
    requires
        least < HEIGHT_END,
        full < HEIGHT_END,
        below < HEIGHT_END - 72_000,
        width < HEIGHT_END,
        fraction <= WHOLE,
    ensures
        h == map_of(least as int, full as int, 72_000 + below, width as int, fraction as int),
{
    map_budget(least, full, 72_000 + below, width, fraction)
}

/// What the operator can drag.
#[derive(Clone, Copy, PartialEq, Eq, Structural, Debug)]
pub enum Divider {
    /// Between the waterfall and the operating panel; the share is the panel's,
    /// which stands below.
    Panel,
    /// Between the decode list and the exchange.
    Decodes,
    /// Between the receptions and the beacon's own state.
    Receptions,
    /// Below a map.
    WorldMap,
}

/// The least and the greatest share that a divider can be dragged to.
pub open spec fn share_range(d: Divider) -> (int, int) {
    match d {
        Divider::Panel => (200_000, 820_000),
        Divider::Decodes => (280_000, 720_000),
        Divider::Receptions => (250_000, 750_000),
        Divider::WorldMap => (0, 1_000_000),
    }
}

/// The share after a divider was dragged by `moved` in a room of that size.
pub open spec fn dragged_share(d: Divider, share: int, moved: int, room: int) -> int {
    let by = moved * WHOLE / (if room > 1_000 {
        room
    } else {
        1_000
    });
    let v = if d == Divider::Panel {
        share - by
    } else {
        share + by
    };
    let (lo, hi) = share_range(d);
    if v < lo {
        lo
    } else if v > hi {
        hi
    } else {
        v
    }
}

/// Drags a divider.
pub fn drag(d: Divider, share: u64, moved: i64, room: u64) -> (r: u64)
    ensures
        r == dragged_share(d, share as int, moved as int, room as int),
        r <= WHOLE,
{
    let across: i128 = if room > 1_000 {
        room as i128
    } else {
        1_000
    };
    let far: i128 = moved as i128 * 1_000_000;
    let by: i128 = floor_div(far, across);
    proof {
        assert(-0x8000_0000_0000_0000 * 1_000_000 <= by <= 0x8000_0000_0000_0000 * 1_000_000)
            by (nonlinear_arith)
            requires
                by == far as int / across as int,
                across >= 1_000,
                -0x8000_0000_0000_0000 * 1_000_000 <= far <= 0x7fff_ffff_ffff_ffff * 1_000_000,
        ;
    }
    let (v, lo, hi): (i128, i128, i128) = match d {
        Divider::Panel => (share as i128 - by, 200_000, 820_000),
        Divider::Decodes => (share as i128 + by, 280_000, 720_000),
        Divider::Receptions => (share as i128 + by, 250_000, 750_000),
        Divider::WorldMap => (share as i128 + by, 0, 1_000_000),
    };
    if v < lo {
        lo as u64
    } else if v > hi {
        hi as u64
    } else {
        v as u64
    }
}

/// The share that the left of two columns has of the width. The divider beside
/// the receptions is dragged from where it stands, which its floors may keep
/// away from where it was dragged to.
pub fn share_of(left: u64, total: u64) -> (r: u64)
    requires
        left < HEIGHT_END,
        0 < total,
    ensures
        r == left as int * WHOLE / total as int,
{
    left * WHOLE / total
}

/// However a divider is dragged, it stays within its range, and a drag over
/// nothing leaves a share within the range where it is.
pub proof fn law_a_divider_stays_in_its_range(d: Divider, share: int, moved: int, room: int)
    ensures
        share_range(d).0 <= dragged_share(d, share, moved, room) <= share_range(d).1,
        share_range(d).0 <= share <= share_range(d).1 ==> dragged_share(d, share, 0, room) == share,
{
    let across = if room > 1_000 {
        room
    } else {
        1_000
    };
    assert(0int * 1_000_000 / across == 0) by (nonlinear_arith)
        requires
            across >= 1_000,
    ;
}

/// The clock that a mode keeps, in milliseconds: the one of the mode, except
/// where its speed is a setting, which comes from the engine or from the
/// default speed until the engine has reported.
pub fn slot_timing(
    mode: Mode,
    fixed: Option<u32>,
    reported: Option<u32>,
    default_speed: u32,
) -> (t: Option<u32>)
    ensures
        t == if mode == Mode::Js8 {
            match reported {
                Some(ms) => Some(ms),
                None => Some(default_speed),
            }
        } else {
            fixed
        },
{
    if mode == Mode::Js8 {
        match reported {
            Some(ms) => Some(ms),
            None => Some(default_speed),
        }
    } else {
        fixed
    }
}

/// How far a turn has come, in milliseconds, and what it is used for.
#[derive(Clone, Copy, PartialEq, Eq, Structural, Debug)]
pub struct Turn {
    pub into_ms: u32,
    pub transmitting: bool,
}

/// The turn that is under way; a mode without a clock has none. A slot is a
/// fixed block of the time that is counted from the start of 1970.
pub fn slot_progress(now_ms: i64, timing: Option<u32>, transmitting: bool) -> (t: Option<Turn>)
    requires
        timing matches Some(ms) ==> ms > 0,
    ensures
        t == match timing {
            Some(ms) => Some(
                Turn { into_ms: (now_ms as int % ms as int) as u32, transmitting },
            ),
            None => None,
        },
{
    match timing {
        Some(ms) => {
            let q: i128 = floor_div(now_ms as i128, ms as i128);
            proof {
                lemma_remainder(now_ms as int, ms as int);
            }
            let into: i128 = now_ms as i128 - q * ms as i128;
            Some(Turn { into_ms: into as u32, transmitting })
        },
        None => None,
    }
}

proof fn lemma_remainder(a: int, n: int)
    requires
        n > 0,
        -0x8000_0000_0000_0000 <= a <= 0x7fff_ffff_ffff_ffff,
    ensures
        a - (a / n) * n == a % n,
        0 <= a % n < n,
        -0x8000_0000_0000_0000 - n <= (a / n) * n <= a,
{
    assert(a == (a / n) * n + a % n && 0 <= a % n < n) by (nonlinear_arith)
        requires
            n > 0,
    ;
}

/// In a window too low for both floors waterfall and panel have half each.
pub proof fn law_a_low_window_is_halved(total: int, divider: int, fraction: int)
    requires
        0 <= divider,
        0 <= fraction <= WHOLE,
        0 <= usable(total, divider) <= 2 * WATERFALL_FLOOR,
    ensures
        usable(total, divider) - 1 <= 2 * panel_height(total, divider, fraction) <= usable(
            total,
            divider,
        ) + 1,
        total > divider ==> usable(total, divider) == total - divider,
        total <= divider ==> usable(total, divider) == 0,
{
    assert(WATERFALL_FLOOR < PANEL_FLOOR);
}

/// A column has its share of the width where neither its own floor nor the other's
/// stands in the way, and otherwise stops at the one that does.
pub proof fn law_a_column_has_its_share(total: int, fraction: int, lo: int, reserve: int)
    requires
        total >= lo + reserve,
    ensures
        ({
            let share = total * fraction / 1_000_000;
            let w = left_of(total, fraction, lo, reserve);
            &&& lo <= share <= total - reserve ==> w == share
            &&& share < lo ==> w == lo
            &&& share > total - reserve ==> w == total - reserve
        }),
        total < lo + reserve ==> left_of(total, fraction, lo, reserve) == lo,
{
}

/// A map without a share has its least height, and one with the whole share all
/// that the column and its width allow. A larger share never makes it lower.
pub proof fn law_a_map_grows_with_its_share(
    lo: int,
    full: int,
    reserved: int,
    width: int,
    small: int,
    large: int,
)
    requires
        0 <= small <= large <= WHOLE,
    ensures
        map_of(lo, full, reserved, width, 0) == lo,
        full - reserved >= lo && width >= full - reserved ==> map_of(
            lo,
            full,
            reserved,
            width,
            1_000_000,
        ) == full - reserved,
        full - reserved >= width && width >= lo ==> map_of(lo, full, reserved, width, 1_000_000)
            == width,
        full - reserved < lo || width < lo ==> map_of(lo, full, reserved, width, large) == lo,
        map_of(lo, full, reserved, width, small) <= map_of(lo, full, reserved, width, large),
{
    let room = smaller(full - reserved, width);
    let hi = if room > lo {
        room
    } else {
        lo
    };
    let span = hi - lo;
    assert(span * 0 / 1_000_000 == 0) by (nonlinear_arith);
    assert(span * 1_000_000 / 1_000_000 == span);
    assert(span * small / 1_000_000 <= span * large / 1_000_000) by (nonlinear_arith)
        requires
            0 <= span,
            0 <= small <= large,
    ;
    if span == 0 {
        assert(span * large / 1_000_000 == 0) by (nonlinear_arith)
            requires
                span == 0,
        ;
    }
}

/// Each divider has a range of its own, about the middle for two columns.
pub proof fn law_the_range_of_each_divider()
    ensures
        share_range(Divider::Panel) == (200_000int, 820_000int),
        share_range(Divider::Decodes).0 + share_range(Divider::Decodes).1 == 1_000_000,
        share_range(Divider::Decodes).0 == 280_000,
        share_range(Divider::Receptions).0 + share_range(Divider::Receptions).1 == 1_000_000,
        share_range(Divider::Receptions).0 == 250_000,
        share_range(Divider::WorldMap) == (0int, 1_000_000int),
{
}

/// A divider follows the pointer: a share that stays within its range changes by
/// the part of the room that the pointer moved. The panel stands below its
/// divider, so that one gains from a move upward.
pub proof fn law_a_divider_follows_the_pointer(d: Divider, share: int, moved: int, room: int)
    requires
        room >= 1_000,
        share_range(d).0 < dragged_share(d, share, moved, room) < share_range(d).1,
    ensures
        ({
            let by = if d == Divider::Panel {
                share - dragged_share(d, share, moved, room)
            } else {
                dragged_share(d, share, moved, room) - share
            };
            by * room <= moved * 1_000_000 < (by + 1) * room
        }),
{
    let n = moved * 1_000_000;
    let q = n / room;
    assert(q * room <= n < (q + 1) * room) by (nonlinear_arith)
        requires
            q == n / room,
            room >= 1_000,
    ;
}

} // verus!
