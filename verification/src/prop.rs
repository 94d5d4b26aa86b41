//! The propagation layer of the maps: what feeds it and what it shows.

use vstd::prelude::*;

use crate::mode::Mode;
use crate::text::{blank, is_blank};

verus! {

/// Which decoder's floor a path is measured against.
#[derive(Clone, Copy, PartialEq, Eq, Structural, Debug)]
pub enum PropSource {
    Ft8,
    Ft4,
    Ft2,
    Js8,
}

/// What a mode's decodes count as; the other modes observe no paths.
pub open spec fn source_of(mode: Mode) -> Option<PropSource> {
    match mode {
        Mode::Ft8 => Some(PropSource::Ft8),
        Mode::Ft4 => Some(PropSource::Ft4),
        Mode::Ft2 => Some(PropSource::Ft2),
        Mode::Js8 => Some(PropSource::Js8),
        _ => None,
    }
}

/// What one frame folds into the propagation field.
#[derive(Clone, Copy, PartialEq, Eq, Structural, Debug)]
pub struct Folds {
    /// The decodes, as observations of this source.
    pub decodes: Option<PropSource>,
    pub wspr: bool,
    pub log: bool,
}

/// What one frame folds into the field. Each of these reports one end of a
/// path and takes the other from the operator's locator, so nothing is folded
/// before that is known.
pub fn folds(mode: Mode, my_grid: &str) -> (f: Folds)
    ensures
        f == if is_blank(my_grid@) {
            Folds { decodes: None, wspr: false, log: false }
        } else {
            Folds { decodes: source_of(mode), wspr: true, log: true }
        },
{
    if blank(my_grid) {
        return Folds { decodes: None, wspr: false, log: false };
    }
    let decodes = match mode {
        Mode::Ft8 => Some(PropSource::Ft8),
        Mode::Ft4 => Some(PropSource::Ft4),
        Mode::Ft2 => Some(PropSource::Ft2),
        Mode::Js8 => Some(PropSource::Js8),
        _ => None,
    };
    Folds { decodes, wspr: true, log: true }
}

/// What the layer shows.
#[derive(Clone, Copy, PartialEq, Eq, Structural, Debug)]
pub struct PropView {
    pub on: bool,
    /// Every band at once.
    pub all_bands: bool,
    /// The place of the band in the list of bands.
    pub band: u8,
}

/// A press on one of the layer's chips.
#[derive(Clone, Copy, PartialEq, Eq, Structural, Debug)]
pub enum PropPress {
    Toggle,
    AllBands,
    OneBand,
    Band(u8),
}

/// The layer after a press. Its other chips are there only while it is on,
/// and the bands only while one of them is shown.
pub fn press_prop(v: PropView, p: PropPress) -> (r: PropView)
    ensures
        r == match p {
            PropPress::Toggle => PropView { on: !v.on, ..v },
            PropPress::AllBands => if v.on {
                PropView { all_bands: true, ..v }
            } else {
                v
            },
            PropPress::OneBand => if v.on {
                PropView { all_bands: false, ..v }
            } else {
                v
            },
            PropPress::Band(i) => if v.on && !v.all_bands {
                PropView { band: i, ..v }
            } else {
                v
            },
        },
{
    match p {
        PropPress::Toggle => PropView { on: !v.on, ..v },
        PropPress::AllBands => if v.on {
            PropView { all_bands: true, ..v }
        } else {
            v
        },
        PropPress::OneBand => if v.on {
            PropView { all_bands: false, ..v }
        } else {
            v
        },
        PropPress::Band(i) => if v.on && !v.all_bands {
            PropView { band: i, ..v }
        } else {
            v
        },
    }
}

/// The band that the layer shows: the stored one, or `fallback` where the list
/// of bands has no such place.
pub fn shown_band(v: PropView, bands: u8, fallback: u8) -> (b: u8)
    ensures
        b == if v.band < bands {
            v.band
        } else {
            fallback
        },
{
    if v.band < bands {
        v.band
    } else {
        fallback
    }
}

/// The decodes of the four modes that observe paths count as those of that mode,
/// and no other mode's count.
pub proof fn law_a_source_is_its_own_mode(mode: Mode)
    ensures
        source_of(mode) == Some(PropSource::Ft8) <==> mode == Mode::Ft8,
        source_of(mode) == Some(PropSource::Ft4) <==> mode == Mode::Ft4,
        source_of(mode) == Some(PropSource::Ft2) <==> mode == Mode::Ft2,
        source_of(mode) == Some(PropSource::Js8) <==> mode == Mode::Js8,
        source_of(mode) is None <==> mode != Mode::Ft8 && mode != Mode::Ft4 && mode != Mode::Ft2
            && mode != Mode::Js8,
{
}

} // verus!
