//! Operating modes and amateur bands.

use vstd::prelude::*;

verus! {

/// An operating mode of the receiver.
#[derive(Clone, Copy, PartialEq, Eq, Structural, Debug)]
pub enum Mode {
    Lsb,
    Usb,
    Cw,
    Am,
    Fm,
    Drm,
    Rade,
    Ft8,
    Ft4,
    Ft2,
    Js8,
    Wspr,
    Fsq,
    Psk,
    Rtty,
    RttyFm,
    Olivia,
    Thor,
    Hell,
    Sstv,
    SstvFm,
    Rifp,
    RfPaint,
    Packet,
    PacketHf,
    Aprs,
    Adsb,
    Wefax,
    Navtex,
}

/// Every mode, once.
pub open spec fn all_modes() -> Seq<Mode> {
    seq![
        Mode::Lsb,
        Mode::Usb,
        Mode::Cw,
        Mode::Am,
        Mode::Fm,
        Mode::Drm,
        Mode::Rade,
        Mode::Ft8,
        Mode::Ft4,
        Mode::Ft2,
        Mode::Js8,
        Mode::Wspr,
        Mode::Fsq,
        Mode::Psk,
        Mode::Rtty,
        Mode::RttyFm,
        Mode::Olivia,
        Mode::Thor,
        Mode::Hell,
        Mode::Sstv,
        Mode::SstvFm,
        Mode::Rifp,
        Mode::RfPaint,
        Mode::Packet,
        Mode::PacketHf,
        Mode::Aprs,
        Mode::Adsb,
        Mode::Wefax,
        Mode::Navtex,
    ]
}

/// No mode is missing from the list of them.
pub proof fn law_all_modes_are_listed(m: Mode)
    ensures
        all_modes().contains(m),
{
    let i: int = match m {
        Mode::Lsb => 0,
        Mode::Usb => 1,
        Mode::Cw => 2,
        Mode::Am => 3,
        Mode::Fm => 4,
        Mode::Drm => 5,
        Mode::Rade => 6,
        Mode::Ft8 => 7,
        Mode::Ft4 => 8,
        Mode::Ft2 => 9,
        Mode::Js8 => 10,
        Mode::Wspr => 11,
        Mode::Fsq => 12,
        Mode::Psk => 13,
        Mode::Rtty => 14,
        Mode::RttyFm => 15,
        Mode::Olivia => 16,
        Mode::Thor => 17,
        Mode::Hell => 18,
        Mode::Sstv => 19,
        Mode::SstvFm => 20,
        Mode::Rifp => 21,
        Mode::RfPaint => 22,
        Mode::Packet => 23,
        Mode::PacketHf => 24,
        Mode::Aprs => 25,
        Mode::Adsb => 26,
        Mode::Wefax => 27,
        Mode::Navtex => 28,
    };
    assert(all_modes()[i] == m);
}

impl Mode {
    /// Every mode.
    pub fn all() -> (v: Vec<Mode>)
        ensures
            v@ == all_modes(),
    {
        let v = vec![
            Mode::Lsb,
            Mode::Usb,
            Mode::Cw,
            Mode::Am,
            Mode::Fm,
            Mode::Drm,
            Mode::Rade,
            Mode::Ft8,
            Mode::Ft4,
            Mode::Ft2,
            Mode::Js8,
            Mode::Wspr,
            Mode::Fsq,
            Mode::Psk,
            Mode::Rtty,
            Mode::RttyFm,
            Mode::Olivia,
            Mode::Thor,
            Mode::Hell,
            Mode::Sstv,
            Mode::SstvFm,
            Mode::Rifp,
            Mode::RfPaint,
            Mode::Packet,
            Mode::PacketHf,
            Mode::Aprs,
            Mode::Adsb,
            Mode::Wefax,
            Mode::Navtex,
        ];
        assert(v@ =~= all_modes());
        v
    }
}

/// What the radio's own table of modes says of a mode.
#[derive(Clone, Copy, PartialEq, Eq, Structural, Debug)]
pub struct Traits {
    /// It works in fixed turns of the clock.
    pub slotted: bool,
    /// It is one of the keyboard modes, which share one panel.
    pub text_modem: bool,
    /// It is one of the picture modes, which share one panel.
    pub image: bool,
    /// Its panel sits under the panadapter.
    pub bottom_panel: bool,
}

/// An amateur band by its place in the radio's list of them, or [`Band::Gen`]
/// for everything outside of them.
#[derive(Clone, Copy, PartialEq, Eq, Structural, Debug)]
pub enum Band {
    Gen,
    In(u8),
}

/// No mode is listed twice.
pub proof fn law_each_mode_is_listed_once()
    ensures
        all_modes().no_duplicates(),
        all_modes().len() == 29,
{
}

} // verus!
