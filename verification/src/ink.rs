//! The colours that the panels pick from the theme.

use eframe::egui::Color32;
use vstd::prelude::*;

verus! {

/// Calls `Color32::from_rgb` of the toolkit and takes the colour apart again
/// with `Color32::to_array`: the three parts as they were given, and full
/// opacity.
#[verifier::external_body]
fn opaque_rgb(r: u8, g: u8, b: u8) -> (c: [u8; 4])
    ensures
        c@ == seq![r, g, b, 255u8],
{
    Color32::from_rgb(r, g, b).to_array()
}

/// A colour by the name that the theme gives it.
#[derive(Clone, Copy, PartialEq, Eq, Structural, Debug)]
pub enum Ink {
    Text,
    TextStrong,
    Cyan,
    CyanDim,
    Green,
    Yellow,
    Pink,
    Alert,
    Hazard,
    /// A shade of gray, from black to white.
    Gray(u8),
    /// A colour by its red, green and blue parts.
    Rgb(u8, u8, u8),
}

impl Ink {
    /// The parts of a colour that no theme decides: red, green, blue and
    /// opacity. `None` for the colours that a theme names.
    pub fn rgba(self) -> (c: Option<[u8; 4]>)
        ensures
            match (self, c) {
                (Ink::Rgb(r, g, b), Some(v)) => v@ == seq![r, g, b, 255u8],
                (Ink::Rgb(_, _, _), None) => false,
                (_, v) => v is None,
            },
    {
        match self {
            Ink::Rgb(r, g, b) => Some(opaque_rgb(r, g, b)),
            _ => None,
        }
    }
}

} // verus!
