//! Decision logic of the sdroxide radio console.
//!
//! The window around it draws and talks to the radio; what it shows, what a
//! press asks for and what an event changes is decided here, over plain values.
//! Frequencies and tones are whole hertz or thousandths of one, times are whole
//! milliseconds or seconds, lengths on screen thousandths of a point.

pub mod adsb;
pub mod adsb_map;
pub mod clock;
pub mod command;
pub mod decodes;
pub mod dials;
pub mod double;
pub mod drm;
pub mod events;
pub mod exchange;
pub mod figure;
pub mod form;
pub mod frame;
pub mod import;
pub mod ink;
pub mod keys;
pub mod layout;
pub mod logrow;
pub mod logview;
pub mod mode;
pub mod navtex;
pub mod net;
pub mod order;
pub mod packet;
pub mod panes;
pub mod prop;
pub mod qso;
pub mod replies;
pub mod retry;
pub mod roster;
pub mod session;
pub mod setup;
pub mod text;
pub mod text_modem;
pub mod wspr;
