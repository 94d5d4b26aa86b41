//! What the console asks of the radio.

use vstd::prelude::*;

use crate::adsb::AdsbConfig;
use crate::frame::SpectrumCfg;
use crate::net::UploadTarget;
use crate::setup::Settings;
use crate::text_modem::Params;
use crate::wspr::{Beacon, Reporting};

verus! {

/// Where an exchange stands.
#[derive(Clone, Copy, PartialEq, Eq, Structural, Debug)]
pub enum QsoStep {
    Idle,
    CallingCq,
    TxGrid,
    TxReport,
    TxRReport,
    TxRr73,
    Tx73,
    Confirming,
}

/// A station to be called.
#[derive(Debug)]
pub struct Call {
    pub from: String,
    pub grid: Option<String>,
    pub snr: i32,
    /// Audio offset in thousandths of a hertz.
    pub audio_millihz: u32,
    pub wait_for_cq: bool,
}

/// The part of the digital settings that a request sets; the rest stays as it
/// was last sent.
#[derive(Debug)]
pub enum DigiConfig {
    /// Everything that the setup dialog shows.
    Dialog(Settings),
    /// The settings in the headers of the keyboard modes.
    Params(Params),
    Beacon(Beacon),
    SendOnReturn(bool),
    /// In thousandths.
    Squelch(u16),
    /// Whether the tone is picked automatically, and whether it is held.
    Tone(bool, bool),
    /// Whether mark and space are swapped in the maritime text service.
    NavtexReverse(bool),
}

/// A request to the radio.
#[derive(Debug)]
pub enum Command {
    SetDigiConfig(DigiConfig),
    SetNetworkConfig(Reporting),
    /// Set the transmit tone, in thousandths of a hertz.
    SetDigiAudioFreq(i64),
    DigiTxText(String),
    DigiTxActive(bool),
    DigiAbortTx,
    DigiClearRx,
    DigiCallCq,
    DigiStopQso,
    DigiSetStep(QsoStep),
    DigiSendText(String),
    DigiStartQso(Call),
    DigiQueueAdd(Call),
    /// Drop one station from the queue; an empty call drops them all.
    DigiQueueRemove(String),
    LookupCallsign(String),
    /// Try a sign-in, by the number of the service.
    TestLogin(u8),
    UploadQso(u64, Vec<UploadTarget>),
    /// Tune the active dial, in hertz.
    SetVfo(u64),
    SetPtt(bool),
    ClearSwrTrip,
    /// Call a station, along a path, with extended numbering or without.
    PacketConnect(String, String, bool),
    PacketDisconnect,
    PacketSend(String),
    PacketTermClear,
    /// Ask for the constellation of a channel, or stop asking.
    SetDrmConstellation(Option<u8>),
    SetDrmService(u8),
    SetAdsbConfig(AdsbConfig),
    SetSpectrumCfg(SpectrumCfg),
    /// The visible span, in thousandths of a hertz.
    SetSkimmerView(i64, i64),
    /// Follow a satellite, by its catalogue number, or stop following.
    SetSatLock(Option<u32>),
}

/// True of the request to transmit this text.
pub open spec fn is_tx_text(c: Command, text: Seq<char>) -> bool {
    c matches Command::DigiTxText(s) && s@ == text
}

} // verus!
