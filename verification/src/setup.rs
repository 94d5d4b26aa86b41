//! The setup dialog of the digital modes.

use vstd::prelude::*;

use crate::command::{Command, DigiConfig};
use crate::mode::{Mode, Traits};
use crate::text::{cat, chars_of, to_uppercase, uppercase};

verus! {

/// The role of a station in an expedition's pile-up.
#[derive(Clone, Copy, PartialEq, Eq, Structural, Debug)]
pub enum Expedition {
    Normal,
    Hound,
    Fox,
}

/// A symbol on the map: the table it stands in and its code there.
#[derive(Clone, Copy, PartialEq, Eq, Structural, Debug)]
pub struct Symbol {
    pub table: char,
    pub code: char,
}

/// A place, in thousandths of a millionth of a degree.
#[derive(Clone, Copy, PartialEq, Eq, Structural, Debug)]
pub struct Place {
    pub lat: i64,
    pub lon: i64,
}

/// The switches and figures of the packet modes.
#[derive(Clone, Copy, PartialEq, Eq, Structural, Debug)]
pub struct PacketFigures {
    /// The faster of the two speeds.
    pub fast: bool,
    pub paclen: u16,
    /// Ask for extended sequence numbers.
    pub ext_seq: bool,
    pub accept_incoming: bool,
    /// Zero is never.
    pub beacon_minutes: u16,
    pub kiss_server: bool,
    pub kiss_port: u16,
    /// Frames sent before an acknowledgement is waited for.
    pub maxframe: u16,
}

/// The switches and figures of the position-reporting mode.
#[derive(Clone, Copy, PartialEq, Eq, Structural, Debug)]
pub struct AprsFigures {
    /// Zero is never.
    pub beacon_minutes: u16,
    pub compressed: bool,
    pub ack_messages: bool,
    pub station_ttl_min: u16,
    pub symbol: Symbol,
    pub use_grid: bool,
    pub lat: i64,
    pub lon: i64,
}

/// The switches and figures of the keyboard-message mode.
#[derive(Clone, Copy, PartialEq, Eq, Structural, Debug)]
pub struct Js8Figures {
    pub auto_reply: bool,
    /// Zero is never.
    pub heartbeat_min: u32,
    /// Beacon on the working frequency.
    pub hb_anywhere: bool,
    pub hb_ack: bool,
}

/// The switches and figures of the modes with exchanges.
#[derive(Clone, Copy, PartialEq, Eq, Structural, Debug)]
pub struct QsoFigures {
    pub tx_even: bool,
    pub auto_seq: bool,
    pub auto_tx_freq: bool,
    pub hold_tx_freq: bool,
    /// Zero is never.
    pub tx_watchdog_min: u16,
    /// Zero is without end.
    pub max_tx_repeats: u16,
    pub expedition: Expedition,
    pub fox_slots: u16,
}

/// The settings that are switches and figures. Coordinates are in thousandths
/// of a millionth of a degree, levels in hundredths of full scale.
#[derive(Clone, Copy, PartialEq, Eq, Structural, Debug)]
pub struct Figures {
    /// Shared by the packet modes and the position-reporting mode.
    pub txdelay_ms: u16,
    pub packet: PacketFigures,
    pub aprs: AprsFigures,
    pub js8: Js8Figures,
    pub qso: QsoFigures,
    pub level_fm: u16,
    pub level_ssb: u16,
}

/// The settings that are texts.
#[derive(Debug)]
pub struct Texts {
    pub my_call: String,
    pub my_grid: String,
    pub packet_mycall: String,
    pub packet_connect_text: String,
    pub packet_connect_via: String,
    pub packet_beacon_text: String,
    pub aprs_mycall: String,
    pub aprs_path: String,
    pub aprs_comment: String,
    pub js8_status: String,
    pub msg_cq: String,
    pub msg_grid: String,
    pub msg_report: String,
    pub msg_rreport: String,
    pub msg_rr73: String,
    pub msg_73: String,
}

/// A text of the dialog.
#[derive(Clone, Copy, PartialEq, Eq, Structural, Debug)]
pub enum Field {
    MyCall,
    MyGrid,
    PacketCall,
    ConnectText,
    ConnectVia,
    BeaconText,
    AprsCall,
    AprsPath,
    AprsComment,
    Js8Status,
    MsgCq,
    MsgGrid,
    MsgReport,
    MsgRReport,
    MsgRr73,
    Msg73,
}

/// A change to the figures of the packet modes.
#[derive(Clone, Copy, PartialEq, Eq, Structural, Debug)]
pub enum PacketChange {
    Fast(bool),
    Paclen(u16),
    ExtSeq(bool),
    Accept(bool),
    PacketBeacon(u16),
    Kiss(bool),
    KissPort(u16),
    MaxFrame(u16),
}

/// A change to the figures of the position-reporting mode.
#[derive(Clone, Copy, PartialEq, Eq, Structural, Debug)]
pub enum AprsChange {
    AprsBeacon(u16),
    Compressed(bool),
    Ack(bool),
    StationTtl(u16),
    /// One of the symbols that are offered was pressed.
    Symbol(Symbol),
    UseGrid(bool),
    /// A coordinate was typed, as far as it could be read.
    Lat(Option<i64>),
    Lon(Option<i64>),
}

/// A change to the figures of the keyboard-message mode.
#[derive(Clone, Copy, PartialEq, Eq, Structural, Debug)]
pub enum Js8Change {
    AutoReply(bool),
    Heartbeat(u32),
    HbAnywhere(bool),
    HbAck(bool),
}

/// A change to the figures of the modes with exchanges.
#[derive(Clone, Copy, PartialEq, Eq, Structural, Debug)]
pub enum QsoChange {
    TxEven(bool),
    AutoSeq(bool),
    AutoTx(bool),
    HoldTx(bool),
    Watchdog(u16),
    Repeats(u16),
    Expedition(Expedition),
    FoxSlots(u16),
}

/// A change of a switch or a figure.
#[derive(Clone, Copy, PartialEq, Eq, Structural, Debug)]
pub enum Change {
    TxDelay(u16),
    Packet(PacketChange),
    Aprs(AprsChange),
    Js8(Js8Change),
    Qso(QsoChange),
    Level(u16),
}

/// True in both of the packet modes.
pub open spec fn is_packet(mode: Mode) -> bool {
    mode == Mode::Packet || mode == Mode::PacketHf
}

/// True of a text that the dialog of this mode shows.
pub open spec fn shows_field(mode: Mode, f: Field) -> bool {
    match f {
        Field::MyCall
        | Field::MyGrid => true,
        Field::PacketCall
        | Field::ConnectText
        | Field::ConnectVia
        | Field::BeaconText => is_packet(mode),
        Field::AprsCall
        | Field::AprsPath
        | Field::AprsComment => mode == Mode::Aprs,
        Field::Js8Status => mode == Mode::Js8,
        Field::MsgCq
        | Field::MsgGrid
        | Field::MsgReport
        | Field::MsgRReport
        | Field::MsgRr73
        | Field::Msg73 => mode != Mode::Aprs,
    }
}

/// True of a switch or figure that the dialog of this mode shows, and that can
/// be changed there.
pub open spec fn shows_change(mode: Mode, n: Figures, turbo: bool, c: Change) -> bool {
    match c {
        Change::TxDelay(_) => is_packet(mode) || mode == Mode::Aprs,
        Change::Packet(PacketChange::Fast(_)) => mode == Mode::Packet,
        Change::Packet(_) => is_packet(mode),
        Change::Aprs(AprsChange::Lat(_)) | Change::Aprs(AprsChange::Lon(_)) => mode == Mode::Aprs
            && !n.aprs.use_grid,
        Change::Aprs(_) => mode == Mode::Aprs,
        Change::Js8(Js8Change::HbAck(_)) => mode == Mode::Js8 && n.js8.auto_reply && !turbo,
        Change::Js8(_) => mode == Mode::Js8,
        Change::Qso(QsoChange::FoxSlots(_)) => mode != Mode::Aprs && n.qso.expedition
            == Expedition::Fox,
        Change::Qso(_) => mode != Mode::Aprs,
        Change::Level(_) => true,
    }
}

/// A figure held to its range.
pub open spec fn held(v: u16, lo: u16, hi: u16) -> u16 {
    if v < lo {
        lo
    } else if v > hi {
        hi
    } else {
        v
    }
}

fn hold(v: u16, lo: u16, hi: u16) -> (r: u16)
    ensures
        r == held(v, lo, hi),
{
    if v < lo {
        lo
    } else if v > hi {
        hi
    } else {
        v
    }
}

/// The largest window: extended numbering allows a bigger one.
pub open spec fn window_of(ext_seq: bool) -> u16 {
    if ext_seq {
        127
    } else {
        7
    }
}

/// The largest window.
pub fn window_max(ext_seq: bool) -> (r: u16)
    ensures
        r == window_of(ext_seq),
{
    if ext_seq {
        127
    } else {
        7
    }
}

/// A coordinate to the nearest millionth of a degree, halves away from zero.
#[verifier::opaque]
pub open spec fn to_millionths(v: int) -> int {
    if v >= 0 {
        (v + 500) / 1000 * 1000
    } else {
        -((500 - v) / 1000 * 1000)
    }
}

fn millionths(v: i64) -> (r: i64)
    requires
        -200_000_000_000 <= v <= 200_000_000_000,
    ensures
        r == to_millionths(v as int),
{
    proof {
        reveal(to_millionths);
    }
    if v >= 0 {
        (v + 500) / 1000 * 1000
    } else {
        -((500 - v) / 1000 * 1000)
    }
}

/// The most characters of the comment, and those of the symbol.
pub const COMMENT_CHARS: usize = 43;

pub const SYMBOL_CHARS: usize = 2;

/// The largest latitude and longitude.
pub const LAT_LIMIT: i64 = 90_000_000_000;

pub const LON_LIMIT: i64 = 180_000_000_000;

/// True of a place, where there is one, that the earth has.
pub open spec fn on_earth(p: Option<Place>) -> bool {
    p matches Some(q) ==> -LAT_LIMIT <= q.lat <= LAT_LIMIT && -LON_LIMIT <= q.lon <= LON_LIMIT
}

/// What was typed as a coordinate, where it is one.
pub open spec fn coordinate(typed: Option<i64>, limit: i64) -> Option<i64> {
    match typed {
        Some(v) if -limit <= v <= limit => Some(v),
        _ => None,
    }
}

/// What was typed as a coordinate, where it is one.
pub fn read_coordinate(typed: Option<i64>, limit: i64) -> (r: Option<i64>)
    requires
        limit > 0,
    ensures
        r == coordinate(typed, limit),
{
    match typed {
        Some(v) => if -limit <= v && v <= limit {
            Some(v)
        } else {
            None
        },
        None => None,
    }
}

/// What else a change depends on: where the locator puts the station, whether
/// the mode rides an FM carrier, and how many signals a fox can have.
#[derive(Clone, Copy, PartialEq, Eq, Structural, Debug)]
pub struct Around {
    pub grid: Option<Place>,
    pub fm: bool,
    pub fox_max: u16,
    /// The fastest speed, which does not beacon.
    pub turbo: bool,
}

/// The figures of the packet modes after a change.
pub open spec fn packet_changed(n: PacketFigures, c: PacketChange) -> PacketFigures {
    match c {
        PacketChange::Fast(x) => PacketFigures { fast: x, ..n },
        PacketChange::Paclen(x) => PacketFigures { paclen: held(x, 16, 256), ..n },
        PacketChange::ExtSeq(x) => PacketFigures { ext_seq: x, ..n },
        PacketChange::Accept(x) => PacketFigures { accept_incoming: x, ..n },
        PacketChange::PacketBeacon(x) => PacketFigures { beacon_minutes: held(x, 0, 120), ..n },
        PacketChange::Kiss(x) => PacketFigures { kiss_server: x, ..n },
        PacketChange::KissPort(x) => PacketFigures { kiss_port: held(x, 1024, 65535), ..n },
        PacketChange::MaxFrame(x) => PacketFigures {
            maxframe: held(x, 1, window_of(n.ext_seq)),
            ..n
        },
    }
}

fn change_packet(n: PacketFigures, c: PacketChange) -> (r: PacketFigures)
    ensures
        r == packet_changed(n, c),
{
    match c {
        PacketChange::Fast(x) => PacketFigures { fast: x, ..n },
        PacketChange::Paclen(x) => PacketFigures { paclen: hold(x, 16, 256), ..n },
        PacketChange::ExtSeq(x) => PacketFigures { ext_seq: x, ..n },
        PacketChange::Accept(x) => PacketFigures { accept_incoming: x, ..n },
        PacketChange::PacketBeacon(x) => PacketFigures { beacon_minutes: hold(x, 0, 120), ..n },
        PacketChange::Kiss(x) => PacketFigures { kiss_server: x, ..n },
        PacketChange::KissPort(x) => PacketFigures { kiss_port: hold(x, 1024, 65535), ..n },
        PacketChange::MaxFrame(x) => PacketFigures {
            maxframe: hold(x, 1, window_max(n.ext_seq)),
            ..n
        },
    }
}

/// The figures of the position-reporting mode after a change.
/// Taking the coordinates over from the locator starts from where it
/// had the station.
pub open spec fn aprs_changed(n: AprsFigures, grid: Option<Place>, c: AprsChange) -> AprsFigures {
    match c {
        AprsChange::AprsBeacon(x) => AprsFigures { beacon_minutes: held(x, 0, 120), ..n },
        AprsChange::Compressed(x) => AprsFigures { compressed: x, ..n },
        AprsChange::Ack(x) => AprsFigures { ack_messages: x, ..n },
        AprsChange::StationTtl(x) => AprsFigures { station_ttl_min: held(x, 5, 1440), ..n },
        AprsChange::Symbol(x) => AprsFigures { symbol: x, ..n },
        AprsChange::UseGrid(x) => match grid {
            Some(p) => if n.use_grid && !x {
                AprsFigures {
                    use_grid: x,
                    lat: to_millionths(p.lat as int) as i64,
                    lon: to_millionths(p.lon as int) as i64,
                    ..n
                }
            } else {
                AprsFigures { use_grid: x, ..n }
            },
            None => AprsFigures { use_grid: x, ..n },
        },
        AprsChange::Lat(x) => match coordinate(x, LAT_LIMIT) {
            Some(v) => AprsFigures { lat: v, ..n },
            None => n,
        },
        AprsChange::Lon(x) => match coordinate(x, LON_LIMIT) {
            Some(v) => AprsFigures { lon: v, ..n },
            None => n,
        },
    }
}

fn change_aprs(n: AprsFigures, grid: Option<Place>, c: AprsChange) -> (r: AprsFigures)
    requires
        on_earth(grid),
    ensures
        r == aprs_changed(n, grid, c),
{
    match c {
        AprsChange::AprsBeacon(x) => AprsFigures { beacon_minutes: hold(x, 0, 120), ..n },
        AprsChange::Compressed(x) => AprsFigures { compressed: x, ..n },
        AprsChange::Ack(x) => AprsFigures { ack_messages: x, ..n },
        AprsChange::StationTtl(x) => AprsFigures { station_ttl_min: hold(x, 5, 1440), ..n },
        AprsChange::Symbol(x) => AprsFigures { symbol: x, ..n },
        AprsChange::UseGrid(x) => match grid {
            Some(p) => if n.use_grid && !x {
                AprsFigures {
                    use_grid: x,
                    lat: millionths(p.lat),
                    lon: millionths(p.lon),
                    ..n
                }
            } else {
                AprsFigures { use_grid: x, ..n }
            },
            None => AprsFigures { use_grid: x, ..n },
        },
        AprsChange::Lat(x) => match read_coordinate(x, LAT_LIMIT) {
            Some(v) => AprsFigures { lat: v, ..n },
            None => n,
        },
        AprsChange::Lon(x) => match read_coordinate(x, LON_LIMIT) {
            Some(v) => AprsFigures { lon: v, ..n },
            None => n,
        },
    }
}

/// The figures of the keyboard-message mode after a change.
pub open spec fn js8_changed(n: Js8Figures, c: Js8Change) -> Js8Figures {
    match c {
        Js8Change::AutoReply(x) => Js8Figures { auto_reply: x, ..n },
        Js8Change::Heartbeat(x) => Js8Figures { heartbeat_min: x, ..n },
        Js8Change::HbAnywhere(x) => Js8Figures { hb_anywhere: x, ..n },
        Js8Change::HbAck(x) => Js8Figures { hb_ack: x, ..n },
    }
}

fn change_js8(n: Js8Figures, c: Js8Change) -> (r: Js8Figures)
    ensures
        r == js8_changed(n, c),
{
    match c {
        Js8Change::AutoReply(x) => Js8Figures { auto_reply: x, ..n },
        Js8Change::Heartbeat(x) => Js8Figures { heartbeat_min: x, ..n },
        Js8Change::HbAnywhere(x) => Js8Figures { hb_anywhere: x, ..n },
        Js8Change::HbAck(x) => Js8Figures { hb_ack: x, ..n },
    }
}

/// The figures of the modes with exchanges after a change.
pub open spec fn qso_changed(n: QsoFigures, fox_max: u16, c: QsoChange) -> QsoFigures {
    match c {
        QsoChange::TxEven(x) => QsoFigures { tx_even: x, ..n },
        QsoChange::AutoSeq(x) => QsoFigures { auto_seq: x, ..n },
        QsoChange::AutoTx(x) => QsoFigures { auto_tx_freq: x, ..n },
        QsoChange::HoldTx(x) => QsoFigures { hold_tx_freq: x, ..n },
        QsoChange::Watchdog(x) => QsoFigures { tx_watchdog_min: held(x, 0, 60), ..n },
        QsoChange::Repeats(x) => QsoFigures { max_tx_repeats: held(x, 0, 30), ..n },
        QsoChange::Expedition(x) => QsoFigures { expedition: x, ..n },
        QsoChange::FoxSlots(x) => QsoFigures { fox_slots: held(x, 1, fox_max), ..n },
    }
}

fn change_qso(n: QsoFigures, fox_max: u16, c: QsoChange) -> (r: QsoFigures)
    ensures
        r == qso_changed(n, fox_max, c),
{
    match c {
        QsoChange::TxEven(x) => QsoFigures { tx_even: x, ..n },
        QsoChange::AutoSeq(x) => QsoFigures { auto_seq: x, ..n },
        QsoChange::AutoTx(x) => QsoFigures { auto_tx_freq: x, ..n },
        QsoChange::HoldTx(x) => QsoFigures { hold_tx_freq: x, ..n },
        QsoChange::Watchdog(x) => QsoFigures { tx_watchdog_min: hold(x, 0, 60), ..n },
        QsoChange::Repeats(x) => QsoFigures { max_tx_repeats: hold(x, 0, 30), ..n },
        QsoChange::Expedition(x) => QsoFigures { expedition: x, ..n },
        QsoChange::FoxSlots(x) => QsoFigures { fox_slots: hold(x, 1, fox_max), ..n },
    }
}

/// The figures after a change.
pub open spec fn changed_figures(n: Figures, a: Around, c: Change) -> Figures {
    match c {
        Change::TxDelay(x) => Figures { txdelay_ms: held(x, 50, 2000), ..n },
        Change::Packet(x) => Figures { packet: packet_changed(n.packet, x), ..n },
        Change::Aprs(x) => Figures { aprs: aprs_changed(n.aprs, a.grid, x), ..n },
        Change::Js8(x) => Figures { js8: js8_changed(n.js8, x), ..n },
        Change::Qso(x) => Figures { qso: qso_changed(n.qso, a.fox_max, x), ..n },
        Change::Level(x) => if a.fm {
            Figures { level_fm: held(x, 5, 100), ..n }
        } else {
            Figures { level_ssb: held(x, 5, 100), ..n }
        },
    }
}

fn changed(n: Figures, a: Around, c: Change) -> (r: Figures)
    requires
        on_earth(a.grid),
    ensures
        r == changed_figures(n, a, c),
{
    match c {
        Change::TxDelay(x) => Figures { txdelay_ms: hold(x, 50, 2000), ..n },
        Change::Packet(x) => Figures { packet: change_packet(n.packet, x), ..n },
        Change::Aprs(x) => Figures { aprs: change_aprs(n.aprs, a.grid, x), ..n },
        Change::Js8(x) => Figures { js8: change_js8(n.js8, x), ..n },
        Change::Qso(x) => Figures { qso: change_qso(n.qso, a.fox_max, x), ..n },
        Change::Level(x) => if a.fm {
            Figures { level_fm: hold(x, 5, 100), ..n }
        } else {
            Figures { level_ssb: hold(x, 5, 100), ..n }
        },
    }
}

fn change_shown(mode: Mode, n: &Figures, turbo: bool, c: Change) -> (r: bool)
    ensures
        r == shows_change(mode, *n, turbo, c),
{
    let packet = mode == Mode::Packet || mode == Mode::PacketHf;
    match c {
        Change::TxDelay(_) => packet || mode == Mode::Aprs,
        Change::Packet(PacketChange::Fast(_)) => mode == Mode::Packet,
        Change::Packet(_) => packet,
        Change::Aprs(AprsChange::Lat(_)) | Change::Aprs(AprsChange::Lon(_)) => mode == Mode::Aprs
            && !n.aprs.use_grid,
        Change::Aprs(_) => mode == Mode::Aprs,
        Change::Js8(Js8Change::HbAck(_)) => mode == Mode::Js8 && n.js8.auto_reply && !turbo,
        Change::Js8(_) => mode == Mode::Js8,
        Change::Qso(QsoChange::FoxSlots(_)) => mode != Mode::Aprs && n.qso.expedition
            == Expedition::Fox,
        Change::Qso(_) => mode != Mode::Aprs,
        Change::Level(_) => true,
    }
}

impl Texts {
    /// The text of a field.
    pub open spec fn at(&self, f: Field) -> Seq<char> {
        match f {
            Field::MyCall => self.my_call@,
            Field::MyGrid => self.my_grid@,
            Field::PacketCall => self.packet_mycall@,
            Field::ConnectText => self.packet_connect_text@,
            Field::ConnectVia => self.packet_connect_via@,
            Field::BeaconText => self.packet_beacon_text@,
            Field::AprsCall => self.aprs_mycall@,
            Field::AprsPath => self.aprs_path@,
            Field::AprsComment => self.aprs_comment@,
            Field::Js8Status => self.js8_status@,
            Field::MsgCq => self.msg_cq@,
            Field::MsgGrid => self.msg_grid@,
            Field::MsgReport => self.msg_report@,
            Field::MsgRReport => self.msg_rreport@,
            Field::MsgRr73 => self.msg_rr73@,
            Field::Msg73 => self.msg_73@,
        }
    }

    fn put(&mut self, f: Field, s: String)
        ensures
            final(self).at(f) == s@,
            forall|g: Field| g != f ==> #[trigger] final(self).at(g) == old(self).at(g),
    {
        match f {
            Field::MyCall => {
                self.my_call = s;
            },
            Field::MyGrid => {
                self.my_grid = s;
            },
            Field::PacketCall => {
                self.packet_mycall = s;
            },
            Field::ConnectText => {
                self.packet_connect_text = s;
            },
            Field::ConnectVia => {
                self.packet_connect_via = s;
            },
            Field::BeaconText => {
                self.packet_beacon_text = s;
            },
            Field::AprsCall => {
                self.aprs_mycall = s;
            },
            Field::AprsPath => {
                self.aprs_path = s;
            },
            Field::AprsComment => {
                self.aprs_comment = s;
            },
            Field::Js8Status => {
                self.js8_status = s;
            },
            Field::MsgCq => {
                self.msg_cq = s;
            },
            Field::MsgGrid => {
                self.msg_grid = s;
            },
            Field::MsgReport => {
                self.msg_report = s;
            },
            Field::MsgRReport => {
                self.msg_rreport = s;
            },
            Field::MsgRr73 => {
                self.msg_rr73 = s;
            },
            Field::Msg73 => {
                self.msg_73 = s;
            },
        }
    }
}

/// What a field keeps of what was typed: callsigns in upper case, the rest as
/// it is.
pub open spec fn kept_text(f: Field, s: Seq<char>) -> Seq<char> {
    if f == Field::MyCall || f == Field::PacketCall || f == Field::AprsCall {
        uppercase(s)
    } else {
        s
    }
}

fn field_shown(mode: Mode, f: Field) -> (r: bool)
    ensures
        r == shows_field(mode, f),
{
    let packet = mode == Mode::Packet || mode == Mode::PacketHf;
    match f {
        Field::MyCall
        | Field::MyGrid => true,
        Field::PacketCall
        | Field::ConnectText
        | Field::ConnectVia
        | Field::BeaconText => packet,
        Field::AprsCall
        | Field::AprsPath
        | Field::AprsComment => mode == Mode::Aprs,
        Field::Js8Status => mode == Mode::Js8,
        Field::MsgCq
        | Field::MsgGrid
        | Field::MsgReport
        | Field::MsgRReport
        | Field::MsgRr73
        | Field::Msg73 => mode != Mode::Aprs,
    }
}

/// One thing that the operator did in the dialog.
#[derive(Debug)]
pub enum Edit {
    Figure(Change),
    Text(Field, String),
    /// The symbol was typed as its two characters.
    SymbolText(String),
}

/// The settings of the digital modes.
#[derive(Debug)]
pub struct Settings {
    pub figures: Figures,
    pub texts: Texts,
}

impl Settings {
    /// Settings that hold what these hold.
    pub fn duplicate(&self) -> (r: Settings)
        ensures
            r == *self,
    {
        let t = &self.texts;
        Settings {
            figures: self.figures,
            texts: Texts {
                my_call: t.my_call.clone(),
                my_grid: t.my_grid.clone(),
                packet_mycall: t.packet_mycall.clone(),
                packet_connect_text: t.packet_connect_text.clone(),
                packet_connect_via: t.packet_connect_via.clone(),
                packet_beacon_text: t.packet_beacon_text.clone(),
                aprs_mycall: t.aprs_mycall.clone(),
                aprs_path: t.aprs_path.clone(),
                aprs_comment: t.aprs_comment.clone(),
                js8_status: t.js8_status.clone(),
                msg_cq: t.msg_cq.clone(),
                msg_grid: t.msg_grid.clone(),
                msg_report: t.msg_report.clone(),
                msg_rreport: t.msg_rreport.clone(),
                msg_rr73: t.msg_rr73.clone(),
                msg_73: t.msg_73.clone(),
            },
        }
    }
}

/// True of the choice of a symbol.
pub open spec fn is_symbol(c: Change) -> bool {
    c matches Change::Aprs(x) && x is Symbol
}

/// True when an edit changes the settings. A symbol counts as changed whenever
/// it is chosen.
pub open spec fn counts(s: Settings, mode: Mode, a: Around, e: Edit) -> bool {
    match e {
        Edit::Figure(c) => shows_change(mode, s.figures, a.turbo, c) && (is_symbol(c)
            || changed_figures(s.figures, a, c) != s.figures),
        Edit::Text(f, t) => shows_field(mode, f),
        Edit::SymbolText(t) => mode == Mode::Aprs && t@.len() >= 2,
    }
}

/// True when `r` is what an edit makes of the settings.
pub open spec fn is_edited(s: Settings, mode: Mode, a: Around, e: Edit, r: Settings) -> bool {
    if !counts(s, mode, a, e) {
        r == s
    } else {
        match e {
            Edit::Figure(c) => r.texts == s.texts && r.figures == changed_figures(s.figures, a, c),
            Edit::Text(f, t) => {
                &&& r.figures == s.figures
                &&& r.texts.at(f) == kept_text(f, t@)
                &&& forall|g: Field| g != f ==> #[trigger] r.texts.at(g) == s.texts.at(g)
            },
            Edit::SymbolText(t) => r.texts == s.texts && r.figures == (Figures {
                aprs: (AprsFigures {
                    symbol: (Symbol { table: t@[0], code: t@[1] }),
                    ..s.figures.aprs
                }),
                ..s.figures
            }),
        }
    }
}

fn change_figure(n: &mut Figures, mode: Mode, a: Around, c: Change) -> (send: bool)
    requires
        on_earth(a.grid),
    ensures
        send == (shows_change(mode, *old(n), a.turbo, c) && (is_symbol(c) || changed_figures(
            *old(n),
            a,
            c,
        ) != *old(n))),
        *final(n) == if send {
            changed_figures(*old(n), a, c)
        } else {
            *old(n)
        },
{
    if !change_shown(mode, n, a.turbo, c) {
        return false;
    }
    let r: Figures = changed(*n, a, c);
    let same = r == *n;
    *n = r;
    let symbol = match c {
        Change::Aprs(AprsChange::Symbol(_)) => true,
        _ => false,
    };
    symbol || !same
}

fn change_text(x: &mut Texts, mode: Mode, f: Field, t: &String) -> (send: bool)
    ensures
        send == shows_field(mode, f),
        if send {
            &&& final(x).at(f) == kept_text(f, t@)
            &&& forall|g: Field| g != f ==> #[trigger] final(x).at(g) == old(x).at(g)
        } else {
            *final(x) == *old(x)
        },
{
    if !field_shown(mode, f) {
        return false;
    }
    let kept = match f {
        Field::MyCall | Field::PacketCall | Field::AprsCall => to_uppercase(t.as_str()),
        _ => t.clone(),
    };
    x.put(f, kept);
    true
}

/// Applies one edit, and tells whether the settings have to be sent.
pub fn apply_edit(s: &mut Settings, mode: Mode, a: Around, e: &Edit) -> (send: bool)
    requires
        on_earth(a.grid),
    ensures
        send == counts(*old(s), mode, a, *e),
        is_edited(*old(s), mode, a, *e, *final(s)),
{
    match e {
        Edit::Figure(c) => change_figure(&mut s.figures, mode, a, *c),
        Edit::Text(f, t) => change_text(&mut s.texts, mode, *f, t),
        Edit::SymbolText(t) => {
            let v = chars_of(t.as_str());
            if mode != Mode::Aprs || v.len() < 2 {
                return false;
            }
            s.figures.aprs.symbol = Symbol { table: v[0], code: v[1] };
            true
        },
    }
}

/// True when a run of edits takes the settings from `s` to `r`, through the
/// states that `states` lists.
pub open spec fn is_run(
    s: Settings,
    mode: Mode,
    a: Around,
    edits: Seq<Edit>,
    states: Seq<Settings>,
) -> bool {
    &&& states.len() == edits.len() + 1
    &&& states[0] == s
    &&& forall|i: int|
        0 <= i < edits.len() ==> is_edited(
            states[i],
            mode,
            a,
            #[trigger] edits[i],
            states[i + 1],
        )
}

/// True when some edit of a run counts.
pub open spec fn any_counts(mode: Mode, a: Around, edits: Seq<Edit>, states: Seq<Settings>) -> bool {
    exists|i: int| 0 <= i < edits.len() && counts(states[i], mode, a, #[trigger] edits[i])
}

/// One frame of the dialog: applies what the operator did, and sends the
/// settings once where anything counts, whatever the mode.
#[verifier::rlimit(30)]
pub fn settings_frame(
    s: &mut Settings,
    mode: Mode,
    a: Around,
    edits: &Vec<Edit>,
    cmds: &mut Vec<Command>,
)
    requires
        on_earth(a.grid),
    ensures
        exists|states: Seq<Settings>| #[trigger]
            is_run(*old(s), mode, a, edits@, states) && *final(s) == states.last() && final(cmds)@
                == if any_counts(mode, a, edits@, states) {
                old(cmds)@.push(Command::SetDigiConfig(DigiConfig::Dialog(*final(s))))
            } else {
                old(cmds)@
            },
{
    let mut send = false;
    let ghost mut states: Seq<Settings> = seq![*s];
    let mut i: usize = 0;
    while i < edits.len()
        invariant
            i <= edits@.len(),
            cmds@ == old(cmds)@,
            on_earth(a.grid),
            states.len() == i + 1,
            states[0] == *old(s),
            states.last() == *s,
            forall|k: int|
                0 <= k < i ==> is_edited(states[k], mode, a, #[trigger] edits@[k], states[k + 1]),
            send == exists|k: int|
                0 <= k < i && counts(states[k], mode, a, #[trigger] edits@[k]),
        decreases edits@.len() - i,
    {
        let ghost before = states;
        let ghost sent = send;
        let hit = apply_edit(s, mode, a, &edits[i]);
        proof {
            states = states.push(*s);
            assert forall|k: int| 0 <= k < i + 1 implies is_edited(
                states[k],
                mode,
                a,
                #[trigger] edits@[k],
                states[k + 1],
            ) by {
                if k < i {
                    assert(states[k] == before[k] && states[k + 1] == before[k + 1]);
                }
            }
            if sent {
                let k = choose|k: int|
                    0 <= k < i && counts(before[k], mode, a, #[trigger] edits@[k]);
                assert(states[k] == before[k]);
                assert(counts(states[k], mode, a, edits@[k]));
            }
            if hit {
                assert(states[i as int] == before[i as int]);
                assert(counts(states[i as int], mode, a, edits@[i as int]));
            }
            if exists|k: int| 0 <= k < i + 1 && counts(states[k], mode, a, #[trigger] edits@[k]) {
                let k = choose|k: int|
                    0 <= k < i + 1 && counts(states[k], mode, a, #[trigger] edits@[k]);
                if k < i {
                    assert(states[k] == before[k]);
                    assert(counts(before[k], mode, a, edits@[k]));
                }
            }
        }
        send = send || hit;
        i = i + 1;
    }
    assert(is_run(*old(s), mode, a, edits@, states));
    if send {
        cmds.push(Command::SetDigiConfig(DigiConfig::Dialog(s.duplicate())));
    }
}

/// The callsign, the locator and the level can be set in every mode, and the
/// text of a general call in every mode but one.
pub proof fn law_identity_is_always_at_hand(mode: Mode, n: Figures, turbo: bool, level: u16)
    ensures
        shows_field(mode, Field::MyCall),
        shows_field(mode, Field::MyGrid),
        shows_change(mode, n, turbo, Change::Level(level)),
        shows_field(mode, Field::MsgCq) == (mode != Mode::Aprs),
{
}

/// A level set for one kind of carrier leaves the other kind's alone.
pub proof fn law_levels_are_apart(n: Figures, a: Around, x: u16)
    ensures
        a.fm ==> changed_figures(n, a, Change::Level(x)).level_ssb == n.level_ssb,
        !a.fm ==> changed_figures(n, a, Change::Level(x)).level_fm == n.level_fm,
        a.fm ==> 5 <= changed_figures(n, a, Change::Level(x)).level_fm <= 100,
        !a.fm ==> 5 <= changed_figures(n, a, Change::Level(x)).level_ssb <= 100,
{
}

/// Figures that are in range.
pub open spec fn in_range(n: Figures, fox_max: u16) -> bool {
    &&& 50 <= n.txdelay_ms <= 2000
    &&& 16 <= n.packet.paclen <= 256
    &&& 0 <= n.packet.beacon_minutes <= 120
    &&& 1024 <= n.packet.kiss_port <= 65535
    &&& 0 <= n.aprs.beacon_minutes <= 120
    &&& 5 <= n.aprs.station_ttl_min <= 1440
    &&& 0 <= n.qso.tx_watchdog_min <= 60
    &&& 0 <= n.qso.max_tx_repeats <= 30
    &&& 1 <= n.packet.maxframe <= 127
    &&& -LAT_LIMIT <= n.aprs.lat <= LAT_LIMIT
    &&& -LON_LIMIT <= n.aprs.lon <= LON_LIMIT
    &&& 1 <= n.qso.fox_slots <= fox_max
    &&& 5 <= n.level_fm <= 100
    &&& 5 <= n.level_ssb <= 100
}

/// No change takes a figure out of its range.
#[verifier::rlimit(30)]
pub proof fn law_figures_stay_in_range(n: Figures, a: Around, c: Change)
    requires
        in_range(n, a.fox_max),
        on_earth(a.grid),
    ensures
        in_range(changed_figures(n, a, c), a.fox_max),
{
    if let Some(p) = a.grid {
        lemma_millionths(p.lat as int, LAT_LIMIT as int);
        lemma_millionths(p.lon as int, LON_LIMIT as int);
    }
}

proof fn lemma_millionths(v: int, limit: int)
    requires
        -limit <= v <= limit,
        limit % 1000 == 0,
    ensures
        -limit <= to_millionths(v) <= limit,
{
    reveal(to_millionths);
}

/// The dialog's title; the modes without one of their own share the last.
pub fn dialog_title(mode: Mode, t: Traits, mode_label: &str) -> (title: String)
    ensures
        title@ == if mode == Mode::Aprs {
            "APRS Setup"@
        } else if is_packet(mode) {
            "Packet Setup"@
        } else if t.text_modem || mode == Mode::Hell || mode == Mode::Js8 {
            mode_label@ + " Setup"@
        } else {
            "FT8 / FT4 / FT2 Setup"@
        },
{
    if mode == Mode::Aprs {
        "APRS Setup".to_owned()
    } else if mode == Mode::Packet || mode == Mode::PacketHf {
        "Packet Setup".to_owned()
    } else if t.text_modem || mode == Mode::Hell || mode == Mode::Js8 {
        cat(mode_label, " Setup")
    } else {
        "FT8 / FT4 / FT2 Setup".to_owned()
    }
}

/// What is said of the callsign that goes on the air.
pub fn aprs_identity(call: &str) -> (t: String)
    ensures
        t@ == if call@.len() == 0 {
            "No callsign: this station will not transmit at all — not a beacon, not a message, not an acknowledgement."@
        } else {
            "Transmits as "@ + call@
        },
{
    if call.is_empty() {
        "No callsign: this station will not transmit at all — not a beacon, not a message, not an acknowledgement.".to_owned()
    } else {
        cat("Transmits as ", call)
    }
}

/// The intervals of the heartbeat that are offered, in minutes.
pub open spec fn heartbeat_choices() -> Seq<(u32, Seq<char>)> {
    seq![
        (0u32, "Off"@),
        (10u32, "10 min"@),
        (15u32, "15 min"@),
        (30u32, "30 min"@),
        (60u32, "60 min"@),
    ]
}

/// The intervals of the heartbeat that are offered.
pub fn heartbeats() -> (v: Vec<(u32, &'static str)>)
    ensures
        v@.len() == heartbeat_choices().len(),
        forall|i: int|
            0 <= i < v@.len() ==> (#[trigger] v@[i]).0 == heartbeat_choices()[i].0 && v@[i].1@
                == heartbeat_choices()[i].1,
{
    vec![(0u32, "Off"), (10u32, "10 min"), (15u32, "15 min"), (30u32, "30 min"), (60u32, "60 min")]
}

/// The symbols that are offered as a row of icons: table, code and meaning.
pub open spec fn common_symbols_of() -> Seq<(char, char, Seq<char>)> {
    seq![
        ('/', '-', "Home station"@),
        ('/', '>', "Car"@),
        ('/', 'k', "Truck"@),
        ('/', 'v', "Van"@),
        ('/', '<', "Motorcycle"@),
        ('/', 'b', "Bicycle"@),
        ('/', '[', "Person on foot"@),
        ('/', 'R', "Motorhome"@),
        ('/', 's', "Boat"@),
        ('/', 'Y', "Yacht"@),
        ('/', '\'', "Light aircraft"@),
        ('/', 'O', "Balloon"@),
        ('/', '#', "Digipeater"@),
        ('/', '&', "I-gate"@),
        ('/', 'r', "Repeater"@),
        ('/', '_', "Weather station"@),
        ('/', 'h', "Hospital"@),
        ('/', ';', "Portable / campsite"@),
    ]
}

/// The symbols that are offered as a row of icons.
pub fn common_symbols() -> (v: Vec<(char, char, &'static str)>)
    ensures
        v@.len() == common_symbols_of().len(),
        forall|i: int|
            0 <= i < v@.len() ==> (#[trigger] v@[i]).0 == common_symbols_of()[i].0 && v@[i].1
                == common_symbols_of()[i].1 && v@[i].2@ == common_symbols_of()[i].2,
{
    vec![
        ('/', '-', "Home station"),
        ('/', '>', "Car"),
        ('/', 'k', "Truck"),
        ('/', 'v', "Van"),
        ('/', '<', "Motorcycle"),
        ('/', 'b', "Bicycle"),
        ('/', '[', "Person on foot"),
        ('/', 'R', "Motorhome"),
        ('/', 's', "Boat"),
        ('/', 'Y', "Yacht"),
        ('/', '\'', "Light aircraft"),
        ('/', 'O', "Balloon"),
        ('/', '#', "Digipeater"),
        ('/', '&', "I-gate"),
        ('/', 'r', "Repeater"),
        ('/', '_', "Weather station"),
        ('/', 'h', "Hospital"),
        ('/', ';', "Portable / campsite"),
    ]
}

/// The notes that the dialog shows.
#[derive(Clone, Copy, PartialEq, Eq, Structural, Debug)]
pub struct Notes {
    /// The faster speed needs the radio's data port.
    pub needs_data_port: bool,
    /// The first beacon goes out one interval from now.
    pub first_beacon_waits: bool,
    /// The fastest speed does not beacon.
    pub turbo_is_silent: bool,
    /// How many signals a fox sends at once can be set.
    pub fox_signals: bool,
}

/// The notes that the dialog shows.
pub fn notes(mode: Mode, n: &Figures, turbo: bool) -> (r: Notes)
    ensures
        r == (Notes {
            needs_data_port: mode == Mode::Packet && n.packet.fast,
            first_beacon_waits: mode == Mode::Aprs && n.aprs.beacon_minutes > 0,
            turbo_is_silent: mode == Mode::Js8 && turbo,
            fox_signals: mode != Mode::Aprs && n.qso.expedition == Expedition::Fox,
        }),
{
    Notes {
        needs_data_port: mode == Mode::Packet && n.packet.fast,
        first_beacon_waits: mode == Mode::Aprs && n.aprs.beacon_minutes > 0,
        turbo_is_silent: mode == Mode::Js8 && turbo,
        fox_signals: mode != Mode::Aprs && n.qso.expedition == Expedition::Fox,
    }
}

/// A figure of the packet modes that is set within its range is what was set, and
/// nothing else changes with it. Outside its range it goes to the nearer end.
pub proof fn law_a_packet_figure_is_what_was_set(n: Figures, a: Around, x: u16, on: bool)
    ensures
        changed_figures(n, a, Change::TxDelay(x)) == (Figures {
            txdelay_ms: if x < 50 {
                50
            } else if x > 2000 {
                2000
            } else {
                x
            },
            ..n
        }),
        changed_figures(n, a, Change::Packet(PacketChange::Fast(on))) == (Figures {
            packet: (PacketFigures { fast: on, ..n.packet }),
            ..n
        }),
        16 <= x <= 256 ==> changed_figures(n, a, Change::Packet(PacketChange::Paclen(x))) == (Figures {
            packet: (PacketFigures { paclen: x, ..n.packet }),
            ..n
        }),
        x < 16 ==> changed_figures(n, a, Change::Packet(PacketChange::Paclen(x))).packet.paclen == 16,
        x > 256 ==> changed_figures(n, a, Change::Packet(PacketChange::Paclen(x))).packet.paclen == 256,
        changed_figures(n, a, Change::Packet(PacketChange::ExtSeq(on))) == (Figures {
            packet: (PacketFigures { ext_seq: on, ..n.packet }),
            ..n
        }),
        changed_figures(n, a, Change::Packet(PacketChange::Accept(on))) == (Figures {
            packet: (PacketFigures { accept_incoming: on, ..n.packet }),
            ..n
        }),
        0 <= x <= 120 ==> changed_figures(n, a, Change::Packet(PacketChange::PacketBeacon(x))) == (Figures {
            packet: (PacketFigures { beacon_minutes: x, ..n.packet }),
            ..n
        }),
        x > 120 ==> changed_figures(n, a, Change::Packet(PacketChange::PacketBeacon(x))).packet.beacon_minutes == 120,
        changed_figures(n, a, Change::Packet(PacketChange::Kiss(on))) == (Figures {
            packet: (PacketFigures { kiss_server: on, ..n.packet }),
            ..n
        }),
        1024 <= x <= 65535 ==> changed_figures(n, a, Change::Packet(PacketChange::KissPort(x))) == (Figures {
            packet: (PacketFigures { kiss_port: x, ..n.packet }),
            ..n
        }),
        x < 1024 ==> changed_figures(n, a, Change::Packet(PacketChange::KissPort(x))).packet.kiss_port == 1024,
        x >= 1 && x <= (if n.packet.ext_seq {
            127int
        } else {
            7int
        }) ==> changed_figures(n, a, Change::Packet(PacketChange::MaxFrame(x))) == (Figures {
            packet: (PacketFigures { maxframe: x, ..n.packet }),
            ..n
        }),
        !n.packet.ext_seq && x > 7 ==> changed_figures(
            n,
            a,
            Change::Packet(PacketChange::MaxFrame(x)),
        ).packet.maxframe == 7,
        n.packet.ext_seq && x > 127 ==> changed_figures(
            n,
            a,
            Change::Packet(PacketChange::MaxFrame(x)),
        ).packet.maxframe == 127,
        x == 0 ==> changed_figures(
            n,
            a,
            Change::Packet(PacketChange::MaxFrame(x)),
        ).packet.maxframe == 1,
{
}

/// A figure of the position-reporting mode that is set within its range is what
/// was set, and nothing else changes with it.
pub proof fn law_a_position_figure_is_what_was_set(
    n: Figures,
    a: Around,
    x: u16,
    on: bool,
    symbol: Symbol,
)
    ensures
        0 <= x <= 120 ==> changed_figures(n, a, Change::Aprs(AprsChange::AprsBeacon(x))) == (Figures {
            aprs: (AprsFigures { beacon_minutes: x, ..n.aprs }),
            ..n
        }),
        x > 120 ==> changed_figures(n, a, Change::Aprs(AprsChange::AprsBeacon(x))).aprs.beacon_minutes == 120,
        changed_figures(n, a, Change::Aprs(AprsChange::Compressed(on))) == (Figures {
            aprs: (AprsFigures { compressed: on, ..n.aprs }),
            ..n
        }),
        changed_figures(n, a, Change::Aprs(AprsChange::Ack(on))) == (Figures {
            aprs: (AprsFigures { ack_messages: on, ..n.aprs }),
            ..n
        }),
        5 <= x <= 1440 ==> changed_figures(n, a, Change::Aprs(AprsChange::StationTtl(x))) == (Figures {
            aprs: (AprsFigures { station_ttl_min: x, ..n.aprs }),
            ..n
        }),
        x < 5 ==> changed_figures(n, a, Change::Aprs(AprsChange::StationTtl(x))).aprs.station_ttl_min == 5,
        x > 1440 ==> changed_figures(n, a, Change::Aprs(AprsChange::StationTtl(x))).aprs.station_ttl_min == 1440,
        changed_figures(n, a, Change::Aprs(AprsChange::Symbol(symbol))) == (Figures {
            aprs: (AprsFigures { symbol, ..n.aprs }),
            ..n
        }),
{
}

/// A coordinate is taken as it was typed where the earth has it, and left as it
/// was otherwise.
pub proof fn law_a_typed_coordinate_is_kept(n: Figures, a: Around, typed: Option<i64>)
    ensures
        typed matches Some(v) ==> {
            &&& -90_000_000_000 <= v <= 90_000_000_000 ==> changed_figures(
                n,
                a,
                Change::Aprs(AprsChange::Lat(typed)),
            ) == (Figures { aprs: (AprsFigures { lat: v, ..n.aprs }), ..n })
            &&& -180_000_000_000 <= v <= 180_000_000_000 ==> changed_figures(
                n,
                a,
                Change::Aprs(AprsChange::Lon(typed)),
            ) == (Figures { aprs: (AprsFigures { lon: v, ..n.aprs }), ..n })
            &&& v < -90_000_000_000 || v > 90_000_000_000 ==> changed_figures(
                n,
                a,
                Change::Aprs(AprsChange::Lat(typed)),
            ) == n
            &&& v < -180_000_000_000 || v > 180_000_000_000 ==> changed_figures(
                n,
                a,
                Change::Aprs(AprsChange::Lon(typed)),
            ) == n
        },
        typed is None ==> changed_figures(n, a, Change::Aprs(AprsChange::Lat(typed))) == n
            && changed_figures(n, a, Change::Aprs(AprsChange::Lon(typed))) == n,
{
}

/// Letting go of the locator starts from where it had the station, to the nearest
/// millionth of a degree. Going back to it, or having none, keeps the coordinates.
pub proof fn law_letting_go_of_the_locator_keeps_the_place(n: Figures, a: Around, on: bool)
    requires
        on_earth(a.grid),
    ensures
        ({
            let r = changed_figures(n, a, Change::Aprs(AprsChange::UseGrid(on)));
            &&& r.aprs.use_grid == on
            &&& r == (Figures {
                aprs: (AprsFigures {
                    use_grid: on,
                    lat: r.aprs.lat,
                    lon: r.aprs.lon,
                    ..n.aprs
                }),
                ..n
            })
            &&& on || !n.aprs.use_grid || a.grid is None ==> r.aprs.lat == n.aprs.lat && r.aprs.lon
                == n.aprs.lon
            &&& !on && n.aprs.use_grid && a.grid is Some ==> {
                let p = a.grid->0;
                &&& r.aprs.lat % 1000 == 0 && -500 <= r.aprs.lat - p.lat <= 500
                &&& r.aprs.lon % 1000 == 0 && -500 <= r.aprs.lon - p.lon <= 500
            }
        }),
{
    reveal(to_millionths);
    if let Some(p) = a.grid {
        lemma_millionths(p.lat as int, LAT_LIMIT as int);
        lemma_millionths(p.lon as int, LON_LIMIT as int);
    }
}

/// A figure of the keyboard-message mode is what was set, and nothing else changes
/// with it.
pub proof fn law_a_message_figure_is_what_was_set(n: Figures, a: Around, minutes: u32, on: bool)
    ensures
        changed_figures(n, a, Change::Js8(Js8Change::AutoReply(on))) == (Figures {
            js8: (Js8Figures { auto_reply: on, ..n.js8 }),
            ..n
        }),
        changed_figures(n, a, Change::Js8(Js8Change::HbAnywhere(on))) == (Figures {
            js8: (Js8Figures { hb_anywhere: on, ..n.js8 }),
            ..n
        }),
        changed_figures(n, a, Change::Js8(Js8Change::HbAck(on))) == (Figures {
            js8: (Js8Figures { hb_ack: on, ..n.js8 }),
            ..n
        }),
        changed_figures(n, a, Change::Js8(Js8Change::Heartbeat(minutes))) == (Figures {
            js8: (Js8Figures { heartbeat_min: minutes, ..n.js8 }),
            ..n
        }),
{
}

/// A figure of the modes with exchanges that is set within its range is what was
/// set, and nothing else changes with it.
pub proof fn law_an_exchange_figure_is_what_was_set(
    n: Figures,
    a: Around,
    x: u16,
    on: bool,
    role: Expedition,
)
    ensures
        changed_figures(n, a, Change::Qso(QsoChange::TxEven(on))) == (Figures {
            qso: (QsoFigures { tx_even: on, ..n.qso }),
            ..n
        }),
        changed_figures(n, a, Change::Qso(QsoChange::AutoSeq(on))) == (Figures {
            qso: (QsoFigures { auto_seq: on, ..n.qso }),
            ..n
        }),
        changed_figures(n, a, Change::Qso(QsoChange::AutoTx(on))) == (Figures {
            qso: (QsoFigures { auto_tx_freq: on, ..n.qso }),
            ..n
        }),
        changed_figures(n, a, Change::Qso(QsoChange::HoldTx(on))) == (Figures {
            qso: (QsoFigures { hold_tx_freq: on, ..n.qso }),
            ..n
        }),
        0 <= x <= 60 ==> changed_figures(n, a, Change::Qso(QsoChange::Watchdog(x))) == (Figures {
            qso: (QsoFigures { tx_watchdog_min: x, ..n.qso }),
            ..n
        }),
        x > 60 ==> changed_figures(n, a, Change::Qso(QsoChange::Watchdog(x))).qso.tx_watchdog_min == 60,
        0 <= x <= 30 ==> changed_figures(n, a, Change::Qso(QsoChange::Repeats(x))) == (Figures {
            qso: (QsoFigures { max_tx_repeats: x, ..n.qso }),
            ..n
        }),
        x > 30 ==> changed_figures(n, a, Change::Qso(QsoChange::Repeats(x))).qso.max_tx_repeats == 30,
        changed_figures(n, a, Change::Qso(QsoChange::Expedition(role))) == (Figures {
            qso: (QsoFigures { expedition: role, ..n.qso }),
            ..n
        }),
        1 <= x <= a.fox_max ==> changed_figures(n, a, Change::Qso(QsoChange::FoxSlots(x))) == (
        Figures { qso: (QsoFigures { fox_slots: x, ..n.qso }), ..n }),
        5 <= x <= 100 && a.fm ==> changed_figures(n, a, Change::Level(x)) == (Figures {
            level_fm: x,
            ..n
        }),
        5 <= x <= 100 && !a.fm ==> changed_figures(n, a, Change::Level(x)) == (Figures {
            level_ssb: x,
            ..n
        }),
{
}

/// The dialog of a mode shows what belongs to that mode and nothing of another's.
pub proof fn law_a_dialog_shows_its_own_mode(mode: Mode, n: Figures, turbo: bool, x: u16, on: bool)
    ensures
        ({
            let packet = mode == Mode::Packet || mode == Mode::PacketHf;
            let aprs = mode == Mode::Aprs;
            let js8 = mode == Mode::Js8;
            &&& shows_field(mode, Field::PacketCall) == packet
            &&& shows_field(mode, Field::ConnectText) == packet
            &&& shows_field(mode, Field::ConnectVia) == packet
            &&& shows_field(mode, Field::BeaconText) == packet
            &&& shows_field(mode, Field::AprsCall) == aprs
            &&& shows_field(mode, Field::AprsPath) == aprs
            &&& shows_field(mode, Field::AprsComment) == aprs
            &&& shows_field(mode, Field::Js8Status) == js8
            &&& shows_field(mode, Field::MsgGrid) == !aprs
            &&& shows_field(mode, Field::MsgReport) == !aprs
            &&& shows_field(mode, Field::MsgRReport) == !aprs
            &&& shows_field(mode, Field::MsgRr73) == !aprs
            &&& shows_field(mode, Field::Msg73) == !aprs
            &&& shows_change(mode, n, turbo, Change::TxDelay(x)) == (packet || aprs)
            &&& shows_change(mode, n, turbo, Change::Packet(PacketChange::Fast(on))) == (mode
                == Mode::Packet)
            &&& shows_change(mode, n, turbo, Change::Packet(PacketChange::Paclen(x))) == packet
            &&& shows_change(mode, n, turbo, Change::Packet(PacketChange::ExtSeq(on))) == packet
            &&& shows_change(mode, n, turbo, Change::Packet(PacketChange::Accept(on))) == packet
            &&& shows_change(mode, n, turbo, Change::Packet(PacketChange::PacketBeacon(x)))
                == packet
            &&& shows_change(mode, n, turbo, Change::Packet(PacketChange::Kiss(on))) == packet
            &&& shows_change(mode, n, turbo, Change::Packet(PacketChange::KissPort(x))) == packet
            &&& shows_change(mode, n, turbo, Change::Packet(PacketChange::MaxFrame(x))) == packet
            &&& shows_change(mode, n, turbo, Change::Aprs(AprsChange::AprsBeacon(x))) == aprs
            &&& shows_change(mode, n, turbo, Change::Aprs(AprsChange::Compressed(on))) == aprs
            &&& shows_change(mode, n, turbo, Change::Aprs(AprsChange::Ack(on))) == aprs
            &&& shows_change(mode, n, turbo, Change::Aprs(AprsChange::StationTtl(x))) == aprs
            &&& shows_change(mode, n, turbo, Change::Aprs(AprsChange::UseGrid(on))) == aprs
            &&& shows_change(mode, n, turbo, Change::Js8(Js8Change::AutoReply(on))) == js8
            &&& shows_change(mode, n, turbo, Change::Js8(Js8Change::HbAnywhere(on))) == js8
            &&& shows_change(mode, n, turbo, Change::Qso(QsoChange::TxEven(on))) == !aprs
            &&& shows_change(mode, n, turbo, Change::Qso(QsoChange::AutoSeq(on))) == !aprs
            &&& shows_change(mode, n, turbo, Change::Qso(QsoChange::AutoTx(on))) == !aprs
            &&& shows_change(mode, n, turbo, Change::Qso(QsoChange::HoldTx(on))) == !aprs
            &&& shows_change(mode, n, turbo, Change::Qso(QsoChange::Watchdog(x))) == !aprs
            &&& shows_change(mode, n, turbo, Change::Qso(QsoChange::Repeats(x))) == !aprs
        }),
{
}

/// Some controls work only with others: coordinates without the locator, the
/// acknowledgement of heartbeats with automatic replies and below the fastest
/// speed, the number of signals with a fox.
pub proof fn law_controls_that_hang_on_others(
    mode: Mode,
    n: Figures,
    turbo: bool,
    typed: Option<i64>,
    x: u16,
    on: bool,
)
    ensures
        shows_change(mode, n, turbo, Change::Aprs(AprsChange::Lat(typed))) ==> !n.aprs.use_grid,
        shows_change(mode, n, turbo, Change::Aprs(AprsChange::Lon(typed))) ==> !n.aprs.use_grid,
        mode == Mode::Aprs && !n.aprs.use_grid ==> shows_change(
            mode,
            n,
            turbo,
            Change::Aprs(AprsChange::Lat(typed)),
        ) && shows_change(mode, n, turbo, Change::Aprs(AprsChange::Lon(typed))),
        mode == Mode::Js8 ==> shows_change(mode, n, turbo, Change::Js8(Js8Change::HbAck(on))) == (
        n.js8.auto_reply && !turbo),
        mode != Mode::Aprs ==> shows_change(mode, n, turbo, Change::Qso(QsoChange::FoxSlots(x)))
            == (n.qso.expedition == Expedition::Fox),
{
}

/// A text that is typed goes to its own field, callsigns in upper case and the
/// rest as typed, and every other text and figure stays. A text that the mode's
/// dialog does not show stays too.
pub proof fn law_a_typed_text_goes_to_its_field(
    s: Settings,
    mode: Mode,
    a: Around,
    f: Field,
    t: String,
    r: Settings,
)
    requires
        is_edited(s, mode, a, Edit::Text(f, t), r),
    ensures
        r.figures == s.figures,
        r.texts.my_call@ == if f == Field::MyCall {
            uppercase(t@)
        } else {
            s.texts.my_call@
        },
        r.texts.my_grid@ == if f == Field::MyGrid {
            t@
        } else {
            s.texts.my_grid@
        },
        r.texts.packet_mycall@ == if f == Field::PacketCall && (mode == Mode::Packet || mode == Mode::PacketHf) {
            uppercase(t@)
        } else {
            s.texts.packet_mycall@
        },
        r.texts.packet_connect_text@ == if f == Field::ConnectText && (mode == Mode::Packet || mode == Mode::PacketHf) {
            t@
        } else {
            s.texts.packet_connect_text@
        },
        r.texts.packet_connect_via@ == if f == Field::ConnectVia && (mode == Mode::Packet || mode == Mode::PacketHf) {
            t@
        } else {
            s.texts.packet_connect_via@
        },
        r.texts.packet_beacon_text@ == if f == Field::BeaconText && (mode == Mode::Packet || mode == Mode::PacketHf) {
            t@
        } else {
            s.texts.packet_beacon_text@
        },
        r.texts.aprs_mycall@ == if f == Field::AprsCall && mode == Mode::Aprs {
            uppercase(t@)
        } else {
            s.texts.aprs_mycall@
        },
        r.texts.aprs_path@ == if f == Field::AprsPath && mode == Mode::Aprs {
            t@
        } else {
            s.texts.aprs_path@
        },
        r.texts.aprs_comment@ == if f == Field::AprsComment && mode == Mode::Aprs {
            t@
        } else {
            s.texts.aprs_comment@
        },
        r.texts.js8_status@ == if f == Field::Js8Status && mode == Mode::Js8 {
            t@
        } else {
            s.texts.js8_status@
        },
        r.texts.msg_cq@ == if f == Field::MsgCq && mode != Mode::Aprs {
            t@
        } else {
            s.texts.msg_cq@
        },
        r.texts.msg_grid@ == if f == Field::MsgGrid && mode != Mode::Aprs {
            t@
        } else {
            s.texts.msg_grid@
        },
        r.texts.msg_report@ == if f == Field::MsgReport && mode != Mode::Aprs {
            t@
        } else {
            s.texts.msg_report@
        },
        r.texts.msg_rreport@ == if f == Field::MsgRReport && mode != Mode::Aprs {
            t@
        } else {
            s.texts.msg_rreport@
        },
        r.texts.msg_rr73@ == if f == Field::MsgRr73 && mode != Mode::Aprs {
            t@
        } else {
            s.texts.msg_rr73@
        },
        r.texts.msg_73@ == if f == Field::Msg73 && mode != Mode::Aprs {
            t@
        } else {
            s.texts.msg_73@
        },
{
    assert(r.texts.my_call@ == r.texts.at(Field::MyCall));
    assert(r.texts.my_grid@ == r.texts.at(Field::MyGrid));
    assert(r.texts.packet_mycall@ == r.texts.at(Field::PacketCall));
    assert(r.texts.packet_connect_text@ == r.texts.at(Field::ConnectText));
    assert(r.texts.packet_connect_via@ == r.texts.at(Field::ConnectVia));
    assert(r.texts.packet_beacon_text@ == r.texts.at(Field::BeaconText));
    assert(r.texts.aprs_mycall@ == r.texts.at(Field::AprsCall));
    assert(r.texts.aprs_path@ == r.texts.at(Field::AprsPath));
    assert(r.texts.aprs_comment@ == r.texts.at(Field::AprsComment));
    assert(r.texts.js8_status@ == r.texts.at(Field::Js8Status));
    assert(r.texts.msg_cq@ == r.texts.at(Field::MsgCq));
    assert(r.texts.msg_grid@ == r.texts.at(Field::MsgGrid));
    assert(r.texts.msg_report@ == r.texts.at(Field::MsgReport));
    assert(r.texts.msg_rreport@ == r.texts.at(Field::MsgRReport));
    assert(r.texts.msg_rr73@ == r.texts.at(Field::MsgRr73));
    assert(r.texts.msg_73@ == r.texts.at(Field::Msg73));
}

/// A change is sent exactly where it changes something that the dialog shows, a
/// symbol whenever it is chosen, a text whenever its field is shown.
pub proof fn law_what_changed_is_sent(s: Settings, mode: Mode, a: Around, c: Change, r: Settings)
    requires
        is_edited(s, mode, a, Edit::Figure(c), r),
    ensures
        r.texts == s.texts,
        !shows_change(mode, s.figures, a.turbo, c) ==> r.figures == s.figures,
        shows_change(mode, s.figures, a.turbo, c) ==> r.figures == changed_figures(s.figures, a, c),
        r.figures != s.figures ==> counts(s, mode, a, Edit::Figure(c)),
        counts(s, mode, a, Edit::Figure(c)) && r.figures == s.figures ==> mode == Mode::Aprs && (
        exists|x: Symbol| c == Change::Aprs(AprsChange::Symbol(x))),
        mode == Mode::Aprs && (exists|x: Symbol| c == Change::Aprs(AprsChange::Symbol(x)))
            ==> counts(s, mode, a, Edit::Figure(c)),
{
    if is_symbol(c) {
        let x = c->Aprs_0->Symbol_0;
        assert(c == Change::Aprs(AprsChange::Symbol(x)));
        if counts(s, mode, a, Edit::Figure(c)) {
            assert(mode == Mode::Aprs);
        } else if changed_figures(s.figures, a, c) != s.figures {
            assert(r == s);
        } else {
            assert(r == s);
        }
    }
}

/// Two typed characters are the symbol, the table first; fewer change nothing.
pub proof fn law_two_characters_make_a_symbol(
    s: Settings,
    mode: Mode,
    a: Around,
    t: String,
    r: Settings,
)
    requires
        is_edited(s, mode, a, Edit::SymbolText(t), r),
    ensures
        mode == Mode::Aprs && t@.len() >= 2 ==> r.figures.aprs.symbol.table == t@[0]
            && r.figures.aprs.symbol.code == t@[1] && r.texts == s.texts && r.figures == (Figures {
            aprs: (AprsFigures { symbol: r.figures.aprs.symbol, ..s.figures.aprs }),
            ..s.figures
        }),
        mode != Mode::Aprs || t@.len() < 2 ==> r == s,
{
}

/// The intervals of the heartbeat rise from none, and each says its own minutes.
pub proof fn law_heartbeat_choices_rise()
    ensures
        heartbeat_choices().len() == 5,
        heartbeat_choices()[0] == (0u32, "Off"@),
        forall|i: int, j: int|
            0 <= i < j < heartbeat_choices().len() ==> (#[trigger] heartbeat_choices()[i]).0 < (
            #[trigger] heartbeat_choices()[j]).0,
        forall|i: int|
            1 <= i < heartbeat_choices().len() ==> (#[trigger] heartbeat_choices()[i]).1
                == crate::text::dec(heartbeat_choices()[i].0 as nat) + " min"@,
{
    reveal_with_fuel(crate::text::dec, 3);
    reveal_strlit("Off");
    reveal_strlit(" min");
    reveal_strlit("10 min");
    reveal_strlit("15 min");
    reveal_strlit("30 min");
    reveal_strlit("60 min");
    let h = heartbeat_choices();
    assert forall|i: int| 1 <= i < h.len() implies (#[trigger] h[i]).1 == crate::text::dec(
        h[i].0 as nat,
    ) + " min"@ by {
        assert(h[i].1 =~= crate::text::dec(h[i].0 as nat) + " min"@);
    }
}

/// The symbols that are offered are all of the first table, and no two are the
/// same.
pub proof fn law_offered_symbols_differ()
    ensures
        common_symbols_of().len() == 18,
        forall|i: int|
            0 <= i < common_symbols_of().len() ==> (#[trigger] common_symbols_of()[i]).0 == '/',
        forall|i: int, j: int|
            0 <= i < j < common_symbols_of().len() ==> (#[trigger] common_symbols_of()[i]).1 != (
            #[trigger] common_symbols_of()[j]).1,
{
}

/// Each symbol that is offered says what it stands for.
pub proof fn law_a_symbol_has_its_meaning(i: int)
    requires
        0 <= i < common_symbols_of().len(),
    ensures
        common_symbols_of()[i].2 == match common_symbols_of()[i].1 {
            '-' => "Home station"@,
            '>' => "Car"@,
            'k' => "Truck"@,
            'v' => "Van"@,
            '<' => "Motorcycle"@,
            'b' => "Bicycle"@,
            '[' => "Person on foot"@,
            'R' => "Motorhome"@,
            's' => "Boat"@,
            'Y' => "Yacht"@,
            '\'' => "Light aircraft"@,
            'O' => "Balloon"@,
            '#' => "Digipeater"@,
            '&' => "I-gate"@,
            'r' => "Repeater"@,
            '_' => "Weather station"@,
            'h' => "Hospital"@,
            _ => "Portable / campsite"@,
        },
        common_symbols_of()[0].1 == '-',
        common_symbols_of().last().1 == ';',
{
}

} // verus!
