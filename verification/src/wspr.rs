//! The propagation beacon: receptions kept, the beacon's state, its settings.

use vstd::prelude::*;

use crate::clock::{hm_text, time_str};
use crate::command::{Command, DigiConfig};
use crate::decodes::{tone_choices, ToneChip};
use crate::double::{mhz, mhz_text, WHOLE_END};
use crate::ink::Ink;
use crate::layout::{map_budget, map_of, HEIGHT_END, WHOLE};
use crate::setup::{changed_figures, Around, Change, Figures, QsoChange, QsoFigures};
use crate::text::{
    blank, cat, dec, dec2, dec_signed, decimal, decimal2, decimal_signed, is_blank, same, trim,
    trimmed,
};

verus! {

/// How many receptions are kept.
pub const WSPR_SPOT_ROWS: usize = 400;

/// The length of a slot, in milliseconds.
pub const WSPR_SLOT_MS: u32 = 120_000;

/// One reception, of a beacon by this station or of this station by another.
#[derive(Debug)]
pub struct WsprSpot {
    /// What tells one reception from another, whichever way it came in.
    pub key: String,
    pub call: String,
    pub grid: Option<String>,
    pub reporter: Option<String>,
    pub reporter_grid: Option<String>,
    /// Another station heard this one.
    pub heard_us: bool,
    pub snr_db: i16,
    pub power_dbm: i16,
    pub slot_utc: i64,
}

/// True when a reception with this key is in the list.
pub open spec fn has_key(list: Seq<WsprSpot>, key: Seq<char>) -> bool {
    exists|i: int| 0 <= i < list.len() && (#[trigger] list[i]).key@ == key
}

/// The list with one reception put in front, unless it is there already.
pub open spec fn with_spot(list: Seq<WsprSpot>, s: WsprSpot) -> Seq<WsprSpot> {
    if has_key(list, s.key@) {
        list
    } else {
        seq![s] + list
    }
}

/// The list with a batch put in front, its last reception first in line.
pub open spec fn with_spots(list: Seq<WsprSpot>, batch: Seq<WsprSpot>) -> Seq<WsprSpot>
    decreases batch.len(),
{
    if batch.len() == 0 {
        list
    } else {
        with_spots(with_spot(list, batch.last()), batch.drop_last())
    }
}

/// The first `n` of a list, or all of it where it is shorter.
pub open spec fn first_of<T>(s: Seq<T>, n: int) -> Seq<T> {
    if s.len() > n {
        s.take(n)
    } else {
        s
    }
}

fn key_held(list: &Vec<WsprSpot>, key: &str) -> (r: bool)
    ensures
        r == has_key(list@, key@),
{
    let mut i: usize = 0;
    while i < list.len()
        invariant
            i <= list@.len(),
            forall|j: int| 0 <= j < i ==> (#[trigger] list@[j]).key@ != key@,
        decreases list@.len() - i,
    {
        if same(list[i].key.as_str(), key) {
            return true;
        }
        i = i + 1;
    }
    false
}

/// Takes a batch of receptions in, newest first. One that is held already is
/// passed over, and only the newest [`WSPR_SPOT_ROWS`] are kept.
pub fn add_spots(list: &mut Vec<WsprSpot>, batch: Vec<WsprSpot>)
    ensures
        final(list)@ == first_of(with_spots(old(list)@, batch@), WSPR_SPOT_ROWS as int),
        final(list)@.len() <= WSPR_SPOT_ROWS,
{
    let mut batch = batch;
    let ghost all = batch@;
    while batch.len() > 0
        invariant
            with_spots(list@, batch@) == with_spots(old(list)@, all),
        decreases batch@.len(),
    {
        let ghost before = list@;
        let ghost left = batch@;
        if let Some(s) = batch.pop() {
            assert(s == left.last());
            assert(batch@ == left.drop_last());
            if !key_held(list, s.key.as_str()) {
                list.insert(0, s);
                assert(list@ =~= seq![s] + before);
            }
        }
    }
    list.truncate(WSPR_SPOT_ROWS);
}

/// True of a list in which no reception stands twice.
pub open spec fn keys_apart(list: Seq<WsprSpot>) -> bool {
    forall|i: int, j: int|
        0 <= i < j < list.len() ==> (#[trigger] list[i]).key@ != (#[trigger] list[j]).key@
}

/// Taking receptions in never shows one twice, and drops none from a list
/// that has room.
pub proof fn law_no_reception_twice(list: Seq<WsprSpot>, batch: Seq<WsprSpot>)
    requires
        keys_apart(list),
    ensures
        keys_apart(with_spots(list, batch)),
        keys_apart(first_of(with_spots(list, batch), WSPR_SPOT_ROWS as int)),
        with_spots(list, batch).len() >= list.len(),
        with_spots(list, batch).skip(with_spots(list, batch).len() - list.len()) == list,
    decreases batch.len(),
{
    if batch.len() > 0 {
        let s = batch.last();
        let next = with_spot(list, s);
        assert(keys_apart(next)) by {
            if !has_key(list, s.key@) {
                assert forall|i: int, j: int| 0 <= i < j < next.len() implies (
                #[trigger] next[i]).key@ != (#[trigger] next[j]).key@ by {
                    assert(next[j] == list[j - 1]);
                    if i > 0 {
                        assert(next[i] == list[i - 1]);
                    } else {
                        assert(list[j - 1].key@ != s.key@);
                    }
                }
            }
        }
        law_no_reception_twice(next, batch.drop_last());
        let all = with_spots(list, batch);
        let a = all.skip(all.len() - next.len());
        assert(a == next);
        let b = all.skip(all.len() - list.len());
        assert forall|i: int| 0 <= i < list.len() implies b[i] == list[i] by {
            let d = next.len() - list.len();
            assert(b[i] == all[all.len() - list.len() + i]);
            assert(a[i + d] == all[all.len() - next.len() + i + d]);
            assert(next[i + d] == list[i]);
        }
        assert(b =~= list);
    } else {
        assert(list.skip(0) =~= list);
    }
}

/// The same receptions arriving again change nothing, as long as the list had
/// room for them all.
pub proof fn law_receptions_settle(list: Seq<WsprSpot>, batch: Seq<WsprSpot>)
    requires
        with_spots(list, batch).len() <= WSPR_SPOT_ROWS,
    ensures
        ({
            let once = first_of(with_spots(list, batch), WSPR_SPOT_ROWS as int);
            first_of(with_spots(once, batch), WSPR_SPOT_ROWS as int) == once
        }),
{
    lemma_all_taken_in(list, batch);
    lemma_known_spots(with_spots(list, batch), batch);
}

proof fn lemma_keys_stay(list: Seq<WsprSpot>, batch: Seq<WsprSpot>, key: Seq<char>)
    requires
        has_key(list, key),
    ensures
        has_key(with_spots(list, batch), key),
    decreases batch.len(),
{
    if batch.len() > 0 {
        let next = with_spot(list, batch.last());
        let i = choose|i: int| 0 <= i < list.len() && (#[trigger] list[i]).key@ == key;
        if next != list {
            assert(next[i + 1] == list[i]);
        }
        assert(has_key(next, key));
        lemma_keys_stay(next, batch.drop_last(), key);
    }
}

proof fn lemma_all_taken_in(list: Seq<WsprSpot>, batch: Seq<WsprSpot>)
    ensures
        forall|i: int|
            0 <= i < batch.len() ==> has_key(with_spots(list, batch), (#[trigger] batch[i]).key@),
    decreases batch.len(),
{
    if batch.len() > 0 {
        let s = batch.last();
        let next = with_spot(list, s);
        lemma_all_taken_in(next, batch.drop_last());
        if !has_key(list, s.key@) {
            assert(next[0] == s);
        }
        assert(has_key(next, s.key@));
        lemma_keys_stay(next, batch.drop_last(), s.key@);
        assert forall|i: int| 0 <= i < batch.len() implies has_key(
            with_spots(list, batch),
            (#[trigger] batch[i]).key@,
        ) by {
            if i < batch.len() - 1 {
                assert(batch.drop_last()[i] == batch[i]);
            }
        }
    }
}

proof fn lemma_known_spots(list: Seq<WsprSpot>, batch: Seq<WsprSpot>)
    requires
        forall|i: int| 0 <= i < batch.len() ==> has_key(list, (#[trigger] batch[i]).key@),
    ensures
        with_spots(list, batch) == list,
    decreases batch.len(),
{
    if batch.len() > 0 {
        assert(has_key(list, batch[batch.len() - 1].key@));
        assert forall|i: int| 0 <= i < batch.drop_last().len() implies has_key(
            list,
            (#[trigger] batch.drop_last()[i]).key@,
        ) by {
            assert(batch.drop_last()[i] == batch[i]);
        }
        lemma_known_spots(list, batch.drop_last());
    }
}

/// Colour a report by how much margin it had, on the scale of a mode whose
/// floor is at -29 dB.
pub fn snr_color(db: i16) -> (i: Ink)
    ensures
        i == if db >= -10 {
            Ink::Green
        } else if db >= -20 {
            Ink::Cyan
        } else if db >= -26 {
            Ink::Yellow
        } else {
            Ink::Pink
        },
{
    if db >= -10 {
        Ink::Green
    } else if db >= -20 {
        Ink::Cyan
    } else if db >= -26 {
        Ink::Yellow
    } else {
        Ink::Pink
    }
}

/// How many receptions of a list are of this station.
pub open spec fn heard_us_count(list: Seq<WsprSpot>) -> nat
    decreases list.len(),
{
    if list.len() == 0 {
        0
    } else {
        heard_us_count(list.drop_last()) + if list.last().heard_us {
            1nat
        } else {
            0nat
        }
    }
}

/// The heading of the list: what was heard, and by how many this station was.
pub fn receptions_label(list: &Vec<WsprSpot>) -> (t: String)
    ensures
        heard_us_count(list@) <= list@.len(),
        t@ == if heard_us_count(list@) > 0 {
            dec((list@.len() - heard_us_count(list@)) as nat) + " rx · "@ + dec(
                heard_us_count(list@),
            ) + " heard us"@
        } else {
            dec(list@.len()) + " rx"@
        },
{
    let mut heard: usize = 0;
    let mut i: usize = 0;
    assert(list@.take(0).len() == 0);
    while i < list.len()
        invariant
            i <= list@.len(),
            heard <= i,
            heard == heard_us_count(list@.take(i as int)),
        decreases list@.len() - i,
    {
        assert(list@.take(i + 1).drop_last() =~= list@.take(i as int));
        if list[i].heard_us {
            heard = heard + 1;
        }
        i = i + 1;
    }
    assert(list@.take(list@.len() as int) =~= list@);
    if heard > 0 {
        let mut t = decimal((list.len() - heard) as u64);
        t.append(" rx · ");
        t.append(decimal(heard as u64).as_str());
        t.append(" heard us");
        t
    } else {
        let mut t = decimal(list.len() as u64);
        t.append(" rx");
        t
    }
}

/// The callsign at the far end of a path: the beacon that was heard, or the
/// station that heard this one.
pub open spec fn far_call(s: WsprSpot) -> Seq<char> {
    if s.heard_us {
        match s.reporter {
            Some(r) => r@,
            None => "?"@,
        }
    } else {
        s.call@
    }
}

/// The callsign and the locator at the far end of a path.
pub fn far_end(s: &WsprSpot) -> (r: (String, Option<String>))
    ensures
        r.0@ == far_call(*s),
        r.1 == if s.heard_us {
            s.reporter_grid
        } else {
            s.grid
        },
{
    if s.heard_us {
        let who = match &s.reporter {
            Some(r) => r.clone(),
            None => "?".to_owned(),
        };
        (who, crate::qso::copy_text(&s.reporter_grid))
    } else {
        (s.call.clone(), crate::qso::copy_text(&s.grid))
    }
}

/// When a reception was: the hour and minute its slot began.
pub fn slot_time(s: &WsprSpot) -> (t: String)
    ensures
        t@ == hm_text(s.slot_utc as int),
{
    time_str(s.slot_utc)
}

/// The whole seconds left of a slot, to the nearest.
pub open spec fn seconds_left(into_ms: u32) -> nat {
    if into_ms >= WSPR_SLOT_MS {
        0
    } else {
        ((WSPR_SLOT_MS - into_ms + 500) / 1000) as nat
    }
}

/// What is left of the slot, as minutes and seconds.
pub fn countdown(into_ms: u32) -> (t: String)
    ensures
        t@ == dec(seconds_left(into_ms) / 60) + ":"@ + dec2(seconds_left(into_ms) % 60),
{
    let left: u64 = if into_ms >= WSPR_SLOT_MS {
        0
    } else {
        ((WSPR_SLOT_MS - into_ms + 500) / 1000) as u64
    };
    let mut t = decimal(left / 60);
    t.append(":");
    t.append(decimal2(left % 60).as_str());
    t
}

/// What the slot that ended brought.
pub open spec fn last_slot(decoding: bool, spots: u32) -> Seq<char> {
    if decoding {
        "decoding…"@
    } else if spots == 0 {
        "nothing heard"@
    } else if spots == 1 {
        "1 beacon"@
    } else {
        dec(spots as nat) + " beacons"@
    }
}

/// What the slot that ended brought.
pub fn last_slot_text(decoding: bool, spots: u32) -> (t: String)
    ensures
        t@ == last_slot(decoding, spots),
{
    if decoding {
        "decoding…".to_owned()
    } else if spots == 0 {
        "nothing heard".to_owned()
    } else if spots == 1 {
        "1 beacon".to_owned()
    } else {
        let mut t = decimal(spots as u64);
        t.append(" beacons");
        t
    }
}

/// What the next slot will be used for, given how the power is written.
pub fn next_slot_text(tx_percent: u8, tx_next: bool, power: &str) -> (t: String)
    ensures
        t@ == if tx_percent == 0 {
            "receive only"@
        } else if tx_next {
            "beaconing — "@ + power@ + ", "@ + dec(tx_percent as nat) + "% duty"@
        } else {
            "listening ("@ + dec(tx_percent as nat) + "% duty)"@
        },
{
    if tx_percent == 0 {
        "receive only".to_owned()
    } else if tx_next {
        let mut t = cat("beaconing — ", power);
        t.append(", ");
        t.append(decimal(tx_percent as u64).as_str());
        t.append("% duty");
        t
    } else {
        let mut t = cat("listening (", decimal(tx_percent as u64).as_str());
        t.append("% duty)");
        t
    }
}

/// The beacon's settings.
#[derive(Clone, Copy, PartialEq, Eq, Structural, Debug)]
pub struct Beacon {
    /// Share of the slots that transmit; zero is receive only.
    pub tx_percent: u8,
    pub power_dbm: i16,
    pub hop: bool,
    /// One bit for each band that hopping visits.
    pub hop_bands: u16,
}

/// True while the radio works with other settings than were asked for.
pub fn waiting_for_radio(live: Beacon, edited: Beacon) -> (r: bool)
    ensures
        r == (live.tx_percent != edited.tx_percent || live.power_dbm != edited.power_dbm),
{
    live.tx_percent != edited.tx_percent || live.power_dbm != edited.power_dbm
}

/// The shares of slots that can be chosen, and the names of their chips.
pub open spec fn duty_choices() -> Seq<(u8, Seq<char>)> {
    seq![(0u8, "OFF"@), (10u8, "10%"@), (20u8, "20%"@), (33u8, "33%"@), (50u8, "50%"@)]
}

/// The shares of slots that can be chosen.
pub fn duty_chips() -> (v: Vec<(u8, &'static str)>)
    ensures
        v@.len() == duty_choices().len(),
        forall|i: int|
            0 <= i < v@.len() ==> (#[trigger] v@[i]).0 == duty_choices()[i].0 && v@[i].1@
                == duty_choices()[i].1,
{
    vec![(0u8, "OFF"), (10u8, "10%"), (20u8, "20%"), (33u8, "33%"), (50u8, "50%")]
}

/// One slot out of how many a share stands for, to the nearest.
pub fn one_slot_in(percent: u8) -> (n: u32)
    requires
        percent > 0,
    ensures
        n == (100 + percent as int / 2) / percent as int,
{
    (100 + percent as u32 / 2) / percent as u32
}

/// True when a share can be chosen: receive only always can, the others need a
/// transmitter.
pub fn duty_enabled(percent: u8, tx_ok: bool) -> (r: bool)
    ensures
        r == (percent == 0 || tx_ok),
{
    percent == 0 || tx_ok
}

/// One change to the beacon's settings.
#[derive(Clone, Copy, PartialEq, Eq, Structural, Debug)]
pub enum BeaconPress {
    Duty(u8),
    Power(i16),
    Hop,
    /// The place of a band in the list of bands.
    HopBand(u8),
}

/// The settings after a press.
pub open spec fn after_press(b: Beacon, p: BeaconPress) -> Beacon {
    match p {
        BeaconPress::Duty(n) => Beacon { tx_percent: n, ..b },
        BeaconPress::Power(n) => Beacon { power_dbm: n, ..b },
        BeaconPress::Hop => Beacon { hop: !b.hop, ..b },
        BeaconPress::HopBand(i) => Beacon { hop_bands: b.hop_bands ^ (1u16 << (i as u16)), ..b },
    }
}

/// Changes the settings and sends them. Nothing changes before the radio's own
/// settings have arrived, nor on choosing the share or the power that is chosen
/// already.
pub fn press_beacon(b: &mut Beacon, p: BeaconPress, seeded: bool) -> (c: Option<Command>)
    requires
        p matches BeaconPress::HopBand(i) ==> i < 16,
    ensures
        if seeded && !(p matches BeaconPress::Duty(n) && n == old(b).tx_percent) && !(
        p matches BeaconPress::Power(n) && n == old(b).power_dbm) {
            *final(b) == after_press(*old(b), p) && c == Some(
                Command::SetDigiConfig(DigiConfig::Beacon(*final(b))),
            )
        } else {
            *final(b) == *old(b) && c is None
        },
{
    if !seeded {
        return None;
    }
    match p {
        BeaconPress::Duty(n) => {
            if n == b.tx_percent {
                return None;
            }
            b.tx_percent = n;
        },
        BeaconPress::Power(n) => {
            if n == b.power_dbm {
                return None;
            }
            b.power_dbm = n;
        },
        BeaconPress::Hop => {
            b.hop = !b.hop;
        },
        BeaconPress::HopBand(i) => {
            b.hop_bands = b.hop_bands ^ (1u16 << (i as u16));
        },
    }
    Some(Command::SetDigiConfig(DigiConfig::Beacon(*b)))
}

/// The figures after a press on the chip that picks another offset for every
/// transmission.
pub open spec fn roamed(n: QsoFigures) -> QsoFigures {
    QsoFigures { auto_tx_freq: !n.auto_tx_freq, ..n }
}

/// Presses the chip that picks another offset for every transmission, and sends
/// the choice. It is the automatic transmit frequency of the modes with
/// exchanges, which the decode list and the dialog show too. Nothing changes
/// before the radio's own settings have arrived.
pub fn press_roam(n: &mut QsoFigures, seeded: bool) -> (c: Option<Command>)
    ensures
        *final(n) == if seeded {
            roamed(*old(n))
        } else {
            *old(n)
        },
        c == if seeded {
            Some(
                Command::SetDigiConfig(
                    DigiConfig::Tone(final(n).auto_tx_freq, final(n).hold_tx_freq),
                ),
            )
        } else {
            None
        },
{
    if !seeded {
        return None;
    }
    n.auto_tx_freq = !n.auto_tx_freq;
    Some(Command::SetDigiConfig(DigiConfig::Tone(n.auto_tx_freq, n.hold_tx_freq)))
}

/// The beacon's panel, the decode list and the dialog show one and the same
/// choice of who places the tone: the chip does what the list's does while no
/// hold is on, and what the dialog's does; no other change in the dialog takes
/// it back.
pub proof fn law_one_automatic_tone(f: Figures, a: Around, c: Change)
    requires
        !(c matches Change::Qso(QsoChange::AutoTx(_))),
    ensures
        !f.qso.hold_tx_freq ==> tone_choices(f.qso.auto_tx_freq, f.qso.hold_tx_freq, ToneChip::Auto)
            == (roamed(f.qso).auto_tx_freq, roamed(f.qso).hold_tx_freq),
        (Figures { qso: roamed(f.qso), ..f }) == changed_figures(
            f,
            a,
            Change::Qso(QsoChange::AutoTx(!f.qso.auto_tx_freq)),
        ),
        changed_figures(Figures { qso: roamed(f.qso), ..f }, a, c).qso.auto_tx_freq
            == !f.qso.auto_tx_freq,
        roamed(roamed(f.qso)) == f.qso,
{
}

/// Pressing a band's chip takes it into the cycle or out of it, leaves every
/// other band alone, and a second press undoes the first.
pub proof fn law_hop_band_chip_toggles(mask: u16, i: u16, j: u16)
    requires
        i < 16,
        j < 16,
        i != j,
    ensures
        ((mask ^ (1u16 << i)) & (1u16 << i) != 0) != (mask & (1u16 << i) != 0),
        (mask ^ (1u16 << i)) & (1u16 << j) == mask & (1u16 << j),
        (mask ^ (1u16 << i)) ^ (1u16 << i) == mask,
{
    assert(((mask ^ (1u16 << i)) & (1u16 << i) != 0) != (mask & (1u16 << i) != 0)) by (bit_vector)
        requires
            i < 16u16,
    ;
    assert((mask ^ (1u16 << i)) & (1u16 << j) == mask & (1u16 << j)) by (bit_vector)
        requires
            i < 16u16,
            j < 16u16,
            i != j,
    ;
    assert((mask ^ (1u16 << i)) ^ (1u16 << i) == mask) by (bit_vector);
}

/// What is told and asked of the network that collects receptions.
#[derive(Clone, Copy, PartialEq, Eq, Structural, Debug)]
pub struct Reporting {
    pub upload: bool,
    pub who_heard_us: bool,
}

/// The two chips about that network.
#[derive(Clone, Copy, PartialEq, Eq, Structural, Debug)]
pub enum ReportChip {
    Upload,
    WhoHeardUs,
}

/// Presses one of the two chips and sends the settings. Nothing changes before
/// the radio's own settings have arrived.
pub fn press_reporting(r: &mut Reporting, chip: ReportChip, seeded: bool) -> (c: Option<Command>)
    ensures
        c == if seeded {
            Some(Command::SetNetworkConfig(*final(r)))
        } else {
            None
        },
        *final(r) == if !seeded {
            *old(r)
        } else if chip == ReportChip::Upload {
            Reporting { upload: !old(r).upload, ..*old(r) }
        } else {
            Reporting { who_heard_us: !old(r).who_heard_us, ..*old(r) }
        },
{
    if !seeded {
        return None;
    }
    match chip {
        ReportChip::Upload => {
            r.upload = !r.upload;
        },
        ReportChip::WhoHeardUs => {
            r.who_heard_us = !r.who_heard_us;
        },
    }
    Some(Command::SetNetworkConfig(*r))
}

/// What is said under the bands of the hop: it needs one to go to.
pub fn hop_warning(b: Beacon) -> (w: Option<&'static str>)
    ensures
        match w {
            Some(s) => b.hop && b.hop_bands == 0 && s@
                == "none selected — hopping has nowhere to go"@,
            None => !b.hop || b.hop_bands != 0,
        },
{
    if b.hop && b.hop_bands == 0 {
        Some("none selected — hopping has nowhere to go")
    } else {
        None
    }
}

/// The line about the identity that goes out, given the locator as it is sent.
pub fn identity_line(call: &str, grid: &str, sent_grid: Option<&str>) -> (r: (String, Ink))
    ensures
        is_blank(call@) || is_blank(grid@) ==> r.0@
            == "Set your callsign and grid on the General tab of Settings before transmitting."@
            && r.1 == Ink::Yellow,
        !is_blank(call@) && !is_blank(grid@) ==> r.0@ == "Transmitting as "@ + trim(call@) + " in "@
            + (match sent_grid {
            Some(g) => g@,
            None => trim(grid@),
        }) + " — set on the General tab of Settings."@ && r.1 == Ink::Gray(110),
{
    if blank(call) || blank(grid) {
        return (
            "Set your callsign and grid on the General tab of Settings before transmitting.".to_owned(),
            Ink::Yellow,
        );
    }
    let mut t = cat("Transmitting as ", trimmed(call).as_str());
    t.append(" in ");
    match sent_grid {
        Some(g) => {
            t.append(g);
        },
        None => {
            t.append(trimmed(grid).as_str());
        },
    }
    t.append(" — set on the General tab of Settings.");
    (t, Ink::Gray(110))
}

/// Why the beacon will not transmit, shown only where transmitting was asked
/// for.
pub fn blocked_reason(tx_percent: u8, why: Option<&str>) -> (r: Option<String>)
    ensures
        match (r, why) {
            (Some(s), Some(w)) => tx_percent > 0 && s@ == w@,
            (None, Some(_)) => tx_percent == 0,
            (None, None) => true,
            (Some(_), None) => false,
        },
{
    match why {
        Some(w) => if tx_percent > 0 {
            Some(w.to_owned())
        } else {
            None
        },
        None => None,
    }
}

/// A band and a frequency: the dial in use to six decimals, the next one of the
/// hop to four.
pub fn band_line(band: &str, hz: u64, next_hop: bool) -> (t: String)
    requires
        hz < WHOLE_END,
    ensures
        t@ == band@ + " · "@ + mhz_text(
            hz as nat,
            if next_hop {
                4
            } else {
                6
            },
        ) + " MHz"@,
{
    let mut t = cat(band, " · ");
    let places: usize = if next_hop {
        4
    } else {
        6
    };
    t.append(mhz(hz, places).as_str());
    t.append(" MHz");
    t
}

/// The arrow ahead of a reception, which is its whole meaning: left where this
/// station heard the other, right where the other heard it.
pub fn direction(s: &WsprSpot) -> (r: (&'static str, Ink))
    ensures
        r.0@ == if s.heard_us {
            "→"@
        } else {
            "←"@
        },
        r.1 == if s.heard_us {
            Ink::Yellow
        } else {
            Ink::Cyan
        },
{
    if s.heard_us {
        ("→", Ink::Yellow)
    } else {
        ("←", Ink::Cyan)
    }
}

/// A reception's report, and its colour.
pub fn report_cell(s: &WsprSpot) -> (r: (String, Ink))
    ensures
        r.0@ == dec_signed(s.snr_db as int) + " dB"@,
        r.1 == if s.snr_db >= -10 {
            Ink::Green
        } else if s.snr_db >= -20 {
            Ink::Cyan
        } else if s.snr_db >= -26 {
            Ink::Yellow
        } else {
            Ink::Pink
        },
{
    let mut t = decimal_signed(s.snr_db as i64);
    t.append(" dB");
    (t, snr_color(s.snr_db))
}

/// What is drawn of the beacon's panel.
#[derive(Clone, Copy, PartialEq, Eq, Structural, Debug)]
pub enum Panes {
    Receptions,
    WorldMap,
    Status,
    /// Receptions on the left, map and status on the right.
    Columns,
}

/// What is drawn of the beacon's panel: one pane on a phone and below 520
/// points of width, given in thousandths, else both columns.
pub fn panes(phone: bool, width: u64, pane: usize) -> (p: Panes)
    ensures
        p == if phone || width < 520_000 {
            if pane == 0 {
                Panes::Receptions
            } else if pane == 1 {
                Panes::WorldMap
            } else {
                Panes::Status
            }
        } else {
            Panes::Columns
        },
{
    if phone || width < 520_000 {
        if pane == 0 {
            Panes::Receptions
        } else if pane == 1 {
            Panes::WorldMap
        } else {
            Panes::Status
        }
    } else {
        Panes::Columns
    }
}

/// The height of the map above the beacon's state, in thousandths of a point: a
/// share of the range from its least height to 62 hundredths of the panel.
/// `None` on a panel too short for one, where the state is worth more.
pub fn map_height(least: u64, panel: u64, width: u64, fraction: u64) -> (h: Option<u64>)
    requires
        least < HEIGHT_END,
        panel < HEIGHT_END,
        width < HEIGHT_END,
        fraction <= WHOLE,
    ensures
        h == if panel < 2 * least {
            None
        } else {
            Some(
                map_of(
                    least as int,
                    panel * 62 / 100,
                    0,
                    width as int,
                    fraction as int,
                ) as u64,
            )
        },
{
    if panel < 2 * least {
        None
    } else {
        Some(map_budget(least, panel * 62 / 100, 0, width, fraction))
    }
}

/// What the slot's bar shows.
#[derive(Clone, Copy, PartialEq, Eq, Structural, Debug)]
pub enum SlotState {
    Transmitting,
    Decoding,
    Listening,
}

/// What the slot is used for right now.
pub fn slot_state(transmitting: bool, decoding: bool) -> (s: SlotState)
    ensures
        s == if transmitting {
            SlotState::Transmitting
        } else if decoding {
            SlotState::Decoding
        } else {
            SlotState::Listening
        },
{
    if transmitting {
        SlotState::Transmitting
    } else if decoding {
        SlotState::Decoding
    } else {
        SlotState::Listening
    }
}

/// Receptions that are all new stand on top in the order they came; one that is
/// known already changes nothing.
pub proof fn law_new_receptions_stand_on_top(list: Seq<WsprSpot>, batch: Seq<WsprSpot>)
    requires
        forall|i: int, j: int|
            0 <= i < j < batch.len() ==> (#[trigger] batch[i]).key@ != (#[trigger] batch[j]).key@,
        forall|i: int, j: int|
            0 <= i < batch.len() && 0 <= j < list.len() ==> (#[trigger] batch[i]).key@ != (
            #[trigger] list[j]).key@,
    ensures
        with_spots(list, batch) == batch + list,
    decreases batch.len(),
{
    if batch.len() > 0 {
        let s = batch.last();
        let init = batch.drop_last();
        assert(batch[batch.len() - 1] == s);
        assert(!has_key(list, s.key@));
        let next = seq![s] + list;
        assert forall|i: int, j: int| 0 <= i < init.len() && 0 <= j < next.len() implies (
        #[trigger] init[i]).key@ != (#[trigger] next[j]).key@ by {
            assert(init[i] == batch[i]);
            if j > 0 {
                assert(next[j] == list[j - 1]);
            } else {
                assert(batch[i].key@ != batch[batch.len() - 1].key@);
            }
        }
        assert forall|i: int, j: int| 0 <= i < j < init.len() implies (#[trigger] init[i]).key@ != (
        #[trigger] init[j]).key@ by {
            assert(init[i] == batch[i] && init[j] == batch[j]);
        }
        law_new_receptions_stand_on_top(next, init);
        assert(init + next =~= batch + list);
    } else {
        assert(batch + list =~= list);
    }
}

/// A reception whose key is listed already is not listed again: the list stays
/// as it is.
pub proof fn law_a_known_reception_changes_nothing(list: Seq<WsprSpot>, s: WsprSpot, i: int)
    requires
        0 <= i < list.len(),
        list[i].key@ == s.key@,
    ensures
        with_spots(list, seq![s]) == list,
{
    assert(seq![s].drop_last() =~= Seq::<WsprSpot>::empty());
    assert(seq![s].last() == s);
    assert(has_key(list, s.key@));
    assert(with_spots(list, seq![s].drop_last()) == list);
}

/// The receptions of this station are those that another one reports, and no
/// others.
pub proof fn law_who_heard_us_is_counted(list: Seq<WsprSpot>, s: WsprSpot)
    ensures
        heard_us_count(list.push(s)) == heard_us_count(list) + (if s.heard_us {
            1nat
        } else {
            0nat
        }),
        heard_us_count(list) <= list.len(),
        (forall|i: int| 0 <= i < list.len() ==> !(#[trigger] list[i]).heard_us) == (heard_us_count(
            list,
        ) == 0),
    decreases list.len(),
{
    assert(list.push(s).drop_last() =~= list);
    if list.len() > 0 {
        let init = list.drop_last();
        law_who_heard_us_is_counted(init, list.last());
        assert(list[list.len() - 1] == list.last());
        if forall|i: int| 0 <= i < list.len() ==> !(#[trigger] list[i]).heard_us {
            assert forall|i: int| 0 <= i < init.len() implies !(#[trigger] init[i]).heard_us by {
                assert(init[i] == list[i]);
            }
        }
        if heard_us_count(list) == 0 {
            assert forall|i: int| 0 <= i < list.len() implies !(#[trigger] list[i]).heard_us by {
                if i < init.len() {
                    assert(init[i] == list[i]);
                }
            }
        }
    }
}

/// At the far end of a path stands the beacon that was heard, or the station
/// that heard this one.
pub proof fn law_the_far_end_is_the_other_station(s: WsprSpot)
    ensures
        !s.heard_us ==> far_call(s) == s.call@,
        s.heard_us && s.reporter is Some ==> far_call(s) == s.reporter->0@,
        s.heard_us && s.reporter is None ==> far_call(s) == "?"@,
{
}

/// The countdown runs from two minutes to nothing, never up, and is off by half
/// a second at most.
pub proof fn law_the_countdown_runs_down(a: u32, b: u32)
    requires
        a <= b,
    ensures
        seconds_left(b) <= seconds_left(a) <= 120,
        seconds_left(0) == 120,
        a <= 120_000 ==> -500 <= 1000 * seconds_left(a) - (120_000 - a) <= 500,
        a >= 120_000 ==> seconds_left(a) == 0,
{
}

/// A press on one of the beacon's controls changes its own setting and no other.
pub proof fn law_a_press_changes_its_own_setting(b: Beacon, n: u8, p: i16, i: u8)
    ensures
        after_press(b, BeaconPress::Duty(n)) == (Beacon { tx_percent: n, ..b }),
        after_press(b, BeaconPress::Power(p)) == (Beacon { power_dbm: p, ..b }),
        after_press(b, BeaconPress::Hop).hop != b.hop,
        after_press(after_press(b, BeaconPress::Hop), BeaconPress::Hop) == b,
        after_press(b, BeaconPress::HopBand(i)).hop == b.hop && after_press(
            b,
            BeaconPress::HopBand(i),
        ).tx_percent == b.tx_percent && after_press(b, BeaconPress::HopBand(i)).power_dbm
            == b.power_dbm,
{
}

/// The shares of slots rise from chip to chip, from receive only to one half,
/// and each chip but the first is named after its share.
pub proof fn law_duty_choices_rise(i: int)
    requires
        0 <= i < duty_choices().len(),
    ensures
        duty_choices()[0].0 == 0,
        duty_choices().last().0 == 50,
        i > 0 ==> duty_choices()[i - 1].0 < duty_choices()[i].0,
        i > 0 ==> duty_choices()[i].1 == dec(duty_choices()[i].0 as nat) + "%"@,
{
    reveal_with_fuel(dec, 3);
    reveal_strlit("10%");
    reveal_strlit("20%");
    reveal_strlit("33%");
    reveal_strlit("50%");
    reveal_strlit("%");
    assert(i == 1 ==> duty_choices()[i].1 =~= dec(10) + "%"@);
    assert(i == 2 ==> duty_choices()[i].1 =~= dec(20) + "%"@);
    assert(i == 3 ==> duty_choices()[i].1 =~= dec(33) + "%"@);
    assert(i == 4 ==> duty_choices()[i].1 =~= dec(50) + "%"@);
}

/// The line about the slot that ended says that it is still being decoded, or
/// how many beacons it brought.
pub proof fn law_the_last_slot_is_counted(spots: u32)
    ensures
        last_slot(true, spots) == "decoding…"@,
        last_slot(false, 0) == "nothing heard"@,
        spots == 1 ==> last_slot(false, spots) == "1 beacon"@,
        spots > 1 ==> last_slot(false, spots) == dec(spots as nat) + " beacons"@,
{
}

} // verus!
