//! One radio's tab: its state, and what a batch of the radio's events makes of
//! it.

use std::collections::HashMap;

use vstd::prelude::*;

use crate::command::Command;
use crate::decodes::Decode;
use crate::events::{
    carries_rows, clears, drop_disabled, is_cleared, last_keyed,
    law_silent_signals_keep_their_moment, of_enabled, on_digi_status, on_picture_status,
    on_skimmer_spots, on_station_config, seen, Adopt, Cleared, LogSession, LoginTests, PictureMode,
    Seeded, SkimmerSpot, Traffic, DECODE_ROWS,
};
use crate::form::{is_saved, save_entry, LogEditForm, Readings, Saved};
use crate::frame::{forget_cfg, CfgDebounce};
use crate::logrow::LogCaches;
use crate::mode::{Band, Mode};
use crate::net::{
    auto_uploads, law_each_switch_selects_its_service, may_look_up, selected, with_line,
    CallsignInfo, LookupProvider, NetworkConfig, UploadResult, UploadTarget, NET_LOG_LINES,
};
use crate::qso::{first_with_id, ids_apart, lemma_max_id, max_id, QsoRecord};
use crate::replies::{
    apply_callsign, apply_confirmations, confirmations_line, confirmed_by_all, form_filled,
    form_is_for, is_latest_with, law_confirmations_only_add_marks, lookup_summary, marked_sent,
    newly_confirmed, on_upload_result, only_marks_added, record_filled, record_takes, upload_line,
    CallsignCache,
};
use crate::retry::{longer, stagger, Link, CLOCK_END_MS};
use crate::roster::{law_layouts_are_apart, view_key, view_key_text};
use crate::text::{ascii_upper, is_blank, same_ignoring_case, texts, trim};
use crate::wspr::{
    first_of, keys_apart, law_no_reception_twice, with_spots, WsprSpot, WSPR_SPOT_ROWS,
};

verus! {

/// The state of one radio's tab.
#[derive(Debug)]
pub struct SdroxideApp {
    pub radio_id: u32,
    /// This tab writes what the whole station shares.
    pub station_writer: bool,
    /// The key that the layout is stored under.
    pub view_key: String,
    /// The broadcast schedule is being fetched.
    pub fetching_schedule: bool,
    /// The check for a new release is under way.
    pub checking_release: bool,
    pub focused: bool,
    /// Other tabs write the same log.
    pub shared_log: bool,
    pub mode: Mode,
    pub band: Band,
    pub link: Link,
    pub notice: Option<String>,
    pub traffic: Traffic,
    pub logged: LogSession,
    pub caches: LogCaches,
    pub edit: Option<LogEditForm>,
    pub net_log: Vec<String>,
    pub callsigns: CallsignCache,
    pub logins: LoginTests,
    pub digi_seeded: bool,
    pub seeded: Seeded,
    pub picture: PictureMode,
    pub skimmer: Vec<SkimmerSpot>,
    pub skimmer_at: HashMap<u64, i64>,
    /// A panadapter frame is held, and when the last one came.
    pub has_frame: bool,
    pub last_frame_ms: i64,
    /// It came in the pass that is under way, so nothing has drawn it yet.
    pub frame_undrawn: bool,
}

/// Something the radio's engine reports.
#[derive(Debug)]
pub enum Event {
    /// The far end accepted the session.
    Accepted,
    State(Mode, Band),
    Lost(String),
    Notice(Option<String>),
    Decodes(Vec<Decode>),
    WsprSpots(Vec<WsprSpot>),
    DigiStatus,
    /// A contact was logged; with the log as it is stored, which counts where
    /// other tabs write it too.
    Logged(QsoRecord, Option<Vec<QsoRecord>>),
    Picture(Option<u8>),
    Skimmer(Vec<SkimmerSpot>),
    /// A panadapter frame.
    Spectrum,
    /// The station's settings; whether its band plan is the one in use.
    Station(bool),
    Callsign(CallsignInfo),
    /// An upload's reply, and what its service is called.
    Upload(UploadResult, String),
    Confirmations(Vec<QsoRecord>),
    /// A sign-in was tried: target, its name, whether it went well, and what
    /// was said.
    Login(u8, String, bool, String),
}

/// What is left to do outside once an event was taken in.
#[derive(Clone, Copy, PartialEq, Eq, Structural, Debug)]
pub enum Effect {
    Nothing,
    /// The window is titled after the radio where the tab is focused; what was
    /// shown of the old session is forgotten.
    Restart,
    /// What else was received is cleared as far as this says.
    Clear(Cleared),
    /// The engine's settings fill the dialog in.
    AdoptDigi,
    Adopt(Adopt),
    /// The log changed and has to be stored.
    StoreLog,
    /// The frame takes the place of the one that is held, and carries its rows
    /// on where this says so.
    Frame(bool),
}

/// True when nothing differs but what the events about the log change.
pub open spec fn same_beside_log(a: SdroxideApp, b: SdroxideApp) -> bool {
    b == (SdroxideApp {
        logged: b.logged,
        caches: b.caches,
        edit: b.edit,
        net_log: b.net_log,
        callsigns: b.callsigns,
        ..a
    })
}

/// True when the caches are forgotten where `changed`, and kept otherwise.
pub open spec fn caches_after(a: LogCaches, changed: bool, b: LogCaches) -> bool {
    if changed {
        b.awards is None && b.heat is None && b.worked is None && b.index is None
    } else {
        b == a
    }
}

/// The log that a logged contact is added to: where other tabs write it too,
/// the one that is stored, since this tab's copy may be stale.
pub open spec fn log_base(a: SdroxideApp, stored: Option<Vec<QsoRecord>>) -> Seq<QsoRecord> {
    match stored {
        Some(l) if a.shared_log => l@,
        _ => a.logged.log@,
    }
}

/// True when a logged contact takes the tab from `a` to `b`.
pub open spec fn is_logged_step(
    a: SdroxideApp,
    r: QsoRecord,
    stored: Option<Vec<QsoRecord>>,
    cfg: NetworkConfig,
    b: SdroxideApp,
) -> bool {
    let before = log_base(a, stored);
    let id = (max_id(before) + 1) as u64;
    &&& b == (SdroxideApp { logged: b.logged, ..a })
    &&& b.logged.log@ == before.push(QsoRecord { id, ..r })
    &&& b.logged.session_qsos == a.logged.session_qsos + 1
    &&& if may_look_up(cfg, r.call@) {
        &&& b.logged.pending_lookups@.len() == a.logged.pending_lookups@.len() + 1
        &&& b.logged.pending_lookups@.drop_last() == a.logged.pending_lookups@
        &&& b.logged.pending_lookups@.last()@ == trim(r.call@)
    } else {
        b.logged.pending_lookups@ == a.logged.pending_lookups@
    }
    &&& if auto_uploads(cfg) {
        &&& b.logged.pending_uploads@.len() == a.logged.pending_uploads@.len() + 1
        &&& b.logged.pending_uploads@.drop_last() == a.logged.pending_uploads@
        &&& b.logged.pending_uploads@.last().0 == id
        &&& b.logged.pending_uploads@.last().1@ == selected(
            seq![
                cfg.auto_upload_eqsl,
                cfg.auto_upload_qrz,
                cfg.auto_upload_hamqth,
                cfg.auto_upload_clublog,
            ],
        )
    } else {
        b.logged.pending_uploads@ == a.logged.pending_uploads@
    }
}

/// True when a lookup takes the tab from `a` to `b`, changing the log or not.
pub open spec fn is_callsign_step(
    a: SdroxideApp,
    info: CallsignInfo,
    changed: bool,
    b: SdroxideApp,
) -> bool {
    &&& same_beside_log(a, b)
    &&& b.logged == (LogSession { log: b.logged.log, ..a.logged })
    &&& texts(b.net_log@) == with_line(texts(a.net_log@), lookup_summary(info))
    &&& forall|c: Seq<char>, x: CallsignInfo| #[trigger]
        b.callsigns.holds(c, x) == (if c == ascii_upper(info.call@) {
            x == info
        } else {
            a.callsigns.holds(c, x)
        })
    &&& form_is_for(a.edit, info) ==> b.edit is Some && form_filled(a.edit->0, info, b.edit->0)
    &&& !form_is_for(a.edit, info) ==> b.edit == a.edit
    &&& changed == (!form_is_for(a.edit, info) && exists|i: int| #[trigger]
        is_latest_with(a.logged.log@, info.call@, i) && record_takes(a.logged.log@[i], info))
    &&& !changed ==> b.logged.log@ == a.logged.log@
    &&& changed ==> exists|i: int| #[trigger]
        is_latest_with(a.logged.log@, info.call@, i) && record_filled(
            a.logged.log@[i],
            info,
            b.logged.log@[i],
        ) && b.logged.log@ == a.logged.log@.update(i, b.logged.log@[i])
    &&& caches_after(a.caches, changed, b.caches)
}

/// True when an upload's reply takes the tab from `a` to `b`, changing the log
/// or not.
pub open spec fn is_upload_step(
    a: SdroxideApp,
    r: UploadResult,
    label: Seq<char>,
    changed: bool,
    b: SdroxideApp,
) -> bool {
    &&& b == (SdroxideApp { logged: b.logged, net_log: b.net_log, ..a })
    &&& b.logged == (LogSession { log: b.logged.log, ..a.logged })
    &&& texts(b.net_log@) == with_line(texts(a.net_log@), upload_line(label, r))
    &&& changed == (r.ok && exists|i: int| #[trigger] first_with_id(a.logged.log@, r.qso_id, i))
    &&& !changed ==> b.logged.log@ == a.logged.log@
    &&& forall|i: int| #[trigger]
        first_with_id(a.logged.log@, r.qso_id, i) && r.ok ==> b.logged.log@
            == a.logged.log@.update(i, marked_sent(a.logged.log@[i], r.target))
}

/// True when confirmations take the tab from `a` to `b`, changing the log or
/// not.
pub open spec fn is_confirmed_step(
    a: SdroxideApp,
    recs: Seq<QsoRecord>,
    changed: bool,
    b: SdroxideApp,
) -> bool {
    &&& b == (SdroxideApp { logged: b.logged, net_log: b.net_log, caches: b.caches, ..a })
    &&& b.logged == (LogSession { log: b.logged.log, ..a.logged })
    &&& b.logged.log@ == confirmed_by_all(a.logged.log@, recs)
    &&& changed == (newly_confirmed(a.logged.log@, recs) > 0)
    &&& texts(b.net_log@) == with_line(
        texts(a.net_log@),
        confirmations_line(recs.len(), newly_confirmed(a.logged.log@, recs)),
    )
    &&& caches_after(a.caches, changed, b.caches)
}

/// What goes with an event beside the event itself: the moment, whether a lost
/// link can be dialled again, and the network settings.
#[derive(Clone, Copy, Debug)]
pub struct Now<'a> {
    pub ms: i64,
    pub can_reconnect: bool,
    pub cfg: &'a NetworkConfig,
}

/// True when an event takes the tab from `a` to `b` and leaves `e` to be done.
pub open spec fn is_step(a: SdroxideApp, ev: Event, now: Now, e: Effect, b: SdroxideApp) -> bool {
    match ev {
        Event::Accepted => e == Effect::Restart && b == (SdroxideApp {
            link: (Link { backoff: crate::retry::RETRY_MIN_MS, ..a.link }),
            ..a
        }),
        Event::State(mode, band) => {
            &&& e == Effect::Clear(clears(a.mode, a.band, mode, band))
            &&& is_cleared(a.traffic, clears(a.mode, a.band, mode, band), b.traffic)
            &&& b == (SdroxideApp { mode, band, traffic: b.traffic, ..a })
        },
        Event::Lost(error) => {
            &&& e == Effect::Nothing
            &&& b == (SdroxideApp { link: b.link, ..a })
            &&& b.link.error == Some(error)
            &&& if a.link.retry_at is Some || !now.can_reconnect {
                b.link.retry_at == a.link.retry_at && b.link.backoff == a.link.backoff
            } else {
                &&& b.link.retry_at == Some((now.ms + a.link.backoff + stagger(a.radio_id)) as i64)
                &&& b.link.backoff == longer(a.link.backoff as int)
            }
        },
        Event::Notice(n) => e == Effect::Nothing && b == (SdroxideApp { notice: n, ..a }),
        Event::Decodes(batch) => {
            &&& e == Effect::Nothing
            &&& b == (SdroxideApp { traffic: b.traffic, ..a })
            &&& b.traffic == (Traffic { decodes: b.traffic.decodes, ..a.traffic })
            &&& b.traffic.decodes@ == first_of(batch@ + a.traffic.decodes@, DECODE_ROWS as int)
        },
        Event::WsprSpots(batch) => {
            &&& e == Effect::Nothing
            &&& b == (SdroxideApp { traffic: b.traffic, ..a })
            &&& b.traffic == (Traffic { wspr_spots: b.traffic.wspr_spots, ..a.traffic })
            &&& b.traffic.wspr_spots@ == first_of(
                with_spots(a.traffic.wspr_spots@, batch@),
                WSPR_SPOT_ROWS as int,
            )
        },
        Event::DigiStatus => {
            &&& e == if a.digi_seeded {
                Effect::Nothing
            } else {
                Effect::AdoptDigi
            }
            &&& b == (SdroxideApp { digi_seeded: true, ..a })
        },
        Event::Logged(r, stored) => e == Effect::StoreLog && is_logged_step(
            a,
            r,
            stored,
            *now.cfg,
            b,
        ),
        Event::Picture(detected) => {
            &&& e == Effect::Nothing
            &&& b == (SdroxideApp { picture: b.picture, ..a })
            &&& b.picture.last_detected == detected
            &&& b.picture.tx_mode == if detected != a.picture.last_detected && detected is Some {
                detected->0
            } else {
                a.picture.tx_mode
            }
            &&& b.picture.preview_dirty == (a.picture.preview_dirty || (detected
                != a.picture.last_detected && detected is Some))
        },
        Event::Skimmer(spots) => {
            &&& e == Effect::Nothing
            &&& b == (SdroxideApp { skimmer: spots, skimmer_at: b.skimmer_at, ..a })
            &&& forall|id: u64| #[trigger] b.skimmer_at@.contains_key(id) == seen(spots@, id)
            &&& forall|id: u64|
                seen(spots@, id) ==> #[trigger] b.skimmer_at@[id] == last_keyed(
                    a.skimmer_at@,
                    spots@,
                    now.ms,
                    id,
                )
        },
        Event::Spectrum => e == Effect::Frame(a.frame_undrawn && a.has_frame) && b == (
        SdroxideApp { has_frame: true, last_frame_ms: now.ms, frame_undrawn: true, ..a }),
        Event::Station(same_plan) => {
            &&& e == Effect::Adopt(
                Adopt {
                    net: !a.seeded.net,
                    rigctld: !a.seeded.rigctld,
                    tci_server: !a.seeded.tci_server,
                    wsjtx: !a.seeded.wsjtx,
                    satellites: !a.seeded.satellites,
                    rotator: !a.seeded.rotator,
                    region: true,
                    band_plan: !same_plan,
                },
            )
            &&& b == (SdroxideApp {
                seeded: (Seeded {
                    net: true,
                    rigctld: true,
                    tci_server: true,
                    wsjtx: true,
                    satellites: true,
                    rotator: true,
                }),
                ..a
            })
        },
        Event::Callsign(info) => {
            &&& e == Effect::StoreLog || e == Effect::Nothing
            &&& is_callsign_step(a, info, e == Effect::StoreLog, b)
        },
        Event::Upload(r, label) => {
            &&& e == Effect::StoreLog || e == Effect::Nothing
            &&& is_upload_step(a, r, label@, e == Effect::StoreLog, b)
        },
        Event::Confirmations(recs) => {
            &&& e == Effect::StoreLog || e == Effect::Nothing
            &&& is_confirmed_step(a, recs@, e == Effect::StoreLog, b)
        },
        Event::Login(target, label, ok, message) => {
            &&& e == Effect::Nothing
            &&& b == (SdroxideApp { logins: b.logins, net_log: b.net_log, ..a })
            &&& b.logins.pending@ == a.logins.pending@.remove(target)
            &&& b.logins.results@ == a.logins.results@.insert(target, (ok, message))
            &&& texts(b.net_log@) == with_line(
                texts(a.net_log@),
                label@ + ": "@ + (if ok {
                    "ok, "@ + message@
                } else {
                    message@
                }),
            )
        },
    }
}

/// True of a tab with nothing received yet. Only the tab that writes for the
/// station fetches the schedule, and checks for a release where that is
/// switched on.
pub open spec fn is_fresh(
    a: SdroxideApp,
    radio_id: u32,
    station_writer: bool,
    update_check: bool,
    mode: Mode,
    band: Band,
    log: Seq<QsoRecord>,
) -> bool {
    &&& a.radio_id == radio_id
    &&& a.station_writer == station_writer
    &&& a.fetching_schedule == station_writer
    &&& a.checking_release == (station_writer && update_check)
    &&& a.focused && !a.shared_log
    &&& a.mode == mode && a.band == band
    &&& a.logged.log@ == log
    &&& a.logged.session_qsos == 0
    &&& a.logged.pending_lookups@.len() == 0 && a.logged.pending_uploads@.len() == 0
    &&& a.link.error is None && a.link.retry_at is None
    &&& a.link.backoff == crate::retry::RETRY_MIN_MS
    &&& a.traffic.decodes@.len() == 0 && a.traffic.wspr_spots@.len() == 0
    &&& a.traffic.text_tx@.len() == 0 && a.traffic.preview is None
    &&& a.edit is None && a.notice is None && a.net_log@.len() == 0
    &&& a.callsigns.entries@.len() == 0
    &&& a.logins.pending@ == Map::<u8, bool>::empty()
    &&& a.logins.results@ == Map::<u8, (bool, String)>::empty()
    &&& !a.digi_seeded
    &&& a.seeded == (Seeded {
        net: false,
        rigctld: false,
        tci_server: false,
        wsjtx: false,
        satellites: false,
        rotator: false,
    })
    &&& a.picture == (PictureMode { last_detected: None, tx_mode: 0, preview_dirty: false })
    &&& a.skimmer@.len() == 0
    &&& a.skimmer_at@ == Map::<u64, i64>::empty()
    &&& !a.has_frame && !a.frame_undrawn && a.last_frame_ms == 0
    &&& caches_after(a.caches, true, a.caches)
}

impl SdroxideApp {
    /// What holds of a tab at every moment: its lists are bounded, no beacon
    /// and no callsign is held twice, and the wait for a redial is in range.
    pub open spec fn wf(&self) -> bool {
        &&& self.link.wf()
        &&& self.callsigns.wf()
        &&& self.net_log@.len() <= NET_LOG_LINES
        &&& self.traffic.decodes@.len() <= DECODE_ROWS
        &&& self.traffic.wspr_spots@.len() <= WSPR_SPOT_ROWS
        &&& keys_apart(self.traffic.wspr_spots@)
        &&& self.view_key@ == view_key_text(self.radio_id)
    }

    /// A tab with nothing received yet. It starts in the mode and on the band
    /// that the radio is taken to be on until it says so itself.
    pub fn new_tab(
        radio_id: u32,
        station_writer: bool,
        update_check: bool,
        mode: Mode,
        band: Band,
        log: Vec<QsoRecord>,
    ) -> (a: SdroxideApp)
        ensures
            a.wf(),
            is_fresh(a, radio_id, station_writer, update_check, mode, band, log@),
    {
        broadcast use vstd::std_specs::hash::group_hash_axioms;

        SdroxideApp {
            radio_id,
            station_writer,
            view_key: view_key(radio_id),
            fetching_schedule: station_writer,
            checking_release: station_writer && update_check,
            focused: true,
            shared_log: false,
            mode,
            band,
            link: Link::new(),
            notice: None,
            traffic: Traffic {
                decodes: Vec::new(),
                wspr_spots: Vec::new(),
                preview: None,
                text_tx: String::new(),
            },
            logged: LogSession {
                log,
                session_qsos: 0,
                pending_lookups: Vec::new(),
                pending_uploads: Vec::new(),
            },
            caches: LogCaches { awards: None, heat: None, worked: None, index: None },
            edit: None,
            net_log: Vec::new(),
            callsigns: CallsignCache { entries: Vec::new() },
            logins: LoginTests { pending: HashMap::new(), results: HashMap::new() },
            digi_seeded: false,
            seeded: Seeded {
                net: false,
                rigctld: false,
                tci_server: false,
                wsjtx: false,
                satellites: false,
                rotator: false,
            },
            picture: PictureMode { last_detected: None, tx_mode: 0, preview_dirty: false },
            skimmer: Vec::new(),
            skimmer_at: HashMap::new(),
            has_frame: false,
            last_frame_ms: 0,
            frame_undrawn: false,
        }
    }

    /// The only radio of a session: the first, which writes for the station.
    pub fn new(update_check: bool, mode: Mode, band: Band, log: Vec<QsoRecord>) -> (a: SdroxideApp)
        ensures
            a.wf(),
            is_fresh(a, 0, true, update_check, mode, band, log@),
    {
        SdroxideApp::new_tab(0, true, update_check, mode, band, log)
    }

    /// True when a number is left for one more contact.
    pub open spec fn has_room(&self, ev: Event) -> bool {
        ev matches Event::Logged(_, stored) ==> max_id(log_base(*self, stored)) < u64::MAX
            && self.logged.session_qsos < u32::MAX
    }

    /// Takes in one event.
    #[verifier::rlimit(30)]
    pub fn on_event(&mut self, ev: Event, now: Now) -> (e: Effect)
        requires
            old(self).wf(),
            old(self).has_room(ev),
            now.ms <= CLOCK_END_MS,
        ensures
            final(self).wf(),
            is_step(*old(self), ev, now, e, *final(self)),
    {
        match ev {
            Event::Accepted => self.on_accepted(now),
            Event::State(mode, band) => self.on_state(mode, band, now),
            Event::Lost(error) => self.on_lost(error, now),
            Event::Notice(n) => {
                self.notice = n;
                Effect::Nothing
            },
            Event::Decodes(batch) => self.on_decodes(batch, now),
            Event::WsprSpots(batch) => self.on_wspr(batch, now),
            Event::DigiStatus => self.on_status(now),
            Event::Logged(r, stored) => self.on_logged(r, stored, now),
            Event::Picture(detected) => self.on_picture(detected, now),
            Event::Skimmer(spots) => self.on_skimmer(spots, now),
            Event::Spectrum => self.on_spectrum(now),
            Event::Station(same_plan) => self.on_station(same_plan, now),
            Event::Callsign(info) => self.on_callsign(info),
            Event::Upload(r, label) => self.on_upload(r, label),
            Event::Confirmations(recs) => self.on_confirmations(recs),
            Event::Login(target, label, ok, message) => self.on_login(
                target,
                label,
                ok,
                message,
                now,
            ),
        }
    }

    fn on_accepted(&mut self, now: Now) -> (e: Effect)
        requires
            old(self).wf(),
        ensures
            final(self).wf(),
            is_step(*old(self), Event::Accepted, now, e, *final(self)),
    {
        self.link.on_accepted();
        Effect::Restart
    }

    fn on_state(&mut self, mode: Mode, band: Band, now: Now) -> (e: Effect)
        requires
            old(self).wf(),
        ensures
            final(self).wf(),
            is_step(*old(self), Event::State(mode, band), now, e, *final(self)),
    {
        let c = self.traffic.on_state(self.mode, self.band, mode, band);
        self.mode = mode;
        self.band = band;
        Effect::Clear(c)
    }

    fn on_lost(&mut self, error: String, now: Now) -> (e: Effect)
        requires
            old(self).wf(),
            now.ms <= CLOCK_END_MS,
        ensures
            final(self).wf(),
            is_step(*old(self), Event::Lost(error), now, e, *final(self)),
    {
        self.link.on_lost(error, now.ms, self.radio_id, now.can_reconnect);
        Effect::Nothing
    }

    fn on_decodes(&mut self, batch: Vec<Decode>, now: Now) -> (e: Effect)
        requires
            old(self).wf(),
        ensures
            final(self).wf(),
            is_step(*old(self), Event::Decodes(batch), now, e, *final(self)),
    {
        self.traffic.on_decodes(batch);
        Effect::Nothing
    }

    fn on_wspr(&mut self, batch: Vec<WsprSpot>, now: Now) -> (e: Effect)
        requires
            old(self).wf(),
        ensures
            final(self).wf(),
            is_step(*old(self), Event::WsprSpots(batch), now, e, *final(self)),
    {
        proof {
            law_no_reception_twice(self.traffic.wspr_spots@, batch@);
        }
        self.traffic.on_wspr_spots(batch);
        Effect::Nothing
    }

    fn on_status(&mut self, now: Now) -> (e: Effect)
        requires
            old(self).wf(),
        ensures
            final(self).wf(),
            is_step(*old(self), Event::DigiStatus, now, e, *final(self)),
    {
        if on_digi_status(&mut self.digi_seeded) {
            Effect::AdoptDigi
        } else {
            Effect::Nothing
        }
    }

    fn on_logged(&mut self, r: QsoRecord, stored: Option<Vec<QsoRecord>>, now: Now) -> (e: Effect)
        requires
            old(self).wf(),
            old(self).has_room(Event::Logged(r, stored)),
        ensures
            final(self).wf(),
            is_step(*old(self), Event::Logged(r, stored), now, e, *final(self)),
    {
        let base = if self.shared_log {
            stored
        } else {
            None
        };
        self.logged.on_qso_logged(r, base, now.cfg);
        Effect::StoreLog
    }

    fn on_picture(&mut self, detected: Option<u8>, now: Now) -> (e: Effect)
        requires
            old(self).wf(),
        ensures
            final(self).wf(),
            is_step(*old(self), Event::Picture(detected), now, e, *final(self)),
    {
        on_picture_status(&mut self.picture, detected);
        Effect::Nothing
    }

    fn on_skimmer(&mut self, spots: Vec<SkimmerSpot>, now: Now) -> (e: Effect)
        requires
            old(self).wf(),
        ensures
            final(self).wf(),
            is_step(*old(self), Event::Skimmer(spots), now, e, *final(self)),
    {
        on_skimmer_spots(&mut self.skimmer_at, &spots, now.ms);
        self.skimmer = spots;
        Effect::Nothing
    }

    fn on_spectrum(&mut self, now: Now) -> (e: Effect)
        requires
            old(self).wf(),
        ensures
            final(self).wf(),
            is_step(*old(self), Event::Spectrum, now, e, *final(self)),
    {
        let carry = carries_rows(self.frame_undrawn, self.has_frame);
        self.has_frame = true;
        self.last_frame_ms = now.ms;
        self.frame_undrawn = true;
        Effect::Frame(carry)
    }

    fn on_station(&mut self, same_plan: bool, now: Now) -> (e: Effect)
        requires
            old(self).wf(),
        ensures
            final(self).wf(),
            is_step(*old(self), Event::Station(same_plan), now, e, *final(self)),
    {
        let a = on_station_config(&mut self.seeded, same_plan);
        Effect::Adopt(a)
    }

    fn on_login(&mut self, target: u8, label: String, ok: bool, message: String, now: Now) -> (e: Effect)
        requires
            old(self).wf(),
        ensures
            final(self).wf(),
            is_step(*old(self), Event::Login(target, label, ok, message), now, e, *final(self)),
    {
        self.logins.on_result(target, label.as_str(), ok, message, &mut self.net_log);
        assert(texts(self.net_log@).len() == self.net_log@.len());
        Effect::Nothing
    }

    fn on_callsign(&mut self, info: CallsignInfo) -> (e: Effect)
        requires
            old(self).wf(),
        ensures
            final(self).wf(),
            e == Effect::StoreLog || e == Effect::Nothing,
            is_callsign_step(*old(self), info, e == Effect::StoreLog, *final(self)),
    {
        let changed = apply_callsign(
            info,
            &mut self.net_log,
            &mut self.callsigns,
            &mut self.edit,
            &mut self.logged.log,
        );
        assert(texts(self.net_log@).len() == self.net_log@.len());
        if changed {
            self.caches.log_content_changed();
            Effect::StoreLog
        } else {
            Effect::Nothing
        }
    }

    fn on_upload(&mut self, r: UploadResult, label: String) -> (e: Effect)
        requires
            old(self).wf(),
        ensures
            final(self).wf(),
            e == Effect::StoreLog || e == Effect::Nothing,
            is_upload_step(*old(self), r, label@, e == Effect::StoreLog, *final(self)),
    {
        let changed = on_upload_result(
            &r,
            label.as_str(),
            &mut self.net_log,
            &mut self.logged.log,
        );
        assert(texts(self.net_log@).len() == self.net_log@.len());
        if changed {
            Effect::StoreLog
        } else {
            Effect::Nothing
        }
    }

    fn on_confirmations(&mut self, recs: Vec<QsoRecord>) -> (e: Effect)
        requires
            old(self).wf(),
        ensures
            final(self).wf(),
            e == Effect::StoreLog || e == Effect::Nothing,
            is_confirmed_step(*old(self), recs@, e == Effect::StoreLog, *final(self)),
    {
        let changed = apply_confirmations(&recs, &mut self.net_log, &mut self.logged.log);
        assert(texts(self.net_log@).len() == self.net_log@.len());
        if changed {
            self.caches.log_content_changed();
            Effect::StoreLog
        } else {
            Effect::Nothing
        }
    }
}

/// True when a batch of events takes a tab from `a` through `states`, leaving
/// `effects` to be done, one for each event in order. What came in before was
/// drawn meanwhile.
pub open spec fn is_batch(
    a: SdroxideApp,
    events: Seq<Event>,
    now: Now,
    effects: Seq<Effect>,
    states: Seq<SdroxideApp>,
) -> bool {
    &&& states.len() == events.len() + 1
    &&& effects.len() == events.len()
    &&& states[0] == (SdroxideApp { frame_undrawn: false, ..a })
    &&& forall|i: int|
        0 <= i < events.len() ==> is_step(
            states[i],
            #[trigger] events[i],
            now,
            effects[i],
            states[i + 1],
        )
}

/// True when numbers are left for as many contacts as a batch could bring.
pub open spec fn has_room_for(a: SdroxideApp, events: Seq<Event>) -> bool {
    &&& max_id(a.logged.log@) + events.len() < u64::MAX
    &&& a.logged.session_qsos + events.len() < u32::MAX
    &&& forall|i: int|
        0 <= i < events.len() ==> (#[trigger] events[i] matches Event::Logged(_, Some(l)) ==> max_id(
            l@,
        ) + events.len() < u64::MAX)
}

proof fn lemma_same_ids(a: Seq<QsoRecord>, b: Seq<QsoRecord>)
    requires
        a.len() == b.len(),
        forall|i: int| 0 <= i < a.len() ==> (#[trigger] a[i]).id == b[i].id,
    ensures
        max_id(a) == max_id(b),
    decreases a.len(),
{
    if a.len() > 0 {
        assert(a[a.len() - 1].id == b[a.len() - 1].id);
        assert forall|i: int| 0 <= i < a.drop_last().len() implies (
        #[trigger] a.drop_last()[i]).id == b.drop_last()[i].id by {
            assert(a[i].id == b[i].id);
        }
        lemma_same_ids(a.drop_last(), b.drop_last());
    }
}

proof fn lemma_ids_after(a: SdroxideApp, ev: Event, now: Now, e: Effect, b: SdroxideApp)
    requires
        is_step(a, ev, now, e, b),
        a.has_room(ev),
    ensures
        match ev {
            Event::Logged(r, stored) => max_id(b.logged.log@) == max_id(log_base(a, stored)) + 1
                && b.logged.session_qsos == a.logged.session_qsos + 1,
            _ => max_id(b.logged.log@) == max_id(a.logged.log@) && b.logged.session_qsos
                == a.logged.session_qsos,
        },
{
    match ev {
        Event::Logged(r, stored) => {
            let before = log_base(a, stored);
            assert(b.logged.log@.drop_last() =~= before);
        },
        Event::Callsign(info) => {
            lemma_same_ids(a.logged.log@, b.logged.log@);
        },
        Event::Upload(r, label) => {
            if e == Effect::StoreLog {
                let i = choose|i: int| #[trigger] first_with_id(a.logged.log@, r.qso_id, i);
                assert(b.logged.log@ == a.logged.log@.update(
                    i,
                    marked_sent(a.logged.log@[i], r.target),
                ));
            }
            lemma_same_ids(a.logged.log@, b.logged.log@);
        },
        Event::Confirmations(recs) => {
            law_confirmations_only_add_marks(a.logged.log@, recs@);
            assert forall|i: int| 0 <= i < a.logged.log@.len() implies (
            #[trigger] a.logged.log@[i]).id == b.logged.log@[i].id by {
                assert(only_marks_added(a.logged.log@[i], b.logged.log@[i]));
            }
            lemma_same_ids(a.logged.log@, b.logged.log@);
        },
        _ => {},
    }
}

/// True when the tab `b` is the tab `a` once a batch is through: signals of
/// skimmers that were switched off are gone, and what gathered for a tab
/// nobody looks at was sent.
pub open spec fn is_settled(
    a: SdroxideApp,
    enabled: Seq<u8>,
    cmds: Seq<Command>,
    b: SdroxideApp,
) -> bool {
    &&& b == (SdroxideApp { skimmer: b.skimmer, logged: b.logged, ..a })
    &&& b.skimmer@ == of_enabled(a.skimmer@, enabled)
    &&& if a.focused {
        b.logged == a.logged && cmds.len() == 0
    } else {
        &&& a.logged.is_flushed(cmds)
        &&& b.logged.pending_lookups@.len() == 0
        &&& b.logged.pending_uploads@.len() == 0
        &&& b.logged.log == a.logged.log
        &&& b.logged.session_qsos == a.logged.session_qsos
    }
}

impl SdroxideApp {
    /// Takes in everything that the engine sent since the last visit, in
    /// order. A tab that is not focused sends its queued requests at once: it
    /// has no frame of its own to send them on.
    #[verifier::rlimit(30)]
    pub fn drain_events(&mut self, events: Vec<Event>, now: Now, enabled: &Vec<u8>) -> (r: (
        Vec<Effect>,
        Vec<Command>,
    ))
        requires
            old(self).wf(),
            has_room_for(*old(self), events@),
            now.ms <= CLOCK_END_MS,
        ensures
            final(self).wf(),
            exists|states: Seq<SdroxideApp>| #[trigger]
                is_batch(*old(self), events@, now, r.0@, states) && is_settled(
                    states.last(),
                    enabled@,
                    r.1@,
                    *final(self),
                ),
    {
        let mut effects: Vec<Effect> = Vec::new();
        self.frame_undrawn = false;
        let ghost mut states: Seq<SdroxideApp> = seq![*self];
        let ghost n = events@.len();
        let ghost all = events@;
        for ev in it: events
            invariant
                it.seq() == all,
                n == all.len(),
                self.wf(),
                now.ms <= CLOCK_END_MS,
                max_id(self.logged.log@) + (n - it.index()) < u64::MAX,
                self.logged.session_qsos + (n - it.index()) < u32::MAX,
                forall|i: int|
                    0 <= i < all.len() ==> (#[trigger] all[i] matches Event::Logged(_, Some(l))
                        ==> max_id(l@) + n < u64::MAX),
                states.len() == it.index() + 1,
                effects@.len() == it.index(),
                states[0] == (SdroxideApp { frame_undrawn: false, ..*old(self) }),
                states.last() == *self,
                forall|i: int|
                    0 <= i < it.index() ==> is_step(
                        states[i],
                        #[trigger] all[i],
                        now,
                        effects@[i],
                        states[i + 1],
                    ),
        {
            let ghost k = it.index();
            let ghost before = *self;
            let ghost was = states;
            let ghost had = effects@;
            assert(ev == all[k]);
            assert(before.has_room(ev)) by {
                if let Event::Logged(_, stored) = ev {
                    if let Some(l) = stored {
                        assert(max_id(l@) + n < u64::MAX);
                    }
                }
            }
            let e = self.on_event(ev, now);
            effects.push(e);
            proof {
                lemma_ids_after(before, ev, now, e, *self);
                states = states.push(*self);
                assert forall|i: int| 0 <= i < k + 1 implies is_step(
                    states[i],
                    #[trigger] all[i],
                    now,
                    effects@[i],
                    states[i + 1],
                ) by {
                    if i < k {
                        assert(states[i] == was[i] && states[i + 1] == was[i + 1]);
                        assert(effects@[i] == had[i]);
                    }
                }
            }
        }
        let ghost last = *self;
        assert(is_batch(*old(self), all, now, effects@, states));
        drop_disabled(&mut self.skimmer, enabled);
        let cmds: Vec<Command> = if self.focused {
            Vec::new()
        } else {
            self.logged.flush()
        };
        assert(is_settled(last, enabled@, cmds@, *self));
        let r = (effects, cmds);
        assert(is_batch(*old(self), events@, now, r.0@, states));
        r
    }
}

impl SdroxideApp {
    /// A redial went out: the panadapter starts over, and the new session is
    /// told what the old one was. `failed` is the error of one that did not even
    /// start.
    pub fn redialled(
        &mut self,
        spectrum: &mut CfgDebounce,
        failed: Option<String>,
        now: i64,
        can_reconnect: bool,
    )
        requires
            old(self).wf(),
            now <= CLOCK_END_MS,
        ensures
            final(self).wf(),
            *final(self) == (SdroxideApp { link: final(self).link, has_frame: false, ..*old(self) }),
            final(self).link.error == failed,
            if failed is Some && can_reconnect {
                &&& final(self).link.retry_at == Some(
                    (now + old(self).link.backoff + stagger(old(self).radio_id)) as i64,
                )
                &&& final(self).link.backoff == longer(old(self).link.backoff as int)
            } else {
                final(self).link.retry_at is None && final(self).link.backoff
                    == old(self).link.backoff
            },
            *final(spectrum) == (CfgDebounce { sent: None, wanted: None, ..*old(spectrum) }),
    {
        self.has_frame = false;
        forget_cfg(spectrum);
        self.link.reconnect_now(failed, now, self.radio_id, can_reconnect);
    }
}

/// True when saving the open form takes the tab from `a` to `b`: a refused form
/// stays open, a new contact counts for the session, and one that was replaced
/// makes what was derived from the log stale.
pub open spec fn is_save_step(
    a: SdroxideApp,
    my_call: Seq<char>,
    my_grid: Seq<char>,
    read: Readings,
    saved: Option<Saved>,
    b: SdroxideApp,
) -> bool {
    match (a.edit, saved) {
        (None, None) => b == a,
        (Some(form), Some(s)) => {
            &&& is_saved(form, my_call, my_grid, read, a.logged.log@, s, b.logged.log@)
            &&& b == (SdroxideApp { logged: b.logged, caches: b.caches, edit: b.edit, ..a })
            &&& b.edit == if s == Saved::Refused {
                a.edit
            } else {
                None
            }
            &&& b.logged == (LogSession {
                log: b.logged.log,
                session_qsos: b.logged.session_qsos,
                ..a.logged
            })
            &&& b.logged.session_qsos == if s == Saved::Added {
                a.logged.session_qsos + 1
            } else {
                a.logged.session_qsos as int
            }
            &&& caches_after(a.caches, s == Saved::Replaced, b.caches)
        },
        _ => false,
    }
}

impl SdroxideApp {
    /// Saves the form that is open, if one is. The log has to be stored where
    /// the form was not refused.
    pub fn save_edit(&mut self, my_call: &str, my_grid: &str, read: &Readings) -> (saved: Option<
        Saved,
    >)
        requires
            old(self).wf(),
            old(self).edit matches Some(form) && form.id == 0 && !is_blank(form.call@) ==> max_id(
                old(self).logged.log@,
            ) < u64::MAX && old(self).logged.session_qsos < u32::MAX,
        ensures
            final(self).wf(),
            is_save_step(*old(self), my_call@, my_grid@, *read, saved, *final(self)),
    {
        let form = match self.edit.take() {
            Some(f) => f,
            None => {
                return None;
            },
        };
        let saved = save_entry(&form, my_call, my_grid, read, &mut self.logged.log);
        match saved {
            Saved::Refused => {
                self.edit = Some(form);
            },
            Saved::Added => {
                self.logged.session_qsos = self.logged.session_qsos + 1;
            },
            Saved::Replaced => {
                self.caches.log_content_changed();
            },
            Saved::Gone => {},
        }
        Some(saved)
    }
}

/// What is stored under which key when the window closes: the layout of each
/// tab, and what the station shares by the one tab that writes for it.
pub open spec fn stored_keys(a: SdroxideApp) -> Seq<Seq<char>> {
    if a.station_writer {
        seq![a.view_key@, "qso_log"@, "ui_settings"@, "input"@]
    } else {
        seq![a.view_key@]
    }
}

impl SdroxideApp {
    /// The keys that this tab stores when the window closes.
    pub fn save(&self) -> (keys: Vec<String>)
        ensures
            texts(keys@) == stored_keys(*self),
    {
        let mut keys: Vec<String> = Vec::new();
        keys.push(self.view_key.clone());
        if self.station_writer {
            keys.push("qso_log".to_owned());
            keys.push("ui_settings".to_owned());
            keys.push("input".to_owned());
        }
        assert(texts(keys@) =~= stored_keys(*self));
        keys
    }
}

/// Two tabs never store under one key while only one of them writes for the
/// station.
pub proof fn law_tabs_store_apart(a: SdroxideApp, b: SdroxideApp, k: Seq<char>)
    requires
        a.wf(),
        b.wf(),
        a.radio_id != b.radio_id,
        !(a.station_writer && b.station_writer),
        stored_keys(a).contains(k),
    ensures
        !stored_keys(b).contains(k),
{
    law_layouts_are_apart(a.radio_id, b.radio_id);
    reveal_strlit("view");
    reveal_strlit("view:");
    reveal_strlit("qso_log");
    reveal_strlit("ui_settings");
    reveal_strlit("input");
    assert(a.view_key@[0] == 'v');
    assert(b.view_key@[0] == 'v');
    assert("qso_log"@[0] == 'q' && "ui_settings"@[0] == 'u' && "input"@[0] == 'i');
    let i = choose|i: int| 0 <= i < stored_keys(a).len() && stored_keys(a)[i] == k;
    if stored_keys(b).contains(k) {
        let j = choose|j: int| 0 <= j < stored_keys(b).len() && stored_keys(b)[j] == k;
        assert(stored_keys(a)[i] == stored_keys(b)[j]);
    }
}

/// No event gives two contacts one id: where the ids of the log, and of a
/// stored log that comes with an event, are apart, they stay apart.
pub proof fn law_events_keep_ids_apart(
    a: SdroxideApp,
    ev: Event,
    now: Now,
    e: Effect,
    b: SdroxideApp,
)
    requires
        is_step(a, ev, now, e, b),
        a.has_room(ev),
        ids_apart(a.logged.log@),
        ev matches Event::Logged(_, Some(l)) ==> ids_apart(l@),
    ensures
        ids_apart(b.logged.log@),
{
    let (x, y) = (a.logged.log@, b.logged.log@);
    match ev {
        Event::Logged(r, stored) => {
            let before = log_base(a, stored);
            lemma_max_id(before);
            assert forall|i: int, j: int| 0 <= i < j < y.len() implies (#[trigger] y[i]).id != (
            #[trigger] y[j]).id by {
                assert(y[i] == before[i]);
                if j < before.len() {
                    assert(y[j] == before[j]);
                }
            }
        },
        Event::Upload(r, label) => {
            if e == Effect::StoreLog {
                let i = choose|i: int| #[trigger] first_with_id(x, r.qso_id, i);
                assert(y == x.update(i, marked_sent(x[i], r.target)));
            }
            lemma_ids_kept(x, y);
        },
        Event::Confirmations(recs) => {
            law_confirmations_only_add_marks(x, recs@);
            assert forall|i: int| 0 <= i < x.len() implies (#[trigger] x[i]).id == y[i].id by {
                assert(only_marks_added(x[i], y[i]));
            }
            lemma_ids_kept(x, y);
        },
        _ => {
            lemma_ids_kept(x, y);
        },
    }
}

proof fn lemma_ids_kept(x: Seq<QsoRecord>, y: Seq<QsoRecord>)
    requires
        ids_apart(x),
        x.len() == y.len(),
        forall|i: int| 0 <= i < x.len() ==> (#[trigger] x[i]).id == y[i].id,
    ensures
        ids_apart(y),
{
    assert forall|i: int, j: int| 0 <= i < j < y.len() implies (#[trigger] y[i]).id != (
    #[trigger] y[j]).id by {
        assert(x[i].id != x[j].id);
    }
}

/// A tab never holds more than 50 lines of the network log, 200 decodes and
/// 400 receptions.
pub proof fn law_lists_are_bounded(a: SdroxideApp)
    requires
        a.wf(),
    ensures
        a.net_log@.len() <= 50,
        a.traffic.decodes@.len() <= 200,
        a.traffic.wspr_spots@.len() <= 400,
{
}

/// A report of another band in the same mode leaves no decode of the band that
/// was left, and nothing previewed; the beacon mode, which hops by itself, keeps
/// everything. The receptions of beacons and the text being typed stay.
pub proof fn law_another_band_empties_the_decodes(
    a: SdroxideApp,
    mode: Mode,
    band: Band,
    now: Now,
    e: Effect,
    b: SdroxideApp,
)
    requires
        is_step(a, Event::State(mode, band), now, e, b),
        mode == a.mode,
    ensures
        b.mode == mode && b.band == band,
        band != a.band && mode != Mode::Wspr ==> b.traffic.decodes@.len() == 0
            && b.traffic.preview is None,
        band == a.band || mode == Mode::Wspr ==> b.traffic == a.traffic,
        b.traffic.wspr_spots == a.traffic.wspr_spots,
        b.traffic.text_tx == a.traffic.text_tx,
{
}

/// A report of another mode leaves nothing that was received or typed in the
/// mode that was left, on whichever band.
pub proof fn law_another_mode_empties_everything(
    a: SdroxideApp,
    mode: Mode,
    band: Band,
    now: Now,
    e: Effect,
    b: SdroxideApp,
)
    requires
        is_step(a, Event::State(mode, band), now, e, b),
        mode != a.mode,
    ensures
        b.mode == mode && b.band == band,
        b.traffic.decodes@.len() == 0,
        b.traffic.preview is None,
        b.traffic.wspr_spots@.len() == 0,
        b.traffic.text_tx@.len() == 0,
{
}

/// A logged contact goes to the end of the log as it was reported, under an id
/// above all others, and counts for the session; the contacts there were stay as
/// they are. Where other tabs write the log too, they are those of the stored
/// log.
pub proof fn law_a_logged_contact_goes_to_the_end(
    a: SdroxideApp,
    r: QsoRecord,
    stored: Option<Vec<QsoRecord>>,
    now: Now,
    e: Effect,
    b: SdroxideApp,
)
    requires
        is_step(a, Event::Logged(r, stored), now, e, b),
        a.has_room(Event::Logged(r, stored)),
    ensures
        e == Effect::StoreLog,
        ({
            let before = if a.shared_log && stored is Some {
                stored->0@
            } else {
                a.logged.log@
            };
            let after = b.logged.log@;
            &&& after.len() == before.len() + 1
            &&& forall|i: int| 0 <= i < before.len() ==> #[trigger] after[i] == before[i]
            &&& forall|i: int| 0 <= i < before.len() ==> after.last().id > #[trigger] before[i].id
            &&& after.last() == (QsoRecord { id: after.last().id, ..r })
        }),
        b.logged.session_qsos == a.logged.session_qsos + 1,
        b.traffic == a.traffic && b.mode == a.mode && b.band == a.band && b.edit == a.edit,
{
    let before = log_base(a, stored);
    lemma_max_id(before);
}

/// A logged contact is looked up exactly where automatic lookups are on, a
/// provider is chosen and it has a call, and uploaded exactly where that is on
/// and some service is ticked, to the services that are.
pub proof fn law_a_logged_contact_is_told_as_configured(
    a: SdroxideApp,
    r: QsoRecord,
    stored: Option<Vec<QsoRecord>>,
    now: Now,
    e: Effect,
    b: SdroxideApp,
)
    requires
        is_step(a, Event::Logged(r, stored), now, e, b),
    ensures
        ({
            let asks = now.cfg.auto_lookup && now.cfg.lookup_provider != LookupProvider::Off
                && !is_blank(r.call@);
            let (old_q, new_q) = (a.logged.pending_lookups@, b.logged.pending_lookups@);
            &&& !asks ==> new_q == old_q
            &&& asks ==> new_q.len() == old_q.len() + 1 && new_q.last()@ == trim(r.call@)
                && new_q.drop_last() == old_q
        }),
        ({
            let sends = now.cfg.auto_upload && (now.cfg.auto_upload_eqsl || now.cfg.auto_upload_qrz
                || now.cfg.auto_upload_hamqth || now.cfg.auto_upload_clublog);
            let (old_q, new_q) = (a.logged.pending_uploads@, b.logged.pending_uploads@);
            &&& !sends ==> new_q == old_q
            &&& sends ==> {
                &&& new_q.len() == old_q.len() + 1
                &&& new_q.drop_last() == old_q
                &&& new_q.last().0 == b.logged.log@.last().id
                &&& new_q.last().1@.contains(UploadTarget::Eqsl) == now.cfg.auto_upload_eqsl
                &&& new_q.last().1@.contains(UploadTarget::QrzLogbook) == now.cfg.auto_upload_qrz
                &&& new_q.last().1@.contains(UploadTarget::HamQth) == now.cfg.auto_upload_hamqth
                &&& new_q.last().1@.contains(UploadTarget::ClubLog) == now.cfg.auto_upload_clublog
            }
        }),
{
    law_each_switch_selects_its_service(
        now.cfg.auto_upload_eqsl,
        now.cfg.auto_upload_qrz,
        now.cfg.auto_upload_hamqth,
        now.cfg.auto_upload_clublog,
    );
}

/// Fresh decodes stand on top in the order they came, the others keep theirs
/// below, and of more than 200 the oldest go.
pub proof fn law_fresh_decodes_stand_on_top(
    a: SdroxideApp,
    batch: Vec<Decode>,
    now: Now,
    e: Effect,
    b: SdroxideApp,
)
    requires
        is_step(a, Event::Decodes(batch), now, e, b),
    ensures
        b.traffic.decodes@.len() == if batch@.len() + a.traffic.decodes@.len() < 200 {
            batch@.len() + a.traffic.decodes@.len()
        } else {
            200
        },
        forall|i: int|
            0 <= i < b.traffic.decodes@.len() ==> #[trigger] b.traffic.decodes@[i] == if i
                < batch@.len() {
                batch@[i]
            } else {
                a.traffic.decodes@[i - batch@.len()]
            },
        b.traffic.wspr_spots == a.traffic.wspr_spots && b.traffic.text_tx == a.traffic.text_tx
            && b.traffic.preview == a.traffic.preview,
        b.logged == a.logged,
{
}

/// A lost link shows its error and is dialled again where it can be, once: a
/// second report changes neither the moment nor the next wait.
pub proof fn law_a_lost_link_is_dialled_again_once(
    a: SdroxideApp,
    first: String,
    second: String,
    now: Now,
    later: Now,
    e: Effect,
    f: Effect,
    b: SdroxideApp,
    c: SdroxideApp,
)
    requires
        is_step(a, Event::Lost(first), now, e, b),
        is_step(b, Event::Lost(second), later, f, c),
    ensures
        b.link.error == Some(first) && c.link.error == Some(second),
        !now.can_reconnect ==> b.link.retry_at == a.link.retry_at,
        now.can_reconnect && a.link.retry_at is None && now.ms <= CLOCK_END_MS && a.wf()
            ==> b.link.retry_at is Some && b.link.retry_at->0 >= now.ms + 1_000,
        now.can_reconnect ==> c.link.retry_at == b.link.retry_at && c.link.backoff
            == b.link.backoff,
        b.traffic == a.traffic && b.logged == a.logged,
{
}

/// The engine's settings are taken over at its first report and never again.
pub proof fn law_settings_are_taken_over_once(
    a: SdroxideApp,
    now: Now,
    later: Now,
    e: Effect,
    f: Effect,
    b: SdroxideApp,
    c: SdroxideApp,
)
    requires
        is_step(a, Event::DigiStatus, now, e, b),
        is_step(b, Event::DigiStatus, later, f, c),
    ensures
        !a.digi_seeded ==> e == Effect::AdoptDigi,
        a.digi_seeded ==> e == Effect::Nothing && b == a,
        f == Effect::Nothing && c == b,
{
}

/// Each dialog of the station's settings is filled in at the first announcement
/// and never again; the region is taken at every one, and the band plan where it
/// is another.
pub proof fn law_dialogs_are_filled_in_once(
    a: SdroxideApp,
    same_plan: bool,
    again: bool,
    now: Now,
    later: Now,
    e: Effect,
    f: Effect,
    b: SdroxideApp,
    c: SdroxideApp,
)
    requires
        is_step(a, Event::Station(same_plan), now, e, b),
        is_step(b, Event::Station(again), later, f, c),
    ensures
        e matches Effect::Adopt(x) && x.net == !a.seeded.net && x.rigctld == !a.seeded.rigctld
            && x.tci_server == !a.seeded.tci_server && x.wsjtx == !a.seeded.wsjtx && x.satellites
            == !a.seeded.satellites && x.rotator == !a.seeded.rotator && x.region && x.band_plan
            == !same_plan,
        f matches Effect::Adopt(y) && !y.net && !y.rigctld && !y.tci_server && !y.wsjtx
            && !y.satellites && !y.rotator && y.region && y.band_plan == !again,
        c == b,
{
}

/// A newly detected picture mode becomes the one to send in; detecting it again,
/// or nothing, leaves the operator's choice alone.
pub proof fn law_a_detected_mode_is_taken_once(
    a: SdroxideApp,
    m: u8,
    now: Now,
    later: Now,
    e: Effect,
    f: Effect,
    b: SdroxideApp,
    c: SdroxideApp,
)
    requires
        is_step(a, Event::Picture(Some(m)), now, e, b),
        is_step(b, Event::Picture(Some(m)), later, f, c),
    ensures
        a.picture.last_detected != Some(m) ==> b.picture.tx_mode == m && b.picture.preview_dirty,
        a.picture.last_detected == Some(m) ==> b.picture == a.picture,
        c.picture == b.picture,
{
}

/// An upload that went well marks the contact with its id as sent to its own
/// service; one that failed, or that is of no contact, changes none.
pub proof fn law_an_upload_reply_marks_its_contact(
    a: SdroxideApp,
    r: UploadResult,
    label: String,
    now: Now,
    e: Effect,
    b: SdroxideApp,
    i: int,
)
    requires
        is_step(a, Event::Upload(r, label), now, e, b),
        0 <= i < a.logged.log@.len(),
    ensures
        b.logged.log@.len() == a.logged.log@.len(),
        !r.ok || a.logged.log@[i].id != r.qso_id ==> b.logged.log@[i] == a.logged.log@[i],
        r.ok && a.logged.log@[i].id == r.qso_id && ids_apart(a.logged.log@) ==> ({
            let (q, s) = (a.logged.log@[i], b.logged.log@[i]);
            &&& e == Effect::StoreLog
            &&& s.eqsl_sent == (q.eqsl_sent || r.target == UploadTarget::Eqsl)
            &&& s.qrz_sent == (q.qrz_sent || r.target == UploadTarget::QrzLogbook)
            &&& s.hamqth_sent == (q.hamqth_sent || r.target == UploadTarget::HamQth)
            &&& s.clublog_sent == (q.clublog_sent || r.target == UploadTarget::ClubLog)
            &&& s.call == q.call && s.id == q.id && s.lotw_sent == q.lotw_sent
        }),
{
    let log = a.logged.log@;
    if e == Effect::StoreLog {
        let k = choose|k: int| #[trigger] first_with_id(log, r.qso_id, k);
        assert(b.logged.log@ == log.update(k, marked_sent(log[k], r.target)));
        assert(log[k].id == r.qso_id);
    } else if r.ok && log[i].id == r.qso_id && ids_apart(log) {
        assert forall|j: int| 0 <= j < i implies #[trigger] log[j].id != r.qso_id by {
        }
        assert(first_with_id(log, r.qso_id, i));
    }
}

/// A reply to a lookup fills the open form where that is for the call, and then
/// no contact of the log; else at most the latest contact with the call.
pub proof fn law_a_lookup_goes_to_one_place(
    a: SdroxideApp,
    info: CallsignInfo,
    now: Now,
    e: Effect,
    b: SdroxideApp,
    j: int,
)
    requires
        is_step(a, Event::Callsign(info), now, e, b),
        0 <= j < a.logged.log@.len(),
    ensures
        b.logged.log@.len() == a.logged.log@.len(),
        (a.edit matches Some(f) && same_ignoring_case(trim(f.call@), info.call@)) ==> b.logged.log@
            == a.logged.log@ && e == Effect::Nothing,
        !(a.edit matches Some(f) && same_ignoring_case(trim(f.call@), info.call@)) ==> b.edit
            == a.edit,
        b.logged.log@[j] != a.logged.log@[j] ==> e == Effect::StoreLog && same_ignoring_case(
            a.logged.log@[j].call@,
            info.call@,
        ) && forall|k: int|
            0 <= k < a.logged.log@.len() && same_ignoring_case(
                (#[trigger] a.logged.log@[k]).call@,
                info.call@,
            ) ==> a.logged.log@[k].start_utc <= a.logged.log@[j].start_utc,
        forall|x: CallsignInfo| #[trigger]
            b.callsigns.holds(ascii_upper(info.call@), x) == (x == info),
{
}

/// A sign-in that was answered is no longer under way, and its outcome is kept.
pub proof fn law_an_answered_sign_in_is_settled(
    a: SdroxideApp,
    target: u8,
    label: String,
    ok: bool,
    message: String,
    now: Now,
    e: Effect,
    b: SdroxideApp,
)
    requires
        is_step(a, Event::Login(target, label, ok, message), now, e, b),
    ensures
        !b.logins.pending@.contains_key(target),
        b.logins.results@.contains_key(target) && b.logins.results@[target] == (ok, message),
        forall|t: u8|
            t != target ==> #[trigger] b.logins.pending@.contains_key(t)
                == a.logins.pending@.contains_key(t),
        forall|t: u8|
            t != target && a.logins.results@.contains_key(t) ==> #[trigger] b.logins.results@[t]
                == a.logins.results@[t],
{
}

/// The first frame of a pass carries nothing on, every further one carries the
/// rows of the one before it.
pub proof fn law_undrawn_frames_hand_their_rows_on(
    a: SdroxideApp,
    now: Now,
    later: Now,
    e: Effect,
    f: Effect,
    b: SdroxideApp,
    c: SdroxideApp,
)
    requires
        !a.frame_undrawn,
        is_step(a, Event::Spectrum, now, e, b),
        is_step(b, Event::Spectrum, later, f, c),
    ensures
        e == Effect::Frame(false),
        f == Effect::Frame(true),
        c.has_frame && c.last_frame_ms == later.ms,
{
}

/// A skimmer report replaces the signals; each that keys or is new counts as
/// heard now, and signals that are gone are forgotten.
pub proof fn law_a_skimmer_report_replaces_the_signals(
    a: SdroxideApp,
    spots: Vec<SkimmerSpot>,
    now: Now,
    e: Effect,
    b: SdroxideApp,
    i: int,
)
    requires
        is_step(a, Event::Skimmer(spots), now, e, b),
        0 <= i < spots@.len(),
    ensures
        b.skimmer@ == spots@,
        b.skimmer_at@.contains_key(spots@[i].id),
        spots@[i].active || !a.skimmer_at@.contains_key(spots@[i].id) ==> b.skimmer_at@[spots@[i].id]
            == now.ms,
        forall|id: u64|
            (forall|k: int| 0 <= k < spots@.len() ==> (#[trigger] spots@[k]).id != id)
                ==> !#[trigger] b.skimmer_at@.contains_key(id),
{
    law_silent_signals_keep_their_moment(a.skimmer_at@, spots@, now.ms, i);
}

/// Saving the open form closes it unless it has no call, counts a new contact
/// for the session, and makes what was derived from the log stale where it
/// replaced one.
pub proof fn law_a_saved_form_closes(
    a: SdroxideApp,
    my_call: Seq<char>,
    my_grid: Seq<char>,
    read: Readings,
    saved: Option<Saved>,
    b: SdroxideApp,
)
    requires
        is_save_step(a, my_call, my_grid, read, saved, b),
    ensures
        a.edit is None ==> b == a,
        a.edit matches Some(f) ==> {
            &&& is_blank(f.call@) ==> b.edit == a.edit && b.logged.log@ == a.logged.log@
            &&& !is_blank(f.call@) ==> b.edit is None
            &&& b.logged.session_qsos == a.logged.session_qsos + (if !is_blank(f.call@) && f.id == 0 {
                1int
            } else {
                0
            })
            &&& !is_blank(f.call@) && f.id == 0 ==> b.logged.log@.len() == a.logged.log@.len() + 1
        },
        saved == Some(Saved::Replaced) ==> b.caches.index is None && b.caches.worked is None,
{
}

/// A new tab is the radio it was opened for, has nothing received, asked, typed or
/// logged in it, and only the station's writer fetches anything.
pub proof fn law_a_new_tab_is_empty(
    a: SdroxideApp,
    radio_id: u32,
    station_writer: bool,
    update_check: bool,
    mode: Mode,
    band: Band,
    log: Seq<QsoRecord>,
)
    requires
        is_fresh(a, radio_id, station_writer, update_check, mode, band, log),
    ensures
        a.radio_id == radio_id && a.station_writer == station_writer,
        a.fetching_schedule ==> station_writer,
        station_writer ==> a.fetching_schedule,
        a.checking_release ==> station_writer && update_check,
        station_writer && update_check ==> a.checking_release,
        a.focused,
        a.mode == mode && a.band == band,
        a.logged.log@ == log && a.logged.session_qsos == 0,
        a.logged.pending_lookups@.len() == 0 && a.logged.pending_uploads@.len() == 0,
        a.traffic.decodes@.len() == 0 && a.traffic.wspr_spots@.len() == 0,
        a.traffic.text_tx@.len() == 0 && a.traffic.preview is None,
        a.link.error is None && a.link.retry_at is None,
        a.edit is None && a.notice is None && a.net_log@.len() == 0,
        a.callsigns.entries@.len() == 0,
        !a.digi_seeded && !a.seeded.net && !a.seeded.rigctld && !a.seeded.tci_server
            && !a.seeded.wsjtx && !a.seeded.satellites && !a.seeded.rotator,
        a.skimmer@.len() == 0 && !a.has_frame && !a.frame_undrawn,
        !a.shared_log,
{
}

/// Events are taken in one by one in their order, each from where the one before
/// left the tab, and leave one thing to be done each.
pub proof fn law_events_are_taken_in_order(
    a: SdroxideApp,
    events: Seq<Event>,
    now: Now,
    effects: Seq<Effect>,
    states: Seq<SdroxideApp>,
)
    requires
        is_batch(a, events, now, effects, states),
    ensures
        effects.len() == events.len(),
        events.len() == 0 ==> states.last() == (SdroxideApp { frame_undrawn: false, ..a }),
        events.len() == 1 ==> is_step(
            SdroxideApp { frame_undrawn: false, ..a },
            events[0],
            now,
            effects[0],
            states.last(),
        ),
        events.len() > 1 ==> is_batch(
            a,
            events.drop_last(),
            now,
            effects.drop_last(),
            states.drop_last(),
        ) && is_step(
            states.drop_last().last(),
            events.last(),
            now,
            effects.last(),
            states.last(),
        ),
{
    if events.len() > 0 {
        assert(events[events.len() - 1] == events.last());
        assert(states[events.len() as int] == states.last());
    }
    if events.len() > 1 {
        let (e, f, s) = (events.drop_last(), effects.drop_last(), states.drop_last());
        assert forall|i: int| 0 <= i < e.len() implies is_step(
            s[i],
            #[trigger] e[i],
            now,
            f[i],
            s[i + 1],
        ) by {
            assert(e[i] == events[i] && f[i] == effects[i]);
            assert(s[i] == states[i] && s[i + 1] == states[i + 1]);
        }
    }
}

/// Once a batch is through, a tab in view keeps its requests for its next frame
/// and any other sends them at once. Neither changes anything but the signals of
/// decoders that are off.
pub proof fn law_a_hidden_tab_sends_at_once(
    a: SdroxideApp,
    enabled: Seq<u8>,
    cmds: Seq<Command>,
    b: SdroxideApp,
)
    requires
        is_settled(a, enabled, cmds, b),
    ensures
        a.focused ==> cmds.len() == 0 && b.logged == a.logged,
        !a.focused ==> b.logged.pending_lookups@.len() == 0 && b.logged.pending_uploads@.len() == 0
            && cmds.len() == a.logged.pending_lookups@.len() + a.logged.pending_uploads@.len(),
        b.logged.log == a.logged.log && b.logged.session_qsos == a.logged.session_qsos,
        b.traffic == a.traffic && b.edit == a.edit && b.net_log == a.net_log && b.link == a.link,
        b.mode == a.mode && b.band == a.band && b.callsigns == a.callsigns,
        forall|s: crate::events::SkimmerSpot| #[trigger]
            b.skimmer@.contains(s) <==> a.skimmer@.contains(s) && enabled.contains(s.kind),
{
    assert forall|s: crate::events::SkimmerSpot| #[trigger] b.skimmer@.contains(s)
        <==> a.skimmer@.contains(s) && enabled.contains(s.kind) by {
        crate::events::law_only_enabled_decoders_show(a.skimmer@, enabled, s);
    }
}

/// Every tab stores its own layout; the log and the settings that all share are
/// stored by the station's writer alone.
pub proof fn law_the_writer_stores_what_is_shared(a: SdroxideApp, k: Seq<char>)
    ensures
        stored_keys(a).contains(a.view_key@),
        a.station_writer ==> stored_keys(a).contains("qso_log"@) && stored_keys(a).contains(
            "ui_settings"@,
        ) && stored_keys(a).contains("input"@),
        !a.station_writer && stored_keys(a).contains(k) ==> k == a.view_key@,
        stored_keys(a).contains(k) ==> k == a.view_key@ || k == "qso_log"@ || k == "ui_settings"@
            || k == "input"@,
{
    let s = stored_keys(a);
    assert(s[0] == a.view_key@);
    if a.station_writer {
        assert(s[1] == "qso_log"@ && s[2] == "ui_settings"@ && s[3] == "input"@);
    }
}

/// A reply that changes a contact makes everything derived from the log stale; one
/// that changes none leaves it at hand. What has nothing to do with the log stays
/// as it was.
pub proof fn law_a_changed_log_forgets_what_was_derived(
    a: SdroxideApp,
    ev: Event,
    now: Now,
    e: Effect,
    b: SdroxideApp,
)
    requires
        is_step(a, ev, now, e, b),
        ev is Callsign || ev is Confirmations,
    ensures
        e == Effect::StoreLog ==> b.caches.awards is None && b.caches.heat is None
            && b.caches.worked is None && b.caches.index is None,
        e != Effect::StoreLog ==> b.caches == a.caches && b.logged.log@ == a.logged.log@,
        b.traffic == a.traffic && b.link == a.link && b.mode == a.mode && b.band == a.band,
        b.notice == a.notice && b.skimmer == a.skimmer && b.logins == a.logins,
        b.logged.session_qsos == a.logged.session_qsos,
        b.logged.pending_lookups == a.logged.pending_lookups && b.logged.pending_uploads
            == a.logged.pending_uploads,
{
    if let Event::Confirmations(recs) = ev {
        if e != Effect::StoreLog {
            lemma_no_news(a.logged.log@, recs@);
        }
    }
}

proof fn lemma_no_news(log: Seq<QsoRecord>, recs: Seq<QsoRecord>)
    requires
        newly_confirmed(log, recs) == 0,
    ensures
        confirmed_by_all(log, recs) == log,
    decreases recs.len(),
{
    if recs.len() > 0 {
        lemma_no_news(log, recs.drop_last());
    }
}

/// An edited contact makes what was derived from the log stale; a new one does
/// not, and counts for the session.
pub proof fn law_an_edit_makes_the_derived_stale(
    a: SdroxideApp,
    my_call: Seq<char>,
    my_grid: Seq<char>,
    read: Readings,
    saved: Option<Saved>,
    b: SdroxideApp,
)
    requires
        is_save_step(a, my_call, my_grid, read, saved, b),
    ensures
        saved == Some(Saved::Replaced) ==> b.caches.awards is None && b.caches.heat is None
            && b.caches.worked is None && b.caches.index is None,
        saved != Some(Saved::Replaced) ==> b.caches == a.caches,
        saved == Some(Saved::Added) ==> b.logged.session_qsos == a.logged.session_qsos + 1,
        saved != Some(Saved::Added) ==> b.logged.session_qsos == a.logged.session_qsos,
        b.traffic == a.traffic && b.link == a.link && b.net_log == a.net_log,
{
}

} // verus!
