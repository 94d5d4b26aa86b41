use sdroxide_ui::adsb::{list_and_card, list_width, suggested};
use sdroxide_ui::command::{Command, DigiConfig, QsoStep};
use sdroxide_ui::decodes::{press_tone_chip, queue_chip, ToneChip};
use sdroxide_ui::dials::{
    channel_here, channel_ink, channel_line, chip_face, digi_dial_freqs, digi_freq_for_band,
    explains_ink, group_channels, Channel,
};
use sdroxide_ui::drm::{
    constellation_request, on_drm, press_service, quad_indices, service_line, stage_row, sync_ink,
    DrmSync, Service, Stages, HISTORY_LEN,
};
use sdroxide_ui::events::{qsy_clears_decodes, Cleared, SkimmerSpot};
use sdroxide_ui::exchange::{
    buttons, drop_queued, empty_card, export_button, pile_up_head, pile_up_ink, queue_head,
    send_free_text, session_line, transcript, Line,
};
use sdroxide_ui::frame::{
    apply_lock_change, banner_button, cursor, debounce_cfg, debounce_skimmer_view, forget_cfg,
    frame_commands, main_area, markers, notice_banner_colors, show_digital, show_voice, sub_band,
    tones, wait_ms, zoom_out, BannerButton, CfgDebounce, Fit, LockChange, MainArea, PanView,
    SkimDebounce, Span, SpectrumCfg, Tones,
};
use sdroxide_ui::import::{poll_adif_import, Loaded};
use sdroxide_ui::ink::Ink;
use sdroxide_ui::layout::{
    decode_column, digi_split, drag, exchange_map, reception_column, share_of, slot_progress,
    Divider, Turn, WHOLE,
};
use sdroxide_ui::mode::{Band, Mode};
use sdroxide_ui::navtex::{
    fault_line, first_text_line, message_head, press_message, press_reverse, preview, reading,
    Message, Reading,
};
use sdroxide_ui::net::{
    auto_upload_adif, configured_upload_targets, fill_blank, push_net_log, queue_lookup,
    CallsignInfo, GridLookups, Login, LookupProvider, NetworkConfig, UploadResult, UploadTarget,
};
use sdroxide_ui::packet::{
    bad_text, heard_line, link_state, retry_text, session_height, session_hint, unacked_text, Gate,
    Heard, LinkState, Terminal,
};
use sdroxide_ui::qso::QsoRecord;
use sdroxide_ui::replies::{apply_callsign, apply_confirmations, CallsignCache};
use sdroxide_ui::retry::Link;
use sdroxide_ui::roster::{
    interface_name, own_power_state, radio_name, station_radio_id, view_key, RadioChip,
};
use sdroxide_ui::session::{Effect, Event, Now, SdroxideApp};
use sdroxide_ui::setup::{
    settings_frame, AprsChange, AprsFigures, Around, Change, Edit, Expedition, Field, Figures,
    Js8Figures, PacketFigures, Place, QsoChange, QsoFigures, Settings, Symbol, Texts,
};
use sdroxide_ui::text_modem::{
    call_cq, commit_tx_line, edit, nudged_tone, press_strip, press_tx, received_height, split_sent,
    StripPress, StripView,
};
use sdroxide_ui::wspr::{
    add_spots, countdown, hop_warning, identity_line, last_slot_text, map_height, one_slot_in,
    press_beacon, press_reporting, press_roam, receptions_label, snr_color, Beacon, BeaconPress, ReportChip, Reporting,
    WsprSpot, WSPR_SPOT_ROWS,
};

use std::collections::VecDeque;

const M20: Band = Band::In(5);
const M30: Band = Band::In(4);
const M40: Band = Band::In(3);

/// The band of a dial, as the radio's own list of bands has the two that are
/// tuned to here.
fn containing(hz: u64) -> Band {
    match hz {
        7_000_000..=7_200_000 => M40,
        14_000_000..=14_350_000 => M20,
        _ => Band::Gen,
    }
}

/// The band buttons of the digital modes keep the mode, and the decodes of the
/// band that was left must not stay in the list.
#[test]
fn crossing_into_another_band_clears_the_decodes() {
    assert!(qsy_clears_decodes(M20, M40, Mode::Ft8));
    assert!(qsy_clears_decodes(M40, M20, Mode::Ft4));
    // Out of the amateur bands entirely is still somewhere else.
    assert!(qsy_clears_decodes(M20, Band::Gen, Mode::Ft8));
}

/// Band-level, not a delta on the dial.
#[test]
fn tuning_about_inside_a_band_clears_nothing() {
    assert!(!qsy_clears_decodes(M20, M20, Mode::Ft8));
    // Both 20 m slots are one band.
    assert_eq!(containing(14_074_000), containing(14_080_000));
    // The pair that must not fold together.
    assert_ne!(containing(14_074_000), containing(7_074_000));
}

/// WSPR hops bands by itself once a slot.
#[test]
fn wspr_band_hopping_is_exempt() {
    assert!(!qsy_clears_decodes(M20, M40, Mode::Wspr));
    assert!(!qsy_clears_decodes(M40, M30, Mode::Wspr));
}

/// A split of points, through thousandths of them.
fn split(total: f32, divider: f32, fraction: f32) -> (f32, f32) {
    let milli = |v: f32| (v * 1000.0).round() as u64;
    let (wf, panel) =
        digi_split(milli(total), milli(divider), (fraction as f64 * 1e6).round() as u64);
    (wf as f32 / 1000.0, panel as f32 / 1000.0)
}

#[test]
fn the_digi_split_always_fits_the_height_it_was_given() {
    for divider in [7.0f32, 17.0, 21.0] {
        for total in [120.0f32, 180.0, 200.0, 250.0, 277.0, 400.0, 900.0] {
            for fraction in [0.2f32, 0.5, 0.82] {
                let (wf, panel) = split(total, divider, fraction);
                assert!(wf >= 0.0 && panel >= 0.0, "negative split at {total}/{fraction}");
                let used = wf + panel + divider;
                assert!(
                    used <= total + 0.01,
                    "{total} pt tall, {fraction} panel, {divider} divider: asked for {used}"
                );
            }
        }
    }
}

#[test]
fn a_roomy_window_still_honours_the_fraction_and_the_floors() {
    let (wf, panel) = split(900.0, 7.0, 0.5);
    assert!((panel - (893.0 * 0.5)).abs() < 0.01, "panel {panel} ignored the fraction");
    assert!(wf >= 80.0, "waterfall {wf} below its floor");
    // Dragged all the way down, the waterfall keeps its 80 pt minimum.
    let (wf, panel) = split(900.0, 7.0, 0.99);
    assert!(wf >= 80.0, "waterfall {wf} squeezed out");
    assert!(panel >= 190.0, "panel {panel} below its floor");
}

/// The colours have to follow the mode's own floor.
#[test]
fn the_report_colour_follows_wsprs_own_scale() {
    assert_eq!(snr_color(-5), Ink::Green);
    assert_eq!(snr_color(-18), Ink::Cyan);
    assert_eq!(snr_color(-24), Ink::Yellow);
    // Below the nominal floor: remarkable, and coloured as such.
    assert_eq!(snr_color(-28), Ink::Pink);
}

fn login(user: &str, password: &str) -> Login {
    Login { user: user.to_string(), password: password.to_string() }
}

fn config() -> NetworkConfig {
    NetworkConfig {
        lookup_provider: LookupProvider::Qrz,
        auto_lookup: true,
        auto_upload: true,
        auto_upload_eqsl: true,
        auto_upload_qrz: false,
        auto_upload_hamqth: true,
        auto_upload_clublog: false,
        eqsl: login(" ", ""),
        hamqth: login("me", "x"),
        clublog: login("me", ""),
        qrz_logbook_key: "k".to_string(),
        clublog_api_key: " ".to_string(),
    }
}

fn contact(id: u64, call: &str, band: &str, at: i64) -> QsoRecord {
    QsoRecord {
        id,
        call: call.to_string(),
        band: band.to_string(),
        start_utc: at,
        ..Default::default()
    }
}

#[test]
fn a_blank_field_is_filled_once() {
    let mut s = "  ".to_string();
    assert!(!fill_blank(&mut s, None));
    assert!(!fill_blank(&mut s, Some("\t")));
    assert!(fill_blank(&mut s, Some(" Anna ")));
    assert_eq!(s, "Anna");
    assert!(!fill_blank(&mut s, Some("Berta")));
    assert_eq!(s, "Anna");
    let mut s = "\u{3000}".to_string();
    assert!(fill_blank(&mut s, Some("x\u{a0}")));
    assert_eq!(s, "x");
}

#[test]
fn upload_targets_follow_the_settings() {
    let mut cfg = config();
    assert_eq!(
        configured_upload_targets(&cfg),
        vec![UploadTarget::QrzLogbook, UploadTarget::HamQth]
    );
    let r = contact(4, "A", "20m", 0);
    let (id, t) = auto_upload_adif(&cfg, &r).unwrap();
    assert_eq!((id, t), (4, vec![UploadTarget::Eqsl, UploadTarget::HamQth]));
    cfg.auto_upload = false;
    assert!(auto_upload_adif(&cfg, &r).is_none());
}

#[test]
fn lookups_are_rationed() {
    let mut cfg = config();
    let mut pending = Vec::new();
    assert!(!queue_lookup(&cfg, &mut pending, "  "));
    assert!(queue_lookup(&cfg, &mut pending, " oe1abc "));
    assert_eq!(pending, vec!["oe1abc".to_string()]);
    let mut g = GridLookups { asked: Vec::new(), last_ms: 0 };
    assert!(!g.grid_lookup_due(1_499));
    assert!(g.grid_lookup_due(1_500));
    g.queue_grid_lookup(&cfg, &mut pending, Some("K1A"), 2_000);
    g.queue_grid_lookup(&cfg, &mut pending, Some("K1A"), 5_000);
    assert_eq!(g.asked.len(), 1);
    assert_eq!(g.last_ms, 5_000);
    cfg.lookup_provider = LookupProvider::Off;
    g.queue_grid_lookup(&cfg, &mut pending, Some("K2B"), 9_000);
    assert_eq!(g.last_ms, 5_000);
    assert_eq!(pending.len(), 3);
}

#[test]
fn the_network_log_keeps_fifty_lines() {
    let mut log = Vec::new();
    for i in 0..60 {
        push_net_log(&mut log, format!("{i}"));
    }
    assert_eq!(log.len(), 50);
    assert_eq!(log[0], "59");
    assert_eq!(log[49], "10");
}

fn info(call: &str) -> CallsignInfo {
    CallsignInfo {
        call: call.to_string(),
        name: Some("Anna".to_string()),
        qth: Some("Graz".to_string()),
        grid: Some("JN77".to_string()),
        state: None,
        country: Some("Austria".to_string()),
        dxcc: Some(206),
        cq_zone: None,
        itu_zone: None,
    }
}

#[test]
fn a_lookup_fills_the_newest_contact() {
    let mut log = vec![
        contact(1, "oe6xyz", "20m", 50),
        contact(2, "OE6XYZ", "20m", 90),
        contact(3, "OE6XYZ", "40m", 90),
        contact(4, "K1A", "40m", 99),
    ];
    log[2].name = "Berta".to_string();
    let mut lines = Vec::new();
    let mut cache = CallsignCache { entries: Vec::new() };
    let mut edit = None;
    assert!(apply_callsign(info("Oe6Xyz"), &mut lines, &mut cache, &mut edit, &mut log));
    assert_eq!(lines[0], "Oe6Xyz — Anna, Graz (Austria)");
    assert_eq!(cache.entries[0].0, "OE6XYZ");
    assert_eq!(log[2].name, "Berta");
    assert_eq!(log[2].qth, "Graz");
    assert_eq!(log[2].grid.as_deref(), Some("JN77"));
    assert_eq!(log[2].dxcc, Some(206));
    assert_eq!(log[1].qth, "");
    assert!(!apply_callsign(info("OE6XYZ"), &mut lines, &mut cache, &mut edit, &mut log));
    assert_eq!(cache.entries.len(), 1);
}

#[test]
fn confirmations_only_add_marks() {
    let mut log = vec![contact(1, "K1A", "20m", 1_000), contact(2, "K1A", "20m", 2_000)];
    let mut c = contact(0, "k1a", "20M", 86_000);
    c.lotw_rcvd = true;
    let mut blank = contact(0, " ", "", 0);
    blank.lotw_rcvd = true;
    let recs = vec![c, blank];
    let mut lines = Vec::new();
    assert!(apply_confirmations(&recs, &mut lines, &mut log));
    assert_eq!(lines[0], "Confirmations: 2 downloaded, 1 newly confirmed");
    assert!(log[0].lotw_rcvd && !log[1].lotw_rcvd);
    assert!(!apply_confirmations(&recs, &mut lines, &mut log));
    assert_eq!(lines[0], "Confirmations: 2 downloaded, 0 newly confirmed");
}

#[test]
fn an_import_skips_what_is_logged() {
    let mut log = vec![contact(5, "K1A", "20m", 1_000)];
    let mut lines = Vec::new();
    let records = || {
        vec![
            contact(1, "k1a", "20M", 1_119),
            contact(1, "K1A", "20m", 1_120),
            contact(1, " ", "20m", 9_000),
            contact(1, "K2B", "40m", 1_000),
            contact(1, "K2B", "40m", 1_050),
        ]
    };
    let loaded = Loaded::Records(records(), Some("windows-1252".to_string()));
    assert!(poll_adif_import(&loaded, &mut lines, &mut log));
    assert_eq!(
        lines[0],
        "ADIF import: 2 added, 2 duplicates skipped (not Unicode; read as windows-1252)"
    );
    assert_eq!(log.len(), 3);
    assert_eq!((log[1].id, log[2].id), (6, 7));
    assert!(!poll_adif_import(&Loaded::Records(records(), None), &mut lines, &mut log));
    assert_eq!(lines[0], "ADIF import: 0 added, 4 duplicates skipped");
    assert!(!poll_adif_import(&Loaded::Failed("gone".to_string()), &mut lines, &mut log));
    assert_eq!(lines[0], "ADIF import failed: gone");
    assert!(!poll_adif_import(&Loaded::Unreadable, &mut lines, &mut log));
    assert_eq!(lines[0], "ADIF import failed: the file could not be parsed");
}

#[test]
fn a_dropped_link_is_dialled_again() {
    let mut l = Link::new();
    l.on_lost("gone".to_string(), 10_000, 5, true);
    assert_eq!(l.retry_at, Some(11_250));
    l.on_lost("closed".to_string(), 10_001, 5, true);
    assert_eq!(l.retry_at, Some(11_250));
    assert_eq!(l.backoff, 2_000);
    assert_eq!(l.outlook_text(10_000), "Reconnecting in 2s…");
    assert_eq!(l.outlook_text(10_251), "Reconnecting…");
    assert!(!l.due(11_249));
    assert!(l.due(11_250));
    assert!(l.due(-20_000));
    // Thirty seconds and a stagger ahead is a wait, not a clock set back.
    let mut far = Link::new();
    far.backoff = 30_000;
    far.on_lost("gone".to_string(), 10_000, 3, true);
    assert!(!far.due(10_000));
    assert!(!far.due(40_749));
    assert!(far.due(40_750));
    assert!(far.due(9_999));
    far.redial_by_hand();
    assert_eq!((far.backoff, far.retry_at), (1_000, Some(40_750)));
    l.reconnect_now(Some("no".to_string()), 11_250, 5, true);
    assert_eq!(l.retry_at, Some(13_500));
    for _ in 0..9 {
        l.reconnect_now(Some("no".to_string()), 0, 4, true);
    }
    assert_eq!(l.backoff, 30_000);
    l.reconnect_now(None, 0, 4, true);
    assert!(!l.pending());
    assert_eq!(l.outlook_text(0), "Not connected.");
    l.on_accepted();
    assert_eq!(l.backoff, 1_000);
}

fn chip(id: u32, name: &str) -> RadioChip {
    RadioChip {
        id,
        station: String::new(),
        station_id: id,
        name: name.to_string(),
        default_name: "TCI".to_string(),
        tx_on: false,
        error: false,
        muted: false,
        focused: false,
        attached_to: None,
        enabled: true,
        switchable: true,
        roster_editable: true,
        first_of_station: false,
    }
}

#[test]
fn radios_have_names() {
    let roster = vec![chip(0, ""), chip(1, "Attic")];
    assert_eq!(roster[0].display_name(), "TCI");
    assert_eq!(radio_name(&roster, 1), "Attic");
    assert_eq!(radio_name(&roster, 0), "TCI");
    assert_eq!(radio_name(&roster, 7), "radio 8");
    assert_eq!(own_power_state(&roster, 1), Some(true));
    assert_eq!(own_power_state(&roster, 7), None);
    assert_eq!(view_key(0), "view");
    assert_eq!(view_key(12), "view:12");
    assert_eq!(interface_name(Some("rtltcp")).unwrap(), "RTL-SDR (rtl_tcp)");
    assert_eq!(interface_name(Some("bladerf")).unwrap(), "Bladerf");
    assert_eq!(interface_name(Some("ßx")).unwrap(), "SSx");
    assert!(interface_name(Some("none")).is_none());
    assert!(interface_name(Some("")).is_none());
    assert!(interface_name(None).is_none());
}

#[test]
fn an_address_names_its_radio() {
    assert_eq!(station_radio_id(None, 3), 3);
    assert_eq!(station_radio_id(Some("wss://h/ws"), 3), 0);
    assert_eq!(station_radio_id(Some("wss://h/ws/2"), 3), 2);
    assert_eq!(station_radio_id(Some("wss://h/ws/9/ws/4//"), 3), 4);
    assert_eq!(station_radio_id(Some("wss://h/ws/x"), 3), 0);
    assert_eq!(station_radio_id(Some("wss://h/ws/99999999999"), 3), 0);
}

#[test]
fn dials_are_found() {
    let none: Vec<Channel> = Vec::new();
    assert_eq!(
        digi_freq_for_band(Mode::Psk, &none, Some((14_000_000, 14_350_000))),
        Some(14_070_000)
    );
    assert_eq!(digi_freq_for_band(Mode::RfPaint, &none, Some((14_000_000, 14_350_000))), None);
    assert_eq!(digi_freq_for_band(Mode::Psk, &none, None), None);
    assert_eq!(digi_dial_freqs(Mode::Rifp)[3].hz, 433_920_000);
    let ch = |hz: u64, note: &str, band: u8| Channel {
        dial_hz: hz,
        note: note.to_string(),
        band,
        off_segment: note == "DXpedition",
    };
    let shared = vec![ch(14_067_000, "DXpedition", 5), ch(14_074_000, "", 5)];
    assert_eq!(digi_freq_for_band(Mode::Ft8, &shared, None), Some(14_074_000));
    assert_eq!(channel_ink(&shared[0]), Some(Ink::Yellow));
    assert_eq!(channel_ink(&shared[1]), None);
    assert!(explains_ink(&shared) && !explains_ink(&vec![ch(14_074_000, "", 5)]));
    let only = vec![ch(14_067_000, "DXpedition", 5)];
    assert_eq!(digi_freq_for_band(Mode::Ft8, &only, None), Some(14_067_000));
    let all =
        vec![ch(7_074_000, "", 3), ch(14_074_000, "", 5), ch(7_047_500, "x", 3), ch(3_573_000, "", 1)];
    let g = group_channels(&all, 1);
    assert_eq!(g.iter().map(|g| g.band).collect::<Vec<_>>(), vec![1, 3, 5]);
    assert_eq!(g[1].channels, vec![0, 2]);
    let rising: Vec<Channel> = (1..=4u8).map(|b| ch(u64::from(b) * 1_000_000, "", b)).collect();
    let bands = |here| group_channels(&rising, here).iter().map(|g| g.band).collect::<Vec<_>>();
    assert_eq!(bands(3), vec![3, 1, 2, 4]);
    assert_eq!(bands(9), vec![1, 2, 3, 4]);
    assert_eq!(channel_here(&all, 7_074_000_999), Some(0));
    assert_eq!(channel_here(&all, 7_074_001_000), None);
    assert_eq!(chip_face(Some(7_047_500)), "⇵ 7.048");
    assert_eq!(chip_face(None), "⇵ FREQ");
    assert_eq!(channel_line(&all[2]), "   7.048 MHz   x");
}

fn spot(key: &str, heard_us: bool) -> WsprSpot {
    WsprSpot {
        key: key.to_string(),
        call: "K1A".to_string(),
        grid: None,
        reporter: None,
        reporter_grid: None,
        heard_us,
        snr_db: -20,
        power_dbm: 23,
        slot_utc: 0,
    }
}

#[test]
fn a_reception_is_listed_once() {
    let mut list = Vec::new();
    add_spots(&mut list, vec![spot("a", false), spot("b", false), spot("a", false)]);
    assert_eq!(list.iter().map(|s| s.key.clone()).collect::<Vec<_>>(), vec!["b", "a"]);
    add_spots(&mut list, vec![spot("c", true), spot("b", false)]);
    assert_eq!(list.iter().map(|s| s.key.clone()).collect::<Vec<_>>(), vec!["c", "b", "a"]);
    assert_eq!(receptions_label(&list), "2 rx · 1 heard us");
    let batch: Vec<WsprSpot> = (0..500).map(|i| spot(&format!("{i}"), false)).collect();
    add_spots(&mut list, batch);
    assert_eq!(list.len(), WSPR_SPOT_ROWS);
    assert_eq!(list[0].key, "0");
    assert_eq!(receptions_label(&Vec::new()), "0 rx");
}

#[test]
fn the_beacon_says_what_it_does() {
    assert_eq!(countdown(0), "2:00");
    assert_eq!(countdown(54_501), "1:05");
    assert_eq!(countdown(200_000), "0:00");
    assert_eq!(last_slot_text(false, 1), "1 beacon");
    assert_eq!(last_slot_text(false, 3), "3 beacons");
    assert_eq!(last_slot_text(false, 0), "nothing heard");
    assert_eq!(one_slot_in(33), 3);
    assert_eq!(one_slot_in(20), 5);
    assert_eq!(identity_line("", "JN88", None).1, Ink::Yellow);
    assert_eq!(
        identity_line(" K1A ", "JN88ee", Some("JN88")).0,
        "Transmitting as K1A in JN88 — set on the General tab of Settings."
    );
    let mut b = Beacon { tx_percent: 20, power_dbm: 23, hop: false, hop_bands: 1 };
    assert!(press_beacon(&mut b, BeaconPress::Duty(20), true).is_none());
    assert!(press_beacon(&mut b, BeaconPress::Duty(10), false).is_none());
    assert!(press_beacon(&mut b, BeaconPress::HopBand(3), true).is_some());
    assert_eq!(b.hop_bands, 9);
    assert!(press_beacon(&mut b, BeaconPress::HopBand(0), true).is_some());
    assert_eq!(b.hop_bands, 8);
}

fn cfg(lo: i64) -> SpectrumCfg {
    SpectrumCfg { lo, hi: lo + 10, bins: 4, fps: 20 }
}

#[test]
fn settings_of_the_spectrum_wait_their_turn() {
    let mut d = CfgDebounce { sent: None, wanted: None, since: 0 };
    assert!(debounce_cfg(&mut d, MainArea::SignIn, cfg(1), 100, 50).is_none());
    assert!(d.wanted.is_none());
    let sent = debounce_cfg(&mut d, MainArea::Analog, cfg(1), 100, 50);
    assert!(matches!(sent, Some(Command::SetSpectrumCfg(c)) if c == cfg(1)));
    assert!(debounce_cfg(&mut d, MainArea::Analog, cfg(2), 200, 50).is_none());
    assert!(debounce_cfg(&mut d, MainArea::Analog, cfg(2), 249, 50).is_none());
    assert!(debounce_cfg(&mut d, MainArea::Analog, cfg(2), 250, 50).is_some());
    let mut s = SkimDebounce { sent: None, wanted: None, since: 0 };
    let want = Span { lo: 0, hi: 1_000 };
    assert!(debounce_skimmer_view(&mut s, MainArea::Digital, want, 100, 50).is_none());
    assert!(matches!(
        debounce_skimmer_view(&mut s, MainArea::Digital, want, 150, 50),
        Some(Command::SetSkimmerView(0, 1_000))
    ));
    assert!(debounce_skimmer_view(&mut s, MainArea::Digital, Span { lo: 10, hi: 1_010 }, 900, 0).is_none());
    assert!(debounce_skimmer_view(&mut s, MainArea::Digital, Span { lo: 11, hi: 1_011 }, 900, 0).is_some());
    assert_eq!(wait_ms(true, 30, None), 33);
    assert_eq!(wait_ms(true, 0, None), 1000);
    assert_eq!(wait_ms(false, 30, None), 250);
    assert_eq!(wait_ms(false, 30, Some(-5)), 1);
    assert_eq!(wait_ms(false, 30, Some(100)), 100);
}

#[test]
fn the_view_follows_the_mode_and_comes_back() {
    let start = Span { lo: 1, hi: 2 };
    let mut v = PanView { span: start, pre_digi: None, fit: None };
    let dial = 14_074_000_000;
    let sub = sub_band(Mode::Sstv, dial, false, 0);
    assert_eq!(sub, Span { lo: dial - 200_000, hi: dial + 3_500_000 });
    show_digital(&mut v, Fit { mode: Mode::Sstv, slotted: false, dial, center: 0 }, sub);
    assert_eq!(v.span, sub);
    // Zoomed in, and tuned a little: the zoom stays.
    let zoomed = Span { lo: dial, hi: dial + 100 };
    v.span = zoomed;
    let near = sub_band(Mode::Sstv, dial + 500, false, 0);
    show_digital(&mut v, Fit { mode: Mode::Sstv, slotted: false, dial: dial + 500, center: 0 }, near);
    assert_eq!(v.span, zoomed);
    let far = sub_band(Mode::Sstv, dial * 2, false, 0);
    show_digital(&mut v, Fit { mode: Mode::Sstv, slotted: false, dial: dial * 2, center: 0 }, far);
    assert_eq!(v.span, far);
    show_voice(&mut v);
    assert_eq!(v.span, start);
    assert_eq!(v.fit, None);
    assert_eq!(sub_band(Mode::Rifp, 0, true, 25_000).hi, 15_000_000);
    assert_eq!(main_area(true, true, true), MainArea::SignIn);
    assert_eq!(main_area(false, true, true), MainArea::Error);
    assert_eq!(main_area(false, false, false), MainArea::Analog);
    assert_eq!(zoom_out(None, 50, 7, 20), (7, 50));
    assert_eq!(zoom_out(Some((3, 10)), 15, 7, 20), (7, 20));
    assert_eq!(zoom_out(Some((3, 90)), 15, 7, 20), (3, 90));
    assert_eq!(banner_button(true), BannerButton::Acknowledge);
    assert_eq!(notice_banner_colors(true).3, Ink::Rgb(58, 44, 8));
    assert_eq!(notice_banner_colors(false).0.rgba(), Some([60, 45, 10, 255]));
    assert_eq!(Ink::Gray(7).rgba(), None);
    let t = Tones {
        audio: 1_500_000,
        rtty_shift: 170_000,
        olivia_width: 0,
        thor_baud: 15_625,
        js8_width: 50_000,
        fsq_baud: 4_500,
        hell_width: 0,
    };
    assert_eq!(markers(Mode::Rtty, t), vec![1_415_000, 1_585_000]);
    assert_eq!(markers(Mode::Thor, t), vec![1_359_375, 1_640_625]);
    assert_eq!(markers(Mode::Js8, t), vec![1_500_000, 1_550_000]);
    assert!(markers(Mode::Psk, t).is_empty());
}

/// Before the radio has reported the usual figures stand in, and the
/// keyboard-message mode's width does for as long as that mode does not run.
#[test]
fn tuning_lines_before_the_first_report() {
    let t = tones(None, true, 245_000);
    assert_eq!(markers(Mode::Rtty, t), vec![1_415_000, 1_585_000]);
    assert_eq!(markers(Mode::Olivia, t), vec![1_000_000, 2_000_000]);
    assert_eq!(markers(Mode::Thor, t), vec![1_359_375, 1_640_625]);
    assert_eq!(markers(Mode::Js8, t), vec![1_500_000, 1_550_000]);
    assert_eq!(markers(Mode::Fsq, t), vec![1_425_750, 1_574_250]);
    assert_eq!(markers(Mode::Hell, t), vec![1_377_500, 1_622_500]);
    let reported = Tones { audio: 900_000, js8_width: 160_000, fsq_baud: 6_000, ..t };
    assert_eq!(tones(Some(reported), true, 0), reported);
    let without = tones(Some(reported), false, 0);
    assert_eq!(markers(Mode::Js8, without), vec![900_000, 950_000]);
    assert_eq!(without.fsq_baud, 6_000);
}

#[test]
fn the_cursor_stands_at_the_tone() {
    let c = cursor(true, Mode::Ft8, false, None).unwrap();
    assert_eq!((c.tone, c.click_sets_tone), (1_500_000, true));
    let c = cursor(true, Mode::Rtty, true, Some(2_125_000)).unwrap();
    assert_eq!((c.tone, c.click_sets_tone), (2_125_000, false));
    let c = cursor(false, Mode::Cw, false, None).unwrap();
    assert_eq!((c.tone, c.click_sets_tone), (700_000, false));
    assert_eq!(cursor(false, Mode::Usb, false, Some(1)), None);
}

#[test]
fn dividers_stay_in_their_range() {
    assert_eq!(drag(Divider::Decodes, 500_000, 50_000, 1_000_000), 550_000);
    assert_eq!(drag(Divider::Decodes, 500_000, -50_000, 1_000_000), 450_000);
    assert_eq!(drag(Divider::Decodes, 500_000, 900_000, 1_000_000), 720_000);
    assert_eq!(drag(Divider::Panel, 500_000, 50_000, 1_000_000), 450_000);
    assert_eq!(drag(Divider::Panel, 500_000, -900_000, 1_000_000), 820_000);
    assert_eq!(drag(Divider::WorldMap, 500_000, -900_000, 1_000_000), 0);
    assert_eq!(drag(Divider::WorldMap, 500_000, 0, 0), 500_000);
    // The receptions' divider is dragged from where it stands.
    let left = reception_column(400_000, 100_000);
    assert_eq!(left, 240_000);
    assert_eq!(drag(Divider::Receptions, share_of(left, 400_000), -40_000, 400_000), 500_000);
    assert_eq!(decode_column(300_000, WHOLE / 2), 180_000);
    assert_eq!(decode_column(1_000_000, 900_000), 773_000);
    assert_eq!(exchange_map(100_000, 500_000, 28_000, 1_000_000, WHOLE), 400_000);
    assert_eq!(exchange_map(100_000, 500_000, 28_000, 200_000, WHOLE), 200_000);
    assert_eq!(exchange_map(100_000, 0, 28_000, 0, WHOLE), 100_000);
}

#[test]
fn a_turn_is_counted_from_the_epoch() {
    assert_eq!(slot_progress(5, None, true), None);
    assert_eq!(
        slot_progress(30_007, Some(15_000), true),
        Some(Turn { into_ms: 7, transmitting: true })
    );
    assert_eq!(
        slot_progress(-1, Some(7_500), false),
        Some(Turn { into_ms: 7_499, transmitting: false })
    );
}

/// A sign-in counts as under way from the moment its request leaves.
#[test]
fn a_sign_in_is_pending_once_it_is_sent() {
    let mut app = SdroxideApp::new(false, Mode::Ft8, M20, Vec::new());
    app.logins.results.insert(3, (false, "no".to_string()));
    app.logins.results.insert(4, (true, "yes".to_string()));
    app.logins.on_commands(&vec![Command::SetPtt(false), Command::TestLogin(3)]);
    assert!(app.logins.pending.contains_key(&3) && app.logins.pending.len() == 1);
    assert!(!app.logins.results.contains_key(&3) && app.logins.results.contains_key(&4));
}

/// A frame that takes the place of one nothing has drawn carries its rows on,
/// and a redial starts over.
#[test]
fn frames_that_nobody_saw_hand_their_rows_on() {
    let cfg = config();
    let mut app = SdroxideApp::new(false, Mode::Ft8, M20, Vec::new());
    let (e, _) =
        app.drain_events(vec![Event::Spectrum, Event::Spectrum], now(&cfg), &Vec::new());
    assert_eq!(e, vec![Effect::Frame(false), Effect::Frame(true)]);
    assert_eq!((app.has_frame, app.last_frame_ms), (true, 5_000));
    let (e, _) = app.drain_events(vec![Event::Spectrum], now(&cfg), &Vec::new());
    assert_eq!(e, vec![Effect::Frame(false)]);
    let (e, _) = app.drain_events(vec![Event::Accepted], now(&cfg), &Vec::new());
    assert_eq!(e, vec![Effect::Restart]);
    assert!(app.has_frame);
    let mut d = CfgDebounce { sent: None, wanted: None, since: 0 };
    let wanted = SpectrumCfg { lo: 0, hi: 10, bins: 4, fps: 20 };
    assert!(debounce_cfg(&mut d, MainArea::Digital, wanted, 0, 100).is_some());
    app.redialled(&mut d, Some("no".to_string()), 5_000, true);
    assert_eq!((d.sent, d.wanted), (None, None));
    assert!(!app.has_frame);
    assert_eq!(app.link.error.as_deref(), Some("no"));
    assert!(app.link.retry_at.is_some());
}

#[test]
fn letting_go_of_a_satellite_is_sent_at_once() {
    let mut sent = Some(25_544u32);
    let mut cmds = Vec::new();
    assert_eq!(apply_lock_change(None, &mut sent, &mut cmds), None);
    assert_eq!(
        apply_lock_change(Some(LockChange::Lock(43_017)), &mut sent, &mut cmds),
        Some(43_017)
    );
    assert!(cmds.is_empty());
    assert_eq!(sent, Some(25_544));
    assert_eq!(apply_lock_change(Some(LockChange::Unlock), &mut sent, &mut cmds), None);
    assert_eq!(sent, None);
    assert_eq!(cmds.len(), 1);
    assert!(matches!(cmds[0], Command::SetSatLock(None)));
}

/// The beacon's panel, the decode list and the dialog share one choice.
#[test]
fn roaming_is_the_automatic_tone() {
    let mut s = settings();
    assert!(press_roam(&mut s.figures.qso, false).is_none());
    assert!(s.figures.qso.auto_tx_freq);
    assert!(matches!(
        press_roam(&mut s.figures.qso, true),
        Some(Command::SetDigiConfig(DigiConfig::Tone(false, false)))
    ));
    assert!(!s.figures.qso.auto_tx_freq);
    let a = Around { grid: None, fm: false, fox_max: 5, turbo: false };
    let mut cmds = Vec::new();
    let edits = vec![Edit::Figure(Change::Qso(QsoChange::Repeats(3)))];
    settings_frame(&mut s, Mode::Wspr, a, &edits, &mut cmds);
    assert!(matches!(
        &cmds[0],
        Command::SetDigiConfig(DigiConfig::Dialog(d)) if !d.figures.qso.auto_tx_freq
    ));
    assert!(press_tone_chip(&mut s.figures.qso, ToneChip::Auto).is_some());
    assert!(s.figures.qso.auto_tx_freq);
}

#[test]
fn reversing_is_sent_once_the_settings_are_known() {
    let mut reverse = false;
    assert!(press_reverse(&mut reverse, false).is_none());
    assert!(reverse);
    assert!(matches!(
        press_reverse(&mut reverse, true),
        Some(Command::SetDigiConfig(DigiConfig::NavtexReverse(false)))
    ));
    assert!(!reverse);
}

#[test]
fn what_was_sent_cannot_be_edited() {
    let mut cmds = Vec::new();
    let mut text = "CX hello".to_string();
    edit(&mut text, "CQ hello", 2, false, &mut cmds);
    assert_eq!(text, "CQ hello");
    assert!(matches!(&cmds[0], Command::DigiTxText(t) if t == "CQ hello"));
    text = "CQ world".to_string();
    edit(&mut text, "CQ hello", 2, true, &mut cmds);
    assert_eq!(text, "CQ world");
    assert_eq!(cmds.len(), 1);
    assert_eq!(split_sent("äb", 9), ("äb".to_string(), String::new()));
    assert_eq!(split_sent("äb", 1), ("ä".to_string(), "b".to_string()));
}

#[test]
fn return_commits_a_line() {
    let mut cmds = Vec::new();
    let mut text = "  ".to_string();
    commit_tx_line(&mut text, &mut cmds);
    assert!(cmds.is_empty());
    text = "hello".to_string();
    commit_tx_line(&mut text, &mut cmds);
    commit_tx_line(&mut text, &mut cmds);
    assert_eq!(text, "hello\n");
    assert_eq!(cmds.len(), 4);
    assert!(matches!(cmds[3], Command::DigiTxActive(true)));
    cmds.clear();
    call_cq(&mut text, "", Mode::Psk, &mut cmds);
    assert_eq!(text, "CQ CQ CQ DE NOCALL NOCALL NOCALL PSE K\n");
    call_cq(&mut text, "K1A", Mode::Hell, &mut cmds);
    assert_eq!(text, "CQ CQ CQ DE K1A K1A K1A PSE K ");
    assert_eq!(cmds.len(), 6);
    assert!(matches!(cmds[3], Command::DigiAbortTx));
    cmds.clear();
    press_tx("x", false, true, &mut cmds);
    press_tx("x", true, true, &mut cmds);
    assert_eq!(cmds.len(), 3);
    assert!(matches!(cmds[2], Command::DigiTxActive(false)));
    assert_eq!(nudged_tone(205_000, false, Mode::Psk), 200_000);
    assert_eq!(nudged_tone(205_000, false, Mode::Hell), 195_000);
}

fn terminal() -> Terminal {
    Terminal {
        target: String::new(),
        via: String::new(),
        draft: String::new(),
        history: Vec::new(),
        at: None,
    }
}

#[test]
fn sent_lines_are_remembered() {
    let mut t = terminal();
    assert!(t.send(true, LinkState::Idle).is_none());
    for line in ["L  ", "L", " ", "C K1A"] {
        t.draft = line.to_string();
        assert!(t.send(true, LinkState::Connected).is_some());
    }
    assert_eq!(t.history, vec!["L".to_string(), "C K1A".to_string()]);
    t.recall(true);
    assert_eq!(t.draft, "C K1A");
    t.recall(true);
    t.recall(true);
    assert_eq!((t.draft.as_str(), t.at), ("L", Some(0)));
    t.recall(false);
    assert_eq!(t.draft, "C K1A");
    t.recall(false);
    assert_eq!((t.draft.as_str(), t.at), ("", None));
    t.recall(false);
    assert_eq!(t.at, None);
    for i in 0..150 {
        t.draft = format!("{i}");
        t.send(true, LinkState::Connected);
    }
    assert_eq!(t.history.len(), 100);
    assert_eq!(t.history[0], "50");
}

#[test]
fn a_station_is_called() {
    let mut t = terminal();
    let gate = Gate { tx_ok: true, have_call: true, busy: false, link: link_state("Disconnected") };
    assert!(t.connect(gate, false).is_none());
    let h = Heard {
        from: "oe3xlr".to_string(),
        to: "BEACON".to_string(),
        via: vec!["A".to_string(), "B".to_string()],
        sent: false,
    };
    assert_eq!(heard_line(&h).0, "oe3xlr>BEACON,A,B");
    t.press_heard(&h);
    t.target_typed();
    t.via_typed();
    assert!(t.can_press_connect(gate));
    match t.connect(gate, true) {
        Some(Command::PacketConnect(call, via, ext)) => {
            assert_eq!((call.as_str(), via.as_str(), ext), ("OE3XLR", "A,B", true));
        }
        _ => panic!("no call"),
    }
    let busy = Gate { link: link_state("Awaiting"), ..gate };
    assert_eq!(busy.link, LinkState::Working);
    assert!(t.connect(busy, true).is_none());
}

fn message(text: &str) -> Message {
    Message {
        station: 'O',
        kind: 'E',
        serial: 7,
        kind_label: "Forecast".to_string(),
        mandatory: false,
        complete: false,
        lost: 2,
        text: text.to_string(),
    }
}

#[test]
fn messages_are_summed_up() {
    let m = message(" \r\n\t\n  GALE WARNING \r\nREST");
    assert_eq!(message_head(&m), ("OE07  Forecast".to_string(), Ink::Yellow));
    assert_eq!(first_text_line(&m.text), "GALE WARNING");
    assert_eq!(preview(&m), "      GALE WARNING");
    assert_eq!(fault_line(&m).unwrap(), "      cut short, 2 characters lost");
    let long = message(&"X".repeat(100));
    assert_eq!(preview(&long).len(), 60);
    assert_eq!(first_text_line("\n \n"), "");
    assert_eq!(press_message(Some(1), 1), None);
    assert_eq!(press_message(Some(1), 2), Some(2));
    assert_eq!(reading(Some(3), 2, true), Reading::LiveOpened);
    assert_eq!(reading(None, 2, true), Reading::Receiving);
    assert_eq!(reading(Some(0), 2, true), Reading::Message(0));
}

#[test]
fn the_broadcast_trace_is_bounded() {
    let mut t = VecDeque::new();
    for i in 0..300 {
        on_drm(&mut t, true, DrmSync::Good, (i, i));
    }
    assert_eq!(t.len(), HISTORY_LEN);
    assert_eq!(t[0], (60, 60));
    on_drm(&mut t, false, DrmSync::Good, (0, 0));
    assert_eq!(t.len(), HISTORY_LEN);
    on_drm(&mut t, false, DrmSync::CrcError, (0, 0));
    assert!(t.is_empty());
    assert_eq!(quad_indices(4), vec![4, 5, 6, 4, 6, 7]);
    assert_eq!(sync_ink(DrmSync::Absent), Ink::Gray(90));
    let mut asked = None;
    assert!(constellation_request(&mut asked, true, Mode::Usb, 1).is_none());
    assert!(matches!(
        constellation_request(&mut asked, true, Mode::Drm, 1),
        Some(Command::SetDrmConstellation(Some(1)))
    ));
    assert!(constellation_request(&mut asked, true, Mode::Drm, 1).is_none());
    assert!(matches!(press_service(1, 0, 2), Some(Command::SetDrmService(1))));
    assert!(press_service(0, 0, 2).is_none());
    let s = Service {
        country: "de".to_string(),
        language: String::new(),
        codec: Some("xHE-AAC".to_string()),
        codec_ok: false,
        bitrate: None,
        stereo: false,
    };
    assert_eq!(service_line(&s), "DE · xHE-AAC — not decodable · mono");
    let g = DrmSync::Good;
    let row = stage_row(Stages { io: g, time: g, frame: g, fac: g, sdc: g, audio: g }, true, true);
    assert_eq!(row[5].hover, "Audio frames decoding");
}

#[test]
fn the_packet_link_counts_what_there_is() {
    assert_eq!(bad_text(0), None);
    assert_eq!(bad_text(3).as_deref(), Some("3 bad"));
    assert_eq!(unacked_text(2).as_deref(), Some("2 unacked"));
    assert_eq!(retry_text(5).as_deref(), Some("retry 5"));
    assert!(session_hint(0, "").is_some() && session_hint(0, "x").is_none());
    assert!(session_hint(1, "").is_none());
    assert_eq!((session_height(200_000), session_height(100_000)), (98_000, 60_000));
}

#[test]
fn the_aircraft_list_leaves_room_for_its_card() {
    assert_eq!(list_width(1_000_000), 420_000);
    assert_eq!((list_width(100_000), list_width(2_000_000)), (240_000, 460_000));
    assert_eq!(list_and_card(500_000, false), (454_000, 0));
    assert_eq!(list_and_card(500_000, true), (254_000, 200_000));
    assert_eq!(list_and_card(150_000, true), (48_000, 120_000));
    assert_eq!(suggested(1_090_000_000, false, Some(1_090_500_000)), Some(1_090_500_000));
    assert_eq!(suggested(1_090_000_000, true, Some(1_090_500_000)), None);
    assert_eq!(suggested(1_090_000_000, false, Some(1_090_000_001)), None);
}

#[test]
fn an_exchange_has_its_headings() {
    assert_eq!(pile_up_head(0), None);
    assert_eq!(pile_up_head(12).as_deref(), Some("PILE-UP 12"));
    assert_eq!(queue_head(1).as_deref(), Some("QUEUE 1"));
    assert_eq!(queue_head(0), None);
    assert_eq!((pile_up_ink(true), pile_up_ink(false)), (Ink::Green, Ink::Gray(150)));
    assert!(matches!(drop_queued(Some("K1A")), Command::DigiQueueRemove(s) if s == "K1A"));
    assert!(matches!(drop_queued(None), Command::DigiQueueRemove(s) if s.is_empty()));
    assert_eq!(empty_card(false), "FT8 engine idle");
    assert_eq!(session_line(3), "Session: 3 QSO");
    assert_eq!(
        export_button(0, "text"),
        (false, "Save the whole logbook (0 QSO) as text".to_string())
    );
    assert!(export_button(2, "ADIF").0);
    assert_eq!(queue_chip(true), ("＋", "Queued — click to remove"));
    assert_eq!(queue_chip(false).0, "+");
}

#[test]
fn an_exchange_has_its_buttons() {
    assert!(buttons(Some(QsoStep::Confirming), true, false).call_cq);
    assert!(!buttons(Some(QsoStep::TxGrid), true, true).call_cq);
    assert!(!buttons(None, false, true).call_cq);
    let mut t = "TU 73".to_string();
    assert!(send_free_text(&mut t, false, true, false).is_none());
    assert!(send_free_text(&mut t, true, false, false).is_none());
    assert!(matches!(send_free_text(&mut t, false, true, true), Some(Command::DigiSendText(_))));
    assert_eq!(t, "");
    assert!(send_free_text(&mut t, true, true, true).is_none());
    let shown = transcript(&Vec::new(), None);
    assert_eq!(shown, vec![("— no messages —".to_string(), Ink::Gray(90))]);
    let line = Line { text: "CQ".to_string(), tx: true, done: false, overheard: false };
    let shown = transcript(&vec![line], Some("73"));
    assert_eq!(shown[0], ("» CQ".to_string(), Ink::Yellow));
    assert_eq!(shown[1].0, "→ 73");
}

fn settings() -> Settings {
    Settings {
        figures: Figures {
            txdelay_ms: 300,
            packet: PacketFigures {
                fast: false,
                paclen: 128,
                ext_seq: false,
                accept_incoming: false,
                beacon_minutes: 0,
                kiss_server: false,
                kiss_port: 8001,
                maxframe: 4,
            },
            aprs: AprsFigures {
                beacon_minutes: 0,
                compressed: false,
                ack_messages: true,
                station_ttl_min: 60,
                symbol: Symbol { table: '/', code: '-' },
                use_grid: true,
                lat: 0,
                lon: 0,
            },
            js8: Js8Figures {
                auto_reply: false,
                heartbeat_min: 0,
                hb_anywhere: false,
                hb_ack: false,
            },
            qso: QsoFigures {
                tx_even: true,
                auto_seq: true,
                auto_tx_freq: true,
                hold_tx_freq: false,
                tx_watchdog_min: 6,
                max_tx_repeats: 0,
                expedition: Expedition::Normal,
                fox_slots: 1,
            },
            level_fm: 50,
            level_ssb: 80,
        },
        texts: Texts {
            my_call: String::new(),
            my_grid: String::new(),
            packet_mycall: String::new(),
            packet_connect_text: String::new(),
            packet_connect_via: String::new(),
            packet_beacon_text: String::new(),
            aprs_mycall: String::new(),
            aprs_path: String::new(),
            aprs_comment: String::new(),
            js8_status: String::new(),
            msg_cq: String::new(),
            msg_grid: String::new(),
            msg_report: String::new(),
            msg_rreport: String::new(),
            msg_rr73: String::new(),
            msg_73: String::new(),
        },
    }
}

/// Edits leave the dialog once a frame, in every mode.
#[test]
fn the_setup_dialog_sends_once() {
    let mut s = settings();
    let a = Around {
        grid: Some(Place { lat: 48_208_333_333, lon: -16_375_000_500 }),
        fm: true,
        fox_max: 5,
        turbo: false,
    };
    let mut cmds = Vec::new();
    let edits = vec![
        Edit::Text(Field::MyCall, "oe1abc".to_string()),
        Edit::Figure(Change::Aprs(AprsChange::UseGrid(false))),
        Edit::Figure(Change::Aprs(AprsChange::Lon(Some(181_000_000_000)))),
        Edit::Figure(Change::Level(3)),
        Edit::SymbolText("\\k".to_string()),
        Edit::Text(Field::MsgCq, "not here".to_string()),
    ];
    settings_frame(&mut s, Mode::Aprs, a, &edits, &mut cmds);
    assert_eq!(cmds.len(), 1);
    assert!(matches!(
        &cmds[0],
        Command::SetDigiConfig(DigiConfig::Dialog(d))
            if d.texts.my_call == "OE1ABC" && d.figures == s.figures
    ));
    assert_eq!(s.texts.my_call, "OE1ABC");
    assert_eq!(s.figures.aprs.lat, 48_208_333_000);
    assert_eq!(s.figures.aprs.lon, -16_375_001_000);
    assert_eq!((s.figures.level_fm, s.figures.level_ssb), (5, 80));
    assert_eq!(s.figures.aprs.symbol, Symbol { table: '\\', code: 'k' });
    assert_eq!(s.texts.msg_cq, "");
    let quiet = vec![
        Edit::Figure(Change::Level(5)),
        Edit::SymbolText("x".to_string()),
        Edit::Figure(Change::Aprs(AprsChange::UseGrid(false))),
    ];
    settings_frame(&mut s, Mode::Aprs, a, &quiet, &mut cmds);
    assert_eq!(cmds.len(), 1);
}

fn now(cfg: &NetworkConfig) -> Now<'_> {
    Now { ms: 5_000, can_reconnect: true, cfg }
}

#[test]
fn a_batch_of_events_is_taken_in() {
    let cfg = config();
    let mut app =
        SdroxideApp::new_tab(2, false, true, Mode::Usb, Band::Gen, vec![contact(3, "A", "20m", 0)]);
    assert_eq!(app.view_key, "view:2");
    assert_eq!((app.mode, app.band), (Mode::Usb, Band::Gen));
    assert!(!app.picture.preview_dirty && app.picture.last_detected.is_none());
    assert!(!app.checking_release);
    app.focused = false;
    app.traffic.text_tx = "half typed".to_string();
    let events = vec![
        Event::State(Mode::Ft8, M20),
        Event::DigiStatus,
        Event::DigiStatus,
        Event::Logged(contact(0, " K1A ", "20m", 9), None),
        Event::Skimmer(vec![
            SkimmerSpot { id: 1, active: false, kind: 0 },
            SkimmerSpot { id: 2, active: false, kind: 1 },
        ]),
        Event::Lost("gone".to_string()),
        Event::Upload(
            UploadResult {
                qso_id: 4,
                target: UploadTarget::Eqsl,
                ok: true,
                message: "fine".to_string(),
            },
            "eQSL".to_string(),
        ),
        Event::Login(1, "QRZ".to_string(), false, "no".to_string()),
    ];
    let (effects, cmds) = app.drain_events(events, now(&cfg), &vec![1]);
    assert_eq!(effects[0], Effect::Clear(Cleared::Mode));
    assert_eq!(effects[1], Effect::AdoptDigi);
    assert_eq!(effects[2], Effect::Nothing);
    assert_eq!(effects[3], Effect::StoreLog);
    assert_eq!(effects[6], Effect::StoreLog);
    assert_eq!(app.traffic.text_tx, "");
    assert_eq!(app.logged.log[1].id, 4);
    assert!(app.logged.log[1].eqsl_sent);
    assert_eq!(app.logged.session_qsos, 1);
    assert_eq!(cmds.len(), 2);
    assert!(matches!(&cmds[0], Command::LookupCallsign(c) if c == "K1A"));
    assert!(matches!(&cmds[1], Command::UploadQso(4, t) if t.len() == 2));
    assert_eq!(app.skimmer.len(), 1);
    assert_eq!(app.skimmer_at.len(), 2);
    assert_eq!(app.link.retry_at, Some(6_500));
    assert_eq!(app.net_log, vec!["QRZ: no".to_string(), "eQSL → OK: fine".to_string()]);
    // Another band: decodes go, the typed text stays.
    app.traffic.text_tx = "half typed".to_string();
    app.focused = true;
    let (effects, cmds) = app.drain_events(
        vec![Event::State(Mode::Ft8, M40), Event::Station(true)],
        now(&cfg),
        &Vec::new(),
    );
    assert_eq!(effects[0], Effect::Clear(Cleared::Band));
    assert!(matches!(effects[1], Effect::Adopt(a) if a.net && a.region && !a.band_plan));
    assert!(cmds.is_empty());
    assert_eq!(app.traffic.text_tx, "half typed");
    assert!(app.skimmer.is_empty());
}

#[test]
fn signals_remember_when_they_keyed() {
    let cfg = config();
    let mut app = SdroxideApp::new(false, Mode::Usb, Band::Gen, Vec::new());
    let spot = |id: u64, active: bool| SkimmerSpot { id, active, kind: 0 };
    let at = |ms: i64| Now { ms, can_reconnect: true, cfg: &cfg };
    app.drain_events(vec![Event::Skimmer(vec![spot(1, false), spot(2, true)])], at(10), &vec![0]);
    app.drain_events(vec![Event::Skimmer(vec![spot(1, false), spot(2, true)])], at(20), &vec![0]);
    assert_eq!(app.skimmer_at[&1], 10);
    assert_eq!(app.skimmer_at[&2], 20);
    app.drain_events(vec![Event::Skimmer(vec![spot(2, false)])], at(30), &vec![0]);
    assert!(!app.skimmer_at.contains_key(&1));
    assert_eq!(app.skimmer_at[&2], 20);
}

#[test]
fn the_paper_of_the_strip_is_a_loop() {
    let v = StripView {
        contrast: 1_000,
        column: 2_000,
        doubled: false,
        reverse: false,
        turned: 250_000,
    };
    assert_eq!(press_strip(v, StripPress::Drag(100_000, 400_000)).turned, 0);
    assert_eq!(press_strip(v, StripPress::Drag(200_000, 400_000)).turned, 750_000);
    assert_eq!(press_strip(v, StripPress::Drag(-300_000, 400_000)).turned, 0);
    assert_eq!(press_strip(v, StripPress::Drag(400_000, 400_000)), v);
    // A drag of one point on a strip with no height is a whole turn.
    assert_eq!(press_strip(v, StripPress::Drag(1_000, 0)), v);
    let twice = press_strip(v, StripPress::Doubled);
    assert!(twice.doubled);
    assert_eq!(press_strip(twice, StripPress::Drag(100_000, 400_000)), twice);
    assert_eq!(press_strip(v, StripPress::Contrast(9_000)).contrast, 3_000);
    assert_eq!(press_strip(v, StripPress::Contrast(1)).contrast, 400);
    assert_eq!(press_strip(v, StripPress::Column(4_000)).column, 4_000);
    assert!(press_strip(v, StripPress::Reverse).reverse);
}

#[test]
fn what_is_received_keeps_a_floor() {
    assert_eq!(received_height(300_000, Mode::Rtty), 190_000);
    assert_eq!(received_height(120_000, Mode::Rtty), 24_000);
    assert_eq!(received_height(-5, Mode::Hell), 28_000);
}

#[test]
fn reporting_waits_for_the_radios_settings() {
    let mut r = Reporting { upload: false, who_heard_us: true };
    assert!(press_reporting(&mut r, ReportChip::Upload, false).is_none());
    assert_eq!(r, Reporting { upload: false, who_heard_us: true });
    assert!(press_reporting(&mut r, ReportChip::Upload, true).is_some());
    assert!(press_reporting(&mut r, ReportChip::WhoHeardUs, true).is_some());
    assert_eq!(r, Reporting { upload: true, who_heard_us: false });
    let mut b = Beacon { tx_percent: 0, power_dbm: 37, hop: true, hop_bands: 0 };
    assert_eq!(hop_warning(b), Some("none selected — hopping has nowhere to go"));
    assert!(press_beacon(&mut b, BeaconPress::HopBand(3), true).is_some());
    assert!(hop_warning(b).is_none());
}

/// While a station waits for a password nothing goes out, and what has gathered
/// goes out with the first frame behind it.
#[test]
fn nothing_is_sent_behind_a_sign_in() {
    let mut app = SdroxideApp::new(false, Mode::Ft8, M20, Vec::new());
    app.logged.pending_lookups.push("K1A".to_string());
    app.logged.pending_uploads.push((7, vec![UploadTarget::Eqsl]));
    let area = main_area(true, false, true);
    let out = frame_commands(area, vec![Command::SetPtt(true)], &mut app.logged);
    assert!(out.is_empty());
    assert_eq!(app.logged.pending_lookups, vec!["K1A".to_string()]);
    assert_eq!(app.logged.pending_uploads.len(), 1);
    let area = main_area(false, false, true);
    let out = frame_commands(area, vec![Command::SetPtt(false)], &mut app.logged);
    assert_eq!(out.len(), 3);
    assert!(matches!(&out[0], Command::SetPtt(false)));
    assert!(matches!(&out[1], Command::LookupCallsign(c) if c == "K1A"));
    assert!(matches!(&out[2], Command::UploadQso(7, t) if t.len() == 1));
    assert!(app.logged.pending_lookups.is_empty() && app.logged.pending_uploads.is_empty());
}

#[test]
fn a_new_session_is_told_the_spectrum_again() {
    let ideal = SpectrumCfg { lo: 0, hi: 1, bins: 512, fps: 30 };
    let mut d = CfgDebounce { sent: Some(ideal), wanted: Some(ideal), since: 5 };
    forget_cfg(&mut d);
    assert_eq!(d, CfgDebounce { sent: None, wanted: None, since: 5 });
    assert!(debounce_cfg(&mut d, MainArea::Error, ideal, 6, 1_000).is_some());
}

/// The mode is compared only where both records have one.
#[test]
fn a_contact_without_a_mode_is_confirmed_too() {
    let mut lines = Vec::new();
    let mut log = vec![contact(1, "OE3JJS", "20m", 1_000)];
    let mut c = contact(0, "OE3JJS", "20m", 1_000);
    c.mode = "FT8".to_string();
    c.lotw_rcvd = true;
    assert!(apply_confirmations(&vec![c], &mut lines, &mut log));
    assert!(log[0].lotw_rcvd);
    let mut other = contact(0, "OE3JJS", "20m", 1_000);
    other.mode = "CW".to_string();
    other.eqsl_rcvd = true;
    log[0].mode = "FT8".to_string();
    assert!(!apply_confirmations(&vec![other], &mut lines, &mut log));
}

#[test]
fn a_short_panel_has_no_map() {
    assert_eq!(map_height(90_000, 179_999, 500_000, 500_000), None);
    assert_eq!(map_height(90_000, 400_000, 500_000, 1_000_000), Some(248_000));
    assert_eq!(map_height(90_000, 400_000, 500_000, 0), Some(90_000));
    assert_eq!(map_height(90_000, 400_000, 100_000, 1_000_000), Some(100_000));
}

#[test]
fn a_shared_log_is_read_again_before_it_grows() {
    let cfg = config();
    let stored = || Some(vec![contact(8, "B", "20m", 0), contact(9, "C", "20m", 0)]);
    let mut app =
        SdroxideApp::new(false, Mode::Ft8, M20, vec![contact(3, "A", "20m", 0)]);
    app.on_event(Event::Logged(contact(0, "D", "20m", 9), stored()), now(&cfg));
    assert_eq!(app.logged.log.iter().map(|q| q.id).collect::<Vec<_>>(), vec![3, 4]);
    app.shared_log = true;
    app.on_event(Event::Logged(contact(0, "E", "20m", 9), stored()), now(&cfg));
    assert_eq!(app.logged.log.iter().map(|q| q.id).collect::<Vec<_>>(), vec![8, 9, 10]);
}
