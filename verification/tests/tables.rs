use sdroxide_ui::adsb::{
    card_rows, columns, count, edit_adsb, press_sort, sort_rows, table_rows, AdsbConfig, AdsbEdit,
    AdsbSort, Aircraft, CardFacts, NARROW_W,
};
use sdroxide_ui::adsb_map::{
    draw_order, hovered, live, target_view, tip, AdsbMapState, Pos, ViewStep, MIN_LON_SPAN,
};
use sdroxide_ui::decodes::{
    decode_rows, even_slot, is_ft8_or_ft4, map_spots, press_row, press_sort as press_decode_sort,
    press_tone_chip, queued, row_frame, row_room, row_tail, sort_label, step_down, step_up,
    turn_header, typed_tone, who, Decode, DecodeSort, Facts, Fill, ListView, MapSpot, Outline,
    Preview, RowPress, ToneChip,
};
use sdroxide_ui::exchange::{clock_advice, ClockHealth};
use sdroxide_ui::command::{Command, DigiConfig};
use sdroxide_ui::double::mhz;
use sdroxide_ui::ink::Ink;
use sdroxide_ui::mode::{Mode, Traits};
use sdroxide_ui::setup::{Expedition, QsoFigures};
use sdroxide_ui::panes::{
    analog_screen, digi_pane, digital_screen, pane_index, panel_for, panel_panes, panel_tabs,
    phone_pane, Panel, TAB_WFALL,
};

fn ac(icao: u32, call: &str, alt: Option<i32>, last: i64) -> Aircraft {
    Aircraft {
        icao,
        hex: format!("{icao:06X}"),
        callsign: call.to_string(),
        category: None,
        emergency: None,
        on_ground: false,
        altitude_ft: alt,
        vertical_rate_fpm: None,
        speed_rank: None,
        range_rank: None,
        signal_rank: 0,
        last_at: last,
        stale: false,
    }
}

/// An aircraft that has not reported an altitude yet is not the lowest one in
/// the sky: it sorts last whichever way the column is pointing.
#[test]
fn a_missing_value_sorts_last_in_both_directions() {
    let list = vec![
        ac(1, "AAA", Some(35_000), 10),
        ac(2, "BBB", None, 20),
        ac(3, "CCC", Some(3_000), 30),
    ];
    for desc in [true, false] {
        let mut rows = vec![0usize, 1, 2];
        sort_rows(&list, &mut rows, AdsbSort::Altitude, desc);
        assert_eq!(list[*rows.last().unwrap()].icao, 2, "desc={desc}");
    }
}

/// Kilometres between two places, by the haversine formula.
fn km(a: (f64, f64), b: (f64, f64)) -> f64 {
    let (la, lb) = (a.0.to_radians(), b.0.to_radians());
    let dlat = (lb - la) / 2.0;
    let dlon = (b.1 - a.1).to_radians() / 2.0;
    let h = dlat.sin().powi(2) + la.cos() * lb.cos() * dlon.sin().powi(2);
    2.0 * 6371.0 * h.sqrt().asin()
}

/// Nearest first is what a range column is for, so "descending", the default
/// direction for every other column, has to mean nearest here.
#[test]
fn the_range_column_puts_the_nearest_aircraft_at_the_top() {
    let home = (48.2, 16.37);
    let mut near = ac(1, "NEAR", None, 0);
    near.range_rank = Some((km(home, (48.3, 16.4)) * 1000.0) as i64);
    let mut far = ac(2, "FAR", None, 0);
    far.range_rank = Some((km(home, (52.0, 4.0)) * 1000.0) as i64);
    let list = vec![far, near];
    let mut rows = vec![0usize, 1];
    sort_rows(&list, &mut rows, AdsbSort::Range, true);
    assert_eq!(list[rows[0]].icao, 1);
}

/// The header counters run all session; they must not grow.
#[test]
fn a_counter_never_outgrows_its_slot() {
    for n in [0u64, 9_999, 10_000, 999_999, 1_000_000, 999_999_999, 42_000_000_000] {
        assert!(count(n).len() <= 6, "{n} formatted as {}", count(n));
    }
    assert_eq!(count(1_234), "1234");
    assert_eq!(count(12_345), "12k");
    assert_eq!(count(999_999_999), "1G");
    assert_eq!(count(4_500_000), "4.5M");
}

/// The counter reads as double-precision formatting does, ties and all.
#[test]
fn a_counter_agrees_with_double_precision() {
    fn plain(n: u64) -> String {
        let m = n as f64;
        if n < 10_000 {
            n.to_string()
        } else if n < 995_000 {
            format!("{:.0}k", m / 1e3)
        } else if n < 999_500_000 {
            format!("{:.1}M", m / 1e6)
        } else {
            format!("{:.0}G", m / 1e9)
        }
    }
    for k in 10u64..995 {
        for d in [0, 1, 499, 500, 501, 999] {
            let n = k * 1000 + d;
            if n < 995_000 {
                assert_eq!(count(n), plain(n), "{n}");
            }
        }
    }
    for k in (0u64..9_995).step_by(7) {
        for d in [0, 1, 49_999, 50_000, 50_001, 99_999] {
            let n = k * 100_000 + d;
            assert_eq!(count(n), plain(n), "{n}");
        }
    }
    for n in [
        994_999u64,
        995_000,
        999_499_999,
        999_500_000,
        1_500_000_000,
        2_500_000_000,
        42_000_000_000,
        5_000_000_000_000,
        99_999_499_999_999,
    ] {
        assert_eq!(count(n), plain(n), "{n}");
    }
}

/// A counter too large for thousand millions takes a larger unit.
#[test]
fn a_huge_counter_takes_a_larger_unit() {
    assert_eq!(count(99_999_499_999_999), "99999G");
    assert_eq!(count(99_999_500_000_000), "100T");
    assert_eq!(count(1_000_000_000_000_000), "1000T");
    assert_eq!(count(99_999_499_999_999_999), "99999T");
    assert_eq!(count(99_999_500_000_000_000), "100P");
    assert_eq!(count(u64::MAX), "18447P");
}

/// The columns must not overlap at any width the panel can be dragged to, and
/// the trailing ones drop out rather than printing on top of each other.
#[test]
fn the_columns_never_overprint_however_narrow_the_panel_gets() {
    let mut w = 200.0f32;
    while w < 900.0 {
        for have_home in [true, false] {
            let c = columns((w * 1000.0) as i64, have_home);
            let mut xs: Vec<i64> = [c.trk, c.vs, c.sqk, c.range, c.age]
                .into_iter()
                .flatten()
                .collect();
            xs.sort();
            for pair in xs.windows(2) {
                assert!(
                    pair[1] - pair[0] >= 28_000,
                    "columns {pair:?} collide at width {w} (home={have_home})"
                );
            }
            if ((w * 1000.0) as i64) < NARROW_W {
                assert!(c.sqk.is_none() && c.vs.is_none(), "narrow panels drop the tail");
            }
        }
        w += 7.0;
    }
}

/// The columns that always stand in their place are not overprinted either.
#[test]
fn the_trailing_columns_keep_clear_of_the_speed() {
    for w in (0..900_000).step_by(500) {
        for have_home in [true, false] {
            let c = columns(w, have_home);
            let xs: Vec<i64> =
                [Some(c.call), Some(c.icao), Some(c.alt), Some(c.spd), c.trk, c.vs, c.sqk, c.range]
                    .into_iter()
                    .chain([c.age])
                    .flatten()
                    .collect();
            for pair in xs.windows(2) {
                assert!(pair[1] - pair[0] >= 28_000, "{pair:?} at {w} (home={have_home})");
            }
        }
    }
    let c = columns(386_000, true);
    assert_eq!((c.trk, c.vs, c.sqk), (Some(224_000), Some(268_000), Some(308_000)));
    assert_eq!((c.range, c.age), (Some(348_000), Some(382_000)));
    let c = columns(385_999, true);
    assert!(c.range.is_none() && c.sqk.is_some());
    let c = columns(330_000, true);
    assert_eq!((c.trk, c.sqk, c.age), (Some(292_000), None, Some(326_000)));
    let c = columns(240_000, false);
    assert_eq!((c.trk, c.age), (None, Some(236_000)));
    assert!(columns(227_999, false).age.is_none());
}

#[test]
fn the_table_filters_and_sorts() {
    let list = vec![
        ac(0xABC, "dlh123", Some(100), 3),
        ac(0x123, "", Some(300), 2),
        ac(0x456, "RYR9", Some(200), 1),
    ];
    assert_eq!(table_rows(&list, " ", AdsbSort::Heard, true), vec![0, 1, 2]);
    assert_eq!(table_rows(&list, "dlh", AdsbSort::Heard, true), vec![0]);
    assert_eq!(table_rows(&list, "123", AdsbSort::Altitude, true), vec![1, 0]);
    assert_eq!(table_rows(&list, "", AdsbSort::Callsign, false), vec![1, 2, 0]);
    assert_eq!(table_rows(&list, "", AdsbSort::Callsign, true), vec![0, 2, 1]);
    assert_eq!(press_sort(AdsbSort::Heard, true, AdsbSort::Heard), (AdsbSort::Heard, false));
    assert_eq!(press_sort(AdsbSort::Heard, false, AdsbSort::Signal), (AdsbSort::Signal, true));
    assert_eq!(AdsbSort::default().label(), "HEARD");
    assert!(!AdsbSort::Range.offered(false));
}

#[test]
fn adsb_settings_are_held_to_their_ranges() {
    let mut c = AdsbConfig {
        drop_map_s: 60,
        drop_list_s: 300,
        history_points: 10,
        vector_tenths: 10,
        max_aircraft: 100,
    };
    assert!(edit_adsb(&mut c, 50, AdsbEdit::DropMap(60)).is_none());
    assert!(edit_adsb(&mut c, 50, AdsbEdit::DropMap(1)).is_some());
    assert_eq!(c.drop_map_s, 2);
    assert!(edit_adsb(&mut c, 50, AdsbEdit::DropList(1)).is_some());
    assert_eq!(c.drop_list_s, 2);
    assert!(edit_adsb(&mut c, 50, AdsbEdit::History(500)).is_some());
    assert_eq!(c.history_points, 50);
    assert!(edit_adsb(&mut c, 50, AdsbEdit::DropList(300)).is_some());
    assert!(edit_adsb(&mut c, 50, AdsbEdit::DropMap(600)).is_some());
    assert_eq!((c.drop_map_s, c.drop_list_s), (600, 600));
}

#[test]
fn a_card_lists_what_was_said() {
    let rows = card_rows(&CardFacts {
        altitude_ft: Some(35_000),
        gnss_altitude_ft: None,
        ground_speed: None,
        track: Some("270°".to_string()),
        turning: None,
        vertical_rate_fpm: Some(640),
        squawk: None,
        range: None,
        position: None,
        signal: "-20 dBFS".to_string(),
        frames: 12,
        source: "air".to_string(),
        first_heard: "3s".to_string(),
    });
    assert_eq!(rows[0], ("altitude", "35000 ft barometric".to_string()));
    assert_eq!(rows[1], ("track", "270°".to_string()));
    assert_eq!(rows[2], ("vertical rate", "+640 ft/min".to_string()));
    assert_eq!(rows[4], ("frames", "12 (air)".to_string()));
    assert_eq!(rows.len(), 6);
}

#[test]
fn a_framed_view_shows_every_target() {
    let at = |lat: i64, lon: i64| Pos { lat, lon };
    let pts = vec![at(48_000_000, 16_000_000), at(52_000_000, 4_000_000)];
    let f = target_view(Some(at(48_200_000, 16_370_000)), &pts, 500_000);
    assert_eq!((f.clat, f.clon), (48_200_000, 16_370_000));
    for p in &pts {
        assert!(2 * (p.lon - f.clon).abs() <= f.lon_span);
        assert!((p.lat - f.clat).abs() <= f.lon_span / 4);
    }
    // Near the pole the view is moved, not cut.
    let f = target_view(Some(at(89_000_000, 0)), &vec![at(80_000_000, 0)], 500_000);
    assert!(f.clat < 89_000_000 && (80_000_000 - f.clat).abs() <= f.lon_span / 4);
}

#[test]
fn the_map_selects_what_is_under_the_pointer() {
    assert_eq!(hovered(&vec![Some(20), Some(14), None, Some(14)], 14), Some(3));
    assert_eq!(hovered(&vec![Some(15), None], 14), None);
    let mut s = AdsbMapState::default();
    assert_eq!(s.click(Some(7), false), None);
    assert_eq!(s.click(Some(7), true), Some(7));
    assert_eq!(s.selected, Some(7));
    assert_eq!(s.click(None, true), None);
    assert_eq!(s.selected, None);
    assert_eq!(s.view_step(1, 2, 3), ViewStep::Placed);
    assert_eq!(s.view_step(9, 9, 9), ViewStep::Eases);
    assert_eq!(s.view.clat, 1);
    s.view.manual = true;
    assert_eq!(s.view_step(9, 9, 9), ViewStep::Held);
    assert_eq!(draw_order(4, Some(1)), vec![0, 2, 3, 1]);
    let mut a = ac(0x3C6444, "DLH1", Some(3_000), 0);
    a.vertical_rate_fpm = Some(-640);
    assert_eq!(
        tip(&a, "250", Some("12 km   90°")),
        "DLH1  3C6444\n3000 ft   250 kt\n-640 ft/min\n12 km   90°"
    );
    a.stale = true;
    assert_eq!(live(&vec![a, ac(2, "", None, 0)]), vec![1]);
}

fn pos(p: (f64, f64)) -> Pos {
    Pos { lat: (p.0 * 1e6).round() as i64, lon: (p.1 * 1e6).round() as i64 }
}

/// One aircraft overhead must not zoom the map to street level, and an empty
/// sky shows the world rather than the Gulf of Guinea.
#[test]
fn the_auto_fit_has_a_floor_and_an_empty_default() {
    let near = vec![pos((48.2005, 16.3705))];
    let span = target_view(Some(pos((48.2, 16.37))), &near, 500_000).lon_span;
    assert!(span >= MIN_LON_SPAN);
    let span = target_view(None, &Vec::new(), 500_000).lon_span;
    assert_eq!(span, 360_000_000);
}

#[test]
fn a_view_frames_across_the_date_line() {
    let pts = vec![pos((10.0, 179.0)), pos((-10.0, -177.0))];
    let f = target_view(None, &pts, 1_000_000);
    assert_eq!((f.clat, f.clon), (0, -179_000_000));
    // Ten degrees north and south, and a quarter to spare.
    assert_eq!(f.lon_span, 25_000_000);
    let f = target_view(Some(pos((85.0, 0.0))), &pts, 1_000_000);
    assert_eq!(f.lon_span, 360_000_000);
    assert_eq!(f.clat, 0);
}

fn decode(slot: i64, from: Option<&str>, snr: i32) -> Decode {
    Decode {
        slot_utc: slot,
        snr_db: snr,
        audio_millihz: 1_500_000,
        from: from.map(|s| s.to_string()),
        to: None,
        grid: None,
        cq_to: None,
        is_cq: false,
        free_text: false,
        message: String::new(),
    }
}

fn facts(cq: bool, is_new: bool, dist: Option<i64>, country: Option<&str>) -> Facts {
    Facts {
        cq,
        is_new,
        dupe: false,
        highlight: None,
        dist_rank: dist,
        country: country.map(|s| s.to_string()),
    }
}

fn view(sort: DecodeSort, desc: bool) -> ListView {
    ListView { sort, desc, single: false, cq_only: false, new_only: false }
}

#[test]
fn decodes_are_listed_by_turn() {
    let d = vec![
        decode(30, Some("A"), -5),
        decode(30, Some("B"), 3),
        decode(15, Some("C"), 9),
        decode(15, Some("D"), 9),
    ];
    let f = vec![
        facts(true, false, None, Some("Italy")),
        facts(false, false, Some(10), None),
        facts(false, true, Some(5), Some("Austria")),
        facts(false, false, Some(7), Some("Austria")),
    ];
    let r = decode_rows(&d, &f, "ME", view(DecodeSort::Signal, true));
    assert_eq!(r.rows, vec![1, 0, 2, 3]);
    assert_eq!(r.turns.len(), 2);
    let mut all = view(DecodeSort::Country, false);
    all.single = true;
    let r = decode_rows(&d, &f, "ME", all);
    assert_eq!(r.rows, vec![2, 3, 0, 1]);
    assert_eq!(r.turns.len(), 1);
    all.desc = true;
    assert_eq!(decode_rows(&d, &f, "ME", all).rows, vec![0, 2, 3, 1]);
    let r = decode_rows(&d, &f, "ME", view(DecodeSort::Distance, false));
    assert_eq!(r.rows, vec![1, 0, 2, 3]);
    let r = decode_rows(&d, &f, "ME", view(DecodeSort::Arrival, false));
    assert_eq!(r.rows, vec![0, 1, 2, 3]);
}

#[test]
fn a_call_to_us_passes_every_filter() {
    let mut d = vec![decode(0, Some("A"), 0), decode(0, Some("B"), 0)];
    d[1].to = Some("ME".to_string());
    let f = vec![facts(false, false, None, None), facts(false, false, None, None)];
    let mut v = view(DecodeSort::Arrival, false);
    v.cq_only = true;
    v.new_only = true;
    assert_eq!(decode_rows(&d, &f, "ME", v).rows, vec![1]);
    assert!(decode_rows(&d, &f, "", v).rows.is_empty());
}

#[test]
fn sort_chips_turn_round() {
    let v = view(DecodeSort::Signal, true);
    assert!(!press_decode_sort(v, DecodeSort::Signal).desc);
    assert!(!press_decode_sort(v, DecodeSort::Country).desc);
    assert!(press_decode_sort(v, DecodeSort::Distance).desc);
    let v = view(DecodeSort::Arrival, true);
    assert!(press_decode_sort(v, DecodeSort::Arrival).desc);
}

#[test]
fn turns_are_even_or_odd() {
    assert!(even_slot(0, 15_000));
    assert!(!even_slot(15, 15_000));
    assert!(even_slot(-30, 15_000));
    assert!(!even_slot(-15, 15_000));
    // A slot of seven and a half seconds rounds to a whole second of the clock.
    assert!(!even_slot(8, 7_500));
    let (p, ink, t) = turn_header(3_615, 15_000);
    assert_eq!((p, t.as_str()), ("ODD", "01:00:15 UTC"));
    assert_eq!(ink, Ink::Yellow);
}

#[test]
fn a_press_on_a_row_asks_for_the_right_thing() {
    let mut d = decode(0, Some("OE1ABC"), -3);
    let e = press_row(RowPress::Reply, &d, "ME", false, true, false, false);
    assert!(e.to_qso_pane);
    assert!(matches!(e.preview, Preview::Clear));
    match e.command {
        Some(Command::DigiStartQso(c)) => {
            assert_eq!(c.from, "OE1ABC");
            assert!(c.wait_for_cq);
        }
        _ => panic!("no call"),
    }
    d.is_cq = true;
    let e = press_row(RowPress::Queue, &d, "ME", false, true, false, false);
    assert!(matches!(e.command, Some(Command::DigiQueueAdd(c)) if !c.wait_for_cq));
    let e = press_row(RowPress::Queue, &d, "ME", true, true, false, false);
    assert!(matches!(e.command, Some(Command::DigiQueueRemove(c)) if c == "OE1ABC"));
    let e = press_row(RowPress::Body, &d, "ME", false, false, false, true);
    assert!(matches!(e.command, Some(Command::SetDigiAudioFreq(1_500_000))));
    assert!(matches!(e.preview, Preview::Show(s) if s == "OE1ABC"));
    let e = press_row(RowPress::Body, &d, "ME", false, false, true, false);
    assert!(e.command.is_none());
    d.from = None;
    let e = press_row(RowPress::Reply, &d, "ME", false, true, false, false);
    assert!(e.command.is_none());
    assert_eq!(who(&d), "?");
    d.free_text = true;
    assert_eq!(who(&d), "TEXT");
    assert!(!queued(&vec!["x".to_string()], &d));
    assert!(queued(&vec!["oe1abc".to_string()], &decode(0, Some("OE1ABC"), 0)));
}

#[test]
fn a_sort_chip_shows_its_direction() {
    let v = view(DecodeSort::Signal, true);
    assert_eq!(sort_label(v, DecodeSort::Signal, "SNR"), "SNR ↓");
    assert_eq!(sort_label(v, DecodeSort::Distance, "DIST"), "DIST");
    assert_eq!(sort_label(view(DecodeSort::Signal, false), DecodeSort::Signal, "SNR"), "SNR ↑");
    assert_eq!(sort_label(view(DecodeSort::Arrival, true), DecodeSort::Arrival, "NONE"), "NONE");
}

#[test]
fn a_row_is_set_off_by_what_it_is() {
    let mut d = decode(0, Some("OE1ABC"), 0);
    let mut f = facts(true, false, None, None);
    let r = row_frame(&d, &f, "ME", None, true);
    assert_eq!((r.fill, r.outline), (Fill::Cq, Some(Outline::Hovered)));
    assert_eq!((r.message, r.country), (Ink::Text, Ink::Gray(155)));
    d.to = Some("ME".to_string());
    f.dupe = true;
    let r = row_frame(&d, &f, "ME", Some("OE2XYZ"), true);
    assert_eq!((r.fill, r.outline), (Fill::ToMe, Some(Outline::ToMe)));
    assert_eq!((r.message, r.country), (Ink::Gray(95), Ink::Gray(90)));
    let r = row_frame(&d, &f, "ME", Some("OE1ABC"), false);
    assert_eq!(r.outline, Some(Outline::Preview));
    f.cq = false;
    let r = row_frame(&d, &f, "", None, false);
    assert_eq!((r.fill, r.outline), (Fill::Plain, None));
    assert!(row_room(599_999).narrow && !row_room(600_000).narrow);
    assert!(row_room(820_000).country && !row_room(819_999).country);
}

#[test]
fn the_map_shows_spots_of_the_panels_modes() {
    let spot = |mode: &str, visible: bool, located: bool| MapSpot {
        mode: mode.to_string(),
        visible,
        located,
    };
    let v = vec![
        spot("CW", true, true),
        spot(" ft8 ", true, true),
        spot("FT4", false, true),
        spot("FT8", true, false),
        spot("ft8-4", true, true),
    ];
    assert_eq!(map_spots(&v), vec![1, 4]);
}

#[test]
fn a_held_tone_keeps_the_automatic_choice() {
    let mut n = QsoFigures {
        tx_even: true,
        auto_seq: true,
        auto_tx_freq: true,
        hold_tx_freq: false,
        tx_watchdog_min: 6,
        max_tx_repeats: 0,
        expedition: Expedition::Normal,
        fox_slots: 1,
    };
    let first = n;
    assert!(matches!(
        press_tone_chip(&mut n, ToneChip::Hold),
        Some(Command::SetDigiConfig(DigiConfig::Tone(true, true)))
    ));
    assert!(press_tone_chip(&mut n, ToneChip::Auto).is_none());
    assert_eq!((n.auto_tx_freq, n.hold_tx_freq), (true, true));
    assert!(press_tone_chip(&mut n, ToneChip::Hold).is_some());
    assert!(press_tone_chip(&mut n, ToneChip::Auto).is_some());
    assert_eq!(n, QsoFigures { auto_tx_freq: false, ..first });
}

#[test]
fn the_clock_is_judged_in_words() {
    assert_eq!(clock_advice(ClockHealth::Good, "0.1", true), "Well inside tolerance.");
    assert_eq!(
        clock_advice(ClockHealth::Bad, "1.2", false),
        "You transmit 1.2 s after everyone else — the usual reason calls go unanswered. \
         Sync your computer clock."
    );
}

#[test]
fn the_tone_steps_to_round_figures() {
    assert_eq!(step_down(373_000), 370_000);
    assert_eq!(step_up(373_000), 380_000);
    assert_eq!(step_down(370_000), 360_000);
    assert_eq!(step_up(370_000), 380_000);
    assert_eq!(step_down(200_000), 200_000);
    assert_eq!(step_up(3_500_000), 3_500_000);
    assert_eq!(typed_tone(Some(820_000), 1_500_000), Some(820_000));
    assert_eq!(typed_tone(Some(8_000), 1_500_000), Some(200_000));
    assert_eq!(typed_tone(Some(1_500_400), 1_500_000), None);
    assert_eq!(typed_tone(None, 1_500_000), None);
}

#[test]
fn spots_of_the_panels_modes_are_recognised() {
    for m in ["FT8", " ft4 ", "Ft8-4", "ft2"] {
        assert!(is_ft8_or_ft4(m), "{m}");
    }
    for m in ["", "FT", "FT88", "SSB"] {
        assert!(!is_ft8_or_ft4(m), "{m}");
    }
    assert_eq!(row_tail("Italy", "", "12 km"), "Italy · 12 km");
    assert_eq!(row_tail("", "", ""), "");
}

/// The waterfall is the tab one past the mode's own panes.
#[test]
fn every_mode_has_at_least_one_pane_and_a_waterfall_after_it() {
    for mode in Mode::all() {
        let panes = panel_panes(mode);
        assert!(!panes.is_empty(), "{mode:?} has no panes");
        let tabs: Vec<_> = panel_tabs(mode);
        assert_eq!(tabs.len(), panes.len() + 1, "{mode:?} tab count");
        assert_eq!(tabs.last().copied(), Some(TAB_WFALL), "{mode:?} waterfall is not last");
        assert!(!panes.contains(&TAB_WFALL), "{mode:?} names a pane after the waterfall tab");
    }
}

/// Clamping a stored index is what stops a switch from a mode with two panes
/// to one with a single pane leaving the panel pointing past the end.
#[test]
fn a_stored_pane_index_is_valid_in_every_other_mode() {
    for from in Mode::all() {
        // The furthest tab the mode it was stored in could select.
        let stored = panel_panes(from).len();
        for to in Mode::all() {
            let panes = panel_panes(to).len();
            let clamped = stored.min(panes);
            assert!(clamped <= panes, "{from:?} → {to:?}: {clamped} past {panes}");
            assert_eq!(digi_pane(stored, to), clamped);
        }
    }
}

#[test]
fn the_slotted_modes_can_find_their_qso_pane() {
    for mode in [Mode::Ft8, Mode::Ft4, Mode::Ft2] {
        let i = pane_index(mode, "QSO");
        assert_eq!(panel_panes(mode)[i], "QSO", "{mode:?}");
        assert_ne!(i, pane_index(mode, "DECODES"), "{mode:?} panes collapsed");
    }
    // A mode with no such pane falls back to its first, rather than to an
    // index that is not there.
    assert_eq!(pane_index(Mode::Psk, "QSO"), 0);
}

#[test]
fn a_phone_shows_one_thing_at_a_time() {
    assert_eq!(phone_pane(false, 0, Mode::Ft8), None);
    assert_eq!(phone_pane(true, 1, Mode::Ft8), Some(1));
    assert_eq!(phone_pane(true, 2, Mode::Ft8), None);
    let s = digital_screen(true, true, 2, Mode::Ft8);
    assert!(s.waterfall && !s.panel);
    let s = digital_screen(false, false, 2, Mode::Ft8);
    assert!(!s.waterfall && s.panel);
    let s = analog_screen(true, true, 0, Mode::Cw);
    assert!(!s.waterfall && s.panel);
    let s = analog_screen(false, true, 0, Mode::Usb);
    assert!(s.waterfall && !s.panel);
    let plain = Traits { slotted: false, text_modem: false, image: false, bottom_panel: true };
    assert_eq!(panel_for(Mode::SstvFm, Traits { image: true, ..plain }), Panel::Image);
    assert_eq!(panel_for(Mode::Thor, Traits { text_modem: true, ..plain }), Panel::Text);
    assert_eq!(panel_for(Mode::Ft8, Traits { slotted: true, ..plain }), Panel::Digi);
    assert_eq!(panel_for(Mode::Hell, plain), Panel::Hell);
}

#[test]
fn frequencies_are_written_in_megahertz() {
    assert_eq!(mhz(14_074_000, 4), "14.0740");
    assert_eq!(mhz(516_300, 3), "0.516");
    for hz in [1u64, 136_000, 7_047_500, 10_136_050, 28_074_025, 433_920_050, 0x1f_ffff_ffff_ffff] {
        assert_eq!(mhz(hz, 4), format!("{:.4}", hz as f64 / 1e6), "{hz}");
    }
}
