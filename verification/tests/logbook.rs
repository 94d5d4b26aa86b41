use sdroxide_ui::form::{save_entry, LogEditForm, Readings, Saved};
use sdroxide_ui::logrow::{
    apply_row_action, dupe_warning, form_lookup, log_day_header, my_grid, qsl_mark, qsl_tip,
    row_action, row_height, rst_text, AfterRow, LogCaches, RowAction,
};
use sdroxide_ui::logview::{LogItem, LogView};
use sdroxide_ui::net::{Login, LookupProvider, NetworkConfig, UploadTarget};
use sdroxide_ui::mode::{Band, Mode};
use sdroxide_ui::qso::{next_log_id, QsoRecord};
use sdroxide_ui::session::SdroxideApp;

/// A contact at a given time, which is all that the view orders or groups by.
fn qso(id: u64, start_utc: i64) -> QsoRecord {
    QsoRecord { id, start_utc, call: format!("G{id}AAA"), ..Default::default() }
}

/// 2024-01-01 00:00:00 UTC, so the arithmetic below reads as clock time.
const DAY0: i64 = 1_704_067_200;

fn login(user: &str, password: &str) -> Login {
    Login { user: user.to_string(), password: password.to_string() }
}

fn config() -> NetworkConfig {
    NetworkConfig {
        lookup_provider: LookupProvider::Qrz,
        auto_lookup: true,
        auto_upload: false,
        auto_upload_eqsl: false,
        auto_upload_qrz: false,
        auto_upload_hamqth: false,
        auto_upload_clublog: false,
        eqsl: login("me", ""),
        hamqth: login("me", ""),
        clublog: login("", ""),
        qrz_logbook_key: String::new(),
        clublog_api_key: String::new(),
    }
}

#[test]
fn log_view_orders_newest_first_and_groups_by_day() {
    // Deliberately out of order on input: the log is not sorted on disk.
    let log = vec![
        qso(1, DAY0 + 3_600),          // day 0, 01:00
        qso(2, DAY0 + 86_400 + 7_200), // day 1, 02:00
        qso(3, DAY0 + 7_200),          // day 0, 02:00
        qso(4, DAY0 + 86_400 + 3_600), // day 1, 01:00
    ];
    let mut v = LogView::default();
    v.refresh(&log);

    assert_eq!(v.groups.len(), 2, "two distinct days");
    // Newest day first, and newest QSO first within it.
    assert_eq!(v.groups[0].day, "2024-01-02");
    assert_eq!(log[v.order[v.groups[0].start]].id, 2);
    assert_eq!(v.groups[0].newest, DAY0 + 86_400 + 7_200);
    assert_eq!(v.groups[0].oldest, DAY0 + 86_400 + 3_600);
    assert_eq!(v.groups[1].day, "2024-01-01");
    assert_eq!(log[v.order[v.groups[1].start]].id, 3);
    // The ranges tile the whole ordering with no gap and no overlap.
    assert_eq!(v.groups[0].start, 0);
    assert_eq!(v.groups[0].end, v.groups[1].start);
    assert_eq!(v.groups.last().unwrap().end, log.len());
}

#[test]
fn log_view_does_not_rebuild_when_nothing_changed() {
    let log = vec![qso(1, DAY0), qso(2, DAY0 + 86_400)];
    let mut v = LogView::default();
    v.refresh(&log);
    v.groups[0].day = "sentinel".into();
    v.refresh(&log);
    assert_eq!(v.groups[0].day, "sentinel", "rebuilt when it did not need to");
}

#[test]
fn log_view_rebuilds_when_the_log_changes() {
    let mut log = vec![qso(1, DAY0), qso(2, DAY0 + 86_400)];
    let mut v = LogView::default();

    // An addition.
    v.refresh(&log);
    v.groups[0].day = "sentinel".into();
    log.push(qso(3, DAY0 + 2 * 86_400));
    v.refresh(&log);
    assert_eq!(v.groups.len(), 3);
    assert_eq!(v.groups[0].day, "2024-01-03");

    // A deletion. Length changes, so this would be caught by length alone.
    log.remove(0);
    v.refresh(&log);
    assert_eq!(v.order.len(), 2);

    // An edit that moves a QSO to a different day, with the length and the
    // set of ids unchanged.
    v.groups[0].day = "sentinel".into();
    log[0].start_utc += 30 * 86_400;
    v.refresh(&log);
    assert_ne!(v.groups[0].day, "sentinel", "an edited time did not invalidate");
    assert_eq!(v.groups[0].day, "2024-02-01");
}

#[test]
fn log_view_flattens_groups_and_rows_into_one_item_list() {
    let log = vec![qso(1, DAY0), qso(2, DAY0 + 3_600), qso(3, DAY0 + 86_400)];
    let mut v = LogView::default();
    v.refresh(&log);

    assert_eq!(v.items.len(), log.len() + v.groups.len(), "one item per QSO plus one per day");
    let shape: Vec<&str> = v
        .items
        .iter()
        .map(|i| match i {
            LogItem::Header(_) => "H",
            LogItem::Qso(_) => "Q",
        })
        .collect();
    // Newest day (one QSO) first, then the older day's two.
    assert_eq!(shape, ["H", "Q", "H", "Q", "Q"]);
}

#[test]
fn log_view_handles_an_empty_log() {
    let mut v = LogView::default();
    v.refresh(&[]);
    assert!(v.order.is_empty());
    assert!(v.groups.is_empty());
}

#[test]
fn contacts_at_one_second_stay_in_log_order() {
    let log = vec![qso(5, DAY0), qso(6, DAY0), qso(7, DAY0 + 1)];
    let mut v = LogView::default();
    v.refresh(&log);
    assert_eq!(v.order, vec![2, 0, 1]);
    assert_eq!(log_day_header(&v.groups[0]), "00:00–00:00 UTC · 3 QSO");
}

#[test]
fn ids_are_fresh() {
    assert_eq!(next_log_id(&Vec::new()), 1);
    assert_eq!(next_log_id(&vec![qso(7, 0), qso(3, 0)]), 8);
}

#[test]
fn a_form_is_read_into_a_record() {
    let mut f = LogEditForm::new_entry(DAY0 + 3_660, 14_074_000, "ft8");
    assert_eq!(f.date, "2024-01-01");
    assert_eq!(f.time, "01:01");
    assert_eq!(f.freq_mhz, "14.0740");
    let read = Readings {
        freq_hz: 14_074_000,
        band: "20m".to_string(),
        start_utc: DAY0 + 3_660,
        tx_pwr: None,
    };
    assert!(f.to_record("ME", "JN88", &read).is_none());
    f.call = " straße ".to_string();
    f.grid = " jn88 ".to_string();
    f.rst_sent = "-12".to_string();
    f.rst_rcvd = "+5".to_string();
    f.srx = "x".to_string();
    f.stx = " 017 ".to_string();
    let r = f.to_record("ME", "JN88", &read).unwrap();
    assert_eq!(r.call, "STRASSE");
    assert_eq!(r.grid.as_deref(), Some("JN88"));
    assert_eq!(r.mode, "FT8");
    assert_eq!(r.rst_sent, Some(-12));
    assert_eq!(r.rst_rcvd, Some(5));
    assert_eq!(r.srx, None);
    assert_eq!(r.stx, Some(17));
    assert_eq!(r.band, "20m");
    assert_eq!(r.end_utc, DAY0 + 3_660);
    f.mode = "  ".to_string();
    assert_eq!(f.to_record("ME", "JN88", &read).unwrap().mode, "SSB");
}

#[test]
fn opening_and_saving_keeps_the_hidden_fields() {
    let mut log = vec![qso(3, DAY0), qso(4, DAY0)];
    log[1].lotw_rcvd = true;
    log[1].dxcc = Some(223);
    log[1].end_utc = DAY0 + 500;
    let f = LogEditForm::from_record(&log[1]);
    let read =
        Readings { freq_hz: 0, band: String::new(), start_utc: DAY0, tx_pwr: Some(5_000) };
    assert_eq!(save_entry(&f, "ME", "JN88", &read, &mut log), Saved::Replaced);
    assert_eq!(log.len(), 2);
    assert!(log[1].lotw_rcvd);
    assert_eq!(log[1].dxcc, Some(223));
    assert_eq!(log[1].end_utc, DAY0 + 500);
    assert_eq!(log[1].id, 4);
    // Deleted meanwhile.
    log.remove(1);
    assert_eq!(save_entry(&f, "ME", "JN88", &read, &mut log), Saved::Gone);
    assert_eq!(log.len(), 1);
}

#[test]
fn a_neat_contact_comes_back_from_the_form() {
    let q = QsoRecord {
        id: 4,
        call: "OE3JJS".to_string(),
        grid: Some("JN88".to_string()),
        freq_hz: 14_074_000,
        band: "20m".to_string(),
        mode: "FT8".to_string(),
        rst_sent: Some(-12),
        rst_rcvd: Some(3),
        start_utc: DAY0,
        end_utc: DAY0 + 60,
        my_call: "ME".to_string(),
        my_grid: "JN78".to_string(),
        name: "Anna".to_string(),
        state: "NY".to_string(),
        tx_pwr: Some(5_000),
        contest_id: "TEST".to_string(),
        srx: Some(17),
        comment: "fine signal".to_string(),
        eqsl_sent: true,
        ..Default::default()
    };
    let f = LogEditForm::from_record(&q);
    assert_eq!(f.freq_mhz, "14.0740");
    assert_eq!(f.tx_pwr, "5");
    // What the form can read is not asked of anyone.
    let read =
        Readings { freq_hz: 1, band: q.band.clone(), start_utc: q.start_utc, tx_pwr: Some(1) };
    let r = f.to_record("ME", "JN78", &read).unwrap();
    assert_eq!(format!("{r:?}"), format!("{q:?}"));
}

#[test]
fn the_form_reads_back_what_it_shows() {
    let mut q = qso(3, DAY0);
    let read = Readings { freq_hz: 7, band: "x".to_string(), start_utc: DAY0, tx_pwr: Some(9) };
    for (hz, text, back) in [
        (14_074_049u64, "14.0740", 14_074_000u64),
        (14_074_051, "14.0741", 14_074_100),
        (49, "0.0000", 0),
        (1_296_200_000, "1296.2000", 1_296_200_000),
        (0x1f_ffff_ffff_ffff, "9007199254.7410", 9_007_199_254_741_000),
    ] {
        q.freq_hz = hz;
        let f = LogEditForm::from_record(&q);
        assert_eq!(f.freq_mhz, text);
        let r = f.to_record("ME", "JN88", &read).unwrap();
        assert_eq!(r.freq_hz, back);
        assert_eq!(r.band, if back > 0 { "x" } else { "" });
        assert!(back.abs_diff(hz) <= 50);
    }
    for (mw, text) in [
        (Some(5u64), "0.005"),
        (Some(1_500), "1.5"),
        (Some(10_050), "10.05"),
        (Some(100_000), "100"),
        (Some(u64::MAX), "18446744073709551.615"),
        (None, ""),
    ] {
        q.tx_pwr = mw;
        let f = LogEditForm::from_record(&q);
        assert_eq!(f.tx_pwr, text);
        assert_eq!(f.to_record("ME", "JN88", &read).unwrap().tx_pwr, mw);
    }
}

#[test]
fn a_typed_frequency_is_read() {
    let mut f = LogEditForm::new_entry(DAY0, 0, "SSB");
    for (text, hz) in [
        (" 7.074 ", 7_074_000u64),
        ("7", 7_000_000),
        (".5", 500_000),
        ("5.", 5_000_000),
        ("14.0740004", 14_074_000),
        ("14.0740006", 14_074_001),
        ("", 0),
        ("   ", 0),
        // What is not plain digits is read outside.
        ("1e1", 99),
        (".", 99),
        ("1.2.3", 99),
        ("-7", 99),
        ("18446744073709.551616", 99),
        ("00000000000000000000000000007", 99),
    ] {
        f.freq_mhz = text.to_string();
        assert_eq!(f.frequency(99), hz);
    }
    f.freq_mhz = "18446744073709.551615".to_string();
    assert_eq!(f.frequency(99), u64::MAX);
}

#[test]
fn saving_the_open_form_counts_new_contacts() {
    let mut app = SdroxideApp::new(false, Mode::Ft8, Band::In(5), vec![qso(3, DAY0)]);
    let read = Readings { freq_hz: 0, band: String::new(), start_utc: DAY0, tx_pwr: None };
    assert_eq!(app.save_edit("ME", "JN88", &read), None);
    app.edit = Some(LogEditForm::new_entry(DAY0, 0, "SSB"));
    assert_eq!(app.save_edit("ME", "JN88", &read), Some(Saved::Refused));
    app.edit.as_mut().unwrap().call = "K1A".to_string();
    assert_eq!(app.save_edit("ME", "JN88", &read), Some(Saved::Added));
    assert!(app.edit.is_none());
    assert_eq!((app.logged.log.len(), app.logged.session_qsos), (2, 1));
    app.caches.index = Some(2);
    app.edit = Some(LogEditForm::from_record(&app.logged.log[0]));
    assert_eq!(app.save_edit("ME", "JN88", &read), Some(Saved::Replaced));
    assert_eq!((app.logged.session_qsos, app.caches.index), (1, None));
}

#[test]
fn a_log_without_a_free_number_can_still_be_edited() {
    let mut log = vec![qso(u64::MAX, DAY0)];
    let f = LogEditForm::from_record(&log[0]);
    let read = Readings { freq_hz: 0, band: String::new(), start_utc: DAY0, tx_pwr: None };
    assert_eq!(save_entry(&f, "ME", "JN88", &read, &mut log), Saved::Replaced);
    assert_eq!(log[0].id, u64::MAX);
}

#[test]
fn a_list_item_holds_its_row() {
    assert_eq!(row_height(18_000), 34_000);
    assert_eq!(row_height(34_000), 46_000);
}

#[test]
fn saving_a_new_entry_needs_a_callsign() {
    let mut log = vec![qso(9, DAY0)];
    let mut f = LogEditForm::new_entry(DAY0, 0, "SSB");
    assert_eq!(f.freq_mhz, "");
    let read = Readings { freq_hz: 0, band: "x".to_string(), start_utc: DAY0, tx_pwr: None };
    assert_eq!(save_entry(&f, "", "", &read, &mut log), Saved::Refused);
    assert_eq!(log.len(), 1);
    f.call = "oe3jjs".to_string();
    assert_eq!(save_entry(&f, "", "", &read, &mut log), Saved::Added);
    assert_eq!(log[1].id, 10);
    assert_eq!(log[1].call, "OE3JJS");
    assert_eq!(log[1].band, "");
    f.set_now(DAY0 + 86_399);
    assert_eq!(f.time, "23:59");
}

#[test]
fn a_row_shows_its_reports_and_marks() {
    let mut r = qso(1, DAY0);
    assert_eq!(rst_text(&r), "–/–");
    r.rst_sent = Some(59);
    r.rst_rcvd = Some(-7);
    assert_eq!(rst_text(&r), "59/-7");
    assert_eq!(qsl_mark(&r).0, "");
    r.qrz_sent = true;
    assert_eq!(qsl_mark(&r).0, "↑");
    r.eqsl_rcvd = true;
    assert_eq!(qsl_mark(&r).0, "✓");
    assert_eq!(qsl_tip(&r), "eQSL ✓, QRZ ↑");
}

#[test]
fn row_buttons_have_an_order() {
    assert_eq!(row_action(4, true, true, true, 1), Some(RowAction::Delete(4)));
    assert_eq!(row_action(4, false, true, true, 1), Some(RowAction::Edit(4)));
    assert_eq!(row_action(4, false, false, true, 1), Some(RowAction::Upload(4)));
    assert_eq!(row_action(4, false, false, true, 0), None);
    let mut log = vec![qso(1, DAY0), qso(2, DAY0), qso(1, DAY0)];
    let cfg = config();
    let e = apply_row_action(Some(RowAction::Upload(2)), &mut log, &cfg);
    assert!(matches!(e, AfterRow::Send(1, t) if t == vec![UploadTarget::Eqsl]));
    let e = apply_row_action(Some(RowAction::Delete(1)), &mut log, &cfg);
    assert!(matches!(e, AfterRow::Store));
    assert_eq!(log.len(), 1);
    assert_eq!(log[0].id, 2);
    let e = apply_row_action(Some(RowAction::Edit(5)), &mut log, &cfg);
    assert!(matches!(e, AfterRow::Nothing));
    let e = apply_row_action(Some(RowAction::Edit(2)), &mut log, &cfg);
    assert!(matches!(e, AfterRow::Open(0)));
}

#[test]
fn the_form_asks_for_lookups_and_warns() {
    let mut f = LogEditForm::new_entry(DAY0, 0, "SSB");
    let cfg = config();
    assert!(form_lookup(&f, &cfg, true, true).is_none());
    f.call = " oe1abc ".to_string();
    assert_eq!(form_lookup(&f, &cfg, false, true).unwrap(), "oe1abc");
    assert!(form_lookup(&f, &cfg, false, false).is_none());
    assert_eq!(dupe_warning(&f, "20m", true).unwrap(), "⚠ WORKED BEFORE (20m)");
    assert!(dupe_warning(&f, "", true).is_none());
    assert_eq!(my_grid(Some(""), "JN88"), "JN88");
    assert_eq!(my_grid(Some("KN00"), "JN88"), "KN00");
    assert_eq!(my_grid(None, "JN88"), "JN88");
}

#[test]
fn caches_follow_the_length_and_are_forgotten_on_an_edit() {
    let mut c = LogCaches { awards: Some(2), heat: Some(2), worked: None, index: Some(2) };
    assert!(!c.index_stale(2));
    assert!(c.index_stale(3));
    let names = vec![Some("Austria".to_string()), None, Some("Austria".to_string())];
    c.worked_entities(&names);
    assert_eq!(c.worked.as_ref().unwrap().1, vec!["Austria".to_string()]);
    c.worked_entities(&vec![Some("Italy".to_string()), None, None]);
    assert_eq!(c.worked.as_ref().unwrap().1, vec!["Austria".to_string()]);
    c.log_content_changed();
    assert!(c.worked.is_none() && c.awards.is_none());
    assert!(c.index_stale(2));
}
