//! The logbook's entry form: a contact as text, and back.

use vstd::prelude::*;

use crate::clock::{date_of, date_str, date_text, day_of, hm_text, padded, time_str};
use crate::double::{
    lemma_four_places_are_near, mhz, mhz_text, ten_to, through_double, WHOLE_END,
};
use crate::figure::{
    law_a_shown_power_is_read_back, lemma_dec_len, lemma_pointed_is_read, pointed, power_text,
    read_units, units, watts,
};
use crate::qso::{
    find_id, first_with_id, ids_apart, is_blank_record, lemma_max_id, max_id, next_log_id,
    QsoRecord,
};
use crate::text::{
    blank, dec, dec_int, decimal, decimal_int, is_blank, lemma_dec_value, lemma_trim_blank,
    lemma_trim_self, parse_int, parse_unsigned, parsed, parsed_int, to_uppercase, trim, trimmed,
    uppercase,
};

verus! {

/// A new or edited log entry. The fields are text, so partial input never
/// fights the operator; they are read on save. `base` is the record being
/// edited, so that what the form does not show survives.
#[derive(Debug)]
pub struct LogEditForm {
    /// Zero for a new entry, else the id of the record being edited.
    pub id: u64,
    /// The time that stands in where date and time cannot be read.
    pub seed_utc: i64,
    pub base: QsoRecord,
    pub call: String,
    pub grid: String,
    pub freq_mhz: String,
    pub mode: String,
    pub rst_sent: String,
    pub rst_rcvd: String,
    pub date: String,
    pub time: String,
    pub name: String,
    pub qth: String,
    pub state: String,
    pub country: String,
    pub tx_pwr: String,
    pub contest_id: String,
    pub srx: String,
    pub stx: String,
    pub comment: String,
}

/// What the form does not read itself: the band of its frequency, the moment
/// that date and time name, and what frequency and power mean where they are
/// not written in plain digits with at most one point. A frequency of zero
/// stands for one that could not be read.
#[derive(Debug)]
pub struct Readings {
    pub freq_hz: u64,
    pub band: String,
    pub start_utc: i64,
    pub tx_pwr: Option<u64>,
}

/// A frequency as the form shows it: in megahertz, empty where it is not
/// known.
pub open spec fn freq_field(hz: u64) -> Seq<char> {
    if hz > 0 {
        mhz_text(hz as nat, 4)
    } else {
        Seq::empty()
    }
}

fn freq_text(hz: u64) -> (t: String)
    requires
        hz < WHOLE_END,
    ensures
        t@ == freq_field(hz),
{
    if hz > 0 {
        mhz(hz, 4)
    } else {
        String::new()
    }
}

/// The frequency, in hertz, that a field in megahertz holds: none where it is
/// blank, and what `otherwise` says of what is not plain digits.
pub open spec fn field_freq(s: Seq<char>, otherwise: u64) -> u64 {
    if is_blank(s) {
        0
    } else {
        match units(trim(s), 6) {
            Some(hz) => hz,
            None => otherwise,
        }
    }
}

/// A power as the form shows it: in watts, empty where it is not known.
pub open spec fn power_field(p: Option<u64>) -> Seq<char> {
    match p {
        Some(n) => watts(n as nat),
        None => Seq::empty(),
    }
}

/// The power, in thousandths of a watt, that a field in watts holds: none where
/// it is blank, and what `otherwise` says of what is not plain digits.
pub open spec fn field_power(s: Seq<char>, otherwise: Option<u64>) -> Option<u64> {
    if is_blank(s) {
        None
    } else {
        match units(trim(s), 3) {
            Some(n) => Some(n),
            None => otherwise,
        }
    }
}

fn read_power(s: &str, otherwise: Option<u64>) -> (r: Option<u64>)
    ensures
        r == field_power(s@, otherwise),
{
    if blank(s) {
        return None;
    }
    let t = trimmed(s);
    match read_units(t.as_str(), 3) {
        Some(n) => Some(n),
        None => otherwise,
    }
}

/// An optional number as the form shows it.
pub open spec fn opt_dec(n: Option<u32>) -> Seq<char> {
    match n {
        Some(v) => dec(v as nat),
        None => Seq::empty(),
    }
}

/// An optional report as the form shows it.
pub open spec fn opt_report(n: Option<i32>) -> Seq<char> {
    match n {
        Some(v) => dec_int(v as int),
        None => Seq::empty(),
    }
}

fn opt_decimal(n: Option<u32>) -> (r: String)
    ensures
        r@ == opt_dec(n),
{
    match n {
        Some(v) => decimal(v as u64),
        None => String::new(),
    }
}

fn opt_report_text(n: Option<i32>) -> (r: String)
    ensures
        r@ == opt_report(n),
{
    match n {
        Some(v) => decimal_int(v as i64),
        None => String::new(),
    }
}

/// The number read from a field, as far as one stands there.
pub open spec fn field_number(s: Seq<char>) -> Option<u32> {
    match parsed(trim(s), 0xffff_ffff) {
        Some(v) => Some(v as u32),
        None => None,
    }
}

/// The report read from a field, as far as one stands there.
pub open spec fn field_report(s: Seq<char>) -> Option<i32> {
    match parsed_int(trim(s)) {
        Some(v) => Some(v as i32),
        None => None,
    }
}

fn read_number(s: &str) -> (r: Option<u32>)
    ensures
        r == field_number(s@),
{
    let t = trimmed(s);
    parse_unsigned(t.as_str(), 0xffff_ffff)
}

fn read_report(s: &str) -> (r: Option<i32>)
    ensures
        r == field_report(s@),
{
    let t = trimmed(s);
    parse_int(t.as_str())
}

fn upper_trimmed(s: &str) -> (r: String)
    ensures
        r@ == uppercase(trim(s@)),
        (r@.len() == 0) == is_blank(s@),
{
    let t = trimmed(s);
    proof {
        lemma_trim_blank(s@);
    }
    to_uppercase(t.as_str())
}

/// The record that a form stands for, given what it does not read itself.
/// Everything the form does not show comes from `base`.
pub open spec fn is_record_of(
    form: LogEditForm,
    my_call: Seq<char>,
    my_grid: Seq<char>,
    read: Readings,
    rec: QsoRecord,
) -> bool {
    &&& rec.id == form.id
    &&& rec.call@ == uppercase(trim(form.call@))
    &&& match rec.grid {
        Some(g) => !is_blank(form.grid@) && g@ == uppercase(trim(form.grid@)),
        None => is_blank(form.grid@),
    }
    &&& rec.rst_sent == field_report(form.rst_sent@)
    &&& rec.rst_rcvd == field_report(form.rst_rcvd@)
    &&& rec.freq_hz == field_freq(form.freq_mhz@, read.freq_hz)
    &&& rec.band@ == if rec.freq_hz > 0 {
        read.band@
    } else {
        Seq::empty()
    }
    &&& rec.mode@ == if is_blank(form.mode@) {
        "SSB"@
    } else {
        uppercase(trim(form.mode@))
    }
    &&& rec.start_utc == read.start_utc
    &&& rec.end_utc == if form.base.end_utc > read.start_utc {
        form.base.end_utc
    } else {
        read.start_utc
    }
    &&& rec.my_call@ == my_call
    &&& rec.my_grid@ == my_grid
    &&& rec.name@ == trim(form.name@)
    &&& rec.qth@ == trim(form.qth@)
    &&& rec.state@ == uppercase(trim(form.state@))
    &&& rec.country@ == trim(form.country@)
    &&& rec.tx_pwr == field_power(form.tx_pwr@, read.tx_pwr)
    &&& rec.contest_id@ == uppercase(trim(form.contest_id@))
    &&& rec.srx == field_number(form.srx@)
    &&& rec.stx == field_number(form.stx@)
    &&& rec.comment@ == trim(form.comment@)
    &&& rec.dxcc == form.base.dxcc
    &&& rec.cq_zone == form.base.cq_zone
    &&& rec.itu_zone == form.base.itu_zone
    &&& rec.lotw_sent == form.base.lotw_sent
    &&& rec.lotw_rcvd == form.base.lotw_rcvd
    &&& rec.eqsl_sent == form.base.eqsl_sent
    &&& rec.eqsl_rcvd == form.base.eqsl_rcvd
    &&& rec.qsl_rcvd == form.base.qsl_rcvd
    &&& rec.qrz_sent == form.base.qrz_sent
    &&& rec.hamqth_sent == form.base.hamqth_sent
    &&& rec.clublog_sent == form.base.clublog_sent
}

/// True when the form shows the moment `t` as its date and time.
pub open spec fn shows_moment(form: LogEditForm, t: int) -> bool {
    form.date@ == date_text(date_of(day_of(t))) && form.time@ == hm_text(t)
}

/// True of the form that a logged contact opens in.
pub open spec fn is_opened(r: QsoRecord, f: LogEditForm) -> bool {
    &&& f.id == r.id
    &&& f.seed_utc == r.start_utc
    &&& f.base == r
    &&& f.call@ == r.call@
    &&& f.grid@ == match r.grid {
        Some(g) => g@,
        None => Seq::empty(),
    }
    &&& f.freq_mhz@ == freq_field(r.freq_hz)
    &&& f.mode@ == r.mode@
    &&& f.rst_sent@ == opt_report(r.rst_sent)
    &&& f.rst_rcvd@ == opt_report(r.rst_rcvd)
    &&& shows_moment(f, r.start_utc as int)
    &&& f.name@ == r.name@
    &&& f.qth@ == r.qth@
    &&& f.state@ == r.state@
    &&& f.country@ == r.country@
    &&& f.tx_pwr@ == power_field(r.tx_pwr)
    &&& f.contest_id@ == r.contest_id@
    &&& f.srx@ == opt_dec(r.srx)
    &&& f.stx@ == opt_dec(r.stx)
    &&& f.comment@ == r.comment@
}

impl LogEditForm {
    /// A blank new entry seeded with the current time, frequency and mode.
    pub fn new_entry(now: i64, freq_hz: u64, mode: &str) -> (f: LogEditForm)
        requires
            freq_hz < WHOLE_END,
        ensures
            f.id == 0,
            f.seed_utc == now,
            is_blank_record(f.base),
            f.freq_mhz@ == freq_field(freq_hz),
            f.mode@ == mode@,
            shows_moment(f, now as int),
            f.call@.len() == 0 && f.grid@.len() == 0 && f.rst_sent@.len() == 0
                && f.rst_rcvd@.len() == 0 && f.name@.len() == 0 && f.qth@.len() == 0
                && f.state@.len() == 0 && f.country@.len() == 0 && f.tx_pwr@.len() == 0
                && f.contest_id@.len() == 0 && f.srx@.len() == 0 && f.stx@.len() == 0
                && f.comment@.len() == 0,
    {
        LogEditForm {
            id: 0,
            seed_utc: now,
            base: QsoRecord::default(),
            call: String::new(),
            grid: String::new(),
            freq_mhz: freq_text(freq_hz),
            mode: mode.to_owned(),
            rst_sent: String::new(),
            rst_rcvd: String::new(),
            date: date_str(now),
            time: time_str(now),
            name: String::new(),
            qth: String::new(),
            state: String::new(),
            country: String::new(),
            tx_pwr: String::new(),
            contest_id: String::new(),
            srx: String::new(),
            stx: String::new(),
            comment: String::new(),
        }
    }

    /// The form of a logged contact.
    pub fn from_record(r: &QsoRecord) -> (f: LogEditForm)
        requires
            r.freq_hz < WHOLE_END,
        ensures
            is_opened(*r, f),
            f.id == r.id && f.seed_utc == r.start_utc && f.base == *r,
            f.call@ == r.call@,
            r.grid matches Some(g) ==> f.grid@ == g@,
            r.grid is None ==> f.grid@.len() == 0,
            f.freq_mhz@ == freq_field(r.freq_hz),
            f.mode@ == r.mode@,
            f.rst_sent@ == opt_report(r.rst_sent),
            f.rst_rcvd@ == opt_report(r.rst_rcvd),
            f.date@ == date_text(date_of(day_of(r.start_utc as int))),
            f.time@ == hm_text(r.start_utc as int),
            f.name@ == r.name@,
            f.qth@ == r.qth@,
            f.state@ == r.state@,
            f.country@ == r.country@,
            f.tx_pwr@ == power_field(r.tx_pwr),
            f.contest_id@ == r.contest_id@,
            f.srx@ == opt_dec(r.srx),
            f.stx@ == opt_dec(r.stx),
            f.comment@ == r.comment@,
    {
        let grid = match &r.grid {
            Some(g) => g.clone(),
            None => String::new(),
        };
        let tx_pwr = match r.tx_pwr {
            Some(n) => power_text(n),
            None => String::new(),
        };
        LogEditForm {
            id: r.id,
            seed_utc: r.start_utc,
            base: r.duplicate(),
            call: r.call.clone(),
            grid,
            freq_mhz: freq_text(r.freq_hz),
            mode: r.mode.clone(),
            rst_sent: opt_report_text(r.rst_sent),
            rst_rcvd: opt_report_text(r.rst_rcvd),
            date: date_str(r.start_utc),
            time: time_str(r.start_utc),
            name: r.name.clone(),
            qth: r.qth.clone(),
            state: r.state.clone(),
            country: r.country.clone(),
            tx_pwr,
            contest_id: r.contest_id.clone(),
            srx: opt_decimal(r.srx),
            stx: opt_decimal(r.stx),
            comment: r.comment.clone(),
        }
    }

    /// Puts the moment `now` into the date and time fields.
    pub fn set_now(&mut self, now: i64)
        ensures
            shows_moment(*final(self), now as int),
            *final(self) == (LogEditForm { date: final(self).date, time: final(self).time, ..*old(self) }),
    {
        self.date = date_str(now);
        self.time = time_str(now);
    }

    /// The frequency that the form holds, in hertz; `otherwise` is what it means
    /// where it is not written in plain digits.
    pub fn frequency(&self, otherwise: u64) -> (hz: u64)
        ensures
            hz == field_freq(self.freq_mhz@, otherwise),
    {
        if blank(self.freq_mhz.as_str()) {
            return 0;
        }
        let t = trimmed(self.freq_mhz.as_str());
        match read_units(t.as_str(), 6) {
            Some(hz) => hz,
            None => otherwise,
        }
    }

    /// Read the form into a record, or `None` if the callsign is blank.
    pub fn to_record(&self, my_call: &str, my_grid: &str, read: &Readings) -> (r: Option<QsoRecord>)
        ensures
            r is None == is_blank(self.call@),
            r matches Some(rec) ==> is_record_of(*self, my_call@, my_grid@, *read, rec),
            r matches Some(rec) ==> {
                &&& rec.id == self.id
                &&& rec.call@ == uppercase(trim(self.call@))
                &&& (is_blank(self.grid@) ==> rec.grid is None)
                &&& (!is_blank(self.grid@) ==> (rec.grid matches Some(g) && g@ == uppercase(trim(self.grid@))))
                &&& (is_blank(self.mode@) ==> rec.mode@ == "SSB"@)
                &&& (!is_blank(self.mode@) ==> rec.mode@ == uppercase(trim(self.mode@)))
                &&& rec.name@ == trim(self.name@)
                &&& rec.qth@ == trim(self.qth@)
                &&& rec.state@ == uppercase(trim(self.state@))
                &&& rec.country@ == trim(self.country@)
                &&& rec.contest_id@ == uppercase(trim(self.contest_id@))
                &&& rec.comment@ == trim(self.comment@)
                &&& rec.rst_sent == field_report(self.rst_sent@)
                &&& rec.rst_rcvd == field_report(self.rst_rcvd@)
                &&& rec.srx == field_number(self.srx@)
                &&& rec.stx == field_number(self.stx@)
                &&& rec.freq_hz == field_freq(self.freq_mhz@, read.freq_hz)
                &&& (rec.freq_hz > 0 ==> rec.band@ == read.band@)
                &&& (rec.freq_hz == 0 ==> rec.band@.len() == 0)
                &&& rec.tx_pwr == field_power(self.tx_pwr@, read.tx_pwr)
                &&& rec.start_utc == read.start_utc
                &&& rec.end_utc >= rec.start_utc && rec.end_utc >= self.base.end_utc
                &&& rec.end_utc == rec.start_utc || rec.end_utc == self.base.end_utc
                &&& rec.my_call@ == my_call@
                &&& rec.my_grid@ == my_grid@
                &&& rec.dxcc == self.base.dxcc && rec.cq_zone == self.base.cq_zone && rec.itu_zone == self.base.itu_zone
                &&& rec.lotw_sent == self.base.lotw_sent && rec.lotw_rcvd == self.base.lotw_rcvd
                &&& rec.eqsl_sent == self.base.eqsl_sent && rec.eqsl_rcvd == self.base.eqsl_rcvd
                &&& rec.qsl_rcvd == self.base.qsl_rcvd && rec.qrz_sent == self.base.qrz_sent
                &&& rec.hamqth_sent == self.base.hamqth_sent && rec.clublog_sent == self.base.clublog_sent
            },
    {
        let call = upper_trimmed(self.call.as_str());
        if call.as_str().is_empty() {
            return None;
        }
        let mut rec = self.base.duplicate();
        rec.id = self.id;
        rec.call = call;
        rec.grid = if blank(self.grid.as_str()) {
            None
        } else {
            Some(upper_trimmed(self.grid.as_str()))
        };
        rec.rst_sent = read_report(self.rst_sent.as_str());
        rec.rst_rcvd = read_report(self.rst_rcvd.as_str());
        rec.freq_hz = self.frequency(read.freq_hz);
        rec.band = if rec.freq_hz > 0 {
            read.band.clone()
        } else {
            String::new()
        };
        rec.mode = if blank(self.mode.as_str()) {
            "SSB".to_owned()
        } else {
            upper_trimmed(self.mode.as_str())
        };
        rec.start_utc = read.start_utc;
        rec.end_utc = if rec.end_utc > read.start_utc {
            rec.end_utc
        } else {
            read.start_utc
        };
        rec.my_call = my_call.to_owned();
        rec.my_grid = my_grid.to_owned();
        rec.name = trimmed(self.name.as_str());
        rec.qth = trimmed(self.qth.as_str());
        rec.state = upper_trimmed(self.state.as_str());
        rec.country = trimmed(self.country.as_str());
        rec.tx_pwr = read_power(self.tx_pwr.as_str(), read.tx_pwr);
        rec.contest_id = upper_trimmed(self.contest_id.as_str());
        rec.srx = read_number(self.srx.as_str());
        rec.stx = read_number(self.stx.as_str());
        rec.comment = trimmed(self.comment.as_str());
        Some(rec)
    }
}

/// What saving a form did to the log.
#[derive(Clone, Copy, PartialEq, Eq, Structural, Debug)]
pub enum Saved {
    /// The callsign was blank: nothing was stored and the form stays open.
    Refused,
    /// A new contact went to the end of the log.
    Added,
    /// The record with the form's id was replaced.
    Replaced,
    /// The record being edited is no longer in the log.
    Gone,
}

/// True when saving the form turned `before` into `after` and said `saved`.
pub open spec fn is_saved(
    form: LogEditForm,
    my_call: Seq<char>,
    my_grid: Seq<char>,
    read: Readings,
    before: Seq<QsoRecord>,
    saved: Saved,
    after: Seq<QsoRecord>,
) -> bool {
    &&& (saved == Saved::Refused) == is_blank(form.call@)
    &&& (saved == Saved::Added) == (!is_blank(form.call@) && form.id == 0)
    &&& (saved == Saved::Replaced) == (!is_blank(form.call@) && form.id != 0 && exists|i: int|
        #[trigger] first_with_id(before, form.id, i))
    &&& saved == Saved::Refused || saved == Saved::Gone ==> after == before
    &&& saved == Saved::Added ==> {
        &&& after.len() == before.len() + 1
        &&& after.drop_last() == before
        &&& after.last().id == max_id(before) + 1
        &&& is_record_of(form, my_call, my_grid, read, (QsoRecord { id: 0, ..after.last() }))
    }
    &&& saved == Saved::Replaced ==> exists|i: int| #[trigger]
        first_with_id(before, form.id, i) && is_record_of(form, my_call, my_grid, read, after[i])
            && after == before.update(i, after[i])
}

/// Stores the form's contact: a new one at the end of the log under a fresh
/// id, an edited one in the place of the record it came from. A blank callsign
/// stores nothing.
pub fn save_entry(
    form: &LogEditForm,
    my_call: &str,
    my_grid: &str,
    read: &Readings,
    log: &mut Vec<QsoRecord>,
) -> (saved: Saved)
    requires
        form.id == 0 && !is_blank(form.call@) ==> max_id(old(log)@) < u64::MAX,
    ensures
        is_saved(*form, my_call@, my_grid@, *read, old(log)@, saved, final(log)@),
{
    match form.to_record(my_call, my_grid, read) {
        None => Saved::Refused,
        Some(rec) => {
            if rec.id == 0 {
                let mut rec = rec;
                let ghost plain = rec;
                rec.id = next_log_id(log);
                assert((QsoRecord { id: 0, ..rec }) == plain);
                log.push(rec);
                assert(log@.drop_last() =~= old(log)@);
                Saved::Added
            } else {
                match find_id(log, rec.id) {
                    Some(i) => {
                        assert(first_with_id(old(log)@, form.id, i as int));
                        log.set(i, rec);
                        assert(log@ =~= old(log)@.update(i as int, log@[i as int]));
                        Saved::Replaced
                    },
                    None => {
                        Saved::Gone
                    },
                }
            }
        },
    }
}

/// A serial number or a report that the form shows is read back as itself, so
/// opening and saving an entry changes neither.
pub proof fn law_numbers_survive_the_form(serial: Option<u32>, report: Option<i32>)
    ensures
        field_number(opt_dec(serial)) == serial,
        field_report(opt_report(report)) == report,
{
    if let Some(v) = serial {
        lemma_dec_value(v as nat);
        lemma_trim_self(dec(v as nat));
    } else {
        assert(trim(Seq::<char>::empty()) =~= Seq::<char>::empty());
    }
    if let Some(v) = report {
        if v < 0 {
            let d = dec((-v) as nat);
            lemma_dec_value((-v) as nat);
            let s = dec_int(v as int);
            assert(s[0] == '-');
            assert(s.last() == d[d.len() - 1]);
            lemma_trim_self(s);
            assert(s.drop_first() =~= d);
        } else {
            lemma_dec_value(v as nat);
            lemma_trim_self(dec(v as nat));
        }
    } else {
        assert(trim(Seq::<char>::empty()) =~= Seq::<char>::empty());
    }
}

/// Saving an entry never gives two contacts one id: a fresh contact's id is
/// above every id of the log, and an edit keeps the id of what it replaces.
pub proof fn law_saving_keeps_ids_apart(
    form: LogEditForm,
    my_call: Seq<char>,
    my_grid: Seq<char>,
    read: Readings,
    before: Seq<QsoRecord>,
    saved: Saved,
    after: Seq<QsoRecord>,
)
    requires
        ids_apart(before),
        is_saved(form, my_call, my_grid, read, before, saved, after),
    ensures
        ids_apart(after),
{
    lemma_max_id(before);
    assert forall|j: int, k: int| 0 <= j < k < after.len() implies (#[trigger] after[j]).id != (
    #[trigger] after[k]).id by {
        if saved == Saved::Added {
            assert(after[j] == after.drop_last()[j]);
            assert(after[j] == before[j]);
            if k < before.len() {
                assert(after[k] == after.drop_last()[k]);
            }
        } else {
            assert(before[j].id != before[k].id);
        }
    }
}

/// Opening a contact and saving it again keeps its id and everything that the
/// form does not show, and its start cannot move behind its end.
pub proof fn law_editing_keeps_what_is_not_shown(
    r: QsoRecord,
    form: LogEditForm,
    my_call: Seq<char>,
    my_grid: Seq<char>,
    read: Readings,
    saved: QsoRecord,
)
    requires
        form.base == r,
        form.id == r.id,
        is_record_of(form, my_call, my_grid, read, saved),
    ensures
        saved.id == r.id,
        saved.dxcc == r.dxcc && saved.cq_zone == r.cq_zone && saved.itu_zone == r.itu_zone,
        saved.confirmed() == r.confirmed(),
        saved.sent_anywhere() == r.sent_anywhere(),
        saved.end_utc >= saved.start_utc,
        saved.end_utc >= r.end_utc,
{
}

/// A frequency as the form shows it, in hundreds of hertz.
pub open spec fn shown_hundreds(hz: u64) -> nat {
    through_double(hz as nat, 1_000_000, 10_000)
}

/// The form shows a frequency to within 50 Hz.
pub proof fn law_the_shown_frequency_is_near(hz: u64)
    requires
        0 < hz < WHOLE_END,
    ensures
        freq_field(hz) == dec(shown_hundreds(hz) / 10_000) + seq!['.'] + padded(
            shown_hundreds(hz) % 10_000,
            4,
        ),
        -50 <= 100 * shown_hundreds(hz) - hz <= 50,
{
    reveal_with_fuel(ten_to, 5);
    lemma_four_places_are_near(hz as nat);
}

/// True of a text without white space at either end.
pub open spec fn is_trimmed(s: Seq<char>) -> bool {
    trim(s) == s
}

/// True of a trimmed text in upper case.
pub open spec fn is_upper(s: Seq<char>) -> bool {
    is_trimmed(s) && uppercase(s) == s
}

/// True of a contact that is written as the form writes one: trimmed, in upper
/// case where the form puts that, with a call and a mode.
pub open spec fn is_neat(q: QsoRecord) -> bool {
    &&& q.call@.len() > 0 && is_upper(q.call@)
    &&& q.mode@.len() > 0 && is_upper(q.mode@)
    &&& q.grid matches Some(g) ==> g@.len() > 0 && is_upper(g@)
    &&& is_upper(q.state@) && is_upper(q.contest_id@)
    &&& is_trimmed(q.name@) && is_trimmed(q.qth@)
    &&& is_trimmed(q.country@) && is_trimmed(q.comment@)
}

/// True when two contacts agree in everything but frequency, band, start and
/// end.
pub open spec fn agrees(a: QsoRecord, b: QsoRecord) -> bool {
    &&& a.call@ == b.call@ && a.mode@ == b.mode@
    &&& match (a.grid, b.grid) {
        (Some(g), Some(h)) => g@ == h@,
        (None, None) => true,
        _ => false,
    }
    &&& a.my_call@ == b.my_call@ && a.my_grid@ == b.my_grid@
    &&& a.name@ == b.name@ && a.qth@ == b.qth@ && a.state@ == b.state@
    &&& a.country@ == b.country@ && a.contest_id@ == b.contest_id@ && a.comment@ == b.comment@
    &&& a == (QsoRecord {
        call: a.call,
        mode: a.mode,
        grid: a.grid,
        my_call: a.my_call,
        my_grid: a.my_grid,
        name: a.name,
        qth: a.qth,
        state: a.state,
        country: a.country,
        contest_id: a.contest_id,
        comment: a.comment,
        freq_hz: a.freq_hz,
        band: a.band,
        start_utc: a.start_utc,
        end_utc: a.end_utc,
        ..b
    })
}

proof fn lemma_pointed_is_trimmed(v: nat, p: nat)
    requires
        p >= 1,
    ensures
        trim(pointed(v, p)) == pointed(v, p),
        pointed(v, p).len() > 0,
{
    let s = pointed(v, p);
    let (a, f) = (dec(v / ten_to(p)), padded(v % ten_to(p), p));
    lemma_dec_value(v / ten_to(p));
    lemma_dec_value(v % ten_to(p));
    assert(s[0] == a[0]);
    assert(f.last() == dec(v % ten_to(p)).last());
    assert(s.last() == f.last());
    lemma_trim_self(s);
}

proof fn lemma_watts_are_trimmed(n: nat)
    ensures
        trim(watts(n)) == watts(n),
        watts(n).len() > 0,
{
    if n % 1_000 == 0 {
        lemma_dec_value(n / 1_000);
        lemma_trim_self(dec(n / 1_000));
    } else {
        lemma_pointed_is_trimmed(n / 100, 1);
        lemma_pointed_is_trimmed(n / 10, 2);
        lemma_pointed_is_trimmed(n, 3);
    }
}

/// What the form shows of frequency and power it reads back, whatever is said
/// of what it cannot read: the power as it was, the frequency to within 50 Hz.
pub proof fn law_frequency_and_power_survive_the_form(
    hz: u64,
    power: Option<u64>,
    read_hz: u64,
    read_power: Option<u64>,
)
    requires
        hz < WHOLE_END,
    ensures
        field_power(power_field(power), read_power) == power,
        hz == 0 ==> field_freq(freq_field(hz), read_hz) == 0,
        hz > 0 ==> field_freq(freq_field(hz), read_hz) == 100 * shown_hundreds(hz),
        -50 <= field_freq(freq_field(hz), read_hz) - hz <= 50,
{
    if let Some(n) = power {
        let s = watts(n as nat);
        law_a_shown_power_is_read_back(n);
        lemma_watts_are_trimmed(n as nat);
        lemma_trim_blank(s);
    } else {
        lemma_trim_blank(Seq::empty());
        assert(trim(Seq::<char>::empty()) =~= Seq::<char>::empty());
    }
    if hz > 0 {
        law_the_shown_frequency_is_near(hz);
        let h = shown_hundreds(hz);
        let s = freq_field(hz);
        assert(ten_to(2) == 100 && ten_to(4) == 10_000) by {
            reveal_with_fuel(ten_to, 5);
        }
        assert(h / 10_000 < ten_to(11)) by {
            reveal_with_fuel(ten_to, 12);
        }
        assert(s =~= pointed(h, 4));
        lemma_dec_len(h / 10_000, 11);
        assert((6 - 4) as nat == 2);
        assert(h * ten_to(2) == 100 * h);
        lemma_pointed_is_read(h, 4, 6);
        lemma_pointed_is_trimmed(h, 4);
        lemma_trim_blank(s);
    } else {
        lemma_trim_blank(Seq::empty());
        assert(trim(Seq::<char>::empty()) =~= Seq::<char>::empty());
    }
}

/// A neat contact that is opened and saved again comes back as it was but for
/// its frequency, which comes back to within 50 Hz, its band, its start and its
/// end. Where its start is read as it was and it does not end before it starts,
/// those come back as well; its band does where the shown frequency is said to
/// lie in it.
pub proof fn law_a_contact_survives_the_form(
    q: QsoRecord,
    form: LogEditForm,
    read: Readings,
    saved: QsoRecord,
)
    requires
        q.freq_hz < WHOLE_END,
        is_opened(q, form),
        is_record_of(form, q.my_call@, q.my_grid@, read, saved),
    ensures
        is_neat(q) ==> !is_blank(form.call@) && agrees(saved, q),
        -50 <= saved.freq_hz - q.freq_hz <= 50,
        q.freq_hz == 0 ==> saved.freq_hz == 0,
        saved.freq_hz > 0 && read.band@ == q.band@ ==> saved.band@ == q.band@,
        read.start_utc == q.start_utc && q.start_utc <= q.end_utc ==> saved.start_utc == q.start_utc
            && saved.end_utc == q.end_utc,
{
    law_numbers_survive_the_form(q.srx, q.rst_sent);
    law_numbers_survive_the_form(q.stx, q.rst_rcvd);
    law_frequency_and_power_survive_the_form(q.freq_hz, q.tx_pwr, read.freq_hz, read.tx_pwr);
    lemma_trim_blank(q.call@);
    lemma_trim_blank(q.mode@);
    lemma_trim_blank(form.grid@);
}

/// Each field of a saved contact is what its own field of the form says: names
/// and remarks trimmed, call, locator, mode, state and contest in upper case as
/// well, reports and serial numbers as numbers. The marks and zones, which the
/// form does not show, come from the contact that was opened.
pub proof fn law_a_saved_contact_holds_what_was_typed(
    form: LogEditForm,
    my_call: Seq<char>,
    my_grid: Seq<char>,
    read: Readings,
    rec: QsoRecord,
)
    requires
        is_record_of(form, my_call, my_grid, read, rec),
    ensures
        rec.id == form.id,
        rec.call@ == uppercase(trim(form.call@)),
        is_blank(form.grid@) ==> rec.grid is None,
        !is_blank(form.grid@) ==> (rec.grid matches Some(g) && g@ == uppercase(trim(form.grid@))),
        is_blank(form.mode@) ==> rec.mode@ == "SSB"@,
        !is_blank(form.mode@) ==> rec.mode@ == uppercase(trim(form.mode@)),
        rec.name@ == trim(form.name@),
        rec.qth@ == trim(form.qth@),
        rec.state@ == uppercase(trim(form.state@)),
        rec.country@ == trim(form.country@),
        rec.contest_id@ == uppercase(trim(form.contest_id@)),
        rec.comment@ == trim(form.comment@),
        rec.rst_sent == field_report(form.rst_sent@),
        rec.rst_rcvd == field_report(form.rst_rcvd@),
        rec.srx == field_number(form.srx@),
        rec.stx == field_number(form.stx@),
        rec.freq_hz == field_freq(form.freq_mhz@, read.freq_hz),
        rec.freq_hz > 0 ==> rec.band@ == read.band@,
        rec.freq_hz == 0 ==> rec.band@.len() == 0,
        rec.tx_pwr == field_power(form.tx_pwr@, read.tx_pwr),
        rec.start_utc == read.start_utc,
        rec.end_utc >= rec.start_utc && rec.end_utc >= form.base.end_utc,
        rec.end_utc == rec.start_utc || rec.end_utc == form.base.end_utc,
        rec.my_call@ == my_call,
        rec.my_grid@ == my_grid,
        rec.dxcc == form.base.dxcc && rec.cq_zone == form.base.cq_zone && rec.itu_zone == form.base.itu_zone,
        rec.lotw_sent == form.base.lotw_sent && rec.lotw_rcvd == form.base.lotw_rcvd,
        rec.eqsl_sent == form.base.eqsl_sent && rec.eqsl_rcvd == form.base.eqsl_rcvd,
        rec.qsl_rcvd == form.base.qsl_rcvd && rec.qrz_sent == form.base.qrz_sent,
        rec.hamqth_sent == form.base.hamqth_sent && rec.clublog_sent == form.base.clublog_sent,
{
}

/// Each field of a form that a contact was opened in shows its own field of the
/// contact.
pub proof fn law_an_opened_form_shows_the_contact(r: QsoRecord, f: LogEditForm)
    requires
        is_opened(r, f),
    ensures
        f.id == r.id && f.seed_utc == r.start_utc && f.base == r,
        f.call@ == r.call@,
        r.grid matches Some(g) ==> f.grid@ == g@,
        r.grid is None ==> f.grid@.len() == 0,
        f.freq_mhz@ == freq_field(r.freq_hz),
        f.mode@ == r.mode@,
        f.rst_sent@ == opt_report(r.rst_sent),
        f.rst_rcvd@ == opt_report(r.rst_rcvd),
        f.date@ == date_text(date_of(day_of(r.start_utc as int))),
        f.time@ == hm_text(r.start_utc as int),
        f.name@ == r.name@,
        f.qth@ == r.qth@,
        f.state@ == r.state@,
        f.country@ == r.country@,
        f.tx_pwr@ == power_field(r.tx_pwr),
        f.contest_id@ == r.contest_id@,
        f.srx@ == opt_dec(r.srx),
        f.stx@ == opt_dec(r.stx),
        f.comment@ == r.comment@,
{
}

/// Saving stores one contact: a new one behind all others, under an id that no
/// other has, or the edited one in the place of the contact with its id; every
/// other contact stays as it is, and a form without a call stores nothing.
pub proof fn law_saving_touches_one_contact(
    form: LogEditForm,
    my_call: Seq<char>,
    my_grid: Seq<char>,
    read: Readings,
    before: Seq<QsoRecord>,
    saved: Saved,
    after: Seq<QsoRecord>,
)
    requires
        max_id(before) < u64::MAX,
        is_saved(form, my_call, my_grid, read, before, saved, after),
    ensures
        is_blank(form.call@) ==> saved == Saved::Refused && after == before,
        !is_blank(form.call@) && form.id == 0 ==> {
            &&& saved == Saved::Added
            &&& after.len() == before.len() + 1
            &&& forall|j: int| 0 <= j < before.len() ==> #[trigger] after[j] == before[j]
            &&& forall|j: int| 0 <= j < before.len() ==> after.last().id > #[trigger] before[j].id
            &&& after.last().call@ == uppercase(trim(form.call@))
            &&& after.last().name@ == trim(form.name@) && after.last().qth@ == trim(form.qth@)
            &&& after.last().start_utc == read.start_utc
        },
        !is_blank(form.call@) && form.id != 0 ==> {
            &&& after.len() == before.len()
            &&& saved == Saved::Replaced || saved == Saved::Gone
            &&& (saved == Saved::Gone) == (forall|j: int|
                0 <= j < before.len() ==> #[trigger] before[j].id != form.id)
            &&& forall|j: int|
                0 <= j < before.len() && #[trigger] before[j].id != form.id ==> after[j]
                    == before[j]
        },
        saved == Saved::Replaced ==> exists|i: int|
            0 <= i < before.len() && (#[trigger] before[i]).id == form.id && after[i].id == form.id
                && after[i].call@ == uppercase(trim(form.call@)) && after[i].name@ == trim(
                form.name@,
            ) && after[i].qth@ == trim(form.qth@) && after[i].start_utc == read.start_utc,
{
    lemma_max_id(before);
    if saved == Saved::Added {
        assert forall|j: int| 0 <= j < before.len() implies #[trigger] after[j] == before[j] by {
            assert(after.drop_last()[j] == after[j]);
        }
    }
    if !is_blank(form.call@) && form.id != 0 {
        if exists|i: int| #[trigger] first_with_id(before, form.id, i) {
            let i = choose|i: int|
                #[trigger] first_with_id(before, form.id, i) && is_record_of(
                    form,
                    my_call,
                    my_grid,
                    read,
                    after[i],
                ) && after == before.update(i, after[i]);
            assert(before[i].id == form.id);
        } else {
            lemma_first_with_id(before, form.id);
        }
    }
}

proof fn lemma_first_with_id(log: Seq<QsoRecord>, id: u64)
    requires
        !exists|i: int| #[trigger] first_with_id(log, id, i),
    ensures
        forall|j: int| 0 <= j < log.len() ==> #[trigger] log[j].id != id,
{
    if exists|j: int| 0 <= j < log.len() && #[trigger] log[j].id == id {
        let j = choose|j: int| 0 <= j < log.len() && #[trigger] log[j].id == id;
        lemma_first_below(log, id, j);
    }
}

proof fn lemma_first_below(log: Seq<QsoRecord>, id: u64, j: int)
    requires
        0 <= j < log.len(),
        log[j].id == id,
    ensures
        exists|i: int| #[trigger] first_with_id(log, id, i),
    decreases j,
{
    if exists|k: int| 0 <= k < j && #[trigger] log[k].id == id {
        let k = choose|k: int| 0 <= k < j && #[trigger] log[k].id == id;
        lemma_first_below(log, id, k);
    } else {
        assert(first_with_id(log, id, j));
    }
}

/// A field in megahertz is read in hertz and a field in watts in milliwatts, with
/// or without white space round the digits. A blank one holds nothing.
pub proof fn law_typed_figures_are_read_in_their_units(n: nat, hz: u64, p: Option<u64>)
    requires
        n <= 1_000_000_000,
    ensures
        field_freq(dec(n), hz) == n * 1_000_000,
        field_freq(seq![' '] + dec(n), hz) == n * 1_000_000,
        field_power(dec(n), p) == Some((n * 1_000) as u64),
        field_power(seq![' '] + dec(n), p) == Some((n * 1_000) as u64),
        field_freq(Seq::empty(), hz) == 0,
        field_power(Seq::empty(), p) is None,
{
    let d = dec(n);
    lemma_dec_value(n);
    lemma_dec_len_below(n);
    assert('0' <= d[0] && d[0] <= '9');
    assert('0' <= d[d.len() - 1] && d[d.len() - 1] <= '9');
    assert(!crate::text::is_white(d[0]) && !crate::text::is_white(d.last()));
    lemma_trim_self(d);
    assert(!is_blank(d));
    let s = seq![' '] + d;
    assert(s.drop_first() =~= d);
    assert(crate::text::is_white(s[0]));
    assert(crate::text::trim_start(s) == crate::text::trim_start(d));
    assert(trim(s) == d);
    assert(s[1] == d[0]);
    assert(!is_blank(s));
    assert(ten_to(0) == 1 && ten_to(1) == 10 && ten_to(2) == 100 && ten_to(3) == 1_000 && ten_to(5)
        == 100_000 && ten_to(6) == 1_000_000) by {
        reveal_with_fuel(ten_to, 7);
    }
    crate::figure::law_a_typed_number_is_read(n, 0, 1, 6);
    crate::figure::law_a_typed_number_is_read(n, 0, 1, 3);
}

proof fn lemma_dec_len_below(n: nat)
    requires
        n <= 1_000_000_000,
    ensures
        dec(n).len() <= 10,
{
    assert(n < ten_to(10)) by {
        reveal_with_fuel(ten_to, 11);
    }
    crate::figure::lemma_dec_len(n, 10);
}

/// What a contact lacks is an empty field, and what it has is written out.
pub proof fn law_missing_figures_are_empty(n: Option<u32>, r: Option<i32>, p: Option<u64>, hz: u64)
    ensures
        n is None ==> opt_dec(n).len() == 0,
        n matches Some(v) ==> opt_dec(n) == dec(v as nat),
        r is None ==> opt_report(r).len() == 0,
        r matches Some(v) ==> opt_report(r) == dec_int(v as int),
        p is None ==> power_field(p).len() == 0,
        p matches Some(v) ==> power_field(p) == watts(v as nat),
        hz == 0 ==> freq_field(hz).len() == 0,
        hz > 0 ==> freq_field(hz) == mhz_text(hz as nat, 4),
{
}

/// A form shows a moment as its date and as its hour and minute.
pub proof fn law_a_form_shows_date_and_time(form: LogEditForm, day: int, h: int, m: int, s: int)
    requires
        0 <= h < 24,
        0 <= m < 60,
        0 <= s < 60,
        shows_moment(form, 86_400 * day + 3_600 * h + 60 * m + s),
    ensures
        form.date@ == date_text(date_of(day)),
        form.time@ == crate::text::dec2(h as nat) + seq![':'] + crate::text::dec2(m as nat),
{
    crate::clock::law_the_clock_shows_the_time(day, h, m, s);
    let t = 86_400 * day + 3_600 * h + 60 * m + s;
    assert(day_of(t) == day);
}

} // verus!
