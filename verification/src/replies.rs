//! What replies from the network change: lookups, uploads, confirmations.

use vstd::prelude::*;

use crate::form::LogEditForm;
use crate::net::{
    as_text, fill_blank, filled, opt_text, push_net_log, takes, with_line, CallsignInfo,
    UploadResult, UploadTarget,
};
use crate::qso::{copy_text, find_id, first_with_id, QsoRecord};
use crate::text::{
    ascii_upper, blank, cat, dec, decimal, eq_ignore_case, is_blank, same, same_ignoring_case,
    texts, to_ascii_upper, trim, trimmed,
};

verus! {

/// The answers that lookups gave, by upper-case callsign.
#[derive(Debug)]
pub struct CallsignCache {
    pub entries: Vec<(String, CallsignInfo)>,
}

impl CallsignCache {
    /// True when `info` is held for `call`.
    pub open spec fn holds(&self, call: Seq<char>, info: CallsignInfo) -> bool {
        exists|i: int|
            0 <= i < self.entries@.len() && (#[trigger] self.entries@[i]).0@ == call
                && self.entries@[i].1 == info
    }

    /// No callsign is held twice.
    pub open spec fn wf(&self) -> bool {
        forall|i: int, j: int|
            0 <= i < j < self.entries@.len() ==> (#[trigger] self.entries@[i]).0@ != (
            #[trigger] self.entries@[j]).0@
    }

    fn position(&self, call: &str) -> (i: usize)
        ensures
            i <= self.entries@.len(),
            forall|j: int| 0 <= j < i ==> (#[trigger] self.entries@[j]).0@ != call@,
            i < self.entries@.len() ==> self.entries@[i as int].0@ == call@,
    {
        let mut i: usize = 0;
        while i < self.entries.len()
            invariant
                i <= self.entries@.len(),
                forall|j: int| 0 <= j < i ==> (#[trigger] self.entries@[j]).0@ != call@,
            decreases self.entries@.len() - i,
        {
            if same(self.entries[i].0.as_str(), call) {
                return i;
            }
            i = i + 1;
        }
        i
    }

    /// Holds `info` for its callsign, in place of what was held for it.
    pub fn insert(&mut self, info: CallsignInfo)
        requires
            old(self).wf(),
        ensures
            final(self).wf(),
            forall|c: Seq<char>, x: CallsignInfo| #[trigger]
                final(self).holds(c, x) == (if c == ascii_upper(info.call@) {
                    x == info
                } else {
                    old(self).holds(c, x)
                }),
    {
        let key = to_ascii_upper(info.call.as_str());
        let ghost before = self.entries@;
        let ghost k = key@;
        let i = self.position(key.as_str());
        if i < self.entries.len() {
            self.entries.set(i, (key, info));
        } else {
            self.entries.push((key, info));
        }
        let ghost after = self.entries@;
        assert(after[i as int].0@ == k && after[i as int].1 == info);
        assert forall|c: Seq<char>, x: CallsignInfo| #[trigger] self.holds(c, x) == (if c == k {
            x == info
        } else {
            old(self).holds(c, x)
        }) by {
            if c == k {
                if self.holds(c, x) {
                    let j = choose|j: int|
                        0 <= j < after.len() && (#[trigger] after[j]).0@ == c && after[j].1 == x;
                    if j != i {
                        assert(before[j].0@ == k);
                    }
                }
            } else {
                if self.holds(c, x) {
                    let j = choose|j: int|
                        0 <= j < after.len() && (#[trigger] after[j]).0@ == c && after[j].1 == x;
                    assert(before[j].0@ == c && before[j].1 == x);
                }
                if old(self).holds(c, x) {
                    let j = choose|j: int|
                        0 <= j < before.len() && (#[trigger] before[j]).0@ == c && before[j].1 == x;
                    assert(after[j].0@ == c && after[j].1 == x);
                }
            }
        }
        assert forall|a: int, b: int| 0 <= a < b < after.len() implies (#[trigger] after[a]).0@ != (
        #[trigger] after[b]).0@ by {
            if a != i && b != i {
                assert(before[a].0@ != before[b].0@);
            } else if a == i {
                assert(before[a].0@ != before[b].0@);
            } else {
                assert(before[a].0@ != k);
            }
        }
    }
}

/// The part of a summary line that an optional field adds.
pub open spec fn summary_part(lead: Seq<char>, field: Option<String>, tail: Seq<char>) -> Seq<char> {
    match field {
        Some(s) => lead + s@ + tail,
        None => Seq::empty(),
    }
}

/// The line that the network log shows for a lookup.
pub open spec fn lookup_summary(info: CallsignInfo) -> Seq<char> {
    info.call@ + summary_part(" — "@, info.name, seq![]) + summary_part(", "@, info.qth, seq![])
        + summary_part(" ("@, info.country, ")"@)
}

fn append_part(line: &mut String, lead: &str, field: &Option<String>, tail: &str)
    ensures
        final(line)@ == old(line)@ + summary_part(lead@, *field, tail@),
{
    match field {
        Some(s) => {
            line.append(lead);
            line.append(s.as_str());
            line.append(tail);
            assert(line@ =~= old(line)@ + summary_part(lead@, *field, tail@));
        },
        None => {
            assert(line@ =~= old(line)@ + summary_part(lead@, *field, tail@));
        },
    }
}

fn summary_line(info: &CallsignInfo) -> (line: String)
    ensures
        line@ == lookup_summary(*info),
{
    let mut line = info.call.clone();
    append_part(&mut line, " — ", &info.name, "");
    append_part(&mut line, ", ", &info.qth, "");
    append_part(&mut line, " (", &info.country, ")");
    proof {
        reveal_strlit("");
        assert(""@ =~= seq![]);
    }
    line
}

/// True when the open form is for the callsign that was looked up.
pub open spec fn form_is_for(edit: Option<LogEditForm>, info: CallsignInfo) -> bool {
    edit is Some && same_ignoring_case(trim(edit->0.call@), info.call@)
}

/// A form after a lookup: its blank fields filled, the rest as it was.
pub open spec fn form_filled(f: LogEditForm, info: CallsignInfo, g: LogEditForm) -> bool {
    &&& g.name@ == filled(f.name@, opt_text(info.name))
    &&& g.qth@ == filled(f.qth@, opt_text(info.qth))
    &&& g.grid@ == filled(f.grid@, opt_text(info.grid))
    &&& g.state@ == filled(f.state@, opt_text(info.state))
    &&& g.country@ == filled(f.country@, opt_text(info.country))
    &&& g == (LogEditForm {
        name: g.name,
        qth: g.qth,
        grid: g.grid,
        state: g.state,
        country: g.country,
        ..f
    })
}

/// True of a locator that is missing or empty.
pub open spec fn has_no_grid(grid: Option<String>) -> bool {
    match grid {
        Some(g) => g@.len() == 0,
        None => true,
    }
}

/// A number, or the offer where there is none.
pub open spec fn or_offer(have: Option<u32>, offer: Option<u32>) -> Option<u32> {
    if have is None {
        offer
    } else {
        have
    }
}

/// A record after a lookup: its blank fields filled, the rest as it was.
pub open spec fn record_filled(r: QsoRecord, info: CallsignInfo, s: QsoRecord) -> bool {
    &&& s.name@ == filled(r.name@, opt_text(info.name))
    &&& s.qth@ == filled(r.qth@, opt_text(info.qth))
    &&& s.state@ == filled(r.state@, opt_text(info.state))
    &&& s.country@ == filled(r.country@, opt_text(info.country))
    &&& s.grid == if has_no_grid(r.grid) && info.grid is Some {
        info.grid
    } else {
        r.grid
    }
    &&& s.dxcc == or_offer(r.dxcc, info.dxcc)
    &&& s.cq_zone == or_offer(r.cq_zone, info.cq_zone)
    &&& s.itu_zone == or_offer(r.itu_zone, info.itu_zone)
    &&& s == (QsoRecord {
        name: s.name,
        qth: s.qth,
        state: s.state,
        country: s.country,
        grid: s.grid,
        dxcc: s.dxcc,
        cq_zone: s.cq_zone,
        itu_zone: s.itu_zone,
        ..r
    })
}

/// True when a lookup has something to add to a record.
pub open spec fn record_takes(r: QsoRecord, info: CallsignInfo) -> bool {
    ||| takes(r.name@, opt_text(info.name))
    ||| takes(r.qth@, opt_text(info.qth))
    ||| takes(r.state@, opt_text(info.state))
    ||| takes(r.country@, opt_text(info.country))
    ||| has_no_grid(r.grid) && info.grid is Some
    ||| r.dxcc is None && info.dxcc is Some
    ||| r.cq_zone is None && info.cq_zone is Some
    ||| r.itu_zone is None && info.itu_zone is Some
}

/// True when `i` is the most recent contact with `call`; of several at the
/// same second, the one logged last.
pub open spec fn is_latest_with(log: Seq<QsoRecord>, call: Seq<char>, i: int) -> bool {
    &&& 0 <= i < log.len()
    &&& same_ignoring_case(log[i].call@, call)
    &&& forall|j: int|
        0 <= j < log.len() && same_ignoring_case((#[trigger] log[j]).call@, call) ==> log[j].start_utc
            <= log[i].start_utc && (j > i ==> log[j].start_utc < log[i].start_utc)
}

fn latest_with(log: &Vec<QsoRecord>, call: &str) -> (r: Option<usize>)
    ensures
        match r {
            Some(i) => is_latest_with(log@, call@, i as int),
            None => forall|j: int|
                0 <= j < log@.len() ==> !same_ignoring_case((#[trigger] log@[j]).call@, call@),
        },
{
    let mut best: Option<usize> = None;
    let mut i: usize = 0;
    while i < log.len()
        invariant
            i <= log@.len(),
            match best {
                Some(b) => {
                    &&& b < i
                    &&& same_ignoring_case(log@[b as int].call@, call@)
                    &&& forall|j: int|
                        0 <= j < i && same_ignoring_case((#[trigger] log@[j]).call@, call@)
                            ==> log@[j].start_utc <= log@[b as int].start_utc && (j > b
                            ==> log@[j].start_utc < log@[b as int].start_utc)
                },
                None => forall|j: int|
                    0 <= j < i ==> !same_ignoring_case((#[trigger] log@[j]).call@, call@),
            },
        decreases log@.len() - i,
    {
        if eq_ignore_case(log[i].call.as_str(), call) {
            match best {
                Some(b) => {
                    if log[i].start_utc >= log[b].start_utc {
                        best = Some(i);
                    }
                },
                None => {
                    best = Some(i);
                },
            }
        }
        i = i + 1;
    }
    best
}

fn fill_number(have: Option<u32>, offer: Option<u32>) -> (r: (Option<u32>, bool))
    ensures
        r.0 == or_offer(have, offer),
        r.1 == (have is None && offer is Some),
{
    if have.is_none() {
        (offer, offer.is_some())
    } else {
        (have, false)
    }
}

fn fill_grid(have: &Option<String>, offer: &Option<String>) -> (r: (Option<String>, bool))
    ensures
        r.1 == (has_no_grid(*have) && *offer is Some),
        r.0 == if r.1 {
            *offer
        } else {
            *have
        },
{
    let bare = match have {
        Some(g) => g.as_str().is_empty(),
        None => true,
    };
    if bare && offer.is_some() {
        (copy_text(offer), true)
    } else {
        (copy_text(have), false)
    }
}

fn fill_text(have: &String, offer: &Option<String>) -> (r: (String, bool))
    ensures
        r.0@ == filled(have@, opt_text(*offer)),
        r.1 == takes(have@, opt_text(*offer)),
{
    let mut t = have.clone();
    let changed = fill_blank(&mut t, as_text(offer));
    (t, changed)
}

fn fill_record(rec: &QsoRecord, info: &CallsignInfo) -> (r: (QsoRecord, bool))
    ensures
        record_filled(*rec, *info, r.0),
        r.1 == record_takes(*rec, *info),
{
    let (name, a) = fill_text(&rec.name, &info.name);
    let (qth, b) = fill_text(&rec.qth, &info.qth);
    let (state, c) = fill_text(&rec.state, &info.state);
    let (country, d) = fill_text(&rec.country, &info.country);
    let (grid, e) = fill_grid(&rec.grid, &info.grid);
    let (dxcc, f) = fill_number(rec.dxcc, info.dxcc);
    let (cq_zone, g) = fill_number(rec.cq_zone, info.cq_zone);
    let (itu_zone, h) = fill_number(rec.itu_zone, info.itu_zone);
    let whole = rec.duplicate();
    let out = QsoRecord { name, qth, state, country, grid, dxcc, cq_zone, itu_zone, ..whole };
    (out, a || b || c || d || e || f || g || h)
}

/// Merge a lookup into the open form if it is for that call, else into the
/// most recent contact with it, filling blank fields only. Returns whether the
/// log changed and so has to be stored.
#[verifier::rlimit(30)]
pub fn apply_callsign(
    info: CallsignInfo,
    net_log: &mut Vec<String>,
    cache: &mut CallsignCache,
    edit: &mut Option<LogEditForm>,
    log: &mut Vec<QsoRecord>,
) -> (changed: bool)
    requires
        old(cache).wf(),
    ensures
        texts(final(net_log)@) == with_line(texts(old(net_log)@), lookup_summary(info)),
        final(cache).wf(),
        forall|c: Seq<char>, x: CallsignInfo| #[trigger]
            final(cache).holds(c, x) == (if c == ascii_upper(info.call@) {
                x == info
            } else {
                old(cache).holds(c, x)
            }),
        form_is_for(*old(edit), info) ==> *final(edit) is Some && form_filled(
            (*old(edit))->0,
            info,
            (*final(edit))->0,
        ),
        !form_is_for(*old(edit), info) ==> *final(edit) == *old(edit),
        changed == (!form_is_for(*old(edit), info) && exists|i: int| #[trigger]
            is_latest_with(old(log)@, info.call@, i) && record_takes(old(log)@[i], info)),
        !changed ==> final(log)@ == old(log)@,
        changed ==> exists|i: int| #[trigger]
            is_latest_with(old(log)@, info.call@, i) && record_filled(
                old(log)@[i],
                info,
                final(log)@[i],
            ) && final(log)@ == old(log)@.update(i, final(log)@[i]),
{
    push_net_log(net_log, summary_line(&info));
    let mut merged = false;
    if let Some(f) = edit {
        let call = trimmed(f.call.as_str());
        if eq_ignore_case(call.as_str(), info.call.as_str()) {
            fill_blank(&mut f.name, as_text(&info.name));
            fill_blank(&mut f.qth, as_text(&info.qth));
            fill_blank(&mut f.grid, as_text(&info.grid));
            fill_blank(&mut f.state, as_text(&info.state));
            fill_blank(&mut f.country, as_text(&info.country));
            merged = true;
        }
    }
    let mut changed = false;
    if !merged {
        if let Some(i) = latest_with(log, info.call.as_str()) {
            let (rec, takes_some) = fill_record(&log[i], &info);
            changed = takes_some;
            proof {
                assert forall|j: int| #[trigger] is_latest_with(log@, info.call@, j) implies j == i by {
                    assert(log@[i as int].start_utc <= log@[j].start_utc);
                    assert(log@[j].start_utc <= log@[i as int].start_utc);
                }
                assert(is_latest_with(log@, info.call@, i as int));
            }
            if changed {
                log.set(i, rec);
                assert(log@ =~= old(log)@.update(i as int, log@[i as int]));
            }
        }
    }
    cache.insert(info);
    changed
}

/// A record with the sent mark of one service set.
pub open spec fn marked_sent(r: QsoRecord, target: UploadTarget) -> QsoRecord {
    match target {
        UploadTarget::Eqsl => QsoRecord { eqsl_sent: true, ..r },
        UploadTarget::QrzLogbook => QsoRecord { qrz_sent: true, ..r },
        UploadTarget::HamQth => QsoRecord { hamqth_sent: true, ..r },
        UploadTarget::ClubLog => QsoRecord { clublog_sent: true, ..r },
    }
}

/// The line that the network log shows for an upload.
pub open spec fn upload_line(label: Seq<char>, r: UploadResult) -> Seq<char> {
    label + " → "@ + (if r.ok {
        "OK"@
    } else {
        "FAIL"@
    }) + ": "@ + r.message@
}

/// Record an upload's reply under the service's `label`, and mark the contact
/// as sent where it succeeded. Returns whether the log has to be stored.
pub fn on_upload_result(
    r: &UploadResult,
    label: &str,
    net_log: &mut Vec<String>,
    log: &mut Vec<QsoRecord>,
) -> (changed: bool)
    ensures
        texts(final(net_log)@) == with_line(texts(old(net_log)@), upload_line(label@, *r)),
        changed == (r.ok && exists|i: int| #[trigger] first_with_id(old(log)@, r.qso_id, i)),
        !changed ==> final(log)@ == old(log)@,
        forall|i: int| #[trigger]
            first_with_id(old(log)@, r.qso_id, i) && r.ok ==> final(log)@ == old(log)@.update(
                i,
                marked_sent(old(log)@[i], r.target),
            ),
{
    let mut line = cat(label, " → ");
    line.append(if r.ok {
        "OK"
    } else {
        "FAIL"
    });
    line.append(": ");
    line.append(r.message.as_str());
    push_net_log(net_log, line);
    if r.ok {
        if let Some(i) = find_id(log, r.qso_id) {
            assert(first_with_id(old(log)@, r.qso_id, i as int));
            let mut rec = log[i].duplicate();
            match r.target {
                UploadTarget::Eqsl => {
                    rec.eqsl_sent = true;
                },
                UploadTarget::QrzLogbook => {
                    rec.qrz_sent = true;
                },
                UploadTarget::ClubLog => {
                    rec.clublog_sent = true;
                },
                UploadTarget::HamQth => {
                    rec.hamqth_sent = true;
                },
            }
            log.set(i, rec);
            return true;
        }
    }
    false
}

/// True when two moments are less than `within` seconds apart.
pub open spec fn near(a: i64, b: i64, within: int) -> bool {
    -within < a - b < within
}

fn is_near(a: i64, b: i64, within: i64) -> (r: bool)
    ensures
        r == near(a, b, within as int),
{
    let d: i128 = a as i128 - b as i128;
    -(within as i128) < d && d < within as i128
}

/// True when a confirmation is one of this contact: same call and band, same
/// mode where both name one, less than a day apart.
pub open spec fn confirms(q: QsoRecord, c: QsoRecord) -> bool {
    &&& same_ignoring_case(q.call@, c.call@)
    &&& same_ignoring_case(q.band@, c.band@)
    &&& q.mode@.len() == 0 || c.mode@.len() == 0 || same_ignoring_case(q.mode@, c.mode@)
    &&& near(q.start_utc, c.start_utc, 86_400)
}

/// A contact with a confirmation's marks added to its own.
pub open spec fn with_marks(q: QsoRecord, c: QsoRecord) -> QsoRecord {
    QsoRecord {
        lotw_rcvd: q.lotw_rcvd || c.lotw_rcvd,
        eqsl_rcvd: q.eqsl_rcvd || c.eqsl_rcvd,
        qsl_rcvd: q.qsl_rcvd || c.qsl_rcvd,
        ..q
    }
}

/// True when `i` is the first contact that `c` confirms.
pub open spec fn first_confirmed(log: Seq<QsoRecord>, c: QsoRecord, i: int) -> bool {
    0 <= i < log.len() && confirms(log[i], c) && forall|j: int|
        0 <= j < i ==> !confirms(#[trigger] log[j], c)
}

/// The log after one confirmation, which goes to the first contact it fits. A
/// confirmation without a call fits none.
pub open spec fn confirmed_by(log: Seq<QsoRecord>, c: QsoRecord) -> Seq<QsoRecord> {
    if !is_blank(c.call@) && exists|i: int| first_confirmed(log, c, i) {
        let i = choose|i: int| first_confirmed(log, c, i);
        log.update(i, with_marks(log[i], c))
    } else {
        log
    }
}

/// The log after a list of confirmations.
pub open spec fn confirmed_by_all(log: Seq<QsoRecord>, recs: Seq<QsoRecord>) -> Seq<QsoRecord>
    decreases recs.len(),
{
    if recs.len() == 0 {
        log
    } else {
        confirmed_by(confirmed_by_all(log, recs.drop_last()), recs.last())
    }
}

/// How many of a list of confirmations told something new.
pub open spec fn newly_confirmed(log: Seq<QsoRecord>, recs: Seq<QsoRecord>) -> nat
    decreases recs.len(),
{
    if recs.len() == 0 {
        0
    } else {
        let before = confirmed_by_all(log, recs.drop_last());
        newly_confirmed(log, recs.drop_last()) + if confirmed_by(before, recs.last()) != before {
            1nat
        } else {
            0nat
        }
    }
}

/// The line that the network log shows for a download of confirmations.
pub open spec fn confirmations_line(total: nat, matched: nat) -> Seq<char> {
    "Confirmations: "@ + dec(total) + " downloaded, "@ + dec(matched) + " newly confirmed"@
}

proof fn lemma_first_confirmed_unique(log: Seq<QsoRecord>, c: QsoRecord, i: int, j: int)
    requires
        first_confirmed(log, c, i),
        first_confirmed(log, c, j),
    ensures
        i == j,
{
    if i < j {
        assert(!confirms(log[i], c));
    }
    if j < i {
        assert(!confirms(log[j], c));
    }
}

fn find_confirmed(log: &Vec<QsoRecord>, c: &QsoRecord) -> (r: Option<usize>)
    ensures
        match r {
            Some(i) => first_confirmed(log@, *c, i as int),
            None => forall|j: int| 0 <= j < log@.len() ==> !confirms(#[trigger] log@[j], *c),
        },
{
    let mut i: usize = 0;
    while i < log.len()
        invariant
            i <= log@.len(),
            forall|j: int| 0 <= j < i ==> !confirms(#[trigger] log@[j], *c),
        decreases log@.len() - i,
    {
        let q = &log[i];
        if eq_ignore_case(q.call.as_str(), c.call.as_str()) && eq_ignore_case(
            q.band.as_str(),
            c.band.as_str(),
        ) && (q.mode.as_str().is_empty() || c.mode.as_str().is_empty() || eq_ignore_case(
            q.mode.as_str(),
            c.mode.as_str(),
        )) && is_near(q.start_utc, c.start_utc, 86_400) {
            return Some(i);
        }
        i = i + 1;
    }
    None
}

/// Match downloaded confirmations against the log and add their marks to the
/// contacts they fit. Returns whether the log has to be stored.
#[verifier::rlimit(30)]
pub fn apply_confirmations(
    recs: &Vec<QsoRecord>,
    net_log: &mut Vec<String>,
    log: &mut Vec<QsoRecord>,
) -> (changed: bool)
    ensures
        final(log)@ == confirmed_by_all(old(log)@, recs@),
        changed == (newly_confirmed(old(log)@, recs@) > 0),
        texts(final(net_log)@) == with_line(
            texts(old(net_log)@),
            confirmations_line(recs@.len(), newly_confirmed(old(log)@, recs@)),
        ),
{
    let mut matched: usize = 0;
    let mut k: usize = 0;
    assert(recs@.take(0).len() == 0);
    while k < recs.len()
        invariant
            k <= recs@.len(),
            matched <= k,
            log@ == confirmed_by_all(old(log)@, recs@.take(k as int)),
            matched == newly_confirmed(old(log)@, recs@.take(k as int)),
        decreases recs@.len() - k,
    {
        let ghost before = log@;
        let ghost upto = recs@.take(k + 1);
        assert(upto.drop_last() =~= recs@.take(k as int));
        assert(upto.last() == recs@[k as int]);
        let c = &recs[k];
        let mut news = false;
        if !blank(c.call.as_str()) {
            if let Some(i) = find_confirmed(log, c) {
                let mut rec = log[i].duplicate();
                news = (c.lotw_rcvd && !rec.lotw_rcvd) || (c.eqsl_rcvd && !rec.eqsl_rcvd) || (
                c.qsl_rcvd && !rec.qsl_rcvd);
                rec.lotw_rcvd = rec.lotw_rcvd || c.lotw_rcvd;
                rec.eqsl_rcvd = rec.eqsl_rcvd || c.eqsl_rcvd;
                rec.qsl_rcvd = rec.qsl_rcvd || c.qsl_rcvd;
                proof {
                    assert(first_confirmed(before, *c, i as int));
                    let n = choose|n: int| first_confirmed(before, *c, n);
                    lemma_first_confirmed_unique(before, *c, i as int, n);
                    assert(rec == with_marks(before[i as int], *c));
                }
                log.set(i, rec);
                assert(log@ == confirmed_by(before, *c));
                proof {
                    if news {
                        assert(log@[i as int] != before[i as int]);
                    } else {
                        assert(log@[i as int] == before[i as int]);
                        assert(log@ =~= before);
                    }
                }
            } else {
                assert(log@ == confirmed_by(before, *c));
            }
        }
        assert(log@ == confirmed_by(before, *c));
        assert(news == (log@ != before));
        if news {
            matched = matched + 1;
        }
        k = k + 1;
    }
    assert(recs@.take(recs@.len() as int) =~= recs@);
    let mut line = cat("Confirmations: ", decimal(recs.len() as u64).as_str());
    line.append(" downloaded, ");
    line.append(decimal(matched as u64).as_str());
    line.append(" newly confirmed");
    push_net_log(net_log, line);
    matched > 0
}

/// True when `b` is `a` with some confirmation marks added and none taken.
pub open spec fn only_marks_added(a: QsoRecord, b: QsoRecord) -> bool {
    &&& b == (QsoRecord {
        lotw_rcvd: b.lotw_rcvd,
        eqsl_rcvd: b.eqsl_rcvd,
        qsl_rcvd: b.qsl_rcvd,
        ..a
    })
    &&& a.lotw_rcvd ==> b.lotw_rcvd
    &&& a.eqsl_rcvd ==> b.eqsl_rcvd
    &&& a.qsl_rcvd ==> b.qsl_rcvd
}

/// Confirmations add marks and change nothing else: no contact is added,
/// dropped or moved, and no mark is taken back.
pub proof fn law_confirmations_only_add_marks(log: Seq<QsoRecord>, recs: Seq<QsoRecord>)
    ensures
        confirmed_by_all(log, recs).len() == log.len(),
        forall|i: int|
            0 <= i < log.len() ==> only_marks_added(
                log[i],
                #[trigger] confirmed_by_all(log, recs)[i],
            ),
    decreases recs.len(),
{
    if recs.len() > 0 {
        law_confirmations_only_add_marks(log, recs.drop_last());
        let mid = confirmed_by_all(log, recs.drop_last());
        let end = confirmed_by_all(log, recs);
        assert forall|i: int| 0 <= i < log.len() implies only_marks_added(
            log[i],
            #[trigger] end[i],
        ) by {
            assert(only_marks_added(log[i], mid[i]));
            assert(only_marks_added(mid[i], end[i]));
        }
    }
}

proof fn lemma_first_confirmed_stays(a: Seq<QsoRecord>, b: Seq<QsoRecord>, c: QsoRecord, i: int)
    requires
        a.len() == b.len(),
        forall|k: int| 0 <= k < a.len() ==> only_marks_added(a[k], #[trigger] b[k]),
    ensures
        first_confirmed(a, c, i) == first_confirmed(b, c, i),
{
    assert forall|k: int| 0 <= k < a.len() implies confirms(#[trigger] a[k], c) == confirms(
        b[k],
        c,
    ) by {
        assert(only_marks_added(a[k], b[k]));
    }
    if first_confirmed(a, c, i) {
        assert forall|j: int| 0 <= j < i implies !confirms(#[trigger] b[j], c) by {
            assert(!confirms(a[j], c));
        }
    }
    if first_confirmed(b, c, i) {
        assert forall|j: int| 0 <= j < i implies !confirms(#[trigger] a[j], c) by {
            assert(!confirms(b[j], c));
        }
    }
}

proof fn lemma_confirmation_settled(log: Seq<QsoRecord>, recs: Seq<QsoRecord>, k: int)
    requires
        0 <= k < recs.len(),
    ensures
        confirmed_by(confirmed_by_all(log, recs), recs[k]) == confirmed_by_all(log, recs),
    decreases recs.len(),
{
    let init = recs.drop_last();
    let mid = confirmed_by_all(log, init);
    let end = confirmed_by_all(log, recs);
    let c = recs[k];
    let d = recs.last();
    assert(end == confirmed_by(mid, d));
    assert forall|i: int| 0 <= i < mid.len() implies only_marks_added(mid[i], #[trigger] end[i]) by {
    }
    if k < init.len() {
        assert(init[k] == c);
        lemma_confirmation_settled(log, init, k);
    }
    if !is_blank(c.call@) && exists|i: int| first_confirmed(end, c, i) {
        let i = choose|i: int| first_confirmed(end, c, i);
        lemma_first_confirmed_stays(mid, end, c, i);
        assert(first_confirmed(mid, c, i));
        if k < init.len() {
            let n = choose|n: int| first_confirmed(mid, c, n);
            lemma_first_confirmed_unique(mid, c, i, n);
            assert(confirmed_by(mid, c) == mid.update(i, with_marks(mid[i], c)));
            assert(mid[i] == with_marks(mid[i], c));
            assert(only_marks_added(mid[i], end[i]));
            assert(end[i] == with_marks(end[i], c));
        } else {
            assert(c == d);
            let n = choose|n: int| first_confirmed(mid, d, n);
            lemma_first_confirmed_unique(mid, c, i, n);
            assert(end[i] == with_marks(mid[i], c));
            assert(end[i] == with_marks(end[i], c));
        }
        assert(end.update(i, with_marks(end[i], c)) =~= end);
    }
}

/// Downloading the same confirmations again confirms nothing new.
pub proof fn law_confirmations_settle(log: Seq<QsoRecord>, recs: Seq<QsoRecord>)
    ensures
        confirmed_by_all(confirmed_by_all(log, recs), recs) == confirmed_by_all(log, recs),
        newly_confirmed(confirmed_by_all(log, recs), recs) == 0,
{
    lemma_settled_prefix(log, recs, recs.len() as int);
    assert(recs.take(recs.len() as int) =~= recs);
}

proof fn lemma_settled_prefix(log: Seq<QsoRecord>, recs: Seq<QsoRecord>, k: int)
    requires
        0 <= k <= recs.len(),
    ensures
        confirmed_by_all(confirmed_by_all(log, recs), recs.take(k)) == confirmed_by_all(log, recs),
        newly_confirmed(confirmed_by_all(log, recs), recs.take(k)) == 0,
    decreases k,
{
    if k > 0 {
        lemma_settled_prefix(log, recs, k - 1);
        assert(recs.take(k).drop_last() =~= recs.take(k - 1));
        assert(recs.take(k).last() == recs[k - 1]);
        lemma_confirmation_settled(log, recs, k - 1);
    }
}

/// A mark that a contact has after a download and had not before comes from a
/// downloaded record with a call that carries that mark: of the same call and
/// band, of the same mode where both name one, and less than a day away.
pub proof fn law_a_mark_has_its_confirmation(log: Seq<QsoRecord>, recs: Seq<QsoRecord>, i: int)
    requires
        0 <= i < log.len(),
    ensures
        confirmed_by_all(log, recs)[i].lotw_rcvd && !log[i].lotw_rcvd ==> exists|k: int|
            0 <= k < recs.len() && (#[trigger] recs[k]).lotw_rcvd && !is_blank(recs[k].call@) &&
            same_ignoring_case(log[i].call@, recs[k].call@) && same_ignoring_case(log[i].band@, recs[k].band@) && (
            log[i].mode@.len() == 0 || recs[k].mode@.len() == 0 || same_ignoring_case(log[i].mode@, recs[k].mode@))
                && -86_400 < log[i].start_utc - recs[k].start_utc < 86_400,
        confirmed_by_all(log, recs)[i].eqsl_rcvd && !log[i].eqsl_rcvd ==> exists|k: int|
            0 <= k < recs.len() && (#[trigger] recs[k]).eqsl_rcvd && !is_blank(recs[k].call@) &&
            same_ignoring_case(log[i].call@, recs[k].call@) && same_ignoring_case(log[i].band@, recs[k].band@) && (
            log[i].mode@.len() == 0 || recs[k].mode@.len() == 0 || same_ignoring_case(log[i].mode@, recs[k].mode@))
                && -86_400 < log[i].start_utc - recs[k].start_utc < 86_400,
        confirmed_by_all(log, recs)[i].qsl_rcvd && !log[i].qsl_rcvd ==> exists|k: int|
            0 <= k < recs.len() && (#[trigger] recs[k]).qsl_rcvd && !is_blank(recs[k].call@) &&
            same_ignoring_case(log[i].call@, recs[k].call@) && same_ignoring_case(log[i].band@, recs[k].band@) && (
            log[i].mode@.len() == 0 || recs[k].mode@.len() == 0 || same_ignoring_case(log[i].mode@, recs[k].mode@))
                && -86_400 < log[i].start_utc - recs[k].start_utc < 86_400,
    decreases recs.len(),
{
    if recs.len() > 0 {
        let init = recs.drop_last();
        let c = recs.last();
        law_a_mark_has_its_confirmation(log, init, i);
        law_confirmations_only_add_marks(log, init);
        let mid = confirmed_by_all(log, init);
        let end = confirmed_by_all(log, recs);
        assert(only_marks_added(log[i], mid[i]));
        assert(recs[recs.len() - 1] == c);
        if end[i].lotw_rcvd && !log[i].lotw_rcvd {
            if mid[i].lotw_rcvd {
                let k = choose|k: int|
                    0 <= k < init.len() && (#[trigger] init[k]).lotw_rcvd && !is_blank(init[k].call@) &&
            same_ignoring_case(log[i].call@, init[k].call@) && same_ignoring_case(log[i].band@, init[k].band@) && (
            log[i].mode@.len() == 0 || init[k].mode@.len() == 0 || same_ignoring_case(log[i].mode@, init[k].mode@))
                && -86_400 < log[i].start_utc - init[k].start_utc < 86_400;
                assert(recs[k] == init[k]);
            } else {
                assert(end[i] != mid[i]);
                let n = choose|n: int| first_confirmed(mid, c, n);
                assert(n == i);
                assert(confirms(mid[i], c));
                assert(c.lotw_rcvd);
            }
        }
        if end[i].eqsl_rcvd && !log[i].eqsl_rcvd {
            if mid[i].eqsl_rcvd {
                let k = choose|k: int|
                    0 <= k < init.len() && (#[trigger] init[k]).eqsl_rcvd && !is_blank(init[k].call@) &&
            same_ignoring_case(log[i].call@, init[k].call@) && same_ignoring_case(log[i].band@, init[k].band@) && (
            log[i].mode@.len() == 0 || init[k].mode@.len() == 0 || same_ignoring_case(log[i].mode@, init[k].mode@))
                && -86_400 < log[i].start_utc - init[k].start_utc < 86_400;
                assert(recs[k] == init[k]);
            } else {
                assert(end[i] != mid[i]);
                let n = choose|n: int| first_confirmed(mid, c, n);
                assert(n == i);
                assert(confirms(mid[i], c));
                assert(c.eqsl_rcvd);
            }
        }
        if end[i].qsl_rcvd && !log[i].qsl_rcvd {
            if mid[i].qsl_rcvd {
                let k = choose|k: int|
                    0 <= k < init.len() && (#[trigger] init[k]).qsl_rcvd && !is_blank(init[k].call@) &&
            same_ignoring_case(log[i].call@, init[k].call@) && same_ignoring_case(log[i].band@, init[k].band@) && (
            log[i].mode@.len() == 0 || init[k].mode@.len() == 0 || same_ignoring_case(log[i].mode@, init[k].mode@))
                && -86_400 < log[i].start_utc - init[k].start_utc < 86_400;
                assert(recs[k] == init[k]);
            } else {
                assert(end[i] != mid[i]);
                let n = choose|n: int| first_confirmed(mid, c, n);
                assert(n == i);
                assert(confirms(mid[i], c));
                assert(c.qsl_rcvd);
            }
        }
    }
}

/// A contact that no downloaded record names by call, band and time stays as it
/// is; so does one on a band that none of them is on.
pub proof fn law_other_contacts_stay_unconfirmed(log: Seq<QsoRecord>, recs: Seq<QsoRecord>, i: int)
    requires
        0 <= i < log.len(),
        forall|k: int|
            0 <= k < recs.len() ==> !(same_ignoring_case(log[i].call@, (#[trigger] recs[k]).call@)
                && same_ignoring_case(log[i].band@, recs[k].band@) && -86_400 < log[i].start_utc
                - recs[k].start_utc < 86_400),
    ensures
        confirmed_by_all(log, recs)[i] == log[i],
    decreases recs.len(),
{
    if recs.len() > 0 {
        let init = recs.drop_last();
        let c = recs.last();
        assert forall|k: int| 0 <= k < init.len() implies !(same_ignoring_case(
            log[i].call@,
            (#[trigger] init[k]).call@,
        ) && same_ignoring_case(log[i].band@, init[k].band@) && -86_400 < log[i].start_utc
            - init[k].start_utc < 86_400) by {
            assert(init[k] == recs[k]);
        }
        law_other_contacts_stay_unconfirmed(log, init, i);
        law_confirmations_only_add_marks(log, init);
        let mid = confirmed_by_all(log, init);
        assert(recs[recs.len() - 1] == c);
        assert(!confirms(mid[i], c));
    }
}

/// A confirmation gives its marks to the first contact that it is of, keeps
/// the marks that contact has, and leaves every other contact alone.
pub proof fn law_a_confirmation_reaches_its_contact(log: Seq<QsoRecord>, c: QsoRecord, i: int)
    requires
        0 <= i < log.len(),
        !is_blank(c.call@),
        same_ignoring_case(log[i].call@, c.call@) && same_ignoring_case(log[i].band@, c.band@) && (
            log[i].mode@.len() == 0 || c.mode@.len() == 0 || same_ignoring_case(log[i].mode@, c.mode@))
                && -86_400 < log[i].start_utc - c.start_utc < 86_400,
        forall|j: int|
            0 <= j < i ==> !(same_ignoring_case((#[trigger] log[j]).call@, c.call@)
                && same_ignoring_case(log[j].band@, c.band@) && (log[j].mode@.len() == 0
                || c.mode@.len() == 0 || same_ignoring_case(log[j].mode@, c.mode@)) && -86_400
                < log[j].start_utc - c.start_utc < 86_400),
    ensures
        confirmed_by_all(log, seq![c])[i].lotw_rcvd == (log[i].lotw_rcvd || c.lotw_rcvd),
        confirmed_by_all(log, seq![c])[i].eqsl_rcvd == (log[i].eqsl_rcvd || c.eqsl_rcvd),
        confirmed_by_all(log, seq![c])[i].qsl_rcvd == (log[i].qsl_rcvd || c.qsl_rcvd),
        forall|j: int|
            0 <= j < log.len() && j != i ==> #[trigger] confirmed_by_all(log, seq![c])[j] == log[j],
        confirmed_by_all(log, seq![c]).len() == log.len(),
        newly_confirmed(log, seq![c]) == if (c.lotw_rcvd && !log[i].lotw_rcvd) || (c.eqsl_rcvd
            && !log[i].eqsl_rcvd) || (c.qsl_rcvd && !log[i].qsl_rcvd) {
            1nat
        } else {
            0nat
        },
{
    let one = seq![c];
    assert(one.drop_last() =~= Seq::<QsoRecord>::empty());
    assert(confirmed_by_all(log, one.drop_last()) == log);
    assert(newly_confirmed(log, one.drop_last()) == 0);
    assert forall|j: int| 0 <= j < i implies !confirms(#[trigger] log[j], c) by {
    }
    assert(first_confirmed(log, c, i));
    let n = choose|n: int| first_confirmed(log, c, n);
    lemma_first_confirmed_unique(log, c, i, n);
    let end = confirmed_by(log, c);
    if (c.lotw_rcvd && !log[i].lotw_rcvd) || (c.eqsl_rcvd && !log[i].eqsl_rcvd) || (c.qsl_rcvd
        && !log[i].qsl_rcvd) {
        assert(end[i] != log[i]);
    } else {
        assert(end[i] == log[i]);
        assert(end =~= log);
    }
}

/// Two downloads one after the other come to the same as one of both.
pub proof fn law_downloads_add_up(log: Seq<QsoRecord>, a: Seq<QsoRecord>, b: Seq<QsoRecord>)
    ensures
        confirmed_by_all(confirmed_by_all(log, a), b) == confirmed_by_all(log, a + b),
        newly_confirmed(log, a) + newly_confirmed(confirmed_by_all(log, a), b) == newly_confirmed(
            log,
            a + b,
        ),
    decreases b.len(),
{
    if b.len() == 0 {
        assert(a + b =~= a);
    } else {
        assert((a + b).drop_last() =~= a + b.drop_last());
        assert((a + b).last() == b.last());
        law_downloads_add_up(log, a, b.drop_last());
    }
}

/// Something counts as newly confirmed exactly where some contact has a mark
/// that it had not.
pub proof fn law_news_is_a_new_mark(log: Seq<QsoRecord>, recs: Seq<QsoRecord>)
    ensures
        newly_confirmed(log, recs) <= recs.len(),
        (newly_confirmed(log, recs) > 0) == exists|i: int|
            0 <= i < log.len() && #[trigger] confirmed_by_all(log, recs)[i] != log[i],
    decreases recs.len(),
{
    let end = confirmed_by_all(log, recs);
    law_confirmations_only_add_marks(log, recs);
    if recs.len() > 0 {
        let init = recs.drop_last();
        let mid = confirmed_by_all(log, init);
        law_news_is_a_new_mark(log, init);
        law_confirmations_only_add_marks(log, init);
        if end != mid {
            let n = choose|n: int| first_confirmed(mid, recs.last(), n);
            assert(end[n] != mid[n]) by {
                if end[n] == mid[n] {
                    assert(end =~= mid);
                }
            }
            assert(only_marks_added(log[n], mid[n]));
            assert(end[n] != log[n]);
        } else if newly_confirmed(log, init) > 0 {
            let i = choose|i: int| 0 <= i < log.len() && #[trigger] mid[i] != log[i];
            assert(end[i] != log[i]);
        } else {
            assert(newly_confirmed(log, recs) == 0);
            assert forall|i: int| 0 <= i < log.len() implies #[trigger] end[i] == log[i] by {
                assert(mid[i] == log[i]);
            }
        }
    }
}

/// An upload that went well sets the mark of its own service and nothing else.
pub proof fn law_an_upload_marks_its_service(r: QsoRecord, t: UploadTarget)
    ensures
        marked_sent(r, t).eqsl_sent == (r.eqsl_sent || t == UploadTarget::Eqsl),
        marked_sent(r, t).qrz_sent == (r.qrz_sent || t == UploadTarget::QrzLogbook),
        marked_sent(r, t).hamqth_sent == (r.hamqth_sent || t == UploadTarget::HamQth),
        marked_sent(r, t).clublog_sent == (r.clublog_sent || t == UploadTarget::ClubLog),
        marked_sent(r, t) == (QsoRecord {
            eqsl_sent: marked_sent(r, t).eqsl_sent,
            qrz_sent: marked_sent(r, t).qrz_sent,
            hamqth_sent: marked_sent(r, t).hamqth_sent,
            clublog_sent: marked_sent(r, t).clublog_sent,
            ..r
        }),
{
}

/// What a lookup found goes into the blank fields of an open form, each into
/// its own; what the operator has typed, and everything a lookup does not know,
/// stays.
pub proof fn law_a_lookup_fills_the_blank_fields_of_a_form(
    f: LogEditForm,
    info: CallsignInfo,
    g: LogEditForm,
)
    requires
        form_filled(f, info, g),
    ensures
        g.name@ == (match info.name {
            Some(n) if is_blank(f.name@) && !is_blank(n@) => trim(n@),
            _ => f.name@,
        }),
        g.qth@ == (match info.qth {
            Some(n) if is_blank(f.qth@) && !is_blank(n@) => trim(n@),
            _ => f.qth@,
        }),
        g.grid@ == (match info.grid {
            Some(n) if is_blank(f.grid@) && !is_blank(n@) => trim(n@),
            _ => f.grid@,
        }),
        g.state@ == (match info.state {
            Some(n) if is_blank(f.state@) && !is_blank(n@) => trim(n@),
            _ => f.state@,
        }),
        g.country@ == (match info.country {
            Some(n) if is_blank(f.country@) && !is_blank(n@) => trim(n@),
            _ => f.country@,
        }),
        g.id == f.id,
        g.seed_utc == f.seed_utc,
        g.base == f.base,
        g.call == f.call,
        g.freq_mhz == f.freq_mhz,
        g.mode == f.mode,
        g.rst_sent == f.rst_sent,
        g.rst_rcvd == f.rst_rcvd,
        g.date == f.date,
        g.time == f.time,
        g.tx_pwr == f.tx_pwr,
        g.contest_id == f.contest_id,
        g.srx == f.srx,
        g.stx == f.stx,
        g.comment == f.comment,
{
}

/// What a lookup found goes into the blank fields of a contact, each into its
/// own, and it changes nothing else.
pub proof fn law_a_lookup_fills_the_blank_fields_of_a_contact(
    r: QsoRecord,
    info: CallsignInfo,
    s: QsoRecord,
)
    requires
        record_filled(r, info, s),
    ensures
        s.name@ == (match info.name {
            Some(n) if is_blank(r.name@) && !is_blank(n@) => trim(n@),
            _ => r.name@,
        }),
        s.qth@ == (match info.qth {
            Some(n) if is_blank(r.qth@) && !is_blank(n@) => trim(n@),
            _ => r.qth@,
        }),
        s.state@ == (match info.state {
            Some(n) if is_blank(r.state@) && !is_blank(n@) => trim(n@),
            _ => r.state@,
        }),
        s.country@ == (match info.country {
            Some(n) if is_blank(r.country@) && !is_blank(n@) => trim(n@),
            _ => r.country@,
        }),
        (r.grid matches Some(g) && g@.len() > 0) ==> s.grid == r.grid,
        (r.grid is None || r.grid->0@.len() == 0) && info.grid is Some ==> s.grid == info.grid,
        info.grid is None ==> s.grid == r.grid,
        s.dxcc == if r.dxcc is Some {
            r.dxcc
        } else {
            info.dxcc
        },
        s.cq_zone == if r.cq_zone is Some {
            r.cq_zone
        } else {
            info.cq_zone
        },
        s.itu_zone == if r.itu_zone is Some {
            r.itu_zone
        } else {
            info.itu_zone
        },
        s.id == r.id,
        s.call == r.call,
        s.freq_hz == r.freq_hz,
        s.band == r.band,
        s.mode == r.mode,
        s.rst_sent == r.rst_sent,
        s.rst_rcvd == r.rst_rcvd,
        s.start_utc == r.start_utc,
        s.end_utc == r.end_utc,
        s.my_call == r.my_call,
        s.my_grid == r.my_grid,
        s.tx_pwr == r.tx_pwr,
        s.contest_id == r.contest_id,
        s.srx == r.srx,
        s.stx == r.stx,
        s.comment == r.comment,
        s.confirmed() == r.confirmed() && s.sent_anywhere() == r.sent_anywhere(),
        !record_takes(r, info) ==> s.name@ == r.name@ && s.qth@ == r.qth@ && s.state@ == r.state@
            && s.country@ == r.country@ && s.grid == r.grid && s.dxcc == r.dxcc && s.cq_zone
            == r.cq_zone && s.itu_zone == r.itu_zone,
{
}

/// The contact that a lookup is for is the latest one with its call: no other
/// with that call started later, and of several that started together it is the
/// one logged last.
pub proof fn law_a_lookup_is_for_the_latest_contact(
    log: Seq<QsoRecord>,
    call: Seq<char>,
    i: int,
    j: int,
)
    requires
        is_latest_with(log, call, i),
        0 <= j < log.len(),
        same_ignoring_case(log[j].call@, call),
    ensures
        0 <= i < log.len(),
        same_ignoring_case(log[i].call@, call),
        log[j].start_utc <= log[i].start_utc,
        log[j].start_utc == log[i].start_utc ==> j <= i,
        is_latest_with(log, call, j) ==> j == i,
{
    if is_latest_with(log, call, j) {
        assert(log[i].start_utc <= log[j].start_utc);
    }
}

/// The line about a lookup names the station, then what is known of it.
pub proof fn law_a_lookup_line_tells_what_is_known(info: CallsignInfo)
    ensures
        info.call@.is_prefix_of(lookup_summary(info)),
        info.name is None && info.qth is None && info.country is None ==> lookup_summary(info)
            == info.call@,
        info.name is Some && info.qth is None && info.country is None ==> lookup_summary(info)
            == info.call@ + " — "@ + info.name->0@,
        info.name is None && info.qth is Some && info.country is None ==> lookup_summary(info)
            == info.call@ + ", "@ + info.qth->0@,
        info.name is None && info.qth is None && info.country is Some ==> lookup_summary(info)
            == info.call@ + " ("@ + info.country->0@ + ")"@,
        info.name is Some && info.qth is Some && info.country is None ==> lookup_summary(info)
            == info.call@ + " — "@ + info.name->0@ + ", "@ + info.qth->0@,
{
    let t = lookup_summary(info);
    assert(info.call@ =~= t.subrange(0, info.call@.len() as int));
    if info.name is None && info.qth is None && info.country is None {
        assert(t =~= info.call@);
    }
    if info.name is Some && info.qth is None && info.country is None {
        assert(t =~= info.call@ + " — "@ + info.name->0@);
    }
    if info.name is None && info.qth is Some && info.country is None {
        assert(t =~= info.call@ + ", "@ + info.qth->0@);
    }
    if info.name is None && info.qth is None && info.country is Some {
        assert(t =~= info.call@ + " ("@ + info.country->0@ + ")"@);
    }
    if info.name is Some && info.qth is Some && info.country is None {
        assert(t =~= info.call@ + " — "@ + info.name->0@ + ", "@ + info.qth->0@);
    }
}

/// The line about an upload names the service, how it went and what it said.
pub proof fn law_an_upload_line_tells_how_it_went(label: Seq<char>, r: UploadResult)
    ensures
        r.ok ==> upload_line(label, r) == label + " → "@ + "OK"@ + ": "@ + r.message@,
        !r.ok ==> upload_line(label, r) == label + " → "@ + "FAIL"@ + ": "@ + r.message@,
{
}

/// The line about a download gives how many came and how many were news, in that
/// order.
pub proof fn law_a_download_line_counts_both(total: nat, matched: nat)
    ensures
        confirmations_line(total, matched) == "Confirmations: "@ + dec(total) + " downloaded, "@
            + dec(matched) + " newly confirmed"@,
{
}

/// Two moments are near each other however they are ordered, by less than the
/// limit.
pub proof fn law_near_is_less_than_the_limit(a: i64, b: i64, within: int)
    ensures
        near(a, b, within) == near(b, a, within),
        within > 0 ==> near(a, a, within),
        a - b >= within ==> !near(a, b, within),
        0 <= a - b < within ==> near(a, b, within),
{
}

/// A lookup finds a contact wherever the log has one with its call.
pub proof fn law_a_worked_station_has_a_latest_contact(log: Seq<QsoRecord>, call: Seq<char>, j: int)
    requires
        0 <= j < log.len(),
        same_ignoring_case(log[j].call@, call),
    ensures
        exists|i: int| is_latest_with(log, call, i),
    decreases log.len(),
{
    let rest = log.drop_last();
    let n = log.len() - 1;
    let last = same_ignoring_case(log[n].call@, call);
    if forall|k: int| 0 <= k < n ==> !same_ignoring_case((#[trigger] log[k]).call@, call) {
        assert(j == n);
        assert(is_latest_with(log, call, n));
    } else {
        let k: int = choose|k: int|
            0 <= k < n && same_ignoring_case((#[trigger] log[k]).call@, call);
        assert(rest[k] == log[k]);
        law_a_worked_station_has_a_latest_contact(rest, call, k);
        let i: int = choose|i: int| is_latest_with(rest, call, i);
        assert(rest[i] == log[i]);
        if last && log[n].start_utc >= log[i].start_utc {
            assert forall|m: int|
                0 <= m < log.len() && same_ignoring_case(
                    (#[trigger] log[m]).call@,
                    call,
                ) implies log[m].start_utc <= log[n].start_utc && (m > n ==> log[m].start_utc
                < log[n].start_utc) by {
                if m < n {
                    assert(rest[m] == log[m]);
                }
            }
            assert(is_latest_with(log, call, n));
        } else {
            assert forall|m: int|
                0 <= m < log.len() && same_ignoring_case(
                    (#[trigger] log[m]).call@,
                    call,
                ) implies log[m].start_utc <= log[i].start_utc && (m > i ==> log[m].start_utc
                < log[i].start_utc) by {
                if m < n {
                    assert(rest[m] == log[m]);
                }
            }
            assert(is_latest_with(log, call, i));
        }
    }
}

} // verus!
