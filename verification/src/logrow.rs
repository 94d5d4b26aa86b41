//! What the logbook list shows of a contact and what its buttons do.

use vstd::prelude::*;

use crate::clock::{hm_text, time_str};
use crate::form::{opt_report, LogEditForm};
use crate::ink::Ink;
use crate::logview::LogGroup;
use crate::net::{configured_upload_targets, LookupProvider, NetworkConfig, UploadTarget};
use crate::qso::{find_id, first_with_id, QsoRecord};
use crate::text::{
    blank, cat, dec, decimal, decimal_int, is_blank, join, joined, same, texts, trim, trimmed,
};

verus! {

/// What the operator pressed on a row.
#[derive(Clone, Copy, PartialEq, Eq, Structural, Debug)]
pub enum RowAction {
    Edit(u64),
    Delete(u64),
    Upload(u64),
}

/// The mark in a row's confirmation column.
pub open spec fn qsl_mark_text(r: QsoRecord) -> Seq<char> {
    if r.confirmed() {
        "✓"@
    } else if r.sent_anywhere() {
        "↑"@
    } else {
        ""@
    }
}

/// The confirmation column: a green tick when confirmed, a dim arrow when only
/// uploaded, else nothing.
pub fn qsl_mark(r: &QsoRecord) -> (m: (&'static str, Ink))
    ensures
        m.0@ == qsl_mark_text(*r),
        m.1 == if r.confirmed() {
            Ink::Green
        } else if r.sent_anywhere() {
            Ink::Gray(140)
        } else {
            Ink::Gray(150)
        },
{
    if r.is_confirmed() {
        ("✓", Ink::Green)
    } else if r.lotw_sent || r.eqsl_sent || r.qrz_sent || r.hamqth_sent || r.clublog_sent {
        ("↑", Ink::Gray(140))
    } else {
        ("", Ink::Gray(150))
    }
}

/// One name, where its mark is set.
pub open spec fn tip_part(on: bool, name: Seq<char>) -> Seq<Seq<char>> {
    if on {
        seq![name]
    } else {
        seq![]
    }
}

/// Every service that has the contact, confirmations first.
pub open spec fn qsl_tip_parts(r: QsoRecord) -> Seq<Seq<char>> {
    tip_part(r.lotw_rcvd, "LoTW ✓"@) + tip_part(r.eqsl_rcvd, "eQSL ✓"@) + tip_part(
        r.qsl_rcvd,
        "card ✓"@,
    ) + tip_part(r.lotw_sent, "LoTW ↑"@) + tip_part(r.eqsl_sent, "eQSL ↑"@) + tip_part(
        r.qrz_sent,
        "QRZ ↑"@,
    ) + tip_part(r.hamqth_sent, "HamQTH ↑"@) + tip_part(r.clublog_sent, "Club Log ↑"@)
}

fn push_tip(parts: &mut Vec<String>, on: bool, name: &str)
    ensures
        texts(final(parts)@) == texts(old(parts)@) + tip_part(on, name@),
{
    if on {
        parts.push(name.to_owned());
    }
    assert(texts(parts@) =~= texts(old(parts)@) + tip_part(on, name@));
}

/// The hover text of the confirmation column.
pub fn qsl_tip(r: &QsoRecord) -> (t: String)
    ensures
        t@ == joined(qsl_tip_parts(*r), ", "@),
{
    let mut parts: Vec<String> = Vec::new();
    assert(texts(parts@) =~= Seq::empty());
    push_tip(&mut parts, r.lotw_rcvd, "LoTW ✓");
    assert(texts(parts@) =~= tip_part(r.lotw_rcvd, "LoTW ✓"@));
    push_tip(&mut parts, r.eqsl_rcvd, "eQSL ✓");
    push_tip(&mut parts, r.qsl_rcvd, "card ✓");
    push_tip(&mut parts, r.lotw_sent, "LoTW ↑");
    push_tip(&mut parts, r.eqsl_sent, "eQSL ↑");
    push_tip(&mut parts, r.qrz_sent, "QRZ ↑");
    push_tip(&mut parts, r.hamqth_sent, "HamQTH ↑");
    push_tip(&mut parts, r.clublog_sent, "Club Log ↑");
    join(&parts, ", ")
}

/// A report, or a dash where there is none.
pub open spec fn report_or_dash(n: Option<i32>) -> Seq<char> {
    if n is Some {
        opt_report(n)
    } else {
        "–"@
    }
}

fn report_text(n: Option<i32>) -> (t: String)
    ensures
        t@ == report_or_dash(n),
{
    match n {
        Some(v) => decimal_int(v as i64),
        None => "–".to_owned(),
    }
}

/// The reports column: sent, a slash, received.
pub fn rst_text(r: &QsoRecord) -> (t: String)
    ensures
        t@ == report_or_dash(r.rst_sent) + "/"@ + report_or_dash(r.rst_rcvd),
{
    let mut t = report_text(r.rst_sent);
    t.append("/");
    t.append(report_text(r.rst_rcvd).as_str());
    t
}

/// The height of every item of the list, in thousandths of a point and without
/// the spacing between items: what can be pressed, but no less than a row's own
/// height, then the margins of its frame and the gap behind it.
pub fn row_height(interact: u64) -> (h: u64)
    requires
        interact <= u64::MAX - 12_000,
    ensures
        h == 12_000 + (if interact < 22_000 {
            22_000
        } else {
            interact as int
        }),
{
    if interact < 22_000 {
        34_000
    } else {
        interact + 12_000
    }
}

/// The line beside a day's date: first and last time, and the contacts.
pub fn log_day_header(g: &LogGroup) -> (t: String)
    requires
        g.start <= g.end,
    ensures
        t@ == hm_text(g.oldest as int) + "–"@ + hm_text(g.newest as int) + " UTC · "@ + dec(
            (g.end - g.start) as nat,
        ) + " QSO"@,
{
    let mut t = time_str(g.oldest);
    t.append("–");
    t.append(time_str(g.newest).as_str());
    t.append(" UTC · ");
    t.append(decimal((g.end - g.start) as u64).as_str());
    t.append(" QSO");
    t
}

/// What the buttons of one row add up to. Deleting goes ahead of editing, and
/// editing ahead of uploading, which needs somewhere to upload to.
pub fn row_action(
    id: u64,
    delete: bool,
    edit: bool,
    upload: bool,
    targets: usize,
) -> (a: Option<RowAction>)
    ensures
        a == if delete {
            Some(RowAction::Delete(id))
        } else if edit {
            Some(RowAction::Edit(id))
        } else if upload && targets > 0 {
            Some(RowAction::Upload(id))
        } else {
            None
        },
{
    if delete {
        Some(RowAction::Delete(id))
    } else if edit {
        Some(RowAction::Edit(id))
    } else if upload && targets > 0 {
        Some(RowAction::Upload(id))
    } else {
        None
    }
}

/// The records of a log whose id is not `id`, in their order.
pub open spec fn without_id(log: Seq<QsoRecord>, id: u64) -> Seq<QsoRecord>
    decreases log.len(),
{
    if log.len() == 0 {
        Seq::empty()
    } else if log.last().id == id {
        without_id(log.drop_last(), id)
    } else {
        without_id(log.drop_last(), id).push(log.last())
    }
}

/// Drops every record with this id.
pub fn delete_id(log: &mut Vec<QsoRecord>, id: u64)
    ensures
        final(log)@ == without_id(old(log)@, id),
{
    let mut kept: Vec<QsoRecord> = Vec::new();
    let mut i: usize = 0;
    assert(log@.take(0).len() == 0);
    while i < log.len()
        invariant
            i <= log@.len(),
            log@ == old(log)@,
            kept@ == without_id(log@.take(i as int), id),
        decreases log@.len() - i,
    {
        assert(log@.take(i + 1).drop_last() =~= log@.take(i as int));
        if log[i].id != id {
            kept.push(log[i].duplicate());
        }
        i = i + 1;
    }
    assert(log@.take(log@.len() as int) =~= log@);
    *log = kept;
}

/// Deleting takes out the records with the id and no others.
pub proof fn law_delete_takes_only_the_id(log: Seq<QsoRecord>, id: u64, r: QsoRecord)
    ensures
        without_id(log, id).contains(r) == (log.contains(r) && r.id != id),
    decreases log.len(),
{
    if log.len() > 0 {
        let init = log.drop_last();
        law_delete_takes_only_the_id(init, id, r);
        assert(log == init.push(log.last()));
        let rest = without_id(init, id);
        if log.contains(r) {
            let i = choose|i: int| 0 <= i < log.len() && log[i] == r;
            if i < init.len() {
                assert(init[i] == r);
            }
        }
        if init.contains(r) {
            let i = choose|i: int| 0 <= i < init.len() && init[i] == r;
            assert(log[i] == r);
        }
        assert(log[log.len() - 1] == log.last());
        if log.last().id != id {
            let all = rest.push(log.last());
            if rest.contains(r) {
                let i = choose|i: int| 0 <= i < rest.len() && rest[i] == r;
                assert(all[i] == r);
            }
            if all.contains(r) {
                let i = choose|i: int| 0 <= i < all.len() && all[i] == r;
                if i < rest.len() {
                    assert(rest[i] == r);
                }
            }
            assert(all[rest.len() as int] == log.last());
        }
    }
}

/// What is left to do once a row's action was carried out on the log.
#[derive(Debug)]
pub enum AfterRow {
    /// Nothing happened.
    Nothing,
    /// The log changed and has to be stored.
    Store,
    /// The record at this position is to be opened in the form.
    Open(usize),
    /// The record at this position is to be sent to these services.
    Send(usize, Vec<UploadTarget>),
}

/// Carries out what was pressed on a row.
pub fn apply_row_action(
    action: Option<RowAction>,
    log: &mut Vec<QsoRecord>,
    cfg: &NetworkConfig,
) -> (after: AfterRow)
    ensures
        match action {
            Some(RowAction::Delete(id)) => after is Store && final(log)@ == without_id(
                old(log)@,
                id,
            ),
            Some(RowAction::Edit(id)) => {
                &&& final(log)@ == old(log)@
                &&& match after {
                    AfterRow::Open(i) => first_with_id(old(log)@, id, i as int),
                    AfterRow::Nothing => forall|j: int|
                        0 <= j < old(log)@.len() ==> #[trigger] old(log)@[j].id != id,
                    _ => false,
                }
            },
            Some(RowAction::Upload(id)) => {
                &&& final(log)@ == old(log)@
                &&& match after {
                    AfterRow::Send(i, t) => first_with_id(old(log)@, id, i as int) && t@
                        == crate::net::configured(*cfg),
                    AfterRow::Nothing => forall|j: int|
                        0 <= j < old(log)@.len() ==> #[trigger] old(log)@[j].id != id,
                    _ => false,
                }
            },
            None => after is Nothing && final(log)@ == old(log)@,
        },
{
    match action {
        Some(RowAction::Delete(id)) => {
            delete_id(log, id);
            AfterRow::Store
        },
        Some(RowAction::Edit(id)) => match find_id(log, id) {
            Some(i) => AfterRow::Open(i),
            None => AfterRow::Nothing,
        },
        Some(RowAction::Upload(id)) => match find_id(log, id) {
            Some(i) => AfterRow::Send(i, configured_upload_targets(cfg)),
            None => AfterRow::Nothing,
        },
        None => AfterRow::Nothing,
    }
}

/// What the entry form asks of the callsign lookup: pressing the button needs
/// a provider, leaving the call field needs auto-lookup too; a blank call asks
/// nothing.
pub fn form_lookup(
    form: &LogEditForm,
    cfg: &NetworkConfig,
    pressed: bool,
    left_field: bool,
) -> (call: Option<String>)
    ensures
        call is Some == (cfg.lookup_provider != LookupProvider::Off && !is_blank(form.call@) && (
        pressed || (left_field && cfg.auto_lookup))),
        call matches Some(c) ==> c@ == trim(form.call@),
{
    if cfg.lookup_provider != LookupProvider::Off && !blank(form.call.as_str()) && (pressed || (
    left_field && cfg.auto_lookup)) {
        Some(trimmed(form.call.as_str()))
    } else {
        None
    }
}

/// The form's warning that the station was worked before on its band, given
/// whether the log says so.
pub fn dupe_warning(form: &LogEditForm, band: &str, worked: bool) -> (t: Option<String>)
    ensures
        t is Some == (band@.len() > 0 && !is_blank(form.call@) && worked),
        t matches Some(s) ==> s@ == "⚠ WORKED BEFORE ("@ + band@ + ")"@,
{
    if !band.is_empty() && !blank(form.call.as_str()) && worked {
        let mut t = cat("⚠ WORKED BEFORE (", band);
        t.append(")");
        Some(t)
    } else {
        None
    }
}

/// The operator's locator: the engine's where it has one, else the one in the
/// settings being edited.
pub fn my_grid(engine: Option<&str>, edited: &str) -> (g: String)
    ensures
        g@ == match engine {
            Some(s) if s@.len() > 0 => s@,
            _ => edited@,
        },
{
    match engine {
        Some(s) => if !s.is_empty() {
            s.to_owned()
        } else {
            edited.to_owned()
        },
        None => edited.to_owned(),
    }
}

/// What is derived from the log, each with the length of the log it was
/// derived from.
#[derive(Debug)]
pub struct LogCaches {
    pub awards: Option<usize>,
    pub heat: Option<usize>,
    pub worked: Option<(usize, Vec<String>)>,
    pub index: Option<usize>,
}

/// The names of a list, each once, in order of first occurrence.
pub open spec fn distinct(names: Seq<Option<String>>) -> Seq<Seq<char>>
    decreases names.len(),
{
    if names.len() == 0 {
        Seq::empty()
    } else {
        let rest = distinct(names.drop_last());
        match names.last() {
            Some(n) if !rest.contains(n@) => rest.push(n@),
            _ => rest,
        }
    }
}

fn holds_text(list: &Vec<String>, t: &str) -> (r: bool)
    ensures
        r == texts(list@).contains(t@),
{
    let mut i: usize = 0;
    while i < list.len()
        invariant
            i <= list@.len(),
            forall|j: int| 0 <= j < i ==> texts(list@)[j] != t@,
        decreases list@.len() - i,
    {
        if same(list[i].as_str(), t) {
            assert(texts(list@)[i as int] == t@);
            return true;
        }
        i = i + 1;
    }
    false
}

/// True when something derived from a log of this length is at hand.
pub open spec fn fresh(cached: Option<(usize, Vec<String>)>, len: nat) -> bool {
    cached matches Some((n, _)) && n == len
}

impl LogCaches {
    /// Forget everything derived from the log. The lengths catch a contact
    /// that was added or deleted, not one that was edited in place.
    pub fn log_content_changed(&mut self)
        ensures
            final(self).awards is None && final(self).heat is None && final(self).worked is None
                && final(self).index is None,
    {
        self.awards = None;
        self.heat = None;
        self.worked = None;
        self.index = None;
    }

    /// True when the index has to be built again for a log of this length.
    pub fn index_stale(&self, len: usize) -> (r: bool)
        ensures
            r == (self.index != Some(len)),
    {
        match self.index {
            Some(n) => n != len,
            None => true,
        }
    }

    /// Brings the worked entities up to date with a log of which `entities`
    /// gives each contact's entity: kept while the length stays, else built
    /// anew.
    pub fn worked_entities(&mut self, entities: &Vec<Option<String>>)
        ensures
            final(self).worked matches Some((len, set)) && len == entities@.len() && (if fresh(old(self).worked, entities@.len()) {
                *final(self) == *old(self)
            } else {
                texts(set@) == distinct(entities@)
            }),
            (old(self).worked matches Some((n, _)) && n == entities@.len()) ==> *final(self) == *old(self),
            !(old(self).worked matches Some((n, _)) && n == entities@.len()) ==> (final(self).worked matches Some((_, set)) && texts(set@) == distinct(entities@)),
            final(self).awards == old(self).awards && final(self).heat == old(self).heat && final(self).index == old(self).index,
    {
        if let Some(w) = &self.worked {
            if w.0 == entities.len() {
                return;
            }
        }
        let mut set: Vec<String> = Vec::new();
        let mut i: usize = 0;
        assert(entities@.take(0).len() == 0);
        assert(texts(set@) =~= Seq::empty());
        while i < entities.len()
            invariant
                i <= entities@.len(),
                texts(set@) == distinct(entities@.take(i as int)),
            decreases entities@.len() - i,
        {
            assert(entities@.take(i + 1).drop_last() =~= entities@.take(i as int));
            if let Some(n) = &entities[i] {
                if !holds_text(&set, n.as_str()) {
                    let ghost before = texts(set@);
                    set.push(n.clone());
                    assert(texts(set@) =~= before.push(n@));
                }
            }
            i = i + 1;
        }
        assert(entities@.take(entities@.len() as int) =~= entities@);
        self.worked = Some((entities.len(), set));
    }
}

/// Deleting keeps the other records in their order: what is left of two parts of
/// a log is what is left of the one, then what is left of the other.
pub proof fn law_delete_keeps_the_order(a: Seq<QsoRecord>, b: Seq<QsoRecord>, r: QsoRecord, id: u64)
    ensures
        without_id(a + b, id) == without_id(a, id) + without_id(b, id),
        r.id != id ==> without_id(seq![r], id) == seq![r],
        r.id == id ==> without_id(seq![r], id).len() == 0,
    decreases b.len(),
{
    let one = seq![r];
    assert(one.drop_last() =~= Seq::<QsoRecord>::empty());
    assert(one.last() == r);
    assert(without_id(one.drop_last(), id) =~= Seq::<QsoRecord>::empty());
    assert(Seq::<QsoRecord>::empty().push(r) =~= one);
    if b.len() == 0 {
        assert(a + b =~= a);
        assert(without_id(a, id) + without_id(b, id) =~= without_id(a, id));
    } else {
        assert((a + b).drop_last() =~= a + b.drop_last());
        assert((a + b).last() == b.last());
        law_delete_keeps_the_order(a, b.drop_last(), r, id);
        assert(without_id(a + b, id) =~= without_id(a, id) + without_id(b, id));
    }
}

/// A contact has a tick once LoTW, eQSL or a card has confirmed it; one that was
/// only sent somewhere has an arrow, any other nothing.
pub proof fn law_only_confirmed_contacts_have_a_tick(r: QsoRecord)
    ensures
        r.lotw_rcvd || r.eqsl_rcvd || r.qsl_rcvd ==> qsl_mark_text(r) == "✓"@ && r.confirmed(),
        !(r.lotw_rcvd || r.eqsl_rcvd || r.qsl_rcvd) ==> !r.confirmed(),
        !(r.lotw_rcvd || r.eqsl_rcvd || r.qsl_rcvd) && (r.lotw_sent || r.eqsl_sent || r.qrz_sent
            || r.hamqth_sent || r.clublog_sent) ==> qsl_mark_text(r) == "↑"@,
        !(r.lotw_rcvd || r.eqsl_rcvd || r.qsl_rcvd || r.lotw_sent || r.eqsl_sent || r.qrz_sent
            || r.hamqth_sent || r.clublog_sent) ==> qsl_mark_text(r) == ""@,
{
}

/// The hover text of a contact with one mark names its service and nothing else;
/// LoTW's confirmation comes first and Club Log last.
#[verifier::rlimit(60)]
pub proof fn law_the_tip_names_each_mark(r: QsoRecord)
    ensures
        r.lotw_rcvd && !r.eqsl_rcvd && !r.qsl_rcvd && !r.lotw_sent && !r.eqsl_sent && !r.qrz_sent && !r.hamqth_sent && !r.clublog_sent ==> qsl_tip_parts(r) == seq!["LoTW ✓"@],
        r.eqsl_rcvd && !r.lotw_rcvd && !r.qsl_rcvd && !r.lotw_sent && !r.eqsl_sent && !r.qrz_sent && !r.hamqth_sent && !r.clublog_sent ==> qsl_tip_parts(r) == seq!["eQSL ✓"@],
        r.qsl_rcvd && !r.lotw_rcvd && !r.eqsl_rcvd && !r.lotw_sent && !r.eqsl_sent && !r.qrz_sent && !r.hamqth_sent && !r.clublog_sent ==> qsl_tip_parts(r) == seq!["card ✓"@],
        r.lotw_sent && !r.lotw_rcvd && !r.eqsl_rcvd && !r.qsl_rcvd && !r.eqsl_sent && !r.qrz_sent && !r.hamqth_sent && !r.clublog_sent ==> qsl_tip_parts(r) == seq!["LoTW ↑"@],
        r.eqsl_sent && !r.lotw_rcvd && !r.eqsl_rcvd && !r.qsl_rcvd && !r.lotw_sent && !r.qrz_sent && !r.hamqth_sent && !r.clublog_sent ==> qsl_tip_parts(r) == seq!["eQSL ↑"@],
        r.qrz_sent && !r.lotw_rcvd && !r.eqsl_rcvd && !r.qsl_rcvd && !r.lotw_sent && !r.eqsl_sent && !r.hamqth_sent && !r.clublog_sent ==> qsl_tip_parts(r) == seq!["QRZ ↑"@],
        r.hamqth_sent && !r.lotw_rcvd && !r.eqsl_rcvd && !r.qsl_rcvd && !r.lotw_sent && !r.eqsl_sent && !r.qrz_sent && !r.clublog_sent ==> qsl_tip_parts(r) == seq!["HamQTH ↑"@],
        r.clublog_sent && !r.lotw_rcvd && !r.eqsl_rcvd && !r.qsl_rcvd && !r.lotw_sent && !r.eqsl_sent && !r.qrz_sent && !r.hamqth_sent ==> qsl_tip_parts(r) == seq!["Club Log ↑"@],
        r.lotw_rcvd ==> qsl_tip_parts(r)[0] == "LoTW ✓"@,
        r.clublog_sent ==> qsl_tip_parts(r).last() == "Club Log ↑"@,
{
    if r.lotw_rcvd && !r.eqsl_rcvd && !r.qsl_rcvd && !r.lotw_sent && !r.eqsl_sent && !r.qrz_sent && !r.hamqth_sent && !r.clublog_sent {
        assert(qsl_tip_parts(r) =~= seq!["LoTW ✓"@]);
    }
    if r.eqsl_rcvd && !r.lotw_rcvd && !r.qsl_rcvd && !r.lotw_sent && !r.eqsl_sent && !r.qrz_sent && !r.hamqth_sent && !r.clublog_sent {
        assert(qsl_tip_parts(r) =~= seq!["eQSL ✓"@]);
    }
    if r.qsl_rcvd && !r.lotw_rcvd && !r.eqsl_rcvd && !r.lotw_sent && !r.eqsl_sent && !r.qrz_sent && !r.hamqth_sent && !r.clublog_sent {
        assert(qsl_tip_parts(r) =~= seq!["card ✓"@]);
    }
    if r.lotw_sent && !r.lotw_rcvd && !r.eqsl_rcvd && !r.qsl_rcvd && !r.eqsl_sent && !r.qrz_sent && !r.hamqth_sent && !r.clublog_sent {
        assert(qsl_tip_parts(r) =~= seq!["LoTW ↑"@]);
    }
    if r.eqsl_sent && !r.lotw_rcvd && !r.eqsl_rcvd && !r.qsl_rcvd && !r.lotw_sent && !r.qrz_sent && !r.hamqth_sent && !r.clublog_sent {
        assert(qsl_tip_parts(r) =~= seq!["eQSL ↑"@]);
    }
    if r.qrz_sent && !r.lotw_rcvd && !r.eqsl_rcvd && !r.qsl_rcvd && !r.lotw_sent && !r.eqsl_sent && !r.hamqth_sent && !r.clublog_sent {
        assert(qsl_tip_parts(r) =~= seq!["QRZ ↑"@]);
    }
    if r.hamqth_sent && !r.lotw_rcvd && !r.eqsl_rcvd && !r.qsl_rcvd && !r.lotw_sent && !r.eqsl_sent && !r.qrz_sent && !r.clublog_sent {
        assert(qsl_tip_parts(r) =~= seq!["HamQTH ↑"@]);
    }
    if r.clublog_sent && !r.lotw_rcvd && !r.eqsl_rcvd && !r.qsl_rcvd && !r.lotw_sent && !r.eqsl_sent && !r.qrz_sent && !r.hamqth_sent {
        assert(qsl_tip_parts(r) =~= seq!["Club Log ↑"@]);
    }
}

/// The worked entities are those of the contacts, each once.
pub proof fn law_each_entity_counts_once(names: Seq<Option<String>>, t: Seq<char>)
    ensures
        distinct(names).contains(t) == exists|i: int|
            0 <= i < names.len() && (#[trigger] names[i] matches Some(n) && n@ == t),
        distinct(names).no_duplicates(),
    decreases names.len(),
{
    if names.len() > 0 {
        let init = names.drop_last();
        let rest = distinct(init);
        law_each_entity_counts_once(init, t);
        assert(names[names.len() - 1] == names.last());
        if exists|i: int| 0 <= i < init.len() && (#[trigger] init[i] matches Some(n) && n@ == t) {
            let i = choose|i: int|
                0 <= i < init.len() && (#[trigger] init[i] matches Some(n) && n@ == t);
            assert(names[i] == init[i]);
        }
        if exists|i: int| 0 <= i < names.len() && (#[trigger] names[i] matches Some(n) && n@ == t) {
            let i = choose|i: int|
                0 <= i < names.len() && (#[trigger] names[i] matches Some(n) && n@ == t);
            if i < init.len() {
                assert(init[i] == names[i]);
            }
        }
        match names.last() {
            Some(n) if !rest.contains(n@) => {
                let all = rest.push(n@);
                if rest.contains(t) {
                    let k = choose|k: int| 0 <= k < rest.len() && rest[k] == t;
                    assert(all[k] == t);
                }
                if all.contains(t) {
                    let k = choose|k: int| 0 <= k < all.len() && all[k] == t;
                    if k < rest.len() {
                        assert(rest[k] == t);
                    }
                }
                assert(all[rest.len() as int] == n@);
            },
            _ => {},
        }
    }
}

/// A report that a contact has is shown as its figure, one that it has not as a
/// dash.
pub proof fn law_a_missing_report_is_a_dash(n: i32)
    ensures
        report_or_dash(None) == "–"@,
        n >= 0 ==> report_or_dash(Some(n)) == dec(n as nat),
        n < 0 ==> report_or_dash(Some(n)) == seq!['-'] + dec((-n) as nat),
{
}

} // verus!
