//! Callsign lookup, log upload and log import: what is queued, what a reply
//! changes, and what the operator is told.

use vstd::prelude::*;

use crate::qso::QsoRecord;
use crate::text::{blank, is_blank, lemma_trim_blank, lemma_trim_idempotent, texts, trim, trimmed};

verus! {

/// Lines that the network log keeps.
pub const NET_LOG_LINES: usize = 50;

/// Least time between two locator lookups driven by a heard list.
pub const GRID_LOOKUP_INTERVAL_MS: i64 = 1_500;

/// A service that answers callsign lookups.
#[derive(Clone, Copy, PartialEq, Eq, Structural, Debug)]
pub enum LookupProvider {
    Off,
    Qrz,
    HamQth,
}

/// A service that takes logged contacts.
#[derive(Clone, Copy, PartialEq, Eq, Structural, Debug)]
pub enum UploadTarget {
    Eqsl,
    QrzLogbook,
    HamQth,
    ClubLog,
}

/// A user name and password.
#[derive(Debug)]
pub struct Login {
    pub user: String,
    pub password: String,
}

/// The operator's network accounts and switches.
#[derive(Debug)]
pub struct NetworkConfig {
    pub lookup_provider: LookupProvider,
    pub auto_lookup: bool,
    pub auto_upload: bool,
    pub auto_upload_eqsl: bool,
    pub auto_upload_qrz: bool,
    pub auto_upload_hamqth: bool,
    pub auto_upload_clublog: bool,
    pub eqsl: Login,
    pub hamqth: Login,
    pub clublog: Login,
    pub qrz_logbook_key: String,
    pub clublog_api_key: String,
}

/// What a lookup found out about a callsign.
#[derive(Debug)]
pub struct CallsignInfo {
    pub call: String,
    pub name: Option<String>,
    pub qth: Option<String>,
    pub grid: Option<String>,
    pub state: Option<String>,
    pub country: Option<String>,
    pub dxcc: Option<u32>,
    pub cq_zone: Option<u32>,
    pub itu_zone: Option<u32>,
}

/// The reply to one upload.
#[derive(Debug)]
pub struct UploadResult {
    pub qso_id: u64,
    pub target: UploadTarget,
    pub ok: bool,
    pub message: String,
}

/// The text that an optional string holds.
pub open spec fn opt_text(o: Option<String>) -> Option<Seq<char>> {
    match o {
        Some(s) => Some(s@),
        None => None,
    }
}

/// A borrowed view of an optional string.
pub fn as_text(o: &Option<String>) -> (r: Option<&str>)
    ensures
        match r {
            Some(s) => opt_text(*o) == Some(s@),
            None => *o is None,
        },
{
    match o {
        Some(s) => Some(s.as_str()),
        None => None,
    }
}

/// What a field holds after it was offered `src`: a blank field takes the
/// trimmed offer unless that is blank too, any other field keeps its text.
pub open spec fn filled(dst: Seq<char>, src: Option<Seq<char>>) -> Seq<char> {
    if takes(dst, src) {
        trim(src->0)
    } else {
        dst
    }
}

/// True when a field takes what it is offered.
pub open spec fn takes(dst: Seq<char>, src: Option<Seq<char>>) -> bool {
    is_blank(dst) && src is Some && !is_blank(src->0)
}

/// Fill `dst` from `src` only when `dst` is blank and `src` is not; returns
/// whether it changed anything.
pub fn fill_blank(dst: &mut String, src: Option<&str>) -> (changed: bool)
    ensures
        final(dst)@ == filled(old(dst)@, match src {
            Some(s) => Some(s@),
            None => None,
        }),
        changed == takes(old(dst)@, match src {
            Some(s) => Some(s@),
            None => None,
        }),
{
    if blank(dst.as_str()) {
        if let Some(v) = src {
            if !blank(v) {
                *dst = trimmed(v);
                return true;
            }
        }
    }
    false
}

/// A filled field is settled: offering it anything again leaves it alone.
pub proof fn law_fill_blank_is_settled(dst: Seq<char>, src: Option<Seq<char>>, again: Option<Seq<char>>)
    requires
        !is_blank(filled(dst, src)),
    ensures
        filled(filled(dst, src), again) == filled(dst, src),
        !is_blank(dst) ==> filled(dst, src) == dst,
{
}

/// Filling twice from one offer is filling once.
pub proof fn law_fill_blank_idempotent(dst: Seq<char>, src: Option<Seq<char>>)
    ensures
        filled(filled(dst, src), src) == filled(dst, src),
{
    if takes(dst, src) {
        lemma_trim_blank(src->0);
        lemma_trim_idempotent(src->0);
        lemma_trim_blank(trim(src->0));
    }
}

/// The services that `on` selects, in their fixed order.
pub open spec fn selected(on: Seq<bool>) -> Seq<UploadTarget>
    recommends
        on.len() == 4,
{
    let e = if on[0] {
        seq![UploadTarget::Eqsl]
    } else {
        seq![]
    };
    let q = if on[1] {
        seq![UploadTarget::QrzLogbook]
    } else {
        seq![]
    };
    let h = if on[2] {
        seq![UploadTarget::HamQth]
    } else {
        seq![]
    };
    let c = if on[3] {
        seq![UploadTarget::ClubLog]
    } else {
        seq![]
    };
    e + q + h + c
}

fn select(eqsl: bool, qrz: bool, hamqth: bool, clublog: bool) -> (t: Vec<UploadTarget>)
    ensures
        t@ == selected(seq![eqsl, qrz, hamqth, clublog]),
{
    let mut t: Vec<UploadTarget> = Vec::new();
    if eqsl {
        t.push(UploadTarget::Eqsl);
    }
    if qrz {
        t.push(UploadTarget::QrzLogbook);
    }
    if hamqth {
        t.push(UploadTarget::HamQth);
    }
    if clublog {
        t.push(UploadTarget::ClubLog);
    }
    assert(t@ =~= selected(seq![eqsl, qrz, hamqth, clublog]));
    t
}

/// Which upload targets are enabled for auto-upload.
pub fn auto_upload_targets(cfg: &NetworkConfig) -> (t: Vec<UploadTarget>)
    ensures
        t@ == selected(
            seq![
                cfg.auto_upload_eqsl,
                cfg.auto_upload_qrz,
                cfg.auto_upload_hamqth,
                cfg.auto_upload_clublog,
            ],
        ),
{
    select(
        cfg.auto_upload_eqsl,
        cfg.auto_upload_qrz,
        cfg.auto_upload_hamqth,
        cfg.auto_upload_clublog,
    )
}

/// The services with credentials. HamQTH and Club Log need both halves.
pub open spec fn configured(cfg: NetworkConfig) -> Seq<UploadTarget> {
    selected(
        seq![
            !is_blank(cfg.eqsl.user@),
            !is_blank(cfg.qrz_logbook_key@),
            !is_blank(cfg.hamqth.user@) && !is_blank(cfg.hamqth.password@),
            !is_blank(cfg.clublog.user@) && !is_blank(cfg.clublog_api_key@),
        ],
    )
}

/// Upload targets that have credentials: what the per-contact upload button
/// sends to.
pub fn configured_upload_targets(cfg: &NetworkConfig) -> (t: Vec<UploadTarget>)
    ensures
        t@ == configured(*cfg),
{
    select(
        !blank(cfg.eqsl.user.as_str()),
        !blank(cfg.qrz_logbook_key.as_str()),
        !blank(cfg.hamqth.user.as_str()) && !blank(cfg.hamqth.password.as_str()),
        !blank(cfg.clublog.user.as_str()) && !blank(cfg.clublog_api_key.as_str()),
    )
}

/// True when a freshly logged contact is to be uploaded at once.
pub open spec fn auto_uploads(cfg: NetworkConfig) -> bool {
    cfg.auto_upload && (cfg.auto_upload_eqsl || cfg.auto_upload_qrz || cfg.auto_upload_hamqth
        || cfg.auto_upload_clublog)
}

/// The contact's id and where to send it, or `None` when auto-upload is off or
/// no target is enabled.
pub fn auto_upload_adif(cfg: &NetworkConfig, rec: &QsoRecord) -> (r: Option<
    (u64, Vec<UploadTarget>),
>)
    ensures
        r is Some == auto_uploads(*cfg),
        r matches Some((id, t)) ==> id == rec.id && t@ == selected(
            seq![
                cfg.auto_upload_eqsl,
                cfg.auto_upload_qrz,
                cfg.auto_upload_hamqth,
                cfg.auto_upload_clublog,
            ],
        ),
{
    if !cfg.auto_upload {
        return None;
    }
    let targets = auto_upload_targets(cfg);
    if targets.len() == 0 {
        proof {
            let s = selected(
                seq![
                    cfg.auto_upload_eqsl,
                    cfg.auto_upload_qrz,
                    cfg.auto_upload_hamqth,
                    cfg.auto_upload_clublog,
                ],
            );
            assert(s.len() == 0);
        }
        return None;
    }
    Some((rec.id, targets))
}

/// True when a lookup of `call` may be queued.
pub open spec fn may_look_up(cfg: NetworkConfig, call: Seq<char>) -> bool {
    !is_blank(call) && cfg.auto_lookup && cfg.lookup_provider != LookupProvider::Off
}

/// Queue an auto-lookup if a provider and auto-lookup are configured. Returns
/// whether one was queued, so a caller that rations lookups does not spend its
/// interval on a request that never left.
pub fn queue_lookup(cfg: &NetworkConfig, pending: &mut Vec<String>, call: &str) -> (queued: bool)
    ensures
        queued == may_look_up(*cfg, call@),
        !queued ==> final(pending)@ == old(pending)@,
        queued ==> final(pending)@.len() == old(pending)@.len() + 1 && final(pending)@.drop_last()
            == old(pending)@ && final(pending)@.last()@ == trim(call@),
{
    if blank(call) || !cfg.auto_lookup || cfg.lookup_provider == LookupProvider::Off {
        return false;
    }
    pending.push(trimmed(call));
    assert(pending@.drop_last() =~= old(pending)@);
    true
}

/// The locator lookups sent for a heard list: which calls were asked for, and
/// when the last request left.
#[derive(Debug)]
pub struct GridLookups {
    pub asked: Vec<String>,
    pub last_ms: i64,
}

impl GridLookups {
    /// True when `call` has been asked for.
    pub open spec fn has_asked(&self, call: Seq<char>) -> bool {
        exists|i: int| 0 <= i < self.asked@.len() && (#[trigger] self.asked@[i])@ == call
    }

    /// No call is held twice.
    pub open spec fn wf(&self) -> bool {
        forall|i: int, j: int|
            0 <= i < j < self.asked@.len() ==> (#[trigger] self.asked@[i])@ != (
            #[trigger] self.asked@[j])@
    }

    /// Whether another heard-list lookup may go out yet.
    pub fn grid_lookup_due(&self, now_ms: i64) -> (r: bool)
        ensures
            r == (now_ms - self.last_ms >= GRID_LOOKUP_INTERVAL_MS),
    {
        now_ms as i128 - self.last_ms as i128 >= GRID_LOOKUP_INTERVAL_MS as i128
    }

    fn asked_already(&self, call: &str) -> (r: bool)
        ensures
            r == self.has_asked(call@),
    {
        let mut i: usize = 0;
        while i < self.asked.len()
            invariant
                i <= self.asked@.len(),
                forall|j: int| 0 <= j < i ==> (#[trigger] self.asked@[j])@ != call@,
            decreases self.asked@.len() - i,
        {
            if crate::text::same(self.asked[i].as_str(), call) {
                return true;
            }
            i = i + 1;
        }
        false
    }

    /// Ask where a heard station is, and remember having asked. A request that
    /// did not leave spends nothing.
    pub fn queue_grid_lookup(
        &mut self,
        cfg: &NetworkConfig,
        pending: &mut Vec<String>,
        call: Option<&str>,
        now_ms: i64,
    )
        requires
            old(self).wf(),
        ensures
            final(self).wf(),
            match call {
                Some(c) if may_look_up(*cfg, c@) => {
                    &&& final(self).last_ms == now_ms
                    &&& forall|x: Seq<char>| #[trigger]
                        final(self).has_asked(x) == (old(self).has_asked(x) || x == c@)
                    &&& final(pending)@.len() == old(pending)@.len() + 1
                    &&& final(pending)@.drop_last() == old(pending)@
                    &&& final(pending)@.last()@ == trim(c@)
                },
                _ => *final(self) == *old(self) && final(pending)@ == old(pending)@,
            },
    {
        let c = match call {
            Some(c) => c,
            None => {
                return;
            },
        };
        if queue_lookup(cfg, pending, c) {
            let ghost before = self.asked@;
            let known = self.asked_already(c);
            self.last_ms = now_ms;
            if !known {
                self.asked.push(c.to_owned());
                assert(self.asked@.last()@ == c@);
                assert forall|x: Seq<char>| #[trigger] self.has_asked(x) == (old(self).has_asked(x)
                    || x == c@) by {
                    if old(self).has_asked(x) {
                        let i = choose|i: int|
                            0 <= i < before.len() && (#[trigger] before[i])@ == x;
                        assert(self.asked@[i]@ == x);
                    }
                    if x == c@ {
                        assert(self.asked@[before.len() as int]@ == x);
                    }
                    if self.has_asked(x) {
                        let i = choose|i: int|
                            0 <= i < self.asked@.len() && (#[trigger] self.asked@[i])@ == x;
                        if i < before.len() {
                            assert(before[i]@ == x);
                        }
                    }
                }
                assert forall|i: int, j: int| 0 <= i < j < self.asked@.len() implies (
                #[trigger] self.asked@[i])@ != (#[trigger] self.asked@[j])@ by {
                    assert(self.asked@[i] == before[i]);
                    if j < before.len() {
                        assert(self.asked@[j] == before[j]);
                    }
                }
            } else {
                assert forall|x: Seq<char>| #[trigger] self.has_asked(x) == (old(self).has_asked(x)
                    || x == c@) by {
                    assert(self.asked@ == old(self).asked@);
                }
            }
        }
    }
}

/// A list with `line` put in front, cut to its first [`NET_LOG_LINES`].
pub open spec fn with_line(log: Seq<Seq<char>>, line: Seq<char>) -> Seq<Seq<char>> {
    let all = seq![line] + log;
    if all.len() > NET_LOG_LINES {
        all.take(NET_LOG_LINES as int)
    } else {
        all
    }
}

/// Puts a line at the top of the network log, which keeps the newest
/// [`NET_LOG_LINES`].
pub fn push_net_log(net_log: &mut Vec<String>, line: String)
    ensures
        texts(final(net_log)@) == with_line(texts(old(net_log)@), line@),
        final(net_log)@.len() <= NET_LOG_LINES,
{
    net_log.insert(0, line);
    net_log.truncate(NET_LOG_LINES);
    assert(texts(net_log@) =~= with_line(texts(old(net_log)@), line@));
}

/// What a lookup offers goes, trimmed, into a field that holds nothing, and
/// into no other; an empty offer changes nothing.
pub proof fn law_only_blank_fields_take_an_offer(dst: Seq<char>, offer: Seq<char>)
    ensures
        !is_blank(dst) ==> filled(dst, Some(offer)) == dst && !takes(dst, Some(offer)),
        is_blank(dst) && !is_blank(offer) ==> filled(dst, Some(offer)) == trim(offer) && takes(
            dst,
            Some(offer),
        ),
        is_blank(offer) ==> filled(dst, Some(offer)) == dst && !takes(dst, Some(offer)),
        filled(dst, None) == dst && !takes(dst, None),
{
}

/// A service is selected exactly by its own switch: eQSL, QRZ, HamQTH and
/// Club Log, in that order, each once.
pub proof fn law_each_switch_selects_its_service(eqsl: bool, qrz: bool, hamqth: bool, clublog: bool)
    ensures
        ({
            let t = selected(seq![eqsl, qrz, hamqth, clublog]);
            &&& t.contains(UploadTarget::Eqsl) == eqsl
            &&& t.contains(UploadTarget::QrzLogbook) == qrz
            &&& t.contains(UploadTarget::HamQth) == hamqth
            &&& t.contains(UploadTarget::ClubLog) == clublog
            &&& t.no_duplicates()
            &&& eqsl ==> t[0] == UploadTarget::Eqsl
            &&& clublog ==> t.last() == UploadTarget::ClubLog
            &&& qrz && hamqth ==> t.index_of(UploadTarget::QrzLogbook) < t.index_of(
                UploadTarget::HamQth,
            )
        }),
{
    let on = seq![eqsl, qrz, hamqth, clublog];
    let t = selected(on);
    let n = if eqsl {
        1int
    } else {
        0
    };
    let m = if qrz {
        n + 1
    } else {
        n
    };
    let k = if hamqth {
        m + 1
    } else {
        m
    };
    if eqsl {
        assert(t[0] == UploadTarget::Eqsl);
    }
    if qrz {
        assert(t[n] == UploadTarget::QrzLogbook);
    }
    if hamqth {
        assert(t[m] == UploadTarget::HamQth);
    }
    if clublog {
        assert(t[k] == UploadTarget::ClubLog);
    }
}

/// The button of a contact sends to eQSL where there is a user, to QRZ where
/// there is a key, to HamQTH where there are user and password, to Club Log
/// where there are user and key.
pub proof fn law_credentials_decide_the_services(cfg: NetworkConfig)
    ensures
        configured(cfg).contains(UploadTarget::Eqsl) == !is_blank(cfg.eqsl.user@),
        configured(cfg).contains(UploadTarget::QrzLogbook) == !is_blank(cfg.qrz_logbook_key@),
        configured(cfg).contains(UploadTarget::HamQth) == (!is_blank(cfg.hamqth.user@)
            && !is_blank(cfg.hamqth.password@)),
        configured(cfg).contains(UploadTarget::ClubLog) == (!is_blank(cfg.clublog.user@)
            && !is_blank(cfg.clublog_api_key@)),
        configured(cfg).no_duplicates(),
{
    law_each_switch_selects_its_service(
        !is_blank(cfg.eqsl.user@),
        !is_blank(cfg.qrz_logbook_key@),
        !is_blank(cfg.hamqth.user@) && !is_blank(cfg.hamqth.password@),
        !is_blank(cfg.clublog.user@) && !is_blank(cfg.clublog_api_key@),
    );
}

/// A lookup leaves by itself only where automatic lookups are on, a provider is
/// chosen and there is a call; a contact is uploaded by itself only where that
/// is on and some service is ticked.
pub proof fn law_nothing_leaves_unasked(cfg: NetworkConfig, call: Seq<char>)
    ensures
        !cfg.auto_lookup ==> !may_look_up(cfg, call),
        cfg.lookup_provider == LookupProvider::Off ==> !may_look_up(cfg, call),
        is_blank(call) ==> !may_look_up(cfg, call),
        cfg.auto_lookup && cfg.lookup_provider != LookupProvider::Off && !is_blank(call)
            ==> may_look_up(cfg, call),
        !cfg.auto_upload ==> !auto_uploads(cfg),
        cfg.auto_upload && cfg.auto_upload_eqsl ==> auto_uploads(cfg),
        cfg.auto_upload && cfg.auto_upload_qrz ==> auto_uploads(cfg),
        cfg.auto_upload && cfg.auto_upload_hamqth ==> auto_uploads(cfg),
        cfg.auto_upload && cfg.auto_upload_clublog ==> auto_uploads(cfg),
        auto_uploads(cfg) ==> cfg.auto_upload_eqsl || cfg.auto_upload_qrz || cfg.auto_upload_hamqth
            || cfg.auto_upload_clublog,
{
}

/// The newest line of the network log stands on top, the others follow in the
/// order they had, and of more than 50 the oldest go.
pub proof fn law_the_newest_line_is_on_top(log: Seq<Seq<char>>, line: Seq<char>)
    ensures
        with_line(log, line)[0] == line,
        with_line(log, line).len() == if log.len() < 50 {
            log.len() + 1
        } else {
            50
        },
        forall|i: int|
            1 <= i < with_line(log, line).len() ==> #[trigger] with_line(log, line)[i] == log[i - 1],
{
}

/// A call was asked for exactly where the list holds it.
pub proof fn law_asked_calls_are_held(g: GridLookups, call: Seq<char>)
    ensures
        g.has_asked(call) <==> texts(g.asked@).contains(call),
{
    let t = texts(g.asked@);
    if g.has_asked(call) {
        let i: int = choose|i: int| 0 <= i < g.asked@.len() && (#[trigger] g.asked@[i])@ == call;
        assert(t[i] == call);
    }
    if t.contains(call) {
        let i: int = choose|i: int| 0 <= i < t.len() && t[i] == call;
        assert(g.asked@[i]@ == call);
    }
}

} // verus!
