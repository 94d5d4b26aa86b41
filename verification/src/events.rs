//! What the radio's events change in the console.

use std::collections::HashMap;

use vstd::prelude::*;

use crate::command::Command;
use crate::decodes::Decode;
use crate::mode::{Band, Mode};
use crate::net::{
    auto_upload_adif, auto_uploads, may_look_up, push_net_log, queue_lookup, selected, with_line,
    NetworkConfig, UploadTarget,
};
use crate::qso::{max_id, next_log_id, QsoRecord};
use crate::text::{cat, texts, trim};
use crate::wspr::{add_spots, first_of, with_spots, WsprSpot, WSPR_SPOT_ROWS};

verus! {

/// How many decodes are kept.
pub const DECODE_ROWS: usize = 200;

/// How many received pictures are kept.
pub const PICTURE_ROWS: usize = 30;

/// Whether an update that kept the mode moved the receiver far enough to throw
/// the decodes away: into another band, unless in the beacon mode, which hops
/// between bands by itself.
pub fn qsy_clears_decodes(prev: Band, now: Band, mode: Mode) -> (r: bool)
    ensures
        r == (now != prev && mode != Mode::Wspr),
{
    now != prev && mode != Mode::Wspr
}

/// A batch in front of a list, cut to its first `cap`.
pub fn prepend<T>(list: &mut Vec<T>, batch: Vec<T>, cap: usize)
    ensures
        final(list)@ == first_of(batch@ + old(list)@, cap as int),
{
    let mut all = batch;
    all.append(list);
    all.truncate(cap);
    *list = all;
}

/// What was received, and what is being typed to be sent.
#[derive(Debug)]
pub struct Traffic {
    pub decodes: Vec<Decode>,
    pub wspr_spots: Vec<WsprSpot>,
    /// The station previewed on the map.
    pub preview: Option<String>,
    pub text_tx: String,
}

/// How much a state update cleared away.
#[derive(Clone, Copy, PartialEq, Eq, Structural, Debug)]
pub enum Cleared {
    Nothing,
    /// What belongs to the band that was left.
    Band,
    /// Everything that belongs to the mode that was left.
    Mode,
}

/// What a change of receiver clears: a change of mode everything, a change of
/// band alone what is ambiguous about its band.
pub open spec fn clears(prev_mode: Mode, prev_band: Band, mode: Mode, band: Band) -> Cleared {
    if mode != prev_mode {
        Cleared::Mode
    } else if band != prev_band && mode != Mode::Wspr {
        Cleared::Band
    } else {
        Cleared::Nothing
    }
}

/// Traffic after a clearance.
pub open spec fn is_cleared(old_t: Traffic, c: Cleared, new_t: Traffic) -> bool {
    match c {
        Cleared::Nothing => new_t == old_t,
        Cleared::Band => {
            &&& new_t.decodes@.len() == 0
            &&& new_t.preview is None
            &&& new_t.wspr_spots == old_t.wspr_spots
            &&& new_t.text_tx == old_t.text_tx
        },
        Cleared::Mode => {
            &&& new_t.decodes@.len() == 0
            &&& new_t.preview is None
            &&& new_t.wspr_spots@.len() == 0
            &&& new_t.text_tx@.len() == 0
        },
    }
}

impl Traffic {
    /// Drop what belongs to the band that was left.
    pub fn clear_digi_band_rx(&mut self)
        ensures
            is_cleared(*old(self), Cleared::Band, *final(self)),
            final(self).decodes@.len() == 0,
            final(self).preview is None,
            final(self).wspr_spots == old(self).wspr_spots,
            final(self).text_tx == old(self).text_tx,
    {
        self.decodes = Vec::new();
        self.preview = None;
    }

    /// Drop everything received in the mode that was left. What is being typed
    /// stays.
    pub fn clear_digi_rx(&mut self)
        ensures
            final(self).decodes@.len() == 0,
            final(self).preview is None,
            final(self).wspr_spots@.len() == 0,
            final(self).text_tx == old(self).text_tx,
    {
        self.clear_digi_band_rx();
        self.wspr_spots = Vec::new();
    }

    /// The radio reported its state.
    pub fn on_state(&mut self, prev_mode: Mode, prev_band: Band, mode: Mode, band: Band) -> (c:
        Cleared)
        ensures
            c == clears(prev_mode, prev_band, mode, band),
            is_cleared(*old(self), c, *final(self)),
            mode != prev_mode ==> c == Cleared::Mode && final(self).decodes@.len() == 0
                && final(self).wspr_spots@.len() == 0 && final(self).text_tx@.len() == 0,
            mode != prev_mode || (band != prev_band && mode != Mode::Wspr)
                ==> final(self).decodes@.len() == 0 && final(self).preview is None,
            mode == prev_mode ==> final(self).wspr_spots == old(self).wspr_spots
                && final(self).text_tx == old(self).text_tx,
            mode == prev_mode && band != prev_band && mode != Mode::Wspr ==> c == Cleared::Band,
            mode == prev_mode && (band == prev_band || mode == Mode::Wspr) ==> c
                == Cleared::Nothing && *final(self) == *old(self),
    {
        if mode != prev_mode {
            self.clear_digi_rx();
            self.text_tx = String::new();
            Cleared::Mode
        } else if qsy_clears_decodes(prev_band, band, mode) {
            self.clear_digi_band_rx();
            Cleared::Band
        } else {
            Cleared::Nothing
        }
    }

    /// A slot was decoded: its decodes go to the top, and the newest
    /// [`DECODE_ROWS`] are kept.
    pub fn on_decodes(&mut self, batch: Vec<Decode>)
        ensures
            final(self).decodes@ == first_of(batch@ + old(self).decodes@, DECODE_ROWS as int),
            final(self).decodes@.len() <= DECODE_ROWS,
            final(self).wspr_spots == old(self).wspr_spots,
            final(self).preview == old(self).preview,
            final(self).text_tx == old(self).text_tx,
    {
        prepend(&mut self.decodes, batch, DECODE_ROWS);
    }

    /// Beacons were received, here or elsewhere.
    pub fn on_wspr_spots(&mut self, batch: Vec<WsprSpot>)
        ensures
            final(self).wspr_spots@ == first_of(
                with_spots(old(self).wspr_spots@, batch@),
                WSPR_SPOT_ROWS as int,
            ),
            final(self).decodes == old(self).decodes,
            final(self).preview == old(self).preview,
            final(self).text_tx == old(self).text_tx,
    {
        add_spots(&mut self.wspr_spots, batch);
    }
}

/// The beacon's receptions outlive every change of band, and nothing at all is
/// cleared while mode and band stay.
pub proof fn law_hopping_clears_nothing(mode: Mode, prev: Band, now: Band)
    ensures
        clears(Mode::Wspr, prev, Mode::Wspr, now) == Cleared::Nothing,
        clears(mode, now, mode, now) == Cleared::Nothing,
{
}

/// A half-typed text survives any change of band, but no change of mode.
pub proof fn law_typed_text_survives_a_band_change(
    t: Traffic,
    u: Traffic,
    prev_mode: Mode,
    prev_band: Band,
    mode: Mode,
    band: Band,
)
    requires
        is_cleared(t, clears(prev_mode, prev_band, mode, band), u),
    ensures
        mode == prev_mode ==> u.text_tx == t.text_tx,
        mode != prev_mode ==> u.text_tx@.len() == 0,
{
}

/// Contacts of this run, and what is waiting to be sent about them.
#[derive(Debug)]
pub struct LogSession {
    pub log: Vec<QsoRecord>,
    pub session_qsos: u32,
    pub pending_lookups: Vec<String>,
    pub pending_uploads: Vec<(u64, Vec<UploadTarget>)>,
}

impl LogSession {
    /// The radio logged a contact. `stored` is the log as another tab may have
    /// left it, where the file is shared. The contact gets a fresh id, goes to
    /// the end, is looked up and uploaded as far as that is switched on.
    pub fn on_qso_logged(
        &mut self,
        r: QsoRecord,
        stored: Option<Vec<QsoRecord>>,
        cfg: &NetworkConfig,
    )
        requires
            max_id(
                (match stored {
                    Some(l) => l@,
                    None => old(self).log@,
                }),
            ) < u64::MAX,
            old(self).session_qsos < u32::MAX,
        ensures
            ({
                let before = match stored {
                    Some(l) => l@,
                    None => old(self).log@,
                };
                let id = (max_id(before) + 1) as u64;
                &&& final(self).log@ == before.push(QsoRecord { id, ..r })
                &&& final(self).session_qsos == old(self).session_qsos + 1
                &&& if may_look_up(*cfg, r.call@) {
                    &&& final(self).pending_lookups@.len() == old(self).pending_lookups@.len() + 1
                    &&& final(self).pending_lookups@.drop_last() == old(self).pending_lookups@
                    &&& final(self).pending_lookups@.last()@ == trim(r.call@)
                } else {
                    final(self).pending_lookups@ == old(self).pending_lookups@
                }
                &&& if auto_uploads(*cfg) {
                    &&& final(self).pending_uploads@.len() == old(self).pending_uploads@.len() + 1
                    &&& final(self).pending_uploads@.drop_last() == old(self).pending_uploads@
                    &&& final(self).pending_uploads@.last().0 == id
                    &&& final(self).pending_uploads@.last().1@ == selected(
                        seq![
                            cfg.auto_upload_eqsl,
                            cfg.auto_upload_qrz,
                            cfg.auto_upload_hamqth,
                            cfg.auto_upload_clublog,
                        ],
                    )
                } else {
                    final(self).pending_uploads@ == old(self).pending_uploads@
                }
            }),
    {
        if let Some(l) = stored {
            self.log = l;
        }
        let ghost before = self.log@;
        let mut rec = r;
        rec.id = next_log_id(&self.log);
        let call = rec.call.clone();
        let upload = auto_upload_adif(cfg, &rec);
        self.log.push(rec);
        self.session_qsos = self.session_qsos + 1;
        queue_lookup(cfg, &mut self.pending_lookups, call.as_str());
        if let Some(u) = upload {
            self.pending_uploads.push(u);
            assert(self.pending_uploads@.drop_last() =~= old(self).pending_uploads@);
        }
    }

    /// The requests that have gathered, lookups ahead of uploads, in order.
    pub open spec fn is_flushed(&self, cmds: Seq<Command>) -> bool {
        let (n, m) = (self.pending_lookups@.len(), self.pending_uploads@.len());
        &&& cmds.len() == n + m
        &&& forall|i: int|
            0 <= i < n ==> (#[trigger] cmds[i]) == Command::LookupCallsign(
                self.pending_lookups@[i],
            )
        &&& forall|i: int|
            n <= i < n + m ==> (#[trigger] cmds[i]) == Command::UploadQso(
                self.pending_uploads@[i - n].0,
                self.pending_uploads@[i - n].1,
            )
    }

    /// Empties both queues into requests.
    #[verifier::rlimit(30)]
    pub fn flush(&mut self) -> (cmds: Vec<Command>)
        ensures
            old(self).is_flushed(cmds@),
            final(self).pending_lookups@.len() == 0,
            final(self).pending_uploads@.len() == 0,
            final(self).log == old(self).log,
            final(self).session_qsos == old(self).session_qsos,
    {
        let ghost lookups = self.pending_lookups@;
        let ghost uploads = self.pending_uploads@;
        let ghost n = lookups.len() as int;
        let ghost m = uploads.len() as int;
        let mut rest: Vec<Command> = Vec::new();
        while self.pending_uploads.len() > 0
            invariant
                self.pending_uploads@ == uploads.take(self.pending_uploads@.len() as int),
                self.pending_uploads@.len() <= m,
                m == uploads.len(),
                rest@.len() == m - self.pending_uploads@.len(),
                self.pending_lookups@ == lookups,
                self.log == old(self).log,
                self.session_qsos == old(self).session_qsos,
                forall|k: int|
                    0 <= k < rest@.len() ==> (#[trigger] rest@[k]) == Command::UploadQso(
                        uploads[m - 1 - k].0,
                        uploads[m - 1 - k].1,
                    ),
            decreases self.pending_uploads@.len(),
        {
            let ghost had = self.pending_uploads@;
            if let Some(u) = self.pending_uploads.pop() {
                assert(u == uploads[had.len() - 1]);
                assert(self.pending_uploads@ =~= uploads.take(had.len() - 1));
                rest.push(Command::UploadQso(u.0, u.1));
            }
        }
        while self.pending_lookups.len() > 0
            invariant
                self.pending_lookups@ == lookups.take(self.pending_lookups@.len() as int),
                self.pending_lookups@.len() <= n,
                self.pending_uploads@.len() == 0,
                n == lookups.len(),
                m == uploads.len(),
                rest@.len() == m + n - self.pending_lookups@.len(),
                self.log == old(self).log,
                self.session_qsos == old(self).session_qsos,
                forall|k: int|
                    0 <= k < m ==> (#[trigger] rest@[k]) == Command::UploadQso(
                        uploads[m - 1 - k].0,
                        uploads[m - 1 - k].1,
                    ),
                forall|k: int|
                    m <= k < rest@.len() ==> (#[trigger] rest@[k]) == Command::LookupCallsign(
                        lookups[n - 1 - (k - m)],
                    ),
            decreases self.pending_lookups@.len(),
        {
            let ghost had = self.pending_lookups@;
            if let Some(c) = self.pending_lookups.pop() {
                assert(c == lookups[had.len() - 1]);
                assert(self.pending_lookups@ =~= lookups.take(had.len() - 1));
                rest.push(Command::LookupCallsign(c));
            }
        }
        let ghost back = rest@;
        let mut cmds: Vec<Command> = Vec::new();
        while rest.len() > 0
            invariant
                rest@ == back.take(rest@.len() as int),
                rest@.len() <= back.len(),
                cmds@.len() == back.len() - rest@.len(),
                forall|k: int|
                    0 <= k < cmds@.len() ==> (#[trigger] cmds@[k]) == back[back.len() - 1 - k],
            decreases rest@.len(),
        {
            let ghost had = rest@;
            if let Some(c) = rest.pop() {
                assert(c == back[had.len() - 1]);
                assert(rest@ =~= back.take(had.len() - 1));
                cmds.push(c);
            }
        }
        cmds
    }
}

/// One signal of the skimmer.
#[derive(Clone, Copy, PartialEq, Eq, Structural, Debug)]
pub struct SkimmerSpot {
    pub id: u64,
    /// Keying right now.
    pub active: bool,
    /// Which decoder found it.
    pub kind: u8,
}

/// True when a signal with this id is among them.
pub open spec fn seen(spots: Seq<SkimmerSpot>, id: u64) -> bool {
    exists|i: int| 0 <= i < spots.len() && (#[trigger] spots[i]).id == id
}

/// True when a signal with this id is keying.
pub open spec fn keying(spots: Seq<SkimmerSpot>, id: u64) -> bool {
    exists|i: int| 0 <= i < spots.len() && (#[trigger] spots[i]).id == id && spots[i].active
}

/// When a signal last keyed: now where it does or is new, else when it did.
pub open spec fn last_keyed(
    before: Map<u64, i64>,
    spots: Seq<SkimmerSpot>,
    now: i64,
    id: u64,
) -> i64 {
    if keying(spots, id) || !before.contains_key(id) {
        now
    } else {
        before[id]
    }
}

/// The skimmer reported its signals: remember when each last keyed, and forget
/// the ones that are gone.
#[verifier::rlimit(30)]
pub fn on_skimmer_spots(active_at: &mut HashMap<u64, i64>, spots: &Vec<SkimmerSpot>, now: i64)
    ensures
        forall|id: u64| #[trigger] final(active_at)@.contains_key(id) == seen(spots@, id),
        forall|id: u64|
            seen(spots@, id) ==> #[trigger] final(active_at)@[id] == last_keyed(
                old(active_at)@,
                spots@,
                now,
                id,
            ),
{
    broadcast use vstd::std_specs::hash::group_hash_axioms;

    let mut next: HashMap<u64, i64> = HashMap::new();
    let ghost before = active_at@;
    let mut i: usize = 0;
    while i < spots.len()
        invariant
            i <= spots@.len(),
            active_at@ == before,
            forall|id: u64| #[trigger]
                next@.contains_key(id) == seen(spots@.take(i as int), id),
            forall|id: u64|
                seen(spots@.take(i as int), id) ==> #[trigger] next@[id] == last_keyed(
                    before,
                    spots@.take(i as int),
                    now,
                    id,
                ),
        decreases spots@.len() - i,
    {
        broadcast use vstd::std_specs::hash::group_hash_axioms;

        let ghost prev = spots@.take(i as int);
        let ghost upto = spots@.take(i + 1);
        let ghost had = next@;
        let s: SkimmerSpot = spots[i];
        let at: i64 = if s.active {
            now
        } else {
            match next.get(&s.id) {
                Some(t) => *t,
                None => match active_at.get(&s.id) {
                    Some(t) => *t,
                    None => now,
                },
            }
        };
        proof {
            lemma_seen_step(spots@, i as int, s.id);
            if seen(prev, s.id) {
                assert(had.contains_key(s.id));
            } else {
                assert(!had.contains_key(s.id));
            }
        }
        next.insert(s.id, at);
        proof {
            assert forall|id: u64| #[trigger] next@.contains_key(id) == seen(upto, id) by {
                lemma_seen_step(spots@, i as int, id);
            }
            assert forall|id: u64| seen(upto, id) implies #[trigger] next@[id] == last_keyed(
                before,
                upto,
                now,
                id,
            ) by {
                lemma_seen_step(spots@, i as int, id);
            }
        }
        i = i + 1;
    }
    assert(spots@.take(spots@.len() as int) =~= spots@);
    *active_at = next;
}

proof fn lemma_seen_step(spots: Seq<SkimmerSpot>, i: int, id: u64)
    requires
        0 <= i < spots.len(),
    ensures
        seen(spots.take(i + 1), id) == (seen(spots.take(i), id) || spots[i].id == id),
        keying(spots.take(i + 1), id) == (keying(spots.take(i), id) || (spots[i].id == id
            && spots[i].active)),
        keying(spots.take(i), id) ==> seen(spots.take(i), id),
{
    let (a, b) = (spots.take(i), spots.take(i + 1));
    assert(b[i] == spots[i]);
    if seen(a, id) {
        let k = choose|k: int| 0 <= k < a.len() && (#[trigger] a[k]).id == id;
        assert(b[k].id == id);
    }
    if keying(a, id) {
        let k = choose|k: int| 0 <= k < a.len() && (#[trigger] a[k]).id == id && a[k].active;
        assert(b[k].id == id && b[k].active);
    }
    if seen(b, id) {
        let k = choose|k: int| 0 <= k < b.len() && (#[trigger] b[k]).id == id;
        if k < i {
            assert(a[k].id == id);
        }
    }
    if keying(b, id) {
        let k = choose|k: int| 0 <= k < b.len() && (#[trigger] b[k]).id == id && b[k].active;
        if k < i {
            assert(a[k].id == id && a[k].active);
        }
    }
}

/// The signals of the decoders that are switched on, in order.
pub open spec fn of_enabled(spots: Seq<SkimmerSpot>, enabled: Seq<u8>) -> Seq<SkimmerSpot>
    decreases spots.len(),
{
    if spots.len() == 0 {
        Seq::empty()
    } else if enabled.contains(spots.last().kind) {
        of_enabled(spots.drop_last(), enabled).push(spots.last())
    } else {
        of_enabled(spots.drop_last(), enabled)
    }
}

/// Drops the signals of decoders that were switched off.
pub fn drop_disabled(spots: &mut Vec<SkimmerSpot>, enabled: &Vec<u8>)
    ensures
        final(spots)@ == of_enabled(old(spots)@, enabled@),
{
    let mut kept: Vec<SkimmerSpot> = Vec::new();
    let mut i: usize = 0;
    assert(spots@.take(0).len() == 0);
    while i < spots.len()
        invariant
            i <= spots@.len(),
            spots@ == old(spots)@,
            kept@ == of_enabled(spots@.take(i as int), enabled@),
        decreases spots@.len() - i,
    {
        assert(spots@.take(i + 1).drop_last() =~= spots@.take(i as int));
        let mut on = false;
        let mut k: usize = 0;
        while k < enabled.len()
            invariant
                k <= enabled@.len(),
                i < spots@.len(),
                on == enabled@.take(k as int).contains(spots@[i as int].kind),
            decreases enabled@.len() - k,
        {
            proof {
                let (a, b) = (enabled@.take(k as int), enabled@.take(k + 1));
                assert(b =~= a.push(enabled@[k as int]));
                assert(b[k as int] == enabled@[k as int]);
                let x = spots@[i as int].kind;
                if a.contains(x) {
                    let j = choose|j: int| 0 <= j < a.len() && a[j] == x;
                    assert(b[j] == x);
                }
                if b.contains(x) {
                    let j = choose|j: int| 0 <= j < b.len() && b[j] == x;
                    if j < k {
                        assert(a[j] == x);
                    }
                }
            }
            if enabled[k] == spots[i].kind {
                on = true;
            }
            k = k + 1;
        }
        assert(enabled@.take(enabled@.len() as int) =~= enabled@);
        if on {
            kept.push(spots[i]);
        }
        i = i + 1;
    }
    assert(spots@.take(spots@.len() as int) =~= spots@);
    *spots = kept;
}

/// Picture mode detection: what the receiver last found, and what the next
/// transmission will use.
#[derive(Clone, Copy, PartialEq, Eq, Structural, Debug)]
pub struct PictureMode {
    pub last_detected: Option<u8>,
    pub tx_mode: u8,
    /// The preview has to be drawn again.
    pub preview_dirty: bool,
}

/// The receiver reported what it detects. A newly detected mode is taken for
/// the next transmission; a steady one is not, which would fight the
/// operator's own choice.
pub fn on_picture_status(p: &mut PictureMode, detected: Option<u8>)
    ensures
        final(p).last_detected == detected,
        final(p).tx_mode == if detected != old(p).last_detected && detected is Some {
            detected->0
        } else {
            old(p).tx_mode
        },
        final(p).preview_dirty == (old(p).preview_dirty || (detected != old(p).last_detected
            && detected is Some)),
{
    let changed = match (detected, p.last_detected) {
        (Some(a), Some(b)) => a != b,
        (None, None) => false,
        _ => true,
    };
    if changed {
        if let Some(m) = detected {
            p.tx_mode = m;
            p.preview_dirty = true;
        }
        p.last_detected = detected;
    }
}

/// Which settings dialogs have been filled in from the station.
#[derive(Clone, Copy, PartialEq, Eq, Structural, Debug)]
pub struct Seeded {
    pub net: bool,
    pub rigctld: bool,
    pub tci_server: bool,
    pub wsjtx: bool,
    pub satellites: bool,
    pub rotator: bool,
}

/// What an announcement of the station's settings is used for.
#[derive(Clone, Copy, PartialEq, Eq, Structural, Debug)]
pub struct Adopt {
    pub net: bool,
    pub rigctld: bool,
    pub tci_server: bool,
    pub wsjtx: bool,
    pub satellites: bool,
    pub rotator: bool,
    pub region: bool,
    pub band_plan: bool,
}

/// The station announced its settings. Each dialog is filled in once, so that
/// typing sticks; the region is taken every time, and the band plan where it
/// differs.
pub fn on_station_config(s: &mut Seeded, same_band_plan: bool) -> (a: Adopt)
    ensures
        *final(s) == (Seeded {
            net: true,
            rigctld: true,
            tci_server: true,
            wsjtx: true,
            satellites: true,
            rotator: true,
        }),
        a == (Adopt {
            net: !old(s).net,
            rigctld: !old(s).rigctld,
            tci_server: !old(s).tci_server,
            wsjtx: !old(s).wsjtx,
            satellites: !old(s).satellites,
            rotator: !old(s).rotator,
            region: true,
            band_plan: !same_band_plan,
        }),
{
    let a = Adopt {
        net: !s.net,
        rigctld: !s.rigctld,
        tci_server: !s.tci_server,
        wsjtx: !s.wsjtx,
        satellites: !s.satellites,
        rotator: !s.rotator,
        region: true,
        band_plan: !same_band_plan,
    };
    *s = Seeded {
        net: true,
        rigctld: true,
        tci_server: true,
        wsjtx: true,
        satellites: true,
        rotator: true,
    };
    a
}

/// The engine reported its mode's settings: they fill the dialog in once.
pub fn on_digi_status(seeded: &mut bool) -> (adopt: bool)
    ensures
        adopt == !*old(seeded),
        *final(seeded),
{
    let adopt = !*seeded;
    *seeded = true;
    adopt
}

proof fn lemma_tried(cmds: Seq<Command>, c: Command)
    ensures
        tried(cmds.push(c)) == match c {
            Command::TestLogin(t) => tried(cmds).insert(t),
            _ => tried(cmds),
        },
{
    assert forall|t: u8| #[trigger]
        cmds.push(c).contains(Command::TestLogin(t)) == (cmds.contains(Command::TestLogin(t)) || c
            == Command::TestLogin(t)) by {
        if cmds.contains(Command::TestLogin(t)) {
            let k = choose|k: int| 0 <= k < cmds.len() && cmds[k] == Command::TestLogin(t);
            assert(cmds.push(c)[k] == Command::TestLogin(t));
        }
        assert(cmds.push(c)[cmds.len() as int] == c);
    }
    assert(tried(cmds.push(c)) =~= match c {
        Command::TestLogin(t) => tried(cmds).insert(t),
        _ => tried(cmds),
    });
}

/// Sign-ins being tried, and how each last went.
#[derive(Debug)]
pub struct LoginTests {
    pub pending: HashMap<u8, bool>,
    pub results: HashMap<u8, (bool, String)>,
}

/// The sign-ins that a batch of requests tries.
pub open spec fn tried(cmds: Seq<Command>) -> Set<u8> {
    Set::new(|t: u8| cmds.contains(Command::TestLogin(t)))
}

impl LoginTests {
    /// Requests went out: each sign-in that they try is pending, and its last
    /// outcome no longer counts.
    pub fn on_commands(&mut self, cmds: &Vec<Command>)
        ensures
            final(self).pending@.dom() == old(self).pending@.dom().union(tried(cmds@)),
            final(self).results@ == old(self).results@.remove_keys(tried(cmds@)),
    {
        let mut i: usize = 0;
        assert(self.pending@.dom() =~= old(self).pending@.dom().union(tried(cmds@.take(0))));
        assert(self.results@ =~= old(self).results@.remove_keys(tried(cmds@.take(0))));
        while i < cmds.len()
            invariant
                i <= cmds@.len(),
                self.pending@.dom() == old(self).pending@.dom().union(tried(cmds@.take(i as int))),
                self.results@ == old(self).results@.remove_keys(tried(cmds@.take(i as int))),
            decreases cmds@.len() - i,
        {
            let ghost before = cmds@.take(i as int);
            proof {
                assert(cmds@.take(i + 1) =~= before.push(cmds@[i as int]));
                lemma_tried(before, cmds@[i as int]);
            }
            if let Command::TestLogin(t) = &cmds[i] {
                self.on_sent(*t);
                assert(self.pending@.dom() =~= old(self).pending@.dom().union(
                    tried(cmds@.take(i + 1)),
                ));
                assert(self.results@ =~= old(self).results@.remove_keys(tried(cmds@.take(i + 1))));
            }
            i = i + 1;
        }
        assert(cmds@.take(i as int) =~= cmds@);
    }

    /// A try went out: it is pending, and the last outcome no longer counts.
    pub fn on_sent(&mut self, target: u8)
        ensures
            final(self).pending@.dom() == old(self).pending@.dom().insert(target),
            final(self).results@ == old(self).results@.remove(target),
    {
        broadcast use vstd::std_specs::hash::group_hash_axioms;

        self.pending.insert(target, true);
        self.results.remove(&target);
        assert(self.pending@.dom() =~= old(self).pending@.dom().insert(target));
    }

    /// A try was answered: it is no longer pending, its outcome is kept, and
    /// the network log says how it went.
    pub fn on_result(
        &mut self,
        target: u8,
        label: &str,
        ok: bool,
        message: String,
        net_log: &mut Vec<String>,
    )
        ensures
            final(self).pending@ == old(self).pending@.remove(target),
            final(self).results@ == old(self).results@.insert(target, (ok, message)),
            texts(final(net_log)@) == with_line(
                texts(old(net_log)@),
                label@ + ": "@ + (if ok {
                    "ok, "@ + message@
                } else {
                    message@
                }),
            ),
    {
        broadcast use vstd::std_specs::hash::group_hash_axioms;

        self.pending.remove(&target);
        let mut line = cat(label, ": ");
        let said = if ok {
            cat("ok, ", message.as_str())
        } else {
            message.clone()
        };
        line.append(said.as_str());
        push_net_log(net_log, line);
        self.results.insert(target, (ok, message));
    }
}

/// What a panadapter frame does to the one at hand in the same pass: a frame
/// that supersedes another nothing will draw carries that one's rows on.
pub fn carries_rows(superseded: bool, has_frame: bool) -> (r: bool)
    ensures
        r == (superseded && has_frame),
{
    superseded && has_frame
}

/// Of a list with a batch put in front, the batch comes first in its own order,
/// then what was there before; what does not fit falls off the end.
pub proof fn law_the_newest_batch_leads<T>(list: Seq<T>, batch: Seq<T>, cap: int)
    requires
        cap >= 0,
    ensures
        ({
            let all = first_of(batch + list, cap);
            &&& all.len() == if batch.len() + list.len() < cap {
                batch.len() + list.len()
            } else {
                cap as nat
            }
            &&& forall|i: int|
                0 <= i < all.len() ==> #[trigger] all[i] == if i < batch.len() {
                    batch[i]
                } else {
                    list[i - batch.len()]
                }
        }),
{
}

/// A signal that keys, or is heard for the first time, counts as heard now; any
/// other keeps the moment it last keyed.
pub proof fn law_silent_signals_keep_their_moment(
    before: Map<u64, i64>,
    spots: Seq<SkimmerSpot>,
    now: i64,
    i: int,
)
    requires
        0 <= i < spots.len(),
    ensures
        spots[i].active ==> last_keyed(before, spots, now, spots[i].id) == now,
        !before.contains_key(spots[i].id) ==> last_keyed(before, spots, now, spots[i].id) == now,
        before.contains_key(spots[i].id) && (forall|j: int|
            0 <= j < spots.len() && (#[trigger] spots[j]).id == spots[i].id ==> !spots[j].active)
            ==> last_keyed(before, spots, now, spots[i].id) == before[spots[i].id],
        seen(spots, spots[i].id),
{
}

/// Only signals of decoders that are switched on stay, and all of those do, in
/// their order.
pub proof fn law_only_enabled_decoders_show(spots: Seq<SkimmerSpot>, enabled: Seq<u8>, s: SkimmerSpot)
    ensures
        of_enabled(spots, enabled).contains(s) == (spots.contains(s) && enabled.contains(s.kind)),
        of_enabled(spots, enabled).len() <= spots.len(),
        (forall|i: int| 0 <= i < spots.len() ==> enabled.contains((#[trigger] spots[i]).kind))
            ==> of_enabled(spots, enabled) == spots,
    decreases spots.len(),
{
    if spots.len() > 0 {
        let init = spots.drop_last();
        law_only_enabled_decoders_show(init, enabled, s);
        let rest = of_enabled(init, enabled);
        assert(spots =~= init.push(spots.last()));
        if spots.contains(s) {
            let i = choose|i: int| 0 <= i < spots.len() && spots[i] == s;
            if i < init.len() {
                assert(init[i] == s);
            }
        }
        if init.contains(s) {
            let i = choose|i: int| 0 <= i < init.len() && init[i] == s;
            assert(spots[i] == s);
        }
        assert(spots[spots.len() - 1] == spots.last());
        if enabled.contains(spots.last().kind) {
            let all = rest.push(spots.last());
            if rest.contains(s) {
                let i = choose|i: int| 0 <= i < rest.len() && rest[i] == s;
                assert(all[i] == s);
            }
            if all.contains(s) {
                let i = choose|i: int| 0 <= i < all.len() && all[i] == s;
                if i < rest.len() {
                    assert(rest[i] == s);
                }
            }
            assert(all[rest.len() as int] == spots.last());
        }
        if forall|i: int| 0 <= i < spots.len() ==> enabled.contains((#[trigger] spots[i]).kind) {
            assert forall|i: int| 0 <= i < init.len() implies enabled.contains(
                (#[trigger] init[i]).kind,
            ) by {
                assert(init[i] == spots[i]);
            }
            assert(enabled.contains(spots[spots.len() - 1].kind));
        }
    }
}

/// A sign-in is tried exactly by a request that names it.
pub proof fn law_requests_name_their_sign_in(cmds: Seq<Command>, t: u8)
    ensures
        tried(cmds).contains(t) == exists|i: int|
            0 <= i < cmds.len() && #[trigger] cmds[i] == Command::TestLogin(t),
{
    if exists|i: int| 0 <= i < cmds.len() && #[trigger] cmds[i] == Command::TestLogin(t) {
        let i = choose|i: int| 0 <= i < cmds.len() && #[trigger] cmds[i] == Command::TestLogin(t);
        assert(cmds.contains(cmds[i]));
    }
}

/// Every queued lookup and every queued upload is sent once, the lookups first and
/// each kind in the order it was queued.
pub proof fn law_queued_requests_are_sent_in_order(s: LogSession, cmds: Seq<Command>, i: int)
    requires
        s.is_flushed(cmds),
    ensures
        cmds.len() == s.pending_lookups@.len() + s.pending_uploads@.len(),
        0 <= i < s.pending_lookups@.len() ==> cmds[i] == Command::LookupCallsign(
            s.pending_lookups@[i],
        ),
        0 <= i < s.pending_uploads@.len() ==> cmds[s.pending_lookups@.len() + i]
            == Command::UploadQso(s.pending_uploads@[i].0, s.pending_uploads@[i].1),
{
    if 0 <= i < s.pending_uploads@.len() {
        let k = s.pending_lookups@.len() + i;
        assert(cmds[k] == Command::UploadQso(
            s.pending_uploads@[k - s.pending_lookups@.len()].0,
            s.pending_uploads@[k - s.pending_lookups@.len()].1,
        ));
    }
}

} // verus!
