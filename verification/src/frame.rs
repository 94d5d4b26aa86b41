//! What one frame of the window decides: the span in view, the banner, what is
//! sent to the radio, and when the next frame is due.

use vstd::prelude::*;

use crate::command::Command;
use crate::events::LogSession;
use crate::ink::Ink;
use crate::mode::Mode;

verus! {

/// The wait between frames while nothing streams, in milliseconds.
pub const IDLE_POLL_MS: u64 = 250;

/// How long after the last frame a stream counts as stalled.
pub const STREAM_STALE_MS: i64 = 1_000;

/// Frequencies stay below this many thousandths of a hertz.
pub const FREQ_END: i64 = 1_000_000_000_000_000;

/// A span of spectrum, in thousandths of a hertz.
#[derive(Clone, Copy, PartialEq, Eq, Structural, Debug)]
pub struct Span {
    pub lo: i64,
    pub hi: i64,
}

/// The part of the band that a digital mode is worked in, around the dial.
/// `width_hz` is the receiver's passband where the mode straddles its dial.
pub open spec fn sub_band_of(
    mode: Mode,
    dial: int,
    straddles: bool,
    width_hz: int,
) -> (int, int) {
    if mode == Mode::Adsb {
        (dial - 1_500_000_000, dial + 1_500_000_000)
    } else if mode == Mode::Aprs {
        (dial - 150_000_000, dial + 150_000_000)
    } else if straddles {
        (dial - 600 * width_hz, dial + 600 * width_hz)
    } else if mode == Mode::RfPaint {
        (dial + 150_000, dial + 3_450_000)
    } else {
        (dial - 200_000, dial + 3_500_000)
    }
}

/// The part of the band that a digital mode is worked in.
pub fn sub_band(mode: Mode, dial: i64, straddles: bool, width_hz: u32) -> (s: Span)
    requires
        -FREQ_END < dial < FREQ_END,
    ensures
        (s.lo as int, s.hi as int) == sub_band_of(mode, dial as int, straddles, width_hz as int),
{
    if mode == Mode::Adsb {
        Span { lo: dial - 1_500_000_000, hi: dial + 1_500_000_000 }
    } else if mode == Mode::Aprs {
        Span { lo: dial - 150_000_000, hi: dial + 150_000_000 }
    } else if straddles {
        let half: i64 = 600 * width_hz as i64;
        Span { lo: dial - half, hi: dial + half }
    } else if mode == Mode::RfPaint {
        Span { lo: dial + 150_000, hi: dial + 3_450_000 }
    } else {
        Span { lo: dial - 200_000, hi: dial + 3_500_000 }
    }
}

/// What a view was last fitted to.
#[derive(Clone, Copy, PartialEq, Eq, Structural, Debug)]
pub struct Fit {
    pub mode: Mode,
    /// The mode works in fixed turns of the clock.
    pub slotted: bool,
    pub dial: i64,
    pub center: i64,
}

/// The span in view, the voice-mode span to go back to, and the last fit.
#[derive(Clone, Copy, PartialEq, Eq, Structural, Debug)]
pub struct PanView {
    pub span: Span,
    pub pre_digi: Option<Span>,
    pub fit: Option<Fit>,
}

/// True when two spans share some spectrum.
pub open spec fn overlap(a: Span, b: Span) -> bool {
    a.lo < b.hi && a.hi > b.lo
}

/// True when the view is fitted to the sub-band: always in the modes that work
/// a fixed allocation, on a change of mode, and on a retune that takes the
/// sub-band out of view.
pub open spec fn refits(v: PanView, at: Fit, sub: Span) -> bool {
    ||| at.slotted || at.mode == Mode::Wspr
    ||| v.fit is None || v.fit->0.mode != at.mode
    ||| (v.fit->0.dial != at.dial || v.fit->0.center != at.center) && !overlap(v.span, sub)
}

/// The view in a digital mode.
pub open spec fn digital_view(v: PanView, at: Fit, sub: Span) -> PanView {
    PanView {
        span: if refits(v, at, sub) {
            sub
        } else {
            v.span
        },
        pre_digi: if v.pre_digi is None {
            Some(v.span)
        } else {
            v.pre_digi
        },
        fit: Some(at),
    }
}

/// The view in a voice mode: the span from before the digital mode comes back
/// once, and the fit is forgotten.
pub open spec fn voice_view(v: PanView) -> PanView {
    PanView {
        span: match v.pre_digi {
            Some(s) => s,
            None => v.span,
        },
        pre_digi: None,
        fit: None,
    }
}

/// Brings the view to a digital mode.
pub fn show_digital(v: &mut PanView, at: Fit, sub: Span)
    ensures
        *final(v) == digital_view(*old(v), at, sub),
{
    if v.pre_digi.is_none() {
        v.pre_digi = Some(v.span);
    }
    let locked = at.slotted || at.mode == Mode::Wspr;
    let (mode_changed, moved) = match v.fit {
        Some(f) => (f.mode != at.mode, f.dial != at.dial || f.center != at.center),
        None => (true, true),
    };
    let visible = v.span.lo < sub.hi && v.span.hi > sub.lo;
    if locked || mode_changed || (moved && !visible) {
        v.span = sub;
    }
    v.fit = Some(at);
}

/// Brings the view to a voice mode.
pub fn show_voice(v: &mut PanView)
    ensures
        *final(v) == voice_view(*old(v)),
{
    if let Some(s) = v.pre_digi {
        v.span = s;
    }
    v.pre_digi = None;
    v.fit = None;
}

/// The view after any number of digital frames.
pub open spec fn digital_run(v: PanView, frames: Seq<(Fit, Span)>) -> PanView
    decreases frames.len(),
{
    if frames.len() == 0 {
        v
    } else {
        let (at, sub) = frames.last();
        digital_view(digital_run(v, frames.drop_last()), at, sub)
    }
}

/// Leaving the digital modes, after however many of them, brings back the span
/// that was in view before the first.
pub proof fn law_the_voice_view_comes_back(v: PanView, frames: Seq<(Fit, Span)>)
    requires
        v.pre_digi is None,
    ensures
        voice_view(digital_run(v, frames)).span == v.span,
        voice_view(digital_run(v, frames)).pre_digi is None,
        frames.len() > 0 ==> digital_run(v, frames).pre_digi == Some(v.span),
    decreases frames.len(),
{
    if frames.len() > 0 {
        law_the_voice_view_comes_back(v, frames.drop_last());
    }
}

/// A view that still shows the sub-band keeps the operator's zoom while the
/// mode stays, in every mode that does not work a fixed allocation.
pub proof fn law_zoom_survives_tuning_in_view(v: PanView, at: Fit, sub: Span)
    requires
        !at.slotted && at.mode != Mode::Wspr,
        v.fit matches Some(f) && f.mode == at.mode,
        overlap(v.span, sub),
    ensures
        digital_view(v, at, sub).span == v.span,
{
}

/// What a mode's tuning lines are drawn from, in thousandths of a hertz.
#[derive(Clone, Copy, PartialEq, Eq, Structural, Debug)]
pub struct Tones {
    pub audio: i64,
    pub rtty_shift: i64,
    pub olivia_width: i64,
    pub thor_baud: i64,
    pub js8_width: i64,
    pub fsq_baud: i64,
    pub hell_width: i64,
}

/// What the tuning lines are drawn from before the radio has reported, given
/// the width of the variant of the raster mode that is set at first.
pub open spec fn first_tones(hell_width: i64) -> Tones {
    Tones {
        audio: 1_500_000,
        rtty_shift: 170_000,
        olivia_width: 1_000_000,
        thor_baud: 15_625,
        js8_width: 50_000,
        fsq_baud: 4_500,
        hell_width,
    }
}

/// What the tuning lines are drawn from: what the radio has reported, and the
/// usual figures before it has. The radio reports the width of the
/// keyboard-message mode only where it runs that mode.
pub fn tones(reported: Option<Tones>, has_js8: bool, hell_width: i64) -> (t: Tones)
    ensures
        t == match reported {
            Some(r) => if has_js8 {
                r
            } else {
                Tones { js8_width: 50_000, ..r }
            },
            None => first_tones(hell_width),
        },
{
    match reported {
        Some(r) => if has_js8 {
            r
        } else {
            Tones { js8_width: 50_000, ..r }
        },
        None => Tones {
            audio: 1_500_000,
            rtty_shift: 170_000,
            olivia_width: 1_000_000,
            thor_baud: 15_625,
            js8_width: 50_000,
            fsq_baud: 4_500,
            hell_width,
        },
    }
}

/// Two lines a width apart, the audio offset between them.
pub open spec fn around(audio: int, width: int) -> Seq<i64> {
    seq![(audio - width / 2) as i64, (audio + width / 2) as i64]
}

/// The tuning lines of a mode.
pub open spec fn markers_of(mode: Mode, t: Tones) -> Seq<i64> {
    match mode {
        Mode::Rtty => around(t.audio as int, t.rtty_shift as int),
        Mode::Olivia => around(t.audio as int, t.olivia_width as int),
        Mode::Thor => around(t.audio as int, 18 * t.thor_baud),
        Mode::Js8 => seq![t.audio, (t.audio + t.js8_width) as i64],
        Mode::Fsq => around(t.audio as int, 33 * t.fsq_baud),
        Mode::Hell => around(t.audio as int, t.hell_width as int),
        Mode::RfPaint => seq![300_000, 3_300_000],
        Mode::Rade => seq![1_062_000, 1_876_000],
        _ => seq![],
    }
}

fn pair(audio: i64, width: i64) -> (v: Vec<i64>)
    requires
        0 <= audio < FREQ_END,
        0 <= width < FREQ_END,
    ensures
        v@ == around(audio as int, width as int),
{
    let mut v: Vec<i64> = Vec::new();
    v.push(audio - width / 2);
    v.push(audio + width / 2);
    assert(v@ =~= around(audio as int, width as int));
    v
}

/// The tuning lines of a mode: mark and space, the edges of a tone bank, or the
/// band that is painted.
pub fn markers(mode: Mode, t: Tones) -> (v: Vec<i64>)
    requires
        0 <= t.audio < FREQ_END,
        0 <= t.rtty_shift < FREQ_END,
        0 <= t.olivia_width < FREQ_END,
        0 <= t.thor_baud < FREQ_END / 64,
        0 <= t.js8_width < FREQ_END,
        0 <= t.fsq_baud < FREQ_END / 64,
        0 <= t.hell_width < FREQ_END,
    ensures
        v@ == markers_of(mode, t),
{
    match mode {
        Mode::Rtty => pair(t.audio, t.rtty_shift),
        Mode::Olivia => pair(t.audio, t.olivia_width),
        Mode::Thor => pair(t.audio, 18 * t.thor_baud),
        Mode::Js8 => {
            let hi: i64 = t.audio + t.js8_width;
            let v = vec![t.audio, hi];
            assert(v@ =~= markers_of(mode, t));
            v
        },
        Mode::Fsq => pair(t.audio, 33 * t.fsq_baud),
        Mode::Hell => pair(t.audio, t.hell_width),
        Mode::RfPaint => {
            let v = vec![300_000i64, 3_300_000i64];
            assert(v@ =~= markers_of(mode, t));
            v
        },
        Mode::Rade => {
            let v = vec![1_062_000i64, 1_876_000i64];
            assert(v@ =~= markers_of(mode, t));
            v
        },
        _ => {
            let v: Vec<i64> = Vec::new();
            assert(v@ =~= markers_of(mode, t));
            v
        },
    }
}

/// The cursor on the panadapter, in thousandths of a hertz from the dial.
#[derive(Clone, Copy, PartialEq, Eq, Structural, Debug)]
pub struct Cursor {
    pub tone: i64,
    /// A click moves the tone; else it tunes the dial, so that the signal lands
    /// on the cursor.
    pub click_sets_tone: bool,
}

/// The cursor: at the tone of a digital mode, or at the pitch that is copied in
/// CW, which no other analog mode has. A mode that holds to standard tones is
/// tuned by its dial.
pub open spec fn cursor_of(
    digital: bool,
    mode: Mode,
    standard_tones: bool,
    reported: Option<i64>,
) -> Option<Cursor> {
    if digital {
        Some(
            Cursor {
                tone: match reported {
                    Some(t) => t,
                    None => 1_500_000,
                },
                click_sets_tone: !standard_tones,
            },
        )
    } else if mode == Mode::Cw {
        Some(
            Cursor {
                tone: match reported {
                    Some(t) => t,
                    None => 700_000,
                },
                click_sets_tone: false,
            },
        )
    } else {
        None
    }
}

/// The cursor on the panadapter.
pub fn cursor(digital: bool, mode: Mode, standard_tones: bool, reported: Option<i64>) -> (c: Option<
    Cursor,
>)
    ensures
        c == cursor_of(digital, mode, standard_tones, reported),
{
    if digital {
        let tone: i64 = match reported {
            Some(t) => t,
            None => 1_500_000,
        };
        Some(Cursor { tone, click_sets_tone: !standard_tones })
    } else if mode == Mode::Cw {
        let tone: i64 = match reported {
            Some(t) => t,
            None => 700_000,
        };
        Some(Cursor { tone, click_sets_tone: false })
    } else {
        None
    }
}

/// Who beside the operator places the transmit tone.
#[derive(Clone, Copy, PartialEq, Eq, Structural, Debug)]
pub struct ToneRules {
    pub auto_tx: bool,
    pub hold_tx: bool,
    /// The expedition rules of the two modes that have them.
    pub expedition: bool,
}

/// Who places the transmit tone. Only the slotted modes have an engine that
/// does; before it has reported, it is taken to pick the tone and not to hold
/// it.
pub fn tone_rules(
    mode: Mode,
    slotted: bool,
    auto_tx: Option<bool>,
    hold_tx: Option<bool>,
    expedition: Option<bool>,
) -> (r: ToneRules)
    ensures
        r.auto_tx == (slotted && auto_tx != Some(false)),
        r.hold_tx == (slotted && hold_tx == Some(true)),
        r.expedition == ((mode == Mode::Ft8 || mode == Mode::Ft2) && expedition == Some(true)),
{
    let auto = match auto_tx {
        Some(b) => b,
        None => true,
    };
    let hold = match hold_tx {
        Some(b) => b,
        None => false,
    };
    let dx = match expedition {
        Some(b) => b,
        None => false,
    };
    ToneRules {
        auto_tx: slotted && auto,
        hold_tx: slotted && hold,
        expedition: (mode == Mode::Ft8 || mode == Mode::Ft2) && dx,
    }
}

/// The colours of a notice: wash, rule, mark and ink.
pub fn notice_banner_colors(light: bool) -> (c: (Ink, Ink, Ink, Ink))
    ensures
        c == if light {
            (
                Ink::Rgb(255, 243, 205),
                Ink::Rgb(178, 122, 0),
                Ink::Rgb(140, 92, 0),
                Ink::Rgb(58, 44, 8),
            )
        } else {
            (
                Ink::Rgb(60, 45, 10),
                Ink::Rgb(210, 160, 40),
                Ink::Rgb(255, 190, 70),
                Ink::Rgb(240, 220, 180),
            )
        },
{
    if light {
        (
            Ink::Rgb(255, 243, 205),
            Ink::Rgb(178, 122, 0),
            Ink::Rgb(140, 92, 0),
            Ink::Rgb(58, 44, 8),
        )
    } else {
        (
            Ink::Rgb(60, 45, 10),
            Ink::Rgb(210, 160, 40),
            Ink::Rgb(255, 190, 70),
            Ink::Rgb(240, 220, 180),
        )
    }
}

/// The button on the radio's notice.
#[derive(Clone, Copy, PartialEq, Eq, Structural, Debug)]
pub enum BannerButton {
    /// Clears the tripped guard in the engine.
    Acknowledge,
    /// Only takes the notice away.
    Dismiss,
}

/// The button on the radio's notice: a tripped guard has to be acknowledged.
pub fn banner_button(swr_tripped: bool) -> (b: BannerButton)
    ensures
        b == if swr_tripped {
            BannerButton::Acknowledge
        } else {
            BannerButton::Dismiss
        },
{
    if swr_tripped {
        BannerButton::Acknowledge
    } else {
        BannerButton::Dismiss
    }
}

/// Presses the button: the notice goes, and a tripped guard is cleared in the
/// engine with it.
pub fn press_banner(swr_tripped: bool, notice: &mut Option<String>, cmds: &mut Vec<Command>)
    ensures
        *final(notice) is None,
        final(cmds)@ == if swr_tripped {
            old(cmds)@.push(Command::ClearSwrTrip)
        } else {
            old(cmds)@
        },
{
    *notice = None;
    if swr_tripped {
        cmds.push(Command::ClearSwrTrip);
    }
}

/// The window is closing: a transmitter that the console keys is switched off.
pub fn on_close(keying: &mut bool, cmds: &mut Vec<Command>)
    ensures
        !*final(keying),
        final(cmds)@ == if *old(keying) {
            old(cmds)@.push(Command::SetPtt(false))
        } else {
            old(cmds)@
        },
{
    if *keying {
        *keying = false;
        cmds.push(Command::SetPtt(false));
    }
}

/// What the check for a new release brought.
#[derive(Debug)]
pub enum Release {
    Newer(String),
    /// The check is over and brought nothing.
    Gone,
    /// The check is still on its way.
    Waiting,
}

/// Takes in what the check for a new release brought. At most one answer
/// comes.
pub fn on_release(r: Release, fetching: &mut bool, notice: &mut Option<String>)
    requires
        *old(fetching),
    ensures
        *final(fetching) == (r is Waiting),
        *final(notice) == match r {
            Release::Newer(v) => Some(v),
            _ => *old(notice),
        },
{
    match r {
        Release::Newer(v) => {
            *notice = Some(v);
            *fetching = false;
        },
        Release::Gone => {
            *fetching = false;
        },
        Release::Waiting => {},
    }
}

/// True while the warning about the transmit lockout stands: until it is
/// acknowledged, in every run anew.
pub fn lockout_warning(oob_tx: bool, acknowledged: bool) -> (r: bool)
    ensures
        r == (oob_tx && !acknowledged),
{
    oob_tx && !acknowledged
}

/// What the engine is asked to compute of the spectrum.
#[derive(Clone, Copy, PartialEq, Eq, Structural, Debug)]
pub struct SpectrumCfg {
    pub lo: i64,
    pub hi: i64,
    pub bins: u32,
    pub fps: u32,
}

/// The settings that were sent, the ones that are wanted, and since when.
#[derive(Clone, Copy, PartialEq, Eq, Structural, Debug)]
pub struct CfgDebounce {
    pub sent: Option<SpectrumCfg>,
    pub wanted: Option<SpectrumCfg>,
    pub since: i64,
}

/// One frame in which `ideal` is wanted and what was sent will not do.
pub open spec fn cfg_step(d: CfgDebounce, ideal: SpectrumCfg, now: i64, wait: int) -> CfgDebounce {
    let since = if d.wanted == Some(ideal) {
        d.since
    } else {
        now
    };
    CfgDebounce {
        sent: if d.sent is None || now - since >= wait {
            Some(ideal)
        } else {
            d.sent
        },
        wanted: Some(ideal),
        since,
    }
}

/// True when that frame sends the settings.
pub open spec fn cfg_sends(d: CfgDebounce, ideal: SpectrumCfg, now: i64, wait: int) -> bool {
    d.sent is None || now - (if d.wanted == Some(ideal) {
        d.since
    } else {
        now
    }) >= wait
}

/// Asks for other settings of the spectrum: at once the first time, later only
/// when they have been wanted for `wait` milliseconds. Behind a sign-in nothing
/// is asked for and nothing is remembered.
pub fn debounce_cfg(
    d: &mut CfgDebounce,
    area: MainArea,
    ideal: SpectrumCfg,
    now: i64,
    wait: u32,
) -> (c: Option<Command>)
    ensures
        area == MainArea::SignIn ==> *final(d) == *old(d) && c is None,
        area != MainArea::SignIn ==> {
            &&& *final(d) == cfg_step(*old(d), ideal, now, wait as int)
            &&& c == if cfg_sends(*old(d), ideal, now, wait as int) {
                Some(Command::SetSpectrumCfg(ideal))
            } else {
                None
            }
        },
{
    if area == MainArea::SignIn {
        return None;
    }
    let unchanged = match d.wanted {
        Some(w) => w == ideal,
        None => false,
    };
    if !unchanged {
        d.wanted = Some(ideal);
        d.since = now;
    }
    if d.sent.is_none() || now as i128 - d.since as i128 >= wait as i128 {
        d.sent = Some(ideal);
        Some(Command::SetSpectrumCfg(ideal))
    } else {
        None
    }
}

/// A new session starts on the engine's own settings of the spectrum: what the
/// old one was told is forgotten, so that the next frame asks again.
pub fn forget_cfg(d: &mut CfgDebounce)
    ensures
        *final(d) == (CfgDebounce { sent: None, wanted: None, ..*old(d) }),
        forall|ideal: SpectrumCfg, now: i64, wait: int| #[trigger]
            cfg_sends(*final(d), ideal, now, wait),
{
    d.sent = None;
    d.wanted = None;
}

/// The view that the skimmers were told, the one that is wanted, since when.
#[derive(Clone, Copy, PartialEq, Eq, Structural, Debug)]
pub struct SkimDebounce {
    pub sent: Option<Span>,
    pub wanted: Option<Span>,
    pub since: i64,
}

/// True when a view differs from the one that was sent by more than a
/// hundredth of its width at either end.
pub open spec fn view_moved(sent: Option<Span>, want: Span) -> bool {
    match sent {
        None => true,
        Some(s) => {
            let w = abs(want.hi - want.lo);
            100 * abs(s.lo - want.lo) > w || 100 * abs(s.hi - want.hi) > w
        },
    }
}

/// The size of a difference.
pub open spec fn abs(n: int) -> int {
    if n < 0 {
        -n
    } else {
        n
    }
}

fn size(n: i128) -> (r: i128)
    requires
        -0x1_0000_0000_0000_0000 <= n <= 0x1_0000_0000_0000_0000,
    ensures
        r == abs(n as int),
{
    if n < 0 {
        -n
    } else {
        n
    }
}

/// Tells the skimmers what is in view: only once a moved view has been wanted
/// for `wait` milliseconds, and never behind a sign-in. Every change throws
/// away decoders that are part way through a callsign.
pub fn debounce_skimmer_view(
    d: &mut SkimDebounce,
    area: MainArea,
    want: Span,
    now: i64,
    wait: u32,
) -> (c: Option<Command>)
    ensures
        area == MainArea::SignIn || !view_moved(old(d).sent, want) ==> *final(d) == *old(d)
            && c is None,
        area != MainArea::SignIn && view_moved(old(d).sent, want) ==> {
            let since = if old(d).wanted == Some(want) {
                old(d).since
            } else {
                now
            };
            &&& final(d).wanted == Some(want)
            &&& final(d).since == since
            &&& if now - since >= wait {
                final(d).sent == Some(want) && c == Some(Command::SetSkimmerView(want.lo, want.hi))
            } else {
                final(d).sent == old(d).sent && c is None
            }
        },
{
    if area == MainArea::SignIn {
        return None;
    }
    let moved = match d.sent {
        None => true,
        Some(s) => {
            let w: i128 = size(want.hi as i128 - want.lo as i128);
            100 * size(s.lo as i128 - want.lo as i128) > w || 100 * size(
                s.hi as i128 - want.hi as i128,
            ) > w
        },
    };
    if !moved {
        return None;
    }
    let unchanged = match d.wanted {
        Some(s) => s == want,
        None => false,
    };
    if !unchanged {
        d.wanted = Some(want);
        d.since = now;
    }
    if now as i128 - d.since as i128 >= wait as i128 {
        d.sent = Some(want);
        Some(Command::SetSkimmerView(want.lo, want.hi))
    } else {
        None
    }
}

/// True while spectrum frames arrive.
pub fn is_live(has_frame: bool, now: i64, last_frame: i64) -> (r: bool)
    ensures
        r == (has_frame && now - last_frame < STREAM_STALE_MS),
{
    has_frame && (now as i128 - last_frame as i128) < STREAM_STALE_MS as i128
}

/// How long to wait for the next frame, in milliseconds: one frame of the
/// stream while something streams, the idle wait otherwise, and never beyond
/// the moment speech has to go on.
pub open spec fn wait_of(streaming: bool, fps: u32, speech_in: Option<i64>) -> int {
    let base = if streaming {
        1000int / (if fps > 0 {
            fps as int
        } else {
            1
        })
    } else {
        IDLE_POLL_MS as int
    };
    match speech_in {
        Some(ms) => {
            let m = if ms < 1 {
                1
            } else {
                ms as int
            };
            if m < base {
                m
            } else {
                base
            }
        },
        None => base,
    }
}

/// How long to wait for the next frame, in milliseconds.
pub fn wait_ms(streaming: bool, fps: u32, speech_in: Option<i64>) -> (w: u64)
    ensures
        w == wait_of(streaming, fps, speech_in),
{
    let base: u64 = if streaming {
        1000 / (if fps > 0 {
            fps as u64
        } else {
            1
        })
    } else {
        IDLE_POLL_MS
    };
    match speech_in {
        Some(ms) => {
            let m: u64 = if ms < 1 {
                1
            } else {
                ms as u64
            };
            if m < base {
                m
            } else {
                base
            }
        },
        None => base,
    }
}

/// No frame of a stream is missed for want of asking, and an idle window is
/// never left for longer than the idle wait.
pub proof fn law_no_frame_is_slept_through(streaming: bool, fps: u32, speech_in: Option<i64>)
    requires
        fps > 0,
    ensures
        streaming ==> wait_of(streaming, fps, speech_in) * fps <= 1000,
        !streaming ==> wait_of(streaming, fps, speech_in) <= IDLE_POLL_MS,
        wait_of(streaming, fps, speech_in) >= 0,
        speech_in matches Some(ms) && ms >= 1 ==> wait_of(streaming, fps, speech_in) <= speech_in->0,
{
    let q = 1000int / fps as int;
    assert(q * fps <= 1000) by (nonlinear_arith)
        requires
            q == 1000int / fps as int,
            fps > 0,
    ;
    assert(q >= 0) by (nonlinear_arith)
        requires
            q == 1000int / fps as int,
            fps > 0,
    ;
    let w = wait_of(streaming, fps, speech_in);
    if streaming {
        assert(w <= q);
        assert(w * fps <= q * fps) by (nonlinear_arith)
            requires
                w <= q,
                fps > 0,
        ;
    }
}

/// How far out a bound zoom may go: centre and width of the span. The
/// full-band lane where the front end shows more than its passband, else the
/// passband.
pub fn zoom_out(
    seen: Option<(i64, i64)>,
    stated: i64,
    center: i64,
    sample_rate: i64,
) -> (r: (i64, i64))
    ensures
        r == (match seen {
            Some((c, span)) => {
                let widest = if span > stated {
                    span
                } else {
                    stated
                };
                if widest > sample_rate {
                    (c, widest)
                } else {
                    (center, sample_rate)
                }
            },
            None => if stated > sample_rate {
                (center, stated)
            } else {
                (center, sample_rate)
            },
        }),
{
    match seen {
        Some((c, span)) => {
            let widest: i64 = if span > stated {
                span
            } else {
                stated
            };
            if widest > sample_rate {
                (c, widest)
            } else {
                (center, sample_rate)
            }
        },
        None => if stated > sample_rate {
            (center, stated)
        } else {
            (center, sample_rate)
        },
    }
}

/// A hotkey of the speech output.
#[derive(Clone, Copy, PartialEq, Eq, Structural, Debug)]
pub enum SpeechKey {
    Status,
    Repeat,
    Silence,
    Toggle,
}

/// What a speech hotkey asks for.
#[derive(Clone, Copy, PartialEq, Eq, Structural, Debug)]
pub enum SpeechAct {
    SayStatus,
    RepeatLast,
    Silence,
    /// The settings changed and are stored; a sample is spoken.
    TurnedOn,
    /// The settings changed and are stored; nothing is spoken.
    TurnedOff,
}

/// Answers a speech hotkey. Switching on is confirmed aloud; switching off is
/// its own confirmation.
pub fn apply_speech_action(key: SpeechKey, enabled: &mut bool) -> (a: SpeechAct)
    ensures
        *final(enabled) == (*old(enabled) != (key == SpeechKey::Toggle)),
        a == match key {
            SpeechKey::Status => SpeechAct::SayStatus,
            SpeechKey::Repeat => SpeechAct::RepeatLast,
            SpeechKey::Silence => SpeechAct::Silence,
            SpeechKey::Toggle => if *final(enabled) {
                SpeechAct::TurnedOn
            } else {
                SpeechAct::TurnedOff
            },
        },
{
    match key {
        SpeechKey::Status => SpeechAct::SayStatus,
        SpeechKey::Repeat => SpeechAct::RepeatLast,
        SpeechKey::Silence => SpeechAct::Silence,
        SpeechKey::Toggle => {
            *enabled = !*enabled;
            if *enabled {
                SpeechAct::TurnedOn
            } else {
                SpeechAct::TurnedOff
            }
        },
    }
}

/// What fills the window.
#[derive(Clone, Copy, PartialEq, Eq, Structural, Debug)]
pub enum MainArea {
    /// The station asks for a password: nothing else is drawn, no key is read
    /// and nothing is sent.
    SignIn,
    /// The connection is down.
    Error,
    /// A mode with a panel under the panadapter.
    Digital,
    Analog,
}

/// What fills the window.
pub open spec fn area_of(sign_in: bool, error: bool, bottom_panel: bool) -> MainArea {
    if sign_in {
        MainArea::SignIn
    } else if error {
        MainArea::Error
    } else if bottom_panel {
        MainArea::Digital
    } else {
        MainArea::Analog
    }
}

/// What fills the window.
pub fn main_area(sign_in: bool, error: bool, bottom_panel: bool) -> (a: MainArea)
    ensures
        a == area_of(sign_in, error, bottom_panel),
{
    if sign_in {
        MainArea::SignIn
    } else if error {
        MainArea::Error
    } else if bottom_panel {
        MainArea::Digital
    } else {
        MainArea::Analog
    }
}

/// True when this radio reads the keyboard and the control surface: the
/// focused one alone, and none behind a sign-in.
pub fn reads_controls(sign_in: bool, focused: bool) -> (r: bool)
    ensures
        r == (focused && !sign_in),
{
    focused && !sign_in
}

/// What one frame sends: everything that was asked for in it, then the lookups
/// and uploads that have gathered. Behind a sign-in nothing goes out, and what
/// has gathered waits.
pub fn frame_commands(area: MainArea, cmds: Vec<Command>, logged: &mut LogSession) -> (out: Vec<
    Command,
>)
    ensures
        area == MainArea::SignIn ==> out@.len() == 0 && *final(logged) == *old(logged),
        area != MainArea::SignIn ==> {
            &&& out@.len() >= cmds@.len()
            &&& out@.take(cmds@.len() as int) == cmds@
            &&& old(logged).is_flushed(out@.skip(cmds@.len() as int))
            &&& final(logged).pending_lookups@.len() == 0
            &&& final(logged).pending_uploads@.len() == 0
            &&& final(logged).log == old(logged).log
            &&& final(logged).session_qsos == old(logged).session_qsos
        },
{
    if area == MainArea::SignIn {
        return Vec::new();
    }
    let mut more = logged.flush();
    let ghost tail = more@;
    let mut out = cmds;
    out.append(&mut more);
    assert(out@ =~= cmds@ + tail);
    assert(out@.take(cmds@.len() as int) =~= cmds@);
    assert(out@.skip(cmds@.len() as int) =~= tail);
    out
}

/// Brings the view to what fills the window. Neither a sign-in nor an error
/// touches it.
pub fn show_area(v: &mut PanView, area: MainArea, at: Fit, sub: Span)
    ensures
        *final(v) == match area {
            MainArea::Digital => digital_view(*old(v), at, sub),
            MainArea::Analog => voice_view(*old(v)),
            _ => *old(v),
        },
{
    match area {
        MainArea::Digital => {
            show_digital(v, at, sub);
        },
        MainArea::Analog => {
            show_voice(v);
        },
        _ => {},
    }
}

/// True when the strip of the whole band is shown above the panadapter: where
/// a front end supplies it, the operator wants it and there is room.
pub fn shows_wide_strip(waterfall_only: bool, wanted: bool, supplied: bool) -> (r: bool)
    ensures
        r == (!waterfall_only && wanted && supplied),
{
    !waterfall_only && wanted && supplied
}

/// The frames a second that the engine was asked for: what was sent, else what
/// is wanted, else the default; never none.
pub open spec fn rate_of(d: CfgDebounce, default_fps: u32) -> u32 {
    let fps = match d.sent {
        Some(c) => c.fps,
        None => match d.wanted {
            Some(c) => c.fps,
            None => default_fps,
        },
    };
    if fps > 0 {
        fps
    } else {
        1
    }
}

/// The frames a second that the engine was asked for.
pub fn frame_rate(d: &CfgDebounce, default_fps: u32) -> (fps: u32)
    ensures
        fps == rate_of(*d, default_fps),
        fps > 0,
{
    let fps: u32 = match d.sent {
        Some(c) => c.fps,
        None => match d.wanted {
            Some(c) => c.fps,
            None => default_fps,
        },
    };
    if fps > 0 {
        fps
    } else {
        1
    }
}

/// What the pass window asks about the satellite that is followed.
#[derive(Clone, Copy, PartialEq, Eq, Structural, Debug)]
pub enum LockChange {
    /// Follow this one, by its catalogue number.
    Lock(u32),
    Unlock,
}

/// Acts on what the pass window asked. Letting go is sent at once, and what was
/// last sent is forgotten, so that the next lock is sent whichever it is. The
/// satellite to be locked, where there is one, is handed back: the request for
/// it needs its orbit.
pub fn apply_lock_change(
    change: Option<LockChange>,
    sent: &mut Option<u32>,
    cmds: &mut Vec<Command>,
) -> (lock: Option<u32>)
    ensures
        lock == match change {
            Some(LockChange::Lock(id)) => Some(id),
            _ => None,
        },
        *final(sent) == if change == Some(LockChange::Unlock) {
            None
        } else {
            *old(sent)
        },
        final(cmds)@ == if change == Some(LockChange::Unlock) {
            old(cmds)@.push(Command::SetSatLock(None))
        } else {
            old(cmds)@
        },
{
    match change {
        Some(LockChange::Lock(id)) => Some(id),
        Some(LockChange::Unlock) => {
            cmds.push(Command::SetSatLock(None));
            *sent = None;
            None
        },
        None => None,
    }
}

/// True while something streams: data is waiting already, or spectrum frames
/// arrive and the connection is up.
pub fn is_streaming(waiting: bool, has_frame: bool, error: bool, now: i64, last_frame: i64) -> (r:
    bool)
    ensures
        r == (waiting || (has_frame && !error && now - last_frame < STREAM_STALE_MS)),
{
    waiting || (!error && is_live(has_frame, now, last_frame))
}

/// The part of the band that is shown is as wide as the mode needs. The packet
/// modes, ADS-B and a mode that straddles its dial have the dial in the middle;
/// every other is worked above its dial, over the whole of a voice passband.
pub proof fn law_a_sub_band_suits_its_mode(mode: Mode, dial: int, straddles: bool, width_hz: int)
    requires
        0 <= width_hz,
    ensures
        ({
            let (lo, hi) = sub_band_of(mode, dial, straddles, width_hz);
            &&& mode == Mode::Adsb ==> dial - lo == hi - dial && hi - lo == 3_000_000_000
            &&& mode == Mode::Aprs ==> dial - lo == hi - dial && hi - lo == 300_000_000
            &&& mode != Mode::Adsb && mode != Mode::Aprs && straddles ==> dial - lo == hi - dial
                && 10 * (hi - lo) == 12 * (1_000 * width_hz)
            &&& mode != Mode::Adsb && mode != Mode::Aprs && !straddles ==> lo <= dial + 150_000
                && hi >= dial + 3_450_000 && hi - lo <= 3_700_000
            &&& mode == Mode::RfPaint && !straddles ==> lo == dial + 150_000 && hi == dial
                + 3_450_000
            &&& mode != Mode::Adsb && mode != Mode::Aprs && mode != Mode::RfPaint && !straddles
                ==> lo == dial - 200_000 && hi == dial + 3_500_000
        }),
{
}

/// The view of a digital mode is its sub-band in every mode that works a fixed
/// allocation, at each change of mode, and at a retune that left nothing of it in
/// view. Otherwise it stays as it is.
pub proof fn law_the_view_follows_the_sub_band(v: PanView, at: Fit, sub: Span)
    ensures
        at.slotted ==> digital_view(v, at, sub).span == sub,
        at.mode == Mode::Wspr ==> digital_view(v, at, sub).span == sub,
        v.fit is None ==> digital_view(v, at, sub).span == sub,
        v.fit matches Some(f) ==> {
            &&& f.mode != at.mode ==> digital_view(v, at, sub).span == sub
            &&& f.dial != at.dial && (v.span.hi <= sub.lo || sub.hi <= v.span.lo) ==> digital_view(
                v,
                at,
                sub,
            ).span == sub
            &&& f.center != at.center && (v.span.hi <= sub.lo || sub.hi <= v.span.lo)
                ==> digital_view(v, at, sub).span == sub
            &&& !at.slotted && at.mode != Mode::Wspr && f == at ==> digital_view(v, at, sub).span
                == v.span
            &&& !at.slotted && at.mode != Mode::Wspr && f.mode == at.mode && v.span.hi > sub.lo
                && sub.hi > v.span.lo ==> digital_view(v, at, sub).span == v.span
        },
        digital_view(v, at, sub).fit == Some(at),
        v.pre_digi is Some ==> digital_view(v, at, sub).pre_digi == v.pre_digi,
        v.pre_digi is None ==> digital_view(v, at, sub).pre_digi == Some(v.span),
        v.pre_digi is None ==> voice_view(v).span == v.span,
        voice_view(v).fit is None,
{
}

/// Before the radio has reported, the audio offset is in the middle of the
/// passband, and each mode has its usual width.
pub proof fn law_the_usual_tones(hell_width: i64)
    ensures
        first_tones(hell_width).audio == 1_500_000,
        first_tones(hell_width).rtty_shift == 170_000,
        first_tones(hell_width).olivia_width == 1_000_000,
        first_tones(hell_width).thor_baud == 15_625,
        first_tones(hell_width).js8_width == 50_000,
        first_tones(hell_width).fsq_baud == 4_500,
        first_tones(hell_width).hell_width == hell_width,
{
}

/// Tuning lines come in pairs, the lower first. The lines of a shifted or
/// many-toned mode lie as far apart as its tones reach, with the audio offset in
/// the middle; the keyboard-message mode counts upward from the offset; a mode
/// with fixed tones does not follow it; every other mode has none.
pub proof fn law_tuning_lines_span_the_tones(mode: Mode, t: Tones)
    requires
        0 <= t.audio < FREQ_END,
        0 <= t.rtty_shift < FREQ_END,
        0 <= t.olivia_width < FREQ_END,
        0 <= t.thor_baud < FREQ_END / 64,
        0 <= t.js8_width < FREQ_END,
        0 <= t.fsq_baud < FREQ_END / 64,
        0 <= t.hell_width < FREQ_END,
    ensures
        ({
            let m = markers_of(mode, t);
            let width = match mode {
                Mode::Rtty => t.rtty_shift as int,
                Mode::Olivia => t.olivia_width as int,
                Mode::Thor => 18 * t.thor_baud,
                Mode::Fsq => 33 * t.fsq_baud,
                Mode::Hell => t.hell_width as int,
                _ => 0,
            };
            &&& m.len() == 0 || m.len() == 2 && m[0] <= m[1]
            &&& mode == Mode::Rtty || mode == Mode::Olivia || mode == Mode::Thor || mode
                == Mode::Fsq || mode == Mode::Hell ==> m.len() == 2 && m[0] + m[1] == 2 * t.audio
                && width - 1 <= m[1] - m[0] <= width
            &&& mode == Mode::Js8 ==> m.len() == 2 && m[0] == t.audio && m[1] - m[0] == t.js8_width
            &&& mode == Mode::RfPaint ==> m.len() == 2 && m[0] == 300_000 && m[1] == 3_300_000
            &&& mode == Mode::Rade ==> m.len() == 2 && m[0] == 1_062_000 && m[1] == 1_876_000
            &&& mode != Mode::Rtty && mode != Mode::Olivia && mode != Mode::Thor && mode
                != Mode::Fsq && mode != Mode::Hell && mode != Mode::Js8 && mode != Mode::RfPaint
                && mode != Mode::Rade ==> m.len() == 0
        }),
{
}

/// Every digital mode has a cursor, at the tone that the radio reported, and of
/// the others only CW, where a click always tunes the dial.
pub proof fn law_the_cursor_is_at_the_tone(
    digital: bool,
    mode: Mode,
    standard_tones: bool,
    reported: Option<i64>,
)
    ensures
        cursor_of(digital, mode, standard_tones, reported) is Some <==> digital || mode == Mode::Cw,
        cursor_of(digital, mode, standard_tones, reported) matches Some(c) ==> {
            &&& reported matches Some(t) ==> c.tone == t
            &&& reported is None && digital ==> c.tone == 1_500_000
            &&& reported is None && !digital ==> c.tone == 700_000
            &&& c.click_sets_tone == (digital && !standard_tones)
        },
{
}

/// The settings of the spectrum are sent the first time they are wanted. After
/// that they are sent only when the same ones have been wanted long enough, and a
/// change starts the wait anew.
pub proof fn law_settings_are_sent_once_they_settle(
    d: CfgDebounce,
    ideal: SpectrumCfg,
    now: i64,
    wait: int,
)
    ensures
        d.sent is None ==> cfg_sends(d, ideal, now, wait),
        cfg_sends(d, ideal, now, wait) ==> cfg_step(d, ideal, now, wait).sent == Some(ideal),
        !cfg_sends(d, ideal, now, wait) ==> cfg_step(d, ideal, now, wait).sent == d.sent,
        cfg_step(d, ideal, now, wait).wanted == Some(ideal),
        d.wanted != Some(ideal) ==> cfg_step(d, ideal, now, wait).since == now,
        d.wanted == Some(ideal) ==> cfg_step(d, ideal, now, wait).since == d.since,
        d.sent is Some && wait > 0 && d.wanted != Some(ideal) ==> !cfg_sends(d, ideal, now, wait),
        d.sent is Some && d.wanted == Some(ideal) ==> (cfg_sends(d, ideal, now, wait) <==> now
            >= d.since + wait),
{
}

/// A view that stays within a hundredth of its width of what was sent is not
/// sent again; one that moved farther at either end is.
pub proof fn law_a_small_move_is_no_move(s: Span, want: Span)
    requires
        want.lo <= want.hi,
    ensures
        view_moved(None, want),
        !view_moved(Some(s), s),
        view_moved(Some(s), want) <==> {
            ||| 100 * (s.lo - want.lo) > want.hi - want.lo
            ||| 100 * (want.lo - s.lo) > want.hi - want.lo
            ||| 100 * (s.hi - want.hi) > want.hi - want.lo
            ||| 100 * (want.hi - s.hi) > want.hi - want.lo
        },
{
}

/// A stream is asked for as often as its frames come, an idle window four times a
/// second, and speech that is due sooner brings the next frame forward.
pub proof fn law_the_wait_is_the_shorter(streaming: bool, fps: u32, speech_in: Option<i64>)
    requires
        fps > 0,
    ensures
        speech_in is None && streaming ==> 1000 < (wait_of(streaming, fps, speech_in) + 1) * fps,
        speech_in is None && !streaming ==> wait_of(streaming, fps, speech_in) == 250,
        speech_in matches Some(ms) ==> {
            let plain = wait_of(streaming, fps, None);
            let w = wait_of(streaming, fps, speech_in);
            &&& w == plain || w == ms || w == 1
            &&& w <= plain
            &&& ms >= 1 && w < plain ==> w == ms
            &&& ms < 1 && plain >= 1 ==> w == 1
        },
{
    let q = 1000int / fps as int;
    assert(1000 < (q + 1) * fps) by (nonlinear_arith)
        requires
            q == 1000int / fps as int,
            fps > 0,
    ;
}

/// A sign-in covers everything, then a fault; only in their absence does the mode
/// decide.
pub proof fn law_a_sign_in_covers_the_window(sign_in: bool, error: bool, bottom_panel: bool)
    ensures
        area_of(sign_in, error, bottom_panel) == MainArea::SignIn <==> sign_in,
        area_of(sign_in, error, bottom_panel) == MainArea::Error <==> error && !sign_in,
        area_of(sign_in, error, bottom_panel) == MainArea::Digital <==> bottom_panel && !error
            && !sign_in,
        area_of(sign_in, error, bottom_panel) == MainArea::Analog <==> !bottom_panel && !error
            && !sign_in,
{
}

/// What was sent decides the rate, then what is wanted, then the default, and at
/// least one frame a second is asked for.
pub proof fn law_the_sent_rate_counts(d: CfgDebounce, default_fps: u32)
    ensures
        rate_of(d, default_fps) >= 1,
        d.sent matches Some(c) && c.fps >= 1 ==> rate_of(d, default_fps) == d.sent->0.fps,
        d.sent is None && (d.wanted matches Some(c) && c.fps >= 1) ==> rate_of(d, default_fps)
            == d.wanted->0.fps,
        d.sent is None && d.wanted is None && default_fps >= 1 ==> rate_of(d, default_fps)
            == default_fps,
{
}

} // verus!
