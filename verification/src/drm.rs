//! The digital broadcast receiver's window.

use std::collections::VecDeque;

use vstd::prelude::*;

use crate::clock::{padded, padded_decimal};
use crate::command::Command;
use crate::ink::Ink;
use crate::mode::Mode;
use crate::text::{
    cat, dec, dec2, decimal, decimal2, join, joined, texts, to_uppercase, uppercase,
};

verus! {

/// How many readings the quality trace keeps.
pub const HISTORY_LEN: usize = 240;

/// How far one stage of the decoder has got.
#[derive(Clone, Copy, PartialEq, Eq, Structural, Debug)]
pub enum DrmSync {
    Absent,
    CrcError,
    DataError,
    Good,
}

/// The colour of one stage's indicator. Arriving with errors is a state of its
/// own, between nothing and good.
pub fn sync_ink(s: DrmSync) -> (i: Ink)
    ensures
        i == match s {
            DrmSync::Absent => Ink::Gray(90),
            DrmSync::CrcError => Ink::Rgb(220, 90, 70),
            DrmSync::DataError => Ink::Rgb(220, 180, 70),
            DrmSync::Good => Ink::Rgb(90, 200, 120),
        },
{
    match s {
        DrmSync::Absent => Ink::Gray(90),
        DrmSync::CrcError => Ink::Rgb(220, 90, 70),
        DrmSync::DataError => Ink::Rgb(220, 180, 70),
        DrmSync::Good => Ink::Rgb(90, 200, 120),
    }
}

/// The two triangles of a rectangle whose corners stand at `base` and behind
/// it, clockwise.
pub open spec fn quad_of(base: u32) -> Seq<u32> {
    seq![
        base,
        (base + 1) as u32,
        (base + 2) as u32,
        base,
        (base + 2) as u32,
        (base + 3) as u32,
    ]
}

/// The two triangles of a rectangle.
pub fn quad_indices(base: u32) -> (v: Vec<u32>)
    requires
        base <= u32::MAX - 3,
    ensures
        v@ == quad_of(base),
{
    let mut v: Vec<u32> = Vec::new();
    v.push(base);
    v.push(base + 1);
    v.push(base + 2);
    v.push(base);
    v.push(base + 2);
    v.push(base + 3);
    assert(v@ =~= quad_of(base));
    v
}

/// Both triangles lie within the four corners, and each corner is used.
pub proof fn law_quad_covers_its_corners(base: u32)
    requires
        base <= u32::MAX - 3,
    ensures
        forall|i: int|
            0 <= i < quad_of(base).len() ==> base <= #[trigger] quad_of(base)[i] <= base + 3,
        forall|c: u32| base <= c <= base + 3 ==> #[trigger] quad_of(base).contains(c),
{
    let v = quad_of(base);
    assert(v[0] == base && v[1] == base + 1 && v[2] == base + 2 && v[5] == base + 3);
}

/// The trace after a report, of readings in tenths of a decibel. Readings count
/// only while the signal is locked; one that is gone for good starts the trace
/// again.
pub open spec fn traced(
    trace: Seq<(i32, i32)>,
    locked: bool,
    time: DrmSync,
    reading: (i32, i32),
) -> Seq<(i32, i32)> {
    if locked {
        (if trace.len() >= HISTORY_LEN {
            trace.skip(1)
        } else {
            trace
        }).push(reading)
    } else if time != DrmSync::Good {
        Seq::empty()
    } else {
        trace
    }
}

/// Takes a report of the receiver into the trace.
pub fn on_drm(trace: &mut VecDeque<(i32, i32)>, locked: bool, time: DrmSync, reading: (i32, i32))
    ensures
        final(trace)@ == traced(old(trace)@, locked, time, reading),
{
    if locked {
        if trace.len() >= HISTORY_LEN {
            trace.pop_front();
            assert(trace@ =~= old(trace)@.skip(1));
        }
        trace.push_back(reading);
    } else if time != DrmSync::Good {
        trace.clear();
    }
    assert(trace@ =~= traced(old(trace)@, locked, time, reading));
}

/// The trace never outgrows its minute, and the newest reading stands last.
pub proof fn law_trace_is_bounded(
    trace: Seq<(i32, i32)>,
    locked: bool,
    time: DrmSync,
    reading: (i32, i32),
)
    requires
        trace.len() <= HISTORY_LEN,
    ensures
        traced(trace, locked, time, reading).len() <= HISTORY_LEN,
        locked ==> traced(trace, locked, time, reading).last() == reading,
{
}

/// Asks for the symbols of the channel that is plotted, while the plot is on
/// screen, and stops asking when it is not. A request goes out only where it
/// changes.
pub fn constellation_request(
    asked: &mut Option<u8>,
    shown: bool,
    mode: Mode,
    channel: u8,
) -> (c: Option<Command>)
    ensures
        *final(asked) == if shown && mode == Mode::Drm {
            Some(channel)
        } else {
            None
        },
        c == if *final(asked) != *old(asked) {
            Some(Command::SetDrmConstellation(*final(asked)))
        } else {
            None
        },
{
    let want: Option<u8> = if shown && mode == Mode::Drm {
        Some(channel)
    } else {
        None
    };
    let same = match (want, *asked) {
        (Some(a), Some(b)) => a == b,
        (None, None) => true,
        _ => false,
    };
    if same {
        None
    } else {
        *asked = want;
        Some(Command::SetDrmConstellation(want))
    }
}

/// Which parts of the window have something to show.
#[derive(Clone, Copy, PartialEq, Eq, Structural, Debug)]
pub struct Body {
    pub waiting: bool,
    pub not_in_drm: bool,
    pub not_locked: bool,
    pub no_codec: bool,
    pub details: bool,
}

/// Which parts of the window have something to show. `locked` is unknown
/// before the first report.
pub fn body(locked: Option<bool>, mode: Mode, has_codec: bool, codec_ok: bool) -> (b: Body)
    ensures
        b == match locked {
            None => Body {
                waiting: true,
                not_in_drm: false,
                not_locked: false,
                no_codec: false,
                details: false,
            },
            Some(l) => Body {
                waiting: false,
                not_in_drm: mode != Mode::Drm,
                not_locked: !l,
                no_codec: l && has_codec && !codec_ok,
                details: l,
            },
        },
{
    match locked {
        None => Body {
            waiting: true,
            not_in_drm: false,
            not_locked: false,
            no_codec: false,
            details: false,
        },
        Some(l) => Body {
            waiting: false,
            not_in_drm: mode != Mode::Drm,
            not_locked: !l,
            no_codec: l && has_codec && !codec_ok,
            details: l,
        },
    }
}

/// The stages of the decoder, in the order they lock.
#[derive(Clone, Copy, PartialEq, Eq, Structural, Debug)]
pub struct Stages {
    pub io: DrmSync,
    pub time: DrmSync,
    pub frame: DrmSync,
    pub fac: DrmSync,
    pub sdc: DrmSync,
    pub audio: DrmSync,
}

/// One indicator of the row.
#[derive(Clone, Copy, Debug)]
pub struct Stage {
    pub label: &'static str,
    pub state: DrmSync,
    pub hover: &'static str,
}

/// What the row says of the audio stage.
pub open spec fn audio_hover(has_codec: bool, codec_ok: bool) -> Seq<char> {
    if has_codec && !codec_ok {
        "Audio frames decoding — but this station's codec cannot be decoded here"@
    } else {
        "Audio frames decoding"@
    }
}

/// The labels and states of a row.
pub open spec fn stage_views(v: Seq<Stage>) -> Seq<(Seq<char>, DrmSync, Seq<char>)> {
    Seq::new(v.len(), |i: int| (v[i].label@, v[i].state, v[i].hover@))
}

/// The row of indicators, left to right.
pub fn stage_row(s: Stages, has_codec: bool, codec_ok: bool) -> (v: Vec<Stage>)
    ensures
        stage_views(v@) == seq![
            ("IO"@, s.io, "Samples reaching the decoder"@),
            ("TIME"@, s.time, "Symbol timing recovered"@),
            ("FRAME"@, s.frame, "Transmission frames found"@),
            ("FAC"@, s.fac, "Fast Access Channel — what the transmission is"@),
            ("SDC"@, s.sdc, "Service Description Channel — what the services are"@),
            ("AUDIO"@, s.audio, audio_hover(has_codec, codec_ok)),
        ],
{
    let hover: &'static str = if has_codec && !codec_ok {
        "Audio frames decoding — but this station's codec cannot be decoded here"
    } else {
        "Audio frames decoding"
    };
    let v = vec![
        Stage { label: "IO", state: s.io, hover: "Samples reaching the decoder" },
        Stage { label: "TIME", state: s.time, hover: "Symbol timing recovered" },
        Stage { label: "FRAME", state: s.frame, hover: "Transmission frames found" },
        Stage {
            label: "FAC",
            state: s.fac,
            hover: "Fast Access Channel — what the transmission is",
        },
        Stage {
            label: "SDC",
            state: s.sdc,
            hover: "Service Description Channel — what the services are",
        },
        Stage { label: "AUDIO", state: s.audio, hover },
    ];
    assert(stage_views(v@) =~= seq![
        ("IO"@, s.io, "Samples reaching the decoder"@),
        ("TIME"@, s.time, "Symbol timing recovered"@),
        ("FRAME"@, s.frame, "Transmission frames found"@),
        ("FAC"@, s.fac, "Fast Access Channel — what the transmission is"@),
        ("SDC"@, s.sdc, "Service Description Channel — what the services are"@),
        ("AUDIO"@, s.audio, audio_hover(has_codec, codec_ok)),
    ]);
    v
}

/// What is told of the service being heard. The bit rate is written out where
/// there is one.
#[derive(Debug)]
pub struct Service {
    pub country: String,
    pub language: String,
    pub codec: Option<String>,
    pub codec_ok: bool,
    pub bitrate: Option<String>,
    pub stereo: bool,
}

/// One part, where there is one.
pub open spec fn part(on: bool, t: Seq<char>) -> Seq<Seq<char>> {
    if on {
        seq![t]
    } else {
        seq![]
    }
}

/// The parts of a service's line.
pub open spec fn service_parts(s: Service) -> Seq<Seq<char>> {
    part(s.country@.len() > 0, uppercase(s.country@)) + part(s.language@.len() > 0, s.language@)
        + (match s.codec {
        Some(c) => seq![
            if s.codec_ok {
                c@
            } else {
                c@ + " — not decodable"@
            },
        ],
        None => seq![],
    }) + (match s.bitrate {
        Some(b) => seq![b@],
        None => seq![],
    }) + seq![
        if s.stereo {
            "stereo"@
        } else {
            "mono"@
        },
    ]
}

/// The line under a service's name.
pub fn service_line(s: &Service) -> (t: String)
    ensures
        t@ == joined(service_parts(*s), " · "@),
{
    let mut v: Vec<String> = Vec::new();
    if !s.country.as_str().is_empty() {
        v.push(to_uppercase(s.country.as_str()));
    }
    if !s.language.as_str().is_empty() {
        v.push(s.language.clone());
    }
    if let Some(c) = &s.codec {
        if s.codec_ok {
            v.push(c.clone());
        } else {
            v.push(cat(c.as_str(), " — not decodable"));
        }
    }
    if let Some(b) = &s.bitrate {
        v.push(b.clone());
    }
    if s.stereo {
        v.push("stereo".to_owned());
    } else {
        v.push("mono".to_owned());
    }
    assert(texts(v@) =~= service_parts(*s));
    join(&v, " · ")
}

/// Presses the chip of one service of the multiplex. The one being heard is
/// not asked for again, and there is no choice among fewer than two.
pub fn press_service(i: u8, current: u8, services: u8) -> (c: Option<Command>)
    ensures
        c == if services > 1 && i < services && i != current {
            Some(Command::SetDrmService(i))
        } else {
            None
        },
{
    if services > 1 && i < services && i != current {
        Some(Command::SetDrmService(i))
    } else {
        None
    }
}

/// The caption under the plot.
pub fn constellation_caption(symbols: usize, sampled: bool) -> (t: String)
    ensures
        t@ == dec(symbols as nat) + " symbols · "@ + (if sampled {
            "sampled across the frame"@
        } else {
            "whole frame"@
        }),
{
    let mut t = decimal(symbols as u64);
    t.append(" symbols · ");
    t.append(if sampled {
        "sampled across the frame"
    } else {
        "whole frame"
    });
    t
}

/// The top of the quality trace's scale, in tenths of a decibel: 35 dB, more
/// where a reading goes past it, and never above 60.
pub open spec fn scale_top(trace: Seq<(i32, i32)>) -> int {
    let m = highest(trace);
    if m > 600 {
        600
    } else {
        m
    }
}

/// The highest of 35 dB and all readings.
pub open spec fn highest(trace: Seq<(i32, i32)>) -> int
    decreases trace.len(),
{
    if trace.len() == 0 {
        350
    } else {
        let m = highest(trace.drop_last());
        let (s, w) = trace.last();
        let a = if s > m {
            s as int
        } else {
            m
        };
        if w > a {
            w as int
        } else {
            a
        }
    }
}

/// The top of the quality trace's scale.
pub fn trace_top(trace: &VecDeque<(i32, i32)>) -> (top: i32)
    ensures
        top == scale_top(trace@),
        350 <= top <= 600,
{
    let mut m: i32 = 350;
    let mut i: usize = 0;
    assert(trace@.take(0).len() == 0);
    while i < trace.len()
        invariant
            i <= trace@.len(),
            m >= 350,
            m == highest(trace@.take(i as int)),
        decreases trace@.len() - i,
    {
        assert(trace@.take(i + 1).drop_last() =~= trace@.take(i as int));
        let r: (i32, i32) = trace[i];
        assert(r == trace@[i as int]);
        if r.0 > m {
            m = r.0;
        }
        if r.1 > m {
            m = r.1;
        }
        i = i + 1;
    }
    assert(trace@.take(trace@.len() as int) =~= trace@);
    if m > 600 {
        600
    } else {
        m
    }
}

/// The rules drawn across the trace: every 10 dB below the top.
pub fn trace_rules(top: i32) -> (v: Vec<i32>)
    requires
        0 <= top <= 600,
    ensures
        v@ == Seq::new(
            (if top <= 100 {
                0int
            } else {
                (top - 1) / 100
            }) as nat,
            |i: int| (100 * (i + 1)) as i32,
        ),
{
    let mut v: Vec<i32> = Vec::new();
    let mut db: i32 = 100;
    while db < top
        invariant
            100 <= db <= 700,
            top <= 600,
            db == 100 * (v@.len() + 1),
            db - 100 < top || v@.len() == 0,
            forall|i: int| 0 <= i < v@.len() ==> #[trigger] v@[i] == 100 * (i + 1),
        decreases 700 - db,
    {
        v.push(db);
        db = db + 100;
    }
    assert(v@ =~= Seq::new(
        (if top <= 100 {
            0int
        } else {
            (top - 1) / 100
        }) as nat,
        |i: int| (100 * (i + 1)) as i32,
    ));
    v
}

/// True when there is a trace to draw.
pub fn has_trace(trace: &VecDeque<(i32, i32)>) -> (r: bool)
    ensures
        r == (trace@.len() >= 2),
{
    trace.len() >= 2
}

/// Robustness and channel width, with a question mark for what is not known.
pub fn mode_line(robustness: Option<&str>, bandwidth_khz: Option<&str>) -> (t: String)
    ensures
        t@ == (match robustness {
            Some(r) => r@,
            None => "?"@,
        }) + " / "@ + (match bandwidth_khz {
            Some(b) => b@ + " kHz"@,
            None => "?"@,
        }),
{
    let mut t = cat(
        match robustness {
            Some(r) => r,
            None => "?",
        },
        " / ",
    );
    match bandwidth_khz {
        Some(b) => {
            let w = cat(b, " kHz");
            t.append(w.as_str());
        },
        None => {
            t.append("?");
        },
    }
    t
}

/// How far a frame is spread in time.
pub fn interleave_text(long: bool) -> (t: &'static str)
    ensures
        t@ == if long {
            "2 s"@
        } else {
            "400 ms"@
        },
{
    if long {
        "2 s"
    } else {
        "400 ms"
    }
}

/// The protection of the two parts of the stream.
pub fn protection_text(b: u8, a: u8) -> (t: String)
    ensures
        t@ == "B "@ + dec(b as nat) + " / A "@ + dec(a as nat),
{
    let mut t = cat("B ", decimal(b as u64).as_str());
    t.append(" / A ");
    t.append(decimal(a as u64).as_str());
    t
}

/// The moment that a broadcaster sends.
#[derive(Clone, Copy, PartialEq, Eq, Structural, Debug)]
pub struct BroadcastTime {
    pub year: u16,
    pub month: u8,
    pub day: u8,
    pub hour: u8,
    pub minute: u8,
}

/// The broadcaster's clock as it is shown.
pub fn clock_line(t: BroadcastTime) -> (s: String)
    ensures
        s@ == "broadcaster's clock  "@ + padded(t.year as nat, 4) + "-"@ + dec2(t.month as nat)
            + "-"@ + dec2(t.day as nat) + " "@ + dec2(t.hour as nat) + ":"@ + dec2(
            t.minute as nat,
        ) + " UTC"@,
{
    let mut s = cat("broadcaster's clock  ", padded_decimal(t.year as u64, 4).as_str());
    s.append("-");
    s.append(decimal2(t.month as u64).as_str());
    s.append("-");
    s.append(decimal2(t.day as u64).as_str());
    s.append(" ");
    s.append(decimal2(t.hour as u64).as_str());
    s.append(":");
    s.append(decimal2(t.minute as u64).as_str());
    s.append(" UTC");
    s
}

/// What the plot of symbols shows.
#[derive(Clone, Copy, PartialEq, Eq, Structural, Debug)]
pub enum Plot {
    /// Nothing was reported yet.
    Waiting,
    /// The channel is not decoding.
    Silent,
    Symbols,
}

/// What the plot of symbols shows, given how many were reported.
pub fn plot(symbols: Option<usize>) -> (p: Plot)
    ensures
        p == match symbols {
            None => Plot::Waiting,
            Some(n) => if n == 0 {
                Plot::Silent
            } else {
                Plot::Symbols
            },
        },
{
    match symbols {
        None => Plot::Waiting,
        Some(n) => if n == 0 {
            Plot::Silent
        } else {
            Plot::Symbols
        },
    }
}

/// The two triangles of a rectangle share one of its diagonals.
pub proof fn law_triangles_share_a_diagonal(base: u32)
    requires
        base <= u32::MAX - 3,
    ensures
        quad_of(base).len() == 6,
        quad_of(base)[0] == base && quad_of(base)[3] == base,
        quad_of(base)[2] == base + 2 && quad_of(base)[4] == base + 2,
        quad_of(base)[1] == base + 1 && quad_of(base)[5] == base + 3,
{
}

/// While the signal is locked each reading goes to the end of the trace, which
/// loses its oldest once it is full. A short fade keeps the trace as it is, and a
/// signal that is gone clears it.
pub proof fn law_readings_count_while_locked(
    trace: Seq<(i32, i32)>,
    time: DrmSync,
    reading: (i32, i32),
)
    ensures
        trace.len() < 240 ==> traced(trace, true, time, reading) == trace + seq![reading],
        trace.len() == 240 ==> traced(trace, true, time, reading) == trace.skip(1) + seq![reading],
        traced(trace, false, DrmSync::Good, reading) == trace,
        time != DrmSync::Good ==> traced(trace, false, time, reading).len() == 0,
{
    if trace.len() < 240 {
        assert(traced(trace, true, time, reading) =~= trace + seq![reading]);
    } else if trace.len() == 240 {
        assert(traced(trace, true, time, reading) =~= trace.skip(1) + seq![reading]);
    }
}

proof fn lemma_highest(trace: Seq<(i32, i32)>)
    ensures
        highest(trace) >= 350,
        forall|i: int|
            0 <= i < trace.len() ==> (#[trigger] trace[i]).0 <= highest(trace) && trace[i].1
                <= highest(trace),
        highest(trace) == 350 || exists|i: int|
            0 <= i < trace.len() && ((#[trigger] trace[i]).0 == highest(trace) || trace[i].1
                == highest(trace)),
    decreases trace.len(),
{
    if trace.len() > 0 {
        let t = trace.drop_last();
        lemma_highest(t);
        assert forall|i: int| 0 <= i < trace.len() implies (#[trigger] trace[i]).0 <= highest(trace)
            && trace[i].1 <= highest(trace) by {
            if i < t.len() {
                assert(trace[i] == t[i]);
            }
        }
        if highest(trace) == highest(t) {
            if highest(t) != 350 {
                let i: int = choose|i: int|
                    0 <= i < t.len() && ((#[trigger] t[i]).0 == highest(t) || t[i].1 == highest(t));
                assert(trace[i] == t[i]);
            }
        } else {
            assert(trace[trace.len() - 1] == trace.last());
        }
    }
}

/// Every reading up to 60 dB fits on the scale, which goes to 35 dB at least and
/// no higher than the readings ask for.
pub proof fn law_the_scale_fits_the_readings(trace: Seq<(i32, i32)>)
    ensures
        350 <= scale_top(trace) <= 600,
        forall|i: int|
            0 <= i < trace.len() ==> {
                &&& (#[trigger] trace[i]).0 <= 600 ==> trace[i].0 <= scale_top(trace)
                &&& trace[i].1 <= 600 ==> trace[i].1 <= scale_top(trace)
            },
        350 < scale_top(trace) < 600 ==> exists|i: int|
            0 <= i < trace.len() && ((#[trigger] trace[i]).0 == scale_top(trace) || trace[i].1
                == scale_top(trace)),
        scale_top(trace) == 600 ==> exists|i: int|
            0 <= i < trace.len() && ((#[trigger] trace[i]).0 >= 600 || trace[i].1 >= 600),
{
    lemma_highest(trace);
}

/// A service that sends everything about itself is told in a fixed order: country
/// in upper case, language, codec, bit rate, channels. What it does not send is
/// left out, but for the channels.
pub proof fn law_a_service_is_told_in_order(s: Service)
    ensures
        s.country@.len() > 0 && s.language@.len() > 0 && s.codec is Some && s.bitrate is Some
            ==> service_parts(s).len() == 5 && service_parts(s)[0] == uppercase(s.country@)
            && service_parts(s)[1] == s.language@ && service_parts(s)[2] == (if s.codec_ok {
            s.codec->0@
        } else {
            s.codec->0@ + " — not decodable"@
        }) && service_parts(s)[3] == s.bitrate->0@,
        service_parts(s).last() == (if s.stereo {
            "stereo"@
        } else {
            "mono"@
        }),
        service_parts(s).len() == 1 + (if s.country@.len() > 0 {
            1int
        } else {
            0
        }) + (if s.language@.len() > 0 {
            1int
        } else {
            0
        }) + (if s.codec is Some {
            1int
        } else {
            0
        }) + (if s.bitrate is Some {
            1int
        } else {
            0
        }),
        s.country@.len() == 0 && s.language@.len() > 0 ==> service_parts(s)[0] == s.language@,
        s.country@.len() == 0 && s.language@.len() == 0 && s.codec is Some ==> service_parts(s)[0]
            == (if s.codec_ok {
            s.codec->0@
        } else {
            s.codec->0@ + " — not decodable"@
        }),
{
}

/// Only a codec that is known and cannot be decoded is warned of.
pub proof fn law_a_codec_that_fails_is_told(has_codec: bool, codec_ok: bool)
    ensures
        has_codec && !codec_ok ==> audio_hover(has_codec, codec_ok)
            == "Audio frames decoding — but this station's codec cannot be decoded here"@,
        codec_ok || !has_codec ==> audio_hover(has_codec, codec_ok) == "Audio frames decoding"@,
{
}

} // verus!
