//! Typing onto the air: the transmit box of the keyboard modes and of the
//! facsimile-text mode, and the settings in their headers.

use vstd::prelude::*;

use crate::command::{is_tx_text, Command, DigiConfig};
use crate::decodes::clamped;
use crate::figure::floor_div;
use crate::mode::Mode;
use crate::text::{blank, cat, chars_of, has_prefix, is_blank, starts_with, text_of};

verus! {

/// True when `after` is `before` with `n` requests behind it.
pub open spec fn extends(before: Seq<Command>, after: Seq<Command>, n: int) -> bool {
    after.len() == before.len() + n && after.take(before.len() as int) == before
}

/// How much of the text has gone out: never more than there is.
pub open spec fn sent_len(text: Seq<char>, sent: usize) -> int {
    if sent <= text.len() {
        sent as int
    } else {
        text.len() as int
    }
}

/// The part of the text that has gone out.
pub open spec fn sent_part(text: Seq<char>, sent: usize) -> Seq<char> {
    text.take(sent_len(text, sent))
}

/// The text in two parts: what has gone out, which is shown in another colour,
/// and what has not.
pub fn split_sent(text: &str, sent: usize) -> (r: (String, String))
    ensures
        r.0@ == sent_part(text@, sent),
        r.1@ == text@.skip(sent_len(text@, sent)),
        r.0@ + r.1@ == text@,
{
    let v = chars_of(text);
    let n: usize = if sent <= v.len() {
        sent
    } else {
        v.len()
    };
    let a = text_of(&v, 0, n);
    let b = text_of(&v, n, v.len());
    assert(a@ =~= sent_part(text@, sent));
    assert(b@ =~= text@.skip(sent_len(text@, sent)));
    assert(a@ + b@ =~= text@);
    (a, b)
}

/// The text after an edit: what has gone out cannot be changed any more, so an
/// edit that touches it is undone.
pub open spec fn guarded(prev: Seq<char>, edited: Seq<char>, sent: usize) -> Seq<char> {
    if has_prefix(edited, sent_part(prev, sent)) {
        edited
    } else {
        prev
    }
}

/// Whatever is typed, the part that has gone out stays as it went.
pub proof fn law_sent_text_is_kept(prev: Seq<char>, edited: Seq<char>, sent: usize)
    ensures
        has_prefix(guarded(prev, edited, sent), sent_part(prev, sent)),
        sent_part(guarded(prev, edited, sent), sent_len(prev, sent) as usize) == sent_part(
            prev,
            sent,
        ),
{
    let p = sent_part(prev, sent);
    assert(prev.take(p.len() as int) == p);
    let g = guarded(prev, edited, sent);
    assert(g.take(p.len() as int) == p);
    assert(sent_len(prev, sent) <= prev.len());
}

/// An edit of the box: the part that has gone out is protected, and the text
/// goes to the modem at once unless Return is to commit it.
pub fn edit(text: &mut String, prev: &str, sent: usize, send_on_enter: bool, cmds: &mut Vec<Command>)
    ensures
        final(text)@ == guarded(prev@, old(text)@, sent),
        send_on_enter ==> final(cmds)@ == old(cmds)@,
        !send_on_enter ==> extends(old(cmds)@, final(cmds)@, 1) && is_tx_text(
            final(cmds)@.last(),
            final(text)@,
        ),
{
    let (part, _) = split_sent(prev, sent);
    if !starts_with(text.as_str(), part.as_str()) {
        *text = prev.to_owned();
    }
    if !send_on_enter {
        cmds.push(Command::DigiTxText(text.clone()));
        assert(cmds@.take(old(cmds)@.len() as int) =~= old(cmds)@);
    }
}

/// The text as a committed line: with a line break at its end.
pub open spec fn as_line(text: Seq<char>) -> Seq<char> {
    if text.len() > 0 && text.last() == '\n' {
        text
    } else {
        text.push('\n')
    }
}

/// Commits the box: hands the whole of it over and starts the over. A blank
/// box commits nothing.
pub fn commit_tx_line(text: &mut String, cmds: &mut Vec<Command>)
    ensures
        is_blank(old(text)@) ==> final(text)@ == old(text)@ && final(cmds)@ == old(cmds)@,
        !is_blank(old(text)@) ==> {
            &&& final(text)@ == as_line(old(text)@)
            &&& extends(old(cmds)@, final(cmds)@, 2)
            &&& is_tx_text(final(cmds)@[old(cmds)@.len() as int], final(text)@)
            &&& final(cmds)@.last() == Command::DigiTxActive(true)
        },
{
    if blank(text.as_str()) {
        return;
    }
    let v = chars_of(text.as_str());
    if !(v.len() > 0 && v[v.len() - 1] == '\n') {
        text.push('\n');
    }
    cmds.push(Command::DigiTxText(text.clone()));
    cmds.push(Command::DigiTxActive(true));
    assert(cmds@.take(old(cmds)@.len() as int) =~= old(cmds)@);
}

/// Committing a line twice sends it the same way twice: one line break is
/// enough.
pub proof fn law_one_line_break(text: Seq<char>)
    ensures
        as_line(as_line(text)) == as_line(text),
{
}

/// The transmit button: switches the over on or off. Text held back for Return
/// is handed over first, or the over would be an empty carrier.
pub fn press_tx(text: &str, tx_on: bool, send_on_enter: bool, cmds: &mut Vec<Command>)
    ensures
        final(cmds)@.last() == Command::DigiTxActive(!tx_on),
        if !tx_on && send_on_enter {
            extends(old(cmds)@, final(cmds)@, 2) && is_tx_text(
                final(cmds)@[old(cmds)@.len() as int],
                text@,
            )
        } else {
            extends(old(cmds)@, final(cmds)@, 1)
        },
{
    if !tx_on && send_on_enter {
        cmds.push(Command::DigiTxText(text.to_owned()));
    }
    cmds.push(Command::DigiTxActive(!tx_on));
    assert(cmds@.take(old(cmds)@.len() as int) =~= old(cmds)@);
}

/// A general call. The facsimile-text mode has no glyph for a line break and
/// ends with a space.
pub open spec fn cq_text(my_call: Seq<char>, mode: Mode) -> Seq<char> {
    let call = if my_call.len() == 0 {
        "NOCALL"@
    } else {
        my_call
    };
    "CQ CQ CQ DE "@ + call + " "@ + call + " "@ + call + (if mode == Mode::Hell {
        " PSE K "@
    } else {
        " PSE K\n"@
    })
}

/// Calls CQ: whatever is on the air stops, and the call takes the box.
pub fn call_cq(text: &mut String, my_call: &str, mode: Mode, cmds: &mut Vec<Command>)
    ensures
        final(text)@ == cq_text(my_call@, mode),
        extends(old(cmds)@, final(cmds)@, 3),
        final(cmds)@[old(cmds)@.len() as int] == Command::DigiAbortTx,
        is_tx_text(final(cmds)@[old(cmds)@.len() as int + 1], final(text)@),
        final(cmds)@.last() == Command::DigiTxActive(true),
{
    let call = if my_call.is_empty() {
        "NOCALL"
    } else {
        my_call
    };
    let mut cq = cat("CQ CQ CQ DE ", call);
    cq.append(" ");
    cq.append(call);
    cq.append(" ");
    cq.append(call);
    cq.append(if mode == Mode::Hell {
        " PSE K "
    } else {
        " PSE K\n"
    });
    cmds.push(Command::DigiAbortTx);
    cmds.push(Command::DigiTxText(cq.clone()));
    cmds.push(Command::DigiTxActive(true));
    *text = cq;
    assert(cmds@.take(old(cmds)@.len() as int) =~= old(cmds)@);
}

/// Empties the box and stops what is on the air.
pub fn clear(text: &mut String, cmds: &mut Vec<Command>)
    ensures
        final(text)@.len() == 0,
        extends(old(cmds)@, final(cmds)@, 2),
        final(cmds)@[old(cmds)@.len() as int] == Command::DigiAbortTx,
        is_tx_text(final(cmds)@.last(), Seq::empty()),
{
    *text = String::new();
    cmds.push(Command::DigiAbortTx);
    cmds.push(Command::DigiTxText(String::new()));
    assert(cmds@.take(old(cmds)@.len() as int) =~= old(cmds)@);
}

/// The tone 10 Hz up or down, in thousandths of a hertz: held to the passband,
/// except in the facsimile-text mode, which leaves that to the engine.
pub open spec fn nudged(tone: int, up: bool, mode: Mode) -> int {
    let t = if up {
        tone + 10_000
    } else {
        tone - 10_000
    };
    if mode == Mode::Hell {
        t
    } else {
        clamped(t)
    }
}

/// The tone 10 Hz up or down.
pub fn nudged_tone(tone: u32, up: bool, mode: Mode) -> (r: i64)
    ensures
        r == nudged(tone as int, up, mode),
{
    let t: i64 = if up {
        tone as i64 + 10_000
    } else {
        tone as i64 - 10_000
    };
    if mode == Mode::Hell {
        t
    } else if t < 200_000 {
        200_000
    } else if t > 3_500_000 {
        3_500_000
    } else {
        t
    }
}

/// The switch between sending as typed and sending on Return. The settings go
/// out only once the radio's own have arrived.
pub fn press_send_on_return(send_on_enter: &mut bool, seeded: bool, cmds: &mut Vec<Command>)
    ensures
        *final(send_on_enter) == !*old(send_on_enter),
        final(cmds)@ == if seeded {
            old(cmds)@.push(Command::SetDigiConfig(DigiConfig::SendOnReturn(*final(send_on_enter))))
        } else {
            old(cmds)@
        },
{
    *send_on_enter = !*send_on_enter;
    if seeded {
        cmds.push(Command::SetDigiConfig(DigiConfig::SendOnReturn(*send_on_enter)));
    }
}

/// The height left for what is received, in thousandths of a point, out of
/// `room` from the header to the end of the panel. The box, the buttons and
/// the gaps between them come first; the facsimile strip needs a little more
/// than text does.
pub open spec fn received_of(room: int, mode: Mode) -> int {
    let least = if mode == Mode::Hell {
        28_000int
    } else {
        24_000int
    };
    if room - 110_000 < least {
        least
    } else {
        room - 110_000
    }
}

/// The height left for what is received.
pub fn received_height(room: i64, mode: Mode) -> (h: i64)
    ensures
        h == received_of(room as int, mode),
{
    let least: i64 = if mode == Mode::Hell {
        28_000
    } else {
        24_000
    };
    if room < least + 110_000 {
        least
    } else {
        room - 110_000
    }
}

/// One turn of the strip: its whole height.
pub const TURN: u32 = 1_000_000;

/// How the strip of the facsimile-text mode is drawn.
#[derive(Clone, Copy, PartialEq, Eq, Structural, Debug)]
pub struct StripView {
    /// In thousandths.
    pub contrast: u32,
    /// The width of a column in thousandths of a point.
    pub column: u32,
    /// Every column is drawn twice, stacked.
    pub doubled: bool,
    /// Light dots on dark paper.
    pub reverse: bool,
    /// How far the paper is turned, in millionths of its height.
    pub turned: u32,
}

/// A change to the strip. A drag is in thousandths of a point, downwards.
#[derive(Clone, Copy, PartialEq, Eq, Structural, Debug)]
pub enum StripPress {
    Contrast(u32),
    Column(u32),
    Doubled,
    Reverse,
    /// By so much, on a strip that is so high.
    Drag(i64, u64),
}

/// How far a drag turns the paper, in millionths of its height. Nothing is
/// taken to be lower than one point.
pub open spec fn drag_turns(by: int, height: int) -> int {
    by * TURN / (if height < 1_000 {
        1_000
    } else {
        height
    })
}

/// The strip after a change. The paper is an endless loop, so a drag past its
/// end comes in again on the other side; a doubled strip cannot be dragged,
/// since one whole copy can be read on it anyway.
pub open spec fn strip_after(v: StripView, p: StripPress) -> StripView {
    match p {
        StripPress::Contrast(c) => StripView {
            contrast: if c < 400 {
                400
            } else if c > 3_000 {
                3_000
            } else {
                c
            },
            ..v
        },
        StripPress::Column(w) => StripView { column: w, ..v },
        StripPress::Doubled => StripView { doubled: !v.doubled, ..v },
        StripPress::Reverse => StripView { reverse: !v.reverse, ..v },
        StripPress::Drag(by, height) => if v.doubled {
            v
        } else {
            StripView {
                turned: ((v.turned - drag_turns(by as int, height as int)) % (TURN as int)) as u32,
                ..v
            }
        },
    }
}

/// Changes the strip.
pub fn press_strip(v: StripView, p: StripPress) -> (r: StripView)
    ensures
        r == strip_after(v, p),
{
    match p {
        StripPress::Contrast(c) => {
            let contrast: u32 = if c < 400 {
                400
            } else if c > 3_000 {
                3_000
            } else {
                c
            };
            StripView { contrast, ..v }
        },
        StripPress::Column(w) => StripView { column: w, ..v },
        StripPress::Doubled => StripView { doubled: !v.doubled, ..v },
        StripPress::Reverse => StripView { reverse: !v.reverse, ..v },
        StripPress::Drag(by, height) => {
            if v.doubled {
                return v;
            }
            let h: i128 = if height < 1_000 {
                1_000
            } else {
                height as i128
            };
            let n: i128 = by as i128 * 1_000_000;
            let d: i128 = floor_div(n, h);
            proof {
                assert(-0x8000_0000_0000_0000 * 1_000_000 <= d <= 0x8000_0000_0000_0000
                    * 1_000_000) by (nonlinear_arith)
                    requires
                        d == n as int / h as int,
                        h >= 1_000,
                        -0x8000_0000_0000_0000 * 1_000_000 <= n <= 0x7fff_ffff_ffff_ffff
                            * 1_000_000,
                ;
            }
            let t: i128 = v.turned as i128 - d;
            let q: i128 = floor_div(t, TURN as i128);
            let turned: i128 = t - q * 1_000_000;
            assert(turned == t as int % TURN as int);
            StripView { turned: turned as u32, ..v }
        },
    }
}

/// A dragged strip stays within one turn of its paper, and a drag over its
/// whole height brings it back to where it was.
pub proof fn law_the_paper_is_a_loop(v: StripView, by: i64, height: u64)
    requires
        v.turned < TURN,
    ensures
        strip_after(v, StripPress::Drag(by, height)).turned < TURN,
        by == height && height >= 1_000 ==> strip_after(v, StripPress::Drag(by, height)) == v,
{
    if by == height && height >= 1_000 {
        assert(drag_turns(by as int, height as int) == TURN) by (nonlinear_arith)
            requires
                by == height,
                height >= 1_000,
                drag_turns(by as int, height as int) == by * TURN / (height as int),
        ;
    }
}

/// The settings in the headers. Shift and width in thousandths of a hertz, the
/// speed in thousandths of a baud.
#[derive(Clone, Copy, PartialEq, Eq, Structural, Debug)]
pub struct Params {
    pub shift: u32,
    pub baud: u32,
    pub reverse: bool,
    pub afc: bool,
    pub tones: u8,
    pub width: u32,
    pub thor_mode: u8,
    pub hell_variant: u8,
}

/// A press on one of the headers' settings.
#[derive(Clone, Copy, PartialEq, Eq, Structural, Debug)]
pub enum ParamPress {
    Shift(u32),
    ShiftDown,
    ShiftUp,
    Baud(u32),
    Reverse,
    Afc,
    Tones(u8),
    Width(u32),
    Thor(u8),
    Hell(u8),
}

/// The shifts that have a button of their own.
pub open spec fn shift_presets() -> Seq<u32> {
    seq![170_000, 425_000, 450_000, 850_000]
}

/// The speeds that have a button.
pub open spec fn baud_presets() -> Seq<u32> {
    seq![45_450, 50_000, 75_000, 100_000]
}

/// The tone counts that have a button.
pub open spec fn tone_presets() -> Seq<u8> {
    seq![2, 4, 8, 16, 32, 64]
}

/// The widths that have a button.
pub open spec fn width_presets() -> Seq<u32> {
    seq![125_000, 250_000, 500_000, 1_000_000, 2_000_000]
}

/// The shifts that have a button of their own.
pub fn shifts() -> (v: Vec<u32>)
    ensures
        v@ == shift_presets(),
{
    let v = vec![170_000u32, 425_000u32, 450_000u32, 850_000u32];
    assert(v@ =~= shift_presets());
    v
}

/// The speeds that have a button.
pub fn bauds() -> (v: Vec<u32>)
    ensures
        v@ == baud_presets(),
{
    let v = vec![45_450u32, 50_000u32, 75_000u32, 100_000u32];
    assert(v@ =~= baud_presets());
    v
}

/// The tone counts that have a button.
pub fn tone_counts() -> (v: Vec<u8>)
    ensures
        v@ == tone_presets(),
{
    let v = vec![2u8, 4u8, 8u8, 16u8, 32u8, 64u8];
    assert(v@ =~= tone_presets());
    v
}

/// The widths that have a button.
pub fn widths() -> (v: Vec<u32>)
    ensures
        v@ == width_presets(),
{
    let v = vec![125_000u32, 250_000u32, 500_000u32, 1_000_000u32, 2_000_000u32];
    assert(v@ =~= width_presets());
    v
}

/// True when a setting counts as the one on a button: within half a unit.
pub open spec fn is_near_preset(value: u32, preset: u32) -> bool {
    -500 < value - preset < 500
}

/// True when a button shows as chosen.
pub fn chosen(value: u32, preset: u32) -> (r: bool)
    ensures
        r == is_near_preset(value, preset),
{
    let d: i64 = value as i64 - preset as i64;
    -500 < d && d < 500
}

/// True when a shift is written out, since no button shows it.
pub fn shift_is_odd(shift: u32) -> (r: bool)
    ensures
        r == forall|i: int|
            0 <= i < shift_presets().len() ==> !is_near_preset(shift, #[trigger] shift_presets()[i]),
{
    proof {
        let p = shift_presets();
        assert(p[0] == 170_000 && p[1] == 425_000 && p[2] == 450_000 && p[3] == 850_000);
    }
    !chosen(shift, 170_000) && !chosen(shift, 425_000) && !chosen(shift, 450_000) && !chosen(
        shift,
        850_000,
    )
}

/// True when a mode's header has this setting.
pub open spec fn has_param(mode: Mode, p: ParamPress) -> bool {
    match p {
        ParamPress::Shift(_)
        | ParamPress::ShiftDown
        | ParamPress::ShiftUp
        | ParamPress::Baud(_)
        | ParamPress::Reverse
        | ParamPress::Afc => mode == Mode::Rtty || mode == Mode::RttyFm,
        ParamPress::Tones(_) | ParamPress::Width(_) => mode == Mode::Olivia,
        ParamPress::Thor(_) => mode == Mode::Thor,
        ParamPress::Hell(_) => mode == Mode::Hell,
    }
}

/// A shift held to what the modem can do.
pub open spec fn clamped_shift(v: int) -> int {
    if v < 20_000 {
        20_000
    } else if v > 1_200_000 {
        1_200_000
    } else {
        v
    }
}

/// The settings after a press.
pub open spec fn after_param(c: Params, p: ParamPress) -> Params {
    match p {
        ParamPress::Shift(s) => Params { shift: s, ..c },
        ParamPress::ShiftDown => Params { shift: clamped_shift(c.shift - 5_000) as u32, ..c },
        ParamPress::ShiftUp => Params { shift: clamped_shift(c.shift + 5_000) as u32, ..c },
        ParamPress::Baud(b) => Params { baud: b, ..c },
        ParamPress::Reverse => Params { reverse: !c.reverse, ..c },
        ParamPress::Afc => Params { afc: !c.afc, ..c },
        ParamPress::Tones(t) => Params { tones: t, ..c },
        ParamPress::Width(w) => Params { width: w, ..c },
        ParamPress::Thor(m) => Params { thor_mode: m, ..c },
        ParamPress::Hell(v) => Params { hell_variant: v, ..c },
    }
}

fn held_shift(v: i64) -> (r: u32)
    ensures
        r == clamped_shift(v as int),
{
    if v < 20_000 {
        20_000
    } else if v > 1_200_000 {
        1_200_000
    } else {
        v as u32
    }
}

/// Changes a setting of the mode in use and sends the settings. A setting that
/// the mode does not have changes nothing, nor does the variant already in
/// use.
pub fn press_param(c: &mut Params, mode: Mode, p: ParamPress, cmds: &mut Vec<Command>)
    ensures
        if has_param(mode, p) && !(p matches ParamPress::Hell(v) && v == old(c).hell_variant) {
            *final(c) == after_param(*old(c), p) && final(cmds)@ == old(cmds)@.push(
                Command::SetDigiConfig(DigiConfig::Params(*final(c))),
            )
        } else {
            *final(c) == *old(c) && final(cmds)@ == old(cmds)@
        },
{
    let rtty = mode == Mode::Rtty || mode == Mode::RttyFm;
    match p {
        ParamPress::Shift(s) => {
            if !rtty {
                return;
            }
            c.shift = s;
        },
        ParamPress::ShiftDown => {
            if !rtty {
                return;
            }
            c.shift = held_shift(c.shift as i64 - 5_000);
        },
        ParamPress::ShiftUp => {
            if !rtty {
                return;
            }
            c.shift = held_shift(c.shift as i64 + 5_000);
        },
        ParamPress::Baud(b) => {
            if !rtty {
                return;
            }
            c.baud = b;
        },
        ParamPress::Reverse => {
            if !rtty {
                return;
            }
            c.reverse = !c.reverse;
        },
        ParamPress::Afc => {
            if !rtty {
                return;
            }
            c.afc = !c.afc;
        },
        ParamPress::Tones(t) => {
            if mode != Mode::Olivia {
                return;
            }
            c.tones = t;
        },
        ParamPress::Width(w) => {
            if mode != Mode::Olivia {
                return;
            }
            c.width = w;
        },
        ParamPress::Thor(m) => {
            if mode != Mode::Thor {
                return;
            }
            c.thor_mode = m;
        },
        ParamPress::Hell(v) => {
            if mode != Mode::Hell || v == c.hell_variant {
                return;
            }
            c.hell_variant = v;
        },
    }
    cmds.push(Command::SetDigiConfig(DigiConfig::Params(*c)));
}

/// Moves the squelch of the decoder, in thousandths. Nothing changes before the
/// radio's own settings have arrived.
pub fn set_squelch(squelch: &mut u16, to: u16, seeded: bool, cmds: &mut Vec<Command>)
    requires
        to <= 1000,
    ensures
        *final(squelch) == if seeded {
            to
        } else {
            *old(squelch)
        },
        final(cmds)@ == if seeded {
            old(cmds)@.push(Command::SetDigiConfig(DigiConfig::Squelch(to)))
        } else {
            old(cmds)@
        },
{
    if seeded {
        *squelch = to;
        cmds.push(Command::SetDigiConfig(DigiConfig::Squelch(to)));
    }
}

/// The part that has gone out is as long as was sent, never longer than the text,
/// and is how the text begins.
pub proof fn law_the_sent_part_leads(text: Seq<char>, sent: usize)
    ensures
        sent <= text.len() ==> sent_part(text, sent).len() == sent,
        sent >= text.len() ==> sent_part(text, sent) == text,
        forall|i: int|
            0 <= i < sent_part(text, sent).len() ==> #[trigger] sent_part(text, sent)[i] == text[i],
{
    if sent >= text.len() {
        assert(text.take(text.len() as int) =~= text);
    }
}

/// An edit behind the part that has gone out stands as typed; one that changes a
/// character of that part, or takes one away, is undone.
pub proof fn law_only_unsent_text_is_edited(prev: Seq<char>, edited: Seq<char>, sent: usize)
    requires
        sent <= prev.len(),
    ensures
        edited.len() >= sent && (forall|i: int| 0 <= i < sent ==> edited[i] == #[trigger] prev[i])
            ==> guarded(prev, edited, sent) == edited,
        edited.len() < sent ==> guarded(prev, edited, sent) == prev,
        (exists|i: int| 0 <= i < sent && i < edited.len() && edited[i] != #[trigger] prev[i])
            ==> guarded(prev, edited, sent) == prev,
{
    let p = sent_part(prev, sent);
    if edited.len() >= sent && (forall|i: int| 0 <= i < sent ==> edited[i] == #[trigger] prev[i]) {
        assert(edited.take(p.len() as int) =~= p);
    }
    if exists|i: int| 0 <= i < sent && i < edited.len() && edited[i] != #[trigger] prev[i] {
        let i: int = choose|i: int|
            0 <= i < sent && i < edited.len() && edited[i] != #[trigger] prev[i];
        assert(p[i] == prev[i]);
        if edited.len() >= p.len() {
            assert(edited.take(p.len() as int)[i] == edited[i]);
        }
    }
}

/// A committed line ends with a line break and holds what was typed before it.
pub proof fn law_a_line_ends_with_a_break(text: Seq<char>)
    ensures
        as_line(text).len() > 0,
        as_line(text).last() == '\n',
        as_line(text) == text || as_line(text) == text.push('\n'),
        text.len() > 0 && text.last() == '\n' ==> as_line(text) == text,
{
}

/// A general call gives the callsign three times, or says that there is none, and
/// hands over at the end. Only the facsimile-text mode does without a line break.
pub proof fn law_a_general_call_names_its_caller(my_call: Seq<char>, mode: Mode)
    ensures
        my_call.len() > 0 && mode != Mode::Hell ==> cq_text(my_call, mode) == "CQ CQ CQ DE "@
            + my_call + " "@ + my_call + " "@ + my_call + " PSE K\n"@,
        my_call.len() > 0 && mode == Mode::Hell ==> cq_text(my_call, mode) == "CQ CQ CQ DE "@
            + my_call + " "@ + my_call + " "@ + my_call + " PSE K "@,
        my_call.len() == 0 ==> cq_text(my_call, mode) == cq_text("NOCALL"@, mode),
        cq_text(my_call, mode).last() == (if mode == Mode::Hell {
            ' '
        } else {
            '\n'
        }),
{
    reveal_strlit("NOCALL");
    reveal_strlit(" PSE K\n");
    reveal_strlit(" PSE K ");
}

/// Ten hertz up and ten hertz down meet again within the passband. The tone never
/// leaves it, except in the facsimile-text mode.
pub proof fn law_a_nudge_is_ten_hertz(tone: int, up: bool, mode: Mode)
    ensures
        nudged(tone, true, Mode::Hell) == tone + 10_000,
        nudged(tone, false, Mode::Hell) == tone - 10_000,
        mode != Mode::Hell ==> 200_000 <= nudged(tone, up, mode) <= 3_500_000,
        mode != Mode::Hell && 200_000 <= tone <= 3_490_000 ==> nudged(tone, true, mode) == tone
            + 10_000,
        mode != Mode::Hell && 210_000 <= tone <= 3_500_000 ==> nudged(tone, false, mode) == tone
            - 10_000,
{
}

/// What is received has all the height that the box and the buttons leave, and
/// never less than a line or a strip needs.
pub proof fn law_received_text_has_room(room: int, mode: Mode)
    ensures
        received_of(room, mode) >= 24_000,
        mode == Mode::Hell ==> received_of(room, mode) >= 28_000,
        received_of(room, mode) >= room - 110_000,
        room >= 138_000 ==> received_of(room, mode) + 110_000 == room,
        room <= 134_000 && mode != Mode::Hell ==> received_of(room, mode) == 24_000,
        room <= 138_000 && mode == Mode::Hell ==> received_of(room, mode) == 28_000,
{
}

/// A change to the strip changes just what was pressed.
pub proof fn law_a_strip_press_changes_its_own_setting(v: StripView, x: u32, by: i64, height: u64)
    ensures
        400 <= x <= 3_000 ==> strip_after(v, StripPress::Contrast(x)) == (StripView {
            contrast: x,
            ..v
        }),
        x <= 400 ==> strip_after(v, StripPress::Contrast(x)).contrast == 400,
        x >= 3_000 ==> strip_after(v, StripPress::Contrast(x)).contrast == 3_000,
        height <= 1_000 ==> strip_after(v, StripPress::Drag(by, height)) == strip_after(
            v,
            StripPress::Drag(by, 1_000),
        ),
        strip_after(v, StripPress::Contrast(x)) == (StripView {
            contrast: strip_after(v, StripPress::Contrast(x)).contrast,
            ..v
        }),
        strip_after(v, StripPress::Column(x)) == (StripView { column: x, ..v }),
        strip_after(v, StripPress::Doubled) == (StripView { doubled: !v.doubled, ..v }),
        strip_after(v, StripPress::Reverse) == (StripView { reverse: !v.reverse, ..v }),
        v.doubled ==> strip_after(v, StripPress::Drag(by, height)) == v,
        strip_after(v, StripPress::Drag(by, height)) == (StripView {
            turned: strip_after(v, StripPress::Drag(by, height)).turned,
            ..v
        }),
{
}

/// The paper follows the pointer: dragged down by some part of its height, it is
/// turned back by that part.
pub proof fn law_the_paper_follows_the_pointer(v: StripView, by: i64, height: u64)
    requires
        !v.doubled,
        v.turned < TURN,
        1_000 <= height,
        0 <= by,
        by * 1_000_000 <= v.turned * height,
    ensures
        ({
            let d = v.turned - strip_after(v, StripPress::Drag(by, height)).turned;
            d * height <= by * 1_000_000 < (d + 1) * height
        }),
{
    let d = drag_turns(by as int, height as int);
    let n = by * 1_000_000;
    assert(d * height <= n < (d + 1) * height && 0 <= d <= v.turned) by (nonlinear_arith)
        requires
            d == n / (height as int),
            height >= 1_000,
            0 <= n <= v.turned * height,
    ;
    assert((v.turned - d) % 1_000_000 == v.turned - d);
}

/// Every button of the headers stands for another value, in rising order, and
/// tone counts double from one to the next.
pub proof fn law_presets_rise()
    ensures
        forall|i: int, j: int|
            0 <= i < j < shift_presets().len() ==> #[trigger] shift_presets()[i]
                < #[trigger] shift_presets()[j],
        forall|i: int, j: int|
            0 <= i < j < baud_presets().len() ==> #[trigger] baud_presets()[i]
                < #[trigger] baud_presets()[j],
        forall|i: int, j: int|
            0 <= i < j < width_presets().len() ==> #[trigger] width_presets()[i]
                < #[trigger] width_presets()[j],
        tone_presets().len() == 6 && tone_presets()[0] == 2,
        forall|i: int, j: int|
            0 <= i < tone_presets().len() && j == i + 1 && j < tone_presets().len()
                ==> #[trigger] tone_presets()[j] == 2 * #[trigger] tone_presets()[i],
        width_presets().len() == 5 && width_presets()[0] == 125_000,
        forall|i: int, j: int|
            0 <= i < width_presets().len() && j == i + 1 && j < width_presets().len()
                ==> #[trigger] width_presets()[j] == 2 * #[trigger] width_presets()[i],
        shift_presets().len() == 4 && shift_presets()[0] == 170_000 && shift_presets()[3]
            == 850_000,
        baud_presets().len() == 4 && baud_presets()[0] == 45_450 && baud_presets()[3] == 100_000,
        forall|i: int|
            0 <= i < shift_presets().len() ==> 20_000 <= #[trigger] shift_presets()[i] <= 1_200_000,
{
}

/// A button shows as chosen on its own value and on no value half a unit away.
pub proof fn law_a_button_shows_its_value(value: u32, preset: u32)
    ensures
        is_near_preset(preset, preset),
        is_near_preset(value, preset) <==> value < preset + 500 && preset < value + 500,
{
}

/// A press on a header's setting sets just that. The shift moves in steps of five
/// hertz and stays within what the modem can do.
pub proof fn law_a_press_sets_its_own_parameter(c: Params, x: u32, n: u8)
    ensures
        after_param(c, ParamPress::Shift(x)) == (Params { shift: x, ..c }),
        after_param(c, ParamPress::Baud(x)) == (Params { baud: x, ..c }),
        after_param(c, ParamPress::Reverse) == (Params { reverse: !c.reverse, ..c }),
        after_param(c, ParamPress::Afc) == (Params { afc: !c.afc, ..c }),
        after_param(c, ParamPress::Tones(n)) == (Params { tones: n, ..c }),
        after_param(c, ParamPress::Width(x)) == (Params { width: x, ..c }),
        after_param(c, ParamPress::Thor(n)) == (Params { thor_mode: n, ..c }),
        after_param(c, ParamPress::Hell(n)) == (Params { hell_variant: n, ..c }),
        25_000 <= c.shift <= 1_205_000 ==> after_param(c, ParamPress::ShiftDown) == (Params {
            shift: (c.shift - 5_000) as u32,
            ..c
        }),
        15_000 <= c.shift <= 1_195_000 ==> after_param(c, ParamPress::ShiftUp) == (Params {
            shift: (c.shift + 5_000) as u32,
            ..c
        }),
        c.shift <= 25_000 ==> after_param(c, ParamPress::ShiftDown).shift == 20_000,
        c.shift <= 15_000 ==> after_param(c, ParamPress::ShiftUp).shift == 20_000,
        c.shift >= 1_205_000 ==> after_param(c, ParamPress::ShiftDown).shift == 1_200_000,
        c.shift >= 1_195_000 ==> after_param(c, ParamPress::ShiftUp).shift == 1_200_000,
{
}

/// Each header has the settings of its own mode.
pub proof fn law_a_header_has_its_own_settings(mode: Mode, x: u32, n: u8)
    ensures
        ({
            let rtty = mode == Mode::Rtty || mode == Mode::RttyFm;
            &&& has_param(mode, ParamPress::Shift(x)) == rtty
            &&& has_param(mode, ParamPress::ShiftDown) == rtty
            &&& has_param(mode, ParamPress::ShiftUp) == rtty
            &&& has_param(mode, ParamPress::Baud(x)) == rtty
            &&& has_param(mode, ParamPress::Reverse) == rtty
            &&& has_param(mode, ParamPress::Afc) == rtty
            &&& has_param(mode, ParamPress::Tones(n)) == (mode == Mode::Olivia)
            &&& has_param(mode, ParamPress::Width(x)) == (mode == Mode::Olivia)
            &&& has_param(mode, ParamPress::Thor(n)) == (mode == Mode::Thor)
            &&& has_param(mode, ParamPress::Hell(n)) == (mode == Mode::Hell)
        }),
{
}

/// Requests are only ever put behind those that are there.
pub proof fn law_requests_go_to_the_end(before: Seq<Command>, after: Seq<Command>, n: int, i: int)
    requires
        extends(before, after, n),
        0 <= n,
        0 <= i < before.len(),
    ensures
        after.len() == before.len() + n,
        after[i] == before[i],
{
    assert(after.take(before.len() as int)[i] == before[i]);
}

} // verus!
