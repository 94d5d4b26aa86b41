//! The exchange in progress: station card, queues, conversation and buttons.

use vstd::prelude::*;

use crate::command::{Command, QsoStep};
use crate::ink::Ink;
use crate::mode::Mode;
use crate::text::{
    blank, cat, dec, dec_signed, decimal, decimal_signed, is_blank, nearest_even, round_even,
};

verus! {

/// True while an exchange is under way: neither idle nor waiting to confirm.
pub open spec fn is_in_qso(step: Option<QsoStep>) -> bool {
    step is Some && step->0 != QsoStep::Idle && step->0 != QsoStep::Confirming
}

/// True while an exchange is under way.
pub fn in_qso(step: Option<QsoStep>) -> (r: bool)
    ensures
        r == is_in_qso(step),
{
    match step {
        Some(s) => s != QsoStep::Idle && s != QsoStep::Confirming,
        None => false,
    }
}

/// The buttons under the conversation that can be pressed. Both stops always
/// can; calling CQ needs a transmitter and no exchange under way.
#[derive(Clone, Copy, PartialEq, Eq, Structural, Debug)]
pub struct Buttons {
    pub call_cq: bool,
    pub stop_qso: bool,
    pub stop_tx: bool,
    /// Choosing the next message by hand.
    pub steps: bool,
    pub send_text: bool,
}

/// Which buttons can be pressed.
pub fn buttons(step: Option<QsoStep>, tx_ok: bool, has_dx: bool) -> (b: Buttons)
    ensures
        b == (Buttons {
            call_cq: !is_in_qso(step) && tx_ok,
            stop_qso: true,
            stop_tx: true,
            steps: has_dx,
            send_text: tx_ok,
        }),
{
    Buttons {
        call_cq: !in_qso(step) && tx_ok,
        stop_qso: true,
        stop_tx: true,
        steps: has_dx,
        send_text: tx_ok,
    }
}

/// The messages that can be chosen by hand, in the order of their buttons.
pub open spec fn step_choices() -> Seq<(QsoStep, Seq<char>)> {
    seq![
        (QsoStep::TxGrid, "GRID"@),
        (QsoStep::TxReport, "RPT"@),
        (QsoStep::TxRReport, "R+RPT"@),
        (QsoStep::TxRr73, "RR73"@),
        (QsoStep::Tx73, "73"@),
    ]
}

/// The messages that can be chosen by hand.
pub fn step_buttons() -> (v: Vec<(QsoStep, &'static str)>)
    ensures
        v@.len() == step_choices().len(),
        forall|i: int|
            0 <= i < v@.len() ==> (#[trigger] v@[i]).0 == step_choices()[i].0 && v@[i].1@
                == step_choices()[i].1,
{
    vec![
        (QsoStep::TxGrid, "GRID"),
        (QsoStep::TxReport, "RPT"),
        (QsoStep::TxRReport, "R+RPT"),
        (QsoStep::TxRr73, "RR73"),
        (QsoStep::Tx73, "73"),
    ]
}

/// Sends the free text, by its button or by Return, and empties the field.
/// Nothing is sent without a transmitter, and blank text is not sent.
pub fn send_free_text(
    text: &mut String,
    clicked: bool,
    returned: bool,
    tx_ok: bool,
) -> (c: Option<Command>)
    ensures
        c is Some == (tx_ok && (clicked || returned) && !is_blank(old(text)@)),
        match c {
            Some(Command::DigiSendText(s)) => s@ == old(text)@ && final(text)@.len() == 0,
            Some(_) => false,
            None => final(text)@ == old(text)@,
        },
{
    if tx_ok && (clicked || returned) && !blank(text.as_str()) {
        let s = text.clone();
        *text = String::new();
        Some(Command::DigiSendText(s))
    } else {
        None
    }
}

/// What the station card shows beside the step.
#[derive(Clone, Copy, PartialEq, Eq, Structural, Debug)]
pub struct CardMarks {
    pub step: Ink,
    pub complete: bool,
    pub transmitting: bool,
    pub expedition: bool,
    pub watchdog: bool,
}

/// What the station card shows. A contact that only waits to be confirmed is
/// in the log and shown as complete; the expedition mark belongs to the two
/// modes that have one.
pub fn card_marks(
    step: QsoStep,
    transmitting: bool,
    expedition: bool,
    mode: Mode,
    watchdog: bool,
) -> (m: CardMarks)
    ensures
        m.step == if step == QsoStep::Confirming {
            Ink::Green
        } else {
            Ink::Cyan
        },
        m.complete == (step == QsoStep::Confirming),
        m.transmitting == transmitting,
        m.expedition == (expedition && (mode == Mode::Ft8 || mode == Mode::Ft2)),
        m.watchdog == watchdog,
{
    let complete = step == QsoStep::Confirming;
    CardMarks {
        step: if complete {
            Ink::Green
        } else {
            Ink::Cyan
        },
        complete,
        transmitting,
        expedition: expedition && (mode == Mode::Ft8 || mode == Mode::Ft2),
        watchdog,
    }
}

/// The transmit tone and the slots it goes out in.
pub fn tone_line(tone_millihz: u32, tx_even: bool) -> (t: String)
    ensures
        t@ == dec(nearest_even(tone_millihz as nat, 1000)) + " Hz · "@ + (if tx_even {
            "even"@
        } else {
            "odd"@
        }) + " slots"@,
{
    let mut t = decimal(round_even(tone_millihz as u64, 1000));
    t.append(" Hz · ");
    t.append(if tx_even {
        "even"
    } else {
        "odd"
    });
    t.append(" slots");
    t
}

/// How well this station's clock agrees with the ones it hears.
#[derive(Clone, Copy, PartialEq, Eq, Structural, Debug)]
pub enum ClockHealth {
    Good,
    Marginal,
    Bad,
}

/// The colour of the clock's readout.
pub fn clock_ink(h: ClockHealth) -> (i: Ink)
    ensures
        i == match h {
            ClockHealth::Good => Ink::Gray(140),
            ClockHealth::Marginal => Ink::Yellow,
            ClockHealth::Bad => Ink::Pink,
        },
{
    match h {
        ClockHealth::Good => Ink::Gray(140),
        ClockHealth::Marginal => Ink::Yellow,
        ClockHealth::Bad => Ink::Pink,
    }
}

/// What is said of the clock. `seconds` is the distance in figures, `early`
/// whether this station transmits ahead of the others.
pub fn clock_advice(h: ClockHealth, seconds: &str, early: bool) -> (t: String)
    ensures
        t@ == if h == ClockHealth::Good {
            "Well inside tolerance."@
        } else {
            "You transmit "@ + seconds@ + " s "@ + (if early {
                "before"@
            } else {
                "after"@
            })
                + " everyone else — the usual reason calls go unanswered. Sync your computer clock."@
        },
{
    if h == ClockHealth::Good {
        return "Well inside tolerance.".to_owned();
    }
    let mut t = cat("You transmit ", seconds);
    t.append(" s ");
    t.append(
        if early {
            "before"
        } else {
            "after"
        },
    );
    t.append(" everyone else — the usual reason calls go unanswered. Sync your computer clock.");
    t
}

/// A locator behind a dot, where there is one.
pub open spec fn grid_part(grid: Option<String>) -> Seq<char> {
    match grid {
        Some(g) => " · "@ + g@,
        None => Seq::empty(),
    }
}

fn append_grid(t: &mut String, grid: &Option<String>)
    ensures
        final(t)@ == old(t)@ + grid_part(*grid),
{
    match grid {
        Some(g) => {
            t.append(" · ");
            t.append(g.as_str());
            assert(t@ =~= old(t)@ + grid_part(*grid));
        },
        None => {
            assert(t@ =~= old(t)@ + grid_part(*grid));
        },
    }
}

/// What is said of a station in the pile-up of a fox.
pub fn pile_up_line(working: bool, snr_db: i32, grid: &Option<String>) -> (t: String)
    ensures
        t@ == (if working {
            "being worked"@
        } else {
            "waiting"@
        }) + " · "@ + dec_signed(snr_db as int) + " dB"@ + grid_part(*grid),
{
    let mut t = cat(
        if working {
            "being worked"
        } else {
            "waiting"
        },
        " · ",
    );
    t.append(decimal_signed(snr_db as i64).as_str());
    t.append(" dB");
    append_grid(&mut t, grid);
    t
}

/// What is said of the station at place `i` of the queue.
pub fn queue_line(i: usize, snr_db: i32, tone_millihz: u32, grid: &Option<String>) -> (t: String)
    ensures
        t@ == (if i == 0 {
            "next"@
        } else {
            "waiting"@
        }) + " · "@ + dec_signed(snr_db as int) + " dB · "@ + dec(
            nearest_even(tone_millihz as nat, 1000),
        ) + " Hz"@ + grid_part(*grid) + "\nClick to remove"@,
{
    let mut t = cat(
        if i == 0 {
            "next"
        } else {
            "waiting"
        },
        " · ",
    );
    t.append(decimal_signed(snr_db as i64).as_str());
    t.append(" dB · ");
    t.append(decimal(round_even(tone_millihz as u64, 1000)).as_str());
    t.append(" Hz");
    append_grid(&mut t, grid);
    t.append("\nClick to remove");
    t
}

/// The colour of a station in the queue: the next one is read first.
pub fn queue_ink(i: usize) -> (k: Ink)
    ensures
        k == if i == 0 {
            Ink::Green
        } else {
            Ink::Gray(150)
        },
{
    if i == 0 {
        Ink::Green
    } else {
        Ink::Gray(150)
    }
}

/// One line of the conversation.
#[derive(Debug)]
pub struct Line {
    pub text: String,
    /// Sent by this station.
    pub tx: bool,
    /// The exchange is complete with it.
    pub done: bool,
    /// Traffic between others.
    pub overheard: bool,
}

/// The mark ahead of a line.
pub open spec fn line_tag(l: Line) -> Seq<char> {
    if l.done {
        "✓"@
    } else if l.overheard {
        "·"@
    } else if l.tx {
        "»"@
    } else {
        "«"@
    }
}

/// The colour of a line.
pub open spec fn line_ink(l: Line) -> Ink {
    if l.done {
        Ink::Green
    } else if l.overheard {
        Ink::Pink
    } else if l.tx {
        Ink::Yellow
    } else {
        Ink::Green
    }
}

/// True when the conversation shows exactly these lines and colours: what was
/// said, then what is about to be sent, or one line for nothing at all.
pub open spec fn is_transcript(
    lines: Seq<Line>,
    pending: Option<Seq<char>>,
    shown: Seq<(String, Ink)>,
) -> bool {
    &&& shown.len() == lines.len() + (if pending is Some || lines.len() == 0 {
        1int
    } else {
        0int
    })
    &&& forall|i: int|
        0 <= i < lines.len() ==> (#[trigger] shown[i]).0@ == line_tag(lines[i]) + " "@
            + lines[i].text@ && shown[i].1 == line_ink(lines[i])
    &&& pending is Some ==> shown.last().0@ == "→ "@ + pending->0 && shown.last().1 == Ink::Gray(
        150,
    )
    &&& pending is None && lines.len() == 0 ==> shown.last().0@ == "— no messages —"@
        && shown.last().1 == Ink::Gray(90)
}

/// The conversation as it is shown.
pub fn transcript(lines: &Vec<Line>, pending: Option<&str>) -> (shown: Vec<(String, Ink)>)
    ensures
        is_transcript(
            lines@,
            match pending {
                Some(s) => Some(s@),
                None => None,
            },
            shown@,
        ),
{
    let mut shown: Vec<(String, Ink)> = Vec::new();
    let mut i: usize = 0;
    while i < lines.len()
        invariant
            i <= lines@.len(),
            shown@.len() == i,
            forall|k: int|
                0 <= k < i ==> (#[trigger] shown@[k]).0@ == line_tag(lines@[k]) + " "@
                    + lines@[k].text@ && shown@[k].1 == line_ink(lines@[k]),
        decreases lines@.len() - i,
    {
        let l = &lines[i];
        let (tag, ink): (&'static str, Ink) = if l.done {
            ("✓", Ink::Green)
        } else if l.overheard {
            ("·", Ink::Pink)
        } else if l.tx {
            ("»", Ink::Yellow)
        } else {
            ("«", Ink::Green)
        };
        let mut t = cat(tag, " ");
        t.append(l.text.as_str());
        shown.push((t, ink));
        i = i + 1;
    }
    match pending {
        Some(msg) => {
            shown.push((cat("→ ", msg), Ink::Gray(150)));
        },
        None => {
            if lines.len() == 0 {
                shown.push(("— no messages —".to_owned(), Ink::Gray(90)));
            }
        },
    }
    shown
}

/// The most characters of a free text.
pub const FREE_TEXT_CHARS: usize = 13;

/// The colour of a caller in the pile-up of a fox.
pub fn pile_up_ink(working: bool) -> (k: Ink)
    ensures
        k == if working {
            Ink::Green
        } else {
            Ink::Gray(150)
        },
{
    if working {
        Ink::Green
    } else {
        Ink::Gray(150)
    }
}

/// The heading of the pile-up or of the queue, with how many wait in it; an
/// empty one is not shown.
pub open spec fn heading(name: Seq<char>, waiting: nat) -> Option<Seq<char>> {
    if waiting == 0 {
        None
    } else {
        Some(name + " "@ + dec(waiting))
    }
}

fn head(name: &str, waiting: usize) -> (t: Option<String>)
    ensures
        match (t, heading(name@, waiting as nat)) {
            (Some(s), Some(h)) => s@ == h,
            (None, None) => true,
            _ => false,
        },
{
    if waiting == 0 {
        return None;
    }
    let mut t = cat(name, " ");
    t.append(decimal(waiting as u64).as_str());
    Some(t)
}

/// The heading of the pile-up of a fox.
pub fn pile_up_head(waiting: usize) -> (t: Option<String>)
    ensures
        match (t, heading("PILE-UP"@, waiting as nat)) {
            (Some(s), Some(h)) => s@ == h,
            (None, None) => true,
            _ => false,
        },
{
    head("PILE-UP", waiting)
}

/// The heading of the queue.
pub fn queue_head(waiting: usize) -> (t: Option<String>)
    ensures
        match (t, heading("QUEUE"@, waiting as nat)) {
            (Some(s), Some(h)) => s@ == h,
            (None, None) => true,
            _ => false,
        },
{
    head("QUEUE", waiting)
}

/// Takes a station out of the queue, or all of them where none is named.
pub fn drop_queued(call: Option<&str>) -> (c: Command)
    ensures
        c matches Command::DigiQueueRemove(s) && s@ == match call {
            Some(t) => t@,
            None => Seq::empty(),
        },
{
    match call {
        Some(t) => Command::DigiQueueRemove(t.to_owned()),
        None => Command::DigiQueueRemove(String::new()),
    }
}

/// What the station card says while nobody is worked: whether the engine has
/// reported at all.
pub fn empty_card(reported: bool) -> (t: &'static str)
    ensures
        t@ == if reported {
            "no active QSO — pick a decode to reply, or Call CQ"@
        } else {
            "FT8 engine idle"@
        },
{
    if reported {
        "no active QSO — pick a decode to reply, or Call CQ"
    } else {
        "FT8 engine idle"
    }
}

/// How many contacts were made since the program started.
pub fn session_line(contacts: u32) -> (t: String)
    ensures
        t@ == "Session: "@ + dec(contacts as nat) + " QSO"@,
{
    let mut t = cat("Session: ", decimal(contacts as u64).as_str());
    t.append(" QSO");
    t
}

/// Whether the logbook can be saved in a format, and what the button says of
/// it: an empty one cannot.
pub fn export_button(contacts: usize, format: &str) -> (r: (bool, String))
    ensures
        r.0 == (contacts > 0),
        r.1@ == "Save the whole logbook ("@ + dec(contacts as nat) + " QSO) as "@ + format@,
{
    let mut t = cat("Save the whole logbook (", decimal(contacts as u64).as_str());
    t.append(" QSO) as ");
    t.append(format);
    (contacts > 0, t)
}

/// The conversation shows each message behind a mark that tells who sent it, in
/// order; what is about to be sent stands last.
pub proof fn law_the_conversation_shows_every_message(
    lines: Seq<Line>,
    pending: Option<Seq<char>>,
    shown: Seq<(String, Ink)>,
    i: int,
)
    requires
        is_transcript(lines, pending, shown),
        0 <= i < lines.len(),
    ensures
        lines[i].done ==> shown[i].0@ == "✓ "@ + lines[i].text@ && shown[i].1 == Ink::Green,
        !lines[i].done && lines[i].overheard ==> shown[i].0@ == "· "@ + lines[i].text@ && shown[i].1
            == Ink::Pink,
        !lines[i].done && !lines[i].overheard && lines[i].tx ==> shown[i].0@ == "» "@
            + lines[i].text@ && shown[i].1 == Ink::Yellow,
        !lines[i].done && !lines[i].overheard && !lines[i].tx ==> shown[i].0@ == "« "@
            + lines[i].text@ && shown[i].1 == Ink::Green,
        pending is None ==> shown.len() == lines.len(),
        pending is Some ==> shown.len() == lines.len() + 1 && shown.last().0@ == "→ "@ + pending->0,
{
    reveal_strlit("✓ ");
    reveal_strlit("✓");
    reveal_strlit("· ");
    reveal_strlit("·");
    reveal_strlit("» ");
    reveal_strlit("»");
    reveal_strlit("« ");
    reveal_strlit("«");
    reveal_strlit(" ");
    let l = lines[i];
    assert("✓"@ + " "@ =~= "✓ "@);
    assert("·"@ + " "@ =~= "· "@);
    assert("»"@ + " "@ =~= "» "@);
    assert("«"@ + " "@ =~= "« "@);
    assert(shown[i].0@ == line_tag(l) + " "@ + l.text@);
}

/// An exchange is under way in every step but idle and the wait to confirm.
pub proof fn law_idle_and_confirming_are_no_exchange(s: QsoStep)
    ensures
        !is_in_qso(None),
        is_in_qso(Some(s)) == (s != QsoStep::Idle && s != QsoStep::Confirming),
{
}

/// The messages that can be chosen are those of an exchange in the order they
/// are sent, each on a button of its own.
pub proof fn law_messages_are_offered_in_order(i: int, j: int)
    requires
        0 <= i < j < step_choices().len(),
    ensures
        step_choices()[i].0 != step_choices()[j].0,
        is_in_qso(Some(step_choices()[i].0)),
        step_choices()[0].0 == QsoStep::TxGrid,
        step_choices().last().0 == QsoStep::Tx73,
        step_choices().len() == 5,
        step_choices()[i].0 == QsoStep::TxReport ==> step_choices()[i].1 == "RPT"@,
        step_choices()[i].0 == QsoStep::TxRReport ==> step_choices()[i].1 == "R+RPT"@
            && step_choices()[i - 1].0 == QsoStep::TxReport,
        step_choices()[i].0 == QsoStep::TxRr73 ==> step_choices()[i].1 == "RR73"@,
{
}

/// A heading counts those who wait under its name, and is left out where nobody
/// does; a locator follows behind a dot where it is known.
pub proof fn law_a_heading_counts(name: Seq<char>, n: nat, g: String)
    ensures
        heading(name, 0) is None,
        n > 0 ==> heading(name, n) == Some(name + " "@ + dec(n)),
        grid_part(Some(g)) == " · "@ + g@,
        grid_part(None).len() == 0,
{
}

/// A line that completes the exchange is marked as done, before anything else; of
/// the others traffic between others stands apart, and our own from theirs.
pub proof fn law_a_line_shows_whose_it_is(l: Line)
    ensures
        l.done ==> line_tag(l) == "✓"@ && line_ink(l) == Ink::Green,
        !l.done && l.overheard ==> line_tag(l) == "·"@ && line_ink(l) == Ink::Pink,
        !l.done && !l.overheard && l.tx ==> line_tag(l) == "»"@ && line_ink(l) == Ink::Yellow,
        !l.done && !l.overheard && !l.tx ==> line_tag(l) == "«"@ && line_ink(l) == Ink::Green,
{
}

/// Each message that can be chosen by hand has its own face.
pub proof fn law_a_message_has_its_face(i: int)
    requires
        0 <= i < step_choices().len(),
    ensures
        step_choices()[i].1 == match step_choices()[i].0 {
            QsoStep::TxGrid => "GRID"@,
            QsoStep::TxReport => "RPT"@,
            QsoStep::TxRReport => "R+RPT"@,
            QsoStep::TxRr73 => "RR73"@,
            _ => "73"@,
        },
{
}

} // verus!
