//! The packet terminal: the channel monitor, the connect bar, the line typed on
//! and its history.

use vstd::prelude::*;

use crate::command::Command;
use crate::ink::Ink;
use crate::net::opt_text;
use crate::text::{
    blank, cat, dec, decimal, is_blank, join, joined, same, texts, to_uppercase, trim, trim_end, trimmed,
    trimmed_end, uppercase,
};

verus! {

/// How many sent lines are remembered.
pub const HISTORY_LINES: usize = 100;

/// A frame heard on the channel.
#[derive(Debug)]
pub struct Heard {
    pub from: String,
    pub to: String,
    pub via: Vec<String>,
    /// Sent by this station.
    pub sent: bool,
}

/// A frame's addresses, as the monitor shows them.
pub open spec fn heard_text(h: Heard) -> Seq<char> {
    h.from@ + ">"@ + h.to@ + (if h.via@.len() == 0 {
        Seq::empty()
    } else {
        ","@ + joined(texts(h.via@), ","@)
    })
}

/// A frame's addresses, and their colour: this station's own traffic stands
/// out.
pub fn heard_line(h: &Heard) -> (r: (String, Ink))
    ensures
        r.0@ == heard_text(*h),
        r.1 == if h.sent {
            Ink::Green
        } else {
            Ink::CyanDim
        },
{
    let mut t = cat(h.from.as_str(), ">");
    t.append(h.to.as_str());
    let ghost head = t@;
    if h.via.len() > 0 {
        t.append(",");
        t.append(join(&h.via, ",").as_str());
    }
    assert(t@ =~= heard_text(*h));
    (
        t,
        if h.sent {
            Ink::Green
        } else {
            Ink::CyanDim
        },
    )
}

/// How a link is doing. The link layer names its states; two of them matter
/// here and every other is on its way to one of those.
#[derive(Clone, Copy, PartialEq, Eq, Structural, Debug)]
pub enum LinkState {
    Connected,
    Working,
    Idle,
}

/// What a link layer's state amounts to.
pub open spec fn link_state_of(state: Seq<char>) -> LinkState {
    if state == "Connected"@ {
        LinkState::Connected
    } else if state == "Disconnected"@ {
        LinkState::Idle
    } else {
        LinkState::Working
    }
}

/// What a link layer's state amounts to.
pub fn link_state(state: &str) -> (s: LinkState)
    ensures
        s == link_state_of(state@),
{
    if same(state, "Connected") {
        LinkState::Connected
    } else if same(state, "Disconnected") {
        LinkState::Idle
    } else {
        LinkState::Working
    }
}

/// The label of a link's state, and its colour.
pub fn link_label(s: LinkState) -> (r: (&'static str, Ink))
    ensures
        r.0@ == match s {
            LinkState::Connected => " CONNECTED "@,
            LinkState::Working => " CALLING "@,
            LinkState::Idle => " IDLE "@,
        },
        r.1 == match s {
            LinkState::Connected => Ink::Green,
            LinkState::Working => Ink::Yellow,
            LinkState::Idle => Ink::CyanDim,
        },
{
    match s {
        LinkState::Connected => (" CONNECTED ", Ink::Green),
        LinkState::Working => (" CALLING ", Ink::Yellow),
        LinkState::Idle => (" IDLE ", Ink::CyanDim),
    }
}

/// Who is at the far end and along which path; nothing while the link is idle.
pub fn peer_text(s: LinkState, peer: Option<&str>, via: &Vec<String>) -> (t: Option<String>)
    ensures
        match peer {
            Some(p) if s != LinkState::Idle => t matches Some(x) && x@ == p@ + (if via@.len() == 0 {
                Seq::empty()
            } else {
                " via "@ + joined(texts(via@), ","@)
            }),
            _ => t is None,
        },
{
    match peer {
        Some(p) => {
            if s == LinkState::Idle {
                return None;
            }
            let mut t = p.to_owned();
            if via.len() > 0 {
                t.append(" via ");
                t.append(join(via, ",").as_str());
            }
            assert(t@ =~= p@ + (if via@.len() == 0 {
                Seq::empty()
            } else {
                " via "@ + joined(texts(via@), ","@)
            }));
            Some(t)
        },
        None => None,
    }
}

/// The terminal of one radio.
#[derive(Debug)]
pub struct Terminal {
    pub target: String,
    pub via: String,
    pub draft: String,
    /// Lines that were sent, the newest last.
    pub history: Vec<String>,
    /// The line of the history being looked at.
    pub at: Option<usize>,
}

/// What decides whether a station can be called.
#[derive(Clone, Copy, PartialEq, Eq, Structural, Debug)]
pub struct Gate {
    pub tx_ok: bool,
    /// This station has a callsign.
    pub have_call: bool,
    /// Another window uses the link.
    pub busy: bool,
    pub link: LinkState,
}

/// Where a walk through the history goes next: up to older lines, where the
/// oldest is the end, and down to newer ones, past which the line is empty.
pub open spec fn walked(at: Option<usize>, len: nat, up: bool) -> Option<usize> {
    match at {
        None => if up {
            Some((len - 1) as usize)
        } else {
            None
        },
        Some(n) => if up {
            Some(
                if n == 0 {
                    0
                } else {
                    (n - 1) as usize
                },
            )
        } else if n >= len - 1 {
            None
        } else {
            Some((n + 1) as usize)
        },
    }
}

/// The history after a line was sent: a blank one, and one just like the last,
/// is not remembered, and only the newest [`HISTORY_LINES`] are.
pub open spec fn remembered(history: Seq<Seq<char>>, line: Seq<char>) -> Seq<Seq<char>> {
    if is_blank(line) || (history.len() > 0 && history.last() == line) {
        history
    } else {
        let all = history.push(line);
        if all.len() > HISTORY_LINES {
            all.skip(1)
        } else {
            all
        }
    }
}

impl Terminal {
    /// The history is bounded, and a walk stays within it.
    pub open spec fn wf(&self) -> bool {
        &&& self.history@.len() <= HISTORY_LINES
        &&& self.at matches Some(n) ==> n < self.history@.len()
    }

    /// A station in the monitor was clicked: the connect bar is addressed to
    /// it. This station's own frames and nameless ones address nothing.
    pub fn press_heard(&mut self, h: &Heard)
        ensures
            if !h.sent && h.from@.len() > 0 {
                &&& final(self).target@ == h.from@
                &&& final(self).via@ == joined(texts(h.via@), ","@)
                &&& final(self).draft == old(self).draft
                &&& final(self).history == old(self).history
                &&& final(self).at == old(self).at
            } else {
                *final(self) == *old(self)
            },
    {
        if !h.sent && !h.from.as_str().is_empty() {
            self.target = h.from.clone();
            self.via = join(&h.via, ",");
        }
    }

    /// The callsign field was typed in: it is kept in upper case.
    pub fn target_typed(&mut self)
        ensures
            final(self).target@ == uppercase(old(self).target@),
            *final(self) == (Terminal { target: final(self).target, ..*old(self) }),
    {
        self.target = to_uppercase(self.target.as_str());
    }

    /// The path field was typed in: it is kept in upper case.
    pub fn via_typed(&mut self)
        ensures
            final(self).via@ == uppercase(old(self).via@),
            *final(self) == (Terminal { via: final(self).via, ..*old(self) }),
    {
        self.via = to_uppercase(self.via.as_str());
    }

    /// True when the button that calls the station can be pressed.
    pub fn can_press_connect(&self, g: Gate) -> (r: bool)
        ensures
            r == (g.tx_ok && g.have_call && !g.busy && g.link == LinkState::Idle && !is_blank(
                self.target@,
            )),
    {
        g.tx_ok && g.have_call && !g.busy && g.link == LinkState::Idle && !blank(
            self.target.as_str(),
        )
    }

    /// Calls the station, by the button or by Return in the connect bar. `None`
    /// where there is nobody to call, nothing to call with, or a link already.
    pub fn connect(&self, g: Gate, extended: bool) -> (c: Option<Command>)
        ensures
            c is Some == (g.tx_ok && g.have_call && g.link == LinkState::Idle && !is_blank(
                self.target@,
            )),
            c matches Some(x) ==> (x matches Command::PacketConnect(call, via, ext) && call@ == trim(
                self.target@,
            ) && via@ == trim(self.via@) && ext == extended),
    {
        if g.tx_ok && g.have_call && g.link == LinkState::Idle && !blank(self.target.as_str()) {
            Some(
                Command::PacketConnect(
                    trimmed(self.target.as_str()),
                    trimmed(self.via.as_str()),
                    extended,
                ),
            )
        } else {
            None
        }
    }

    /// Sends the line, by the button or by Return, and remembers it. Nothing is
    /// sent without a transmitter or a link; an empty line is sent like any
    /// other.
    pub fn send(&mut self, tx_ok: bool, link: LinkState) -> (c: Option<Command>)
        requires
            old(self).wf(),
        ensures
            final(self).wf(),
            final(self).target == old(self).target,
            final(self).via == old(self).via,
            c is Some == (tx_ok && link == LinkState::Connected),
            match c {
                Some(x) => {
                    &&& x matches Command::PacketSend(s) && s@ == trim_end(old(self).draft@)
                    &&& texts(final(self).history@) == remembered(
                        texts(old(self).history@),
                        trim_end(old(self).draft@),
                    )
                    &&& final(self).at is None
                    &&& final(self).draft@.len() == 0
                },
                None => *final(self) == *old(self),
            },
    {
        if !tx_ok || link != LinkState::Connected {
            return None;
        }
        let line = trimmed_end(self.draft.as_str());
        let sent = line.clone();
        let n: usize = self.history.len();
        let ghost before = texts(self.history@);
        let repeats = n > 0 && same(self.history[n - 1].as_str(), line.as_str());
        assert(n > 0 ==> before.last() == self.history@[n - 1]@);
        if !blank(line.as_str()) && !repeats {
            self.history.push(line);
            assert(texts(self.history@) =~= before.push(line@));
            if self.history.len() > HISTORY_LINES {
                self.history.remove(0);
                assert(texts(self.history@) =~= before.push(line@).skip(1));
            }
        }
        assert(texts(self.history@) =~= remembered(before, line@));
        self.at = None;
        self.draft = String::new();
        Some(Command::PacketSend(sent))
    }

    /// Something was typed: the next walk starts from the newest line.
    pub fn typed(&mut self)
        requires
            old(self).wf(),
        ensures
            final(self).wf(),
            *final(self) == (Terminal { at: None, ..*old(self) }),
    {
        self.at = None;
    }

    /// Up or down was pressed: walk through what was sent. With nothing sent
    /// there is nowhere to go.
    pub fn recall(&mut self, up: bool)
        requires
            old(self).wf(),
        ensures
            final(self).wf(),
            final(self).target == old(self).target,
            final(self).via == old(self).via,
            final(self).history == old(self).history,
            if old(self).history@.len() == 0 {
                *final(self) == *old(self)
            } else {
                &&& final(self).at == walked(old(self).at, old(self).history@.len(), up)
                &&& final(self).draft@ == match final(self).at {
                    Some(n) => old(self).history@[n as int]@,
                    None => Seq::empty(),
                }
            },
    {
        if self.history.len() == 0 {
            return;
        }
        let last: usize = self.history.len() - 1;
        self.at = match self.at {
            None => if up {
                Some(last)
            } else {
                None
            },
            Some(n) => if up {
                Some(
                    if n == 0 {
                        0
                    } else {
                        n - 1
                    },
                )
            } else if n >= last {
                None
            } else {
                Some(n + 1)
            },
        };
        self.draft = match self.at {
            Some(n) => self.history[n].clone(),
            None => String::new(),
        };
    }
}

/// A walk never leaves the history, and inside of it a step down undoes a step
/// up.
pub proof fn law_walk_stays_in_the_history(at: Option<usize>, len: nat, up: bool)
    requires
        0 < len <= usize::MAX,
        at matches Some(n) ==> n < len,
    ensures
        walked(at, len, up) matches Some(n) ==> n < len,
        at matches Some(n) && n > 0 ==> walked(walked(at, len, true), len, false) == at,
        at is None ==> walked(walked(at, len, true), len, false) is None,
{
}

/// Where a walk stands after `steps` steps up from the line being typed.
pub open spec fn walked_up(len: nat, steps: nat) -> Option<usize>
    decreases steps,
{
    if steps == 0 {
        None
    } else {
        walked(walked_up(len, (steps - 1) as nat), len, true)
    }
}

/// Walking up goes through the lines one by one, from the newest to the
/// oldest, and stays there.
pub proof fn law_walking_up_ends_at_the_oldest(len: nat, steps: nat)
    requires
        0 < len <= usize::MAX,
        0 < steps,
    ensures
        walked_up(len, steps) == Some(
            if steps < len {
                (len - steps) as usize
            } else {
                0
            },
        ),
    decreases steps,
{
    if steps > 1 {
        law_walking_up_ends_at_the_oldest(len, (steps - 1) as nat);
    } else {
        assert(walked_up(len, 0) is None);
    }
}

/// What was sent last is what the first step up shows, unless it was blank.
pub proof fn law_last_line_comes_first(history: Seq<Seq<char>>, line: Seq<char>)
    requires
        !is_blank(line),
        history.len() <= HISTORY_LINES,
    ensures
        remembered(history, line).len() > 0,
        remembered(history, line)[walked(None, remembered(history, line).len(), true)->0 as int]
            == line,
        remembered(history, line).len() <= HISTORY_LINES,
{
    let r = remembered(history, line);
    if !(history.len() > 0 && history.last() == line) {
        let all = history.push(line);
        assert(all.last() == line);
        if all.len() > HISTORY_LINES {
            assert(all.skip(1).last() == line);
        }
    }
}

/// No line is remembered twice in a row.
pub proof fn law_no_line_repeats(history: Seq<Seq<char>>, line: Seq<char>)
    requires
        forall|i: int, j: int|
            0 <= i && j == i + 1 && j < history.len() ==> #[trigger] history[i]
                != #[trigger] history[j],
    ensures
        forall|i: int, j: int|
            0 <= i && j == i + 1 && j < remembered(history, line).len() ==> #[trigger] remembered(
                history,
                line,
            )[i] != #[trigger] remembered(history, line)[j],
{
    let r = remembered(history, line);
    let all = history.push(line);
    assert forall|i: int, j: int| 0 <= i && j == i + 1 && j < r.len() implies #[trigger] r[i]
        != #[trigger] r[j] by {
        if r == history {
        } else {
            let d = all.len() - r.len();
            assert(r[i] == all[i + d] && r[j] == all[j + d]);
            assert(all[i + d] == history[i + d]);
            if j + d < history.len() {
                assert(all[j + d] == history[j + d]);
            }
        }
    }
}

/// The hover text of the connect button.
pub fn connect_hint(g: Gate, ready: bool) -> (t: &'static str)
    ensures
        t@ == if g.busy {
            "The MAIL window has the link. Finish or stop that session first."@
        } else if !g.have_call {
            "This station has no callsign yet — set one under SETUP, above the monitor pane. Nothing transmits until it is set."@
        } else if ready {
            "Call this station in connected mode — a node, a BBS, or another operator."@
        } else {
            "Needs a callsign to call."@
        },
{
    if g.busy {
        "The MAIL window has the link. Finish or stop that session first."
    } else if !g.have_call {
        "This station has no callsign yet — set one under SETUP, above the monitor pane. Nothing transmits until it is set."
    } else if ready {
        "Call this station in connected mode — a node, a BBS, or another operator."
    } else {
        "Needs a callsign to call."
    }
}

/// Where a line of the session came from.
#[derive(Clone, Copy, PartialEq, Eq, Structural, Debug)]
pub enum LineKind {
    Received,
    Sent,
    Note,
}

/// The colour of a line of the session.
pub fn line_ink(k: LineKind) -> (i: Ink)
    ensures
        i == match k {
            LineKind::Received => Ink::Text,
            LineKind::Sent => Ink::Green,
            LineKind::Note => Ink::CyanDim,
        },
{
    match k {
        LineKind::Received => Ink::Text,
        LineKind::Sent => Ink::Green,
        LineKind::Note => Ink::CyanDim,
    }
}

/// A count with its name, where there is anything to count.
pub open spec fn counted(head: Seq<char>, n: u32, tail: Seq<char>) -> Option<Seq<char>> {
    if n == 0 {
        None
    } else {
        Some(head + dec(n as nat) + tail)
    }
}

fn count_text(head: &str, n: u32, tail: &str) -> (t: Option<String>)
    ensures
        opt_text(t) == counted(head@, n, tail@),
{
    if n == 0 {
        return None;
    }
    let mut t = cat(head, decimal(n as u64).as_str());
    t.append(tail);
    Some(t)
}

/// The frames that failed their check.
pub fn bad_text(frames: u32) -> (t: Option<String>)
    ensures
        opt_text(t) == counted(Seq::empty(), frames, " bad"@),
{
    proof {
        reveal_strlit("");
        assert(""@ =~= Seq::<char>::empty());
    }
    count_text("", frames, " bad")
}

/// The frames that the far end has not acknowledged yet.
pub fn unacked_text(frames: u32) -> (t: Option<String>)
    ensures
        opt_text(t) == counted(Seq::empty(), frames, " unacked"@),
{
    proof {
        reveal_strlit("");
        assert(""@ =~= Seq::<char>::empty());
    }
    count_text("", frames, " unacked")
}

/// The tries that the link has spent.
pub fn retry_text(tries: u32) -> (t: Option<String>)
    ensures
        opt_text(t) == counted("retry "@, tries, Seq::empty()),
{
    proof {
        reveal_strlit("");
        assert(""@ =~= Seq::<char>::empty());
    }
    count_text("retry ", tries, "")
}

/// What stands in the session's place before there is one.
pub fn session_hint(lines: usize, partial: &str) -> (t: Option<&'static str>)
    ensures
        t is Some == (lines == 0 && partial@.len() == 0),
        t matches Some(s) ==> s@
            == "Not connected. Type a callsign above and press CONNECT to call a node or a BBS."@,
{
    if lines == 0 && partial.is_empty() {
        Some("Not connected. Type a callsign above and press CONNECT to call a node or a BBS.")
    } else {
        None
    }
}

/// The height of the session above the line that is typed on.
pub fn session_height(panel: u64) -> (h: u64)
    ensures
        h == if panel > 162_000 {
            panel - 102_000
        } else {
            60_000
        },
{
    if panel > 162_000 {
        panel - 102_000
    } else {
        60_000
    }
}

/// A frame reads from sender to addressee, with the path behind a comma where
/// there is one.
pub proof fn law_a_frame_reads_from_sender_to_addressee(h: Heard)
    ensures
        h.via@.len() == 0 ==> heard_text(h) == h.from@ + ">"@ + h.to@,
        h.via@.len() == 1 ==> heard_text(h) == h.from@ + ">"@ + h.to@ + ","@ + h.via@[0]@,
        h.via@.len() == 2 ==> heard_text(h) == h.from@ + ">"@ + h.to@ + ","@ + h.via@[0]@ + ","@
            + h.via@[1]@,
        (h.from@ + ">"@ + h.to@).is_prefix_of(heard_text(h)),
{
    let head = h.from@ + ">"@ + h.to@;
    let t = heard_text(h);
    assert(head =~= t.subrange(0, head.len() as int));
    let v = texts(h.via@);
    reveal_with_fuel(joined, 3);
    if v.len() == 0 {
        assert(t =~= head);
    } else if v.len() == 1 {
        assert(joined(v, ","@) =~= h.via@[0]@);
        assert(t =~= head + ","@ + h.via@[0]@);
    } else if v.len() == 2 {
        assert(joined(v, ","@) =~= h.via@[0]@ + ","@ + h.via@[1]@);
        assert(t =~= head + ","@ + h.via@[0]@ + ","@ + h.via@[1]@);
    }
}

/// Only one state of the link is a connection, only one is rest, and every other
/// is work on the way to one of them.
pub proof fn law_a_link_is_connected_idle_or_working(state: Seq<char>)
    ensures
        link_state_of("Connected"@) == LinkState::Connected,
        link_state_of("Disconnected"@) == LinkState::Idle,
        link_state_of(state) == LinkState::Connected ==> state == "Connected"@,
        link_state_of(state) == LinkState::Idle ==> state == "Disconnected"@,
        state != "Connected"@ && state != "Disconnected"@ ==> link_state_of(state)
            == LinkState::Working,
{
    reveal_strlit("Connected");
    reveal_strlit("Disconnected");
    assert("Connected"@.len() == 9 && "Disconnected"@.len() == 12);
}

/// The first step up shows the newest line and each further one the line before,
/// down to the oldest, where it stays. A step down shows the next newer line and
/// leaves the history behind the newest.
pub proof fn law_a_walk_goes_line_by_line(n: usize, len: nat)
    requires
        n < len <= usize::MAX,
    ensures
        walked(None, len, true) == Some((len - 1) as usize),
        walked(None, len, false) is None,
        n > 0 ==> walked(Some(n), len, true) == Some((n - 1) as usize),
        n == 0 ==> walked(Some(n), len, true) == Some(0usize),
        n + 1 < len ==> walked(Some(n), len, false) == Some((n + 1) as usize),
        n + 1 == len ==> walked(Some(n), len, false) is None,
{
}

/// A line that was sent stands at the end of the history, behind all the lines
/// that were there, and only a full history loses its oldest line for it. Blank
/// lines and repeats leave the history alone.
pub proof fn law_the_history_keeps_its_order(history: Seq<Seq<char>>, line: Seq<char>)
    ensures
        is_blank(line) ==> remembered(history, line) == history,
        history.len() > 0 && history.last() == line ==> remembered(history, line) == history,
        !is_blank(line) && history.len() < 100 && (history.len() == 0 || history.last() != line)
            ==> remembered(history, line) == history + seq![line],
        !is_blank(line) && history.len() == 100 && history.last() != line ==> remembered(
            history,
            line,
        ) == history.skip(1) + seq![line],
{
    let r = remembered(history, line);
    if !is_blank(line) && !(history.len() > 0 && history.last() == line) {
        if history.len() < 100 {
            assert(r =~= history + seq![line]);
        } else if history.len() == 100 {
            assert(r =~= history.skip(1) + seq![line]);
        }
    }
}

/// A count is shown where there is anything to count, as a number between its
/// words.
pub proof fn law_nothing_is_not_counted(head: Seq<char>, n: u32, tail: Seq<char>)
    ensures
        counted(head, n, tail) is Some <==> n > 0,
        n > 0 ==> counted(head, n, tail)->0 == head + dec(n as nat) + tail,
{
}

} // verus!
