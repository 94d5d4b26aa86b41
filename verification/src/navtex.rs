//! Maritime text messages: the list of them and the one being read.

use vstd::prelude::*;
use vstd::utf8::{encode_utf8, is_char_boundary};

use crate::command::{Command, DigiConfig};
use crate::ink::Ink;
use crate::text::{
    blank, cat, chars_of, dec, dec2, decimal, decimal2, is_blank, is_white, join, joined, text_of,
    texts, trim_end, trim_start, trimmed_end, white,
};

verus! {

/// One message.
#[derive(Debug)]
pub struct Message {
    pub station: char,
    pub kind: char,
    pub serial: u8,
    /// The name of its kind.
    pub kind_label: String,
    /// Of a kind that a ship may not switch off.
    pub mandatory: bool,
    /// Received to its end.
    pub complete: bool,
    /// Characters of which both copies were bad.
    pub lost: u32,
    pub text: String,
}

/// What names a message: station, kind and number.
pub open spec fn message_id(m: Message) -> Seq<char> {
    seq![m.station, m.kind] + dec2(m.serial as nat)
}

/// What names a message.
pub fn id_text(m: &Message) -> (t: String)
    ensures
        t@ == message_id(*m),
{
    let mut t = String::new();
    t.push(m.station);
    t.push(m.kind);
    t.append(decimal2(m.serial as u64).as_str());
    assert(t@ =~= message_id(*m));
    t
}

/// A message's line in the list, and its colour: the kinds that may not be
/// switched off first, then the complete ones.
pub fn message_head(m: &Message) -> (r: (String, Ink))
    ensures
        r.0@ == message_id(*m) + "  "@ + m.kind_label@,
        r.1 == if m.mandatory {
            Ink::Alert
        } else if m.complete {
            Ink::Cyan
        } else {
            Ink::Yellow
        },
{
    let mut t = id_text(m);
    t.append("  ");
    t.append(m.kind_label.as_str());
    let ink = if m.mandatory {
        Ink::Alert
    } else if m.complete {
        Ink::Cyan
    } else {
        Ink::Yellow
    };
    (t, ink)
}

/// Presses a message: it opens, or closes where it was open.
pub fn press_message(open: Option<usize>, i: usize) -> (r: Option<usize>)
    ensures
        r == if open == Some(i) {
            None
        } else {
            Some(i)
        },
{
    match open {
        Some(k) => if k == i {
            None
        } else {
            Some(i)
        },
        None => Some(i),
    }
}

/// The text up to its first line break.
pub open spec fn before_break(s: Seq<char>) -> Seq<char>
    decreases s.len(),
{
    if s.len() == 0 || s[0] == '\n' {
        Seq::empty()
    } else {
        seq![s[0]] + before_break(s.drop_first())
    }
}

/// The first line of a text that is not blank, without white space round it;
/// empty where there is none.
pub open spec fn first_line(s: Seq<char>) -> Seq<char> {
    trim_end(before_break(trim_start(s)))
}

proof fn lemma_start(s: Seq<char>, a: int)
    requires
        0 <= a <= s.len(),
        forall|i: int| 0 <= i < a ==> is_white(#[trigger] s[i]),
        a == s.len() || !is_white(s[a]),
    ensures
        trim_start(s) == s.skip(a),
    decreases a,
{
    if a == 0 {
        assert(s.skip(0) =~= s);
    } else {
        assert(is_white(s[0]));
        let t = s.drop_first();
        assert forall|i: int| 0 <= i < a - 1 implies is_white(#[trigger] t[i]) by {
            assert(t[i] == s[i + 1]);
        }
        lemma_start(t, a - 1);
        assert(t.skip(a - 1) =~= s.skip(a));
    }
}

proof fn lemma_before_break(s: Seq<char>, b: int)
    requires
        0 <= b <= s.len(),
        forall|i: int| 0 <= i < b ==> #[trigger] s[i] != '\n',
        b == s.len() || s[b] == '\n',
    ensures
        before_break(s) == s.take(b),
    decreases b,
{
    if b == 0 {
        assert(s.take(0) =~= Seq::empty());
    } else {
        assert(s[0] != '\n');
        let t = s.drop_first();
        assert forall|i: int| 0 <= i < b - 1 implies #[trigger] t[i] != '\n' by {
            assert(t[i] == s[i + 1]);
        }
        lemma_before_break(t, b - 1);
        assert(seq![s[0]] + t.take(b - 1) =~= s.take(b));
    }
}

/// The first line of a text that is not blank.
pub fn first_text_line(s: &str) -> (t: String)
    ensures
        t@ == first_line(s@),
{
    let v = chars_of(s);
    let mut a: usize = 0;
    while a < v.len() && white(v[a])
        invariant
            a <= v@.len(),
            forall|i: int| 0 <= i < a ==> is_white(#[trigger] v@[i]),
        decreases v@.len() - a,
    {
        a = a + 1;
    }
    let mut b: usize = a;
    while b < v.len() && v[b] != '\n'
        invariant
            a <= b <= v@.len(),
            forall|i: int| a <= i < b ==> #[trigger] v@[i] != '\n',
        decreases v@.len() - b,
    {
        b = b + 1;
    }
    let line = text_of(&v, a, b);
    proof {
        lemma_start(v@, a as int);
        let u = v@.skip(a as int);
        assert forall|i: int| 0 <= i < b - a implies #[trigger] u[i] != '\n' by {
            assert(u[i] == v@[i + a]);
        }
        lemma_before_break(u, b - a);
        assert(u.take(b - a) =~= v@.subrange(a as int, b as int));
    }
    trimmed_end(line.as_str())
}

/// The first line that is found holds no line break, and it is empty only
/// where the whole text is blank.
pub proof fn law_first_line_is_not_blank(s: Seq<char>)
    ensures
        (first_line(s).len() == 0) == is_blank(s),
        forall|i: int| 0 <= i < first_line(s).len() ==> #[trigger] first_line(s)[i] != '\n',
{
    lemma_no_break(trim_start(s));
    lemma_end_is_a_cut(before_break(trim_start(s)));
    lemma_skips_blank(s);
    let t = trim_start(s);
    crate::text::lemma_trim_blank(before_break(t));
    if t.len() > 0 {
        assert(is_white('\n'));
        assert(before_break(t).len() > 0 && before_break(t)[0] == t[0]);
        assert(!is_blank(before_break(t)));
    }
}

proof fn lemma_no_break(s: Seq<char>)
    ensures
        forall|i: int| 0 <= i < before_break(s).len() ==> #[trigger] before_break(s)[i] != '\n',
    decreases s.len(),
{
    if s.len() > 0 && s[0] != '\n' {
        let t = s.drop_first();
        lemma_no_break(t);
        assert forall|i: int| 0 <= i < before_break(s).len() implies #[trigger] before_break(s)[i]
            != '\n' by {
            if i > 0 {
                assert(before_break(s)[i] == before_break(t)[i - 1]);
            }
        }
    }
}

proof fn lemma_end_is_a_cut(s: Seq<char>)
    ensures
        trim_end(s).len() <= s.len(),
        forall|i: int| 0 <= i < trim_end(s).len() ==> #[trigger] trim_end(s)[i] == s[i],
    decreases s.len(),
{
    if s.len() > 0 && is_white(s.last()) {
        lemma_end_is_a_cut(s.drop_last());
    }
}

proof fn lemma_skips_blank(s: Seq<char>)
    ensures
        trim_start(s).len() > 0 ==> !is_white(trim_start(s)[0]),
        (trim_start(s).len() == 0) == is_blank(s),
    decreases s.len(),
{
    if s.len() > 0 && is_white(s[0]) {
        let t = s.drop_first();
        lemma_skips_blank(t);
        if is_blank(t) {
            assert forall|i: int| 0 <= i < s.len() implies is_white(#[trigger] s[i]) by {
                if i > 0 {
                    assert(s[i] == t[i - 1]);
                }
            }
        }
        if is_blank(s) {
            assert forall|i: int| 0 <= i < t.len() implies is_white(#[trigger] t[i]) by {
                assert(t[i] == s[i + 1]);
            }
        }
    }
}

/// A message's preview before it is cut: indented under its heading.
pub open spec fn preview_line(m: Message) -> Seq<char> {
    "      "@ + first_line(m.text@)
}

/// The bytes that a preview has room for.
pub const PREVIEW_BYTES: usize = 60;

/// True when a preview can be cut to its room without splitting a character.
pub open spec fn can_cut(line: Seq<char>) -> bool {
    encode_utf8(line).len() <= PREVIEW_BYTES || is_char_boundary(
        encode_utf8(line),
        PREVIEW_BYTES as int,
    )
}

/// A message's preview, cut to its room.
pub fn preview(m: &Message) -> (t: String)
    requires
        encode_utf8(preview_line(*m)).len() <= usize::MAX,
        can_cut(preview_line(*m)),
    ensures
        encode_utf8(t@) == if encode_utf8(preview_line(*m)).len() <= PREVIEW_BYTES {
            encode_utf8(preview_line(*m))
        } else {
            encode_utf8(preview_line(*m)).take(PREVIEW_BYTES as int)
        },
{
    let line = cat("      ", first_text_line(m.text.as_str()).as_str());
    let s = line.as_str();
    if s.len() <= PREVIEW_BYTES {
        return line;
    }
    let (head, _rest) = s.split_at(PREVIEW_BYTES);
    proof {
        let b = encode_utf8(preview_line(*m));
        assert(b.subrange(0, PREVIEW_BYTES as int) =~= b.take(PREVIEW_BYTES as int));
    }
    head.to_owned()
}

/// What is wrong with a message, where something is.
pub open spec fn faults(m: Message) -> Seq<Seq<char>> {
    (if m.complete {
        seq![]
    } else {
        seq!["cut short"@]
    }) + (if m.lost > 0 {
        seq![dec(m.lost as nat) + " characters lost"@]
    } else {
        seq![]
    })
}

/// The line about what is wrong with a message; `None` where nothing is.
pub fn fault_line(m: &Message) -> (t: Option<String>)
    ensures
        t is Some == (!m.complete || m.lost > 0),
        t matches Some(s) ==> s@ == "      "@ + joined(faults(*m), ", "@),
{
    if m.complete && m.lost == 0 {
        return None;
    }
    let mut why: Vec<String> = Vec::new();
    if !m.complete {
        why.push("cut short".to_owned());
    }
    if m.lost > 0 {
        let mut n = decimal(m.lost as u64);
        n.append(" characters lost");
        why.push(n);
    }
    assert(texts(why@) =~= faults(*m));
    Some(cat("      ", join(&why, ", ").as_str()))
}

/// The figures of the time diversity, shown once there are any.
pub fn diversity(repaired: u32, lost: u32) -> (r: Option<(String, Ink)>)
    ensures
        r is Some == (repaired > 0 || lost > 0),
        r matches Some((t, i)) ==> t@ == dec(repaired as nat) + " repaired · "@ + dec(lost as nat)
            + " lost"@ && i == if lost > 0 {
            Ink::Yellow
        } else {
            Ink::CyanDim
        },
{
    if repaired == 0 && lost == 0 {
        return None;
    }
    let mut t = decimal(repaired as u64);
    t.append(" repaired · ");
    t.append(decimal(lost as u64).as_str());
    t.append(" lost");
    Some(
        (
            t,
            if lost > 0 {
                Ink::Yellow
            } else {
                Ink::CyanDim
            },
        ),
    )
}

/// What the reading pane shows.
#[derive(Clone, Copy, PartialEq, Eq, Structural, Debug)]
pub enum Reading {
    /// The message at this place of the list.
    Message(usize),
    /// A place was opened that the list no longer has; the message being
    /// received is shown under the heading of an opened one.
    LiveOpened,
    /// The message being received.
    Receiving,
    /// Everything decoded, message or not.
    Monitor,
}

/// What the reading pane shows: the opened message, else the one being
/// received, else everything decoded.
pub fn reading(open: Option<usize>, messages: usize, live: bool) -> (r: Reading)
    ensures
        r == match open {
            Some(i) => if i < messages {
                Reading::Message(i)
            } else if live {
                Reading::LiveOpened
            } else {
                Reading::Monitor
            },
            None => if live {
                Reading::Receiving
            } else {
                Reading::Monitor
            },
        },
{
    match open {
        Some(i) => if i < messages {
            Reading::Message(i)
        } else if live {
            Reading::LiveOpened
        } else {
            Reading::Monitor
        },
        None => if live {
            Reading::Receiving
        } else {
            Reading::Monitor
        },
    }
}

/// Swaps mark and space, for a signal received on the other sideband. The swap
/// is sent only where the radio's own settings have arrived.
pub fn press_reverse(reverse: &mut bool, seeded: bool) -> (c: Option<Command>)
    ensures
        *final(reverse) == !*old(reverse),
        c == if seeded {
            Some(Command::SetDigiConfig(DigiConfig::NavtexReverse(*final(reverse))))
        } else {
            None
        },
{
    *reverse = !*reverse;
    if seeded {
        Some(Command::SetDigiConfig(DigiConfig::NavtexReverse(*reverse)))
    } else {
        None
    }
}

/// The heading of the reading pane.
pub fn reading_title(r: Reading) -> (t: &'static str)
    ensures
        t@ == match r {
            Reading::Message(_) | Reading::LiveOpened => "MESSAGE"@,
            Reading::Receiving => "RECEIVING"@,
            Reading::Monitor => "MONITOR"@,
        },
{
    match r {
        Reading::Message(_) | Reading::LiveOpened => "MESSAGE",
        Reading::Receiving => "RECEIVING",
        Reading::Monitor => "MONITOR",
    }
}

/// True when the pane follows the text as it grows.
pub fn follows(r: Reading, open: Option<usize>) -> (b: bool)
    ensures
        b == (r == Reading::Monitor || open is None),
{
    r == Reading::Monitor || open.is_none()
}

/// A message is named by its station, its kind and its two-digit number.
pub proof fn law_a_message_is_named_by_its_sender(m: Message)
    ensures
        message_id(m)[0] == m.station,
        message_id(m)[1] == m.kind,
        message_id(m).skip(2) == dec2(m.serial as nat),
        m.serial < 100 ==> message_id(m).len() == 4,
{
    assert(message_id(m).skip(2) =~= dec2(m.serial as nat));
    if m.serial < 100 {
        crate::text::law_two_digits(m.serial as nat);
    }
}

/// A line goes to the first line break and not over it.
pub proof fn law_a_line_ends_at_its_break(line: Seq<char>, rest: Seq<char>)
    requires
        forall|i: int| 0 <= i < line.len() ==> #[trigger] line[i] != '\n',
    ensures
        before_break(line) == line,
        before_break(line + seq!['\n'] + rest) == line,
{
    let s = line + seq!['\n'] + rest;
    lemma_before_break(line, line.len() as int);
    lemma_before_break(s, line.len() as int);
    assert(line.take(line.len() as int) =~= line);
    assert(s.take(line.len() as int) =~= line);
}

/// Blank lines and spaces before the first text, and spaces behind it, are not
/// part of the line that is found.
pub proof fn law_the_first_line_is_found(blank: Seq<char>, line: Seq<char>, rest: Seq<char>)
    requires
        is_blank(blank),
        line.len() > 0,
        !is_white(line[0]),
        !is_white(line.last()),
        forall|i: int| 0 <= i < line.len() ==> #[trigger] line[i] != '\n',
    ensures
        first_line(blank + line) == line,
        first_line(blank + line + seq![' '] + seq!['\n'] + rest) == line,
{
    let a = blank.len() as int;
    let s = blank + line;
    assert forall|i: int| 0 <= i < a implies is_white(#[trigger] s[i]) by {
        assert(s[i] == blank[i]);
    }
    lemma_start(s, a);
    assert(s.skip(a) =~= line);
    law_a_line_ends_at_its_break(line, rest);
    let u = blank + line + seq![' '] + seq!['\n'] + rest;
    assert forall|i: int| 0 <= i < a implies is_white(#[trigger] u[i]) by {
        assert(u[i] == blank[i]);
    }
    assert(u[a] == line[0]);
    lemma_start(u, a);
    let body = line + seq![' '];
    assert(u.skip(a) =~= body + seq!['\n'] + rest);
    law_a_line_ends_at_its_break(body, rest);
    assert(body.drop_last() =~= line);
    assert(is_white(body.last()));
}

/// A preview stands under the message's name, indented by six spaces.
pub proof fn law_a_preview_is_indented(m: Message)
    ensures
        preview_line(m).len() == 6 + first_line(m.text@).len(),
        preview_line(m).skip(6) == first_line(m.text@),
        forall|i: int| 0 <= i < 6 ==> #[trigger] preview_line(m)[i] == ' ',
{
    reveal_strlit("      ");
    assert(preview_line(m).skip(6) =~= first_line(m.text@));
}

/// A message that was cut short says so, and how many characters were lost where
/// any were. A whole message has no faults.
pub proof fn law_each_fault_is_told(m: Message)
    ensures
        m.complete && m.lost == 0 ==> faults(m).len() == 0,
        !m.complete && m.lost == 0 ==> faults(m) == seq!["cut short"@],
        m.complete && m.lost > 0 ==> faults(m) == seq![dec(m.lost as nat) + " characters lost"@],
        !m.complete && m.lost > 0 ==> faults(m) == seq![
            "cut short"@,
            dec(m.lost as nat) + " characters lost"@,
        ],
{
}

} // verus!
